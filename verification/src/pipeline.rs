//! One frame through the whole decoder: hex text to bytes, bytes to a
//! typed message, CPR reconstruction for the position-bearing payloads,
//! and the state-table update.

use vstd::prelude::*;
use crate::DecodeError;
use crate::hexparse::{parse_hex, spec_is_hex};
use crate::message::{Message, ME, parse, spec_parse_err, spec_msg_ok, spec_icao24};
use crate::cpr::{CprTable, Position, AircraftState, decode_position, spec_cpr_step,
    spec_me_cpr, spec_me_with_pos, spec_find, spec_state0};
use crate::snapshot::{StateMap, StateVectors, update_snapshot, spec_sorted, spec_sfind,
    spec_snap_wf, spec_apply, spec_new_snapshot, spec_scrub};

verus! {

/// The byte sequence a hex string decodes to.
pub open spec fn spec_hex_bytes(t: Seq<u8>) -> Seq<u8> {
    Seq::new(t.len() / 2, |i: int| crate::hexparse::spec_hex_pair(t, i))
}

/// The scratch of one aircraft, or the empty scratch for one not yet
/// heard.
pub open spec fn spec_scratch_of(air: Seq<(u32, AircraftState)>, icao: u32) -> AircraftState {
    match spec_find(air, icao) {
        Some(s) => s,
        None => spec_state0(),
    }
}

/// The parsed message after the position pass: a position-bearing
/// payload carries the latitude and longitude that `spec_cpr_step`
/// yields on its aircraft's scratch; every other message passes through
/// unchanged.
pub open spec fn spec_after_position(
    m0: Message,
    ts: u64,
    air: Seq<(u32, AircraftState)>,
    reference: Option<Position>,
) -> Message {
    match m0 {
        Message::ExtendedSquitterADSB { icao24, ca, message } => match spec_me_cpr(message) {
            Some(c) => {
                let step = spec_cpr_step(
                    spec_scratch_of(air, icao24),
                    c.0,
                    c.1 as int,
                    c.2 as int,
                    ts,
                    reference,
                    c.3,
                );
                Message::ExtendedSquitterADSB {
                    icao24,
                    ca,
                    message: spec_me_with_pos(message, step.1),
                }
            },
            None => m0,
        },
        Message::ExtendedSquitterTisB { cf, aa, me } => match spec_me_cpr(me) {
            Some(c) => {
                let step = spec_cpr_step(
                    spec_scratch_of(air, aa),
                    c.0,
                    c.1 as int,
                    c.2 as int,
                    ts,
                    reference,
                    c.3,
                );
                Message::ExtendedSquitterTisB { cf, aa, me: spec_me_with_pos(me, step.1) }
            },
            None => m0,
        },
        _ => m0,
    }
}

/// How the position pass moves the scratch table and the reference: the
/// message's aircraft takes the stepped scratch and the reference moves
/// with the step; for any other message both stay put.
pub open spec fn spec_scratch_pass(
    m0: Message,
    ts: u64,
    air0: Seq<(u32, AircraftState)>,
    air1: Seq<(u32, AircraftState)>,
    ref0: Option<Position>,
    ref1: Option<Position>,
) -> bool {
    let key_me: Option<(u32, ME)> = match m0 {
        Message::ExtendedSquitterADSB { icao24, message, .. } => Some((icao24, message)),
        Message::ExtendedSquitterTisB { aa, me, .. } => Some((aa, me)),
        _ => None,
    };
    match key_me {
        Some((k, me)) => match spec_me_cpr(me) {
            Some(c) => {
                let step = spec_cpr_step(
                    spec_scratch_of(air0, k),
                    c.0,
                    c.1 as int,
                    c.2 as int,
                    ts,
                    ref0,
                    c.3,
                );
                &&& spec_find(air1, k) == Some(step.0)
                &&& forall|q: u32| q != k ==> spec_find(air1, q) == spec_find(air0, q)
                &&& ref1 == step.2
            },
            None => air1 == air0 && ref1 == ref0,
        },
        None => air1 == air0 && ref1 == ref0,
    }
}

/// The aggregation effect of one message on the state table: the
/// message's aircraft holds the applied snapshot, every other entry is
/// untouched, and a message without an address changes nothing.
pub open spec fn spec_aggregate_pass(
    m1: Message,
    ts: u64,
    st0: Seq<(u32, StateVectors)>,
    st1: Seq<(u32, StateVectors)>,
) -> bool {
    match spec_icao24(m1) {
        None => st1 == st0,
        Some(a) => {
            let snap0 = match spec_sfind(st0, a) {
                Some(sv) => sv.cur,
                None => spec_new_snapshot(ts),
            };
            &&& spec_sfind(st1, a) == Some(StateVectors { cur: spec_apply(m1, snap0, ts) })
            &&& forall|q: u32| q != a ==> spec_sfind(st1, q) == spec_sfind(st0, q)
        },
    }
}

/// Decodes one timestamped hex frame and applies it to the live state.
///
/// On success the whole effect is pinned: the result is some message
/// that parses from the frame's bytes, run through the position pass
/// and scrubbed of an ambiguous Comm-B classification; the CPR scratch,
/// the reference and the state table move exactly as the position pass
/// and the aggregation say.  An error (`InvalidHex` for non-hex text,
/// then whatever `parse` rejects) drops the frame and changes nothing.
/// The state table's laws are restated besides: entries persist, `last`
/// never falls, `first <= last` is kept, and the table stays sorted.
pub fn process_frame(
    ts: u64,
    frame_hex: &[u8],
    states: &mut StateMap,
    aircraft: &mut CprTable,
    reference: &mut Option<Position>,
) -> (r: Result<Message, DecodeError>)
    requires
        spec_sorted(old(states).entries@),
    ensures
        spec_sorted(final(states).entries@),
        !spec_is_hex(frame_hex@) <==> r == Err::<Message, DecodeError>(
            DecodeError::InvalidHex,
        ),
        spec_is_hex(frame_hex@) ==> (spec_parse_err(spec_hex_bytes(frame_hex@), false)
            matches Some(e) ==> r == Err::<Message, DecodeError>(e)),
        spec_is_hex(frame_hex@) && spec_parse_err(spec_hex_bytes(frame_hex@), false) is None
            ==> exists|m0: Message|
            {
                let m1 = spec_after_position(m0, ts, old(aircraft).entries@, *old(reference));
                &&& #[trigger] spec_msg_ok(spec_hex_bytes(frame_hex@), m0)
                &&& spec_scratch_pass(
                    m0,
                    ts,
                    old(aircraft).entries@,
                    final(aircraft).entries@,
                    *old(reference),
                    *final(reference),
                )
                &&& r == Ok::<Message, DecodeError>(spec_scrub(m1))
                &&& spec_aggregate_pass(m1, ts, old(states).entries@, final(states).entries@)
            },
        r is Err ==> final(states).entries@ == old(states).entries@
            && final(aircraft).entries@ == old(aircraft).entries@ && *final(reference)
            == *old(reference),
        forall|q: u32| #[trigger] spec_sfind(old(states).entries@, q) is Some ==> spec_sfind(
            final(states).entries@,
            q,
        ) is Some,
        forall|q: u32|
            #[trigger] spec_sfind(old(states).entries@, q) matches Some(o) ==> spec_sfind(
                final(states).entries@,
                q,
            ) matches Some(f) ==> f.cur.last >= o.cur.last,
        (forall|q: u32|
            #[trigger] spec_sfind(old(states).entries@, q) matches Some(o) ==> spec_snap_wf(
                o.cur,
            )) ==> (forall|q: u32|
            #[trigger] spec_sfind(final(states).entries@, q) matches Some(f) ==> spec_snap_wf(
                f.cur,
            )),
{
    let bytes: Vec<u8> = match parse_hex(frame_hex) {
        Ok(b) => b,
        Err(e) => {
            return Err(e);
        },
    };
    proof {
        assert(bytes@ =~= spec_hex_bytes(frame_hex@));
    }
    let msg0: Message = match parse(bytes.as_slice(), false) {
        Ok(m) => m,
        Err(e) => {
            return Err(e);
        },
    };
    let ghost g0 = msg0;
    let mut msg: Message = match msg0 {
        Message::ExtendedSquitterADSB { icao24: ic, ca, message } => {
            let mut me = message;
            decode_position(&mut me, ts, ic, aircraft, reference);
            Message::ExtendedSquitterADSB { icao24: ic, ca, message: me }
        },
        Message::ExtendedSquitterTisB { cf, aa, me } => {
            let mut m2 = me;
            decode_position(&mut m2, ts, aa, aircraft, reference);
            Message::ExtendedSquitterTisB { cf, aa, me: m2 }
        },
        m => m,
    };
    proof {
        assert(msg == spec_after_position(g0, ts, old(aircraft).entries@, *old(reference)));
        assert(spec_scratch_pass(
            g0,
            ts,
            old(aircraft).entries@,
            aircraft.entries@,
            *old(reference),
            *reference,
        ));
    }
    let ghost m1g = msg;
    update_snapshot(states, &mut msg, ts);
    proof {
        assert(spec_msg_ok(spec_hex_bytes(frame_hex@), g0));
        assert(msg == spec_scrub(m1g));
        assert(spec_aggregate_pass(m1g, ts, old(states).entries@, states.entries@));
    }
    Ok(msg)
}

} // verus!
