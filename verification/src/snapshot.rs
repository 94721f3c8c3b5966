//! The per-aircraft state table: a snapshot of the latest decoded
//! values for every aircraft heard, keyed by 24-bit address and kept in
//! ascending key order.
//!
//! `update_snapshot` applies one decoded message.  Its contract pins
//! the whole effect down, and states the table's laws besides: the
//! updated aircraft is in the table afterwards, no other entry changes,
//! `last` never decreases, `first <= last` is preserved, and a Comm-B
//! reply that matched both candidate registers writes none of them.

use vstd::prelude::*;
use crate::message::{Message, ME, icao24, spec_icao24};
use crate::bds::CommB;

verus! {

/// The latest known values for one aircraft.  Timestamps in seconds;
/// positions in millionths of a degree; track, heading and roll in
/// 2048-per-turn units; speeds in knots; the Mach number in
/// thousandths; the vertical rate in feet per minute.
#[derive(Debug)]
pub struct Snapshot {
    pub first: u64,
    pub last: u64,
    pub callsign: Option<String>,
    pub squawk: Option<u16>,
    pub latitude: Option<i64>,
    pub longitude: Option<i64>,
    pub altitude: Option<u16>,
    pub groundspeed: Option<u32>,
    pub vertical_rate: Option<i16>,
    pub track: Option<u16>,
    pub ias: Option<u16>,
    pub mach: Option<u16>,
    pub roll: Option<i16>,
}

/// One aircraft's state vector: its current snapshot.
#[derive(Debug)]
pub struct StateVectors {
    pub cur: Snapshot,
}

/// A snapshot as created on first contact: both timestamps at the
/// message time, everything else unset.
pub open spec fn spec_new_snapshot(ts: u64) -> Snapshot {
    Snapshot {
        first: ts,
        last: ts,
        callsign: None,
        squawk: None,
        latitude: None,
        longitude: None,
        altitude: None,
        groundspeed: None,
        vertical_rate: None,
        track: None,
        ias: None,
        mach: None,
        roll: None,
    }
}

/// An executable copy of `spec_new_snapshot`.
pub fn new_snapshot(ts: u64) -> (s: Snapshot)
    ensures
        s == spec_new_snapshot(ts),
{
    Snapshot {
        first: ts,
        last: ts,
        callsign: None,
        squawk: None,
        latitude: None,
        longitude: None,
        altitude: None,
        groundspeed: None,
        vertical_rate: None,
        track: None,
        ias: None,
        mach: None,
        roll: None,
    }
}

/// `first <= last` — the snapshot invariant.
pub open spec fn spec_snap_wf(s: Snapshot) -> bool {
    s.first <= s.last
}

/// The payload fields one extended squitter writes into a snapshot:
/// each optional field overwrites only when the message carries it.  A
/// velocity report's heading stands in for the track when no ground
/// track is carried.
pub open spec fn spec_apply_me(me: ME, s: Snapshot) -> Snapshot {
    match me {
        ME::BDS05(b) => Snapshot {
            altitude: if b.alt is Some {
                b.alt
            } else {
                s.altitude
            },
            latitude: if b.latitude is Some {
                b.latitude
            } else {
                s.latitude
            },
            longitude: if b.longitude is Some {
                b.longitude
            } else {
                s.longitude
            },
            ..s
        },
        ME::BDS06(b) => Snapshot {
            latitude: if b.latitude is Some {
                b.latitude
            } else {
                s.latitude
            },
            longitude: if b.longitude is Some {
                b.longitude
            } else {
                s.longitude
            },
            track: if b.track is Some {
                b.track
            } else {
                s.track
            },
            groundspeed: if b.groundspeed is Some {
                b.groundspeed
            } else {
                s.groundspeed
            },
            ..s
        },
        ME::BDS08(b) => Snapshot { callsign: Some(b.callsign), ..s },
        ME::BDS09(b) => Snapshot {
            vertical_rate: if b.vertical_rate is Some {
                b.vertical_rate
            } else {
                s.vertical_rate
            },
            groundspeed: if b.groundspeed is Some {
                b.groundspeed
            } else {
                s.groundspeed
            },
            track: if b.track is Some {
                b.track
            } else if b.heading is Some {
                b.heading
            } else {
                s.track
            },
            ias: if b.ias is Some {
                b.ias
            } else {
                s.ias
            },
            ..s
        },
        ME::Other { .. } => s,
    }
}

/// The Comm-B rules: a reply that matched both candidate registers
/// contributes nothing; a unique match writes its fields.
pub open spec fn spec_apply_commb(bds: CommB, s: Snapshot) -> Snapshot {
    if bds.bds50 is Some && bds.bds60 is Some {
        s
    } else {
        match bds.bds50 {
            Some(b) => Snapshot {
                roll: if b.roll is Some {
                    b.roll
                } else {
                    s.roll
                },
                track: if b.track is Some {
                    b.track
                } else {
                    s.track
                },
                groundspeed: match b.groundspeed {
                    Some(g) => Some(g as u32),
                    None => s.groundspeed,
                },
                ..s
            },
            None => match bds.bds60 {
                Some(b) => Snapshot {
                    ias: if b.ias is Some {
                        b.ias
                    } else {
                        s.ias
                    },
                    mach: if b.mach is Some {
                        b.mach
                    } else {
                        s.mach
                    },
                    ..s
                },
                None => s,
            },
        }
    }
}

/// The whole effect of one message on one snapshot: `last` advances to
/// the message time if later, and the fields of the message's class
/// overwrite.
pub open spec fn spec_apply(m: Message, s0: Snapshot, ts: u64) -> Snapshot {
    let s = Snapshot {
        last: if ts > s0.last {
            ts
        } else {
            s0.last
        },
        ..s0
    };
    match m {
        Message::SurveillanceIdentityReply { id, .. } => Snapshot { squawk: Some(id), ..s },
        Message::SurveillanceAltitudeReply { altitude, .. } => Snapshot {
            altitude: if altitude is Some {
                altitude
            } else {
                s.altitude
            },
            ..s
        },
        Message::ExtendedSquitterADSB { message, .. } => spec_apply_me(message, s),
        Message::ExtendedSquitterTisB { cf, me, .. } => if cf == 0 || cf == 2 || cf == 5 {
            spec_apply_me(me, s)
        } else {
            s
        },
        Message::CommBAltitudeReply { altitude, bds, .. } => spec_apply_commb(
            bds,
            Snapshot {
                altitude: if altitude is Some {
                    altitude
                } else {
                    s.altitude
                },
                ..s
            },
        ),
        Message::CommBIdentityReply { bds, .. } => spec_apply_commb(bds, s),
        _ => s,
    }
}

/// `m` with an ambiguous Comm-B classification cleared: when both
/// candidates matched, neither is trusted and both are dropped from the
/// message itself.
pub open spec fn spec_scrub(m: Message) -> Message {
    match m {
        Message::CommBAltitudeReply { fs, altitude, bds, ap } => if bds.bds50 is Some
            && bds.bds60 is Some {
            Message::CommBAltitudeReply {
                fs,
                altitude,
                bds: CommB { bds50: None, bds60: None },
                ap,
            }
        } else {
            m
        },
        Message::CommBIdentityReply { fs, id, bds, ap } => if bds.bds50 is Some
            && bds.bds60 is Some {
            Message::CommBIdentityReply { fs, id, bds: CommB { bds50: None, bds60: None }, ap }
        } else {
            m
        },
        _ => m,
    }
}

/// First match of `k` in a table's entries.
pub open spec fn spec_sfind(s: Seq<(u32, StateVectors)>, k: u32) -> Option<StateVectors>
    decreases s.len(),
{
    if s.len() == 0 {
        None
    } else if s[0].0 == k {
        Some(s[0].1)
    } else {
        spec_sfind(s.drop_first(), k)
    }
}

/// Strictly ascending keys.
pub open spec fn spec_sorted(s: Seq<(u32, StateVectors)>) -> bool {
    forall|x: int, y: int| 0 <= x < y < s.len() ==> s[x].0 < s[y].0
}

proof fn lemma_sfind_at(s: Seq<(u32, StateVectors)>, k: u32, i: int)
    requires
        0 <= i < s.len(),
        s[i].0 == k,
        forall|j: int| 0 <= j < i ==> s[j].0 != k,
    ensures
        spec_sfind(s, k) == Some(s[i].1),
    decreases i,
{
    if i > 0 {
        lemma_sfind_at(s.drop_first(), k, i - 1);
    }
}

proof fn lemma_sfind_none(s: Seq<(u32, StateVectors)>, k: u32)
    requires
        forall|j: int| 0 <= j < s.len() ==> s[j].0 != k,
    ensures
        spec_sfind(s, k) is None,
    decreases s.len(),
{
    if s.len() > 0 {
        lemma_sfind_none(s.drop_first(), k);
    }
}

proof fn lemma_sfind_update(s: Seq<(u32, StateVectors)>, i: int, v: StateVectors, q: u32)
    requires
        0 <= i < s.len(),
        s[i].0 != q,
    ensures
        spec_sfind(s.update(i, (s[i].0, v)), q) == spec_sfind(s, q),
    decreases i,
{
    let s2 = s.update(i, (s[i].0, v));
    if i == 0 {
        assert(s2.drop_first() =~= s.drop_first());
    } else {
        assert(s2.drop_first() =~= s.drop_first().update(i - 1, (s[i].0, v)));
        lemma_sfind_update(s.drop_first(), i - 1, v, q);
    }
}

proof fn lemma_sfind_insert_other(
    s: Seq<(u32, StateVectors)>,
    i: int,
    kv: (u32, StateVectors),
    q: u32,
)
    requires
        0 <= i <= s.len(),
        kv.0 != q,
    ensures
        spec_sfind(s.insert(i, kv), q) == spec_sfind(s, q),
    decreases i,
{
    let s2 = s.insert(i, kv);
    if i == 0 {
        assert(s2.drop_first() =~= s);
    } else {
        assert(s2.drop_first() =~= s.drop_first().insert(i - 1, kv));
        lemma_sfind_insert_other(s.drop_first(), i - 1, kv, q);
    }
}

/// The state table, in ascending key order.
pub struct StateMap {
    pub entries: Vec<(u32, StateVectors)>,
}

impl StateMap {
    /// An empty table.
    pub fn new() -> (t: StateMap)
        ensures
            t.entries@.len() == 0,
            spec_sorted(t.entries@),
    {
        StateMap { entries: Vec::new() }
    }

    /// The index of an aircraft's entry, if it has one.
    pub fn find_index(&self, k: u32) -> (r: Option<usize>)
        ensures
            match r {
                Some(i) => i < self.entries@.len() && self.entries@[i as int].0 == k
                    && spec_sfind(self.entries@, k) == Some(self.entries@[i as int].1),
                None => spec_sfind(self.entries@, k) is None,
            },
    {
        let n: usize = self.entries.len();
        let mut i: usize = 0;
        while i < n
            invariant
                i <= n == self.entries@.len(),
                forall|j: int| 0 <= j < i ==> self.entries@[j].0 != k,
            decreases n - i,
        {
            if self.entries[i].0 == k {
                proof {
                    lemma_sfind_at(self.entries@, k, i as int);
                }
                return Some(i);
            }
            i = i + 1;
        }
        proof {
            lemma_sfind_none(self.entries@, k);
        }
        None
    }
}

fn apply_msg(msg: &Message, snap: &mut Snapshot, ts: u64)
    ensures
        *final(snap) == spec_apply(*msg, *old(snap), ts),
{
    if ts > snap.last {
        snap.last = ts;
    }
    match msg {
        Message::SurveillanceIdentityReply { id, .. } => {
            snap.squawk = Some(*id);
        },
        Message::SurveillanceAltitudeReply { altitude, .. } => {
            if let Some(a) = altitude {
                snap.altitude = Some(*a);
            }
        },
        Message::ExtendedSquitterADSB { message, .. } => {
            apply_me(message, snap);
        },
        Message::ExtendedSquitterTisB { cf, me, .. } => {
            if *cf == 0 || *cf == 2 || *cf == 5 {
                apply_me(me, snap);
            }
        },
        Message::CommBAltitudeReply { altitude, bds, .. } => {
            if let Some(a) = altitude {
                snap.altitude = Some(*a);
            }
            apply_commb(bds, snap);
        },
        Message::CommBIdentityReply { bds, .. } => {
            apply_commb(bds, snap);
        },
        _ => {
        },
    }
}

fn apply_me(me: &ME, snap: &mut Snapshot)
    ensures
        *final(snap) == spec_apply_me(*me, *old(snap)),
{
    match me {
        ME::BDS05(b) => {
            if let Some(a) = b.alt {
                snap.altitude = Some(a);
            }
            if let Some(v) = b.latitude {
                snap.latitude = Some(v);
            }
            if let Some(v) = b.longitude {
                snap.longitude = Some(v);
            }
        },
        ME::BDS06(b) => {
            if let Some(v) = b.latitude {
                snap.latitude = Some(v);
            }
            if let Some(v) = b.longitude {
                snap.longitude = Some(v);
            }
            if let Some(v) = b.track {
                snap.track = Some(v);
            }
            if let Some(v) = b.groundspeed {
                snap.groundspeed = Some(v);
            }
        },
        ME::BDS08(b) => {
            snap.callsign = Some(b.callsign.clone());
        },
        ME::BDS09(b) => {
            if let Some(v) = b.vertical_rate {
                snap.vertical_rate = Some(v);
            }
            if let Some(v) = b.groundspeed {
                snap.groundspeed = Some(v);
            }
            if let Some(v) = b.track {
                snap.track = Some(v);
            } else if let Some(v) = b.heading {
                snap.track = Some(v);
            }
            if let Some(v) = b.ias {
                snap.ias = Some(v);
            }
        },
        ME::Other { .. } => {
        },
    }
}

fn apply_commb(bds: &CommB, snap: &mut Snapshot)
    ensures
        *final(snap) == spec_apply_commb(*bds, *old(snap)),
{
    if bds.bds50.is_some() && bds.bds60.is_some() {
        return ;
    }
    if let Some(b) = bds.bds50 {
        if let Some(v) = b.roll {
            snap.roll = Some(v);
        }
        if let Some(v) = b.track {
            snap.track = Some(v);
        }
        if let Some(v) = b.groundspeed {
            snap.groundspeed = Some(v as u32);
        }
    } else if let Some(b) = bds.bds60 {
        if let Some(v) = b.ias {
            snap.ias = Some(v);
        }
        if let Some(v) = b.mach {
            snap.mach = Some(v);
        }
    }
}

/// Applies one decoded message to the state table.
///
/// The message's aircraft gets an entry (created on first contact with
/// both timestamps at the message time), `last` advances, and the
/// message's fields overwrite per class; a message without an address
/// changes nothing.  A Comm-B reply that matched both candidate
/// registers is scrubbed in place and contributes no register fields.
pub fn update_snapshot(states: &mut StateMap, msg: &mut Message, ts: u64)
    requires
        spec_sorted(old(states).entries@),
    ensures
        *final(msg) == spec_scrub(*old(msg)),
        spec_icao24(*old(msg)) is None ==> final(states).entries@ == old(states).entries@,
        spec_icao24(*old(msg)) matches Some(a) ==> {
            let snap0 = match spec_sfind(old(states).entries@, a) {
                Some(sv) => sv.cur,
                None => spec_new_snapshot(ts),
            };
            &&& spec_sfind(final(states).entries@, a) == Some(
                StateVectors { cur: spec_apply(*old(msg), snap0, ts) },
            )
            &&& forall|q: u32| q != a ==> spec_sfind(final(states).entries@, q)
                == spec_sfind(old(states).entries@, q)
        },
        // the table stays sorted by address
        spec_sorted(final(states).entries@),
        // every aircraft ever entered keeps an entry
        forall|q: u32| #[trigger] spec_sfind(old(states).entries@, q) is Some ==> spec_sfind(
            final(states).entries@,
            q,
        ) is Some,
        // `last` never decreases
        forall|q: u32|
            #[trigger] spec_sfind(old(states).entries@, q) matches Some(o) ==> spec_sfind(
                final(states).entries@,
                q,
            ) matches Some(f) ==> f.cur.last >= o.cur.last,
        // `first <= last` is preserved
        (forall|q: u32|
            #[trigger] spec_sfind(old(states).entries@, q) matches Some(o) ==> spec_snap_wf(
                o.cur,
            )) ==> (forall|q: u32|
            #[trigger] spec_sfind(final(states).entries@, q) matches Some(f) ==> spec_snap_wf(
                f.cur,
            )),
        // a doubly-matched Comm-B reply writes no register field
        spec_icao24(*old(msg)) matches Some(a) ==> spec_commb_both(*old(msg)) ==> {
            let snap0 = match spec_sfind(old(states).entries@, a) {
                Some(sv) => sv.cur,
                None => spec_new_snapshot(ts),
            };
            spec_sfind(final(states).entries@, a) matches Some(f) && f.cur.roll
                == snap0.roll && f.cur.ias == snap0.ias && f.cur.mach == snap0.mach
                && f.cur.track == snap0.track && f.cur.groundspeed == snap0.groundspeed
        },
{
    let a: u32 = match icao24(&*msg) {
        Some(a) => a,
        None => {
            scrub_msg(msg);
            return ;
        },
    };
    scrub_msg(msg);
    let ghost old_entries = states.entries@;
    let n: usize = states.entries.len();
    let mut i: usize = 0;
    while i < n && states.entries[i].0 < a
        invariant
            i <= n == states.entries@.len(),
            states.entries@ == old(states).entries@,
            forall|j: int| 0 <= j < i ==> states.entries@[j].0 < a,
        decreases n - i,
    {
        i = i + 1;
    }
    if i < n && states.entries[i].0 == a {
        let entry: (u32, StateVectors) = states.entries.remove(i);
        let mut sv: StateVectors = entry.1;
        apply_msg(&*msg, &mut sv.cur, ts);
        states.entries.insert(i, (a, sv));
        proof {
            let fin = states.entries@;
            assert(fin =~= old_entries.update(i as int, (a, sv)));
            lemma_sfind_at(fin, a, i as int);
            lemma_sfind_at(old_entries, a, i as int);
            assert forall|q: u32| q != a implies spec_sfind(fin, q) == spec_sfind(
                old_entries,
                q,
            ) by {
                lemma_sfind_update(old_entries, i as int, sv, q);
            }
            assert forall|x: int, y: int| 0 <= x < y < fin.len() implies fin[x].0
                < fin[y].0 by {
                assert(old_entries[x].0 < old_entries[y].0);
            }
        }
    } else {
        let mut snap: Snapshot = new_snapshot(ts);
        apply_msg(&*msg, &mut snap, ts);
        let sv = StateVectors { cur: snap };
        states.entries.insert(i, (a, sv));
        proof {
            let fin = states.entries@;
            assert(fin == old_entries.insert(i as int, (a, sv)));
            assert forall|j: int| 0 <= j < old_entries.len() implies old_entries[j].0
                != a by {
                if j >= i {
                    assert(i < old_entries.len());
                    assert(!(old_entries[i as int].0 < a));
                    assert(old_entries[i as int].0 != a);
                    if j > i {
                        assert(old_entries[i as int].0 < old_entries[j].0);
                    }
                }
            }
            lemma_sfind_none(old_entries, a);
            lemma_sfind_at(fin, a, i as int);
            assert forall|q: u32| q != a implies spec_sfind(fin, q) == spec_sfind(
                old_entries,
                q,
            ) by {
                lemma_sfind_insert_other(old_entries, i as int, (a, sv), q);
            }
            assert(i < old_entries.len() ==> old_entries[i as int].0 > a);
            {
                assert forall|x: int, y: int| 0 <= x < y < fin.len() implies fin[x].0
                    < fin[y].0 by {
                    if y < i {
                        assert(old_entries[x].0 < old_entries[y].0);
                    } else if y == i {
                        assert(fin[x] == old_entries[x]);
                    } else if x == i {
                        assert(fin[y] == old_entries[y - 1]);
                        assert(old_entries[y - 1].0 > a);
                    } else if x < i {
                        assert(fin[x] == old_entries[x]);
                        assert(fin[y] == old_entries[y - 1]);
                        assert(old_entries[x].0 < old_entries[y - 1].0);
                    } else {
                        assert(fin[x] == old_entries[x - 1]);
                        assert(fin[y] == old_entries[y - 1]);
                        assert(old_entries[x - 1].0 < old_entries[y - 1].0);
                    }
                }
            }
        }
    }
}

/// Whether a Comm-B reply matched both candidate registers.
pub open spec fn spec_commb_both(m: Message) -> bool {
    match m {
        Message::CommBAltitudeReply { bds, .. } => bds.bds50 is Some && bds.bds60 is Some,
        Message::CommBIdentityReply { bds, .. } => bds.bds50 is Some && bds.bds60 is Some,
        _ => false,
    }
}

fn scrub_msg(msg: &mut Message)
    ensures
        *final(msg) == spec_scrub(*old(msg)),
{
    let repl: Option<Message> = match &*msg {
        Message::CommBAltitudeReply { fs, altitude, bds, ap } => {
            if bds.bds50.is_some() && bds.bds60.is_some() {
                Some(
                    Message::CommBAltitudeReply {
                        fs: *fs,
                        altitude: *altitude,
                        bds: CommB { bds50: None, bds60: None },
                        ap: *ap,
                    },
                )
            } else {
                None
            }
        },
        Message::CommBIdentityReply { fs, id, bds, ap } => {
            if bds.bds50.is_some() && bds.bds60.is_some() {
                Some(
                    Message::CommBIdentityReply {
                        fs: *fs,
                        id: *id,
                        bds: CommB { bds50: None, bds60: None },
                        ap: *ap,
                    },
                )
            } else {
                None
            }
        },
        _ => None,
    };
    if let Some(nm) = repl {
        *msg = nm;
    }
}

} // verus!
