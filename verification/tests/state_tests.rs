use jet1090::cpr::{CprTable, Position};
use jet1090::message::{parse, icao24, Message};
use jet1090::pipeline::process_frame;
use jet1090::snapshot::{StateMap, update_snapshot};
use jet1090::DecodeError;

fn set_bits(buf: &mut [u8], start: usize, len: usize, value: u64) {
    for i in 0..len {
        let bit = (value >> (len - 1 - i)) & 1;
        let pos = start + i;
        if bit == 1 {
            buf[pos / 8] |= 0x80 >> (pos % 8);
        }
    }
}

#[test]
fn snapshot_update_callsign_and_position() {
    let mut states = StateMap::new();
    let mut table = CprTable::new();
    let mut reference: Option<Position> = None;
    // identification, then an odd and a fresher even position frame
    process_frame(0, b"8D4CA251204994B1C36E60A5343D", &mut states, &mut table, &mut reference)
        .unwrap();
    process_frame(0, b"8D40621D58C386435CC412692AD6", &mut states, &mut table, &mut reference)
        .unwrap();
    process_frame(10, b"8D40621D58C382D690C8AC2863A7", &mut states, &mut table, &mut reference)
        .unwrap();

    let i = states.find_index(0x4CA251).unwrap();
    let snap = &states.entries[i].1.cur;
    assert_eq!(snap.callsign.as_deref(), Some("RYR1069"));

    let j = states.find_index(0x40621D).unwrap();
    let snap = &states.entries[j].1.cur;
    // the published decode of this pair with the even frame fresher is
    // (52.25720, 3.91937); five metres is about 45 millionths of a
    // degree of latitude
    let lat = snap.latitude.unwrap();
    let lon = snap.longitude.unwrap();
    assert!((lat - 52_257_202).abs() <= 45, "lat {}", lat);
    assert!((lon - 3_919_373).abs() <= 70, "lon {}", lon);
    assert_eq!(snap.first, 0);
    assert_eq!(snap.last, 10);
    // the table iterates in ascending address order
    assert!(j < i);
}

#[test]
fn snapshot_last_never_decreases() {
    let mut states = StateMap::new();
    let frame = [0x28u8, 0x00, 0x0A, 0xAA, 0x11, 0x22, 0x33];
    let mut msg = parse(&frame, false).unwrap();
    let key = icao24(&msg).unwrap();
    update_snapshot(&mut states, &mut msg, 100);
    let i = states.find_index(key).unwrap();
    assert_eq!(states.entries[i].1.cur.first, 100);
    assert_eq!(states.entries[i].1.cur.last, 100);
    // an older frame arrives: `last` stays put
    let mut msg2 = parse(&frame, false).unwrap();
    update_snapshot(&mut states, &mut msg2, 50);
    let i = states.find_index(key).unwrap();
    assert_eq!(states.entries[i].1.cur.last, 100);
    assert!(states.entries[i].1.cur.first <= states.entries[i].1.cur.last);
    assert_eq!(states.entries[i].1.cur.squawk, Some(7700));
}

#[test]
fn commb_double_match_writes_nothing() {
    // an all-zero MB field matches both candidate registers
    let mut frame = [0u8; 14];
    frame[0] = 0xA0;
    frame[11] = 0x11;
    frame[12] = 0x22;
    frame[13] = 0x33;
    let mut msg = parse(&frame, false).unwrap();
    match &msg {
        Message::CommBAltitudeReply { bds, .. } => {
            assert!(bds.bds50.is_some());
            assert!(bds.bds60.is_some());
        }
        _ => panic!("expected DF 20"),
    }
    let key = icao24(&msg).unwrap();
    let mut states = StateMap::new();
    update_snapshot(&mut states, &mut msg, 5);
    let i = states.find_index(key).unwrap();
    let snap = &states.entries[i].1.cur;
    assert_eq!(snap.roll, None);
    assert_eq!(snap.track, None);
    assert_eq!(snap.ias, None);
    assert_eq!(snap.mach, None);
    assert_eq!(snap.groundspeed, None);
    // and the ambiguous classification is scrubbed from the message
    match &msg {
        Message::CommBAltitudeReply { bds, .. } => {
            assert!(bds.bds50.is_none());
            assert!(bds.bds60.is_none());
        }
        _ => panic!("expected DF 20"),
    }
}

#[test]
fn commb_unique_bds50_writes_track_and_turn() {
    let mut frame = [0u8; 14];
    frame[0] = 0xA0;
    // MB starts at frame bit 32
    set_bits(&mut frame, 32, 1, 1); // roll status
    set_bits(&mut frame, 33, 10, 16); // roll: 16 units, about 2.8 degrees
    set_bits(&mut frame, 43, 1, 1); // track status
    set_bits(&mut frame, 44, 11, 256); // track: 45 degrees
    set_bits(&mut frame, 55, 1, 1); // groundspeed status
    set_bits(&mut frame, 56, 10, 220); // 440 knots
    set_bits(&mut frame, 66, 1, 1); // track rate status
    set_bits(&mut frame, 67, 10, 200);
    set_bits(&mut frame, 77, 1, 1); // true airspeed status
    set_bits(&mut frame, 78, 10, 210); // 420 knots
    let mut msg = parse(&frame, false).unwrap();
    match &msg {
        Message::CommBAltitudeReply { bds, .. } => {
            let b50 = bds.bds50.expect("the track-and-turn pattern matches");
            assert!(bds.bds60.is_none());
            assert_eq!(b50.roll, Some(16));
            assert_eq!(b50.track, Some(256));
            assert_eq!(b50.groundspeed, Some(440));
            assert_eq!(b50.tas, Some(420));
        }
        _ => panic!("expected DF 20"),
    }
    let key = icao24(&msg).unwrap();
    let mut states = StateMap::new();
    update_snapshot(&mut states, &mut msg, 5);
    let i = states.find_index(key).unwrap();
    let snap = &states.entries[i].1.cur;
    assert_eq!(snap.roll, Some(16));
    assert_eq!(snap.track, Some(256));
    assert_eq!(snap.groundspeed, Some(440));
    assert_eq!(snap.ias, None);
}

#[test]
fn commb_unique_bds60_writes_speeds() {
    let mut frame = [0u8; 14];
    frame[0] = 0xA0;
    // under the track-and-turn reading the roll is out of range, so
    // only the heading-and-speed pattern matches
    set_bits(&mut frame, 32, 1, 1); // heading status (roll status)
    set_bits(&mut frame, 33, 10, 300); // roll 300 units: beyond 50 degrees
    set_bits(&mut frame, 44, 1, 1); // indicated-airspeed status
    set_bits(&mut frame, 45, 10, 250); // 250 knots
    set_bits(&mut frame, 55, 1, 1); // Mach status
    set_bits(&mut frame, 56, 10, 100); // Mach 0.400
    let mut msg = parse(&frame, false).unwrap();
    match &msg {
        Message::CommBAltitudeReply { bds, .. } => {
            assert!(bds.bds50.is_none());
            let b60 = bds.bds60.expect("the heading-and-speed pattern matches");
            assert_eq!(b60.ias, Some(250));
            assert_eq!(b60.mach, Some(400));
        }
        _ => panic!("expected DF 20"),
    }
    let key = icao24(&msg).unwrap();
    let mut states = StateMap::new();
    update_snapshot(&mut states, &mut msg, 5);
    let i = states.find_index(key).unwrap();
    let snap = &states.entries[i].1.cur;
    assert_eq!(snap.ias, Some(250));
    assert_eq!(snap.mach, Some(400));
    assert_eq!(snap.roll, None);
}

#[test]
fn every_observed_aircraft_keeps_an_entry() {
    let mut states = StateMap::new();
    let mut table = CprTable::new();
    let mut reference: Option<Position> = None;
    process_frame(0, b"8D4CA251204994B1C36E60A5343D", &mut states, &mut table, &mut reference)
        .unwrap();
    process_frame(1, b"8D40621D58C386435CC412692AD6", &mut states, &mut table, &mut reference)
        .unwrap();
    process_frame(2, b"8D4CA251204994B1C36E60A5343D", &mut states, &mut table, &mut reference)
        .unwrap();
    assert!(states.find_index(0x4CA251).is_some());
    assert!(states.find_index(0x40621D).is_some());
    assert_eq!(states.entries.len(), 2);
}

#[test]
fn pipeline_rejects_bad_input() {
    let mut states = StateMap::new();
    let mut table = CprTable::new();
    let mut reference: Option<Position> = None;
    assert_eq!(
        process_frame(0, b"zz", &mut states, &mut table, &mut reference).unwrap_err(),
        DecodeError::InvalidHex
    );
    assert_eq!(
        process_frame(0, b"8D4CA2", &mut states, &mut table, &mut reference).unwrap_err(),
        DecodeError::ShortFrame
    );
    assert_eq!(states.entries.len(), 0);
}
