use jet1090::message::{parse, Message, ME};
use jet1090::snapshot::{StateMap, update_snapshot};

fn put_bits(buf: &mut [u8], start: usize, len: usize, value: u64) {
    for i in 0..len {
        let bit = (value >> (len - 1 - i)) & 1;
        let pos = start + i;
        if bit == 1 {
            buf[pos / 8] |= 0x80 >> (pos % 8);
        }
    }
}

fn df17_frame(icao: u32) -> [u8; 14] {
    let mut frame = [0u8; 14];
    frame[0] = 0x8D;
    put_bits(&mut frame, 8, 24, icao as u64);
    frame
}

#[test]
fn velocity_vector_decodes_speed_and_track() {
    // subtype 1, 100 kt east and 100 kt north, climbing 640 ft/min
    let mut frame = df17_frame(0xABCDEF);
    put_bits(&mut frame, 32, 5, 19); // type code
    put_bits(&mut frame, 37, 3, 1); // subtype
    put_bits(&mut frame, 46, 10, 101); // east-west velocity
    put_bits(&mut frame, 57, 10, 101); // north-south velocity
    put_bits(&mut frame, 69, 9, 11); // vertical rate
    let msg = parse(&frame, false).unwrap();
    match &msg {
        Message::ExtendedSquitterADSB { message: ME::BDS09(b), .. } => {
            assert_eq!(b.subtype, 1);
            // sqrt(100^2 + 100^2) floors to 141 knots
            assert_eq!(b.groundspeed, Some(141));
            // north-east is a quarter of 1024
            assert_eq!(b.track, Some(256));
            assert_eq!(b.vertical_rate, Some(640));
        }
        _ => panic!("expected a velocity payload"),
    }
    let mut states = StateMap::new();
    let mut msg = msg;
    update_snapshot(&mut states, &mut msg, 7);
    let i = states.find_index(0xABCDEF).unwrap();
    let snap = &states.entries[i].1.cur;
    assert_eq!(snap.groundspeed, Some(141));
    assert_eq!(snap.track, Some(256));
    assert_eq!(snap.vertical_rate, Some(640));
}

#[test]
fn velocity_airspeed_subtype_decodes_heading_and_ias() {
    // subtype 3: heading valid, indicated airspeed 320 kt
    let mut frame = df17_frame(0xABCDEF);
    put_bits(&mut frame, 32, 5, 19);
    put_bits(&mut frame, 37, 3, 3);
    put_bits(&mut frame, 45, 1, 1); // heading status
    put_bits(&mut frame, 46, 10, 512); // half a turn
    put_bits(&mut frame, 57, 10, 321); // airspeed, IAS type
    let msg = parse(&frame, false).unwrap();
    match &msg {
        Message::ExtendedSquitterADSB { message: ME::BDS09(b), .. } => {
            assert_eq!(b.heading, Some(1024));
            assert_eq!(b.ias, Some(320));
            assert_eq!(b.tas, None);
            assert_eq!(b.groundspeed, None);
        }
        _ => panic!("expected a velocity payload"),
    }
}

#[test]
fn surface_position_decodes_movement_and_track() {
    // type code 7 (surface), movement code 50 = 26 knots, track south
    let mut frame = df17_frame(0x123456);
    put_bits(&mut frame, 32, 5, 7);
    put_bits(&mut frame, 37, 7, 50); // movement
    put_bits(&mut frame, 44, 1, 1); // track status
    put_bits(&mut frame, 45, 7, 64); // half of 128: south
    put_bits(&mut frame, 53, 1, 1); // odd parity
    let msg = parse(&frame, false).unwrap();
    match &msg {
        Message::ExtendedSquitterADSB { message: ME::BDS06(b), .. } => {
            assert!(b.odd);
            assert_eq!(b.groundspeed, Some(26));
            assert_eq!(b.track, Some(1024));
            assert_eq!(b.latitude, None);
        }
        _ => panic!("expected a surface position payload"),
    }
}

#[test]
fn tisb_control_field_gates_aggregation() {
    // an identification payload: callsign "AB"
    let mut me = [0u8; 14];
    put_bits(&mut me, 32, 5, 4); // type code
    put_bits(&mut me, 40, 6, 1); // A
    put_bits(&mut me, 46, 6, 2); // B
    for k in 2..8 {
        put_bits(&mut me, 40 + 6 * k, 6, 32); // spaces
    }

    // control field 2 feeds the table
    let mut frame = me;
    frame[0] = 0x92;
    put_bits(&mut frame, 8, 24, 0x111111);
    let mut msg = parse(&frame, false).unwrap();
    let mut states = StateMap::new();
    update_snapshot(&mut states, &mut msg, 3);
    let i = states.find_index(0x111111).unwrap();
    assert_eq!(states.entries[i].1.cur.callsign.as_deref(), Some("AB"));

    // control field 6 only marks the aircraft as heard
    let mut frame = me;
    frame[0] = 0x96;
    put_bits(&mut frame, 8, 24, 0x222222);
    let mut msg = parse(&frame, false).unwrap();
    update_snapshot(&mut states, &mut msg, 4);
    let j = states.find_index(0x222222).unwrap();
    assert_eq!(states.entries[j].1.cur.callsign, None);
    assert_eq!(states.entries[j].1.cur.last, 4);
}

#[test]
fn table_keeps_ascending_address_order() {
    let mut states = StateMap::new();
    for icao in [0x30u32, 0x10, 0x20] {
        let mut frame = df17_frame(icao);
        put_bits(&mut frame, 32, 5, 4);
        put_bits(&mut frame, 40, 6, 3); // C
        for k in 1..8 {
            put_bits(&mut frame, 40 + 6 * k, 6, 32);
        }
        let mut msg = parse(&frame, false).unwrap();
        update_snapshot(&mut states, &mut msg, 1);
    }
    let keys: Vec<u32> = states.entries.iter().map(|e| e.0).collect();
    assert_eq!(keys, vec![0x10, 0x20, 0x30]);
}
