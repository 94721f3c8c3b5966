use jet1090::cpr::{global_air, global_surface, cpr_local, nl, decode_position, CprTable, Position};
use jet1090::hexparse::parse_hex;
use jet1090::message::{parse, Message, ME};

fn hexbytes(s: &str) -> Vec<u8> {
    parse_hex(s.as_bytes()).unwrap()
}

fn cpr_of(hex: &str) -> (bool, u32, u32) {
    let bytes = hexbytes(hex);
    match parse(&bytes, false).unwrap() {
        Message::ExtendedSquitterADSB { message: ME::BDS05(b), .. } => {
            (b.odd, b.lat_cpr, b.lon_cpr)
        }
        _ => panic!("expected an airborne position"),
    }
}

#[test]
fn nl_zone_boundaries() {
    assert_eq!(nl(0), 59);
    assert_eq!(nl(10_470_471), 59);
    assert_eq!(nl(10_470_472), 58);
    assert_eq!(nl(-10_470_472), 58);
    // latitude exactly 87 degrees is the last two-zone latitude
    assert_eq!(nl(87_000_000), 2);
    assert_eq!(nl(87_000_001), 1);
    assert_eq!(nl(90_000_000), 1);
}

#[test]
fn global_decode_reference_vectors() {
    // within 5 metres (about 45 millionths of a degree of latitude) of
    // the published decode of each vector pair
    let (oe, le, lce) = cpr_of("8D40621D58C382D690C8AC2863A7");
    let (oo, lo, lco) = cpr_of("8D40621D58C386435CC412692AD6");
    assert!(!oe && oo);
    // even frame fresher: the published decode is (52.25720, 3.91937)
    let p = global_air(le, lo, lce, lco, false).unwrap();
    assert!((p.lat_udeg - 52_257_202).abs() <= 45, "lat {}", p.lat_udeg);
    assert!((p.lon_udeg - 3_919_373).abs() <= 70, "lon {}", p.lon_udeg);
}

#[test]
fn global_decode_second_vector_pair() {
    let (oe, le, lce) = cpr_of("8D75804B580FF2CF7E9BA6F701D0");
    let (oo, lo, lco) = cpr_of("8D75804B580FF6B283EB7A157117");
    assert!(!oe && oo);
    // odd frame fresher: the published decode is (10.21624, 123.88917)
    let p = global_air(le, lo, lce, lco, true).unwrap();
    assert!((p.lat_udeg - 10_216_240).abs() <= 60, "lat {}", p.lat_udeg);
    assert!((p.lon_udeg - 123_889_170).abs() <= 80, "lon {}", p.lon_udeg);
}

#[test]
fn global_decode_through_scratch_table() {
    // even at t=0, odd at t=10: within the window, so the pair decodes
    let even = hexbytes("8D75804B580FF2CF7E9BA6F701D0");
    let odd = hexbytes("8D75804B580FF6B283EB7A157117");
    let mut table = CprTable::new();
    let mut reference: Option<Position> = None;
    let mut me1 = match parse(&even, false).unwrap() {
        Message::ExtendedSquitterADSB { message, .. } => message,
        _ => panic!("expected DF 17"),
    };
    decode_position(&mut me1, 0, 0x75804B, &mut table, &mut reference);
    if let ME::BDS05(b) = &me1 {
        assert_eq!(b.latitude, None);
    }
    let mut me2 = match parse(&odd, false).unwrap() {
        Message::ExtendedSquitterADSB { message, .. } => message,
        _ => panic!("expected DF 17"),
    };
    decode_position(&mut me2, 10, 0x75804B, &mut table, &mut reference);
    match &me2 {
        ME::BDS05(b) => {
            let lat = b.latitude.unwrap();
            let lon = b.longitude.unwrap();
            assert!((lat - 10_216_240).abs() <= 60);
            assert!((lon - 123_889_170).abs() <= 80);
        }
        _ => panic!("expected an airborne position"),
    }
    // a successful decode moves the reference
    let r = reference.unwrap();
    assert!((r.lat_udeg - 10_216_240).abs() <= 60);
}

#[test]
fn global_decode_outside_window_waits() {
    let even = hexbytes("8D75804B580FF2CF7E9BA6F701D0");
    let odd = hexbytes("8D75804B580FF6B283EB7A157117");
    let mut table = CprTable::new();
    let mut reference: Option<Position> = None;
    let mut me1 = match parse(&even, false).unwrap() {
        Message::ExtendedSquitterADSB { message, .. } => message,
        _ => panic!(),
    };
    decode_position(&mut me1, 0, 0x75804B, &mut table, &mut reference);
    let mut me2 = match parse(&odd, false).unwrap() {
        Message::ExtendedSquitterADSB { message, .. } => message,
        _ => panic!(),
    };
    // eleven seconds apart: no global decode, and no reference for a
    // local one
    decode_position(&mut me2, 11, 0x75804B, &mut table, &mut reference);
    if let ME::BDS05(b) = &me2 {
        assert_eq!(b.latitude, None);
        assert_eq!(b.longitude, None);
    }
}

#[test]
fn local_decode_near_reference() {
    let (odd, latc, lonc) = cpr_of("8D75804B580FF2CF7E9BA6F701D0");
    let p = cpr_local(10_216_000, 123_889_000, latc, lonc, odd, false).unwrap();
    assert!((p.lat_udeg - 10_216_240).abs() <= 2000, "lat {}", p.lat_udeg);
    assert!((p.lon_udeg - 123_889_170).abs() <= 2000, "lon {}", p.lon_udeg);
}

#[test]
fn local_decode_far_reference_is_gated() {
    // a reference on the other side of the globe: the same zone index
    // reconstructs a position hundreds of miles from it, so the range
    // gate rejects the decode
    let even = hexbytes("8D75804B580FF2CF7E9BA6F701D0");
    let mut table = CprTable::new();
    let mut reference = Some(Position { lat_udeg: -40_000_000, lon_udeg: -70_000_000 });
    let mut me = match parse(&even, false).unwrap() {
        Message::ExtendedSquitterADSB { message, .. } => message,
        _ => panic!(),
    };
    decode_position(&mut me, 0, 0x75804B, &mut table, &mut reference);
    if let ME::BDS05(b) = &me {
        assert_eq!(b.latitude, None);
    }
    // the rejected slot was reset
    let st = table.get(0x75804B).unwrap();
    assert!(st.even_frame.is_none());
    assert_eq!(reference.unwrap().lat_udeg, -40_000_000);
}

#[test]
fn out_of_order_timestamp_resets_slot() {
    let even = hexbytes("8D75804B580FF2CF7E9BA6F701D0");
    let odd = hexbytes("8D75804B580FF6B283EB7A157117");
    let mut table = CprTable::new();
    let mut reference: Option<Position> = None;
    let mut me1 = match parse(&even, false).unwrap() {
        Message::ExtendedSquitterADSB { message, .. } => message,
        _ => panic!(),
    };
    decode_position(&mut me1, 100, 0x75804B, &mut table, &mut reference);
    let mut me2 = match parse(&odd, false).unwrap() {
        Message::ExtendedSquitterADSB { message, .. } => message,
        _ => panic!(),
    };
    // the odd frame arrives with an older timestamp: the even slot is
    // invalidated, so no global decode happens
    decode_position(&mut me2, 50, 0x75804B, &mut table, &mut reference);
    if let ME::BDS05(b) = &me2 {
        assert_eq!(b.latitude, None);
    }
    let st = table.get(0x75804B).unwrap();
    assert!(st.even_frame.is_none());
    assert!(st.odd_frame.is_some());
}

#[test]
fn surface_global_decode_with_reference() {
    // encodings of (52.320374, 4.730520); the reference settles the
    // hemisphere and the longitude quadrant
    let r = Position { lat_udeg: 52_300_000, lon_udeg: 4_700_000 };
    let p = global_surface(115376, 39179, 116943, 110054, true, r).unwrap();
    assert!((p.lat_udeg - 52_320_374).abs() <= 45, "lat {}", p.lat_udeg);
    assert!((p.lon_udeg - 4_730_520).abs() <= 70, "lon {}", p.lon_udeg);
    let p = global_surface(115376, 39179, 116943, 110054, false, r).unwrap();
    assert!((p.lat_udeg - 52_320_374).abs() <= 45, "lat {}", p.lat_udeg);
    assert!((p.lon_udeg - 4_730_520).abs() <= 70, "lon {}", p.lon_udeg);
}

#[test]
fn surface_global_decode_southern_hemisphere() {
    // encodings of (-33.950000, 18.600000)
    let r = Position { lat_udeg: -34_000_000, lon_udeg: 18_500_000 };
    let p = global_surface(48060, 97503, 16602, 120586, true, r).unwrap();
    assert!((p.lat_udeg + 33_950_000).abs() <= 45, "lat {}", p.lat_udeg);
    assert!((p.lon_udeg - 18_600_000).abs() <= 70, "lon {}", p.lon_udeg);
}

#[test]
fn surface_global_decode_through_scratch_table() {
    // two surface frames (type code 7) within the window, with a
    // reference: the pair decodes globally
    let mut even = [0u8; 14];
    even[0] = 0x8D;
    sb(&mut even, 8, 24, 0x123456);
    sb(&mut even, 32, 5, 7);
    sb(&mut even, 54, 17, 115376);
    sb(&mut even, 71, 17, 116943);
    let mut odd = [0u8; 14];
    odd[0] = 0x8D;
    sb(&mut odd, 8, 24, 0x123456);
    sb(&mut odd, 32, 5, 7);
    sb(&mut odd, 53, 1, 1);
    sb(&mut odd, 54, 17, 39179);
    sb(&mut odd, 71, 17, 110054);

    let mut table = CprTable::new();
    let mut reference = Some(Position { lat_udeg: 52_300_000, lon_udeg: 4_700_000 });
    let mut me1 = match parse(&even, false).unwrap() {
        Message::ExtendedSquitterADSB { message, .. } => message,
        _ => panic!(),
    };
    decode_position(&mut me1, 0, 0x123456, &mut table, &mut reference);
    let mut me2 = match parse(&odd, false).unwrap() {
        Message::ExtendedSquitterADSB { message, .. } => message,
        _ => panic!(),
    };
    decode_position(&mut me2, 5, 0x123456, &mut table, &mut reference);
    match &me2 {
        ME::BDS06(b) => {
            let lat = b.latitude.unwrap();
            let lon = b.longitude.unwrap();
            assert!((lat - 52_320_374).abs() <= 45, "lat {}", lat);
            assert!((lon - 4_730_520).abs() <= 70, "lon {}", lon);
        }
        _ => panic!("expected a surface position"),
    }
}

fn sb(buf: &mut [u8], start: usize, len: usize, value: u64) {
    for i in 0..len {
        let bit = (value >> (len - 1 - i)) & 1;
        let pos = start + i;
        if bit == 1 {
            buf[pos / 8] |= 0x80 >> (pos % 8);
        }
    }
}
