use jet1090::DecodeError;
use jet1090::fields::{ac13_alt, id13_squawk};
use jet1090::hexparse::{parse_hex, icao_to_hex};
use jet1090::math::{isqrt, track_unit, cos_milli};
use jet1090::message::{parse, icao24, Message, ME};

fn hexbytes(s: &str) -> Vec<u8> {
    parse_hex(s.as_bytes()).unwrap()
}

#[test]
fn parse_hex_accepts_and_rejects() {
    assert_eq!(parse_hex(b"8d4ca2"), Ok(vec![0x8d, 0x4c, 0xa2]));
    assert_eq!(parse_hex(b"8D4CA2"), Ok(vec![0x8d, 0x4c, 0xa2]));
    assert_eq!(parse_hex(b"8d4"), Err(DecodeError::InvalidHex));
    assert_eq!(parse_hex(b"8g4c"), Err(DecodeError::InvalidHex));
}

#[test]
fn icao_renders_lowercase_hex() {
    assert_eq!(icao_to_hex(0x4CA251), "4ca251");
    assert_eq!(icao_to_hex(0x00000F), "00000f");
}

#[test]
fn parse_df17_identification() {
    let bytes = hexbytes("8D4CA251204994B1C36E60A5343D");
    let msg = parse(&bytes, false).unwrap();
    match &msg {
        Message::ExtendedSquitterADSB { icao24, ca, message } => {
            assert_eq!(*icao24, 0x4CA251);
            assert_eq!(*ca, 5);
            match message {
                ME::BDS08(b) => {
                    assert_eq!(b.tc, 4);
                    assert_eq!(b.callsign, "RYR1069");
                }
                _ => panic!("expected an identification payload"),
            }
        }
        _ => panic!("expected DF 17"),
    }
    assert_eq!(icao24(&msg), Some(0x4CA251));
}

#[test]
fn parse_length_and_format_errors() {
    // six bytes: neither a short nor a long frame
    assert_eq!(parse(&[0x8D; 6], false).unwrap_err(), DecodeError::ShortFrame);
    // DF 17 in a 7-byte frame
    assert_eq!(
        parse(&[0x8D, 0, 0, 0, 0, 0, 0], false).unwrap_err(),
        DecodeError::WrongLength
    );
    // DF 4 in a 14-byte frame
    assert_eq!(parse(&[0x20; 14], false).unwrap_err(), DecodeError::WrongLength);
    // DF 1 is unassigned
    assert_eq!(
        parse(&[0x08, 0, 0, 0, 0, 0, 0], false).unwrap_err(),
        DecodeError::UnsupportedDF(1)
    );
    // DF 19 parses to the opaque catch-all
    let df19 = [0x98u8, 0, 0, 0, 0, 0, 0, 0, 0, 0, 0, 0, 0, 0];
    assert!(matches!(
        parse(&df19, false),
        Ok(Message::Unsupported { df: 19 })
    ));
}

#[test]
fn parse_strict_rejects_bad_parity() {
    // this fixture has checksum 16, so strict parsing rejects it
    let bytes = hexbytes("8D4CA251204994B1C36E60A5343D");
    assert_eq!(parse(&bytes, true).unwrap_err(), DecodeError::CrcMismatch);
    // a clean frame passes strict parsing
    let clean = hexbytes("8D406B902015A678D4D220AA4BDA");
    assert!(parse(&clean, true).is_ok());
}

#[test]
fn altitude_code_25_foot_and_gillham() {
    // M=0, Q=1, N=1000 -> 1000 * 25 - 1000 = 24000 ft
    assert_eq!(ac13_alt(3992), Some(24000));
    // M=0, Q=0, C4=1 B2=1: Gillham 700 ft
    assert_eq!(ac13_alt(264), Some(700));
    // M=1 is metric: not decoded
    assert_eq!(ac13_alt(1 << 6), None);
    // all-zero Gillham code is invalid
    assert_eq!(ac13_alt(0), None);
}

#[test]
fn identity_code_squawk() {
    // A=7, B=7, C=0, D=0
    assert_eq!(id13_squawk(2730), 7700);
    assert_eq!(id13_squawk(0), 0);
}

#[test]
fn parse_df5_squawk() {
    let frame = [0x28, 0x00, 0x0A, 0xAA, 0x11, 0x22, 0x33];
    match parse(&frame, false).unwrap() {
        Message::SurveillanceIdentityReply { id, .. } => assert_eq!(id, 7700),
        _ => panic!("expected DF 5"),
    }
}

#[test]
fn integer_math_exact_values() {
    assert_eq!(isqrt(0), 0);
    assert_eq!(isqrt(99), 9);
    assert_eq!(isqrt(100), 10);
    // 2048 units per turn: north, east, south, west, north-east
    assert_eq!(track_unit(0, 100), 0);
    assert_eq!(track_unit(100, 0), 512);
    assert_eq!(track_unit(0, -100), 1024);
    assert_eq!(track_unit(-100, 0), 1536);
    assert_eq!(track_unit(100, 100), 256);
    // the rational cosine is exact at 0 and 60 degrees
    assert_eq!(cos_milli(0), 1000);
    assert_eq!(cos_milli(60), 500);
}
