use jet1090::crc::modes_checksum;
use jet1090::hexparse::parse_hex;

fn hexbytes(s: &str) -> Vec<u8> {
    parse_hex(s.as_bytes()).unwrap()
}

#[test]
fn test_crc() {
    let bytes = hexbytes("8D406B902015A678D4D220AA4BDA");
    let crc = modes_checksum(&bytes, 14 * 8).unwrap();
    assert_eq!(crc, 0);
    let bytes = hexbytes("8d8960ed58bf053cf11bc5932b7d");
    let crc = modes_checksum(&bytes, 14 * 8).unwrap();
    assert_eq!(crc, 0);
    let bytes = hexbytes("8d45cab390c39509496ca9a32912");
    let crc = modes_checksum(&bytes, 14 * 8).unwrap();
    assert_eq!(crc, 0);
    let bytes = hexbytes("8d49d3d4e1089d00000000744c3b");
    let crc = modes_checksum(&bytes, 14 * 8).unwrap();
    assert_eq!(crc, 0);
    let bytes = hexbytes("8d74802958c904e6ef4ba0184d5c");
    let crc = modes_checksum(&bytes, 14 * 8).unwrap();
    assert_eq!(crc, 0);
    let bytes = hexbytes("8d4400cd9b0000b4f87000e71a10");
    let crc = modes_checksum(&bytes, 14 * 8).unwrap();
    assert_eq!(crc, 0);
    let bytes = hexbytes("8d4065de58a1054a7ef0218e226a");
    let crc = modes_checksum(&bytes, 14 * 8).unwrap();
    assert_eq!(crc, 0);

    let bytes = hexbytes("c80b2dca34aa21dd821a04cb64d4");
    let crc = modes_checksum(&bytes, 14 * 8).unwrap();
    assert_eq!(crc, 10719924);
    let bytes = hexbytes("a800089d8094e33a6004e4b8a522");
    let crc = modes_checksum(&bytes, 14 * 8).unwrap();
    assert_eq!(crc, 4805588);
    let bytes = hexbytes("a8000614a50b6d32bed000bbe0ed");
    let crc = modes_checksum(&bytes, 14 * 8).unwrap();
    assert_eq!(crc, 5659991);
    let bytes = hexbytes("a0000410bc900010a40000f5f477");
    let crc = modes_checksum(&bytes, 14 * 8).unwrap();
    assert_eq!(crc, 11727682);
    let bytes = hexbytes("8d4ca251204994b1c36e60a5343d");
    let crc = modes_checksum(&bytes, 14 * 8).unwrap();
    assert_eq!(crc, 16);
    let bytes = hexbytes("b0001718c65632b0a82040715b65");
    let crc = modes_checksum(&bytes, 14 * 8).unwrap();
    assert_eq!(crc, 353333);
}

#[test]
fn crc_nonzero_on_any_flipped_bit() {
    let clean = hexbytes("8D406B902015A678D4D220AA4BDA");
    assert_eq!(modes_checksum(&clean, 112).unwrap(), 0);
    for bit in 0..112 {
        let mut altered = clean.clone();
        altered[bit / 8] ^= 0x80 >> (bit % 8);
        assert_ne!(modes_checksum(&altered, 112).unwrap(), 0, "bit {}", bit);
    }
}

#[test]
fn crc_short_frame_rejected() {
    let bytes = hexbytes("8D406B");
    assert!(modes_checksum(&bytes, 112).is_err());
    assert!(modes_checksum(&bytes, 16).is_err());
    assert!(modes_checksum(&bytes, 24).is_ok());
}
