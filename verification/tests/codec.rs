use mac_parser::MacAddress;
use mac_parser::MacParseError;

const WIRE: [u8; 6] = [0x00, 0x80, 0x41, 0x13, 0x37, 0xff];

fn short(actual: usize) -> MacParseError {
    MacParseError::InvalidLength { expected: 6, actual }
}

#[test]
fn decode_then_encode_gives_the_bytes_back() {
    let mac = MacAddress::decode(&WIRE, 0).unwrap();
    let mut out = [0xeeu8; 6];
    assert_eq!(mac.encode(&mut out, 0), Ok(6));
    assert_eq!(out, WIRE);
}

#[test]
fn round_trip_holds_for_varied_bytes() {
    let mut bytes = [0u8; 6];
    for seed in 0..=255u8 {
        for i in 0..6 {
            bytes[i] = seed.wrapping_mul(31).wrapping_add((i as u8).wrapping_mul(97));
        }
        let mac = MacAddress::decode(&bytes, 0).unwrap();
        assert_eq!(mac.to_octets(), bytes);
        let mut out = [0u8; 6];
        assert_eq!(mac.encode(&mut out, 0), Ok(6));
        assert_eq!(out, bytes);
    }
}

#[test]
fn encode_then_decode_gives_the_address_back() {
    let mac = MacAddress::from_octets(WIRE);
    let mut buffer = [0u8; 16];
    assert_eq!(mac.encode(&mut buffer, 7), Ok(6));
    assert_eq!(MacAddress::decode(&buffer, 7), Ok(mac));
}

#[test]
fn decode_refuses_every_short_buffer() {
    for n in 0..6 {
        assert_eq!(MacAddress::decode(&WIRE[..n], 0), Err(short(n)));
    }
}

#[test]
fn decode_of_empty_buffer_reports_zero_bytes() {
    assert_eq!(
        MacAddress::decode(&[], 0),
        Err(MacParseError::InvalidLength { expected: 6, actual: 0 })
    );
}

#[test]
fn decode_takes_the_first_six_bytes() {
    let buffer = [0x01, 0x02, 0x03, 0x04, 0x05, 0x06, 0x07, 0x08, 0x09];
    let mac = MacAddress::decode(&buffer, 0).unwrap();
    assert_eq!(mac.to_octets(), [0x01, 0x02, 0x03, 0x04, 0x05, 0x06]);
}

#[test]
fn decode_reads_at_the_offset() {
    let buffer = [0x01, 0x02, 0x03, 0x04, 0x05, 0x06, 0x07, 0x08, 0x09];
    assert_eq!(
        MacAddress::decode(&buffer, 2).unwrap().to_octets(),
        [0x03, 0x04, 0x05, 0x06, 0x07, 0x08]
    );
    assert_eq!(
        MacAddress::decode(&buffer, 3).unwrap().to_octets(),
        [0x04, 0x05, 0x06, 0x07, 0x08, 0x09]
    );
}

#[test]
fn decode_counts_what_lies_after_the_offset() {
    let buffer = [0u8; 9];
    assert_eq!(MacAddress::decode(&buffer, 4), Err(short(5)));
    assert_eq!(MacAddress::decode(&buffer, 8), Err(short(1)));
    assert_eq!(MacAddress::decode(&buffer, 9), Err(short(0)));
}

#[test]
fn decode_past_the_end_reports_zero_bytes() {
    let buffer = [0u8; 9];
    assert_eq!(MacAddress::decode(&buffer, 10), Err(short(0)));
    assert_eq!(MacAddress::decode(&buffer, usize::MAX), Err(short(0)));
}

#[test]
fn encode_writes_six_bytes_at_the_offset() {
    let mac = MacAddress::from_octets(WIRE);
    let mut buffer = [0x55u8; 10];
    assert_eq!(mac.encode(&mut buffer, 3), Ok(6));
    assert_eq!(buffer, [0x55, 0x55, 0x55, 0x00, 0x80, 0x41, 0x13, 0x37, 0xff, 0x55]);
}

#[test]
fn encode_fills_the_tail_exactly() {
    let mac = MacAddress::from_octets(WIRE);
    let mut buffer = [0x55u8; 8];
    assert_eq!(mac.encode(&mut buffer, 2), Ok(6));
    assert_eq!(buffer, [0x55, 0x55, 0x00, 0x80, 0x41, 0x13, 0x37, 0xff]);
}

#[test]
fn encode_without_room_leaves_the_buffer_alone() {
    let mac = MacAddress::from_octets(WIRE);
    for n in 0..6 {
        let mut buffer = vec![0x55u8; n];
        assert_eq!(mac.encode(&mut buffer, 0), Err(short(n)));
        assert_eq!(buffer, vec![0x55u8; n]);
    }
    let mut buffer = [0x55u8; 8];
    assert_eq!(mac.encode(&mut buffer, 3), Err(short(5)));
    assert_eq!(buffer, [0x55u8; 8]);
}

#[test]
fn encode_past_the_end_reports_zero_bytes() {
    let mac = MacAddress::from_octets(WIRE);
    let mut buffer = [0x55u8; 8];
    assert_eq!(mac.encode(&mut buffer, 9), Err(short(0)));
    assert_eq!(mac.encode(&mut buffer, usize::MAX), Err(short(0)));
    assert_eq!(buffer, [0x55u8; 8]);
}

#[test]
fn try_from_takes_six_bytes() {
    let mac = MacAddress::try_from(&WIRE[..]).unwrap();
    assert_eq!(mac, MacAddress::from_octets(WIRE));
    assert_eq!(mac.as_bytes(), &WIRE[..]);
}

#[test]
fn try_from_refuses_a_short_slice() {
    for n in 0..6 {
        assert_eq!(MacAddress::try_from(&WIRE[..n]), Err(short(n)));
    }
}

#[test]
fn try_from_takes_the_first_six_of_seven_bytes() {
    let bytes = [0x00u8, 0x80, 0x41, 0x13, 0x37, 0xff, 0xaa];
    let mac = MacAddress::try_from(&bytes[..]).unwrap();
    assert_eq!(mac.as_bytes(), [0x00u8, 0x80, 0x41, 0x13, 0x37, 0xff]);
    assert_eq!(mac.to_string(), "00:80:41:13:37:ff");
}

#[test]
fn try_from_ignores_what_follows_the_first_six_bytes() {
    let bytes = [0x11u8, 0x22, 0x33, 0x44, 0x55, 0x66, 0x77, 0x88, 0x99, 0xaa, 0xbb, 0xcc];
    for n in 6..=bytes.len() {
        let mac = MacAddress::try_from(&bytes[..n]).unwrap();
        assert_eq!(mac.as_bytes(), &bytes[0..6]);
    }
}

#[test]
fn try_from_agrees_with_decode_at_offset_zero() {
    let bytes = [0x11u8, 0x22, 0x33, 0x44, 0x55, 0x66, 0x77, 0x88, 0x99];
    for n in 0..=bytes.len() {
        assert_eq!(MacAddress::try_from(&bytes[..n]), MacAddress::decode(&bytes[..n], 0));
    }
}

#[test]
fn try_into_works_from_a_slice() {
    let slice: &[u8] = &WIRE;
    let mac: Result<MacAddress, MacParseError> = slice.try_into();
    assert_eq!(mac, Ok(MacAddress::from_octets(WIRE)));
}

#[test]
fn error_carries_both_counts() {
    let err = MacAddress::decode(&[1, 2, 3], 0).unwrap_err();
    let MacParseError::InvalidLength { expected, actual } = err;
    assert_eq!(expected, 6);
    assert_eq!(actual, 3);
    let copy = err;
    assert_eq!(copy, err);
    assert_ne!(err, MacParseError::InvalidLength { expected: 6, actual: 4 });
}
