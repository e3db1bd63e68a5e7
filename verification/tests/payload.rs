use todo_app::payload::{decode_description, decode_positions};
use todo_app::ReceiveError;

#[test]
fn a_description_is_length_then_text() {
    let payload = [8u8, 0, 0, 0, b'b', b'u', b'y', b' ', b'm', b'i', b'l', b'k'];
    assert_eq!(decode_description(&payload), Ok(String::from("buy milk")));
}

#[test]
fn an_empty_description_decodes() {
    assert_eq!(decode_description(&[0u8, 0, 0, 0]), Ok(String::new()));
}

#[test]
fn bytes_after_the_description_are_not_looked_at() {
    let payload = [2u8, 0, 0, 0, b'2', b'%', 0xff, 0xff];
    assert_eq!(decode_description(&payload), Ok(String::from("2%")));
}

#[test]
fn a_description_may_hold_any_unicode() {
    let payload = [6u8, 0, 0, 0, 0xc3, 0xa9, 0xe2, 0x82, 0xac, b'!'];
    assert_eq!(decode_description(&payload), Ok(String::from("\u{e9}\u{20ac}!")));
}

#[test]
fn a_short_description_is_malformed() {
    assert_eq!(decode_description(&[]), Err(ReceiveError::MalformedPayload));
    assert_eq!(decode_description(&[1u8, 0, 0]), Err(ReceiveError::MalformedPayload));
    assert_eq!(decode_description(&[3u8, 0, 0, 0, b'a', b'b']), Err(ReceiveError::MalformedPayload));
    assert_eq!(
        decode_description(&[0u8, 1, 0, 0, b'a', b'b']),
        Err(ReceiveError::MalformedPayload)
    );
}

#[test]
fn a_description_that_is_not_utf8_is_malformed() {
    assert_eq!(decode_description(&[1u8, 0, 0, 0, 0xff]), Err(ReceiveError::MalformedPayload));
    assert_eq!(
        decode_description(&[2u8, 0, 0, 0, 0xc3, b'a']),
        Err(ReceiveError::MalformedPayload)
    );
}

#[test]
fn positions_are_two_little_endian_numbers() {
    let mut payload = vec![];
    payload.extend_from_slice(&3u64.to_le_bytes());
    payload.extend_from_slice(&0x0102_0304_0506_0708u64.to_le_bytes());
    assert_eq!(decode_positions(&payload), Ok((3, 0x0102_0304_0506_0708)));
    let literal = [1u8, 0, 0, 0, 0, 0, 0, 0, 0, 1, 0, 0, 0, 0, 0, 0];
    assert_eq!(decode_positions(&literal), Ok((1, 256)));
}

#[test]
fn bytes_after_the_positions_are_not_looked_at() {
    let mut payload = vec![0u8; 16];
    payload.push(9);
    assert_eq!(decode_positions(&payload), Ok((0, 0)));
}

#[test]
fn short_positions_are_malformed() {
    assert_eq!(decode_positions(&[]), Err(ReceiveError::MalformedPayload));
    assert_eq!(decode_positions(&[0u8; 8]), Err(ReceiveError::MalformedPayload));
    assert_eq!(decode_positions(&[0u8; 15]), Err(ReceiveError::MalformedPayload));
}
