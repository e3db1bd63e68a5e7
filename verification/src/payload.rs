use crate::error::ReceiveError;
use concordium_std::ParseError;
use vstd::bytes::{spec_u32_from_le_bytes, spec_u64_from_le_bytes};
use vstd::prelude::*;
use vstd::utf8::{decode_utf8, valid_utf8};

verus! {

/// The chain library's error for bytes that do not decode. It says nothing
/// more than that.
#[verifier::external_type_specification]
#[verifier::external_body]
pub struct ExParseError(ParseError);

/// The text that a payload encodes: four bytes give the text's length in
/// bytes, least significant byte first, and as many bytes of UTF-8 follow.
/// What comes after them is not looked at.
pub open spec fn description_of(payload: Seq<u8>) -> Option<Seq<char>> {
    if payload.len() < 4 {
        None
    } else {
        let end = 4 + spec_u32_from_le_bytes(payload.subrange(0, 4));
        if payload.len() < end || !valid_utf8(payload.subrange(4, end)) {
            None
        } else {
            Some(decode_utf8(payload.subrange(4, end)))
        }
    }
}

/// The two positions that a payload encodes: eight bytes each, least
/// significant byte first, the main task's position before the sub-task's.
/// What comes after them is not looked at.
pub open spec fn positions_of(payload: Seq<u8>) -> Option<(u64, u64)> {
    if payload.len() < 16 {
        None
    } else {
        Some(
            (
                spec_u64_from_le_bytes(payload.subrange(0, 8)),
                spec_u64_from_le_bytes(payload.subrange(8, 16)),
            ),
        )
    }
}

/// Calls `concordium_std::from_bytes` for a `String`. The crate reads a
/// length of four bytes, then that many bytes one by one, and hands them to
/// `String::from_utf8`; it fails where bytes are missing or are not UTF-8.
/// The contract says that the text comes back where `description_of` has
/// one, and an error where it has none.
#[verifier::external_body]
fn read_description(payload: &[u8]) -> (read: Result<String, ParseError>)
    ensures
        match description_of(payload@) {
            Some(text) => read is Ok && read->Ok_0@ == text,
            None => read is Err,
        },
{
    concordium_std::from_bytes::<String>(payload)
}

/// Calls `concordium_std::from_bytes` for a pair of `u64`. The crate reads
/// eight bytes for each with `u64::from_le_bytes`, and fails where bytes are
/// missing. The contract says that the pair of `positions_of` comes back,
/// and an error where there is none.
#[verifier::external_body]
fn read_positions(payload: &[u8]) -> (read: Result<(u64, u64), ParseError>)
    ensures
        match positions_of(payload@) {
            Some(positions) => read == Ok::<(u64, u64), ParseError>(positions),
            None => read is Err,
        },
{
    concordium_std::from_bytes::<(u64, u64)>(payload)
}

/// Decodes the text of a new task or sub-task from a request's payload.
pub fn decode_description(payload: &[u8]) -> (decoded: Result<String, ReceiveError>)
    ensures
        match description_of(payload@) {
            Some(text) => decoded is Ok && decoded->Ok_0@ == text,
            None => decoded == Err::<String, ReceiveError>(ReceiveError::MalformedPayload),
        },
{
    match read_description(payload) {
        Ok(text) => Ok(text),
        Err(_) => Err(ReceiveError::MalformedPayload),
    }
}

/// Decodes the positions of a main task and of a sub-task from a request's
/// payload.
pub fn decode_positions(payload: &[u8]) -> (decoded: Result<(u64, u64), ReceiveError>)
    ensures
        match positions_of(payload@) {
            Some(positions) => decoded == Ok::<(u64, u64), ReceiveError>(positions),
            None => decoded == Err::<(u64, u64), ReceiveError>(ReceiveError::MalformedPayload),
        },
{
    match read_positions(payload) {
        Ok(positions) => Ok(positions),
        Err(_) => Err(ReceiveError::MalformedPayload),
    }
}

} // verus!
