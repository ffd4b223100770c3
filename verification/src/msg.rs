//! The deposit-notification message grammar: a record of two
//! length-prefixed UTF-8 strings (an action and a payload), and a payload
//! record of one length-prefixed UTF-8 string (the account name). Parsing
//! consumes the whole input or rejects it.
use vstd::prelude::*;
use vstd::slice::{slice_subrange, slice_to_vec};
use vstd::utf8::{decode_utf8, valid_utf8};

verus! {

/// The decoded outer message of a deposit notification.
pub struct TransferMessage {
    pub action: String,
    pub payload: String,
}

/// The decoded payload of a `deposit` action.
pub struct DepositPayload {
    pub account_name: String,
}

/// The 32-bit little-endian length read at `off`.
pub open spec fn le32_at(b: Seq<u8>, off: int) -> int {
    b[off] + b[off + 1] * 0x100 + b[off + 2] * 0x10000 + b[off + 3] * 0x1000000
}

/// Parses one length-prefixed UTF-8 string at `off`: the decoded characters
/// and the offset just past them, or nothing when the length or the bytes
/// are invalid.
pub open spec fn spec_parse_string_at(b: Seq<u8>, off: int) -> Option<(Seq<char>, int)> {
    if off + 4 > b.len() {
        None
    } else {
        let n = le32_at(b, off);
        if off + 4 + n > b.len() {
            None
        } else {
            let raw = b.subrange(off + 4, off + 4 + n);
            if valid_utf8(raw) {
                Some((decode_utf8(raw), off + 4 + n))
            } else {
                None
            }
        }
    }
}

/// Parses a whole transfer message: action, then payload, consuming every
/// byte.
pub open spec fn spec_parse_transfer_message(b: Seq<u8>) -> Option<(Seq<char>, Seq<char>)> {
    match spec_parse_string_at(b, 0) {
        None => None,
        Some((action, mid)) => match spec_parse_string_at(b, mid) {
            None => None,
            Some((payload, end)) => if end == b.len() {
                Some((action, payload))
            } else {
                None
            },
        },
    }
}

/// Parses a whole deposit payload: one account name, consuming every byte.
pub open spec fn spec_parse_deposit_payload(b: Seq<u8>) -> Option<Seq<char>> {
    match spec_parse_string_at(b, 0) {
        None => None,
        Some((name, end)) => if end == b.len() {
            Some(name)
        } else {
            None
        },
    }
}

/// Relies on `String::from_utf8`: it succeeds exactly on valid UTF-8 input
/// and returns the string those bytes decode to.
#[verifier::external_body]
fn string_from_utf8(bytes: Vec<u8>) -> (r: Option<String>)
    ensures
        (r is Some) == valid_utf8(bytes@),
        r matches Some(s) ==> s@ == decode_utf8(bytes@),
{
    match String::from_utf8(bytes) {
        Ok(s) => Some(s),
        Err(_) => None,
    }
}

/// Reads one length-prefixed UTF-8 string at `off`.
fn parse_string_at(bytes: &Vec<u8>, off: usize) -> (r: Option<(String, usize)>)
    ensures
        match r {
            Some((s, end)) => spec_parse_string_at(bytes@, off as int) == Some((s@, end as int))
                && off < end <= bytes@.len(),
            None => spec_parse_string_at(bytes@, off as int) is None,
        },
{
    let len = bytes.len();
    if len < 4 || off > len - 4 {
        return None;
    }
    let b0 = bytes[off] as usize;
    let b1 = bytes[off + 1] as usize;
    let b2 = bytes[off + 2] as usize;
    let b3 = bytes[off + 3] as usize;
    let n = b0 + b1 * 0x100 + b2 * 0x10000 + b3 * 0x1000000;
    if n > len - (off + 4) {
        return None;
    }
    let raw = slice_to_vec(slice_subrange(bytes.as_slice(), off + 4, off + 4 + n));
    match string_from_utf8(raw) {
        Some(s) => Some((s, off + 4 + n)),
        None => None,
    }
}

/// Decodes a transfer message from raw bytes: an action and a payload, each
/// a length-prefixed UTF-8 string, with no bytes left over.
pub fn parse_transfer_message(bytes: &Vec<u8>) -> (r: Option<TransferMessage>)
    ensures
        match r {
            Some(m) => spec_parse_transfer_message(bytes@) == Some((m.action@, m.payload@)),
            None => spec_parse_transfer_message(bytes@) is None,
        },
{
    let (action, mid) = match parse_string_at(bytes, 0) {
        Some(p) => p,
        None => {
            return None;
        },
    };
    let (payload, end) = match parse_string_at(bytes, mid) {
        Some(p) => p,
        None => {
            return None;
        },
    };
    if end != bytes.len() {
        return None;
    }
    Some(TransferMessage { action, payload })
}

/// Decodes a deposit payload from raw bytes: one length-prefixed UTF-8
/// account name, with no bytes left over.
pub fn parse_deposit_payload(bytes: &Vec<u8>) -> (r: Option<DepositPayload>)
    ensures
        match r {
            Some(p) => spec_parse_deposit_payload(bytes@) == Some(p.account_name@),
            None => spec_parse_deposit_payload(bytes@) is None,
        },
{
    let (account_name, end) = match parse_string_at(bytes, 0) {
        Some(p) => p,
        None => {
            return None;
        },
    };
    if end != bytes.len() {
        return None;
    }
    Some(DepositPayload { account_name })
}

} // verus!
