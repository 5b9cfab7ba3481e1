//! The byte encoding of stored records: integers as little-endian bytes,
//! strings with their length in front.
use crate::address::utf8_bytes;
use vstd::prelude::*;

verus! {

/// The four little-endian bytes of `n`.
pub open spec fn le_u32(n: nat) -> Seq<u8> {
    seq![
        (n % 256) as u8,
        ((n / 256) % 256) as u8,
        ((n / 65536) % 256) as u8,
        ((n / 16777216) % 256) as u8,
    ]
}

/// A string as stored: its byte length as four little-endian bytes, then its
/// UTF-8 bytes.
pub open spec fn str_bytes(s: Seq<char>) -> Seq<u8> {
    le_u32(utf8_bytes(s).len()) + utf8_bytes(s)
}

/// Relies on borsh's `BorshSerialize` for `String`: the length as a
/// little-endian `u32`, then the UTF-8 bytes; it fails only where the length
/// does not fit in a `u32`.
#[verifier::external_body]
pub(crate) fn encode_str(s: &String) -> (r: Vec<u8>)
    requires
        utf8_bytes(s@).len() <= u32::MAX,
    ensures
        r@ == str_bytes(s@),
{
    match borsh::BorshSerialize::try_to_vec(s) {
        Ok(v) => v,
        Err(_) => Vec::new(),
    }
}

/// The four little-endian bytes of `n`.
pub fn encode_u32(n: u32) -> (r: Vec<u8>)
    ensures
        r@ == le_u32(n as nat),
{
    let mut v: Vec<u8> = Vec::new();
    v.push((n % 256) as u8);
    v.push(((n / 256) % 256) as u8);
    v.push(((n / 65536) % 256) as u8);
    v.push(((n / 16777216) % 256) as u8);
    proof {
        assert(v@ =~= le_u32(n as nat));
    }
    v
}

} // verus!
