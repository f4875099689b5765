//! Encoding of signed integers, by way of the zigzag transform.

use vstd::prelude::*;

pub mod zigzag;

verus! {

use crate::model::{decode_spec, enc_bytes, encoded_len_spec};
use crate::signed::zigzag::{unzigzag_spec, zigzag_spec};
use crate::{Error, Vu64};

/// Result of decoding a byte sequence as a zigzag-encoded signed value.
pub open spec fn signed_decode_spec(s: Seq<u8>) -> Result<i64, Error> {
    match decode_spec(s) {
        Ok(u) => Ok(unzigzag_spec(u)),
        Err(e) => Err(e),
    }
}

/// Encode a signed integer: zigzag-transform it, then encode the
/// unsigned image.
pub fn encode(value: i64) -> (r: Vu64)
    ensures
        r@ == enc_bytes(zigzag_spec(value)),
        r.wf(),
        r.value_spec() == zigzag_spec(value),
{
    crate::encode(zigzag::encode(value))
}

/// Decode a zigzag-encoded signed integer from a byte slice.
pub fn decode(bytes: &[u8]) -> (r: Result<i64, Error>)
    ensures
        r == signed_decode_spec(bytes@),
{
    match crate::decode(bytes) {
        Ok(u) => Ok(zigzag::decode(u)),
        Err(e) => Err(e),
    }
}

/// Length in bytes of the encoding of a signed integer.
pub fn encoded_len(value: i64) -> (r: u8)
    ensures
        r == encoded_len_spec(zigzag_spec(value)),
        1 <= r <= 9,
{
    crate::encoded_len(zigzag::encode(value))
}

} // verus!
