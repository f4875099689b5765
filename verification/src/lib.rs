//! A variable-length encoding of 64-bit integers.
//!
//! Values are written in 1 to 9 bytes.  The first byte announces, in its
//! run of leading one-bits, how many follow bytes come after it, and the
//! decoder rejects both inputs that end too early and encodings longer
//! than the value needs, so that every value has exactly one accepted
//! byte form.  All encoding and decoding functions carry contracts that
//! pin their results down against the spec model in [`model`], and the
//! laws that tie them together are proved in [`laws`].

use vstd::prelude::*;

pub mod decimal;
pub mod io;
pub mod laws;
pub mod model;
pub mod signed;

verus! {

use crate::model::{
    check_spec, decode2_spec, decode3_spec, decode_packed_spec, decode_split_spec, decode_spec,
    decode_with_length_spec, decoded_len_spec, enc_byte, enc_bytes, encoded_len_spec, le_val,
};
use vstd::string::StringExecFns;

/// Largest integer encoded in 1 byte.
pub const MAX_LEN1: u64 = 0x7F;

/// Largest integer encoded in 2 bytes.
pub const MAX_LEN2: u64 = 0x3FFF;

/// Largest integer encoded in 3 bytes.
pub const MAX_LEN3: u64 = 0x1F_FFFF;

/// Largest integer encoded in 4 bytes.
pub const MAX_LEN4: u64 = 0x0FFF_FFFF;

/// Largest integer encoded in 5 bytes.
pub const MAX_LEN5: u64 = 0x07_FFFF_FFFF;

/// Largest integer encoded in 6 bytes.
pub const MAX_LEN6: u64 = 0x03FF_FFFF_FFFF;

/// Largest integer encoded in 7 bytes.
pub const MAX_LEN7: u64 = 0x01_FFFF_FFFF_FFFF;

/// Largest integer encoded in 8 bytes.
pub const MAX_LEN8: u64 = 0xFF_FFFF_FFFF_FFFF;

/// Largest integer encoded in 9 bytes.
pub const MAX_LEN9: u64 = 0xFFFF_FFFF_FFFF_FFFF;

/// Largest number of bytes an encoding can take.
pub const MAX_BYTES: usize = 9;

/// How a byte sequence can fail to decode.
#[derive(Copy, Clone, Debug, PartialEq, Eq)]
pub enum Error {
    /// The first byte announces a longer encoding than the value needs.
    LeadingOnes,
    /// The encoding is longer than the shortest form of its value.
    RedundantEncode,
    /// The input ends before the length announced by the first byte.
    Truncated,
}

impl Error {
    /// A short description of the error, one fixed line per kind.
    pub fn message(&self) -> (r: &'static str)
        ensures
            *self is LeadingOnes ==> r@ == "leading ones in vu64 value"@,
            *self is RedundantEncode ==> r@ == "redundant encoded vu64 value"@,
            *self is Truncated ==> r@ == "truncated vu64 value"@,
    {
        match self {
            Error::LeadingOnes => "leading ones in vu64 value",
            Error::RedundantEncode => "redundant encoded vu64 value",
            Error::Truncated => "truncated vu64 value",
        }
    }
}

/// An encoded integer: up to 9 significant bytes held inline, with no
/// heap allocation, trivially copyable.
#[derive(Copy, Clone, PartialEq, Eq, Debug)]
pub struct Vu64 {
    /// Number of significant bytes.
    length: u8,
    /// Backing storage; only the first `length` bytes carry the encoding.
    bytes: [u8; MAX_BYTES],
}

impl View for Vu64 {
    type V = Seq<u8>;

    closed spec fn view(&self) -> Seq<u8> {
        self.bytes@.take(self.length as int)
    }
}

impl Vu64 {
    /// The numeric value the stored bytes decode to.
    pub closed spec fn value_spec(self) -> u64 {
        decode_spec(self@)->Ok_0
    }

    /// The stored bytes are one whole canonical encoding.
    pub closed spec fn wf(self) -> bool {
        &&& 1 <= self.length <= 9
        &&& decode_spec(self@) is Ok
    }

    /// The encoded bytes, as a slice of exactly the significant length.
    pub fn as_ref(&self) -> (r: &[u8])
        requires
            self.wf(),
        ensures
            r@ == self@,
    {
        vstd::slice::slice_subrange(self.bytes.as_slice(), 0, self.length as usize)
    }

    /// Rebuild a container from an encoded byte slice: decode it first,
    /// so only inputs that decode cleanly are accepted, and store the
    /// canonical bytes of the decoded value.
    pub fn try_from(slice: &[u8]) -> (r: Result<Vu64, Error>)
        ensures
            decode_spec(slice@) matches Ok(v) ==> (r matches Ok(x) && x@ == enc_bytes(v) && x.wf()
                && x.value_spec() == v),
            decode_spec(slice@) matches Err(e) ==> r == Err::<Vu64, Error>(e),
            (decode_spec(slice@) is Ok && slice@.len() == decoded_len_spec(slice@[0])) ==> (
            r matches Ok(x) && x@ == slice@),
    {
        match decode(slice) {
            Ok(v) => {
                proof {
                    if slice@.len() == decoded_len_spec(slice@[0]) {
                        crate::laws::lemma_decode_determines_bytes(slice@);
                    }
                }
                Ok(encode(v))
            },
            Err(e) => Err(e),
        }
    }

    /// The container rendered as text: `V64(`, the decoded value in
    /// decimal, then `)`.
    pub fn debug_string(&self) -> (r: String)
        requires
            self.wf(),
        ensures
            r@ == "V64("@ + crate::decimal::decimal_digits(self.value_spec()) + ")"@,
    {
        let value = match decode(self.as_ref()) {
            Ok(v) => v,
            Err(_) => {
                proof {
                    assert(false);
                }
                0
            },
        };
        let mut s = String::new();
        s.append("V64(");
        crate::decimal::push_decimal(&mut s, value);
        s.append(")");
        proof {
            assert(s@ =~= "V64("@ + crate::decimal::decimal_digits(value) + ")"@);
        }
        s
    }
}

impl From<u64> for Vu64 {
    /// Encode the value.
    fn from(value: u64) -> (r: Vu64) {
        encode(value)
    }
}

impl vstd::std_specs::convert::FromSpecImpl<u64> for Vu64 {
    open spec fn obeys_from_spec() -> bool {
        false
    }

    open spec fn from_spec(value: u64) -> Vu64 {
        choose|r: Vu64| r@ == enc_bytes(value)
    }
}

impl From<i64> for Vu64 {
    /// Zigzag-transform the value, then encode it.
    fn from(value: i64) -> (r: Vu64) {
        signed::encode(value)
    }
}

impl vstd::std_specs::convert::FromSpecImpl<i64> for Vu64 {
    open spec fn obeys_from_spec() -> bool {
        false
    }

    open spec fn from_spec(value: i64) -> Vu64 {
        choose|r: Vu64| r@ == enc_bytes(crate::signed::zigzag::zigzag_spec(value))
    }
}

/// Encode an unsigned 64-bit integer into its canonical byte form.
pub fn encode(value: u64) -> (r: Vu64)
    ensures
        r@ == enc_bytes(value),
        r.wf(),
        r.value_spec() == value,
{
    let length = encoded_len(value);
    let bytes: [u8; MAX_BYTES];
    if length == 1 {
        bytes = [value as u8, 0, 0, 0, 0, 0, 0, 0, 0];
    } else if length < 8 {
        let shifted = value << (length as u64);
        let b0 = !(0xffu8 >> (length - 1)) | ((value as u8) & (0xffu8 >> length));
        bytes = [
            b0,
            (shifted >> 8u64) as u8,
            (shifted >> 16u64) as u8,
            (shifted >> 24u64) as u8,
            (shifted >> 32u64) as u8,
            (shifted >> 40u64) as u8,
            (shifted >> 48u64) as u8,
            (shifted >> 56u64) as u8,
            0,
        ];
    } else {
        let b0: u8 = if length == 8 {
            0xfe
        } else {
            0xff
        };
        bytes = [
            b0,
            value as u8,
            (value >> 8u64) as u8,
            (value >> 16u64) as u8,
            (value >> 24u64) as u8,
            (value >> 32u64) as u8,
            (value >> 40u64) as u8,
            (value >> 48u64) as u8,
            (value >> 56u64) as u8,
        ];
    }
    let r = Vu64 { length, bytes };
    proof {
        assert((value >> 0u64) == value) by (bit_vector);
        assert forall|i: int| 0 <= i < length implies r@[i] == enc_byte(value, i) by {
            assert(r@[i] == r.bytes@[i]);
            if i == 0 {
                assert(r.bytes@[0] == enc_byte(value, 0));
            } else if i == 1 {
                assert(r.bytes@[1] == enc_byte(value, 1));
            } else if i == 2 {
                assert(r.bytes@[2] == enc_byte(value, 2));
            } else if i == 3 {
                assert(r.bytes@[3] == enc_byte(value, 3));
            } else if i == 4 {
                assert(r.bytes@[4] == enc_byte(value, 4));
            } else if i == 5 {
                assert(r.bytes@[5] == enc_byte(value, 5));
            } else if i == 6 {
                assert(r.bytes@[6] == enc_byte(value, 6));
            } else if i == 7 {
                assert(r.bytes@[7] == enc_byte(value, 7));
            } else {
                assert(r.bytes@[8] == enc_byte(value, 8));
            }
        }
        assert(r@ =~= enc_bytes(value));
        crate::laws::lemma_round_trip(value);
    }
    r
}

/// Number of bytes the encoding of `value` takes, from 1 to 9.
pub fn encoded_len(value: u64) -> (r: u8)
    ensures
        r == encoded_len_spec(value),
        1 <= r <= 9,
{
    if value <= MAX_LEN1 {
        1
    } else if value <= MAX_LEN2 {
        2
    } else if value <= MAX_LEN3 {
        3
    } else if value <= MAX_LEN4 {
        4
    } else if value <= MAX_LEN5 {
        5
    } else if value <= MAX_LEN6 {
        6
    } else if value <= MAX_LEN7 {
        7
    } else if value <= MAX_LEN8 {
        8
    } else {
        9
    }
}

/// Total length of an encoding, read off its first byte: the count of
/// leading one-bits plus one, so from 1 to 9.
pub fn decoded_len(byte: u8) -> (r: u8)
    ensures
        r == decoded_len_spec(byte),
        1 <= r <= 9,
{
    proof {
        lemma_leading_ones_decoded_len(byte);
    }
    byte.leading_ones() as u8 + 1
}

/// Decode one value from the front of a contiguous byte slice.
///
/// Returns `Truncated` when the slice is empty or shorter than the
/// length its first byte announces, and `RedundantEncode` when the
/// bytes are a longer-than-necessary form of their value.
pub fn decode(bytes: &[u8]) -> (r: Result<u64, Error>)
    ensures
        r == decode_spec(bytes@),
{
    if bytes.len() == 0 {
        return Err(Error::Truncated);
    }
    let length = decoded_len(bytes[0]);
    decode_with_length(length, bytes)
}

/// Decode one value supplied as its first byte plus follow bytes.
///
/// Same result as [`decode`] on the concatenation of `first_byte` and
/// `follow_bytes`.
pub fn decode2(first_byte: u8, follow_bytes: &[u8]) -> (r: Result<u64, Error>)
    ensures
        r == decode2_spec(first_byte, follow_bytes@),
{
    let length = decoded_len(first_byte);
    decode_with_first_and_follow(length, first_byte, follow_bytes)
}

/// Decode one value supplied as its first byte plus a packed
/// little-endian word of follow bytes (zero-padded by the caller).
///
/// Cannot report truncation; canonical-form validation still applies.
pub fn decode3(first_byte: u8, follow_le_max_8_bytes: u64) -> (r: Result<u64, Error>)
    ensures
        r == decode3_spec(first_byte, follow_le_max_8_bytes),
{
    let length = decoded_len(first_byte);
    decode_with_first_and_follow_le(length, first_byte, follow_le_max_8_bytes)
}

/// Decode from a contiguous slice whose total length has already been
/// read off the first byte.
pub fn decode_with_length(length: u8, bytes: &[u8]) -> (r: Result<u64, Error>)
    requires
        1 <= length <= 9,
    ensures
        r == decode_with_length_spec(length, bytes@),
{
    if bytes.len() < length as usize {
        return Err(Error::Truncated);
    }
    let follow_len = length - 1;
    let result: u64;
    if follow_len == 0 {
        result = bytes[0] as u64;
    } else {
        let mut val: u64 = 0;
        let mut i: usize = length as usize - 1;
        while i > 0
            invariant
                1 <= length <= 9,
                bytes@.len() >= length as int,
                i < length as usize,
                val == le_val(bytes@.subrange(i + 1, length as int)),
            decreases i,
        {
            proof {
                assert(bytes@.subrange(i as int, length as int).drop_first() =~= bytes@.subrange(
                    i + 1,
                    length as int,
                ));
            }
            val = (val << 8u64) | (bytes[i] as u64);
            i = i - 1;
        }
        proof {
            assert(bytes@.skip(1).take(length - 1) =~= bytes@.subrange(1, length as int));
        }
        if follow_len < 7 {
            result = (val << ((8 - length) as u64)) | ((bytes[0] & (0xffu8 >> length)) as u64);
        } else {
            result = val;
        }
    }
    if length == 1 {
        Ok(result)
    } else {
        proof {
            crate::laws::lemma_min_val_shift(length);
        }
        if result >= (1u64 << ((7 * (length - 1)) as u64)) {
            Ok(result)
        } else {
            Err(Error::RedundantEncode)
        }
    }
}

/// Decode from a first byte and separate follow bytes whose total length
/// has already been read off the first byte.
pub fn decode_with_first_and_follow(length: u8, first_byte: u8, follow_bytes: &[u8]) -> (r: Result<
    u64,
    Error,
>)
    requires
        1 <= length <= 9,
    ensures
        r == decode_split_spec(length, first_byte, follow_bytes@),
{
    if follow_bytes.len() < length as usize - 1 {
        return Err(Error::Truncated);
    }
    let follow_len = length - 1;
    let result: u64;
    if follow_len == 0 {
        result = first_byte as u64;
    } else {
        let mut val: u64 = 0;
        let mut i: usize = follow_len as usize;
        while i > 0
            invariant
                1 <= follow_len <= 8,
                follow_bytes@.len() >= follow_len as int,
                i <= follow_len as usize,
                val == le_val(follow_bytes@.subrange(i as int, follow_len as int)),
            decreases i,
        {
            i = i - 1;
            proof {
                assert(follow_bytes@.subrange(i as int, follow_len as int).drop_first()
                    =~= follow_bytes@.subrange(i + 1, follow_len as int));
            }
            val = (val << 8u64) | (follow_bytes[i] as u64);
        }
        proof {
            assert(follow_bytes@.take(follow_len as int) =~= follow_bytes@.subrange(
                0,
                follow_len as int,
            ));
        }
        if follow_len < 7 {
            result = (val << ((8 - length) as u64)) | ((first_byte & (0xffu8 >> length)) as u64);
        } else {
            result = val;
        }
    }
    if length == 1 {
        Ok(result)
    } else {
        proof {
            crate::laws::lemma_min_val_shift(length);
        }
        if result >= (1u64 << ((7 * (length - 1)) as u64)) {
            Ok(result)
        } else {
            Err(Error::RedundantEncode)
        }
    }
}

/// Decode from a first byte and a packed little-endian follow word whose
/// total length has already been read off the first byte.
pub fn decode_with_first_and_follow_le(
    length: u8,
    first_byte: u8,
    follow_le_max_8_bytes: u64,
) -> (r: Result<u64, Error>)
    requires
        1 <= length <= 9,
    ensures
        r == decode_packed_spec(length, first_byte, follow_le_max_8_bytes),
{
    let follow_len = length - 1;
    let result: u64;
    if follow_len == 0 {
        result = first_byte as u64;
    } else if follow_len < 7 {
        let lsb = first_byte << length;
        result = ((follow_le_max_8_bytes << 8u64) | (lsb as u64)) >> (length as u64);
    } else {
        result = follow_le_max_8_bytes;
    }
    if length == 1 {
        Ok(result)
    } else {
        proof {
            crate::laws::lemma_min_val_shift(length);
        }
        if result >= (1u64 << ((7 * (length - 1)) as u64)) {
            Ok(result)
        } else {
            Err(Error::RedundantEncode)
        }
    }
}

/// Accept `result` as decoded at `length` bytes only if that length is
/// the canonical one for it: a one-byte length always passes, a longer
/// one only when the value could not fit in fewer bytes.
pub fn check_result_with_length(length: u8, result: u64) -> (r: Result<u64, Error>)
    requires
        1 <= length <= 9,
    ensures
        check_spec(length, result) ==> r == Ok::<u64, Error>(result),
        !check_spec(length, result) ==> r == Err::<u64, Error>(Error::LeadingOnes),
{
    if length == 1 {
        Ok(result)
    } else {
        proof {
            crate::laws::lemma_min_val_shift(length);
        }
        if result >= (1u64 << ((7 * (length - 1)) as u64)) {
            Ok(result)
        } else {
            Err(Error::LeadingOnes)
        }
    }
}

/// The leading-one count of a byte matches the range the length spec
/// reads off it.
proof fn lemma_leading_ones_decoded_len(b: u8)
    ensures
        vstd::std_specs::bits::u8_leading_ones(b) + 1 == decoded_len_spec(b),
{
    vstd::std_specs::bits::axiom_u8_leading_ones(b);
    let k = vstd::std_specs::bits::u8_leading_ones(b) as u8;
    assert(k + 1 == decoded_len_spec(b)) by (bit_vector)
        requires
            k <= 8,
            b == 0xffu8 <==> k == 8,
            k < 8 ==> (b >> ((7 - k) as u8)) & 1u8 == 0u8,
            (!b) >> ((8 - k) as u8) == 0,
    ;
}

} // verus!
