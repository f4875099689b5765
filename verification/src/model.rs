//! Mathematical model of the wire format.
//!
//! A value is carried in 1 to 9 bytes.  The first byte opens with a run of
//! one-bits that tells how many follow bytes come after it; the remaining
//! bits of the first byte and the follow bytes carry the value itself,
//! little-endian.  These spec functions say, for every byte sequence, which
//! value it denotes and whether it is the canonical (shortest) form.

use vstd::prelude::*;

verus! {

use crate::Error;

/// Number of bytes in the canonical encoding of `v`: the least `l` in
/// `1..=8` with `v < 2^(7*l)`, and 9 for everything larger.
pub open spec fn encoded_len_spec(v: u64) -> u8 {
    if v <= 0x7f {
        1
    } else if v <= 0x3fff {
        2
    } else if v <= 0x1f_ffff {
        3
    } else if v <= 0x0fff_ffff {
        4
    } else if v <= 0x07_ffff_ffff {
        5
    } else if v <= 0x03ff_ffff_ffff {
        6
    } else if v <= 0x01_ffff_ffff_ffff {
        7
    } else if v <= 0xff_ffff_ffff_ffff {
        8
    } else {
        9
    }
}

/// Total length announced by a first byte: its count of leading one-bits,
/// plus one.
pub open spec fn decoded_len_spec(b: u8) -> u8 {
    if b < 0x80 {
        1
    } else if b < 0xc0 {
        2
    } else if b < 0xe0 {
        3
    } else if b < 0xf0 {
        4
    } else if b < 0xf8 {
        5
    } else if b < 0xfc {
        6
    } else if b < 0xfe {
        7
    } else if b == 0xfe {
        8
    } else {
        9
    }
}

/// Smallest value whose canonical encoding takes `len` bytes: `2^(7*(len-1))`.
pub open spec fn min_val_for_len(len: u8) -> u64 {
    if len <= 1 {
        0
    } else if len == 2 {
        0x80
    } else if len == 3 {
        0x4000
    } else if len == 4 {
        0x20_0000
    } else if len == 5 {
        0x1000_0000
    } else if len == 6 {
        0x08_0000_0000
    } else if len == 7 {
        0x0400_0000_0000
    } else if len == 8 {
        0x02_0000_0000_0000
    } else {
        0x0100_0000_0000_0000
    }
}

/// Largest value whose canonical encoding fits in `len` bytes:
/// `2^(7*len) - 1` for `len` up to 8, and `u64::MAX` for 9.
pub open spec fn max_val_for_len(len: u8) -> u64 {
    if len <= 1 {
        0x7f
    } else if len == 2 {
        0x3fff
    } else if len == 3 {
        0x1f_ffff
    } else if len == 4 {
        0x0fff_ffff
    } else if len == 5 {
        0x07_ffff_ffff
    } else if len == 6 {
        0x03ff_ffff_ffff
    } else if len == 7 {
        0x01_ffff_ffff_ffff
    } else if len == 8 {
        0xff_ffff_ffff_ffff
    } else {
        0xffff_ffff_ffff_ffff
    }
}

/// The value of a little-endian byte sequence (at most 8 bytes).
pub open spec fn le_val(s: Seq<u8>) -> u64
    recommends
        s.len() <= 8,
    decreases s.len(),
{
    if s.len() == 0 {
        0
    } else {
        (le_val(s.drop_first()) << 8) | (s.first() as u64)
    }
}

/// A length-1 encoding is always canonical; a longer one only when the
/// value could not have fit in fewer bytes.
pub open spec fn check_spec(len: u8, v: u64) -> bool {
    len == 1 || v >= min_val_for_len(len)
}

/// Value denoted by a first byte and its follow bytes when the total
/// length is taken to be `len` (follow bytes beyond `len - 1` are ignored).
///
/// For lengths 2 to 7 the follow bytes hold the high bits of the value and
/// the low `8 - len` bits of the first byte hold the rest; for lengths 8
/// and 9 the follow bytes hold the whole value, little-endian.
pub open spec fn raw_val_with(len: u8, b0: u8, follow: Seq<u8>) -> u64
    recommends
        1 <= len <= 9,
        follow.len() >= len - 1,
{
    if len == 1 {
        b0 as u64
    } else if len <= 7 {
        (le_val(follow.take(len - 1)) << ((8 - len) as u64)) | ((b0 & (0xffu8 >> len)) as u64)
    } else if len == 8 {
        le_val(follow.take(7))
    } else {
        le_val(follow.take(8))
    }
}

/// Value denoted by a first byte and its follow bytes, at the length the
/// first byte announces.
pub open spec fn raw_val(b0: u8, follow: Seq<u8>) -> u64
    recommends
        follow.len() >= decoded_len_spec(b0) - 1,
{
    raw_val_with(decoded_len_spec(b0), b0, follow)
}

/// Result of decoding a contiguous byte sequence: the announced length
/// must be available, and the encoding must be canonical.
pub open spec fn decode_spec(s: Seq<u8>) -> Result<u64, Error> {
    if s.len() == 0 {
        Err(Error::Truncated)
    } else {
        let len = decoded_len_spec(s[0]);
        if s.len() < len as int {
            Err(Error::Truncated)
        } else {
            let v = raw_val(s[0], s.skip(1));
            if check_spec(len, v) {
                Ok(v)
            } else {
                Err(Error::RedundantEncode)
            }
        }
    }
}

/// Result of decoding a first byte and its follow bytes, supplied apart,
/// when the total length is taken to be `len`.
pub open spec fn decode_with_length_spec(len: u8, s: Seq<u8>) -> Result<u64, Error>
    recommends
        1 <= len <= 9,
{
    if s.len() < len as int {
        Err(Error::Truncated)
    } else {
        let v = raw_val_with(len, s[0], s.skip(1));
        if check_spec(len, v) {
            Ok(v)
        } else {
            Err(Error::RedundantEncode)
        }
    }
}

/// Result of decoding a first byte and its follow bytes, supplied apart,
/// when the total length is taken to be `len`.
pub open spec fn decode_split_spec(len: u8, b0: u8, follow: Seq<u8>) -> Result<u64, Error>
    recommends
        1 <= len <= 9,
{
    if follow.len() < len - 1 {
        Err(Error::Truncated)
    } else {
        let v = raw_val_with(len, b0, follow);
        if check_spec(len, v) {
            Ok(v)
        } else {
            Err(Error::RedundantEncode)
        }
    }
}

/// Result of decoding a first byte and its follow bytes, supplied apart.
pub open spec fn decode2_spec(b0: u8, follow: Seq<u8>) -> Result<u64, Error> {
    decode_split_spec(decoded_len_spec(b0), b0, follow)
}

/// Result of decoding a first byte whose follow bytes come packed in a
/// little-endian word, when the total length is taken to be `len`.
/// Truncation cannot arise; the word is used exactly as the unpacking
/// formula reads it, so bytes beyond the announced length flow into the
/// result just as they do in the executable code.
pub open spec fn decode_packed_spec(len: u8, b0: u8, follow_le: u64) -> Result<u64, Error>
    recommends
        1 <= len <= 9,
{
    let v = raw_val_packed(len, b0, follow_le);
    if check_spec(len, v) {
        Ok(v)
    } else {
        Err(Error::RedundantEncode)
    }
}

/// Result of decoding a first byte whose follow bytes come packed in a
/// little-endian word.
pub open spec fn decode3_spec(b0: u8, follow_le: u64) -> Result<u64, Error> {
    decode_packed_spec(decoded_len_spec(b0), b0, follow_le)
}

/// Value read from a packed little-endian follow word at length `len`.
pub open spec fn raw_val_packed(len: u8, b0: u8, follow_le: u64) -> u64
    recommends
        1 <= len <= 9,
{
    if len == 1 {
        b0 as u64
    } else if len <= 7 {
        ((follow_le << 8) | ((b0 << len) as u64)) >> (len as u64)
    } else {
        follow_le
    }
}

/// First byte of the canonical encoding of `v`: the length-announcing run
/// of ones, then a zero bit, then the low bits of the value (lengths 8 and
/// 9 use the two fixed marker bytes).
pub open spec fn first_byte_spec(v: u64) -> u8 {
    let len = encoded_len_spec(v);
    if len == 1 {
        v as u8
    } else if len <= 7 {
        !(0xffu8 >> ((len - 1) as u8)) | ((v as u8) & (0xffu8 >> len))
    } else if len == 8 {
        0xfe
    } else {
        0xff
    }
}

/// Byte `i` of the canonical encoding of `v` (for `i` past 0).
pub open spec fn enc_byte(v: u64, i: int) -> u8 {
    let len = encoded_len_spec(v);
    if i == 0 {
        first_byte_spec(v)
    } else if len <= 7 {
        ((v << (len as u64)) >> ((8 * i) as u64)) as u8
    } else {
        (v >> ((8 * (i - 1)) as u64)) as u8
    }
}

/// The canonical encoding of `v`.
pub open spec fn enc_bytes(v: u64) -> Seq<u8> {
    Seq::new(encoded_len_spec(v) as nat, |i: int| enc_byte(v, i))
}

} // verus!
