//! Laws of the codec, proved once over the spec model.
//!
//! The public proof functions here state the properties that hold of every
//! value and every encoding: the round trip in both directions (the codec
//! is a bijection between values and accepted byte sequences), the
//! canonical-length facts, the agreement of the three decode entry
//! points, and truncation of proper prefixes.

use vstd::prelude::*;

verus! {

use crate::Error;
use crate::model::{
    check_spec, decode2_spec, decode3_spec, decode_spec, decoded_len_spec, enc_byte, enc_bytes,
    encoded_len_spec, first_byte_spec, le_val, max_val_for_len, min_val_for_len, raw_val,
};

/// The low `n` little-endian bytes of a word, as a byte sequence.
pub open spec fn bytes_of(x: u64, n: int) -> Seq<u8> {
    Seq::new(n as nat, |i: int| (x >> ((8 * i) as u64)) as u8)
}

/// Mask keeping the low `n` bytes of a word.
pub open spec fn low_bytes_mask(n: int) -> u64 {
    if n <= 0 {
        0
    } else if n == 1 {
        0xff
    } else if n == 2 {
        0xffff
    } else if n == 3 {
        0xff_ffff
    } else if n == 4 {
        0xffff_ffff
    } else if n == 5 {
        0xff_ffff_ffff
    } else if n == 6 {
        0xffff_ffff_ffff
    } else if n == 7 {
        0xff_ffff_ffff_ffff
    } else {
        0xffff_ffff_ffff_ffff
    }
}

proof fn lemma_shr8_compose(x: u64, sh: u64)
    by (bit_vector)
    requires
        sh <= 48,
    ensures
        ((x >> 8) >> sh) == x >> ((sh + 8) as u64),
{
}

/// The little-endian value of the low `n` bytes of `x` is `x` with its
/// high bytes masked off.
proof fn lemma_le_val_bytes_of(x: u64, n: int)
    requires
        0 <= n <= 8,
    ensures
        le_val(bytes_of(x, n)) == x & low_bytes_mask(n),
    decreases n,
{
    if n == 0 {
        assert(bytes_of(x, 0) =~= Seq::<u8>::empty());
        assert(x & 0u64 == 0) by (bit_vector);
    } else {
        lemma_le_val_bytes_of(x >> 8, n - 1);
        assert(bytes_of(x, n).drop_first() =~= bytes_of(x >> 8, n - 1)) by {
            assert forall|i: int| 0 <= i < n - 1 implies bytes_of(x, n).drop_first()[i]
                == bytes_of(x >> 8, n - 1)[i] by {
                lemma_shr8_compose(x, (8 * i) as u64);
                assert((8 * (i + 1)) as u64 == (((8 * i) as u64) + 8) as u64);
            }
        }
        assert(x >> (0u64) == x && (x & 0xffu64) == ((x as u8) as u64)) by (bit_vector);
        assert(bytes_of(x, n).first() == (x as u8));
        assert(((((x >> 8) & 0u64) << 8) | ((x as u8) as u64)) == (x & 0xffu64)
            && ((((x >> 8) & 0xffu64) << 8) | ((x as u8) as u64)) == (x & 0xffffu64)
            && ((((x >> 8) & 0xffffu64) << 8) | ((x as u8) as u64)) == (x & 0xff_ffffu64)
            && ((((x >> 8) & 0xff_ffffu64) << 8) | ((x as u8) as u64)) == (x & 0xffff_ffffu64)
            && ((((x >> 8) & 0xffff_ffffu64) << 8) | ((x as u8) as u64)) == (x & 0xff_ffff_ffffu64)
            && ((((x >> 8) & 0xff_ffff_ffffu64) << 8) | ((x as u8) as u64)) == (x
                & 0xffff_ffff_ffffu64)
            && ((((x >> 8) & 0xffff_ffff_ffffu64) << 8) | ((x as u8) as u64)) == (x
                & 0xff_ffff_ffff_ffffu64)
            && ((((x >> 8) & 0xff_ffff_ffff_ffffu64) << 8) | ((x as u8) as u64)) == (x
                & 0xffff_ffff_ffff_ffffu64)) by (bit_vector);
    }
}

/// The shift form of the canonical lower bound used by the executable
/// checks agrees with the spec table.
pub(crate) proof fn lemma_min_val_shift(l: u8)
    by (bit_vector)
    requires
        2 <= l <= 9,
    ensures
        (1u64 << ((7 * (l - 1)) as u64)) == min_val_for_len(l),
{
}

/// The first byte of an encoding announces exactly the encoding's length.
proof fn lemma_first_byte_announces_len(v: u64)
    by (bit_vector)
    ensures
        decoded_len_spec(first_byte_spec(v)) == encoded_len_spec(v),
{
}

/// The follow bytes of an encoding are the little-endian bytes of the
/// packed (or, for the two marker lengths, the plain) value.
proof fn lemma_enc_follow_bytes(v: u64)
    requires
        2 <= encoded_len_spec(v),
    ensures
        encoded_len_spec(v) <= 7 ==> enc_bytes(v).skip(1) =~= bytes_of(
            (v << (encoded_len_spec(v) as u64)) >> 8,
            encoded_len_spec(v) - 1,
        ),
        encoded_len_spec(v) >= 8 ==> enc_bytes(v).skip(1) =~= bytes_of(
            v,
            encoded_len_spec(v) - 1,
        ),
{
    let l = encoded_len_spec(v);
    if l <= 7 {
        let p = (v << (l as u64)) >> 8;
        assert forall|i: int| 0 <= i < l - 1 implies enc_bytes(v).skip(1)[i] == bytes_of(
            p,
            l - 1,
        )[i] by {
            lemma_shr8_compose(v << (l as u64), (8 * i) as u64);
            assert((8 * (i + 1)) as u64 == (((8 * i) as u64) + 8) as u64);
            assert(enc_bytes(v).skip(1)[i] == enc_byte(v, i + 1));
        }
    } else {
        assert forall|i: int| 0 <= i < l - 1 implies enc_bytes(v).skip(1)[i] == bytes_of(
            v,
            l - 1,
        )[i] by {
            assert(enc_bytes(v).skip(1)[i] == enc_byte(v, i + 1));
        }
    }
}

/// Unpacking the encoding of `v` gives `v` back.
proof fn lemma_raw_val_of_enc(v: u64)
    ensures
        raw_val(first_byte_spec(v), enc_bytes(v).skip(1)) == v,
{
    let l = encoded_len_spec(v);
    let b0 = first_byte_spec(v);
    lemma_first_byte_announces_len(v);
    if l == 1 {
        assert(v <= 0x7f ==> ((v as u8) as u64) == v) by (bit_vector);
    } else if l <= 7 {
        lemma_enc_follow_bytes(v);
        let f = enc_bytes(v).skip(1);
        assert(f.take(l - 1) =~= f);
        lemma_le_val_bytes_of((v << (l as u64)) >> 8, l - 1);
        if l == 2 {
            assert(v <= 0x3fff ==> ((((((v << 2) >> 8) & 0xffu64) << 6) | (((!(0xffu8 >> 1) | ((
            v as u8) & (0xffu8 >> 2))) & (0xffu8 >> 2)) as u64)) == v)) by (bit_vector);
        } else if l == 3 {
            assert(v <= 0x1f_ffff ==> ((((((v << 3) >> 8) & 0xffffu64) << 5) | (((!(0xffu8 >> 2)
                | ((v as u8) & (0xffu8 >> 3))) & (0xffu8 >> 3)) as u64)) == v)) by (bit_vector);
        } else if l == 4 {
            assert(v <= 0x0fff_ffff ==> ((((((v << 4) >> 8) & 0xff_ffffu64) << 4) | (((!(0xffu8
                >> 3) | ((v as u8) & (0xffu8 >> 4))) & (0xffu8 >> 4)) as u64)) == v))
                by (bit_vector);
        } else if l == 5 {
            assert(v <= 0x07_ffff_ffff ==> ((((((v << 5) >> 8) & 0xffff_ffffu64) << 3) | (((!(
            0xffu8 >> 4) | ((v as u8) & (0xffu8 >> 5))) & (0xffu8 >> 5)) as u64)) == v))
                by (bit_vector);
        } else if l == 6 {
            assert(v <= 0x03ff_ffff_ffff ==> ((((((v << 6) >> 8) & 0xff_ffff_ffffu64) << 2) | (((!(
            0xffu8 >> 5) | ((v as u8) & (0xffu8 >> 6))) & (0xffu8 >> 6)) as u64)) == v))
                by (bit_vector);
        } else {
            assert(v <= 0x01_ffff_ffff_ffff ==> ((((((v << 7) >> 8) & 0xffff_ffff_ffffu64) << 1) | (((!(
            0xffu8 >> 6) | ((v as u8) & (0xffu8 >> 7))) & (0xffu8 >> 7)) as u64)) == v))
                by (bit_vector);
        }
    } else if l == 8 {
        lemma_enc_follow_bytes(v);
        let f = enc_bytes(v).skip(1);
        assert(f.take(7) =~= f);
        lemma_le_val_bytes_of(v, 7);
        assert(v <= 0xff_ffff_ffff_ffff ==> (v & 0xff_ffff_ffff_ffffu64) == v) by (bit_vector);
    } else {
        lemma_enc_follow_bytes(v);
        let f = enc_bytes(v).skip(1);
        assert(f.take(8) =~= f);
        lemma_le_val_bytes_of(v, 8);
        assert((v & 0xffff_ffff_ffff_ffffu64) == v) by (bit_vector);
    }
}

/// A run of zero bytes, as a byte sequence.
pub open spec fn zero_bytes(k: int) -> Seq<u8> {
    Seq::new(k as nat, |i: int| 0u8)
}

/// `f` padded with zero bytes up to 8 bytes, the packed-word shape of a
/// follow-byte sequence.
pub open spec fn pad8(f: Seq<u8>) -> Seq<u8>
    recommends
        f.len() <= 8,
{
    f + zero_bytes(8 - f.len())
}

proof fn lemma_le_val_zeros(k: int)
    requires
        0 <= k,
    ensures
        le_val(zero_bytes(k)) == 0,
    decreases k,
{
    if k > 0 {
        lemma_le_val_zeros(k - 1);
        assert(zero_bytes(k).drop_first() =~= zero_bytes(k - 1));
        assert((0u64 << 8) | 0u64 == 0u64) by (bit_vector);
    }
}

/// Zero padding on the high end does not change a little-endian value.
proof fn lemma_le_val_append_zeros(f: Seq<u8>, k: int)
    requires
        0 <= k,
    ensures
        le_val(f + zero_bytes(k)) == le_val(f),
    decreases f.len(),
{
    if f.len() == 0 {
        assert(f + zero_bytes(k) =~= zero_bytes(k));
        lemma_le_val_zeros(k);
    } else {
        lemma_le_val_append_zeros(f.drop_first(), k);
        assert((f + zero_bytes(k)).drop_first() =~= f.drop_first() + zero_bytes(k));
        assert((f + zero_bytes(k)).first() == f.first());
    }
}

/// A little-endian value fits in as many bytes as its sequence holds.
proof fn lemma_le_val_bound(s: Seq<u8>)
    requires
        s.len() <= 8,
    ensures
        le_val(s) <= low_bytes_mask(s.len() as int),
    decreases s.len(),
{
    if s.len() > 0 {
        lemma_le_val_bound(s.drop_first());
        let t = le_val(s.drop_first());
        let b = s.first();
        assert((t <= 0u64 ==> ((t << 8) | (b as u64)) <= 0xffu64) && (t <= 0xffu64 ==> ((t << 8)
            | (b as u64)) <= 0xffffu64) && (t <= 0xffffu64 ==> ((t << 8) | (b as u64))
            <= 0xff_ffffu64) && (t <= 0xff_ffffu64 ==> ((t << 8) | (b as u64)) <= 0xffff_ffffu64)
            && (t <= 0xffff_ffffu64 ==> ((t << 8) | (b as u64)) <= 0xff_ffff_ffffu64) && (t
            <= 0xff_ffff_ffffu64 ==> ((t << 8) | (b as u64)) <= 0xffff_ffff_ffffu64) && (t
            <= 0xffff_ffff_ffffu64 ==> ((t << 8) | (b as u64)) <= 0xff_ffff_ffff_ffffu64))
            by (bit_vector);
    }
}

/// A little-endian byte sequence is recovered, byte for byte, from its
/// value.
proof fn lemma_le_val_reconstruct(s: Seq<u8>)
    requires
        s.len() <= 8,
    ensures
        bytes_of(le_val(s), s.len() as int) =~= s,
    decreases s.len(),
{
    if s.len() > 0 {
        lemma_le_val_reconstruct(s.drop_first());
        lemma_le_val_bound(s.drop_first());
        let t = le_val(s.drop_first());
        let b = s.first();
        assert(low_bytes_mask(s.len() - 1) <= 0xff_ffff_ffff_ffffu64);
        assert(t <= 0xff_ffff_ffff_ffffu64 ==> ((((t << 8) | (b as u64)) as u8) == b && ((((t << 8)
            | (b as u64)) >> 8) == t) && (((t << 8) | (b as u64)) >> (0u64)) == ((t << 8) | (
        b as u64)))) by (bit_vector);
        assert forall|i: int| 0 <= i < s.len() implies bytes_of(le_val(s), s.len() as int)[i]
            == s[i] by {
            if i > 0 {
                lemma_shr8_compose(le_val(s), (8 * (i - 1)) as u64);
                assert((8 * i) as u64 == (((8 * (i - 1)) as u64) + 8) as u64);
                assert(bytes_of(t, s.len() - 1)[i - 1] == s.drop_first()[i - 1]);
            }
        }
    }
}

/// Decoding determines the bytes: a whole byte sequence that decodes
/// cleanly is exactly the canonical encoding of its value, so over the
/// accepted inputs the codec is a bijection.
pub proof fn lemma_decode_determines_bytes(s: Seq<u8>)
    requires
        1 <= s.len(),
        s.len() == decoded_len_spec(s[0]),
        decode_spec(s) is Ok,
    ensures
        s =~= enc_bytes(decode_spec(s)->Ok_0),
{
    let b0 = s[0];
    let l = decoded_len_spec(b0);
    let f = s.skip(1);
    let v = raw_val(b0, f);
    if l == 1 {
        assert(b0 < 0x80 ==> ((b0 as u64) <= 0x7f && ((b0 as u64) as u8) == b0)) by (bit_vector);
        assert(s =~= enc_bytes(v));
    } else {
        assert(f.take(l - 1) =~= f);
        lemma_le_val_bound(f);
        let w = le_val(f);
        if l <= 7 {
            if l == 2 {
                assert(w <= 0xffu64 && 0x80 <= b0 < 0xc0 ==> (((w << 6) | ((b0 & (0xffu8 >> 2)) as u64))
                    <= 0x3fff && ((((w << 6) | ((b0 & (0xffu8 >> 2)) as u64)) << 2) >> 8) == w && b0
                    == (!(0xffu8 >> 1)) | ((((w << 6) | ((b0 & (0xffu8 >> 2)) as u64)) as u8) & (
                0xffu8 >> 2)))) by (bit_vector);
            } else if l == 3 {
                assert(w <= 0xffffu64 && 0xc0 <= b0 < 0xe0 ==> (((w << 5) | ((b0 & (0xffu8 >> 3)) as u64))
                    <= 0x1f_ffff && ((((w << 5) | ((b0 & (0xffu8 >> 3)) as u64)) << 3) >> 8) == w
                    && b0 == (!(0xffu8 >> 2)) | ((((w << 5) | ((b0 & (0xffu8 >> 3)) as u64)) as u8)
                    & (0xffu8 >> 3)))) by (bit_vector);
            } else if l == 4 {
                assert(w <= 0xff_ffffu64 && 0xe0 <= b0 < 0xf0 ==> (((w << 4) | ((b0 & (0xffu8
                    >> 4)) as u64)) <= 0x0fff_ffff && ((((w << 4) | ((b0 & (0xffu8 >> 4)) as u64))
                    << 4) >> 8) == w && b0 == (!(0xffu8 >> 3)) | ((((w << 4) | ((b0 & (0xffu8
                    >> 4)) as u64)) as u8) & (0xffu8 >> 4)))) by (bit_vector);
            } else if l == 5 {
                assert(w <= 0xffff_ffffu64 && 0xf0 <= b0 < 0xf8 ==> (((w << 3) | ((b0 & (0xffu8
                    >> 5)) as u64)) <= 0x07_ffff_ffff && ((((w << 3) | ((b0 & (0xffu8
                    >> 5)) as u64)) << 5) >> 8) == w && b0 == (!(0xffu8 >> 4)) | ((((w << 3) | ((b0
                    & (0xffu8 >> 5)) as u64)) as u8) & (0xffu8 >> 5)))) by (bit_vector);
            } else if l == 6 {
                assert(w <= 0xff_ffff_ffffu64 && 0xf8 <= b0 < 0xfc ==> (((w << 2) | ((b0 & (0xffu8
                    >> 6)) as u64)) <= 0x03ff_ffff_ffff && ((((w << 2) | ((b0 & (0xffu8
                    >> 6)) as u64)) << 6) >> 8) == w && b0 == (!(0xffu8 >> 5)) | ((((w << 2) | ((b0
                    & (0xffu8 >> 6)) as u64)) as u8) & (0xffu8 >> 6)))) by (bit_vector);
            } else {
                assert(w <= 0xffff_ffff_ffffu64 && 0xfc <= b0 < 0xfe ==> (((w << 1) | ((b0 & (0xffu8
                    >> 7)) as u64)) <= 0x01_ffff_ffff_ffff && ((((w << 1) | ((b0 & (0xffu8
                    >> 7)) as u64)) << 7) >> 8) == w && b0 == (!(0xffu8 >> 6)) | ((((w << 1) | ((b0
                    & (0xffu8 >> 7)) as u64)) as u8) & (0xffu8 >> 7)))) by (bit_vector);
            }
        }
        assert(encoded_len_spec(v) == l);
        lemma_enc_follow_bytes(v);
        lemma_le_val_reconstruct(f);
        assert forall|i: int| 0 <= i < s.len() implies s[i] == enc_bytes(v)[i] by {
            if i > 0 {
                assert(enc_bytes(v).skip(1)[i - 1] == enc_bytes(v)[i]);
                assert(bytes_of(w, l - 1)[i - 1] == f[i - 1]);
            }
        }
        assert(s =~= enc_bytes(v));
    }
}

/// Decode equivalence, split form: handing the first byte and the rest
/// of the input apart gives the same result as decoding it whole.
pub proof fn lemma_decode_split_equivalence(s: Seq<u8>)
    requires
        1 <= s.len(),
    ensures
        decode2_spec(s[0], s.skip(1)) == decode_spec(s),
{
}

/// Decode equivalence, packed form: handing the follow bytes as a
/// zero-padded little-endian word gives the same result as decoding the
/// input whole, whenever the input is exactly as long as its first byte
/// announces.
pub proof fn lemma_decode_packed_equivalence(s: Seq<u8>)
    requires
        1 <= s.len(),
        s.len() == decoded_len_spec(s[0]),
    ensures
        decode3_spec(s[0], le_val(pad8(s.skip(1)))) == decode_spec(s),
{
    let b0 = s[0];
    let l = decoded_len_spec(b0);
    let f = s.skip(1);
    lemma_le_val_append_zeros(f, 8 - f.len());
    let w = le_val(pad8(f));
    if l == 1 {
    } else if l <= 7 {
        lemma_le_val_bound(f);
        assert(f.take(l - 1) =~= f);
        if l == 2 {
            assert(w <= 0xffu64 ==> (((w << 8) | ((b0 << 2) as u64)) >> 2) == ((w << 6) | ((b0 & (
            0xffu8 >> 2)) as u64))) by (bit_vector);
        } else if l == 3 {
            assert(w <= 0xffffu64 ==> (((w << 8) | ((b0 << 3) as u64)) >> 3) == ((w << 5) | ((b0
                & (0xffu8 >> 3)) as u64))) by (bit_vector);
        } else if l == 4 {
            assert(w <= 0xff_ffffu64 ==> (((w << 8) | ((b0 << 4) as u64)) >> 4) == ((w << 4) | ((b0
                & (0xffu8 >> 4)) as u64))) by (bit_vector);
        } else if l == 5 {
            assert(w <= 0xffff_ffffu64 ==> (((w << 8) | ((b0 << 5) as u64)) >> 5) == ((w << 3) | ((
            b0 & (0xffu8 >> 5)) as u64))) by (bit_vector);
        } else if l == 6 {
            assert(w <= 0xff_ffff_ffffu64 ==> (((w << 8) | ((b0 << 6) as u64)) >> 6) == ((w << 2)
                | ((b0 & (0xffu8 >> 6)) as u64))) by (bit_vector);
        } else {
            assert(w <= 0xffff_ffff_ffffu64 ==> (((w << 8) | ((b0 << 7) as u64)) >> 7) == ((w << 1)
                | ((b0 & (0xffu8 >> 7)) as u64))) by (bit_vector);
        }
    } else if l == 8 {
        assert(f.take(7) =~= f);
    } else {
        assert(f.take(8) =~= f);
    }
}

/// Truncation detection: every strict prefix of an exactly-sized
/// encoding fails to decode, with the truncation error.
pub proof fn lemma_truncated_prefix(s: Seq<u8>, k: int)
    requires
        1 <= s.len(),
        s.len() == decoded_len_spec(s[0]),
        0 <= k < s.len(),
    ensures
        decode_spec(s.take(k)) == Err::<u64, Error>(Error::Truncated),
{
    if k > 0 {
        assert(s.take(k)[0] == s[0]);
    }
}

/// Canonical length: an encoding is as long as its first byte announces,
/// and that length is the least one whose value range holds the value.
pub proof fn lemma_canonical_length(v: u64)
    ensures
        enc_bytes(v).len() == encoded_len_spec(v),
        decoded_len_spec(enc_bytes(v)[0]) == encoded_len_spec(v),
        v <= max_val_for_len(encoded_len_spec(v)),
        encoded_len_spec(v) == 1 || v >= min_val_for_len(encoded_len_spec(v)),
        forall|k: u8| 1 <= k < encoded_len_spec(v) ==> v > #[trigger] max_val_for_len(k),
{
    lemma_first_byte_announces_len(v);
}

/// Round trip: decoding the canonical encoding of any value yields the
/// value back, with no error.
pub proof fn lemma_round_trip(v: u64)
    ensures
        decode_spec(enc_bytes(v)) == Ok::<u64, Error>(v),
{
    let s = enc_bytes(v);
    let l = encoded_len_spec(v);
    lemma_first_byte_announces_len(v);
    lemma_raw_val_of_enc(v);
    assert(s.skip(1) =~= s.skip(1));
    assert(check_spec(l, v));
}

/// Round trip, signed form: decoding the encoding of any signed value,
/// zigzag transform included, yields the value back.
pub proof fn lemma_signed_round_trip(v: i64)
    ensures
        crate::signed::signed_decode_spec(enc_bytes(crate::signed::zigzag::zigzag_spec(v)))
            == Ok::<i64, Error>(v),
{
    let u = crate::signed::zigzag::zigzag_spec(v);
    lemma_round_trip(u);
    crate::signed::zigzag::lemma_zigzag_bijection(v, 0);
}

} // verus!
