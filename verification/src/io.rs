//! Streaming adapters: reading and writing encoded integers over any
//! byte source or sink.
//!
//! The two traits ask their implementors only for raw byte transport —
//! one byte, a short exact read, a whole write — and supply the encoding
//! and decoding on top of it as verified default methods.  Transport
//! failures travel as `std::io::Error`, a channel distinct from the
//! codec's own [`Error`](crate::Error) kinds; a codec failure found in
//! the incoming bytes is wrapped into that channel before it is
//! returned.

use vstd::prelude::*;

verus! {

use crate::model::decode2_spec;
use crate::signed::zigzag;
use crate::{decode2, decoded_len, encode, Error};

#[verifier::external_type_specification]
#[verifier::external_body]
pub struct ExIoError(std::io::Error);

#[verifier::external_type_specification]
#[verifier::external_body]
#[verifier::reject_recursive_types(T)]
pub struct ExCursor<T>(std::io::Cursor<T>);

/// Builds the transport-level error that carries a codec failure's
/// message.  Relies on `std::io::Error::new`, which wraps any message
/// into an error of the `Other` kind.
#[verifier::external_body]
fn io_error_from_message(msg: &'static str) -> (r: std::io::Error) {
    std::io::Error::new(std::io::ErrorKind::Other, msg)
}

/// Reading encoded integers from a byte source.
///
/// An implementor supplies the two raw reads; the decoding methods come
/// as verified defaults on top of them.
pub trait ReadVu64 {
    /// Reads exactly one byte from the source.
    fn read_one_byte(&mut self) -> (r: Result<u8, std::io::Error>);

    /// Fills `buf` — at most 8 bytes — with exactly `buf.len()` bytes
    /// from the source, leaving its length unchanged.
    fn read_exact_max8byte(&mut self, buf: &mut Vec<u8>) -> (r: Result<(), std::io::Error>)
        requires
            old(buf)@.len() <= 8,
        ensures
            r is Ok ==> final(buf)@.len() == old(buf)@.len(),
    ;

    /// Reads one encoded value and decodes it to a `u64`.
    ///
    /// Whatever bytes the source hands over, a value is returned only
    /// when they form one whole, canonical encoding of it.
    fn read_and_decode_vu64(&mut self) -> (r: Result<u64, std::io::Error>)
        ensures
            r matches Ok(v) ==> exists|b0: u8, follow: Seq<u8>|
                decode2_spec(b0, follow) == Ok::<u64, Error>(v),
    {
        let byte_1st = match self.read_one_byte() {
            Ok(b) => b,
            Err(e) => {
                return Err(e);
            },
        };
        let len = decoded_len(byte_1st);
        let mut buf: Vec<u8> = Vec::new();
        if len > 1 {
            let follow_len = len - 1;
            let mut k: u8 = 0;
            while k < follow_len
                invariant
                    k <= follow_len <= 8,
                    buf@.len() == k as int,
                decreases follow_len - k,
            {
                buf.push(0u8);
                k = k + 1;
            }
            match self.read_exact_max8byte(&mut buf) {
                Ok(u) => u,
                Err(e) => {
                    return Err(e);
                },
            };
        }
        match decode2(byte_1st, buf.as_slice()) {
            Ok(v) => {
                proof {
                    let b0 = byte_1st;
                    let follow = buf@;
                    assert(decode2_spec(b0, follow) == Ok::<u64, Error>(v));
                }
                Ok(v)
            },
            Err(e) => Err(io_error_from_message(e.message())),
        }
    }

    /// Reads one encoded value and decodes it to an `i64`, undoing the
    /// zigzag transform.
    fn read_and_decode_vi64(&mut self) -> (r: Result<i64, std::io::Error>)
        ensures
            r matches Ok(v) ==> exists|b0: u8, follow: Seq<u8>|
                #[trigger] decode2_spec(b0, follow) matches Ok(u) && v == zigzag::unzigzag_spec(
                    u,
                ),
    {
        match self.read_and_decode_vu64() {
            Ok(u) => Ok(zigzag::decode(u)),
            Err(e) => Err(e),
        }
    }
}

/// Writing encoded integers to a byte sink.
///
/// An implementor supplies the one raw write; the encoding methods come
/// as verified defaults on top of it.
pub trait WriteVu64 {
    /// Writes all of `buf` to the sink, or fails.
    fn write_all_bytes(&mut self, buf: &[u8]) -> (r: Result<(), std::io::Error>);

    /// Encodes `value` and writes its bytes to the sink.
    fn encode_and_write_vu64(&mut self, value: u64) -> (r: Result<(), std::io::Error>) {
        let enc = encode(value);
        self.write_all_bytes(enc.as_ref())
    }

    /// Zigzag-transforms `value`, encodes it, and writes the bytes.
    fn encode_and_write_vi64(&mut self, value: i64) -> (r: Result<(), std::io::Error>) {
        self.encode_and_write_vu64(zigzag::encode(value))
    }
}

/// Relies on `std::io::Read::read_exact` for `Cursor<Vec<u8>>`: it
/// yields the next byte and advances, or fails without a byte.
#[verifier::external_body]
fn cursor_read_one_byte(c: &mut std::io::Cursor<Vec<u8>>) -> (r: Result<u8, std::io::Error>) {
    let mut buf = [0u8; 1];
    match std::io::Read::read_exact(c, &mut buf) {
        Ok(()) => Ok(buf[0]),
        Err(e) => Err(e),
    }
}

/// Relies on `std::io::Read::read_exact` for `Cursor<Vec<u8>>`: it
/// fills the whole buffer and advances, or fails; the buffer is handed
/// over as a slice, so its length cannot change.
#[verifier::external_body]
fn cursor_read_exact(c: &mut std::io::Cursor<Vec<u8>>, buf: &mut Vec<u8>) -> (r: Result<
    (),
    std::io::Error,
>)
    ensures
        r is Ok ==> final(buf)@.len() == old(buf)@.len(),
{
    std::io::Read::read_exact(c, buf.as_mut_slice())
}

/// Relies on `std::io::Write::write_all` for `Cursor<Vec<u8>>`: it
/// writes the whole buffer at the cursor's position, or fails.
#[verifier::external_body]
fn cursor_write_all(c: &mut std::io::Cursor<Vec<u8>>, buf: &[u8]) -> (r: Result<
    (),
    std::io::Error,
>) {
    std::io::Write::write_all(c, buf)
}

impl ReadVu64 for std::io::Cursor<Vec<u8>> {
    fn read_one_byte(&mut self) -> (r: Result<u8, std::io::Error>) {
        cursor_read_one_byte(self)
    }

    fn read_exact_max8byte(&mut self, buf: &mut Vec<u8>) -> (r: Result<(), std::io::Error>) {
        cursor_read_exact(self, buf)
    }
}

impl WriteVu64 for std::io::Cursor<Vec<u8>> {
    fn write_all_bytes(&mut self, buf: &[u8]) -> (r: Result<(), std::io::Error>) {
        cursor_write_all(self, buf)
    }
}

} // verus!
