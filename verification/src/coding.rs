//! Shared decoding outcomes and the length-prefixed byte-string codec.
//!
//! A byte string is framed as `varint length || bytes`. Decoders never fail
//! on a short buffer: they report `More(n)` so that a network reader can
//! fetch roughly `n` further bytes and retry.

use vstd::prelude::*;
use crate::varint::{VarInt, BoundsExceeded, parse_varint, spec_encode_varint};

verus! {

/// Why a decode did not produce a value.
#[derive(Debug, Copy, Clone, PartialEq, Eq, Structural)]
pub enum DecodeError {
    /// The buffer is short by about this many bytes.
    More(u64),
    /// A frame began with an unknown type code.
    InvalidType(u64),
    /// A field held a value outside its legal range.
    InvalidValue,
}

/// The outcome of parsing a prefix of a byte sequence: the parsed value with
/// the number of bytes consumed, a request for more input, or a failure.
pub enum SpecParse<T> {
    Val(T, nat),
    More(nat),
    Fail,
}

/// The wire form of a byte string: minimal varint length, then the bytes.
pub open spec fn spec_encode_bytes(b: Seq<u8>) -> Seq<u8> {
    spec_encode_varint(b.len()) + b
}

/// Parse a length-prefixed byte string from the front of `s`.
pub open spec fn parse_bytes(s: Seq<u8>) -> SpecParse<Seq<u8>> {
    match parse_varint(s) {
        SpecParse::Val(len, n) => if s.len() - n < len {
            SpecParse::More((len - (s.len() - n)) as nat)
        } else {
            SpecParse::Val(s.subrange(n as int, n as int + len), n + len)
        },
        SpecParse::More(n) => SpecParse::More(n),
        SpecParse::Fail => SpecParse::Fail,
    }
}

/// Append the wire form of `b` to `buf`. Rejects strings of `2^62` bytes or
/// more, which no real buffer reaches.
pub fn encode_bytes(buf: &mut Vec<u8>, b: &Vec<u8>) -> (r: Result<(), BoundsExceeded>)
    ensures
        r is Ok ==> final(buf)@ == old(buf)@ + spec_encode_bytes(b@)
            && b@.len() < 0x4000_0000_0000_0000,
        r is Err ==> final(buf)@ == old(buf)@ && b@.len() >= 0x4000_0000_0000_0000,
{
    let len = VarInt(b.len() as u64);
    len.encode(buf)?;
    let mut i: usize = 0;
    while i < b.len()
        invariant
            i <= b.len(),
            buf@ == old(buf)@ + spec_encode_varint(b@.len()) + b@.take(i as int),
        decreases b.len() - i,
    {
        buf.push(b[i]);
        i = i + 1;
        assert(buf@ =~= old(buf)@ + spec_encode_varint(b@.len()) + b@.take(i as int));
    }
    assert(b@.take(b@.len() as int) =~= b@);
    Ok(())
}

/// Decode a length-prefixed byte string from `buf` at `pos`.
pub fn decode_bytes(buf: &Vec<u8>, pos: usize) -> (r: Result<(Vec<u8>, usize), DecodeError>)
    requires
        pos <= buf.len(),
    ensures
        match r {
            Ok((b, end)) => parse_bytes(buf@.skip(pos as int))
                == SpecParse::Val(b@, (end - pos) as nat)
                && pos <= end <= buf.len(),
            Err(e) => match e {
                DecodeError::More(n) => n > 0
                    && parse_bytes(buf@.skip(pos as int)) == SpecParse::<Seq<u8>>::More(n as nat),
                _ => false,
            },
        },
{
    let s = Ghost(buf@.skip(pos as int));
    let (len, mid) = VarInt::decode(buf, pos)?;
    let avail = buf.len() - mid;
    if (avail as u64) < len.0 {
        assert(len.0 - avail >= 1);
        return Err(DecodeError::More(len.0 - avail as u64));
    }
    let n = len.0 as usize;
    let mut b: Vec<u8> = Vec::new();
    let mut i: usize = 0;
    while i < n
        invariant
            i <= n,
            mid + n <= buf.len(),
            b@ == buf@.subrange(mid as int, mid as int + i),
        decreases n - i,
    {
        b.push(buf[mid + i]);
        i = i + 1;
        assert(b@ =~= buf@.subrange(mid as int, mid as int + i));
    }
    assert(s@.subrange((mid - pos) as int, (mid - pos) as int + n)
        =~= buf@.subrange(mid as int, mid as int + n));
    Ok((b, mid + n))
}

/// A byte string's encoding round-trips, whatever bytes follow it.
pub proof fn lemma_parse_encode_bytes(b: Seq<u8>, rest: Seq<u8>)
    requires
        b.len() < 0x4000_0000_0000_0000,
    ensures
        parse_bytes(spec_encode_bytes(b) + rest)
            == SpecParse::Val(b, spec_encode_bytes(b).len()),
{
    crate::varint::lemma_parse_encode_varint(b.len(), b + rest);
    let s = spec_encode_bytes(b) + rest;
    let hdr = spec_encode_varint(b.len());
    assert(s =~= hdr + (b + rest));
    let n = hdr.len();
    assert(s.subrange(n as int, n as int + b.len()) =~= b);
}

} // verus!
