//! QUIC-style variable-length integers.
//!
//! The two high bits of the first byte select a 1/2/4/8-byte big-endian
//! encoding; the value range is `0 .. 2^62`. Encoding always uses the minimal
//! length for the value; decoding accepts any of the four lengths.

use vstd::prelude::*;
use crate::coding::{DecodeError, SpecParse};

verus! {

/// The largest value a varint can carry, `2^62 - 1`.
pub const MAX_VALUE: u64 = 0x3fff_ffff_ffff_ffff;

/// Error returned when a value of `2^62` or more is encoded.
#[derive(Debug, Copy, Clone, PartialEq, Eq, Structural)]
pub struct BoundsExceeded;

/// An integer less than `2^62`, suitable for QUIC variable-length encoding.
///
/// The bound is not carried by the type; operations that need it state it.
#[derive(Debug, Default, Copy, Clone, PartialEq, Eq, Structural)]
pub struct VarInt(pub u64);

/// `256^n`.
pub open spec fn pow256(n: nat) -> nat
    decreases n,
{
    if n == 0 {
        1
    } else {
        256 * pow256((n - 1) as nat)
    }
}

/// The `n`-byte big-endian encoding of `v mod 256^n`.
pub open spec fn be_bytes(v: nat, n: nat) -> Seq<u8>
    decreases n,
{
    if n == 0 {
        Seq::empty()
    } else {
        be_bytes(v / 256, (n - 1) as nat).push((v % 256) as u8)
    }
}

/// The value of a big-endian byte string.
pub open spec fn be_val(s: Seq<u8>) -> nat
    decreases s.len(),
{
    if s.len() == 0 {
        0
    } else {
        (256 * be_val(s.drop_last()) + s.last()) as nat
    }
}

/// The encoded length chosen for a value: the minimal of the four.
pub open spec fn spec_size(v: nat) -> nat {
    if v < 64 {
        1
    } else if v < 16384 {
        2
    } else if v < 1073741824 {
        4
    } else {
        8
    }
}

/// How many values an `n`-byte encoding carries: `256^n / 4`, for the four
/// lengths 1, 2, 4 and 8.
pub open spec fn tag_mask(n: nat) -> nat {
    if n == 1 {
        64
    } else if n == 2 {
        16384
    } else if n == 4 {
        1073741824
    } else {
        4611686018427387904
    }
}

/// The two top bits that mark an `n`-byte encoding.
pub open spec fn tag_of_len(n: nat) -> nat {
    if n == 1 {
        0
    } else if n == 2 {
        1
    } else if n == 4 {
        2
    } else {
        3
    }
}

/// The minimal varint encoding of `v`, defined for `v < 2^62`.
#[verifier::opaque]
pub open spec fn spec_encode_varint(v: nat) -> Seq<u8> {
    let n = spec_size(v);
    be_bytes(v + tag_of_len(n) * tag_mask(n), n)
}

/// The length selected by a first byte's two top bits.
pub open spec fn spec_len_of_tag(tag: nat) -> nat {
    if tag == 0 {
        1
    } else if tag == 1 {
        2
    } else if tag == 2 {
        4
    } else {
        8
    }
}

/// Parse a varint from the front of `s`: the value and the bytes consumed,
/// or how many more bytes are needed.
pub open spec fn parse_varint(s: Seq<u8>) -> SpecParse<nat> {
    if s.len() == 0 {
        SpecParse::More(1)
    } else {
        let n = spec_len_of_tag(s[0] as nat / 64);
        if s.len() < n {
            SpecParse::More((n - s.len()) as nat)
        } else {
            SpecParse::Val(be_val(s.take(n as int)) % tag_mask(n), n)
        }
    }
}

pub proof fn lemma_be_bytes_len(v: nat, n: nat)
    ensures
        be_bytes(v, n).len() == n,
    decreases n,
{
    if n > 0 {
        lemma_be_bytes_len(v / 256, (n - 1) as nat);
    }
}

pub proof fn lemma_be_val_bytes(v: nat, n: nat)
    requires
        v < pow256(n),
    ensures
        be_val(be_bytes(v, n)) == v,
    decreases n,
{
    if n > 0 {
        lemma_be_bytes_len(v / 256, (n - 1) as nat);
        assert(be_bytes(v, n).drop_last() =~= be_bytes(v / 256, (n - 1) as nat));
        assert(v / 256 < pow256((n - 1) as nat)) by (nonlinear_arith)
            requires
                v < 256 * pow256((n - 1) as nat),
        ;
        lemma_be_val_bytes(v / 256, (n - 1) as nat);
        assert(v == 256 * (v / 256) + v % 256) by (nonlinear_arith);
    }
}

pub proof fn lemma_be_val_bound(s: Seq<u8>)
    ensures
        be_val(s) < pow256(s.len()),
    decreases s.len(),
{
    if s.len() > 0 {
        lemma_be_val_bound(s.drop_last());
        assert(256 * be_val(s.drop_last()) + s.last() < 256 * pow256((s.len() - 1) as nat))
            by (nonlinear_arith)
            requires
                be_val(s.drop_last()) < pow256((s.len() - 1) as nat),
                s.last() < 256,
        ;
    }
}

/// The first byte of a big-endian encoding holds the highest byte.
pub proof fn lemma_be_bytes_first(v: nat, n: nat)
    requires
        n > 0,
        v < pow256(n),
    ensures
        be_bytes(v, n)[0] == v / pow256((n - 1) as nat),
    decreases n,
{
    lemma_be_bytes_len(v / 256, (n - 1) as nat);
    if n == 1 {
        assert(v % 256 == v);
    } else {
        assert(v / 256 < pow256((n - 1) as nat)) by (nonlinear_arith)
            requires
                v < 256 * pow256((n - 1) as nat),
        ;
        lemma_be_bytes_first(v / 256, (n - 1) as nat);
        assert(be_bytes(v, n)[0] == be_bytes(v / 256, (n - 1) as nat)[0]);
        assert(v / 256 / pow256((n - 2) as nat) == v / (256 * pow256((n - 2) as nat)))
            by (nonlinear_arith)
            requires
                pow256((n - 2) as nat) > 0,
        ;
        assert(pow256((n - 1) as nat) == 256 * pow256((n - 2) as nat));
    }
}

pub proof fn lemma_pow256_pos(n: nat)
    ensures
        pow256(n) >= 1,
    decreases n,
{
    if n > 0 {
        lemma_pow256_pos((n - 1) as nat);
    }
}

/// Any well-formed encoding decodes to its embedded value, whatever bytes
/// follow it: `n` is one of the four lengths, `tag` the matching two top
/// bits, and `v` fits in the `n`-byte payload.
pub proof fn lemma_parse_wellformed(v: nat, tag: nat, rest: Seq<u8>)
    requires
        tag < 4,
        v < tag_mask(spec_len_of_tag(tag)),
    ensures
        ({
            let n = spec_len_of_tag(tag);
            parse_varint(be_bytes(v + tag * tag_mask(n), n) + rest) == SpecParse::Val(v, n)
        }),
{
    let n = spec_len_of_tag(tag);
    let m = tag_mask(n);
    let w = v + tag * m;
    let p = pow256((n - 1) as nat);
    assert(pow256(0) == 1 && pow256(1) == 256 && pow256(2) == 65536 && pow256(3) == 16777216
        && pow256(4) == 4294967296 && pow256(7) == 72057594037927936
        && pow256(8) == 18446744073709551616) by {
        reveal_with_fuel(pow256, 9);
    }
    assert(4 * m == pow256(n));
    assert(m == 64 * p);
    assert(w < pow256(n)) by (nonlinear_arith)
        requires
            w == v + tag * m,
            v < m,
            tag < 4,
            4 * m == pow256(n),
    ;
    let enc = be_bytes(w, n);
    lemma_be_bytes_len(w, n);
    let s = enc + rest;
    assert(s.len() >= n);
    // The first byte carries the tag in its two top bits.
    lemma_be_bytes_first(w, n);
    assert(s[0] == enc[0]);
    assert(tag * m == (tag * 64) * p) by (nonlinear_arith)
        requires
            m == 64 * p,
    ;
    vstd::arithmetic::div_mod::lemma_hoist_over_denominator(v as int, (tag * 64) as int, p);
    assert(w / p == v / p + tag * 64);
    vstd::arithmetic::div_mod::lemma_multiply_divide_lt(v as int, p as int, 64);
    assert(v / p < 64);
    vstd::arithmetic::div_mod::lemma_hoist_over_denominator((v / p) as int, tag as int, 64);
    vstd::arithmetic::div_mod::lemma_basic_div((v / p) as int, 64);
    assert(s[0] as nat / 64 == tag);
    assert(spec_len_of_tag(tag) == n);
    assert(s.take(n as int) =~= enc);
    lemma_be_val_bytes(w, n);
    vstd::arithmetic::div_mod::lemma_mod_multiples_vanish(tag as int, v as int, m as int);
    assert((m * tag + v) % m == v % m);
    assert(m * tag == tag * m) by (nonlinear_arith);
    vstd::arithmetic::div_mod::lemma_small_mod(v, m);
    assert(w % m == v);
}

/// The minimal encoding of any value below `2^62` round-trips, whatever
/// bytes follow it.
pub proof fn lemma_parse_encode_varint(v: nat, rest: Seq<u8>)
    requires
        v < 0x4000_0000_0000_0000,
    ensures
        parse_varint(spec_encode_varint(v) + rest) == SpecParse::Val(v, spec_size(v)),
        spec_encode_varint(v).len() == spec_size(v),
{
    reveal(spec_encode_varint);
    assert(pow256(1) == 256 && pow256(2) == 65536 && pow256(4) == 4294967296
        && pow256(8) == 18446744073709551616) by {
        reveal_with_fuel(pow256, 9);
    }
    let n = spec_size(v);
    let tag = tag_of_len(n);
    assert(spec_len_of_tag(tag) == n);
    assert(v < tag_mask(n));
    lemma_parse_wellformed(v, tag, rest);
    lemma_be_bytes_len(v + tag * tag_mask(n), n);
}

/// Minimal representation: every length whose payload can carry `v` is at
/// least the one `spec_encode_varint` chooses, so the encoder's choice is
/// the shortest well-formed encoding; decoding accepts any of them.
pub proof fn lemma_encode_minimal(v: nat, tag: nat)
    requires
        tag < 4,
        v < tag_mask(spec_len_of_tag(tag)),
    ensures
        spec_len_of_tag(tag) >= spec_size(v),
{
}

impl VarInt {
    /// Construct a varint from a 32-bit value, which always fits.
    pub fn from_u32(x: u32) -> (r: Self)
        ensures
            r.0 == x,
    {
        Self(x as u64)
    }

    /// Succeeds iff `x < 2^62`.
    pub fn from_u64(x: u64) -> (r: Result<Self, BoundsExceeded>)
        ensures
            x < 0x4000_0000_0000_0000 ==> r == Ok::<Self, BoundsExceeded>(Self(x)),
            x >= 0x4000_0000_0000_0000 ==> r == Err::<Self, BoundsExceeded>(BoundsExceeded),
    {
        if x <= MAX_VALUE {
            Ok(Self(x))
        } else {
            Err(BoundsExceeded)
        }
    }

    /// The inner value.
    pub fn into_inner(self) -> (r: u64)
        ensures
            r == self.0,
    {
        self.0
    }

    /// The number of bytes needed to encode this value: the minimal of the
    /// four lengths.
    pub fn size(&self) -> (n: usize)
        requires
            self.0 < 0x4000_0000_0000_0000,
        ensures
            n == spec_size(self.0 as nat),
    {
        let x = self.0;
        if x < 64 {
            1
        } else if x < 16384 {
            2
        } else if x < 1073741824 {
            4
        } else {
            8
        }
    }

    /// Append the minimal varint encoding of `self` to `buf`.
    /// Rejects values of `2^62` or more, leaving `buf` unchanged.
    pub fn encode(&self, buf: &mut Vec<u8>) -> (r: Result<(), BoundsExceeded>)
        ensures
            self.0 < 0x4000_0000_0000_0000 ==> r == Ok::<(), BoundsExceeded>(())
                && final(buf)@ == old(buf)@ + spec_encode_varint(self.0 as nat),
            self.0 >= 0x4000_0000_0000_0000 ==> r == Err::<(), BoundsExceeded>(BoundsExceeded)
                && final(buf)@ == old(buf)@,
    {
        proof {
            reveal(spec_encode_varint);
        }
        let x = self.0;
        if x < 64 {
            push_be(buf, x, 1);
            Ok(())
        } else if x < 16384 {
            push_be(buf, x + 16384, 2);
            Ok(())
        } else if x < 1073741824 {
            assert(tag_mask(4) == 1073741824) by {
        reveal_with_fuel(pow256, 9);
    }
            push_be(buf, x + 2 * 1073741824, 4);
            Ok(())
        } else if x <= MAX_VALUE {
            assert(tag_mask(8) == 0x4000_0000_0000_0000) by {
        reveal_with_fuel(pow256, 9);
    }
            push_be(buf, x + 3 * 0x4000_0000_0000_0000, 8);
            Ok(())
        } else {
            Err(BoundsExceeded)
        }
    }

    /// Decode a varint from `buf` at `pos`, returning the value and the
    /// position just past it, or `More(n)` when `n` more bytes are needed.
    pub fn decode(buf: &Vec<u8>, pos: usize) -> (r: Result<(Self, usize), DecodeError>)
        requires
            pos <= buf.len(),
        ensures
            match r {
                Ok((v, end)) => parse_varint(buf@.skip(pos as int))
                    == SpecParse::Val(v.0 as nat, (end - pos) as nat)
                    && pos < end <= buf.len()
                    && v.0 < 0x4000_0000_0000_0000,
                Err(e) => match e {
                    DecodeError::More(n) => n > 0
                        && parse_varint(buf@.skip(pos as int)) == SpecParse::<nat>::More(n as nat),
                    _ => false,
                },
            },
    {
        let s = Ghost(buf@.skip(pos as int));
        if pos >= buf.len() {
            return Err(DecodeError::More(1));
        }
        let tag = buf[pos] / 64;
        let n: usize = if tag == 0 {
            1
        } else if tag == 1 {
            2
        } else if tag == 2 {
            4
        } else {
            8
        };
        assert(s@[0] == buf@[pos as int]);
        assert(spec_len_of_tag(s@[0] as nat / 64) == n);
        if n > buf.len() - pos {
            return Err(DecodeError::More((n - (buf.len() - pos)) as u64));
        }
        let w = read_be(buf, pos, n);
        assert(s@.take(n as int) =~= buf@.subrange(pos as int, pos as int + n));
        let mask: u64 = if tag == 0 {
            64
        } else if tag == 1 {
            16384
        } else if tag == 2 {
            1073741824
        } else {
            0x4000_0000_0000_0000
        };
        assert(pow256(1) == 256 && pow256(2) == 65536 && pow256(4) == 4294967296
            && pow256(8) == 18446744073709551616) by {
        reveal_with_fuel(pow256, 9);
    }
        assert(mask as nat == tag_mask(n as nat));
        let v = w % mask;
        Ok((Self(v), pos + n))
    }
}

/// Append the `n`-byte big-endian encoding of `x` to `buf`.
fn push_be(buf: &mut Vec<u8>, x: u64, n: usize)
    requires
        n <= 8,
    ensures
        final(buf)@ == old(buf)@ + be_bytes(x as nat, n as nat),
    decreases n,
{
    if n == 0 {
        assert(buf@ =~= buf@ + be_bytes(x as nat, 0));
    } else {
        push_be(buf, x / 256, n - 1);
        buf.push((x % 256) as u8);
        assert(buf@ =~= old(buf)@ + be_bytes(x as nat, n as nat));
    }
}

/// Read `n` bytes at `pos` as a big-endian value.
fn read_be(buf: &Vec<u8>, pos: usize, n: usize) -> (r: u64)
    requires
        n <= 8,
        pos + n <= buf.len(),
    ensures
        r == be_val(buf@.subrange(pos as int, pos as int + n)),
    decreases n,
{
    if n == 0 {
        assert(buf@.subrange(pos as int, pos as int) =~= Seq::<u8>::empty());
        0
    } else {
        let hi = read_be(buf, pos, n - 1);
        let s = Ghost(buf@.subrange(pos as int, pos as int + n));
        assert(s@.drop_last() =~= buf@.subrange(pos as int, pos as int + n - 1));
        proof {
            lemma_be_val_bound(s@.drop_last());
            lemma_pow256_le8(s@.drop_last().len());
        }
        assert(s@.last() == buf@[pos + n - 1]);
        256 * hi + (buf[pos + n - 1] as u64)
    }
}

/// `256^n` for `n < 8` fits comfortably under `2^56`.
proof fn lemma_pow256_le8(n: nat)
    requires
        n < 8,
    ensures
        pow256(n) <= 72057594037927936,
    decreases n,
{
    assert(pow256(0) == 1 && pow256(1) == 256 && pow256(2) == 65536 && pow256(3) == 16777216
        && pow256(4) == 4294967296 && pow256(5) == 1099511627776
        && pow256(6) == 281474976710656 && pow256(7) == 72057594037927936) by {
        reveal_with_fuel(pow256, 9);
    }
}

} // verus!
