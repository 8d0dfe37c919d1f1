//! Control messages and their wire codec.
//!
//! Each message is framed as `varint type || body`; bodies are built from
//! varints and length-prefixed byte strings. Parsing reports `More(n)` on a
//! short buffer, so a network reader can fetch exactly what is missing.

use vstd::prelude::*;
use crate::coding::{DecodeError, SpecParse, decode_bytes, encode_bytes, parse_bytes,
    spec_encode_bytes};
use crate::setup::Role;
use crate::varint::{VarInt, BoundsExceeded, parse_varint, spec_encode_varint};

verus! {

/// All varints carry values below `2^62`.
pub const VARINT_BOUND: u64 = 0x4000_0000_0000_0000;

/// Unknown parameters carried by setup, announce and subscribe messages:
/// id/value pairs, in order.
#[derive(Clone, Debug, PartialEq)]
pub struct Params(pub Vec<(u64, Vec<u8>)>);

impl View for Params {
    type V = Seq<(u64, Seq<u8>)>;

    open spec fn view(&self) -> Seq<(u64, Seq<u8>)> {
        self.0.deep_view()
    }
}

/// A parameter list is encodable when every id and length fits in a varint.
pub open spec fn params_wf(ps: Seq<(u64, Seq<u8>)>) -> bool {
    &&& ps.len() < 0x4000_0000_0000_0000
    &&& forall|i: int| 0 <= i < ps.len() ==> (#[trigger] ps[i]).0 < 0x4000_0000_0000_0000
        && ps[i].1.len() < 0x4000_0000_0000_0000
}

/// Whether some parameter carries the given id.
pub open spec fn spec_params_has_key(ps: Seq<(u64, Seq<u8>)>, key: u64) -> bool {
    exists|i: int| 0 <= i < ps.len() && (#[trigger] ps[i]).0 == key
}

/// True iff some parameter carries the given id.
fn params_has_key(ps: &Params, key: u64) -> (r: bool)
    ensures
        r == spec_params_has_key(ps@, key),
{
    let mut i: usize = 0;
    while i < ps.0.len()
        invariant
            i <= ps.0.len(),
            ps@.len() == ps.0.len(),
            forall|j: int| 0 <= j < i ==> (#[trigger] ps@[j]).0 != key,
        decreases ps.0.len() - i,
    {
        proof {
            assert(ps@[i as int].0 == ps.0@[i as int].0);
        }
        if ps.0[i].0 == key {
            return true;
        }
        i = i + 1;
    }
    false
}

/// The wire form of the parameters after the count: id/value pairs in order.
pub open spec fn spec_encode_params_items(ps: Seq<(u64, Seq<u8>)>) -> Seq<u8>
    decreases ps.len(),
{
    if ps.len() == 0 {
        Seq::empty()
    } else {
        spec_encode_varint(ps[0].0 as nat) + spec_encode_bytes(ps[0].1)
            + spec_encode_params_items(ps.skip(1))
    }
}

/// The wire form of a parameter list: a count, then the pairs.
pub open spec fn spec_encode_params(ps: Seq<(u64, Seq<u8>)>) -> Seq<u8> {
    spec_encode_varint(ps.len()) + spec_encode_params_items(ps)
}

/// Parse `count` id/value pairs from the front of `s`.
pub open spec fn parse_params_items(s: Seq<u8>, count: nat) -> SpecParse<Seq<(u64, Seq<u8>)>>
    decreases count,
{
    if count == 0 {
        SpecParse::Val(Seq::empty(), 0)
    } else {
        match parse_varint(s) {
            SpecParse::Val(id, n1) => match parse_bytes(s.skip(n1 as int)) {
                SpecParse::Val(b, n2) => match parse_params_items(
                    s.skip(n1 as int + n2 as int),
                    (count - 1) as nat,
                ) {
                    SpecParse::Val(t, n3) => SpecParse::Val(
                        seq![((id as u64), b)] + t,
                        n1 + n2 + n3,
                    ),
                    SpecParse::More(k) => SpecParse::More(k),
                    SpecParse::Fail => SpecParse::Fail,
                },
                SpecParse::More(k) => SpecParse::More(k),
                SpecParse::Fail => SpecParse::Fail,
            },
            SpecParse::More(k) => SpecParse::More(k),
            SpecParse::Fail => SpecParse::Fail,
        }
    }
}

/// Parse a count-prefixed parameter list from the front of `s`.
pub open spec fn parse_params(s: Seq<u8>) -> SpecParse<Seq<(u64, Seq<u8>)>> {
    match parse_varint(s) {
        SpecParse::Val(count, n0) => match parse_params_items(s.skip(n0 as int), count) {
            SpecParse::Val(ps, n1) => SpecParse::Val(ps, n0 + n1),
            SpecParse::More(k) => SpecParse::More(k),
            SpecParse::Fail => SpecParse::Fail,
        },
        SpecParse::More(k) => SpecParse::More(k),
        SpecParse::Fail => SpecParse::Fail,
    }
}

/// An encoded pair list parses back to itself, whatever follows it.
#[verifier::rlimit(100)]
#[verifier::spinoff_prover]
pub proof fn lemma_parse_encode_params_items(ps: Seq<(u64, Seq<u8>)>, rest: Seq<u8>)
    requires
        params_wf(ps),
    ensures
        parse_params_items(spec_encode_params_items(ps) + rest, ps.len())
            == SpecParse::Val(ps, spec_encode_params_items(ps).len()),
    decreases ps.len(),
{
    if ps.len() == 0 {
        assert(spec_encode_params_items(ps) + rest =~= rest);
        assert(ps =~= Seq::<(u64, Seq<u8>)>::empty());
    } else {
        let e1 = spec_encode_varint(ps[0].0 as nat);
        let e2 = spec_encode_bytes(ps[0].1);
        let et = spec_encode_params_items(ps.skip(1));
        let s = spec_encode_params_items(ps) + rest;
        assert(s =~= e1 + (e2 + (et + rest)));
        crate::varint::lemma_parse_encode_varint(ps[0].0 as nat, e2 + (et + rest));
        assert(s.skip(e1.len() as int) =~= e2 + (et + rest));
        crate::coding::lemma_parse_encode_bytes(ps[0].1, et + rest);
        assert(s.skip(e1.len() as int + e2.len() as int) =~= et + rest);
        assert(params_wf(ps.skip(1)));
        lemma_parse_encode_params_items(ps.skip(1), rest);
        assert(seq![((ps[0].0 as nat) as u64, ps[0].1)] + ps.skip(1) =~= ps);
    }
}

/// A count-prefixed parameter list round-trips, whatever follows it.
#[verifier::rlimit(100)]
#[verifier::spinoff_prover]
pub proof fn lemma_parse_encode_params(ps: Seq<(u64, Seq<u8>)>, rest: Seq<u8>)
    requires
        params_wf(ps),
    ensures
        parse_params(spec_encode_params(ps) + rest)
            == SpecParse::Val(ps, spec_encode_params(ps).len()),
{
    let e0 = spec_encode_varint(ps.len());
    let ei = spec_encode_params_items(ps);
    let s = spec_encode_params(ps) + rest;
    assert(s =~= e0 + (ei + rest));
    crate::varint::lemma_parse_encode_varint(ps.len(), ei + rest);
    assert(s.skip(e0.len() as int) =~= ei + rest);
    lemma_parse_encode_params_items(ps, rest);
}

/// Encoding one more pair appends its wire form.
proof fn lemma_params_items_snoc(ps: Seq<(u64, Seq<u8>)>, i: int)
    requires
        0 <= i < ps.len(),
    ensures
        spec_encode_params_items(ps.take(i + 1)) == spec_encode_params_items(ps.take(i))
            + spec_encode_varint(ps[i].0 as nat) + spec_encode_bytes(ps[i].1),
    decreases i,
{
    let e1 = spec_encode_varint(ps[i].0 as nat);
    let e2 = spec_encode_bytes(ps[i].1);
    if i == 0 {
        assert(ps.take(1)[0] == ps[0]);
        assert(ps.take(1).skip(1) =~= Seq::<(u64, Seq<u8>)>::empty());
        assert(ps.take(0) =~= Seq::<(u64, Seq<u8>)>::empty());
        assert(spec_encode_params_items(ps.take(1)) =~= spec_encode_params_items(ps.take(0))
            + e1 + e2);
    } else {
        lemma_params_items_snoc(ps.skip(1), i - 1);
        assert(ps.take(i + 1)[0] == ps[0]);
        assert(ps.take(i)[0] == ps[0]);
        assert(ps.take(i + 1).skip(1) =~= ps.skip(1).take(i));
        assert(ps.take(i).skip(1) =~= ps.skip(1).take(i - 1));
        assert(ps.skip(1)[i - 1] == ps[i]);
        assert(spec_encode_params_items(ps.take(i + 1)) =~= spec_encode_params_items(ps.take(i))
            + e1 + e2);
    }
}

impl Params {
    /// Append the wire form of the list to `buf`; fails exactly when a
    /// count, an id or a length is outside the varint range.
    pub fn encode(&self, buf: &mut Vec<u8>) -> (r: Result<(), BoundsExceeded>)
        ensures
            r is Ok ==> final(buf)@ == old(buf)@ + spec_encode_params(self@) && params_wf(self@),
            r is Err ==> !params_wf(self@),
    {
        if self.0.len() as u64 >= VARINT_BOUND {
            return Err(BoundsExceeded);
        }
        let count = VarInt(self.0.len() as u64);
        let ghost buf0 = buf@;
        if count.encode(buf).is_err() {
            return Err(BoundsExceeded);
        }
        let mut i: usize = 0;
        while i < self.0.len()
            invariant
                i <= self.0.len(),
                self@.len() == self.0.len(),
                self@.len() < 0x4000_0000_0000_0000,
                buf@ == buf0 + spec_encode_varint(self@.len())
                    + spec_encode_params_items(self@.take(i as int)),
                forall|j: int| 0 <= j < i ==> (#[trigger] self@[j]).0 < 0x4000_0000_0000_0000
                    && self@[j].1.len() < 0x4000_0000_0000_0000,
            decreases self.0.len() - i,
        {
            let pair = &self.0[i];
            proof {
                assert(self@[i as int].0 == self.0@[i as int].0);
                assert(self@[i as int].1 =~= self.0@[i as int].1@);
            }
            if VarInt(pair.0).encode(buf).is_err() {
                assert(!params_wf(self@));
                return Err(BoundsExceeded);
            }
            if encode_bytes(buf, &pair.1).is_err() {
                assert(!params_wf(self@));
                return Err(BoundsExceeded);
            }
            proof {
                assert(self@[i as int].0 < 0x4000_0000_0000_0000
                    && self@[i as int].1.len() < 0x4000_0000_0000_0000);
                lemma_params_items_snoc(self@, i as int);
                assert(buf@ =~= buf0 + spec_encode_varint(self@.len())
                    + spec_encode_params_items(self@.take(i + 1)));
            }
            i = i + 1;
        }
        proof {
            assert(self@.take(self@.len() as int) =~= self@);
        }
        Ok(())
    }

    /// Decode a count-prefixed parameter list from `buf` at `pos`.
    pub fn decode(buf: &Vec<u8>, pos: usize) -> (r: Result<(Params, usize), DecodeError>)
        requires
            pos <= buf.len(),
        ensures
            match r {
                Ok((ps, end)) => parse_params(buf@.skip(pos as int))
                    == SpecParse::Val(ps@, (end - pos) as nat)
                    && pos <= end <= buf.len(),
                Err(e) => match e {
                    DecodeError::More(n) => n > 0 && parse_params(buf@.skip(pos as int))
                        == SpecParse::<Seq<(u64, Seq<u8>)>>::More(n as nat),
                    _ => parse_params(buf@.skip(pos as int)) is Fail,
                },
            },
    {
        let (count, start) = VarInt::decode(buf, pos)?;
        let ghost s0 = buf@.skip(start as int);
        proof {
            assert(buf@.skip(pos as int).skip((start - pos) as int) =~= s0);
        }
        let mut acc: Vec<(u64, Vec<u8>)> = Vec::new();
        let mut cur: usize = start;
        let mut i: u64 = 0;
        proof {
            assert(acc.deep_view() =~= Seq::<(u64, Seq<u8>)>::empty());
        }
        while i < count.0
            invariant
                i <= count.0,
                pos <= start <= cur <= buf.len(),
                s0 == buf@.skip(start as int),
                parse_varint(buf@.skip(pos as int))
                    == SpecParse::<nat>::Val(count.0 as nat, (start - pos) as nat),
                buf@.skip(pos as int).skip((start - pos) as int) == s0,
                match parse_params_items(buf@.skip(cur as int), (count.0 - i) as nat) {
                    SpecParse::Val(t, n) => parse_params_items(s0, count.0 as nat)
                        == SpecParse::Val(acc.deep_view() + t, ((cur - start) + n) as nat),
                    SpecParse::More(k) => parse_params_items(s0, count.0 as nat)
                        == SpecParse::<Seq<(u64, Seq<u8>)>>::More(k),
                    SpecParse::Fail => parse_params_items(s0, count.0 as nat) is Fail,
                },
            decreases count.0 - i,
        {
            let ghost si = buf@.skip(cur as int);
            let (id, m1) = match VarInt::decode(buf, cur) {
                Ok(v) => v,
                Err(e) => {
                    return Err(e);
                },
            };
            proof {
                assert(si.skip((m1 - cur) as int) =~= buf@.skip(m1 as int));
            }
            let (value, m2) = match decode_bytes(buf, m1) {
                Ok(v) => v,
                Err(e) => {
                    return Err(e);
                },
            };
            proof {
                assert(si.skip((m1 - cur) as int + (m2 - m1) as int) =~= buf@.skip(m2 as int));
            }
            let ghost acc_old = acc.deep_view();
            acc.push((id.0, value));
            proof {
                assert(acc.deep_view() =~~= acc_old + seq![(id.0, value@)]);
                assert forall|t: Seq<(u64, Seq<u8>)>|
                    acc_old + (seq![(id.0, value@)] + t) =~= (acc_old + seq![(id.0, value@)])
                        + t by {};
            }
            cur = m2;
            i = i + 1;
        }
        proof {
            assert(parse_params_items(buf@.skip(cur as int), 0)
                == SpecParse::<Seq<(u64, Seq<u8>)>>::Val(Seq::empty(), 0));
            assert(acc.deep_view() + Seq::<(u64, Seq<u8>)>::empty() =~= acc.deep_view());
        }
        Ok((Params(acc), cur))
    }
}

/// A version list is encodable when the count and every entry fit.
pub open spec fn versions_wf(vs: Seq<u64>) -> bool {
    &&& vs.len() < 0x4000_0000_0000_0000
    &&& forall|i: int| 0 <= i < vs.len() ==> #[trigger] vs[i] < 0x4000_0000_0000_0000
}

/// The wire form of the versions after the count.
pub open spec fn spec_encode_versions_items(vs: Seq<u64>) -> Seq<u8>
    decreases vs.len(),
{
    if vs.len() == 0 {
        Seq::empty()
    } else {
        spec_encode_varint(vs[0] as nat) + spec_encode_versions_items(vs.skip(1))
    }
}

/// The wire form of a version list: a count, then the versions.
pub open spec fn spec_encode_versions(vs: Seq<u64>) -> Seq<u8> {
    spec_encode_varint(vs.len()) + spec_encode_versions_items(vs)
}

/// Parse `count` versions from the front of `s`.
pub open spec fn parse_versions_items(s: Seq<u8>, count: nat) -> SpecParse<Seq<u64>>
    decreases count,
{
    if count == 0 {
        SpecParse::Val(Seq::empty(), 0)
    } else {
        match parse_varint(s) {
            SpecParse::Val(v, n1) => match parse_versions_items(
                s.skip(n1 as int),
                (count - 1) as nat,
            ) {
                SpecParse::Val(t, n2) => SpecParse::Val(seq![(v as u64)] + t, n1 + n2),
                SpecParse::More(k) => SpecParse::More(k),
                SpecParse::Fail => SpecParse::Fail,
            },
            SpecParse::More(k) => SpecParse::More(k),
            SpecParse::Fail => SpecParse::Fail,
        }
    }
}

/// Parse a count-prefixed version list from the front of `s`.
pub open spec fn parse_versions(s: Seq<u8>) -> SpecParse<Seq<u64>> {
    match parse_varint(s) {
        SpecParse::Val(count, n0) => match parse_versions_items(s.skip(n0 as int), count) {
            SpecParse::Val(vs, n1) => SpecParse::Val(vs, n0 + n1),
            SpecParse::More(k) => SpecParse::More(k),
            SpecParse::Fail => SpecParse::Fail,
        },
        SpecParse::More(k) => SpecParse::More(k),
        SpecParse::Fail => SpecParse::Fail,
    }
}

/// An encoded version list parses back to itself, whatever follows it.
#[verifier::rlimit(100)]
#[verifier::spinoff_prover]
pub proof fn lemma_parse_encode_versions_items(vs: Seq<u64>, rest: Seq<u8>)
    requires
        versions_wf(vs),
    ensures
        parse_versions_items(spec_encode_versions_items(vs) + rest, vs.len())
            == SpecParse::Val(vs, spec_encode_versions_items(vs).len()),
    decreases vs.len(),
{
    if vs.len() == 0 {
        assert(spec_encode_versions_items(vs) + rest =~= rest);
        assert(vs =~= Seq::<u64>::empty());
    } else {
        let e1 = spec_encode_varint(vs[0] as nat);
        let et = spec_encode_versions_items(vs.skip(1));
        let s = spec_encode_versions_items(vs) + rest;
        assert(s =~= e1 + (et + rest));
        crate::varint::lemma_parse_encode_varint(vs[0] as nat, et + rest);
        assert(s.skip(e1.len() as int) =~= et + rest);
        assert(versions_wf(vs.skip(1)));
        lemma_parse_encode_versions_items(vs.skip(1), rest);
        assert(seq![vs[0]] + vs.skip(1) =~= vs);
    }
}

/// A count-prefixed version list round-trips, whatever follows it.
#[verifier::rlimit(100)]
#[verifier::spinoff_prover]
pub proof fn lemma_parse_encode_versions(vs: Seq<u64>, rest: Seq<u8>)
    requires
        versions_wf(vs),
    ensures
        parse_versions(spec_encode_versions(vs) + rest)
            == SpecParse::Val(vs, spec_encode_versions(vs).len()),
{
    let e0 = spec_encode_varint(vs.len());
    let ei = spec_encode_versions_items(vs);
    let s = spec_encode_versions(vs) + rest;
    assert(s =~= e0 + (ei + rest));
    crate::varint::lemma_parse_encode_varint(vs.len(), ei + rest);
    assert(s.skip(e0.len() as int) =~= ei + rest);
    lemma_parse_encode_versions_items(vs, rest);
}

/// Encoding one more version appends its wire form.
proof fn lemma_versions_items_snoc(vs: Seq<u64>, i: int)
    requires
        0 <= i < vs.len(),
    ensures
        spec_encode_versions_items(vs.take(i + 1)) == spec_encode_versions_items(vs.take(i))
            + spec_encode_varint(vs[i] as nat),
    decreases i,
{
    if i == 0 {
        assert(vs.take(1)[0] == vs[0]);
        assert(vs.take(1).skip(1) =~= Seq::<u64>::empty());
        assert(vs.take(0) =~= Seq::<u64>::empty());
        assert(spec_encode_versions_items(vs.take(1)) =~= spec_encode_versions_items(vs.take(0))
            + spec_encode_varint(vs[0] as nat));
    } else {
        lemma_versions_items_snoc(vs.skip(1), i - 1);
        assert(vs.take(i + 1)[0] == vs[0]);
        assert(vs.take(i)[0] == vs[0]);
        assert(vs.take(i + 1).skip(1) =~= vs.skip(1).take(i));
        assert(vs.take(i).skip(1) =~= vs.skip(1).take(i - 1));
        assert(vs.skip(1)[i - 1] == vs[i]);
        assert(spec_encode_versions_items(vs.take(i + 1))
            =~= spec_encode_versions_items(vs.take(i)) + spec_encode_varint(vs[i] as nat));
    }
}

/// Append the wire form of a version list to `buf`.
pub fn encode_versions(buf: &mut Vec<u8>, vs: &Vec<u64>) -> (r: Result<(), BoundsExceeded>)
    ensures
        r is Ok ==> final(buf)@ == old(buf)@ + spec_encode_versions(vs@) && versions_wf(vs@),
        r is Err ==> !versions_wf(vs@),
{
    if vs.len() as u64 >= VARINT_BOUND {
        return Err(BoundsExceeded);
    }
    let ghost buf0 = buf@;
    if VarInt(vs.len() as u64).encode(buf).is_err() {
        return Err(BoundsExceeded);
    }
    let mut i: usize = 0;
    while i < vs.len()
        invariant
            i <= vs.len(),
            vs@.len() < 0x4000_0000_0000_0000,
            buf@ == buf0 + spec_encode_varint(vs@.len())
                + spec_encode_versions_items(vs@.take(i as int)),
            forall|j: int| 0 <= j < i ==> #[trigger] vs@[j] < 0x4000_0000_0000_0000,
        decreases vs.len() - i,
    {
        if VarInt(vs[i]).encode(buf).is_err() {
            assert(!versions_wf(vs@));
            return Err(BoundsExceeded);
        }
        proof {
            lemma_versions_items_snoc(vs@, i as int);
            assert(buf@ =~= buf0 + spec_encode_varint(vs@.len())
                + spec_encode_versions_items(vs@.take(i + 1)));
        }
        i = i + 1;
    }
    proof {
        assert(vs@.take(vs@.len() as int) =~= vs@);
    }
    Ok(())
}

/// Decode a count-prefixed version list from `buf` at `pos`.
pub fn decode_versions(buf: &Vec<u8>, pos: usize) -> (r: Result<(Vec<u64>, usize), DecodeError>)
    requires
        pos <= buf.len(),
    ensures
        match r {
            Ok((vs, end)) => parse_versions(buf@.skip(pos as int))
                == SpecParse::Val(vs@, (end - pos) as nat)
                && pos <= end <= buf.len(),
            Err(e) => match e {
                DecodeError::More(n) => n > 0 && parse_versions(buf@.skip(pos as int))
                    == SpecParse::<Seq<u64>>::More(n as nat),
                _ => parse_versions(buf@.skip(pos as int)) is Fail,
            },
        },
{
    let (count, start) = VarInt::decode(buf, pos)?;
    let ghost s0 = buf@.skip(start as int);
    proof {
        assert(buf@.skip(pos as int).skip((start - pos) as int) =~= s0);
    }
    let mut acc: Vec<u64> = Vec::new();
    let mut cur: usize = start;
    let mut i: u64 = 0;
    proof {
        assert(acc@ =~= Seq::<u64>::empty());
    }
    while i < count.0
        invariant
            i <= count.0,
            pos <= start <= cur <= buf.len(),
            s0 == buf@.skip(start as int),
            parse_varint(buf@.skip(pos as int))
                == SpecParse::<nat>::Val(count.0 as nat, (start - pos) as nat),
            buf@.skip(pos as int).skip((start - pos) as int) == s0,
            match parse_versions_items(buf@.skip(cur as int), (count.0 - i) as nat) {
                SpecParse::Val(t, n) => parse_versions_items(s0, count.0 as nat)
                    == SpecParse::Val(acc@ + t, ((cur - start) + n) as nat),
                SpecParse::More(k) => parse_versions_items(s0, count.0 as nat)
                    == SpecParse::<Seq<u64>>::More(k),
                SpecParse::Fail => parse_versions_items(s0, count.0 as nat) is Fail,
            },
        decreases count.0 - i,
    {
        let ghost si = buf@.skip(cur as int);
        let (v, m1) = match VarInt::decode(buf, cur) {
            Ok(v) => v,
            Err(e) => {
                return Err(e);
            },
        };
        proof {
            assert(si.skip((m1 - cur) as int) =~= buf@.skip(m1 as int));
        }
        let ghost acc_old = acc@;
        acc.push(v.0);
        proof {
            assert(acc@ =~= acc_old + seq![v.0]);
            assert forall|t: Seq<u64>| acc_old + (seq![v.0] + t) =~= (acc_old + seq![v.0])
                + t by {};
        }
        cur = m1;
        i = i + 1;
    }
    proof {
        assert(acc@ + Seq::<u64>::empty() =~= acc@);
    }
    Ok((acc, cur))
}

/// The wire code of a role: publisher 1, subscriber 2, both 3.
pub open spec fn role_code(r: Role) -> nat {
    match r {
        Role::Publisher => 1,
        Role::Subscriber => 2,
        Role::Both => 3,
    }
}

/// The wire form of a role.
pub open spec fn spec_encode_role(r: Role) -> Seq<u8> {
    spec_encode_varint(role_code(r))
}

/// Parse a role from the front of `s`; codes other than 1..3 fail.
pub open spec fn parse_role(s: Seq<u8>) -> SpecParse<Role> {
    match parse_varint(s) {
        SpecParse::Val(c, n) => if c == 1 {
            SpecParse::Val(Role::Publisher, n)
        } else if c == 2 {
            SpecParse::Val(Role::Subscriber, n)
        } else if c == 3 {
            SpecParse::Val(Role::Both, n)
        } else {
            SpecParse::Fail
        },
        SpecParse::More(k) => SpecParse::More(k),
        SpecParse::Fail => SpecParse::Fail,
    }
}

/// An encoded role parses back to itself, whatever follows it.
#[verifier::rlimit(100)]
#[verifier::spinoff_prover]
pub proof fn lemma_parse_encode_role(r: Role, rest: Seq<u8>)
    ensures
        parse_role(spec_encode_role(r) + rest) == SpecParse::Val(r, spec_encode_role(r).len()),
{
    crate::varint::lemma_parse_encode_varint(role_code(r), rest);
}

/// Append the wire form of a role to `buf`.
pub fn encode_role(buf: &mut Vec<u8>, r: Role)
    ensures
        final(buf)@ == old(buf)@ + spec_encode_role(r),
{
    let code: u64 = match r {
        Role::Publisher => 1,
        Role::Subscriber => 2,
        Role::Both => 3,
    };
    let res = VarInt(code).encode(buf);
    assert(res is Ok);
}

/// Decode a role from `buf` at `pos`.
pub fn decode_role(buf: &Vec<u8>, pos: usize) -> (r: Result<(Role, usize), DecodeError>)
    requires
        pos <= buf.len(),
    ensures
        match r {
            Ok((role, end)) => parse_role(buf@.skip(pos as int))
                == SpecParse::Val(role, (end - pos) as nat)
                && pos <= end <= buf.len(),
            Err(e) => match e {
                DecodeError::More(n) => n > 0 && parse_role(buf@.skip(pos as int))
                    == SpecParse::<Role>::More(n as nat),
                _ => parse_role(buf@.skip(pos as int)) is Fail,
            },
        },
{
    let (c, end) = VarInt::decode(buf, pos)?;
    if c.0 == 1 {
        Ok((Role::Publisher, end))
    } else if c.0 == 2 {
        Ok((Role::Subscriber, end))
    } else if c.0 == 3 {
        Ok((Role::Both, end))
    } else {
        Err(DecodeError::InvalidValue)
    }
}

/// Whether an optional group/object pair fits in varints.
pub open spec fn pair_opt_wf(o: Option<(u64, u64)>) -> bool {
    match o {
        Option::None => true,
        Option::Some((g, ob)) => g < 0x4000_0000_0000_0000 && ob < 0x4000_0000_0000_0000,
    }
}

/// The wire form of an optional group/object pair: a presence flag, then the
/// two ids when present.
pub open spec fn spec_encode_pair_opt(o: Option<(u64, u64)>) -> Seq<u8> {
    match o {
        Option::None => spec_encode_varint(0),
        Option::Some((g, ob)) => spec_encode_varint(1) + spec_encode_varint(g as nat)
            + spec_encode_varint(ob as nat),
    }
}

/// Parse an optional group/object pair; flags other than 0 or 1 fail.
pub open spec fn parse_pair_opt(s: Seq<u8>) -> SpecParse<Option<(u64, u64)>> {
    match parse_varint(s) {
        SpecParse::Val(flag, n0) => if flag == 0 {
            SpecParse::Val(Option::None, n0)
        } else if flag == 1 {
            match parse_varint(s.skip(n0 as int)) {
                SpecParse::Val(g, n1) => match parse_varint(s.skip(n0 as int + n1 as int)) {
                    SpecParse::Val(ob, n2) => SpecParse::Val(
                        Option::Some(((g as u64), (ob as u64))),
                        n0 + n1 + n2,
                    ),
                    SpecParse::More(k) => SpecParse::More(k),
                    SpecParse::Fail => SpecParse::Fail,
                },
                SpecParse::More(k) => SpecParse::More(k),
                SpecParse::Fail => SpecParse::Fail,
            }
        } else {
            SpecParse::Fail
        },
        SpecParse::More(k) => SpecParse::More(k),
        SpecParse::Fail => SpecParse::Fail,
    }
}

/// An encoded optional pair parses back to itself, whatever follows it.
#[verifier::rlimit(100)]
#[verifier::spinoff_prover]
pub proof fn lemma_parse_encode_pair_opt(o: Option<(u64, u64)>, rest: Seq<u8>)
    requires
        pair_opt_wf(o),
    ensures
        parse_pair_opt(spec_encode_pair_opt(o) + rest)
            == SpecParse::Val(o, spec_encode_pair_opt(o).len()),
{
    match o {
        Option::None => {
            crate::varint::lemma_parse_encode_varint(0, rest);
        },
        Option::Some((g, ob)) => {
            let e0 = spec_encode_varint(1);
            let e1 = spec_encode_varint(g as nat);
            let e2 = spec_encode_varint(ob as nat);
            let s = spec_encode_pair_opt(o) + rest;
            assert(s =~= e0 + (e1 + (e2 + rest)));
            crate::varint::lemma_parse_encode_varint(1, e1 + (e2 + rest));
            assert(s.skip(e0.len() as int) =~= e1 + (e2 + rest));
            crate::varint::lemma_parse_encode_varint(g as nat, e2 + rest);
            assert(s.skip(e0.len() as int).skip(e1.len() as int) =~= e2 + rest);
            assert(s.skip(e0.len() as int + e1.len() as int) =~= e2 + rest);
            crate::varint::lemma_parse_encode_varint(ob as nat, rest);
        },
    }
}

/// Append the wire form of an optional pair to `buf`.
pub fn encode_pair_opt(buf: &mut Vec<u8>, o: &Option<(u64, u64)>) -> (r: Result<
    (),
    BoundsExceeded,
>)
    ensures
        r is Ok ==> final(buf)@ == old(buf)@ + spec_encode_pair_opt(*o) && pair_opt_wf(*o),
        r is Err ==> !pair_opt_wf(*o),
{
    match o {
        Option::None => {
            let res = VarInt(0).encode(buf);
            assert(res is Ok);
            Ok(())
        },
        Option::Some(pair) => {
            let ghost buf0 = buf@;
            let res = VarInt(1).encode(buf);
            assert(res is Ok);
            if VarInt(pair.0).encode(buf).is_err() {
                return Err(BoundsExceeded);
            }
            if VarInt(pair.1).encode(buf).is_err() {
                return Err(BoundsExceeded);
            }
            proof {
                assert(buf@ =~= buf0 + spec_encode_pair_opt(*o));
            }
            Ok(())
        },
    }
}

/// Decode an optional group/object pair from `buf` at `pos`.
pub fn decode_pair_opt(buf: &Vec<u8>, pos: usize) -> (r: Result<
    (Option<(u64, u64)>, usize),
    DecodeError,
>)
    requires
        pos <= buf.len(),
    ensures
        match r {
            Ok((o, end)) => parse_pair_opt(buf@.skip(pos as int))
                == SpecParse::Val(o, (end - pos) as nat)
                && pos <= end <= buf.len(),
            Err(e) => match e {
                DecodeError::More(n) => n > 0 && parse_pair_opt(buf@.skip(pos as int))
                    == SpecParse::<Option<(u64, u64)>>::More(n as nat),
                _ => parse_pair_opt(buf@.skip(pos as int)) is Fail,
            },
        },
{
    let ghost s = buf@.skip(pos as int);
    let (flag, n0) = VarInt::decode(buf, pos)?;
    if flag.0 == 0 {
        Ok((None, n0))
    } else if flag.0 == 1 {
        proof {
            assert(s.skip((n0 - pos) as int) =~= buf@.skip(n0 as int));
        }
        let (g, n1) = VarInt::decode(buf, n0)?;
        proof {
            assert(s.skip((n0 - pos) as int + (n1 - n0) as int) =~= buf@.skip(n1 as int));
        }
        let (ob, n2) = VarInt::decode(buf, n1)?;
        Ok((Some((g.0, ob.0)), n2))
    } else {
        Err(DecodeError::InvalidValue)
    }
}

/// Sent by the client to open the session: offered versions, role, params.
#[derive(Clone, Debug, PartialEq)]
pub struct SetupClient {
    pub versions: Vec<u64>,
    pub role: Role,
    pub params: Params,
}

pub struct SetupClientView {
    pub versions: Seq<u64>,
    pub role: Role,
    pub params: Seq<(u64, Seq<u8>)>,
}

impl View for SetupClient {
    type V = SetupClientView;

    open spec fn view(&self) -> SetupClientView {
        SetupClientView { versions: self.versions@, role: self.role, params: self.params@ }
    }
}

/// Sent by the server in reply: the picked version, its role, params.
#[derive(Clone, Debug, PartialEq)]
pub struct SetupServer {
    pub version: u64,
    pub role: Role,
    pub params: Params,
}

pub struct SetupServerView {
    pub version: u64,
    pub role: Role,
    pub params: Seq<(u64, Seq<u8>)>,
}

impl View for SetupServer {
    type V = SetupServerView;

    open spec fn view(&self) -> SetupServerView {
        SetupServerView { version: self.version, role: self.role, params: self.params@ }
    }
}

/// A subscriber's request for one track, under a session-unique id.
#[derive(Clone, Debug, PartialEq)]
pub struct Subscribe {
    pub id: u64,
    pub track_alias: u64,
    pub namespace: Vec<u8>,
    pub name: Vec<u8>,
    pub params: Params,
}

pub struct SubscribeView {
    pub id: u64,
    pub track_alias: u64,
    pub namespace: Seq<u8>,
    pub name: Seq<u8>,
    pub params: Seq<(u64, Seq<u8>)>,
}

impl View for Subscribe {
    type V = SubscribeView;

    open spec fn view(&self) -> SubscribeView {
        SubscribeView {
            id: self.id,
            track_alias: self.track_alias,
            namespace: self.namespace@,
            name: self.name@,
            params: self.params@,
        }
    }
}

/// The publisher accepted a subscription; `latest` is the largest
/// group/object pair it has cached, if any.
#[derive(Copy, Clone, Debug, PartialEq)]
pub struct SubscribeOk {
    pub id: u64,
    pub expires: u64,
    pub latest: Option<(u64, u64)>,
}

/// The publisher rejected a subscription.
#[derive(Clone, Debug, PartialEq)]
pub struct SubscribeError {
    pub id: u64,
    pub code: u64,
    pub reason: Vec<u8>,
    pub track_alias: u64,
}

pub struct SubscribeErrorView {
    pub id: u64,
    pub code: u64,
    pub reason: Seq<u8>,
    pub track_alias: u64,
}

impl View for SubscribeError {
    type V = SubscribeErrorView;

    open spec fn view(&self) -> SubscribeErrorView {
        SubscribeErrorView {
            id: self.id,
            code: self.code,
            reason: self.reason@,
            track_alias: self.track_alias,
        }
    }
}

/// A subscription ended; `last` is the largest group/object pair served.
#[derive(Clone, Debug, PartialEq)]
pub struct SubscribeDone {
    pub id: u64,
    pub code: u64,
    pub reason: Vec<u8>,
    pub last: Option<(u64, u64)>,
}

pub struct SubscribeDoneView {
    pub id: u64,
    pub code: u64,
    pub reason: Seq<u8>,
    pub last: Option<(u64, u64)>,
}

impl View for SubscribeDone {
    type V = SubscribeDoneView;

    open spec fn view(&self) -> SubscribeDoneView {
        SubscribeDoneView {
            id: self.id,
            code: self.code,
            reason: self.reason@,
            last: self.last,
        }
    }
}

/// The subscriber withdraws a subscription.
#[derive(Copy, Clone, Debug, PartialEq)]
pub struct Unsubscribe {
    pub id: u64,
}

/// A publisher's claim to a namespace.
#[derive(Clone, Debug, PartialEq)]
pub struct Announce {
    pub namespace: Vec<u8>,
    pub params: Params,
}

pub struct AnnounceView {
    pub namespace: Seq<u8>,
    pub params: Seq<(u64, Seq<u8>)>,
}

impl View for Announce {
    type V = AnnounceView;

    open spec fn view(&self) -> AnnounceView {
        AnnounceView { namespace: self.namespace@, params: self.params@ }
    }
}

/// The peer accepted an announce.
#[derive(Clone, Debug, PartialEq)]
pub struct AnnounceOk {
    pub namespace: Vec<u8>,
}

/// The peer rejected an announce.
#[derive(Clone, Debug, PartialEq)]
pub struct AnnounceError {
    pub namespace: Vec<u8>,
    pub code: u64,
    pub reason: Vec<u8>,
}

pub struct AnnounceErrorView {
    pub namespace: Seq<u8>,
    pub code: u64,
    pub reason: Seq<u8>,
}

impl View for AnnounceError {
    type V = AnnounceErrorView;

    open spec fn view(&self) -> AnnounceErrorView {
        AnnounceErrorView { namespace: self.namespace@, code: self.code, reason: self.reason@ }
    }
}

/// The peer cancels an announce it had accepted.
#[derive(Clone, Debug, PartialEq)]
pub struct AnnounceCancel {
    pub namespace: Vec<u8>,
}

/// The publisher withdraws an announce.
#[derive(Clone, Debug, PartialEq)]
pub struct Unannounce {
    pub namespace: Vec<u8>,
}

/// The server asks the client to reconnect elsewhere.
#[derive(Clone, Debug, PartialEq)]
pub struct GoAway {
    pub url: Vec<u8>,
}


pub struct AnnounceOkView {
    pub namespace: Seq<u8>,
}

impl View for AnnounceOk {
    type V = AnnounceOkView;

    open spec fn view(&self) -> AnnounceOkView {
        AnnounceOkView { namespace: self.namespace@ }
    }
}

pub struct AnnounceCancelView {
    pub namespace: Seq<u8>,
}

impl View for AnnounceCancel {
    type V = AnnounceCancelView;

    open spec fn view(&self) -> AnnounceCancelView {
        AnnounceCancelView { namespace: self.namespace@ }
    }
}

pub struct UnannounceView {
    pub namespace: Seq<u8>,
}

impl View for Unannounce {
    type V = UnannounceView;

    open spec fn view(&self) -> UnannounceView {
        UnannounceView { namespace: self.namespace@ }
    }
}

pub struct GoAwayView {
    pub url: Seq<u8>,
}

impl View for GoAway {
    type V = GoAwayView;

    open spec fn view(&self) -> GoAwayView {
        GoAwayView { url: self.url@ }
    }
}

impl View for SubscribeOk {
    type V = SubscribeOk;

    open spec fn view(&self) -> SubscribeOk {
        *self
    }
}

impl View for Unsubscribe {
    type V = Unsubscribe;

    open spec fn view(&self) -> Unsubscribe {
        *self
    }
}

impl SetupClientView {
    /// The body bytes of this message.
    pub open spec fn spec_body(self) -> Seq<u8> {
        spec_encode_versions(self.versions) + spec_encode_role(self.role) + spec_encode_params(self.params)
    }

    /// Every field fits its wire form.
    pub open spec fn wf(self) -> bool {
        &&& versions_wf(self.versions)
        &&& params_wf(self.params)
    }
}

/// Parse the body of a `SetupClient` from the front of `s`.
#[verifier::opaque]
pub open spec fn parse_setup_client(s: Seq<u8>) -> SpecParse<SetupClientView> {
    match parse_versions(s) {
        SpecParse::Val(versions, n1) =>
        match parse_role(s.skip(n1 as int)) {
            SpecParse::Val(role, n2) =>
            match parse_params(s.skip(n1 as int + n2 as int)) {
                SpecParse::Val(params, n3) =>
                if spec_params_has_key(params, 1) {
                    SpecParse::Fail
                } else {
                    SpecParse::Val(
                        SetupClientView { versions: versions, role: role, params: params },
                        n1 + n2 + n3,
                    )
                },
                SpecParse::More(k) => SpecParse::More(k),
                SpecParse::Fail => SpecParse::Fail,
            },
            SpecParse::More(k) => SpecParse::More(k),
            SpecParse::Fail => SpecParse::Fail,
        },
        SpecParse::More(k) => SpecParse::More(k),
        SpecParse::Fail => SpecParse::Fail,
    }
}

/// An encoded `SetupClient` body parses back to itself, whatever follows
/// it — for every client setup the decoder accepts, that is, one without
/// the rejected PATH parameter (key 1).
#[verifier::rlimit(100)]
#[verifier::spinoff_prover]
pub proof fn lemma_parse_encode_setup_client(v: SetupClientView, rest: Seq<u8>)
    requires
        v.wf(),
        !spec_params_has_key(v.params, 1),
    ensures
        parse_setup_client(v.spec_body() + rest) == SpecParse::Val(v, v.spec_body().len()),
{
    reveal(parse_setup_client);
    let e1 = spec_encode_versions(v.versions);
    let e2 = spec_encode_role(v.role);
    let e3 = spec_encode_params(v.params);
    let s = v.spec_body() + rest;
    assert(s =~= e1 + (e2 + (e3 + (rest))));
    lemma_parse_encode_versions(v.versions, e2 + (e3 + (rest)));
    assert(s.skip(e1.len() as int) =~= e2 + (e3 + (rest)));
    lemma_parse_encode_role(v.role, e3 + (rest));
    assert(s.skip(e1.len() as int + e2.len() as int) =~= e3 + (rest));
    lemma_parse_encode_params(v.params, rest);
}

impl SetupClient {
    /// Append the body of this message to `buf`; fails exactly when a
    /// field is outside its wire range.
    pub fn encode(&self, buf: &mut Vec<u8>) -> (r: Result<(), BoundsExceeded>)
        ensures
            r is Ok ==> final(buf)@ == old(buf)@ + self@.spec_body() && self@.wf(),
            r is Err ==> !self@.wf(),
    {
        let ghost buf0 = buf@;
        if encode_versions(buf, &self.versions).is_err() {
            return Err(BoundsExceeded);
        }
        encode_role(buf, self.role);
        if self.params.encode(buf).is_err() {
            return Err(BoundsExceeded);
        }
        proof {
            assert(buf@ =~= buf0 + self@.spec_body());
        }
        Ok(())
    }

    /// Decode the body of this message from `buf` at `pos`.
    pub fn decode(buf: &Vec<u8>, pos: usize) -> (r: Result<(SetupClient, usize), DecodeError>)
        requires
            pos <= buf.len(),
        ensures
            match r {
                Ok((m, end)) => parse_setup_client(buf@.skip(pos as int))
                    == SpecParse::Val(m@, (end - pos) as nat)
                    && pos <= end <= buf.len(),
                Err(e) => match e {
                    DecodeError::More(n) => n > 0 && parse_setup_client(buf@.skip(pos as int))
                        == SpecParse::<SetupClientView>::More(n as nat),
                    _ => parse_setup_client(buf@.skip(pos as int)) is Fail,
                },
            },
    {
        let ghost s = buf@.skip(pos as int);
        proof {
            reveal(parse_setup_client);
        }
        let (versions, p1) = decode_versions(buf, pos)?;
        proof {
            assert(s.skip((p1 - pos) as int) =~= buf@.skip(p1 as int));
        }
        let (role, p2) = decode_role(buf, p1)?;
        proof {
            assert(s.skip((p2 - pos) as int) =~= buf@.skip(p2 as int));
        }
        let (params, p3) = Params::decode(buf, p2)?;
        // The PATH parameter (key 1) belongs to raw-QUIC setup and is not
        // accepted on a tunneled session.
        if params_has_key(&params, 1) {
            return Err(DecodeError::InvalidValue);
        }
        Ok((SetupClient { versions: versions, role: role, params: params }, p3))
    }
}

impl SetupServerView {
    /// The body bytes of this message.
    pub open spec fn spec_body(self) -> Seq<u8> {
        spec_encode_varint(self.version as nat) + spec_encode_role(self.role) + spec_encode_params(self.params)
    }

    /// Every field fits its wire form.
    pub open spec fn wf(self) -> bool {
        &&& self.version < 0x4000_0000_0000_0000
        &&& params_wf(self.params)
    }
}

/// Parse the body of a `SetupServer` from the front of `s`.
#[verifier::opaque]
pub open spec fn parse_setup_server(s: Seq<u8>) -> SpecParse<SetupServerView> {
    match parse_varint(s) {
        SpecParse::Val(version, n1) =>
        match parse_role(s.skip(n1 as int)) {
            SpecParse::Val(role, n2) =>
            match parse_params(s.skip(n1 as int + n2 as int)) {
                SpecParse::Val(params, n3) =>
                SpecParse::Val(
                    SetupServerView { version: (version as u64), role: role, params: params },
                    n1 + n2 + n3,
                ),
                SpecParse::More(k) => SpecParse::More(k),
                SpecParse::Fail => SpecParse::Fail,
            },
            SpecParse::More(k) => SpecParse::More(k),
            SpecParse::Fail => SpecParse::Fail,
        },
        SpecParse::More(k) => SpecParse::More(k),
        SpecParse::Fail => SpecParse::Fail,
    }
}

/// An encoded `SetupServer` body parses back to itself, whatever follows it.
#[verifier::rlimit(100)]
#[verifier::spinoff_prover]
pub proof fn lemma_parse_encode_setup_server(v: SetupServerView, rest: Seq<u8>)
    requires
        v.wf(),
    ensures
        parse_setup_server(v.spec_body() + rest) == SpecParse::Val(v, v.spec_body().len()),
{
    reveal(parse_setup_server);
    let e1 = spec_encode_varint(v.version as nat);
    let e2 = spec_encode_role(v.role);
    let e3 = spec_encode_params(v.params);
    let s = v.spec_body() + rest;
    assert(s =~= e1 + (e2 + (e3 + (rest))));
    crate::varint::lemma_parse_encode_varint(v.version as nat, e2 + (e3 + (rest)));
    assert(s.skip(e1.len() as int) =~= e2 + (e3 + (rest)));
    lemma_parse_encode_role(v.role, e3 + (rest));
    assert(s.skip(e1.len() as int + e2.len() as int) =~= e3 + (rest));
    lemma_parse_encode_params(v.params, rest);
}

impl SetupServer {
    /// Append the body of this message to `buf`; fails exactly when a
    /// field is outside its wire range.
    pub fn encode(&self, buf: &mut Vec<u8>) -> (r: Result<(), BoundsExceeded>)
        ensures
            r is Ok ==> final(buf)@ == old(buf)@ + self@.spec_body() && self@.wf(),
            r is Err ==> !self@.wf(),
    {
        let ghost buf0 = buf@;
        if VarInt(self.version).encode(buf).is_err() {
            return Err(BoundsExceeded);
        }
        encode_role(buf, self.role);
        if self.params.encode(buf).is_err() {
            return Err(BoundsExceeded);
        }
        proof {
            assert(buf@ =~= buf0 + self@.spec_body());
        }
        Ok(())
    }

    /// Decode the body of this message from `buf` at `pos`.
    pub fn decode(buf: &Vec<u8>, pos: usize) -> (r: Result<(SetupServer, usize), DecodeError>)
        requires
            pos <= buf.len(),
        ensures
            match r {
                Ok((m, end)) => parse_setup_server(buf@.skip(pos as int))
                    == SpecParse::Val(m@, (end - pos) as nat)
                    && pos <= end <= buf.len(),
                Err(e) => match e {
                    DecodeError::More(n) => n > 0 && parse_setup_server(buf@.skip(pos as int))
                        == SpecParse::<SetupServerView>::More(n as nat),
                    _ => parse_setup_server(buf@.skip(pos as int)) is Fail,
                },
            },
    {
        let ghost s = buf@.skip(pos as int);
        proof {
            reveal(parse_setup_server);
        }
        let (version, p1) = VarInt::decode(buf, pos)?;
        proof {
            assert(s.skip((p1 - pos) as int) =~= buf@.skip(p1 as int));
        }
        let (role, p2) = decode_role(buf, p1)?;
        proof {
            assert(s.skip((p2 - pos) as int) =~= buf@.skip(p2 as int));
        }
        let (params, p3) = Params::decode(buf, p2)?;
        Ok((SetupServer { version: version.0, role: role, params: params }, p3))
    }
}

impl SubscribeView {
    /// The body bytes of this message.
    pub open spec fn spec_body(self) -> Seq<u8> {
        spec_encode_varint(self.id as nat) + spec_encode_varint(self.track_alias as nat) + spec_encode_bytes(self.namespace) + spec_encode_bytes(self.name) + spec_encode_params(self.params)
    }

    /// Every field fits its wire form.
    pub open spec fn wf(self) -> bool {
        &&& self.id < 0x4000_0000_0000_0000
        &&& self.track_alias < 0x4000_0000_0000_0000
        &&& self.namespace.len() < 0x4000_0000_0000_0000
        &&& self.name.len() < 0x4000_0000_0000_0000
        &&& params_wf(self.params)
    }
}

/// Parse the body of a `Subscribe` from the front of `s`.
#[verifier::opaque]
pub open spec fn parse_subscribe(s: Seq<u8>) -> SpecParse<SubscribeView> {
    match parse_varint(s) {
        SpecParse::Val(id, n1) =>
        match parse_varint(s.skip(n1 as int)) {
            SpecParse::Val(track_alias, n2) =>
            match parse_bytes(s.skip(n1 as int + n2 as int)) {
                SpecParse::Val(namespace, n3) =>
                match parse_bytes(s.skip(n1 as int + n2 as int + n3 as int)) {
                    SpecParse::Val(name, n4) =>
                    match parse_params(s.skip(n1 as int + n2 as int + n3 as int + n4 as int)) {
                        SpecParse::Val(params, n5) =>
                        SpecParse::Val(
                            SubscribeView { id: (id as u64), track_alias: (track_alias as u64), namespace: namespace, name: name, params: params },
                            n1 + n2 + n3 + n4 + n5,
                        ),
                        SpecParse::More(k) => SpecParse::More(k),
                        SpecParse::Fail => SpecParse::Fail,
                    },
                    SpecParse::More(k) => SpecParse::More(k),
                    SpecParse::Fail => SpecParse::Fail,
                },
                SpecParse::More(k) => SpecParse::More(k),
                SpecParse::Fail => SpecParse::Fail,
            },
            SpecParse::More(k) => SpecParse::More(k),
            SpecParse::Fail => SpecParse::Fail,
        },
        SpecParse::More(k) => SpecParse::More(k),
        SpecParse::Fail => SpecParse::Fail,
    }
}

/// An encoded `Subscribe` body parses back to itself, whatever follows it.
#[verifier::rlimit(100)]
#[verifier::spinoff_prover]
pub proof fn lemma_parse_encode_subscribe(v: SubscribeView, rest: Seq<u8>)
    requires
        v.wf(),
    ensures
        parse_subscribe(v.spec_body() + rest) == SpecParse::Val(v, v.spec_body().len()),
{
    reveal(parse_subscribe);
    let e1 = spec_encode_varint(v.id as nat);
    let e2 = spec_encode_varint(v.track_alias as nat);
    let e3 = spec_encode_bytes(v.namespace);
    let e4 = spec_encode_bytes(v.name);
    let e5 = spec_encode_params(v.params);
    let s = v.spec_body() + rest;
    assert(s =~= e1 + (e2 + (e3 + (e4 + (e5 + (rest))))));
    crate::varint::lemma_parse_encode_varint(v.id as nat, e2 + (e3 + (e4 + (e5 + (rest)))));
    assert(s.skip(e1.len() as int) =~= e2 + (e3 + (e4 + (e5 + (rest)))));
    crate::varint::lemma_parse_encode_varint(v.track_alias as nat, e3 + (e4 + (e5 + (rest))));
    assert(s.skip(e1.len() as int + e2.len() as int) =~= e3 + (e4 + (e5 + (rest))));
    crate::coding::lemma_parse_encode_bytes(v.namespace, e4 + (e5 + (rest)));
    assert(s.skip(e1.len() as int + e2.len() as int + e3.len() as int) =~= e4 + (e5 + (rest)));
    crate::coding::lemma_parse_encode_bytes(v.name, e5 + (rest));
    assert(s.skip(e1.len() as int + e2.len() as int + e3.len() as int + e4.len() as int) =~= e5 + (rest));
    lemma_parse_encode_params(v.params, rest);
}

impl Subscribe {
    /// Append the body of this message to `buf`; fails exactly when a
    /// field is outside its wire range.
    pub fn encode(&self, buf: &mut Vec<u8>) -> (r: Result<(), BoundsExceeded>)
        ensures
            r is Ok ==> final(buf)@ == old(buf)@ + self@.spec_body() && self@.wf(),
            r is Err ==> !self@.wf(),
    {
        let ghost buf0 = buf@;
        if VarInt(self.id).encode(buf).is_err() {
            return Err(BoundsExceeded);
        }
        if VarInt(self.track_alias).encode(buf).is_err() {
            return Err(BoundsExceeded);
        }
        if encode_bytes(buf, &self.namespace).is_err() {
            return Err(BoundsExceeded);
        }
        if encode_bytes(buf, &self.name).is_err() {
            return Err(BoundsExceeded);
        }
        if self.params.encode(buf).is_err() {
            return Err(BoundsExceeded);
        }
        proof {
            assert(buf@ =~= buf0 + self@.spec_body());
        }
        Ok(())
    }

    /// Decode the body of this message from `buf` at `pos`.
    #[verifier::rlimit(60)]
    #[verifier::spinoff_prover]
    pub fn decode(buf: &Vec<u8>, pos: usize) -> (r: Result<(Subscribe, usize), DecodeError>)
        requires
            pos <= buf.len(),
        ensures
            match r {
                Ok((m, end)) => parse_subscribe(buf@.skip(pos as int))
                    == SpecParse::Val(m@, (end - pos) as nat)
                    && pos <= end <= buf.len(),
                Err(e) => match e {
                    DecodeError::More(n) => n > 0 && parse_subscribe(buf@.skip(pos as int))
                        == SpecParse::<SubscribeView>::More(n as nat),
                    _ => parse_subscribe(buf@.skip(pos as int)) is Fail,
                },
            },
    {
        let ghost s = buf@.skip(pos as int);
        proof {
            reveal(parse_subscribe);
        }
        let (id, p1) = VarInt::decode(buf, pos)?;
        proof {
            assert(s.skip((p1 - pos) as int) =~= buf@.skip(p1 as int));
        }
        let (track_alias, p2) = VarInt::decode(buf, p1)?;
        proof {
            assert(s.skip((p2 - pos) as int) =~= buf@.skip(p2 as int));
        }
        let (namespace, p3) = decode_bytes(buf, p2)?;
        proof {
            assert(s.skip((p3 - pos) as int) =~= buf@.skip(p3 as int));
        }
        let (name, p4) = decode_bytes(buf, p3)?;
        proof {
            assert(s.skip((p4 - pos) as int) =~= buf@.skip(p4 as int));
        }
        let (params, p5) = Params::decode(buf, p4)?;
        Ok((Subscribe { id: id.0, track_alias: track_alias.0, namespace: namespace, name: name, params: params }, p5))
    }
}

impl SubscribeOk {
    /// The body bytes of this message.
    pub open spec fn spec_body(self) -> Seq<u8> {
        spec_encode_varint(self.id as nat) + spec_encode_varint(self.expires as nat) + spec_encode_pair_opt(self.latest)
    }

    /// Every field fits its wire form.
    pub open spec fn wf(self) -> bool {
        &&& self.id < 0x4000_0000_0000_0000
        &&& self.expires < 0x4000_0000_0000_0000
        &&& pair_opt_wf(self.latest)
    }
}

/// Parse the body of a `SubscribeOk` from the front of `s`.
#[verifier::opaque]
pub open spec fn parse_subscribe_ok(s: Seq<u8>) -> SpecParse<SubscribeOk> {
    match parse_varint(s) {
        SpecParse::Val(id, n1) =>
        match parse_varint(s.skip(n1 as int)) {
            SpecParse::Val(expires, n2) =>
            match parse_pair_opt(s.skip(n1 as int + n2 as int)) {
                SpecParse::Val(latest, n3) =>
                SpecParse::Val(
                    SubscribeOk { id: (id as u64), expires: (expires as u64), latest: latest },
                    n1 + n2 + n3,
                ),
                SpecParse::More(k) => SpecParse::More(k),
                SpecParse::Fail => SpecParse::Fail,
            },
            SpecParse::More(k) => SpecParse::More(k),
            SpecParse::Fail => SpecParse::Fail,
        },
        SpecParse::More(k) => SpecParse::More(k),
        SpecParse::Fail => SpecParse::Fail,
    }
}

/// An encoded `SubscribeOk` body parses back to itself, whatever follows it.
#[verifier::rlimit(100)]
#[verifier::spinoff_prover]
pub proof fn lemma_parse_encode_subscribe_ok(v: SubscribeOk, rest: Seq<u8>)
    requires
        v.wf(),
    ensures
        parse_subscribe_ok(v.spec_body() + rest) == SpecParse::Val(v, v.spec_body().len()),
{
    reveal(parse_subscribe_ok);
    let e1 = spec_encode_varint(v.id as nat);
    let e2 = spec_encode_varint(v.expires as nat);
    let e3 = spec_encode_pair_opt(v.latest);
    let s = v.spec_body() + rest;
    assert(s =~= e1 + (e2 + (e3 + (rest))));
    crate::varint::lemma_parse_encode_varint(v.id as nat, e2 + (e3 + (rest)));
    assert(s.skip(e1.len() as int) =~= e2 + (e3 + (rest)));
    crate::varint::lemma_parse_encode_varint(v.expires as nat, e3 + (rest));
    assert(s.skip(e1.len() as int + e2.len() as int) =~= e3 + (rest));
    lemma_parse_encode_pair_opt(v.latest, rest);
}

impl SubscribeOk {
    /// Append the body of this message to `buf`; fails exactly when a
    /// field is outside its wire range.
    pub fn encode(&self, buf: &mut Vec<u8>) -> (r: Result<(), BoundsExceeded>)
        ensures
            r is Ok ==> final(buf)@ == old(buf)@ + self@.spec_body() && self@.wf(),
            r is Err ==> !self@.wf(),
    {
        let ghost buf0 = buf@;
        if VarInt(self.id).encode(buf).is_err() {
            return Err(BoundsExceeded);
        }
        if VarInt(self.expires).encode(buf).is_err() {
            return Err(BoundsExceeded);
        }
        if encode_pair_opt(buf, &self.latest).is_err() {
            return Err(BoundsExceeded);
        }
        proof {
            assert(buf@ =~= buf0 + self@.spec_body());
        }
        Ok(())
    }

    /// Decode the body of this message from `buf` at `pos`.
    pub fn decode(buf: &Vec<u8>, pos: usize) -> (r: Result<(SubscribeOk, usize), DecodeError>)
        requires
            pos <= buf.len(),
        ensures
            match r {
                Ok((m, end)) => parse_subscribe_ok(buf@.skip(pos as int))
                    == SpecParse::Val(m@, (end - pos) as nat)
                    && pos <= end <= buf.len(),
                Err(e) => match e {
                    DecodeError::More(n) => n > 0 && parse_subscribe_ok(buf@.skip(pos as int))
                        == SpecParse::<SubscribeOk>::More(n as nat),
                    _ => parse_subscribe_ok(buf@.skip(pos as int)) is Fail,
                },
            },
    {
        let ghost s = buf@.skip(pos as int);
        proof {
            reveal(parse_subscribe_ok);
        }
        let (id, p1) = VarInt::decode(buf, pos)?;
        proof {
            assert(s.skip((p1 - pos) as int) =~= buf@.skip(p1 as int));
        }
        let (expires, p2) = VarInt::decode(buf, p1)?;
        proof {
            assert(s.skip((p2 - pos) as int) =~= buf@.skip(p2 as int));
        }
        let (latest, p3) = decode_pair_opt(buf, p2)?;
        Ok((SubscribeOk { id: id.0, expires: expires.0, latest: latest }, p3))
    }
}

impl SubscribeErrorView {
    /// The body bytes of this message.
    pub open spec fn spec_body(self) -> Seq<u8> {
        spec_encode_varint(self.id as nat) + spec_encode_varint(self.code as nat) + spec_encode_bytes(self.reason) + spec_encode_varint(self.track_alias as nat)
    }

    /// Every field fits its wire form.
    pub open spec fn wf(self) -> bool {
        &&& self.id < 0x4000_0000_0000_0000
        &&& self.code < 0x4000_0000_0000_0000
        &&& self.reason.len() < 0x4000_0000_0000_0000
        &&& self.track_alias < 0x4000_0000_0000_0000
    }
}

/// Parse the body of a `SubscribeError` from the front of `s`.
#[verifier::opaque]
pub open spec fn parse_subscribe_error(s: Seq<u8>) -> SpecParse<SubscribeErrorView> {
    match parse_varint(s) {
        SpecParse::Val(id, n1) =>
        match parse_varint(s.skip(n1 as int)) {
            SpecParse::Val(code, n2) =>
            match parse_bytes(s.skip(n1 as int + n2 as int)) {
                SpecParse::Val(reason, n3) =>
                match parse_varint(s.skip(n1 as int + n2 as int + n3 as int)) {
                    SpecParse::Val(track_alias, n4) =>
                    SpecParse::Val(
                        SubscribeErrorView { id: (id as u64), code: (code as u64), reason: reason, track_alias: (track_alias as u64) },
                        n1 + n2 + n3 + n4,
                    ),
                    SpecParse::More(k) => SpecParse::More(k),
                    SpecParse::Fail => SpecParse::Fail,
                },
                SpecParse::More(k) => SpecParse::More(k),
                SpecParse::Fail => SpecParse::Fail,
            },
            SpecParse::More(k) => SpecParse::More(k),
            SpecParse::Fail => SpecParse::Fail,
        },
        SpecParse::More(k) => SpecParse::More(k),
        SpecParse::Fail => SpecParse::Fail,
    }
}

/// An encoded `SubscribeError` body parses back to itself, whatever follows it.
#[verifier::rlimit(100)]
#[verifier::spinoff_prover]
pub proof fn lemma_parse_encode_subscribe_error(v: SubscribeErrorView, rest: Seq<u8>)
    requires
        v.wf(),
    ensures
        parse_subscribe_error(v.spec_body() + rest) == SpecParse::Val(v, v.spec_body().len()),
{
    reveal(parse_subscribe_error);
    let e1 = spec_encode_varint(v.id as nat);
    let e2 = spec_encode_varint(v.code as nat);
    let e3 = spec_encode_bytes(v.reason);
    let e4 = spec_encode_varint(v.track_alias as nat);
    let s = v.spec_body() + rest;
    assert(s =~= e1 + (e2 + (e3 + (e4 + (rest)))));
    crate::varint::lemma_parse_encode_varint(v.id as nat, e2 + (e3 + (e4 + (rest))));
    assert(s.skip(e1.len() as int) =~= e2 + (e3 + (e4 + (rest))));
    crate::varint::lemma_parse_encode_varint(v.code as nat, e3 + (e4 + (rest)));
    assert(s.skip(e1.len() as int + e2.len() as int) =~= e3 + (e4 + (rest)));
    crate::coding::lemma_parse_encode_bytes(v.reason, e4 + (rest));
    assert(s.skip(e1.len() as int + e2.len() as int + e3.len() as int) =~= e4 + (rest));
    crate::varint::lemma_parse_encode_varint(v.track_alias as nat, rest);
}

impl SubscribeError {
    /// Append the body of this message to `buf`; fails exactly when a
    /// field is outside its wire range.
    pub fn encode(&self, buf: &mut Vec<u8>) -> (r: Result<(), BoundsExceeded>)
        ensures
            r is Ok ==> final(buf)@ == old(buf)@ + self@.spec_body() && self@.wf(),
            r is Err ==> !self@.wf(),
    {
        let ghost buf0 = buf@;
        if VarInt(self.id).encode(buf).is_err() {
            return Err(BoundsExceeded);
        }
        if VarInt(self.code).encode(buf).is_err() {
            return Err(BoundsExceeded);
        }
        if encode_bytes(buf, &self.reason).is_err() {
            return Err(BoundsExceeded);
        }
        if VarInt(self.track_alias).encode(buf).is_err() {
            return Err(BoundsExceeded);
        }
        proof {
            assert(buf@ =~= buf0 + self@.spec_body());
        }
        Ok(())
    }

    /// Decode the body of this message from `buf` at `pos`.
    pub fn decode(buf: &Vec<u8>, pos: usize) -> (r: Result<(SubscribeError, usize), DecodeError>)
        requires
            pos <= buf.len(),
        ensures
            match r {
                Ok((m, end)) => parse_subscribe_error(buf@.skip(pos as int))
                    == SpecParse::Val(m@, (end - pos) as nat)
                    && pos <= end <= buf.len(),
                Err(e) => match e {
                    DecodeError::More(n) => n > 0 && parse_subscribe_error(buf@.skip(pos as int))
                        == SpecParse::<SubscribeErrorView>::More(n as nat),
                    _ => parse_subscribe_error(buf@.skip(pos as int)) is Fail,
                },
            },
    {
        let ghost s = buf@.skip(pos as int);
        proof {
            reveal(parse_subscribe_error);
        }
        let (id, p1) = VarInt::decode(buf, pos)?;
        proof {
            assert(s.skip((p1 - pos) as int) =~= buf@.skip(p1 as int));
        }
        let (code, p2) = VarInt::decode(buf, p1)?;
        proof {
            assert(s.skip((p2 - pos) as int) =~= buf@.skip(p2 as int));
        }
        let (reason, p3) = decode_bytes(buf, p2)?;
        proof {
            assert(s.skip((p3 - pos) as int) =~= buf@.skip(p3 as int));
        }
        let (track_alias, p4) = VarInt::decode(buf, p3)?;
        Ok((SubscribeError { id: id.0, code: code.0, reason: reason, track_alias: track_alias.0 }, p4))
    }
}

impl SubscribeDoneView {
    /// The body bytes of this message.
    pub open spec fn spec_body(self) -> Seq<u8> {
        spec_encode_varint(self.id as nat) + spec_encode_varint(self.code as nat) + spec_encode_bytes(self.reason) + spec_encode_pair_opt(self.last)
    }

    /// Every field fits its wire form.
    pub open spec fn wf(self) -> bool {
        &&& self.id < 0x4000_0000_0000_0000
        &&& self.code < 0x4000_0000_0000_0000
        &&& self.reason.len() < 0x4000_0000_0000_0000
        &&& pair_opt_wf(self.last)
    }
}

/// Parse the body of a `SubscribeDone` from the front of `s`.
#[verifier::opaque]
pub open spec fn parse_subscribe_done(s: Seq<u8>) -> SpecParse<SubscribeDoneView> {
    match parse_varint(s) {
        SpecParse::Val(id, n1) =>
        match parse_varint(s.skip(n1 as int)) {
            SpecParse::Val(code, n2) =>
            match parse_bytes(s.skip(n1 as int + n2 as int)) {
                SpecParse::Val(reason, n3) =>
                match parse_pair_opt(s.skip(n1 as int + n2 as int + n3 as int)) {
                    SpecParse::Val(last, n4) =>
                    SpecParse::Val(
                        SubscribeDoneView { id: (id as u64), code: (code as u64), reason: reason, last: last },
                        n1 + n2 + n3 + n4,
                    ),
                    SpecParse::More(k) => SpecParse::More(k),
                    SpecParse::Fail => SpecParse::Fail,
                },
                SpecParse::More(k) => SpecParse::More(k),
                SpecParse::Fail => SpecParse::Fail,
            },
            SpecParse::More(k) => SpecParse::More(k),
            SpecParse::Fail => SpecParse::Fail,
        },
        SpecParse::More(k) => SpecParse::More(k),
        SpecParse::Fail => SpecParse::Fail,
    }
}

/// An encoded `SubscribeDone` body parses back to itself, whatever follows it.
#[verifier::rlimit(100)]
#[verifier::spinoff_prover]
pub proof fn lemma_parse_encode_subscribe_done(v: SubscribeDoneView, rest: Seq<u8>)
    requires
        v.wf(),
    ensures
        parse_subscribe_done(v.spec_body() + rest) == SpecParse::Val(v, v.spec_body().len()),
{
    reveal(parse_subscribe_done);
    let e1 = spec_encode_varint(v.id as nat);
    let e2 = spec_encode_varint(v.code as nat);
    let e3 = spec_encode_bytes(v.reason);
    let e4 = spec_encode_pair_opt(v.last);
    let s = v.spec_body() + rest;
    assert(s =~= e1 + (e2 + (e3 + (e4 + (rest)))));
    crate::varint::lemma_parse_encode_varint(v.id as nat, e2 + (e3 + (e4 + (rest))));
    assert(s.skip(e1.len() as int) =~= e2 + (e3 + (e4 + (rest))));
    crate::varint::lemma_parse_encode_varint(v.code as nat, e3 + (e4 + (rest)));
    assert(s.skip(e1.len() as int + e2.len() as int) =~= e3 + (e4 + (rest)));
    crate::coding::lemma_parse_encode_bytes(v.reason, e4 + (rest));
    assert(s.skip(e1.len() as int + e2.len() as int + e3.len() as int) =~= e4 + (rest));
    lemma_parse_encode_pair_opt(v.last, rest);
}

impl SubscribeDone {
    /// Append the body of this message to `buf`; fails exactly when a
    /// field is outside its wire range.
    pub fn encode(&self, buf: &mut Vec<u8>) -> (r: Result<(), BoundsExceeded>)
        ensures
            r is Ok ==> final(buf)@ == old(buf)@ + self@.spec_body() && self@.wf(),
            r is Err ==> !self@.wf(),
    {
        let ghost buf0 = buf@;
        if VarInt(self.id).encode(buf).is_err() {
            return Err(BoundsExceeded);
        }
        if VarInt(self.code).encode(buf).is_err() {
            return Err(BoundsExceeded);
        }
        if encode_bytes(buf, &self.reason).is_err() {
            return Err(BoundsExceeded);
        }
        if encode_pair_opt(buf, &self.last).is_err() {
            return Err(BoundsExceeded);
        }
        proof {
            assert(buf@ =~= buf0 + self@.spec_body());
        }
        Ok(())
    }

    /// Decode the body of this message from `buf` at `pos`.
    #[verifier::rlimit(60)]
    #[verifier::spinoff_prover]
    pub fn decode(buf: &Vec<u8>, pos: usize) -> (r: Result<(SubscribeDone, usize), DecodeError>)
        requires
            pos <= buf.len(),
        ensures
            match r {
                Ok((m, end)) => parse_subscribe_done(buf@.skip(pos as int))
                    == SpecParse::Val(m@, (end - pos) as nat)
                    && pos <= end <= buf.len(),
                Err(e) => match e {
                    DecodeError::More(n) => n > 0 && parse_subscribe_done(buf@.skip(pos as int))
                        == SpecParse::<SubscribeDoneView>::More(n as nat),
                    _ => parse_subscribe_done(buf@.skip(pos as int)) is Fail,
                },
            },
    {
        let ghost s = buf@.skip(pos as int);
        proof {
            reveal(parse_subscribe_done);
        }
        let (id, p1) = VarInt::decode(buf, pos)?;
        proof {
            assert(s.skip((p1 - pos) as int) =~= buf@.skip(p1 as int));
        }
        let (code, p2) = VarInt::decode(buf, p1)?;
        proof {
            assert(s.skip((p2 - pos) as int) =~= buf@.skip(p2 as int));
        }
        let (reason, p3) = decode_bytes(buf, p2)?;
        proof {
            assert(s.skip((p3 - pos) as int) =~= buf@.skip(p3 as int));
        }
        let (last, p4) = decode_pair_opt(buf, p3)?;
        Ok((SubscribeDone { id: id.0, code: code.0, reason: reason, last: last }, p4))
    }
}

impl Unsubscribe {
    /// The body bytes of this message.
    pub open spec fn spec_body(self) -> Seq<u8> {
        spec_encode_varint(self.id as nat)
    }

    /// Every field fits its wire form.
    pub open spec fn wf(self) -> bool {
        self.id < 0x4000_0000_0000_0000
    }
}

/// Parse the body of a `Unsubscribe` from the front of `s`.
#[verifier::opaque]
pub open spec fn parse_unsubscribe(s: Seq<u8>) -> SpecParse<Unsubscribe> {
    match parse_varint(s) {
        SpecParse::Val(id, n1) =>
        SpecParse::Val(
            Unsubscribe { id: (id as u64) },
            n1,
        ),
        SpecParse::More(k) => SpecParse::More(k),
        SpecParse::Fail => SpecParse::Fail,
    }
}

/// An encoded `Unsubscribe` body parses back to itself, whatever follows it.
#[verifier::rlimit(100)]
#[verifier::spinoff_prover]
pub proof fn lemma_parse_encode_unsubscribe(v: Unsubscribe, rest: Seq<u8>)
    requires
        v.wf(),
    ensures
        parse_unsubscribe(v.spec_body() + rest) == SpecParse::Val(v, v.spec_body().len()),
{
    reveal(parse_unsubscribe);
    let e1 = spec_encode_varint(v.id as nat);
    let s = v.spec_body() + rest;
    assert(s =~= e1 + (rest));
    crate::varint::lemma_parse_encode_varint(v.id as nat, rest);
}

impl Unsubscribe {
    /// Append the body of this message to `buf`; fails exactly when a
    /// field is outside its wire range.
    pub fn encode(&self, buf: &mut Vec<u8>) -> (r: Result<(), BoundsExceeded>)
        ensures
            r is Ok ==> final(buf)@ == old(buf)@ + self@.spec_body() && self@.wf(),
            r is Err ==> !self@.wf(),
    {
        let ghost buf0 = buf@;
        if VarInt(self.id).encode(buf).is_err() {
            return Err(BoundsExceeded);
        }
        proof {
            assert(buf@ =~= buf0 + self@.spec_body());
        }
        Ok(())
    }

    /// Decode the body of this message from `buf` at `pos`.
    pub fn decode(buf: &Vec<u8>, pos: usize) -> (r: Result<(Unsubscribe, usize), DecodeError>)
        requires
            pos <= buf.len(),
        ensures
            match r {
                Ok((m, end)) => parse_unsubscribe(buf@.skip(pos as int))
                    == SpecParse::Val(m@, (end - pos) as nat)
                    && pos <= end <= buf.len(),
                Err(e) => match e {
                    DecodeError::More(n) => n > 0 && parse_unsubscribe(buf@.skip(pos as int))
                        == SpecParse::<Unsubscribe>::More(n as nat),
                    _ => parse_unsubscribe(buf@.skip(pos as int)) is Fail,
                },
            },
    {
        let ghost s = buf@.skip(pos as int);
        proof {
            reveal(parse_unsubscribe);
        }
        let (id, p1) = VarInt::decode(buf, pos)?;
        Ok((Unsubscribe { id: id.0 }, p1))
    }
}

impl AnnounceView {
    /// The body bytes of this message.
    pub open spec fn spec_body(self) -> Seq<u8> {
        spec_encode_bytes(self.namespace) + spec_encode_params(self.params)
    }

    /// Every field fits its wire form.
    pub open spec fn wf(self) -> bool {
        &&& self.namespace.len() < 0x4000_0000_0000_0000
        &&& params_wf(self.params)
    }
}

/// Parse the body of a `Announce` from the front of `s`.
#[verifier::opaque]
pub open spec fn parse_announce(s: Seq<u8>) -> SpecParse<AnnounceView> {
    match parse_bytes(s) {
        SpecParse::Val(namespace, n1) =>
        match parse_params(s.skip(n1 as int)) {
            SpecParse::Val(params, n2) =>
            SpecParse::Val(
                AnnounceView { namespace: namespace, params: params },
                n1 + n2,
            ),
            SpecParse::More(k) => SpecParse::More(k),
            SpecParse::Fail => SpecParse::Fail,
        },
        SpecParse::More(k) => SpecParse::More(k),
        SpecParse::Fail => SpecParse::Fail,
    }
}

/// An encoded `Announce` body parses back to itself, whatever follows it.
#[verifier::rlimit(100)]
#[verifier::spinoff_prover]
pub proof fn lemma_parse_encode_announce(v: AnnounceView, rest: Seq<u8>)
    requires
        v.wf(),
    ensures
        parse_announce(v.spec_body() + rest) == SpecParse::Val(v, v.spec_body().len()),
{
    reveal(parse_announce);
    let e1 = spec_encode_bytes(v.namespace);
    let e2 = spec_encode_params(v.params);
    let s = v.spec_body() + rest;
    assert(s =~= e1 + (e2 + (rest)));
    crate::coding::lemma_parse_encode_bytes(v.namespace, e2 + (rest));
    assert(s.skip(e1.len() as int) =~= e2 + (rest));
    lemma_parse_encode_params(v.params, rest);
}

impl Announce {
    /// Append the body of this message to `buf`; fails exactly when a
    /// field is outside its wire range.
    pub fn encode(&self, buf: &mut Vec<u8>) -> (r: Result<(), BoundsExceeded>)
        ensures
            r is Ok ==> final(buf)@ == old(buf)@ + self@.spec_body() && self@.wf(),
            r is Err ==> !self@.wf(),
    {
        let ghost buf0 = buf@;
        if encode_bytes(buf, &self.namespace).is_err() {
            return Err(BoundsExceeded);
        }
        if self.params.encode(buf).is_err() {
            return Err(BoundsExceeded);
        }
        proof {
            assert(buf@ =~= buf0 + self@.spec_body());
        }
        Ok(())
    }

    /// Decode the body of this message from `buf` at `pos`.
    pub fn decode(buf: &Vec<u8>, pos: usize) -> (r: Result<(Announce, usize), DecodeError>)
        requires
            pos <= buf.len(),
        ensures
            match r {
                Ok((m, end)) => parse_announce(buf@.skip(pos as int))
                    == SpecParse::Val(m@, (end - pos) as nat)
                    && pos <= end <= buf.len(),
                Err(e) => match e {
                    DecodeError::More(n) => n > 0 && parse_announce(buf@.skip(pos as int))
                        == SpecParse::<AnnounceView>::More(n as nat),
                    _ => parse_announce(buf@.skip(pos as int)) is Fail,
                },
            },
    {
        let ghost s = buf@.skip(pos as int);
        proof {
            reveal(parse_announce);
        }
        let (namespace, p1) = decode_bytes(buf, pos)?;
        proof {
            assert(s.skip((p1 - pos) as int) =~= buf@.skip(p1 as int));
        }
        let (params, p2) = Params::decode(buf, p1)?;
        Ok((Announce { namespace: namespace, params: params }, p2))
    }
}

impl AnnounceOkView {
    /// The body bytes of this message.
    pub open spec fn spec_body(self) -> Seq<u8> {
        spec_encode_bytes(self.namespace)
    }

    /// Every field fits its wire form.
    pub open spec fn wf(self) -> bool {
        self.namespace.len() < 0x4000_0000_0000_0000
    }
}

/// Parse the body of a `AnnounceOk` from the front of `s`.
#[verifier::opaque]
pub open spec fn parse_announce_ok(s: Seq<u8>) -> SpecParse<AnnounceOkView> {
    match parse_bytes(s) {
        SpecParse::Val(namespace, n1) =>
        SpecParse::Val(
            AnnounceOkView { namespace: namespace },
            n1,
        ),
        SpecParse::More(k) => SpecParse::More(k),
        SpecParse::Fail => SpecParse::Fail,
    }
}

/// An encoded `AnnounceOk` body parses back to itself, whatever follows it.
#[verifier::rlimit(100)]
#[verifier::spinoff_prover]
pub proof fn lemma_parse_encode_announce_ok(v: AnnounceOkView, rest: Seq<u8>)
    requires
        v.wf(),
    ensures
        parse_announce_ok(v.spec_body() + rest) == SpecParse::Val(v, v.spec_body().len()),
{
    reveal(parse_announce_ok);
    let e1 = spec_encode_bytes(v.namespace);
    let s = v.spec_body() + rest;
    assert(s =~= e1 + (rest));
    crate::coding::lemma_parse_encode_bytes(v.namespace, rest);
}

impl AnnounceOk {
    /// Append the body of this message to `buf`; fails exactly when a
    /// field is outside its wire range.
    pub fn encode(&self, buf: &mut Vec<u8>) -> (r: Result<(), BoundsExceeded>)
        ensures
            r is Ok ==> final(buf)@ == old(buf)@ + self@.spec_body() && self@.wf(),
            r is Err ==> !self@.wf(),
    {
        let ghost buf0 = buf@;
        if encode_bytes(buf, &self.namespace).is_err() {
            return Err(BoundsExceeded);
        }
        proof {
            assert(buf@ =~= buf0 + self@.spec_body());
        }
        Ok(())
    }

    /// Decode the body of this message from `buf` at `pos`.
    pub fn decode(buf: &Vec<u8>, pos: usize) -> (r: Result<(AnnounceOk, usize), DecodeError>)
        requires
            pos <= buf.len(),
        ensures
            match r {
                Ok((m, end)) => parse_announce_ok(buf@.skip(pos as int))
                    == SpecParse::Val(m@, (end - pos) as nat)
                    && pos <= end <= buf.len(),
                Err(e) => match e {
                    DecodeError::More(n) => n > 0 && parse_announce_ok(buf@.skip(pos as int))
                        == SpecParse::<AnnounceOkView>::More(n as nat),
                    _ => parse_announce_ok(buf@.skip(pos as int)) is Fail,
                },
            },
    {
        let ghost s = buf@.skip(pos as int);
        proof {
            reveal(parse_announce_ok);
        }
        let (namespace, p1) = decode_bytes(buf, pos)?;
        Ok((AnnounceOk { namespace: namespace }, p1))
    }
}

impl AnnounceErrorView {
    /// The body bytes of this message.
    pub open spec fn spec_body(self) -> Seq<u8> {
        spec_encode_bytes(self.namespace) + spec_encode_varint(self.code as nat) + spec_encode_bytes(self.reason)
    }

    /// Every field fits its wire form.
    pub open spec fn wf(self) -> bool {
        &&& self.namespace.len() < 0x4000_0000_0000_0000
        &&& self.code < 0x4000_0000_0000_0000
        &&& self.reason.len() < 0x4000_0000_0000_0000
    }
}

/// Parse the body of a `AnnounceError` from the front of `s`.
#[verifier::opaque]
pub open spec fn parse_announce_error(s: Seq<u8>) -> SpecParse<AnnounceErrorView> {
    match parse_bytes(s) {
        SpecParse::Val(namespace, n1) =>
        match parse_varint(s.skip(n1 as int)) {
            SpecParse::Val(code, n2) =>
            match parse_bytes(s.skip(n1 as int + n2 as int)) {
                SpecParse::Val(reason, n3) =>
                SpecParse::Val(
                    AnnounceErrorView { namespace: namespace, code: (code as u64), reason: reason },
                    n1 + n2 + n3,
                ),
                SpecParse::More(k) => SpecParse::More(k),
                SpecParse::Fail => SpecParse::Fail,
            },
            SpecParse::More(k) => SpecParse::More(k),
            SpecParse::Fail => SpecParse::Fail,
        },
        SpecParse::More(k) => SpecParse::More(k),
        SpecParse::Fail => SpecParse::Fail,
    }
}

/// An encoded `AnnounceError` body parses back to itself, whatever follows it.
#[verifier::rlimit(100)]
#[verifier::spinoff_prover]
pub proof fn lemma_parse_encode_announce_error(v: AnnounceErrorView, rest: Seq<u8>)
    requires
        v.wf(),
    ensures
        parse_announce_error(v.spec_body() + rest) == SpecParse::Val(v, v.spec_body().len()),
{
    reveal(parse_announce_error);
    let e1 = spec_encode_bytes(v.namespace);
    let e2 = spec_encode_varint(v.code as nat);
    let e3 = spec_encode_bytes(v.reason);
    let s = v.spec_body() + rest;
    assert(s =~= e1 + (e2 + (e3 + (rest))));
    crate::coding::lemma_parse_encode_bytes(v.namespace, e2 + (e3 + (rest)));
    assert(s.skip(e1.len() as int) =~= e2 + (e3 + (rest)));
    crate::varint::lemma_parse_encode_varint(v.code as nat, e3 + (rest));
    assert(s.skip(e1.len() as int + e2.len() as int) =~= e3 + (rest));
    crate::coding::lemma_parse_encode_bytes(v.reason, rest);
}

impl AnnounceError {
    /// Append the body of this message to `buf`; fails exactly when a
    /// field is outside its wire range.
    pub fn encode(&self, buf: &mut Vec<u8>) -> (r: Result<(), BoundsExceeded>)
        ensures
            r is Ok ==> final(buf)@ == old(buf)@ + self@.spec_body() && self@.wf(),
            r is Err ==> !self@.wf(),
    {
        let ghost buf0 = buf@;
        if encode_bytes(buf, &self.namespace).is_err() {
            return Err(BoundsExceeded);
        }
        if VarInt(self.code).encode(buf).is_err() {
            return Err(BoundsExceeded);
        }
        if encode_bytes(buf, &self.reason).is_err() {
            return Err(BoundsExceeded);
        }
        proof {
            assert(buf@ =~= buf0 + self@.spec_body());
        }
        Ok(())
    }

    /// Decode the body of this message from `buf` at `pos`.
    pub fn decode(buf: &Vec<u8>, pos: usize) -> (r: Result<(AnnounceError, usize), DecodeError>)
        requires
            pos <= buf.len(),
        ensures
            match r {
                Ok((m, end)) => parse_announce_error(buf@.skip(pos as int))
                    == SpecParse::Val(m@, (end - pos) as nat)
                    && pos <= end <= buf.len(),
                Err(e) => match e {
                    DecodeError::More(n) => n > 0 && parse_announce_error(buf@.skip(pos as int))
                        == SpecParse::<AnnounceErrorView>::More(n as nat),
                    _ => parse_announce_error(buf@.skip(pos as int)) is Fail,
                },
            },
    {
        let ghost s = buf@.skip(pos as int);
        proof {
            reveal(parse_announce_error);
        }
        let (namespace, p1) = decode_bytes(buf, pos)?;
        proof {
            assert(s.skip((p1 - pos) as int) =~= buf@.skip(p1 as int));
        }
        let (code, p2) = VarInt::decode(buf, p1)?;
        proof {
            assert(s.skip((p2 - pos) as int) =~= buf@.skip(p2 as int));
        }
        let (reason, p3) = decode_bytes(buf, p2)?;
        Ok((AnnounceError { namespace: namespace, code: code.0, reason: reason }, p3))
    }
}

impl AnnounceCancelView {
    /// The body bytes of this message.
    pub open spec fn spec_body(self) -> Seq<u8> {
        spec_encode_bytes(self.namespace)
    }

    /// Every field fits its wire form.
    pub open spec fn wf(self) -> bool {
        self.namespace.len() < 0x4000_0000_0000_0000
    }
}

/// Parse the body of a `AnnounceCancel` from the front of `s`.
#[verifier::opaque]
pub open spec fn parse_announce_cancel(s: Seq<u8>) -> SpecParse<AnnounceCancelView> {
    match parse_bytes(s) {
        SpecParse::Val(namespace, n1) =>
        SpecParse::Val(
            AnnounceCancelView { namespace: namespace },
            n1,
        ),
        SpecParse::More(k) => SpecParse::More(k),
        SpecParse::Fail => SpecParse::Fail,
    }
}

/// An encoded `AnnounceCancel` body parses back to itself, whatever follows it.
#[verifier::rlimit(100)]
#[verifier::spinoff_prover]
pub proof fn lemma_parse_encode_announce_cancel(v: AnnounceCancelView, rest: Seq<u8>)
    requires
        v.wf(),
    ensures
        parse_announce_cancel(v.spec_body() + rest) == SpecParse::Val(v, v.spec_body().len()),
{
    reveal(parse_announce_cancel);
    let e1 = spec_encode_bytes(v.namespace);
    let s = v.spec_body() + rest;
    assert(s =~= e1 + (rest));
    crate::coding::lemma_parse_encode_bytes(v.namespace, rest);
}

impl AnnounceCancel {
    /// Append the body of this message to `buf`; fails exactly when a
    /// field is outside its wire range.
    pub fn encode(&self, buf: &mut Vec<u8>) -> (r: Result<(), BoundsExceeded>)
        ensures
            r is Ok ==> final(buf)@ == old(buf)@ + self@.spec_body() && self@.wf(),
            r is Err ==> !self@.wf(),
    {
        let ghost buf0 = buf@;
        if encode_bytes(buf, &self.namespace).is_err() {
            return Err(BoundsExceeded);
        }
        proof {
            assert(buf@ =~= buf0 + self@.spec_body());
        }
        Ok(())
    }

    /// Decode the body of this message from `buf` at `pos`.
    pub fn decode(buf: &Vec<u8>, pos: usize) -> (r: Result<(AnnounceCancel, usize), DecodeError>)
        requires
            pos <= buf.len(),
        ensures
            match r {
                Ok((m, end)) => parse_announce_cancel(buf@.skip(pos as int))
                    == SpecParse::Val(m@, (end - pos) as nat)
                    && pos <= end <= buf.len(),
                Err(e) => match e {
                    DecodeError::More(n) => n > 0 && parse_announce_cancel(buf@.skip(pos as int))
                        == SpecParse::<AnnounceCancelView>::More(n as nat),
                    _ => parse_announce_cancel(buf@.skip(pos as int)) is Fail,
                },
            },
    {
        let ghost s = buf@.skip(pos as int);
        proof {
            reveal(parse_announce_cancel);
        }
        let (namespace, p1) = decode_bytes(buf, pos)?;
        Ok((AnnounceCancel { namespace: namespace }, p1))
    }
}

impl UnannounceView {
    /// The body bytes of this message.
    pub open spec fn spec_body(self) -> Seq<u8> {
        spec_encode_bytes(self.namespace)
    }

    /// Every field fits its wire form.
    pub open spec fn wf(self) -> bool {
        self.namespace.len() < 0x4000_0000_0000_0000
    }
}

/// Parse the body of a `Unannounce` from the front of `s`.
#[verifier::opaque]
pub open spec fn parse_unannounce(s: Seq<u8>) -> SpecParse<UnannounceView> {
    match parse_bytes(s) {
        SpecParse::Val(namespace, n1) =>
        SpecParse::Val(
            UnannounceView { namespace: namespace },
            n1,
        ),
        SpecParse::More(k) => SpecParse::More(k),
        SpecParse::Fail => SpecParse::Fail,
    }
}

/// An encoded `Unannounce` body parses back to itself, whatever follows it.
#[verifier::rlimit(100)]
#[verifier::spinoff_prover]
pub proof fn lemma_parse_encode_unannounce(v: UnannounceView, rest: Seq<u8>)
    requires
        v.wf(),
    ensures
        parse_unannounce(v.spec_body() + rest) == SpecParse::Val(v, v.spec_body().len()),
{
    reveal(parse_unannounce);
    let e1 = spec_encode_bytes(v.namespace);
    let s = v.spec_body() + rest;
    assert(s =~= e1 + (rest));
    crate::coding::lemma_parse_encode_bytes(v.namespace, rest);
}

impl Unannounce {
    /// Append the body of this message to `buf`; fails exactly when a
    /// field is outside its wire range.
    pub fn encode(&self, buf: &mut Vec<u8>) -> (r: Result<(), BoundsExceeded>)
        ensures
            r is Ok ==> final(buf)@ == old(buf)@ + self@.spec_body() && self@.wf(),
            r is Err ==> !self@.wf(),
    {
        let ghost buf0 = buf@;
        if encode_bytes(buf, &self.namespace).is_err() {
            return Err(BoundsExceeded);
        }
        proof {
            assert(buf@ =~= buf0 + self@.spec_body());
        }
        Ok(())
    }

    /// Decode the body of this message from `buf` at `pos`.
    pub fn decode(buf: &Vec<u8>, pos: usize) -> (r: Result<(Unannounce, usize), DecodeError>)
        requires
            pos <= buf.len(),
        ensures
            match r {
                Ok((m, end)) => parse_unannounce(buf@.skip(pos as int))
                    == SpecParse::Val(m@, (end - pos) as nat)
                    && pos <= end <= buf.len(),
                Err(e) => match e {
                    DecodeError::More(n) => n > 0 && parse_unannounce(buf@.skip(pos as int))
                        == SpecParse::<UnannounceView>::More(n as nat),
                    _ => parse_unannounce(buf@.skip(pos as int)) is Fail,
                },
            },
    {
        let ghost s = buf@.skip(pos as int);
        proof {
            reveal(parse_unannounce);
        }
        let (namespace, p1) = decode_bytes(buf, pos)?;
        Ok((Unannounce { namespace: namespace }, p1))
    }
}

impl GoAwayView {
    /// The body bytes of this message.
    pub open spec fn spec_body(self) -> Seq<u8> {
        spec_encode_bytes(self.url)
    }

    /// Every field fits its wire form.
    pub open spec fn wf(self) -> bool {
        self.url.len() < 0x4000_0000_0000_0000
    }
}

/// Parse the body of a `GoAway` from the front of `s`.
#[verifier::opaque]
pub open spec fn parse_go_away(s: Seq<u8>) -> SpecParse<GoAwayView> {
    match parse_bytes(s) {
        SpecParse::Val(url, n1) =>
        SpecParse::Val(
            GoAwayView { url: url },
            n1,
        ),
        SpecParse::More(k) => SpecParse::More(k),
        SpecParse::Fail => SpecParse::Fail,
    }
}

/// An encoded `GoAway` body parses back to itself, whatever follows it.
#[verifier::rlimit(100)]
#[verifier::spinoff_prover]
pub proof fn lemma_parse_encode_go_away(v: GoAwayView, rest: Seq<u8>)
    requires
        v.wf(),
    ensures
        parse_go_away(v.spec_body() + rest) == SpecParse::Val(v, v.spec_body().len()),
{
    reveal(parse_go_away);
    let e1 = spec_encode_bytes(v.url);
    let s = v.spec_body() + rest;
    assert(s =~= e1 + (rest));
    crate::coding::lemma_parse_encode_bytes(v.url, rest);
}

impl GoAway {
    /// Append the body of this message to `buf`; fails exactly when a
    /// field is outside its wire range.
    pub fn encode(&self, buf: &mut Vec<u8>) -> (r: Result<(), BoundsExceeded>)
        ensures
            r is Ok ==> final(buf)@ == old(buf)@ + self@.spec_body() && self@.wf(),
            r is Err ==> !self@.wf(),
    {
        let ghost buf0 = buf@;
        if encode_bytes(buf, &self.url).is_err() {
            return Err(BoundsExceeded);
        }
        proof {
            assert(buf@ =~= buf0 + self@.spec_body());
        }
        Ok(())
    }

    /// Decode the body of this message from `buf` at `pos`.
    pub fn decode(buf: &Vec<u8>, pos: usize) -> (r: Result<(GoAway, usize), DecodeError>)
        requires
            pos <= buf.len(),
        ensures
            match r {
                Ok((m, end)) => parse_go_away(buf@.skip(pos as int))
                    == SpecParse::Val(m@, (end - pos) as nat)
                    && pos <= end <= buf.len(),
                Err(e) => match e {
                    DecodeError::More(n) => n > 0 && parse_go_away(buf@.skip(pos as int))
                        == SpecParse::<GoAwayView>::More(n as nat),
                    _ => parse_go_away(buf@.skip(pos as int)) is Fail,
                },
            },
    {
        let ghost s = buf@.skip(pos as int);
        proof {
            reveal(parse_go_away);
        }
        let (url, p1) = decode_bytes(buf, pos)?;
        Ok((GoAway { url: url }, p1))
    }
}


/// Any control message, as sent on the control stream.
#[derive(Clone, Debug, PartialEq)]
pub enum Message {
    SetupClient(SetupClient),
    SetupServer(SetupServer),
    Subscribe(Subscribe),
    SubscribeOk(SubscribeOk),
    SubscribeError(SubscribeError),
    SubscribeDone(SubscribeDone),
    Unsubscribe(Unsubscribe),
    Announce(Announce),
    AnnounceOk(AnnounceOk),
    AnnounceError(AnnounceError),
    AnnounceCancel(AnnounceCancel),
    Unannounce(Unannounce),
    GoAway(GoAway),
}

/// The mathematical value of a control message.
pub enum MessageView {
    SetupClient(SetupClientView),
    SetupServer(SetupServerView),
    Subscribe(SubscribeView),
    SubscribeOk(SubscribeOk),
    SubscribeError(SubscribeErrorView),
    SubscribeDone(SubscribeDoneView),
    Unsubscribe(Unsubscribe),
    Announce(AnnounceView),
    AnnounceOk(AnnounceOkView),
    AnnounceError(AnnounceErrorView),
    AnnounceCancel(AnnounceCancelView),
    Unannounce(UnannounceView),
    GoAway(GoAwayView),
}

impl View for Message {
    type V = MessageView;

    open spec fn view(&self) -> MessageView {
        match self {
            Message::SetupClient(m) => MessageView::SetupClient(m@),
            Message::SetupServer(m) => MessageView::SetupServer(m@),
            Message::Subscribe(m) => MessageView::Subscribe(m@),
            Message::SubscribeOk(m) => MessageView::SubscribeOk(m@),
            Message::SubscribeError(m) => MessageView::SubscribeError(m@),
            Message::SubscribeDone(m) => MessageView::SubscribeDone(m@),
            Message::Unsubscribe(m) => MessageView::Unsubscribe(m@),
            Message::Announce(m) => MessageView::Announce(m@),
            Message::AnnounceOk(m) => MessageView::AnnounceOk(m@),
            Message::AnnounceError(m) => MessageView::AnnounceError(m@),
            Message::AnnounceCancel(m) => MessageView::AnnounceCancel(m@),
            Message::Unannounce(m) => MessageView::Unannounce(m@),
            Message::GoAway(m) => MessageView::GoAway(m@),
        }
    }
}

impl MessageView {
    /// The type code that frames this message on the wire.
    pub open spec fn spec_type(self) -> u64 {
        match self {
            MessageView::SetupClient(_) => 0x40,
            MessageView::SetupServer(_) => 0x41,
            MessageView::Subscribe(_) => 0x03,
            MessageView::SubscribeOk(_) => 0x04,
            MessageView::SubscribeError(_) => 0x05,
            MessageView::SubscribeDone(_) => 0x0b,
            MessageView::Unsubscribe(_) => 0x0a,
            MessageView::Announce(_) => 0x06,
            MessageView::AnnounceOk(_) => 0x07,
            MessageView::AnnounceError(_) => 0x08,
            MessageView::AnnounceCancel(_) => 0x0c,
            MessageView::Unannounce(_) => 0x09,
            MessageView::GoAway(_) => 0x10,
        }
    }

    /// Every field of the message fits its wire form.
    pub open spec fn wf(self) -> bool {
        match self {
            MessageView::SetupClient(v) => v.wf(),
            MessageView::SetupServer(v) => v.wf(),
            MessageView::Subscribe(v) => v.wf(),
            MessageView::SubscribeOk(v) => v.wf(),
            MessageView::SubscribeError(v) => v.wf(),
            MessageView::SubscribeDone(v) => v.wf(),
            MessageView::Unsubscribe(v) => v.wf(),
            MessageView::Announce(v) => v.wf(),
            MessageView::AnnounceOk(v) => v.wf(),
            MessageView::AnnounceError(v) => v.wf(),
            MessageView::AnnounceCancel(v) => v.wf(),
            MessageView::Unannounce(v) => v.wf(),
            MessageView::GoAway(v) => v.wf(),
        }
    }

    /// The body bytes of this message.
    pub open spec fn spec_body(self) -> Seq<u8> {
        match self {
            MessageView::SetupClient(v) => v.spec_body(),
            MessageView::SetupServer(v) => v.spec_body(),
            MessageView::Subscribe(v) => v.spec_body(),
            MessageView::SubscribeOk(v) => v.spec_body(),
            MessageView::SubscribeError(v) => v.spec_body(),
            MessageView::SubscribeDone(v) => v.spec_body(),
            MessageView::Unsubscribe(v) => v.spec_body(),
            MessageView::Announce(v) => v.spec_body(),
            MessageView::AnnounceOk(v) => v.spec_body(),
            MessageView::AnnounceError(v) => v.spec_body(),
            MessageView::AnnounceCancel(v) => v.spec_body(),
            MessageView::Unannounce(v) => v.spec_body(),
            MessageView::GoAway(v) => v.spec_body(),
        }
    }

    /// The full wire form: `varint type || body`.
    pub open spec fn spec_bytes(self) -> Seq<u8> {
        spec_encode_varint(self.spec_type() as nat) + self.spec_body()
    }
}

/// Parse a framed control message from the front of `s`; an unknown type
/// code fails.
#[verifier::opaque]
pub open spec fn parse_message(s: Seq<u8>) -> SpecParse<MessageView> {
    match parse_varint(s) {
        SpecParse::Val(t, n0) =>
        if t == 0x40 {
            match parse_setup_client(s.skip(n0 as int)) {
                SpecParse::Val(m, n) => SpecParse::Val(MessageView::SetupClient(m), n0 + n),
                SpecParse::More(k) => SpecParse::More(k),
                SpecParse::Fail => SpecParse::Fail,
            }
        } else if t == 0x41 {
            match parse_setup_server(s.skip(n0 as int)) {
                SpecParse::Val(m, n) => SpecParse::Val(MessageView::SetupServer(m), n0 + n),
                SpecParse::More(k) => SpecParse::More(k),
                SpecParse::Fail => SpecParse::Fail,
            }
        } else if t == 0x03 {
            match parse_subscribe(s.skip(n0 as int)) {
                SpecParse::Val(m, n) => SpecParse::Val(MessageView::Subscribe(m), n0 + n),
                SpecParse::More(k) => SpecParse::More(k),
                SpecParse::Fail => SpecParse::Fail,
            }
        } else if t == 0x04 {
            match parse_subscribe_ok(s.skip(n0 as int)) {
                SpecParse::Val(m, n) => SpecParse::Val(MessageView::SubscribeOk(m), n0 + n),
                SpecParse::More(k) => SpecParse::More(k),
                SpecParse::Fail => SpecParse::Fail,
            }
        } else if t == 0x05 {
            match parse_subscribe_error(s.skip(n0 as int)) {
                SpecParse::Val(m, n) => SpecParse::Val(MessageView::SubscribeError(m), n0 + n),
                SpecParse::More(k) => SpecParse::More(k),
                SpecParse::Fail => SpecParse::Fail,
            }
        } else if t == 0x0b {
            match parse_subscribe_done(s.skip(n0 as int)) {
                SpecParse::Val(m, n) => SpecParse::Val(MessageView::SubscribeDone(m), n0 + n),
                SpecParse::More(k) => SpecParse::More(k),
                SpecParse::Fail => SpecParse::Fail,
            }
        } else if t == 0x0a {
            match parse_unsubscribe(s.skip(n0 as int)) {
                SpecParse::Val(m, n) => SpecParse::Val(MessageView::Unsubscribe(m), n0 + n),
                SpecParse::More(k) => SpecParse::More(k),
                SpecParse::Fail => SpecParse::Fail,
            }
        } else if t == 0x06 {
            match parse_announce(s.skip(n0 as int)) {
                SpecParse::Val(m, n) => SpecParse::Val(MessageView::Announce(m), n0 + n),
                SpecParse::More(k) => SpecParse::More(k),
                SpecParse::Fail => SpecParse::Fail,
            }
        } else if t == 0x07 {
            match parse_announce_ok(s.skip(n0 as int)) {
                SpecParse::Val(m, n) => SpecParse::Val(MessageView::AnnounceOk(m), n0 + n),
                SpecParse::More(k) => SpecParse::More(k),
                SpecParse::Fail => SpecParse::Fail,
            }
        } else if t == 0x08 {
            match parse_announce_error(s.skip(n0 as int)) {
                SpecParse::Val(m, n) => SpecParse::Val(MessageView::AnnounceError(m), n0 + n),
                SpecParse::More(k) => SpecParse::More(k),
                SpecParse::Fail => SpecParse::Fail,
            }
        } else if t == 0x0c {
            match parse_announce_cancel(s.skip(n0 as int)) {
                SpecParse::Val(m, n) => SpecParse::Val(MessageView::AnnounceCancel(m), n0 + n),
                SpecParse::More(k) => SpecParse::More(k),
                SpecParse::Fail => SpecParse::Fail,
            }
        } else if t == 0x09 {
            match parse_unannounce(s.skip(n0 as int)) {
                SpecParse::Val(m, n) => SpecParse::Val(MessageView::Unannounce(m), n0 + n),
                SpecParse::More(k) => SpecParse::More(k),
                SpecParse::Fail => SpecParse::Fail,
            }
        } else if t == 0x10 {
            match parse_go_away(s.skip(n0 as int)) {
                SpecParse::Val(m, n) => SpecParse::Val(MessageView::GoAway(m), n0 + n),
                SpecParse::More(k) => SpecParse::More(k),
                SpecParse::Fail => SpecParse::Fail,
            }
        } else {
            SpecParse::Fail
        },
        SpecParse::More(k) => SpecParse::More(k),
        SpecParse::Fail => SpecParse::Fail,
    }
}

/// Round-trip: an encoded control message parses back to itself, whatever
/// bytes follow it on the stream. The one excluded input is a client setup
/// carrying the PATH parameter (key 1), which the decoder rejects.
#[verifier::rlimit(100)]
#[verifier::spinoff_prover]
pub proof fn lemma_parse_encode_message(m: MessageView, rest: Seq<u8>)
    requires
        m.wf(),
        m matches MessageView::SetupClient(v) ==> !spec_params_has_key(v.params, 1),
    ensures
        parse_message(m.spec_bytes() + rest) == SpecParse::Val(m, m.spec_bytes().len()),
{
    reveal(parse_message);
    let e0 = spec_encode_varint(m.spec_type() as nat);
    let s = m.spec_bytes() + rest;
    crate::varint::lemma_parse_encode_varint(m.spec_type() as nat, m.spec_body() + rest);
    assert(s =~= e0 + (m.spec_body() + rest));
    assert(s.skip(e0.len() as int) =~= m.spec_body() + rest);
    match m {
        MessageView::SetupClient(v) => {
            lemma_parse_encode_setup_client(v, rest);
        },
        MessageView::SetupServer(v) => {
            lemma_parse_encode_setup_server(v, rest);
        },
        MessageView::Subscribe(v) => {
            lemma_parse_encode_subscribe(v, rest);
        },
        MessageView::SubscribeOk(v) => {
            lemma_parse_encode_subscribe_ok(v, rest);
        },
        MessageView::SubscribeError(v) => {
            lemma_parse_encode_subscribe_error(v, rest);
        },
        MessageView::SubscribeDone(v) => {
            lemma_parse_encode_subscribe_done(v, rest);
        },
        MessageView::Unsubscribe(v) => {
            lemma_parse_encode_unsubscribe(v, rest);
        },
        MessageView::Announce(v) => {
            lemma_parse_encode_announce(v, rest);
        },
        MessageView::AnnounceOk(v) => {
            lemma_parse_encode_announce_ok(v, rest);
        },
        MessageView::AnnounceError(v) => {
            lemma_parse_encode_announce_error(v, rest);
        },
        MessageView::AnnounceCancel(v) => {
            lemma_parse_encode_announce_cancel(v, rest);
        },
        MessageView::Unannounce(v) => {
            lemma_parse_encode_unannounce(v, rest);
        },
        MessageView::GoAway(v) => {
            lemma_parse_encode_go_away(v, rest);
        },
    }
}

impl Message {
    /// Append `varint type || body` to `buf`; fails exactly when a field
    /// is outside its wire range.
    pub fn encode(&self, buf: &mut Vec<u8>) -> (r: Result<(), BoundsExceeded>)
        ensures
            r is Ok ==> final(buf)@ == old(buf)@ + self@.spec_bytes() && self@.wf(),
            r is Err ==> !self@.wf(),
    {
        let ghost buf0 = buf@;
        match self {
            Message::SetupClient(m) => {
                let res = VarInt(0x40).encode(buf);
                assert(res is Ok);
                if m.encode(buf).is_err() {
                    return Err(BoundsExceeded);
                }
                proof {
                    assert(buf@ =~= buf0 + self@.spec_bytes());
                }
                Ok(())
            },
            Message::SetupServer(m) => {
                let res = VarInt(0x41).encode(buf);
                assert(res is Ok);
                if m.encode(buf).is_err() {
                    return Err(BoundsExceeded);
                }
                proof {
                    assert(buf@ =~= buf0 + self@.spec_bytes());
                }
                Ok(())
            },
            Message::Subscribe(m) => {
                let res = VarInt(0x03).encode(buf);
                assert(res is Ok);
                if m.encode(buf).is_err() {
                    return Err(BoundsExceeded);
                }
                proof {
                    assert(buf@ =~= buf0 + self@.spec_bytes());
                }
                Ok(())
            },
            Message::SubscribeOk(m) => {
                let res = VarInt(0x04).encode(buf);
                assert(res is Ok);
                if m.encode(buf).is_err() {
                    return Err(BoundsExceeded);
                }
                proof {
                    assert(buf@ =~= buf0 + self@.spec_bytes());
                }
                Ok(())
            },
            Message::SubscribeError(m) => {
                let res = VarInt(0x05).encode(buf);
                assert(res is Ok);
                if m.encode(buf).is_err() {
                    return Err(BoundsExceeded);
                }
                proof {
                    assert(buf@ =~= buf0 + self@.spec_bytes());
                }
                Ok(())
            },
            Message::SubscribeDone(m) => {
                let res = VarInt(0x0b).encode(buf);
                assert(res is Ok);
                if m.encode(buf).is_err() {
                    return Err(BoundsExceeded);
                }
                proof {
                    assert(buf@ =~= buf0 + self@.spec_bytes());
                }
                Ok(())
            },
            Message::Unsubscribe(m) => {
                let res = VarInt(0x0a).encode(buf);
                assert(res is Ok);
                if m.encode(buf).is_err() {
                    return Err(BoundsExceeded);
                }
                proof {
                    assert(buf@ =~= buf0 + self@.spec_bytes());
                }
                Ok(())
            },
            Message::Announce(m) => {
                let res = VarInt(0x06).encode(buf);
                assert(res is Ok);
                if m.encode(buf).is_err() {
                    return Err(BoundsExceeded);
                }
                proof {
                    assert(buf@ =~= buf0 + self@.spec_bytes());
                }
                Ok(())
            },
            Message::AnnounceOk(m) => {
                let res = VarInt(0x07).encode(buf);
                assert(res is Ok);
                if m.encode(buf).is_err() {
                    return Err(BoundsExceeded);
                }
                proof {
                    assert(buf@ =~= buf0 + self@.spec_bytes());
                }
                Ok(())
            },
            Message::AnnounceError(m) => {
                let res = VarInt(0x08).encode(buf);
                assert(res is Ok);
                if m.encode(buf).is_err() {
                    return Err(BoundsExceeded);
                }
                proof {
                    assert(buf@ =~= buf0 + self@.spec_bytes());
                }
                Ok(())
            },
            Message::AnnounceCancel(m) => {
                let res = VarInt(0x0c).encode(buf);
                assert(res is Ok);
                if m.encode(buf).is_err() {
                    return Err(BoundsExceeded);
                }
                proof {
                    assert(buf@ =~= buf0 + self@.spec_bytes());
                }
                Ok(())
            },
            Message::Unannounce(m) => {
                let res = VarInt(0x09).encode(buf);
                assert(res is Ok);
                if m.encode(buf).is_err() {
                    return Err(BoundsExceeded);
                }
                proof {
                    assert(buf@ =~= buf0 + self@.spec_bytes());
                }
                Ok(())
            },
            Message::GoAway(m) => {
                let res = VarInt(0x10).encode(buf);
                assert(res is Ok);
                if m.encode(buf).is_err() {
                    return Err(BoundsExceeded);
                }
                proof {
                    assert(buf@ =~= buf0 + self@.spec_bytes());
                }
                Ok(())
            },
        }
    }

    /// Decode a framed control message from `buf` at `pos`.
    #[verifier::rlimit(100)]
    #[verifier::spinoff_prover]
    pub fn decode(buf: &Vec<u8>, pos: usize) -> (r: Result<(Message, usize), DecodeError>)
        requires
            pos <= buf.len(),
        ensures
            match r {
                Ok((m, end)) => parse_message(buf@.skip(pos as int))
                    == SpecParse::Val(m@, (end - pos) as nat)
                    && pos <= end <= buf.len(),
                Err(e) => match e {
                    DecodeError::More(n) => n > 0 && parse_message(buf@.skip(pos as int))
                        == SpecParse::<MessageView>::More(n as nat),
                    _ => parse_message(buf@.skip(pos as int)) is Fail,
                },
            },
    {
        let ghost s = buf@.skip(pos as int);
        proof {
            reveal(parse_message);
        }
        let (t, p0) = VarInt::decode(buf, pos)?;
        proof {
            assert(s.skip((p0 - pos) as int) =~= buf@.skip(p0 as int));
        }
        if t.0 == 0x40 {
            let (m, end) = SetupClient::decode(buf, p0)?;
            Ok((Message::SetupClient(m), end))
        } else if t.0 == 0x41 {
            let (m, end) = SetupServer::decode(buf, p0)?;
            Ok((Message::SetupServer(m), end))
        } else if t.0 == 0x03 {
            let (m, end) = Subscribe::decode(buf, p0)?;
            Ok((Message::Subscribe(m), end))
        } else if t.0 == 0x04 {
            let (m, end) = SubscribeOk::decode(buf, p0)?;
            Ok((Message::SubscribeOk(m), end))
        } else if t.0 == 0x05 {
            let (m, end) = SubscribeError::decode(buf, p0)?;
            Ok((Message::SubscribeError(m), end))
        } else if t.0 == 0x0b {
            let (m, end) = SubscribeDone::decode(buf, p0)?;
            Ok((Message::SubscribeDone(m), end))
        } else if t.0 == 0x0a {
            let (m, end) = Unsubscribe::decode(buf, p0)?;
            Ok((Message::Unsubscribe(m), end))
        } else if t.0 == 0x06 {
            let (m, end) = Announce::decode(buf, p0)?;
            Ok((Message::Announce(m), end))
        } else if t.0 == 0x07 {
            let (m, end) = AnnounceOk::decode(buf, p0)?;
            Ok((Message::AnnounceOk(m), end))
        } else if t.0 == 0x08 {
            let (m, end) = AnnounceError::decode(buf, p0)?;
            Ok((Message::AnnounceError(m), end))
        } else if t.0 == 0x0c {
            let (m, end) = AnnounceCancel::decode(buf, p0)?;
            Ok((Message::AnnounceCancel(m), end))
        } else if t.0 == 0x09 {
            let (m, end) = Unannounce::decode(buf, p0)?;
            Ok((Message::Unannounce(m), end))
        } else if t.0 == 0x10 {
            let (m, end) = GoAway::decode(buf, p0)?;
            Ok((Message::GoAway(m), end))
        } else {
            Err(DecodeError::InvalidType(t.0))
        }
    }
}


} // verus!
