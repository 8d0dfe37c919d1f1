//! Data-stream headers, chunks and datagrams.
//!
//! Each unidirectional data stream starts with a header that fixes the mode
//! of everything after it: one stream for a whole track, one per group, or
//! one per object. A datagram carries the same addressing plus its payload
//! in a single packet.

use vstd::prelude::*;
use crate::coding::{DecodeError, SpecParse};
use crate::varint::{VarInt, BoundsExceeded, parse_varint, spec_encode_varint};

verus! {

/// Header of a stream that carries a whole track in order.
#[derive(Copy, Clone, Debug, PartialEq, Eq, Structural)]
pub struct TrackHeader {
    pub subscribe_id: u64,
    pub track_alias: u64,
    pub send_order: u64,
}

/// Header of a stream that carries one group.
#[derive(Copy, Clone, Debug, PartialEq, Eq, Structural)]
pub struct GroupHeader {
    pub subscribe_id: u64,
    pub track_alias: u64,
    pub group_id: u64,
    pub send_order: u64,
}

/// Header of a stream that carries a single object.
#[derive(Copy, Clone, Debug, PartialEq, Eq, Structural)]
pub struct ObjectHeader {
    pub subscribe_id: u64,
    pub track_alias: u64,
    pub group_id: u64,
    pub object_id: u64,
    pub send_order: u64,
}

/// Addressing of a datagram, without its payload.
#[derive(Copy, Clone, Debug, PartialEq, Eq, Structural)]
pub struct DatagramHeader {
    pub subscribe_id: u64,
    pub track_alias: u64,
    pub group_id: u64,
    pub object_id: u64,
    pub send_order: u64,
}

/// One object announced inside a track stream: its ids and payload size.
#[derive(Copy, Clone, Debug, PartialEq, Eq, Structural)]
pub struct TrackChunk {
    pub group_id: u64,
    pub object_id: u64,
    pub size: u64,
}

/// One object announced inside a group stream: its id and payload size.
#[derive(Copy, Clone, Debug, PartialEq, Eq, Structural)]
pub struct GroupChunk {
    pub object_id: u64,
    pub size: u64,
}

impl TrackHeader {
    /// The body bytes of this header.
    pub open spec fn spec_body(self) -> Seq<u8> {
        spec_encode_varint(self.subscribe_id as nat) + spec_encode_varint(self.track_alias as nat) + spec_encode_varint(self.send_order as nat)
    }

    /// Every field fits in a varint.
    pub open spec fn wf(self) -> bool {
        &&& self.subscribe_id < 0x4000_0000_0000_0000
        &&& self.track_alias < 0x4000_0000_0000_0000
        &&& self.send_order < 0x4000_0000_0000_0000
    }

    /// Append the body of this header to `buf`; fails exactly when a
    /// field is outside the varint range.
    pub fn encode(&self, buf: &mut Vec<u8>) -> (r: Result<(), BoundsExceeded>)
        ensures
            r is Ok ==> final(buf)@ == old(buf)@ + self.spec_body() && self.wf(),
            r is Err ==> !self.wf(),
    {
        let ghost buf0 = buf@;
        if VarInt(self.subscribe_id).encode(buf).is_err() {
            return Err(BoundsExceeded);
        }
        if VarInt(self.track_alias).encode(buf).is_err() {
            return Err(BoundsExceeded);
        }
        if VarInt(self.send_order).encode(buf).is_err() {
            return Err(BoundsExceeded);
        }
        proof {
            assert(buf@ =~= buf0 + self.spec_body());
        }
        Ok(())
    }

    /// Decode the body of this header from `buf` at `pos`.
    pub fn decode(buf: &Vec<u8>, pos: usize) -> (r: Result<(TrackHeader, usize), DecodeError>)
        requires
            pos <= buf.len(),
        ensures
            match r {
                Ok((h, end)) => parse_track_header(buf@.skip(pos as int))
                    == SpecParse::Val(h, (end - pos) as nat)
                    && pos <= end <= buf.len() && h.wf(),
                Err(e) => match e {
                    DecodeError::More(n) => n > 0 && parse_track_header(buf@.skip(pos as int))
                        == SpecParse::<TrackHeader>::More(n as nat),
                    _ => parse_track_header(buf@.skip(pos as int)) is Fail,
                },
            },
    {
        let ghost s = buf@.skip(pos as int);
        proof {
            reveal(parse_track_header);
        }
        let (subscribe_id, p1) = VarInt::decode(buf, pos)?;
        proof {
            assert(s.skip((p1 - pos) as int) =~= buf@.skip(p1 as int));
        }
        let (track_alias, p2) = VarInt::decode(buf, p1)?;
        proof {
            assert(s.skip((p2 - pos) as int) =~= buf@.skip(p2 as int));
        }
        let (send_order, p3) = VarInt::decode(buf, p2)?;
        Ok((TrackHeader { subscribe_id: subscribe_id.0, track_alias: track_alias.0, send_order: send_order.0 }, p3))
    }
}

/// Parse the body of a `TrackHeader` from the front of `s`.
#[verifier::opaque]
pub open spec fn parse_track_header(s: Seq<u8>) -> SpecParse<TrackHeader> {
    match parse_varint(s) {
        SpecParse::Val(subscribe_id, n1) =>
        match parse_varint(s.skip(n1 as int)) {
            SpecParse::Val(track_alias, n2) =>
            match parse_varint(s.skip(n1 as int + n2 as int)) {
                SpecParse::Val(send_order, n3) =>
                SpecParse::Val(
                    TrackHeader { subscribe_id: (subscribe_id as u64), track_alias: (track_alias as u64), send_order: (send_order as u64) },
                    n1 + n2 + n3,
                ),
                SpecParse::More(k) => SpecParse::More(k),
                SpecParse::Fail => SpecParse::Fail,
            },
            SpecParse::More(k) => SpecParse::More(k),
            SpecParse::Fail => SpecParse::Fail,
        },
        SpecParse::More(k) => SpecParse::More(k),
        SpecParse::Fail => SpecParse::Fail,
    }
}

/// An encoded `TrackHeader` body parses back to itself, whatever follows it.
#[verifier::rlimit(100)]
#[verifier::spinoff_prover]
pub proof fn lemma_parse_encode_track_header(v: TrackHeader, rest: Seq<u8>)
    requires
        v.wf(),
    ensures
        parse_track_header(v.spec_body() + rest) == SpecParse::Val(v, v.spec_body().len()),
{
    reveal(parse_track_header);
    let e1 = spec_encode_varint(v.subscribe_id as nat);
    let e2 = spec_encode_varint(v.track_alias as nat);
    let e3 = spec_encode_varint(v.send_order as nat);
    let s = v.spec_body() + rest;
    assert(s =~= e1 + (e2 + (e3 + (rest))));
    crate::varint::lemma_parse_encode_varint(v.subscribe_id as nat, e2 + (e3 + (rest)));
    assert(s.skip(e1.len() as int) =~= e2 + (e3 + (rest)));
    crate::varint::lemma_parse_encode_varint(v.track_alias as nat, e3 + (rest));
    assert(s.skip(e1.len() as int + e2.len() as int) =~= e3 + (rest));
    crate::varint::lemma_parse_encode_varint(v.send_order as nat, rest);
}

impl GroupHeader {
    /// The body bytes of this header.
    pub open spec fn spec_body(self) -> Seq<u8> {
        spec_encode_varint(self.subscribe_id as nat) + spec_encode_varint(self.track_alias as nat) + spec_encode_varint(self.group_id as nat) + spec_encode_varint(self.send_order as nat)
    }

    /// Every field fits in a varint.
    pub open spec fn wf(self) -> bool {
        &&& self.subscribe_id < 0x4000_0000_0000_0000
        &&& self.track_alias < 0x4000_0000_0000_0000
        &&& self.group_id < 0x4000_0000_0000_0000
        &&& self.send_order < 0x4000_0000_0000_0000
    }

    /// Append the body of this header to `buf`; fails exactly when a
    /// field is outside the varint range.
    pub fn encode(&self, buf: &mut Vec<u8>) -> (r: Result<(), BoundsExceeded>)
        ensures
            r is Ok ==> final(buf)@ == old(buf)@ + self.spec_body() && self.wf(),
            r is Err ==> !self.wf(),
    {
        let ghost buf0 = buf@;
        if VarInt(self.subscribe_id).encode(buf).is_err() {
            return Err(BoundsExceeded);
        }
        if VarInt(self.track_alias).encode(buf).is_err() {
            return Err(BoundsExceeded);
        }
        if VarInt(self.group_id).encode(buf).is_err() {
            return Err(BoundsExceeded);
        }
        if VarInt(self.send_order).encode(buf).is_err() {
            return Err(BoundsExceeded);
        }
        proof {
            assert(buf@ =~= buf0 + self.spec_body());
        }
        Ok(())
    }

    /// Decode the body of this header from `buf` at `pos`.
    pub fn decode(buf: &Vec<u8>, pos: usize) -> (r: Result<(GroupHeader, usize), DecodeError>)
        requires
            pos <= buf.len(),
        ensures
            match r {
                Ok((h, end)) => parse_group_header(buf@.skip(pos as int))
                    == SpecParse::Val(h, (end - pos) as nat)
                    && pos <= end <= buf.len() && h.wf(),
                Err(e) => match e {
                    DecodeError::More(n) => n > 0 && parse_group_header(buf@.skip(pos as int))
                        == SpecParse::<GroupHeader>::More(n as nat),
                    _ => parse_group_header(buf@.skip(pos as int)) is Fail,
                },
            },
    {
        let ghost s = buf@.skip(pos as int);
        proof {
            reveal(parse_group_header);
        }
        let (subscribe_id, p1) = VarInt::decode(buf, pos)?;
        proof {
            assert(s.skip((p1 - pos) as int) =~= buf@.skip(p1 as int));
        }
        let (track_alias, p2) = VarInt::decode(buf, p1)?;
        proof {
            assert(s.skip((p2 - pos) as int) =~= buf@.skip(p2 as int));
        }
        let (group_id, p3) = VarInt::decode(buf, p2)?;
        proof {
            assert(s.skip((p3 - pos) as int) =~= buf@.skip(p3 as int));
        }
        let (send_order, p4) = VarInt::decode(buf, p3)?;
        Ok((GroupHeader { subscribe_id: subscribe_id.0, track_alias: track_alias.0, group_id: group_id.0, send_order: send_order.0 }, p4))
    }
}

/// Parse the body of a `GroupHeader` from the front of `s`.
#[verifier::opaque]
pub open spec fn parse_group_header(s: Seq<u8>) -> SpecParse<GroupHeader> {
    match parse_varint(s) {
        SpecParse::Val(subscribe_id, n1) =>
        match parse_varint(s.skip(n1 as int)) {
            SpecParse::Val(track_alias, n2) =>
            match parse_varint(s.skip(n1 as int + n2 as int)) {
                SpecParse::Val(group_id, n3) =>
                match parse_varint(s.skip(n1 as int + n2 as int + n3 as int)) {
                    SpecParse::Val(send_order, n4) =>
                    SpecParse::Val(
                        GroupHeader { subscribe_id: (subscribe_id as u64), track_alias: (track_alias as u64), group_id: (group_id as u64), send_order: (send_order as u64) },
                        n1 + n2 + n3 + n4,
                    ),
                    SpecParse::More(k) => SpecParse::More(k),
                    SpecParse::Fail => SpecParse::Fail,
                },
                SpecParse::More(k) => SpecParse::More(k),
                SpecParse::Fail => SpecParse::Fail,
            },
            SpecParse::More(k) => SpecParse::More(k),
            SpecParse::Fail => SpecParse::Fail,
        },
        SpecParse::More(k) => SpecParse::More(k),
        SpecParse::Fail => SpecParse::Fail,
    }
}

/// An encoded `GroupHeader` body parses back to itself, whatever follows it.
#[verifier::rlimit(60)]
#[verifier::spinoff_prover]
pub proof fn lemma_parse_encode_group_header(v: GroupHeader, rest: Seq<u8>)
    requires
        v.wf(),
    ensures
        parse_group_header(v.spec_body() + rest) == SpecParse::Val(v, v.spec_body().len()),
{
    reveal(parse_group_header);
    let e1 = spec_encode_varint(v.subscribe_id as nat);
    let e2 = spec_encode_varint(v.track_alias as nat);
    let e3 = spec_encode_varint(v.group_id as nat);
    let e4 = spec_encode_varint(v.send_order as nat);
    let s = v.spec_body() + rest;
    assert(s =~= e1 + (e2 + (e3 + (e4 + (rest)))));
    crate::varint::lemma_parse_encode_varint(v.subscribe_id as nat, e2 + (e3 + (e4 + (rest))));
    assert(s.skip(e1.len() as int) =~= e2 + (e3 + (e4 + (rest))));
    crate::varint::lemma_parse_encode_varint(v.track_alias as nat, e3 + (e4 + (rest)));
    assert(s.skip(e1.len() as int + e2.len() as int) =~= e3 + (e4 + (rest)));
    crate::varint::lemma_parse_encode_varint(v.group_id as nat, e4 + (rest));
    assert(s.skip(e1.len() as int + e2.len() as int + e3.len() as int) =~= e4 + (rest));
    crate::varint::lemma_parse_encode_varint(v.send_order as nat, rest);
}

impl ObjectHeader {
    /// The body bytes of this header.
    pub open spec fn spec_body(self) -> Seq<u8> {
        spec_encode_varint(self.subscribe_id as nat) + spec_encode_varint(self.track_alias as nat) + spec_encode_varint(self.group_id as nat) + spec_encode_varint(self.object_id as nat) + spec_encode_varint(self.send_order as nat)
    }

    /// Every field fits in a varint.
    pub open spec fn wf(self) -> bool {
        &&& self.subscribe_id < 0x4000_0000_0000_0000
        &&& self.track_alias < 0x4000_0000_0000_0000
        &&& self.group_id < 0x4000_0000_0000_0000
        &&& self.object_id < 0x4000_0000_0000_0000
        &&& self.send_order < 0x4000_0000_0000_0000
    }

    /// Append the body of this header to `buf`; fails exactly when a
    /// field is outside the varint range.
    pub fn encode(&self, buf: &mut Vec<u8>) -> (r: Result<(), BoundsExceeded>)
        ensures
            r is Ok ==> final(buf)@ == old(buf)@ + self.spec_body() && self.wf(),
            r is Err ==> !self.wf(),
    {
        let ghost buf0 = buf@;
        if VarInt(self.subscribe_id).encode(buf).is_err() {
            return Err(BoundsExceeded);
        }
        if VarInt(self.track_alias).encode(buf).is_err() {
            return Err(BoundsExceeded);
        }
        if VarInt(self.group_id).encode(buf).is_err() {
            return Err(BoundsExceeded);
        }
        if VarInt(self.object_id).encode(buf).is_err() {
            return Err(BoundsExceeded);
        }
        if VarInt(self.send_order).encode(buf).is_err() {
            return Err(BoundsExceeded);
        }
        proof {
            assert(buf@ =~= buf0 + self.spec_body());
        }
        Ok(())
    }

    /// Decode the body of this header from `buf` at `pos`.
    pub fn decode(buf: &Vec<u8>, pos: usize) -> (r: Result<(ObjectHeader, usize), DecodeError>)
        requires
            pos <= buf.len(),
        ensures
            match r {
                Ok((h, end)) => parse_object_header(buf@.skip(pos as int))
                    == SpecParse::Val(h, (end - pos) as nat)
                    && pos <= end <= buf.len() && h.wf(),
                Err(e) => match e {
                    DecodeError::More(n) => n > 0 && parse_object_header(buf@.skip(pos as int))
                        == SpecParse::<ObjectHeader>::More(n as nat),
                    _ => parse_object_header(buf@.skip(pos as int)) is Fail,
                },
            },
    {
        let ghost s = buf@.skip(pos as int);
        proof {
            reveal(parse_object_header);
        }
        let (subscribe_id, p1) = VarInt::decode(buf, pos)?;
        proof {
            assert(s.skip((p1 - pos) as int) =~= buf@.skip(p1 as int));
        }
        let (track_alias, p2) = VarInt::decode(buf, p1)?;
        proof {
            assert(s.skip((p2 - pos) as int) =~= buf@.skip(p2 as int));
        }
        let (group_id, p3) = VarInt::decode(buf, p2)?;
        proof {
            assert(s.skip((p3 - pos) as int) =~= buf@.skip(p3 as int));
        }
        let (object_id, p4) = VarInt::decode(buf, p3)?;
        proof {
            assert(s.skip((p4 - pos) as int) =~= buf@.skip(p4 as int));
        }
        let (send_order, p5) = VarInt::decode(buf, p4)?;
        Ok((ObjectHeader { subscribe_id: subscribe_id.0, track_alias: track_alias.0, group_id: group_id.0, object_id: object_id.0, send_order: send_order.0 }, p5))
    }
}

/// Parse the body of a `ObjectHeader` from the front of `s`.
#[verifier::opaque]
pub open spec fn parse_object_header(s: Seq<u8>) -> SpecParse<ObjectHeader> {
    match parse_varint(s) {
        SpecParse::Val(subscribe_id, n1) =>
        match parse_varint(s.skip(n1 as int)) {
            SpecParse::Val(track_alias, n2) =>
            match parse_varint(s.skip(n1 as int + n2 as int)) {
                SpecParse::Val(group_id, n3) =>
                match parse_varint(s.skip(n1 as int + n2 as int + n3 as int)) {
                    SpecParse::Val(object_id, n4) =>
                    match parse_varint(s.skip(n1 as int + n2 as int + n3 as int + n4 as int)) {
                        SpecParse::Val(send_order, n5) =>
                        SpecParse::Val(
                            ObjectHeader { subscribe_id: (subscribe_id as u64), track_alias: (track_alias as u64), group_id: (group_id as u64), object_id: (object_id as u64), send_order: (send_order as u64) },
                            n1 + n2 + n3 + n4 + n5,
                        ),
                        SpecParse::More(k) => SpecParse::More(k),
                        SpecParse::Fail => SpecParse::Fail,
                    },
                    SpecParse::More(k) => SpecParse::More(k),
                    SpecParse::Fail => SpecParse::Fail,
                },
                SpecParse::More(k) => SpecParse::More(k),
                SpecParse::Fail => SpecParse::Fail,
            },
            SpecParse::More(k) => SpecParse::More(k),
            SpecParse::Fail => SpecParse::Fail,
        },
        SpecParse::More(k) => SpecParse::More(k),
        SpecParse::Fail => SpecParse::Fail,
    }
}

/// An encoded `ObjectHeader` body parses back to itself, whatever follows it.
#[verifier::rlimit(100)]
#[verifier::spinoff_prover]
pub proof fn lemma_parse_encode_object_header(v: ObjectHeader, rest: Seq<u8>)
    requires
        v.wf(),
    ensures
        parse_object_header(v.spec_body() + rest) == SpecParse::Val(v, v.spec_body().len()),
{
    reveal(parse_object_header);
    let e1 = spec_encode_varint(v.subscribe_id as nat);
    let e2 = spec_encode_varint(v.track_alias as nat);
    let e3 = spec_encode_varint(v.group_id as nat);
    let e4 = spec_encode_varint(v.object_id as nat);
    let e5 = spec_encode_varint(v.send_order as nat);
    let s = v.spec_body() + rest;
    assert(s =~= e1 + (e2 + (e3 + (e4 + (e5 + (rest))))));
    crate::varint::lemma_parse_encode_varint(v.subscribe_id as nat, e2 + (e3 + (e4 + (e5 + (rest)))));
    assert(s.skip(e1.len() as int) =~= e2 + (e3 + (e4 + (e5 + (rest)))));
    crate::varint::lemma_parse_encode_varint(v.track_alias as nat, e3 + (e4 + (e5 + (rest))));
    assert(s.skip(e1.len() as int + e2.len() as int) =~= e3 + (e4 + (e5 + (rest))));
    crate::varint::lemma_parse_encode_varint(v.group_id as nat, e4 + (e5 + (rest)));
    assert(s.skip(e1.len() as int + e2.len() as int + e3.len() as int) =~= e4 + (e5 + (rest)));
    crate::varint::lemma_parse_encode_varint(v.object_id as nat, e5 + (rest));
    assert(s.skip(e1.len() as int + e2.len() as int + e3.len() as int + e4.len() as int) =~= e5 + (rest));
    crate::varint::lemma_parse_encode_varint(v.send_order as nat, rest);
}

impl DatagramHeader {
    /// The body bytes of this header.
    pub open spec fn spec_body(self) -> Seq<u8> {
        spec_encode_varint(self.subscribe_id as nat) + spec_encode_varint(self.track_alias as nat) + spec_encode_varint(self.group_id as nat) + spec_encode_varint(self.object_id as nat) + spec_encode_varint(self.send_order as nat)
    }

    /// Every field fits in a varint.
    pub open spec fn wf(self) -> bool {
        &&& self.subscribe_id < 0x4000_0000_0000_0000
        &&& self.track_alias < 0x4000_0000_0000_0000
        &&& self.group_id < 0x4000_0000_0000_0000
        &&& self.object_id < 0x4000_0000_0000_0000
        &&& self.send_order < 0x4000_0000_0000_0000
    }

    /// Append the body of this header to `buf`; fails exactly when a
    /// field is outside the varint range.
    pub fn encode(&self, buf: &mut Vec<u8>) -> (r: Result<(), BoundsExceeded>)
        ensures
            r is Ok ==> final(buf)@ == old(buf)@ + self.spec_body() && self.wf(),
            r is Err ==> !self.wf(),
    {
        let ghost buf0 = buf@;
        if VarInt(self.subscribe_id).encode(buf).is_err() {
            return Err(BoundsExceeded);
        }
        if VarInt(self.track_alias).encode(buf).is_err() {
            return Err(BoundsExceeded);
        }
        if VarInt(self.group_id).encode(buf).is_err() {
            return Err(BoundsExceeded);
        }
        if VarInt(self.object_id).encode(buf).is_err() {
            return Err(BoundsExceeded);
        }
        if VarInt(self.send_order).encode(buf).is_err() {
            return Err(BoundsExceeded);
        }
        proof {
            assert(buf@ =~= buf0 + self.spec_body());
        }
        Ok(())
    }

    /// Decode the body of this header from `buf` at `pos`.
    pub fn decode(buf: &Vec<u8>, pos: usize) -> (r: Result<(DatagramHeader, usize), DecodeError>)
        requires
            pos <= buf.len(),
        ensures
            match r {
                Ok((h, end)) => parse_datagram_header(buf@.skip(pos as int))
                    == SpecParse::Val(h, (end - pos) as nat)
                    && pos <= end <= buf.len() && h.wf(),
                Err(e) => match e {
                    DecodeError::More(n) => n > 0 && parse_datagram_header(buf@.skip(pos as int))
                        == SpecParse::<DatagramHeader>::More(n as nat),
                    _ => parse_datagram_header(buf@.skip(pos as int)) is Fail,
                },
            },
    {
        let ghost s = buf@.skip(pos as int);
        proof {
            reveal(parse_datagram_header);
        }
        let (subscribe_id, p1) = VarInt::decode(buf, pos)?;
        proof {
            assert(s.skip((p1 - pos) as int) =~= buf@.skip(p1 as int));
        }
        let (track_alias, p2) = VarInt::decode(buf, p1)?;
        proof {
            assert(s.skip((p2 - pos) as int) =~= buf@.skip(p2 as int));
        }
        let (group_id, p3) = VarInt::decode(buf, p2)?;
        proof {
            assert(s.skip((p3 - pos) as int) =~= buf@.skip(p3 as int));
        }
        let (object_id, p4) = VarInt::decode(buf, p3)?;
        proof {
            assert(s.skip((p4 - pos) as int) =~= buf@.skip(p4 as int));
        }
        let (send_order, p5) = VarInt::decode(buf, p4)?;
        Ok((DatagramHeader { subscribe_id: subscribe_id.0, track_alias: track_alias.0, group_id: group_id.0, object_id: object_id.0, send_order: send_order.0 }, p5))
    }
}

/// Parse the body of a `DatagramHeader` from the front of `s`.
#[verifier::opaque]
pub open spec fn parse_datagram_header(s: Seq<u8>) -> SpecParse<DatagramHeader> {
    match parse_varint(s) {
        SpecParse::Val(subscribe_id, n1) =>
        match parse_varint(s.skip(n1 as int)) {
            SpecParse::Val(track_alias, n2) =>
            match parse_varint(s.skip(n1 as int + n2 as int)) {
                SpecParse::Val(group_id, n3) =>
                match parse_varint(s.skip(n1 as int + n2 as int + n3 as int)) {
                    SpecParse::Val(object_id, n4) =>
                    match parse_varint(s.skip(n1 as int + n2 as int + n3 as int + n4 as int)) {
                        SpecParse::Val(send_order, n5) =>
                        SpecParse::Val(
                            DatagramHeader { subscribe_id: (subscribe_id as u64), track_alias: (track_alias as u64), group_id: (group_id as u64), object_id: (object_id as u64), send_order: (send_order as u64) },
                            n1 + n2 + n3 + n4 + n5,
                        ),
                        SpecParse::More(k) => SpecParse::More(k),
                        SpecParse::Fail => SpecParse::Fail,
                    },
                    SpecParse::More(k) => SpecParse::More(k),
                    SpecParse::Fail => SpecParse::Fail,
                },
                SpecParse::More(k) => SpecParse::More(k),
                SpecParse::Fail => SpecParse::Fail,
            },
            SpecParse::More(k) => SpecParse::More(k),
            SpecParse::Fail => SpecParse::Fail,
        },
        SpecParse::More(k) => SpecParse::More(k),
        SpecParse::Fail => SpecParse::Fail,
    }
}

/// An encoded `DatagramHeader` body parses back to itself, whatever follows it.
#[verifier::rlimit(100)]
#[verifier::spinoff_prover]
pub proof fn lemma_parse_encode_datagram_header(v: DatagramHeader, rest: Seq<u8>)
    requires
        v.wf(),
    ensures
        parse_datagram_header(v.spec_body() + rest) == SpecParse::Val(v, v.spec_body().len()),
{
    reveal(parse_datagram_header);
    let e1 = spec_encode_varint(v.subscribe_id as nat);
    let e2 = spec_encode_varint(v.track_alias as nat);
    let e3 = spec_encode_varint(v.group_id as nat);
    let e4 = spec_encode_varint(v.object_id as nat);
    let e5 = spec_encode_varint(v.send_order as nat);
    let s = v.spec_body() + rest;
    assert(s =~= e1 + (e2 + (e3 + (e4 + (e5 + (rest))))));
    crate::varint::lemma_parse_encode_varint(v.subscribe_id as nat, e2 + (e3 + (e4 + (e5 + (rest)))));
    assert(s.skip(e1.len() as int) =~= e2 + (e3 + (e4 + (e5 + (rest)))));
    crate::varint::lemma_parse_encode_varint(v.track_alias as nat, e3 + (e4 + (e5 + (rest))));
    assert(s.skip(e1.len() as int + e2.len() as int) =~= e3 + (e4 + (e5 + (rest))));
    crate::varint::lemma_parse_encode_varint(v.group_id as nat, e4 + (e5 + (rest)));
    assert(s.skip(e1.len() as int + e2.len() as int + e3.len() as int) =~= e4 + (e5 + (rest)));
    crate::varint::lemma_parse_encode_varint(v.object_id as nat, e5 + (rest));
    assert(s.skip(e1.len() as int + e2.len() as int + e3.len() as int + e4.len() as int) =~= e5 + (rest));
    crate::varint::lemma_parse_encode_varint(v.send_order as nat, rest);
}

impl TrackChunk {
    /// The body bytes of this header.
    pub open spec fn spec_body(self) -> Seq<u8> {
        spec_encode_varint(self.group_id as nat) + spec_encode_varint(self.object_id as nat) + spec_encode_varint(self.size as nat)
    }

    /// Every field fits in a varint.
    pub open spec fn wf(self) -> bool {
        &&& self.group_id < 0x4000_0000_0000_0000
        &&& self.object_id < 0x4000_0000_0000_0000
        &&& self.size < 0x4000_0000_0000_0000
    }

    /// Append the body of this header to `buf`; fails exactly when a
    /// field is outside the varint range.
    pub fn encode(&self, buf: &mut Vec<u8>) -> (r: Result<(), BoundsExceeded>)
        ensures
            r is Ok ==> final(buf)@ == old(buf)@ + self.spec_body() && self.wf(),
            r is Err ==> !self.wf(),
    {
        let ghost buf0 = buf@;
        if VarInt(self.group_id).encode(buf).is_err() {
            return Err(BoundsExceeded);
        }
        if VarInt(self.object_id).encode(buf).is_err() {
            return Err(BoundsExceeded);
        }
        if VarInt(self.size).encode(buf).is_err() {
            return Err(BoundsExceeded);
        }
        proof {
            assert(buf@ =~= buf0 + self.spec_body());
        }
        Ok(())
    }

    /// Decode the body of this header from `buf` at `pos`.
    pub fn decode(buf: &Vec<u8>, pos: usize) -> (r: Result<(TrackChunk, usize), DecodeError>)
        requires
            pos <= buf.len(),
        ensures
            match r {
                Ok((h, end)) => parse_track_chunk(buf@.skip(pos as int))
                    == SpecParse::Val(h, (end - pos) as nat)
                    && pos <= end <= buf.len() && h.wf(),
                Err(e) => match e {
                    DecodeError::More(n) => n > 0 && parse_track_chunk(buf@.skip(pos as int))
                        == SpecParse::<TrackChunk>::More(n as nat),
                    _ => parse_track_chunk(buf@.skip(pos as int)) is Fail,
                },
            },
    {
        let ghost s = buf@.skip(pos as int);
        proof {
            reveal(parse_track_chunk);
        }
        let (group_id, p1) = VarInt::decode(buf, pos)?;
        proof {
            assert(s.skip((p1 - pos) as int) =~= buf@.skip(p1 as int));
        }
        let (object_id, p2) = VarInt::decode(buf, p1)?;
        proof {
            assert(s.skip((p2 - pos) as int) =~= buf@.skip(p2 as int));
        }
        let (size, p3) = VarInt::decode(buf, p2)?;
        Ok((TrackChunk { group_id: group_id.0, object_id: object_id.0, size: size.0 }, p3))
    }
}

/// Parse the body of a `TrackChunk` from the front of `s`.
#[verifier::opaque]
pub open spec fn parse_track_chunk(s: Seq<u8>) -> SpecParse<TrackChunk> {
    match parse_varint(s) {
        SpecParse::Val(group_id, n1) =>
        match parse_varint(s.skip(n1 as int)) {
            SpecParse::Val(object_id, n2) =>
            match parse_varint(s.skip(n1 as int + n2 as int)) {
                SpecParse::Val(size, n3) =>
                SpecParse::Val(
                    TrackChunk { group_id: (group_id as u64), object_id: (object_id as u64), size: (size as u64) },
                    n1 + n2 + n3,
                ),
                SpecParse::More(k) => SpecParse::More(k),
                SpecParse::Fail => SpecParse::Fail,
            },
            SpecParse::More(k) => SpecParse::More(k),
            SpecParse::Fail => SpecParse::Fail,
        },
        SpecParse::More(k) => SpecParse::More(k),
        SpecParse::Fail => SpecParse::Fail,
    }
}

/// An encoded `TrackChunk` body parses back to itself, whatever follows it.
#[verifier::rlimit(100)]
#[verifier::spinoff_prover]
pub proof fn lemma_parse_encode_track_chunk(v: TrackChunk, rest: Seq<u8>)
    requires
        v.wf(),
    ensures
        parse_track_chunk(v.spec_body() + rest) == SpecParse::Val(v, v.spec_body().len()),
{
    reveal(parse_track_chunk);
    let e1 = spec_encode_varint(v.group_id as nat);
    let e2 = spec_encode_varint(v.object_id as nat);
    let e3 = spec_encode_varint(v.size as nat);
    let s = v.spec_body() + rest;
    assert(s =~= e1 + (e2 + (e3 + (rest))));
    crate::varint::lemma_parse_encode_varint(v.group_id as nat, e2 + (e3 + (rest)));
    assert(s.skip(e1.len() as int) =~= e2 + (e3 + (rest)));
    crate::varint::lemma_parse_encode_varint(v.object_id as nat, e3 + (rest));
    assert(s.skip(e1.len() as int + e2.len() as int) =~= e3 + (rest));
    crate::varint::lemma_parse_encode_varint(v.size as nat, rest);
}

impl GroupChunk {
    /// The body bytes of this header.
    pub open spec fn spec_body(self) -> Seq<u8> {
        spec_encode_varint(self.object_id as nat) + spec_encode_varint(self.size as nat)
    }

    /// Every field fits in a varint.
    pub open spec fn wf(self) -> bool {
        &&& self.object_id < 0x4000_0000_0000_0000
        &&& self.size < 0x4000_0000_0000_0000
    }

    /// Append the body of this header to `buf`; fails exactly when a
    /// field is outside the varint range.
    pub fn encode(&self, buf: &mut Vec<u8>) -> (r: Result<(), BoundsExceeded>)
        ensures
            r is Ok ==> final(buf)@ == old(buf)@ + self.spec_body() && self.wf(),
            r is Err ==> !self.wf(),
    {
        let ghost buf0 = buf@;
        if VarInt(self.object_id).encode(buf).is_err() {
            return Err(BoundsExceeded);
        }
        if VarInt(self.size).encode(buf).is_err() {
            return Err(BoundsExceeded);
        }
        proof {
            assert(buf@ =~= buf0 + self.spec_body());
        }
        Ok(())
    }

    /// Decode the body of this header from `buf` at `pos`.
    pub fn decode(buf: &Vec<u8>, pos: usize) -> (r: Result<(GroupChunk, usize), DecodeError>)
        requires
            pos <= buf.len(),
        ensures
            match r {
                Ok((h, end)) => parse_group_chunk(buf@.skip(pos as int))
                    == SpecParse::Val(h, (end - pos) as nat)
                    && pos <= end <= buf.len() && h.wf(),
                Err(e) => match e {
                    DecodeError::More(n) => n > 0 && parse_group_chunk(buf@.skip(pos as int))
                        == SpecParse::<GroupChunk>::More(n as nat),
                    _ => parse_group_chunk(buf@.skip(pos as int)) is Fail,
                },
            },
    {
        let ghost s = buf@.skip(pos as int);
        proof {
            reveal(parse_group_chunk);
        }
        let (object_id, p1) = VarInt::decode(buf, pos)?;
        proof {
            assert(s.skip((p1 - pos) as int) =~= buf@.skip(p1 as int));
        }
        let (size, p2) = VarInt::decode(buf, p1)?;
        Ok((GroupChunk { object_id: object_id.0, size: size.0 }, p2))
    }
}

/// Parse the body of a `GroupChunk` from the front of `s`.
#[verifier::opaque]
pub open spec fn parse_group_chunk(s: Seq<u8>) -> SpecParse<GroupChunk> {
    match parse_varint(s) {
        SpecParse::Val(object_id, n1) =>
        match parse_varint(s.skip(n1 as int)) {
            SpecParse::Val(size, n2) =>
            SpecParse::Val(
                GroupChunk { object_id: (object_id as u64), size: (size as u64) },
                n1 + n2,
            ),
            SpecParse::More(k) => SpecParse::More(k),
            SpecParse::Fail => SpecParse::Fail,
        },
        SpecParse::More(k) => SpecParse::More(k),
        SpecParse::Fail => SpecParse::Fail,
    }
}

/// An encoded `GroupChunk` body parses back to itself, whatever follows it.
#[verifier::rlimit(100)]
#[verifier::spinoff_prover]
pub proof fn lemma_parse_encode_group_chunk(v: GroupChunk, rest: Seq<u8>)
    requires
        v.wf(),
    ensures
        parse_group_chunk(v.spec_body() + rest) == SpecParse::Val(v, v.spec_body().len()),
{
    reveal(parse_group_chunk);
    let e1 = spec_encode_varint(v.object_id as nat);
    let e2 = spec_encode_varint(v.size as nat);
    let s = v.spec_body() + rest;
    assert(s =~= e1 + (e2 + (rest)));
    crate::varint::lemma_parse_encode_varint(v.object_id as nat, e2 + (rest));
    assert(s.skip(e1.len() as int) =~= e2 + (rest));
    crate::varint::lemma_parse_encode_varint(v.size as nat, rest);
}

/// The header at the front of a data stream, discriminating its mode.
#[derive(Copy, Clone, Debug, PartialEq, Eq, Structural)]
pub enum Header {
    Track(TrackHeader),
    Group(GroupHeader),
    Object(ObjectHeader),
    Datagram(DatagramHeader),
}

impl Header {
    /// The type code that frames this header on the wire.
    pub open spec fn spec_type(self) -> u64 {
        match self {
            Header::Object(_) => 0x0,
            Header::Datagram(_) => 0x1,
            Header::Track(_) => 0x50,
            Header::Group(_) => 0x51,
        }
    }

    /// Every field fits in a varint.
    pub open spec fn wf(self) -> bool {
        match self {
            Header::Track(h) => h.wf(),
            Header::Group(h) => h.wf(),
            Header::Object(h) => h.wf(),
            Header::Datagram(h) => h.wf(),
        }
    }

    /// The body bytes of this header.
    pub open spec fn spec_body(self) -> Seq<u8> {
        match self {
            Header::Track(h) => h.spec_body(),
            Header::Group(h) => h.spec_body(),
            Header::Object(h) => h.spec_body(),
            Header::Datagram(h) => h.spec_body(),
        }
    }

    /// The full wire form: `varint type || body`.
    pub open spec fn spec_bytes(self) -> Seq<u8> {
        spec_encode_varint(self.spec_type() as nat) + self.spec_body()
    }

    /// The subscription this stream belongs to.
    pub fn subscribe_id(&self) -> (id: u64)
        ensures
            id == self.spec_subscribe_id(),
    {
        match self {
            Header::Track(h) => h.subscribe_id,
            Header::Group(h) => h.subscribe_id,
            Header::Object(h) => h.subscribe_id,
            Header::Datagram(h) => h.subscribe_id,
        }
    }

    pub open spec fn spec_subscribe_id(self) -> u64 {
        match self {
            Header::Track(h) => h.subscribe_id,
            Header::Group(h) => h.subscribe_id,
            Header::Object(h) => h.subscribe_id,
            Header::Datagram(h) => h.subscribe_id,
        }
    }

    /// Append `varint type || body` to `buf`; fails exactly when a field is
    /// outside the varint range.
    pub fn encode(&self, buf: &mut Vec<u8>) -> (r: Result<(), BoundsExceeded>)
        ensures
            r is Ok ==> final(buf)@ == old(buf)@ + self.spec_bytes() && self.wf(),
            r is Err ==> !self.wf(),
    {
        let ghost buf0 = buf@;
        match self {
            Header::Track(h) => {
                let res = VarInt(0x50).encode(buf);
                assert(res is Ok);
                if h.encode(buf).is_err() {
                    return Err(BoundsExceeded);
                }
            },
            Header::Group(h) => {
                let res = VarInt(0x51).encode(buf);
                assert(res is Ok);
                if h.encode(buf).is_err() {
                    return Err(BoundsExceeded);
                }
            },
            Header::Object(h) => {
                let res = VarInt(0x0).encode(buf);
                assert(res is Ok);
                if h.encode(buf).is_err() {
                    return Err(BoundsExceeded);
                }
            },
            Header::Datagram(h) => {
                let res = VarInt(0x1).encode(buf);
                assert(res is Ok);
                if h.encode(buf).is_err() {
                    return Err(BoundsExceeded);
                }
            },
        }
        proof {
            assert(buf@ =~= buf0 + self.spec_bytes());
        }
        Ok(())
    }

    /// Decode a framed data header from `buf` at `pos`.
    pub fn decode(buf: &Vec<u8>, pos: usize) -> (r: Result<(Header, usize), DecodeError>)
        requires
            pos <= buf.len(),
        ensures
            match r {
                Ok((h, end)) => parse_header(buf@.skip(pos as int))
                    == SpecParse::Val(h, (end - pos) as nat)
                    && pos <= end <= buf.len() && h.wf(),
                Err(e) => match e {
                    DecodeError::More(n) => n > 0 && parse_header(buf@.skip(pos as int))
                        == SpecParse::<Header>::More(n as nat),
                    _ => parse_header(buf@.skip(pos as int)) is Fail,
                },
            },
    {
        let ghost s = buf@.skip(pos as int);
        proof {
            reveal(parse_header);
        }
        let (t, p0) = VarInt::decode(buf, pos)?;
        proof {
            assert(s.skip((p0 - pos) as int) =~= buf@.skip(p0 as int));
        }
        if t.0 == 0x0 {
            let (h, end) = ObjectHeader::decode(buf, p0)?;
            Ok((Header::Object(h), end))
        } else if t.0 == 0x1 {
            let (h, end) = DatagramHeader::decode(buf, p0)?;
            Ok((Header::Datagram(h), end))
        } else if t.0 == 0x50 {
            let (h, end) = TrackHeader::decode(buf, p0)?;
            Ok((Header::Track(h), end))
        } else if t.0 == 0x51 {
            let (h, end) = GroupHeader::decode(buf, p0)?;
            Ok((Header::Group(h), end))
        } else {
            Err(DecodeError::InvalidType(t.0))
        }
    }
}

/// Parse a framed data header from the front of `s`; an unknown type code
/// fails.
#[verifier::opaque]
pub open spec fn parse_header(s: Seq<u8>) -> SpecParse<Header> {
    match parse_varint(s) {
        SpecParse::Val(t, n0) => if t == 0x0 {
            match parse_object_header(s.skip(n0 as int)) {
                SpecParse::Val(h, n) => SpecParse::Val(Header::Object(h), n0 + n),
                SpecParse::More(k) => SpecParse::More(k),
                SpecParse::Fail => SpecParse::Fail,
            }
        } else if t == 0x1 {
            match parse_datagram_header(s.skip(n0 as int)) {
                SpecParse::Val(h, n) => SpecParse::Val(Header::Datagram(h), n0 + n),
                SpecParse::More(k) => SpecParse::More(k),
                SpecParse::Fail => SpecParse::Fail,
            }
        } else if t == 0x50 {
            match parse_track_header(s.skip(n0 as int)) {
                SpecParse::Val(h, n) => SpecParse::Val(Header::Track(h), n0 + n),
                SpecParse::More(k) => SpecParse::More(k),
                SpecParse::Fail => SpecParse::Fail,
            }
        } else if t == 0x51 {
            match parse_group_header(s.skip(n0 as int)) {
                SpecParse::Val(h, n) => SpecParse::Val(Header::Group(h), n0 + n),
                SpecParse::More(k) => SpecParse::More(k),
                SpecParse::Fail => SpecParse::Fail,
            }
        } else {
            SpecParse::Fail
        },
        SpecParse::More(k) => SpecParse::More(k),
        SpecParse::Fail => SpecParse::Fail,
    }
}

/// Round-trip: an encoded data header parses back to itself, whatever bytes
/// follow it on the stream.
#[verifier::rlimit(100)]
#[verifier::spinoff_prover]
pub proof fn lemma_parse_encode_header(h: Header, rest: Seq<u8>)
    requires
        h.wf(),
    ensures
        parse_header(h.spec_bytes() + rest) == SpecParse::Val(h, h.spec_bytes().len()),
{
    reveal(parse_header);
    let e0 = spec_encode_varint(h.spec_type() as nat);
    let s = h.spec_bytes() + rest;
    crate::varint::lemma_parse_encode_varint(h.spec_type() as nat, h.spec_body() + rest);
    assert(s =~= e0 + (h.spec_body() + rest));
    assert(s.skip(e0.len() as int) =~= h.spec_body() + rest);
    match h {
        Header::Track(v) => {
            lemma_parse_encode_track_header(v, rest);
        },
        Header::Group(v) => {
            lemma_parse_encode_group_header(v, rest);
        },
        Header::Object(v) => {
            lemma_parse_encode_object_header(v, rest);
        },
        Header::Datagram(v) => {
            lemma_parse_encode_datagram_header(v, rest);
        },
    }
}

/// A full datagram: addressing plus payload. The payload runs to the end of
/// the packet, with no length prefix.
#[derive(Clone, Debug, PartialEq)]
pub struct Datagram {
    pub header: DatagramHeader,
    pub payload: Vec<u8>,
}

pub struct DatagramView {
    pub header: DatagramHeader,
    pub payload: Seq<u8>,
}

impl View for Datagram {
    type V = DatagramView;

    open spec fn view(&self) -> DatagramView {
        DatagramView { header: self.header, payload: self.payload@ }
    }
}

impl DatagramView {
    /// The whole packet: `varint type || header || payload`.
    pub open spec fn spec_bytes(self) -> Seq<u8> {
        spec_encode_varint(1) + self.header.spec_body() + self.payload
    }
}

impl Datagram {
    /// Encode the whole packet into a fresh buffer.
    pub fn encode(&self) -> (r: Result<Vec<u8>, BoundsExceeded>)
        ensures
            match r {
                Ok(buf) => buf@ == self@.spec_bytes() && self.header.wf(),
                Err(_) => !self.header.wf(),
            },
    {
        let mut buf: Vec<u8> = Vec::new();
        let res = VarInt(1).encode(&mut buf);
        assert(res is Ok);
        if self.header.encode(&mut buf).is_err() {
            return Err(BoundsExceeded);
        }
        let mut i: usize = 0;
        while i < self.payload.len()
            invariant
                i <= self.payload.len(),
                buf@ == spec_encode_varint(1) + self.header.spec_body()
                    + self.payload@.take(i as int),
            decreases self.payload.len() - i,
        {
            buf.push(self.payload[i]);
            i = i + 1;
            assert(buf@ =~= spec_encode_varint(1) + self.header.spec_body()
                + self.payload@.take(i as int));
        }
        proof {
            assert(self.payload@.take(self.payload@.len() as int) =~= self.payload@);
        }
        Ok(buf)
    }

    /// Decode a whole packet: the payload is everything after the header.
    pub fn decode(buf: &Vec<u8>) -> (r: Result<Datagram, DecodeError>)
        ensures
            match r {
                Ok(d) => parse_header(buf@) matches SpecParse::Val(h, n)
                    && h == Header::Datagram(d.header) && d@.payload == buf@.skip(n as int),
                Err(_) => !(parse_header(buf@) matches SpecParse::Val(h, n)
                    && h is Datagram),
            },
    {
        proof {
            assert(buf@.skip(0) =~= buf@);
        }
        let (h, end) = match Header::decode(buf, 0) {
            Ok(v) => v,
            Err(_) => {
                return Err(DecodeError::InvalidValue);
            },
        };
        let dh = match h {
            Header::Datagram(dh) => dh,
            _ => {
                return Err(DecodeError::InvalidValue);
            },
        };
        let mut payload: Vec<u8> = Vec::new();
        let mut i: usize = end;
        while i < buf.len()
            invariant
                end <= i <= buf.len(),
                payload@ == buf@.subrange(end as int, i as int),
            decreases buf.len() - i,
        {
            payload.push(buf[i]);
            i = i + 1;
            assert(payload@ =~= buf@.subrange(end as int, i as int));
        }
        proof {
            assert(buf@.subrange(end as int, buf@.len() as int) =~= buf@.skip(end as int));
        }
        Ok(Datagram { header: dh, payload })
    }
}

} // verus!
