//! The subscriber side of a session: it issues subscriptions and
//! demultiplexes inbound data streams into track caches.
//!
//! Subscription ids are allocated from a monotonic counter, so they are
//! session-unique. Each inbound data stream names its subscription; its
//! decoded chunks are appended to the matching track in the mode the
//! stream's header selected. Within a group stream the object ids must
//! increase by exactly one, else the stream fails `OutOfOrder`.

use vstd::prelude::*;
use crate::data::{TrackHeader, GroupHeader, ObjectHeader, GroupChunk, TrackChunk};
use crate::error::Error;
use crate::group::Group;
use crate::message::{Message, Params, Subscribe, Unsubscribe};
use crate::object::ObjectInfo;
use crate::track::{Track, TrackState, Cache, DatagramInfo};
use crate::util::bytes_clone;

verus! {

/// The names a subscription asked for.
#[derive(Clone, Debug, PartialEq)]
pub struct SubscribeInfo {
    pub namespace: Vec<u8>,
    pub name: Vec<u8>,
}

/// One outstanding subscription: its id, names, the track cache its data
/// streams fill, and the group-stream bookkeeping.
pub struct Subscription {
    pub id: u64,
    pub info: SubscribeInfo,
    pub track: TrackState,
    /// Whether `SubscribeOk` arrived.
    pub ok: bool,
    /// The object id the current group stream must deliver next.
    pub next_group_object: u64,
    /// Whether the current group stream feeds the cache: a stream for a
    /// superseded group is drained without effect.
    pub group_active: bool,
}

/// The subscriber role state.
pub struct Subscriber {
    pub subscribes: Vec<Subscription>,
    /// The id the next subscription gets.
    pub next_id: u64,
    /// Control messages to hand to the session's send loop.
    pub outgoing: Vec<Message>,
}

/// The first subscription at or after `i` with `id`.
pub open spec fn spec_find_sub(s: Seq<Subscription>, id: u64, i: int) -> Option<int>
    decreases s.len() - i,
{
    if i < 0 || i >= s.len() {
        None
    } else if s[i].id == id {
        Some(i)
    } else {
        spec_find_sub(s, id, i + 1)
    }
}

fn find_sub(s: &Vec<Subscription>, id: u64, i: usize) -> (r: Option<usize>)
    requires
        i <= s.len(),
    ensures
        match r {
            Some(k) => spec_find_sub(s@, id, i as int) == Some(k as int) && k < s@.len(),
            None => spec_find_sub(s@, id, i as int) is None,
        },
    decreases s.len() - i,
{
    if i == s.len() {
        None
    } else if s[i].id == id {
        Some(i)
    } else {
        find_sub(s, id, i + 1)
    }
}

/// The newest object of a group-mode cache carries exactly `payload`
/// under object id `oid`.
pub open spec fn spec_last_group_object(c: Cache, payload: Seq<u8>, oid: u64) -> bool {
    c matches Cache::Group(g) && g.objects@.len() > 0
        && g.objects@.last().payload() == seq![payload]
        && g.objects@.last().info.object_id == oid
}

impl Subscription {
    /// The subscription's bookkeeping is consistent with its track.
    pub open spec fn wf(self) -> bool {
        &&& self.track.wf()
        &&& self.group_active ==> (self.track.cache matches Cache::Group(g)
            && g.next_object_id == self.next_group_object
            && g.next_object_id < 0xffff_ffff_ffff_ffff)
    }
}

impl Subscriber {
    /// Ids are unique and below the counter; every subscription is
    /// consistent.
    pub open spec fn wf(self) -> bool {
        &&& forall|i: int, j: int| 0 <= i < j < self.subscribes.len()
            ==> (#[trigger] self.subscribes[i]).id != (#[trigger] self.subscribes[j]).id
        &&& forall|i: int| 0 <= i < self.subscribes.len()
            ==> (#[trigger] self.subscribes[i]).id < self.next_id
        &&& forall|i: int| 0 <= i < self.subscribes.len()
            ==> (#[trigger] self.subscribes[i]).wf()
    }

    /// A fresh subscriber with no subscriptions.
    pub fn new() -> (s: Self)
        ensures
            s.subscribes@ == Seq::<Subscription>::empty(),
            s.next_id == 0,
            s.outgoing@ == Seq::<Message>::empty(),
            s.wf(),
    {
        Subscriber { subscribes: Vec::new(), next_id: 0, outgoing: Vec::new() }
    }

    /// Issue a subscription for one track: allocate the next id, create
    /// the track cache, and queue the `Subscribe` message.
    pub fn subscribe(&mut self, namespace: Vec<u8>, name: Vec<u8>) -> (r: u64)
        requires
            old(self).wf(),
            old(self).next_id < 0xffff_ffff_ffff_ffff,
        ensures
            final(self).wf(),
            r == old(self).next_id,
            final(self).next_id == old(self).next_id + 1,
            final(self).subscribes@.len() == old(self).subscribes@.len() + 1,
            final(self).subscribes@.take(old(self).subscribes@.len() as int)
                == old(self).subscribes@,
            final(self).subscribes@.last().id == r,
            final(self).subscribes@.last().info.namespace@ == namespace@,
            final(self).subscribes@.last().info.name@ == name@,
            final(self).subscribes@.last().track.cache is Init,
            final(self).subscribes@.last().track.closed is None,
            final(self).subscribes@.last().ok == false,
            final(self).outgoing@.len() == old(self).outgoing@.len() + 1,
            final(self).outgoing@.last() matches Message::Subscribe(m)
                && m.id == r && m.track_alias == r
                && m.namespace@ == namespace@ && m.name@ == name@,
    {
        let id = self.next_id;
        self.next_id = self.next_id + 1;
        let ghost pre = self.subscribes@;
        let msg = Message::Subscribe(Subscribe {
            id,
            track_alias: id,
            namespace: bytes_clone(&namespace),
            name: bytes_clone(&name),
            params: Params(Vec::new()),
        });
        let ns2 = bytes_clone(&namespace);
        let name2 = bytes_clone(&name);
        let (track, _reader) = Track { namespace: ns2, name: name2 }.produce();
        self.subscribes.push(Subscription {
            id,
            info: SubscribeInfo { namespace, name },
            track,
            ok: false,
            next_group_object: 0,
            group_active: false,
        });
        self.outgoing.push(msg);
        proof {
            assert(self.subscribes@.take(pre.len() as int) =~= pre);
        }
        id
    }

    /// The peer accepted a subscription: mark it acknowledged. Fails
    /// `NotFound` for an unknown id and `Duplicate` when already
    /// acknowledged.
    pub fn recv_subscribe_ok(&mut self, id: u64) -> (r: Result<(), Error>)
        requires
            old(self).wf(),
        ensures
            final(self).wf(),
            final(self).next_id == old(self).next_id,
            final(self).outgoing@ == old(self).outgoing@,
            match r {
                Ok(()) => spec_find_sub(old(self).subscribes@, id, 0) matches Some(i)
                    && old(self).subscribes@[i].ok == false
                    && final(self).subscribes@ == old(self).subscribes@.update(
                        i,
                        Subscription {
                            ok: true,
                            ..old(self).subscribes@[i]
                        },
                    ),
                Err(e) => {
                    &&& *final(self) == *old(self)
                    &&& e == Error::NotFound || e == Error::Duplicate
                    &&& e == Error::NotFound
                        ==> spec_find_sub(old(self).subscribes@, id, 0) is None
                    &&& e == Error::Duplicate
                        ==> (spec_find_sub(old(self).subscribes@, id, 0) matches Some(i)
                            && old(self).subscribes@[i].ok == true)
                },
            },
    {
        let i = match find_sub(&self.subscribes, id, 0) {
            Some(i) => i,
            None => {
                return Err(Error::NotFound);
            },
        };
        if self.subscribes[i].ok {
            return Err(Error::Duplicate);
        }
        self.subscribes[i].ok = true;
        Ok(())
    }

    /// The peer terminated a subscription: close its track with the
    /// peer's error and remove it. Fails `NotFound` for an unknown id.
    pub fn close_subscribe(&mut self, id: u64, err: Error) -> (r: Result<(), Error>)
        requires
            old(self).wf(),
        ensures
            final(self).wf(),
            final(self).next_id == old(self).next_id,
            final(self).outgoing@ == old(self).outgoing@,
            match r {
                Ok(()) => spec_find_sub(old(self).subscribes@, id, 0) matches Some(i)
                    && final(self).subscribes@ == old(self).subscribes@.remove(i),
                Err(e) => e == Error::NotFound && *final(self) == *old(self)
                    && spec_find_sub(old(self).subscribes@, id, 0) is None,
            },
    {
        let i = match find_sub(&self.subscribes, id, 0) {
            Some(i) => i,
            None => {
                return Err(Error::NotFound);
            },
        };
        let _ = self.subscribes[i].track.close(err);
        self.subscribes.remove(i);
        Ok(())
    }

    /// Withdraw a subscription, as dropping its handle does: queue
    /// `Unsubscribe` and remove it. Fails `NotFound` for an unknown id.
    pub fn unsubscribe(&mut self, id: u64) -> (r: Result<(), Error>)
        requires
            old(self).wf(),
        ensures
            final(self).wf(),
            final(self).next_id == old(self).next_id,
            match r {
                Ok(()) => spec_find_sub(old(self).subscribes@, id, 0) matches Some(i)
                    && final(self).subscribes@ == old(self).subscribes@.remove(i)
                    && final(self).outgoing@.len() == old(self).outgoing@.len() + 1
                    && (final(self).outgoing@.last() matches Message::Unsubscribe(m)
                        && m.id == id),
                Err(e) => e == Error::NotFound && *final(self) == *old(self)
                    && spec_find_sub(old(self).subscribes@, id, 0) is None,
            },
    {
        let i = match find_sub(&self.subscribes, id, 0) {
            Some(i) => i,
            None => {
                return Err(Error::NotFound);
            },
        };
        let mut sub = self.subscribes.remove(i);
        sub.track.handle_drop();
        self.outgoing.push(Message::Unsubscribe(Unsubscribe { id }));
        Ok(())
    }

    /// Borrow the track a subscription fills, for reading.
    pub fn track(&self, i: usize) -> (r: &TrackState)
        requires
            i < self.subscribes@.len(),
        ensures
            *r == self.subscribes@[i as int].track,
    {
        &self.subscribes[i].track
    }

    /// A group stream opened: lock the track into group mode and install
    /// the group, unless an equal id is already current (`Duplicate`, the
    /// stream is rejected) or a newer one is (the stream is drained
    /// without effect).
    pub fn recv_group_header(&mut self, header: GroupHeader) -> (r: Result<(), Error>)
        requires
            old(self).wf(),
        ensures
            final(self).wf(),
            final(self).next_id == old(self).next_id,
            final(self).outgoing@ == old(self).outgoing@,
            spec_find_sub(old(self).subscribes@, header.subscribe_id, 0) is None
                ==> r == Err::<(), Error>(Error::NotFound) && *final(self) == *old(self),
            spec_find_sub(old(self).subscribes@, header.subscribe_id, 0) matches Some(i)
                ==> ({
                    let t0 = old(self).subscribes@[i].track;
                    &&& (t0.closed matches Some(e0) ==> r == Err::<(), Error>(e0))
                    &&& t0.closed is None && t0.epoch < 0xffff_ffff_ffff_ffff ==> {
                        &&& t0.cache is Init ==> r is Ok
                        &&& t0.cache matches Cache::Group(g0) ==> {
                            &&& g0.group_id == header.group_id
                                ==> r == Err::<(), Error>(Error::Duplicate)
                            &&& g0.group_id != header.group_id ==> r is Ok
                        }
                        &&& !(t0.cache.family() is Init) && !(t0.cache.family() is Group)
                            ==> r == Err::<(), Error>(Error::Mode)
                    }
                    &&& match r {
                        Ok(()) => {
                            let sub = final(self).subscribes@[i];
                            &&& sub.next_group_object == 0
                            &&& sub.group_active == !(t0.cache matches Cache::Group(g0)
                                && g0.group_id > header.group_id)
                            &&& sub.group_active ==> (sub.track.cache matches Cache::Group(g)
                                && g.group_id == header.group_id
                                && g.priority == header.send_order
                                && g.objects@.len() == 0)
                            &&& !sub.group_active ==> sub.track.cache == t0.cache
                        },
                        Err(_) => !final(self).subscribes@[i].group_active
                            && final(self).subscribes@[i].track.cache == t0.cache
                            && final(self).subscribes@[i].track.closed == t0.closed,
                    }
                }),
    {
        let i = match find_sub(&self.subscribes, header.subscribe_id, 0) {
            Some(i) => i,
            None => {
                return Err(Error::NotFound);
            },
        };
        let sub = &mut self.subscribes[i];
        sub.group_active = false;
        match sub.track.closed {
            Some(e) => {
                return Err(e);
            },
            None => {},
        }
        if sub.track.epoch == 0xffff_ffff_ffff_ffff {
            return Err(Error::Mode);
        }
        let dropped = match sub.track.group_state() {
            Ok(g) => g.group_id > header.group_id,
            Err(_) => false,
        };
        let res = match sub.track.create_group(Group {
            group_id: header.group_id,
            priority: header.send_order,
        }) {
            Ok(()) => {
                sub.group_active = !dropped;
                sub.next_group_object = 0;
                Ok(())
            },
            Err(e) => {
                sub.group_active = false;
                Err(e)
            },
        };
        proof {
            assert forall|k: int| 0 <= k < self.subscribes@.len() && k != i
                implies #[trigger] self.subscribes@[k] == old(self).subscribes@[k] by {}
            assert(self.subscribes@[i as int].wf());
        }
        res
    }

    /// One object arrived on the current group stream. Its id must be
    /// exactly one past the previous object's — a skipped or repeated id
    /// fails `OutOfOrder`; a payload that does not match the announced
    /// size fails `Size`. A chunk for a superseded group is ignored.
    pub fn recv_group_chunk(&mut self, id: u64, chunk: GroupChunk, payload: Vec<u8>) -> (r:
        Result<(), Error>)
        requires
            old(self).wf(),
        ensures
            final(self).wf(),
            final(self).next_id == old(self).next_id,
            final(self).outgoing@ == old(self).outgoing@,
            spec_find_sub(old(self).subscribes@, id, 0) is None
                ==> r == Err::<(), Error>(Error::NotFound) && *final(self) == *old(self),
            spec_find_sub(old(self).subscribes@, id, 0) matches Some(i) ==> {
                let sub = old(self).subscribes@[i];
                &&& sub.group_active && chunk.object_id != sub.next_group_object
                    ==> r == Err::<(), Error>(Error::OutOfOrder) && *final(self) == *old(self)
                &&& sub.group_active && chunk.object_id == sub.next_group_object
                        && payload@.len() != chunk.size
                    ==> r == Err::<(), Error>(Error::Size) && *final(self) == *old(self)
                &&& !sub.group_active
                    ==> r == Ok::<(), Error>(()) && *final(self) == *old(self)
                &&& sub.group_active && chunk.object_id == sub.next_group_object
                        && payload@.len() == chunk.size
                    ==> (match r {
                        Ok(()) => final(self).subscribes@[i].next_group_object
                            == sub.next_group_object + 1
                            && spec_last_group_object(
                                final(self).subscribes@[i].track.cache,
                                payload@,
                                sub.next_group_object,
                            ),
                        Err(e) => e == Error::Done
                            && (sub.track.cache matches Cache::Group(g0)
                                && g0.closed is Some)
                            && final(self).subscribes@[i].track == sub.track
                            && !final(self).subscribes@[i].group_active,
                    })
            },
    {
        let i = match find_sub(&self.subscribes, id, 0) {
            Some(i) => i,
            None => {
                return Err(Error::NotFound);
            },
        };
        if !self.subscribes[i].group_active {
            return Ok(());
        }
        if chunk.object_id != self.subscribes[i].next_group_object {
            return Err(Error::OutOfOrder);
        }
        if payload.len() as u64 != chunk.size {
            return Err(Error::Size);
        }
        let sub = &mut self.subscribes[i];
        let res = match sub.track.group_write(payload) {
            Ok(()) => {
                sub.next_group_object = sub.next_group_object + 1;
                if sub.next_group_object == 0xffff_ffff_ffff_ffff {
                    sub.group_active = false;
                }
                Ok(())
            },
            Err(e) => {
                // The group was closed under us; stop feeding it.
                sub.group_active = false;
                Err(e)
            },
        };
        proof {
            assert forall|k: int| 0 <= k < self.subscribes@.len() && k != i
                implies #[trigger] self.subscribes@[k] == old(self).subscribes@[k] by {}
            assert(self.subscribes@[i as int].wf());
        }
        res
    }

    /// An object stream opened: merge an open object with no declared
    /// size into the object-mode cache; its bytes follow as chunks.
    pub fn recv_object_header(&mut self, header: ObjectHeader) -> (r: Result<(), Error>)
        requires
            old(self).wf(),
        ensures
            final(self).wf(),
            final(self).next_id == old(self).next_id,
            final(self).outgoing@ == old(self).outgoing@,
            spec_find_sub(old(self).subscribes@, header.subscribe_id, 0) is None
                ==> r == Err::<(), Error>(Error::NotFound) && *final(self) == *old(self),
            spec_find_sub(old(self).subscribes@, header.subscribe_id, 0) matches Some(i)
                ==> ({
                    let t0 = old(self).subscribes@[i].track;
                    &&& (t0.closed matches Some(e0) ==> r == Err::<(), Error>(e0))
                    &&& t0.closed is None && t0.epoch < 0xffff_ffff_ffff_ffff ==> {
                        &&& t0.cache.family() is Init || t0.cache.family() is Object
                            ==> r is Ok
                        &&& !(t0.cache.family() is Init) && !(t0.cache.family() is Object)
                            ==> r == Err::<(), Error>(Error::Mode)
                    }
                    &&& r is Ok && !crate::track::spec_drops_object(t0.cache, header.group_id)
                        ==> (final(self).subscribes@[i].track.cache matches Cache::Object(o)
                            && o.objects@.last().info.group_id == header.group_id
                            && o.objects@.last().info.object_id == header.object_id
                            && o.objects@.last().info.size is None
                            && o.objects@.last().spec_closed() is None)
                    &&& r is Ok && crate::track::spec_drops_object(t0.cache, header.group_id)
                        ==> final(self).subscribes@[i].track.cache == t0.cache
                    &&& r is Err ==> final(self).subscribes@[i].track == t0
                }),
    {
        let i = match find_sub(&self.subscribes, header.subscribe_id, 0) {
            Some(i) => i,
            None => {
                return Err(Error::NotFound);
            },
        };
        let sub = &mut self.subscribes[i];
        match sub.track.closed {
            Some(e) => {
                return Err(e);
            },
            None => {},
        }
        if sub.track.epoch == 0xffff_ffff_ffff_ffff {
            return Err(Error::Mode);
        }
        match sub.track.create_object(ObjectInfo {
            group_id: header.group_id,
            object_id: header.object_id,
            priority: header.send_order,
            size: None,
        }) {
            Ok(()) => Ok(()),
            Err(e) => Err(e),
        }
    }

    /// A chunk of an object stream arrived: append it to the newest object
    /// of the subscription's object-mode cache.
    pub fn recv_object_chunk(&mut self, id: u64, payload: Vec<u8>) -> (r: Result<(), Error>)
        requires
            old(self).wf(),
            spec_find_sub(old(self).subscribes@, id, 0) matches Some(i)
                ==> (old(self).subscribes@[i].track.cache matches Cache::Object(o)
                    ==> o.objects@.last().spec_written() + payload@.len() <= usize::MAX),
        ensures
            final(self).wf(),
            final(self).next_id == old(self).next_id,
            final(self).outgoing@ == old(self).outgoing@,
            spec_find_sub(old(self).subscribes@, id, 0) is None
                ==> r == Err::<(), Error>(Error::NotFound) && *final(self) == *old(self),
            spec_find_sub(old(self).subscribes@, id, 0) matches Some(i)
                ==> ({
                    let t0 = old(self).subscribes@[i].track;
                    &&& !(t0.cache is Object) ==> r == Err::<(), Error>(Error::Mode)
                        && final(self).subscribes@[i] == old(self).subscribes@[i]
                    &&& t0.cache matches Cache::Object(o0)
                        ==> (final(self).subscribes@[i].track.cache matches Cache::Object(o)
                            && o.objects@.len() == o0.objects@.len()
                            && match r {
                                Ok(()) => o0.objects@.last().spec_closed() is None
                                    && o.objects@.last().payload()
                                        == o0.objects@.last().payload().push(payload@),
                                Err(e) => o.objects@.last() == o0.objects@.last()
                                    && ((e == Error::Done
                                            && o0.objects@.last().spec_closed() is Some)
                                        || e == Error::Size),
                            })
                }),
    {
        let i = match find_sub(&self.subscribes, id, 0) {
            Some(i) => i,
            None => {
                return Err(Error::NotFound);
            },
        };
        let sub = &mut self.subscribes[i];
        let res = sub.track.object_chunk(payload);
        proof {
            assert forall|k: int| 0 <= k < self.subscribes@.len() && k != i
                implies #[trigger] self.subscribes@[k] == old(self).subscribes@[k] by {}
        }
        res
    }

    /// An object stream ended: close the newest object of the cache, as
    /// the writer's drop does.
    pub fn recv_object_end(&mut self, id: u64) -> (r: Result<(), Error>)
        requires
            old(self).wf(),
        ensures
            final(self).wf(),
            final(self).next_id == old(self).next_id,
            final(self).outgoing@ == old(self).outgoing@,
            spec_find_sub(old(self).subscribes@, id, 0) is None
                ==> r == Err::<(), Error>(Error::NotFound) && *final(self) == *old(self),
            spec_find_sub(old(self).subscribes@, id, 0) matches Some(i)
                ==> ({
                    let t0 = old(self).subscribes@[i].track;
                    &&& !(t0.cache is Object) ==> r == Err::<(), Error>(Error::Mode)
                        && final(self).subscribes@[i] == old(self).subscribes@[i]
                    &&& t0.cache is Object ==> r is Ok
                    &&& t0.cache matches Cache::Object(o0)
                        ==> (final(self).subscribes@[i].track.cache matches Cache::Object(o)
                            && o.objects@.len() == o0.objects@.len()
                            && o.objects@.last().payload() == o0.objects@.last().payload()
                            && (o0.objects@.last().spec_closed() is None
                                ==> o.objects@.last().spec_closed() is Some)
                            && (o0.objects@.last().spec_closed() is Some
                                ==> o.objects@.last() == o0.objects@.last()))
                }),
    {
        let i = match find_sub(&self.subscribes, id, 0) {
            Some(i) => i,
            None => {
                return Err(Error::NotFound);
            },
        };
        let sub = &mut self.subscribes[i];
        let res = sub.track.object_finish();
        proof {
            assert forall|k: int| 0 <= k < self.subscribes@.len() && k != i
                implies #[trigger] self.subscribes@[k] == old(self).subscribes@[k] by {}
        }
        res
    }

    /// A whole-track stream opened: lock the track into stream mode with
    /// the header's send order.
    pub fn recv_track_header(&mut self, header: TrackHeader) -> (r: Result<(), Error>)
        requires
            old(self).wf(),
        ensures
            final(self).wf(),
            final(self).next_id == old(self).next_id,
            final(self).outgoing@ == old(self).outgoing@,
            spec_find_sub(old(self).subscribes@, header.subscribe_id, 0) is None
                ==> r == Err::<(), Error>(Error::NotFound) && *final(self) == *old(self),
            spec_find_sub(old(self).subscribes@, header.subscribe_id, 0) matches Some(i)
                ==> ({
                    let t0 = old(self).subscribes@[i].track;
                    &&& (t0.closed matches Some(e0) ==> r == Err::<(), Error>(e0))
                    &&& t0.closed is None && t0.epoch < 0xffff_ffff_ffff_ffff ==> {
                        &&& t0.cache is Init ==> r is Ok
                        &&& !(t0.cache is Init) ==> r == Err::<(), Error>(Error::Mode)
                    }
                    &&& match r {
                        Ok(()) => t0.cache is Init
                            && (final(self).subscribes@[i].track.cache matches
                                Cache::Stream(s)
                                && s.priority == header.send_order
                                && s.groups@.len() == 0),
                        Err(_) => final(self).subscribes@[i].track == t0,
                    }
                }),
    {
        let i = match find_sub(&self.subscribes, header.subscribe_id, 0) {
            Some(i) => i,
            None => {
                return Err(Error::NotFound);
            },
        };
        let sub = &mut self.subscribes[i];
        match sub.track.closed {
            Some(e) => {
                return Err(e);
            },
            None => {},
        }
        if sub.track.epoch == 0xffff_ffff_ffff_ffff {
            return Err(Error::Mode);
        }
        match sub.track.create_stream(header.send_order) {
            Ok(()) => Ok(()),
            Err(e) => Err(e),
        }
    }

    /// One object arrived on a whole-track stream: append it to its group
    /// in the track's single ordered stream, creating the group first if
    /// the chunk opens one. A payload that does not match the announced
    /// size fails `Size`; a chunk for a group below the newest fails
    /// `Duplicate`. `OutOfOrder` marks only the machine limit on ids.
    pub fn recv_track_chunk(&mut self, id: u64, chunk: TrackChunk, payload: Vec<u8>) -> (r:
        Result<(), Error>)
        requires
            old(self).wf(),
        ensures
            final(self).wf(),
            final(self).next_id == old(self).next_id,
            final(self).outgoing@ == old(self).outgoing@,
            spec_find_sub(old(self).subscribes@, id, 0) is None
                ==> r == Err::<(), Error>(Error::NotFound) && *final(self) == *old(self),
            spec_find_sub(old(self).subscribes@, id, 0) matches Some(i)
                ==> ({
                    let t0 = old(self).subscribes@[i].track;
                    &&& payload@.len() != chunk.size
                        ==> r == Err::<(), Error>(Error::Size) && *final(self) == *old(self)
                    &&& payload@.len() == chunk.size && !(t0.cache is Stream)
                        ==> r == Err::<(), Error>(Error::Mode)
                            && final(self).subscribes@[i] == old(self).subscribes@[i]
                    &&& payload@.len() == chunk.size ==> (t0.cache matches Cache::Stream(s0)
                        ==> match r {
                            Ok(()) => final(self).subscribes@[i].track.cache matches
                                Cache::Stream(s)
                                && s.groups@.len() > 0
                                && s.groups@.last().group_id == chunk.group_id
                                && s.groups@.last().objects@.len() > 0
                                && s.groups@.last().objects@.last().payload()
                                    == seq![payload@],
                            Err(e) => {
                                &&& e == Error::Done || e == Error::Duplicate
                                    || e == Error::OutOfOrder
                                &&& e == Error::Done ==> s0.closed is Some
                                    || (s0.groups@.len() > 0
                                        && s0.groups@.last().closed is Some)
                                &&& e == Error::Duplicate
                                        && s0.groups@.len() < 0xffff_ffff_ffff_ffff
                                    ==> s0.groups@.len() > 0
                                        && s0.groups@.last().group_id > chunk.group_id
                            },
                        })
                }),
    {
        let i = match find_sub(&self.subscribes, id, 0) {
            Some(i) => i,
            None => {
                return Err(Error::NotFound);
            },
        };
        if payload.len() as u64 != chunk.size {
            return Err(Error::Size);
        }
        let sub = &mut self.subscribes[i];
        match &mut sub.track.cache {
            Cache::Stream(s) => {
                let needs_group = match s.latest() {
                    Some((g, _)) => g != chunk.group_id,
                    None => true,
                };
                if needs_group {
                    if s.groups.len() as u64 == 0xffff_ffff_ffff_ffff {
                        return Err(Error::Duplicate);
                    }
                    if let Err(e) = s.create(chunk.group_id) {
                        return Err(e);
                    }
                }
                let has_room = {
                    let n = s.groups.len();
                    n > 0 && s.groups[n - 1].next_object_id < 0xffff_ffff_ffff_ffff
                };
                if !has_room {
                    return Err(Error::OutOfOrder);
                }
                match s.group_write(payload) {
                    Ok(()) => Ok(()),
                    Err(e) => Err(e),
                }
            },
            _ => Err(Error::Mode),
        }
    }

    /// A datagram arrived: overwrite the track's most recent one.
    pub fn recv_datagram(&mut self, id: u64, datagram: DatagramInfo) -> (r: Result<(), Error>)
        requires
            old(self).wf(),
        ensures
            final(self).wf(),
            final(self).next_id == old(self).next_id,
            final(self).outgoing@ == old(self).outgoing@,
            spec_find_sub(old(self).subscribes@, id, 0) is None
                ==> r == Err::<(), Error>(Error::NotFound) && *final(self) == *old(self),
            spec_find_sub(old(self).subscribes@, id, 0) matches Some(i)
                ==> ({
                    let t0 = old(self).subscribes@[i].track;
                    &&& (t0.closed matches Some(e0) ==> r == Err::<(), Error>(e0))
                    &&& t0.closed is None && t0.epoch < 0xffff_ffff_ffff_ffff ==> {
                        &&& t0.cache is Init || t0.cache is Datagram ==> r is Ok
                        &&& !(t0.cache is Init) && !(t0.cache is Datagram)
                            ==> r == Err::<(), Error>(Error::Mode)
                    }
                    &&& match r {
                        Ok(()) => final(self).subscribes@[i].track.cache
                            == Cache::Datagram(datagram),
                        Err(_) => final(self).subscribes@[i].track == t0,
                    }
                }),
    {
        let i = match find_sub(&self.subscribes, id, 0) {
            Some(i) => i,
            None => {
                return Err(Error::NotFound);
            },
        };
        let sub = &mut self.subscribes[i];
        match sub.track.closed {
            Some(e) => {
                return Err(e);
            },
            None => {},
        }
        if sub.track.epoch == 0xffff_ffff_ffff_ffff {
            return Err(Error::Mode);
        }
        match sub.track.write_datagram(datagram) {
            Ok(()) => Ok(()),
            Err(e) => Err(e),
        }
    }
}

} // verus!
