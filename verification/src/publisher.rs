//! The publisher side of a session: it owns announces and serves inbound
//! subscriptions.
//!
//! An inbound subscribe whose namespace matches a local announce is routed
//! to it; otherwise it lands in the unmatched queue for the application.
//! Closing a served subscription emits `SubscribeDone` when it had been
//! accepted, `SubscribeError` otherwise, carrying the error's code and the
//! largest group/object pair served.

use vstd::prelude::*;
use crate::error::Error;
use crate::message::{Message, Params, SubscribeOk, SubscribeError, SubscribeDone, Announce,
    Unannounce};
use crate::util::bytes_clone;

verus! {

/// One announce owned by this publisher.
#[derive(Clone, Debug, PartialEq)]
pub struct AnnounceState {
    pub namespace: Vec<u8>,
    /// Whether the peer acknowledged it with `AnnounceOk`.
    pub ok: bool,
    pub closed: Option<Error>,
}

/// One inbound subscription this publisher serves.
#[derive(Clone, Debug, PartialEq)]
pub struct SubscribedState {
    pub id: u64,
    pub namespace: Vec<u8>,
    pub name: Vec<u8>,
    /// Whether `SubscribeOk` was sent.
    pub ok: bool,
    /// The largest group/object pair served so far.
    pub max: Option<(u64, u64)>,
    pub closed: Option<Error>,
}

/// The publisher role state.
pub struct Publisher {
    pub announces: Vec<AnnounceState>,
    pub subscribed: Vec<SubscribedState>,
    /// Positions in `subscribed` of inbound subscribes with no matching
    /// announce, for the application to reject or serve.
    pub unknown: Vec<usize>,
    /// Control messages to hand to the session's send loop.
    pub outgoing: Vec<Message>,
}

/// The first announce at or after `i` for `namespace`.
pub open spec fn spec_find_announce(s: Seq<AnnounceState>, namespace: Seq<u8>, i: int) -> Option<
    int,
>
    decreases s.len() - i,
{
    if i < 0 || i >= s.len() {
        None
    } else if s[i].namespace@ == namespace {
        Some(i)
    } else {
        spec_find_announce(s, namespace, i + 1)
    }
}

/// The first served subscription at or after `i` with `id`.
pub open spec fn spec_find_subscribed(s: Seq<SubscribedState>, id: u64, i: int) -> Option<int>
    decreases s.len() - i,
{
    if i < 0 || i >= s.len() {
        None
    } else if s[i].id == id {
        Some(i)
    } else {
        spec_find_subscribed(s, id, i + 1)
    }
}

fn find_announce(s: &Vec<AnnounceState>, namespace: &Vec<u8>, i: usize) -> (r: Option<usize>)
    requires
        i <= s.len(),
    ensures
        match r {
            Some(k) => spec_find_announce(s@, namespace@, i as int) == Some(k as int)
                && k < s@.len(),
            None => spec_find_announce(s@, namespace@, i as int) is None,
        },
    decreases s.len() - i,
{
    if i == s.len() {
        None
    } else if crate::util::bytes_eq(&s[i].namespace, namespace) {
        Some(i)
    } else {
        find_announce(s, namespace, i + 1)
    }
}

fn find_subscribed(s: &Vec<SubscribedState>, id: u64, i: usize) -> (r: Option<usize>)
    requires
        i <= s.len(),
    ensures
        match r {
            Some(k) => spec_find_subscribed(s@, id, i as int) == Some(k as int) && k < s@.len(),
            None => spec_find_subscribed(s@, id, i as int) is None,
        },
    decreases s.len() - i,
{
    if i == s.len() {
        None
    } else if s[i].id == id {
        Some(i)
    } else {
        find_subscribed(s, id, i + 1)
    }
}

/// The lexicographic maximum of a recorded pair and a newly served one,
/// with no recorded pair counting as smallest.
pub open spec fn spec_lex_max(max: Option<(u64, u64)>, group_id: u64, object_id: u64) -> Option<
    (u64, u64),
> {
    match max {
        None => Some((group_id, object_id)),
        Some((g, o)) => if group_id > g || (group_id == g && object_id > o) {
            Some((group_id, object_id))
        } else {
            Some((g, o))
        },
    }
}

impl Publisher {
    /// A fresh publisher with nothing announced and nothing served.
    pub fn new() -> (p: Self)
        ensures
            p.announces@ == Seq::<AnnounceState>::empty(),
            p.subscribed@ == Seq::<SubscribedState>::empty(),
            p.unknown@ == Seq::<usize>::empty(),
            p.outgoing@ == Seq::<Message>::empty(),
    {
        Publisher { announces: Vec::new(), subscribed: Vec::new(), unknown: Vec::new(),
            outgoing: Vec::new() }
    }

    /// Claim a namespace: fails `Duplicate` iff it is already announced;
    /// otherwise records the announce and queues the `Announce` message.
    pub fn announce(&mut self, namespace: Vec<u8>) -> (r: Result<(), Error>)
        ensures
            final(self).subscribed@ == old(self).subscribed@,
            final(self).unknown@ == old(self).unknown@,
            match r {
                Ok(()) => spec_find_announce(old(self).announces@, namespace@, 0) is None
                    && final(self).announces@.len() == old(self).announces@.len() + 1
                    && final(self).announces@.take(old(self).announces@.len() as int)
                        == old(self).announces@
                    && final(self).announces@.last().namespace@ == namespace@
                    && final(self).announces@.last().ok == false
                    && final(self).announces@.last().closed is None
                    && final(self).outgoing@.len() == old(self).outgoing@.len() + 1
                    && (final(self).outgoing@.last() matches Message::Announce(a)
                        && a.namespace@ == namespace@),
                Err(e) => e == Error::Duplicate && *final(self) == *old(self)
                    && spec_find_announce(old(self).announces@, namespace@, 0) is Some,
            },
    {
        if find_announce(&self.announces, &namespace, 0).is_some() {
            return Err(Error::Duplicate);
        }
        let ghost pre = self.announces@;
        let msg_ns = bytes_clone(&namespace);
        self.announces.push(AnnounceState { namespace, ok: false, closed: None });
        self.outgoing.push(Message::Announce(Announce {
            namespace: msg_ns,
            params: Params(Vec::new()),
        }));
        proof {
            assert(self.announces@.take(pre.len() as int) =~= pre);
        }
        Ok(())
    }

    /// Withdraw an announce, as dropping its handle does: removes it and
    /// queues `Unannounce`. Nothing happens for an unknown namespace.
    pub fn unannounce(&mut self, namespace: &Vec<u8>)
        ensures
            final(self).subscribed@ == old(self).subscribed@,
            final(self).unknown@ == old(self).unknown@,
            spec_find_announce(old(self).announces@, namespace@, 0) matches Some(i)
                ==> final(self).announces@ == old(self).announces@.remove(i)
                    && final(self).outgoing@.len() == old(self).outgoing@.len() + 1
                    && (final(self).outgoing@.last() matches Message::Unannounce(u)
                        && u.namespace@ == namespace@),
            spec_find_announce(old(self).announces@, namespace@, 0) is None
                ==> *final(self) == *old(self),
    {
        match find_announce(&self.announces, namespace, 0) {
            Some(i) => {
                self.announces.remove(i);
                self.outgoing.push(Message::Unannounce(Unannounce {
                    namespace: bytes_clone(namespace),
                }));
            },
            None => {},
        }
    }

    /// The peer acknowledged an announce; an unknown namespace is ignored.
    pub fn recv_announce_ok(&mut self, namespace: &Vec<u8>)
        ensures
            final(self).subscribed@ == old(self).subscribed@,
            final(self).unknown@ == old(self).unknown@,
            final(self).outgoing@ == old(self).outgoing@,
            spec_find_announce(old(self).announces@, namespace@, 0) matches Some(i)
                ==> final(self).announces@ == old(self).announces@.update(
                    i,
                    AnnounceState {
                        ok: true,
                        ..old(self).announces@[i]
                    },
                ),
            spec_find_announce(old(self).announces@, namespace@, 0) is None
                ==> *final(self) == *old(self),
    {
        match find_announce(&self.announces, namespace, 0) {
            Some(i) => {
                self.announces[i].ok = true;
            },
            None => {},
        }
    }

    /// The peer rejected or cancelled an announce: record the error on it,
    /// so the application sees why its handle closed. An unknown namespace
    /// or an already-closed announce is left alone.
    pub fn recv_announce_close(&mut self, namespace: &Vec<u8>, err: Error)
        ensures
            final(self).subscribed@ == old(self).subscribed@,
            final(self).unknown@ == old(self).unknown@,
            final(self).outgoing@ == old(self).outgoing@,
            spec_find_announce(old(self).announces@, namespace@, 0) matches Some(i)
                ==> final(self).announces@ == old(self).announces@.update(
                    i,
                    AnnounceState {
                        closed: if old(self).announces@[i].closed is Some {
                            old(self).announces@[i].closed
                        } else {
                            Some(err)
                        },
                        ..old(self).announces@[i]
                    },
                ),
            spec_find_announce(old(self).announces@, namespace@, 0) is None
                ==> *final(self) == *old(self),
    {
        match find_announce(&self.announces, namespace, 0) {
            Some(i) => {
                if self.announces[i].closed.is_none() {
                    self.announces[i].closed = Some(err);
                } else {
                    proof {
                        assert(self.announces@ =~= old(self).announces@.update(
                            i as int,
                            AnnounceState { ..old(self).announces@[i as int] },
                        ));
                    }
                }
            },
            None => {},
        }
    }

    /// An inbound subscribe: fails `Duplicate` iff the id is in use;
    /// otherwise records it and reports whether a local announce matched —
    /// an unmatched one is queued for the application.
    pub fn recv_subscribe(&mut self, id: u64, namespace: Vec<u8>, name: Vec<u8>) -> (r: Result<
        bool,
        Error,
    >)
        ensures
            final(self).announces@ == old(self).announces@,
            final(self).outgoing@ == old(self).outgoing@,
            match r {
                Ok(matched) => spec_find_subscribed(old(self).subscribed@, id, 0) is None
                    && final(self).subscribed@.len() == old(self).subscribed@.len() + 1
                    && final(self).subscribed@.take(old(self).subscribed@.len() as int)
                        == old(self).subscribed@
                    && final(self).subscribed@.last().id == id
                    && final(self).subscribed@.last().namespace@ == namespace@
                    && final(self).subscribed@.last().name@ == name@
                    && final(self).subscribed@.last().ok == false
                    && final(self).subscribed@.last().max is None
                    && final(self).subscribed@.last().closed is None
                    && matched == (spec_find_announce(old(self).announces@, namespace@, 0)
                        is Some)
                    && (matched ==> final(self).unknown@ == old(self).unknown@)
                    && (!matched ==> final(self).unknown@ == old(self).unknown@.push(
                        old(self).subscribed@.len() as usize,
                    )),
                Err(e) => e == Error::Duplicate && *final(self) == *old(self)
                    && spec_find_subscribed(old(self).subscribed@, id, 0) is Some,
            },
    {
        if find_subscribed(&self.subscribed, id, 0).is_some() {
            return Err(Error::Duplicate);
        }
        let ghost pre = self.subscribed@;
        let matched = find_announce(&self.announces, &namespace, 0).is_some();
        let k = self.subscribed.len();
        self.subscribed.push(SubscribedState {
            id,
            namespace,
            name,
            ok: false,
            max: None,
            closed: None,
        });
        if !matched {
            self.unknown.push(k);
        }
        proof {
            assert(self.subscribed@.take(pre.len() as int) =~= pre);
        }
        Ok(matched)
    }

    /// Accept a served subscription: record the largest cached pair and
    /// queue `SubscribeOk`. Fails `NotFound` for an unknown id,
    /// `Duplicate` when already accepted, and the prior error once closed.
    pub fn subscribed_ok(&mut self, id: u64, latest: Option<(u64, u64)>) -> (r: Result<(), Error>)
        ensures
            final(self).announces@ == old(self).announces@,
            final(self).unknown@ == old(self).unknown@,
            match r {
                Ok(()) => spec_find_subscribed(old(self).subscribed@, id, 0) matches Some(i)
                    && old(self).subscribed@[i].ok == false
                    && old(self).subscribed@[i].closed is None
                    && final(self).subscribed@ == old(self).subscribed@.update(
                        i,
                        SubscribedState {
                            ok: true,
                            max: latest,
                            ..old(self).subscribed@[i]
                        },
                    )
                    && final(self).outgoing@.len() == old(self).outgoing@.len() + 1
                    && (final(self).outgoing@.last() matches Message::SubscribeOk(m)
                        && m.id == id && m.expires == 0 && m.latest == latest),
                Err(e) => {
                    &&& *final(self) == *old(self)
                    &&& spec_find_subscribed(old(self).subscribed@, id, 0) is None
                        ==> e == Error::NotFound
                    &&& spec_find_subscribed(old(self).subscribed@, id, 0) matches Some(i)
                        ==> (old(self).subscribed@[i].closed matches Some(prior)
                                ==> e == prior)
                            && (old(self).subscribed@[i].closed is None
                                ==> e == Error::Duplicate
                                    && old(self).subscribed@[i].ok == true)
                },
            },
    {
        let i = match find_subscribed(&self.subscribed, id, 0) {
            Some(i) => i,
            None => {
                return Err(Error::NotFound);
            },
        };
        match self.subscribed[i].closed {
            Some(e) => {
                return Err(e);
            },
            None => {},
        }
        if self.subscribed[i].ok {
            return Err(Error::Duplicate);
        }
        self.subscribed[i].ok = true;
        self.subscribed[i].max = latest;
        self.outgoing.push(Message::SubscribeOk(SubscribeOk { id, expires: 0, latest }));
        Ok(())
    }

    /// Record a newly served group/object pair: the recorded maximum
    /// becomes the lexicographic maximum of the old one and the pair, with
    /// no pair yet counting as smallest — so `SubscribeDone.last` reports
    /// the largest `(group, object)` ever served.
    pub fn update_max(&mut self, id: u64, group_id: u64, object_id: u64) -> (r: Result<(), Error>)
        ensures
            final(self).announces@ == old(self).announces@,
            final(self).unknown@ == old(self).unknown@,
            final(self).outgoing@ == old(self).outgoing@,
            match r {
                Ok(()) => spec_find_subscribed(old(self).subscribed@, id, 0) matches Some(i)
                    && old(self).subscribed@[i].closed is None
                    && final(self).subscribed@ == old(self).subscribed@.update(
                        i,
                        SubscribedState {
                            max: spec_lex_max(
                                old(self).subscribed@[i].max,
                                group_id,
                                object_id,
                            ),
                            ..old(self).subscribed@[i]
                        },
                    ),
                Err(e) => *final(self) == *old(self)
                    && ((e == Error::NotFound
                            && spec_find_subscribed(old(self).subscribed@, id, 0) is None)
                        || (spec_find_subscribed(old(self).subscribed@, id, 0) matches Some(i)
                            && old(self).subscribed@[i].closed == Some(e))),
            },
    {
        let i = match find_subscribed(&self.subscribed, id, 0) {
            Some(i) => i,
            None => {
                return Err(Error::NotFound);
            },
        };
        match self.subscribed[i].closed {
            Some(e) => {
                return Err(e);
            },
            None => {},
        }
        match self.subscribed[i].max {
            Some((g, o)) => {
                if group_id > g || (group_id == g && object_id > o) {
                    self.subscribed[i].max = Some((group_id, object_id));
                } else {
                    proof {
                        assert(self.subscribed@ =~= old(self).subscribed@.update(
                            i as int,
                            SubscribedState { ..old(self).subscribed@[i as int] },
                        ));
                    }
                }
            },
            None => {
                self.subscribed[i].max = Some((group_id, object_id));
            },
        }
        Ok(())
    }

    /// Close a served subscription: record the error and queue exactly one
    /// terminal message — `SubscribeDone` with the last served pair when it
    /// had been accepted, else `SubscribeError` — carrying the error's
    /// code. A second close fails with the prior error and sends nothing,
    /// so the drop handler's `Done` is suppressed once anything else
    /// closed the subscription. Fails `NotFound` for an unknown id.
    pub fn subscribed_close(&mut self, id: u64, err: Error) -> (r: Result<(), Error>)
        ensures
            final(self).announces@ == old(self).announces@,
            final(self).unknown@ == old(self).unknown@,
            match r {
                Ok(()) => spec_find_subscribed(old(self).subscribed@, id, 0) matches Some(i)
                    && old(self).subscribed@[i].closed is None
                    && final(self).subscribed@ == old(self).subscribed@.update(
                        i,
                        SubscribedState {
                            closed: Some(err),
                            ..old(self).subscribed@[i]
                        },
                    )
                    && final(self).outgoing@.len() == old(self).outgoing@.len() + 1
                    && (old(self).subscribed@[i].ok
                        ==> (final(self).outgoing@.last() matches Message::SubscribeDone(m)
                            && m.id == id && m.code == err.spec_code()
                            && m.reason@ == Seq::<u8>::empty()
                            && m.last == old(self).subscribed@[i].max))
                    && (!old(self).subscribed@[i].ok
                        ==> (final(self).outgoing@.last() matches Message::SubscribeError(m)
                            && m.id == id && m.code == err.spec_code()
                            && m.reason@ == Seq::<u8>::empty()
                            && m.track_alias == 0)),
                Err(e) => {
                    &&& *final(self) == *old(self)
                    &&& spec_find_subscribed(old(self).subscribed@, id, 0) is None
                        ==> e == Error::NotFound
                    &&& spec_find_subscribed(old(self).subscribed@, id, 0) matches Some(i)
                        ==> old(self).subscribed@[i].closed == Some(e)
                },
            },
    {
        let i = match find_subscribed(&self.subscribed, id, 0) {
            Some(i) => i,
            None => {
                return Err(Error::NotFound);
            },
        };
        match self.subscribed[i].closed {
            Some(e) => {
                return Err(e);
            },
            None => {},
        }
        self.subscribed[i].closed = Some(err);
        let code: u64 = err.code() as u64;
        let reason: Vec<u8> = Vec::new();
        if self.subscribed[i].ok {
            let last = self.subscribed[i].max;
            self.outgoing.push(Message::SubscribeDone(SubscribeDone {
                id,
                code,
                reason,
                last,
            }));
        } else {
            self.outgoing.push(Message::SubscribeError(SubscribeError {
                id,
                code,
                reason,
                track_alias: 0,
            }));
        }
        Ok(())
    }

    /// The peer withdrew a subscription: close the served state with the
    /// benign `Done`. An unknown id is ignored.
    pub fn recv_unsubscribe(&mut self, id: u64)
        ensures
            final(self).announces@ == old(self).announces@,
            final(self).unknown@ == old(self).unknown@,
            final(self).outgoing@ == old(self).outgoing@,
            spec_find_subscribed(old(self).subscribed@, id, 0) matches Some(i)
                ==> final(self).subscribed@ == old(self).subscribed@.update(
                    i,
                    SubscribedState {
                        closed: if old(self).subscribed@[i].closed is Some {
                            old(self).subscribed@[i].closed
                        } else {
                            Some(Error::Done)
                        },
                        ..old(self).subscribed@[i]
                    },
                ),
            spec_find_subscribed(old(self).subscribed@, id, 0) is None
                ==> *final(self) == *old(self),
    {
        match find_subscribed(&self.subscribed, id, 0) {
            Some(i) => {
                if self.subscribed[i].closed.is_none() {
                    self.subscribed[i].closed = Some(Error::Done);
                } else {
                    proof {
                        assert(self.subscribed@ =~= old(self).subscribed@.update(
                            i as int,
                            SubscribedState { ..old(self).subscribed@[i as int] },
                        ));
                    }
                }
            },
            None => {},
        }
    }
}

} // verus!
