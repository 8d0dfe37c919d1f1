//! The session engine: handshake outcomes and control-message routing.
//!
//! After the handshake the session owns a negotiated role and a queue of
//! outgoing control messages. Every received control message is classified
//! as publisher-directed or subscriber-directed; one that arrives for a
//! side the session did not negotiate is a fatal `RoleViolation`.

use vstd::prelude::*;
use crate::error::Error;
use crate::message::{Message, SetupClient, SetupServer};
use crate::setup::{Role, accept_setup, connect_setup, spec_downgrade, DRAFT_03};
use crate::util::Queue;

verus! {

/// Which part of the session a control message is for.
#[derive(Copy, Clone, Debug, PartialEq, Eq, Structural)]
pub enum Dispatch {
    /// Sent by a subscriber peer; handled by our publisher side.
    Publisher,
    /// Sent by a publisher peer; handled by our subscriber side.
    Subscriber,
    /// A setup message, only legal during the handshake.
    Setup,
    /// Handled by the session itself.
    Session,
}

/// Where each message kind is handled.
pub open spec fn spec_classify(m: Message) -> Dispatch {
    match m {
        Message::SetupClient(_) | Message::SetupServer(_) => Dispatch::Setup,
        Message::Subscribe(_) | Message::Unsubscribe(_) | Message::AnnounceOk(_)
            | Message::AnnounceError(_) | Message::AnnounceCancel(_) => Dispatch::Publisher,
        Message::SubscribeOk(_) | Message::SubscribeError(_) | Message::SubscribeDone(_)
            | Message::Announce(_) | Message::Unannounce(_) => Dispatch::Subscriber,
        Message::GoAway(_) => Dispatch::Session,
    }
}

/// Classify a control message by the side that handles it.
pub fn classify(m: &Message) -> (d: Dispatch)
    ensures
        d == spec_classify(*m),
{
    match m {
        Message::SetupClient(_) | Message::SetupServer(_) => Dispatch::Setup,
        Message::Subscribe(_) | Message::Unsubscribe(_) | Message::AnnounceOk(_)
            | Message::AnnounceError(_) | Message::AnnounceCancel(_) => Dispatch::Publisher,
        Message::SubscribeOk(_) | Message::SubscribeError(_) | Message::SubscribeDone(_)
            | Message::Announce(_) | Message::Unannounce(_) => Dispatch::Subscriber,
        Message::GoAway(_) => Dispatch::Session,
    }
}

/// A live session after the handshake: its negotiated role and version,
/// and the queue its parts feed with outgoing control messages.
pub struct Session {
    pub role: Role,
    pub version: u64,
    pub outgoing: Queue<Message>,
}

impl Session {
    /// The server side of the handshake: check versions, downgrade the
    /// role, and build both the session and the reply to send.
    ///
    /// Fails `Version` iff no common version was offered; given one, fails
    /// `RoleIncompatible` iff both sides offered the same one-sided role.
    pub fn accept(client: &SetupClient, local: Role) -> (r: Result<(Session, SetupServer), Error>)
        ensures
            match r {
                Ok((s, reply)) => client.versions@.contains(DRAFT_03)
                    && spec_downgrade(local, client.role) == Some(s.role)
                    && s.version == DRAFT_03
                    && reply.version == DRAFT_03
                    && reply.role == s.role
                    && s.outgoing.items@ == Seq::<Message>::empty()
                    && s.outgoing.closed is None,
                Err(e) => (e == Error::Version && !client.versions@.contains(DRAFT_03))
                    || (e == Error::RoleIncompatible && client.versions@.contains(DRAFT_03)
                        && spec_downgrade(local, client.role) is None),
            },
    {
        let (reply, role) = accept_setup(client, local)?;
        let session = Session { role, version: DRAFT_03, outgoing: Queue::new() };
        Ok((session, reply))
    }

    /// The client side of the handshake: check the version the server
    /// picked and downgrade the offered role against the server's.
    pub fn connect(offered: Role, server: &SetupServer) -> (r: Result<Session, Error>)
        ensures
            match r {
                Ok(s) => server.version == DRAFT_03
                    && spec_downgrade(offered, server.role) == Some(s.role)
                    && s.version == DRAFT_03
                    && s.outgoing.items@ == Seq::<Message>::empty()
                    && s.outgoing.closed is None,
                Err(e) => (e == Error::Version && server.version != DRAFT_03)
                    || (e == Error::RoleIncompatible && server.version == DRAFT_03
                        && spec_downgrade(offered, server.role) is None),
            },
    {
        let role = connect_setup(offered, server)?;
        Ok(Session { role, version: DRAFT_03, outgoing: Queue::new() })
    }

    /// Queue a control message for the send loop.
    pub fn send(&mut self, msg: Message) -> (r: Result<(), Error>)
        ensures
            final(self).role == old(self).role,
            final(self).version == old(self).version,
            match r {
                Ok(()) => old(self).outgoing.closed is None
                    && final(self).outgoing.items@ == old(self).outgoing.items@.push(msg)
                    && final(self).outgoing.closed is None,
                Err(e) => e == Error::Done && old(self).outgoing.closed is Some
                    && final(self).outgoing.items@ == old(self).outgoing.items@
                    && final(self).outgoing.closed == old(self).outgoing.closed,
            },
    {
        self.outgoing.push(msg)
    }

    /// Route a received control message to the side that handles it.
    ///
    /// Fails `RoleViolation` iff the message is for a side this session
    /// did not negotiate, or is a setup message after the handshake.
    pub fn route(&self, msg: &Message) -> (r: Result<Dispatch, Error>)
        ensures
            match r {
                Ok(d) => d == spec_classify(*msg)
                    && (d == Dispatch::Publisher ==> self.role.spec_is_publisher())
                    && (d == Dispatch::Subscriber ==> self.role.spec_is_subscriber())
                    && !(d is Setup),
                Err(e) => e == Error::RoleViolation
                    && ((spec_classify(*msg) == Dispatch::Publisher
                            && !self.role.spec_is_publisher())
                        || (spec_classify(*msg) == Dispatch::Subscriber
                            && !self.role.spec_is_subscriber())
                        || spec_classify(*msg) == Dispatch::Setup),
            },
    {
        match classify(msg) {
            Dispatch::Publisher => {
                if self.role.is_publisher() {
                    Ok(Dispatch::Publisher)
                } else {
                    Err(Error::RoleViolation)
                }
            },
            Dispatch::Subscriber => {
                if self.role.is_subscriber() {
                    Ok(Dispatch::Subscriber)
                } else {
                    Err(Error::RoleViolation)
                }
            },
            Dispatch::Setup => Err(Error::RoleViolation),
            Dispatch::Session => Ok(Dispatch::Session),
        }
    }
}

} // verus!
