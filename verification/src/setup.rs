//! Handshake: version selection and role negotiation.
//!
//! The client offers a list of versions and a role; the server picks a
//! common version or fails with `Version`, then downgrades its own role
//! against the client's. Two sides that both offer the same one-sided role
//! are incompatible.

use vstd::prelude::*;
use crate::error::Error;
use crate::message::{SetupClient, SetupServer, Params};

verus! {

/// The protocol version this implementation speaks.
pub const DRAFT_03: u64 = 0xff000003;

/// Whether an endpoint publishes, subscribes, or does both.
#[derive(Copy, Clone, Debug, PartialEq, Eq, Structural)]
pub enum Role {
    Publisher,
    Subscriber,
    Both,
}

impl Role {
    /// Whether this role may send announces and serve subscriptions.
    pub open spec fn spec_is_publisher(self) -> bool {
        self is Publisher || self is Both
    }

    /// Whether this role may subscribe to tracks.
    pub open spec fn spec_is_subscriber(self) -> bool {
        self is Subscriber || self is Both
    }

    pub fn is_publisher(&self) -> (b: bool)
        ensures
            b == self.spec_is_publisher(),
    {
        match self {
            Role::Publisher | Role::Both => true,
            Role::Subscriber => false,
        }
    }

    pub fn is_subscriber(&self) -> (b: bool)
        ensures
            b == self.spec_is_subscriber(),
    {
        match self {
            Role::Subscriber | Role::Both => true,
            Role::Publisher => false,
        }
    }
}

/// The outcome table of role negotiation, seen from the side holding
/// `local`: a peer that does both leaves `local` unchanged; a one-sided peer
/// downgrades `local` to the complementary side, and two equal one-sided
/// roles cannot talk.
pub open spec fn spec_downgrade(local: Role, peer: Role) -> Option<Role> {
    match peer {
        Role::Both => Some(local),
        Role::Publisher => if local is Publisher {
            None
        } else {
            Some(Role::Subscriber)
        },
        Role::Subscriber => if local is Subscriber {
            None
        } else {
            Some(Role::Publisher)
        },
    }
}

/// Downgrade our role against the peer's; `RoleIncompatible` iff both sides
/// offered the same one-sided role.
pub fn downgrade(local: Role, peer: Role) -> (r: Result<Role, Error>)
    ensures
        match r {
            Ok(role) => spec_downgrade(local, peer) == Some(role),
            Err(e) => e == Error::RoleIncompatible && spec_downgrade(local, peer) is None,
        },
{
    match peer {
        Role::Both => Ok(local),
        Role::Publisher => match local {
            Role::Publisher => Err(Error::RoleIncompatible),
            _ => Ok(Role::Subscriber),
        },
        Role::Subscriber => match local {
            Role::Subscriber => Err(Error::RoleIncompatible),
            _ => Ok(Role::Publisher),
        },
    }
}

/// The downgrade table is symmetric and idempotent: both sides agree on
/// whether the handshake succeeds; when it does, each capability one side
/// ends with is served by the other side; and negotiating again from the
/// downgraded role changes nothing.
pub proof fn lemma_downgrade_symmetric(a: Role, b: Role)
    ensures
        (spec_downgrade(a, b) is Some) == (spec_downgrade(b, a) is Some),
        spec_downgrade(a, b) matches Some(x) ==> spec_downgrade(b, a) matches Some(y)
            && (x.spec_is_publisher() ==> y.spec_is_subscriber())
            && (x.spec_is_subscriber() ==> y.spec_is_publisher()),
        spec_downgrade(a, b) matches Some(x) ==> spec_downgrade(x, b) == Some(x),
{
}

/// True iff `versions` holds `v`.
fn contains_version(versions: &Vec<u64>, v: u64) -> (b: bool)
    ensures
        b == versions@.contains(v),
{
    let mut i: usize = 0;
    while i < versions.len()
        invariant
            i <= versions.len(),
            forall|j: int| 0 <= j < i ==> versions@[j] != v,
        decreases versions.len() - i,
    {
        if versions[i] == v {
            return true;
        }
        i = i + 1;
    }
    false
}

/// The server side of the handshake: check the version list, downgrade the
/// local role against the client's, and build the reply.
///
/// Fails `Version` iff the client offered no common version; given a common
/// version, fails `RoleIncompatible` iff the two roles cannot talk.
pub fn accept_setup(client: &SetupClient, local: Role) -> (r: Result<(SetupServer, Role), Error>)
    ensures
        match r {
            Ok((server, role)) => client.versions@.contains(DRAFT_03)
                && spec_downgrade(local, client.role) == Some(role)
                && server.version == DRAFT_03
                && server.role == role
                && server.params.0@ == Seq::<(u64, Vec<u8>)>::empty(),
            Err(e) => (e == Error::Version && !client.versions@.contains(DRAFT_03))
                || (e == Error::RoleIncompatible && client.versions@.contains(DRAFT_03)
                    && spec_downgrade(local, client.role) is None),
        },
{
    if !contains_version(&client.versions, DRAFT_03) {
        return Err(Error::Version);
    }
    let role = downgrade(local, client.role)?;
    let server = SetupServer { version: DRAFT_03, role, params: Params(Vec::new()) };
    Ok((server, role))
}

/// The client side of the handshake: check the version the server picked and
/// downgrade the offered role against the server's.
pub fn connect_setup(offered: Role, server: &SetupServer) -> (r: Result<Role, Error>)
    ensures
        match r {
            Ok(role) => server.version == DRAFT_03
                && spec_downgrade(offered, server.role) == Some(role),
            Err(e) => (e == Error::Version && server.version != DRAFT_03)
                || (e == Error::RoleIncompatible && server.version == DRAFT_03
                    && spec_downgrade(offered, server.role) is None),
        },
{
    if server.version != DRAFT_03 {
        return Err(Error::Version);
    }
    downgrade(offered, server.role)
}

} // verus!
