//! The relay: a registry of locally announced namespaces, and demand-driven
//! remote origins deduplicated by URL.
//!
//! An inbound subscribe is served locally when its namespace is announced
//! here; otherwise the caller looks the namespace up in the origin API and
//! routes the result through [`Remotes`], which dials each URL at most once
//! and reference-counts the tracks subscribed through it. Dropping the last
//! reader of a track removes its entry; dropping the last track of a remote
//! tears the remote session down.

use vstd::prelude::*;
use crate::error::Error;
use crate::util::bytes_eq;

verus! {

/// The namespaces announced by local publisher sessions.
#[derive(Clone, Debug, PartialEq)]
pub struct Origin {
    pub announced: Vec<Vec<u8>>,
}

/// The first announced namespace at or after `i` equal to `ns`.
pub open spec fn spec_find_ns(s: Seq<Vec<u8>>, ns: Seq<u8>, i: int) -> Option<int>
    decreases s.len() - i,
{
    if i < 0 || i >= s.len() {
        None
    } else if s[i]@ == ns {
        Some(i)
    } else {
        spec_find_ns(s, ns, i + 1)
    }
}

fn find_ns(s: &Vec<Vec<u8>>, ns: &Vec<u8>, i: usize) -> (r: Option<usize>)
    requires
        i <= s.len(),
    ensures
        match r {
            Some(k) => spec_find_ns(s@, ns@, i as int) == Some(k as int) && k < s@.len(),
            None => spec_find_ns(s@, ns@, i as int) is None,
        },
    decreases s.len() - i,
{
    if i == s.len() {
        None
    } else if bytes_eq(&s[i], ns) {
        Some(i)
    } else {
        find_ns(s, ns, i + 1)
    }
}

impl Origin {
    /// An empty registry.
    pub fn new() -> (o: Self)
        ensures
            o.announced@ == Seq::<Vec<u8>>::empty(),
    {
        Origin { announced: Vec::new() }
    }

    /// Register a namespace announced by a local session; fails
    /// `Duplicate` iff it is already registered.
    pub fn announce(&mut self, namespace: Vec<u8>) -> (r: Result<(), Error>)
        ensures
            match r {
                Ok(()) => spec_find_ns(old(self).announced@, namespace@, 0) is None
                    && final(self).announced@ == old(self).announced@.push(namespace),
                Err(e) => e == Error::Duplicate && *final(self) == *old(self)
                    && spec_find_ns(old(self).announced@, namespace@, 0) is Some,
            },
    {
        if find_ns(&self.announced, &namespace, 0).is_some() {
            return Err(Error::Duplicate);
        }
        self.announced.push(namespace);
        Ok(())
    }

    /// Withdraw a namespace when its publisher disconnects; fails
    /// `NotFound` iff it was not registered.
    pub fn unannounce(&mut self, namespace: &Vec<u8>) -> (r: Result<(), Error>)
        ensures
            match r {
                Ok(()) => spec_find_ns(old(self).announced@, namespace@, 0) matches Some(i)
                    && final(self).announced@ == old(self).announced@.remove(i),
                Err(e) => e == Error::NotFound && *final(self) == *old(self)
                    && spec_find_ns(old(self).announced@, namespace@, 0) is None,
            },
    {
        match find_ns(&self.announced, namespace, 0) {
            Some(i) => {
                self.announced.remove(i);
                Ok(())
            },
            None => Err(Error::NotFound),
        }
    }

    /// Whether a namespace has a local publisher.
    pub fn contains(&self, namespace: &Vec<u8>) -> (r: bool)
        ensures
            r == (spec_find_ns(self.announced@, namespace@, 0) is Some),
    {
        find_ns(&self.announced, namespace, 0).is_some()
    }
}

/// One connection served by the relay, holding its view of the registry.
#[derive(Clone, Debug, PartialEq)]
pub struct Connection {
    pub origin: Origin,
}

impl Connection {
    /// A connection over the given registry.
    pub fn new(origin: Origin) -> (c: Self)
        ensures
            c.origin == origin,
    {
        Connection { origin }
    }

    /// Whether an inbound subscribe for `namespace` is served from a local
    /// publisher; otherwise the caller consults the origin API.
    pub fn is_local(&self, namespace: &Vec<u8>) -> (r: bool)
        ensures
            r == (spec_find_ns(self.origin.announced@, namespace@, 0) is Some),
    {
        self.origin.contains(namespace)
    }
}

/// One track forwarded through a remote session, with its reader count.
#[derive(Clone, Debug, PartialEq)]
pub struct RemoteTrack {
    pub namespace: Vec<u8>,
    pub name: Vec<u8>,
    /// Live readers; the entry leaves when the count reaches zero.
    pub readers: u64,
}

/// One remote origin session, deduplicated by URL.
#[derive(Clone, Debug, PartialEq)]
pub struct Remote {
    pub url: Vec<u8>,
    pub tracks: Vec<RemoteTrack>,
}

/// The remote origins this relay has dialed, by URL.
#[derive(Clone, Debug, PartialEq)]
pub struct Remotes {
    pub remotes: Vec<Remote>,
    /// Positions of remotes whose session must still be dialed.
    pub requested: Vec<usize>,
}

/// The first remote at or after `i` with `url`.
pub open spec fn spec_find_remote(s: Seq<Remote>, url: Seq<u8>, i: int) -> Option<int>
    decreases s.len() - i,
{
    if i < 0 || i >= s.len() {
        None
    } else if s[i].url@ == url {
        Some(i)
    } else {
        spec_find_remote(s, url, i + 1)
    }
}

/// The first track at or after `i` named `(ns, name)`.
pub open spec fn spec_find_track(s: Seq<RemoteTrack>, ns: Seq<u8>, name: Seq<u8>, i: int)
    -> Option<int>
    decreases s.len() - i,
{
    if i < 0 || i >= s.len() {
        None
    } else if s[i].namespace@ == ns && s[i].name@ == name {
        Some(i)
    } else {
        spec_find_track(s, ns, name, i + 1)
    }
}

fn find_remote(s: &Vec<Remote>, url: &Vec<u8>, i: usize) -> (r: Option<usize>)
    requires
        i <= s.len(),
    ensures
        match r {
            Some(k) => spec_find_remote(s@, url@, i as int) == Some(k as int) && k < s@.len(),
            None => spec_find_remote(s@, url@, i as int) is None,
        },
    decreases s.len() - i,
{
    if i == s.len() {
        None
    } else if bytes_eq(&s[i].url, url) {
        Some(i)
    } else {
        find_remote(s, url, i + 1)
    }
}

fn find_track(s: &Vec<RemoteTrack>, ns: &Vec<u8>, name: &Vec<u8>, i: usize) -> (r: Option<usize>)
    requires
        i <= s.len(),
    ensures
        match r {
            Some(k) => spec_find_track(s@, ns@, name@, i as int) == Some(k as int)
                && k < s@.len(),
            None => spec_find_track(s@, ns@, name@, i as int) is None,
        },
    decreases s.len() - i,
{
    if i == s.len() {
        None
    } else if bytes_eq(&s[i].namespace, ns) && bytes_eq(&s[i].name, name) {
        Some(i)
    } else {
        find_track(s, ns, name, i + 1)
    }
}

impl Remotes {
    /// No remote sessions yet.
    pub fn new() -> (r: Self)
        ensures
            r.remotes@ == Seq::<Remote>::empty(),
            r.requested@ == Seq::<usize>::empty(),
    {
        Remotes { remotes: Vec::new(), requested: Vec::new() }
    }

    /// Route a namespace by the URL the origin API returned: no URL means
    /// no origin; a known URL is reused; an unknown one is recorded and
    /// queued for dial-out. At most one remote ever exists per URL.
    pub fn route(&mut self, origin_url: Option<Vec<u8>>) -> (r: Option<usize>)
        ensures
            match origin_url {
                None => r is None && *final(self) == *old(self),
                Some(url) => r matches Some(k)
                    && (spec_find_remote(old(self).remotes@, url@, 0) matches Some(i)
                        ==> k == i && *final(self) == *old(self))
                    && (spec_find_remote(old(self).remotes@, url@, 0) is None
                        ==> k == old(self).remotes@.len()
                            && final(self).remotes@.len() == old(self).remotes@.len() + 1
                            && final(self).remotes@.take(old(self).remotes@.len() as int)
                                == old(self).remotes@
                            && final(self).remotes@.last().url@ == url@
                            && final(self).remotes@.last().tracks@
                                == Seq::<RemoteTrack>::empty()
                            && final(self).requested@
                                == old(self).requested@.push(k as usize)),
            },
    {
        let url = match origin_url {
            Some(url) => url,
            None => {
                return None;
            },
        };
        if let Some(i) = find_remote(&self.remotes, &url, 0) {
            return Some(i);
        }
        let ghost pre = self.remotes@;
        let k = self.remotes.len();
        self.remotes.push(Remote { url, tracks: Vec::new() });
        self.requested.push(k);
        proof {
            assert(self.remotes@.take(pre.len() as int) =~= pre);
        }
        Some(k)
    }

    /// The next remote whose session must be dialed, in request order;
    /// nothing once the dial queue is drained.
    pub fn next_requested(&mut self) -> (r: Option<usize>)
        ensures
            final(self).remotes@ == old(self).remotes@,
            old(self).requested@.len() > 0 ==> (r matches Some(k)
                && k == old(self).requested@[0]
                && final(self).requested@ == old(self).requested@.skip(1)),
            old(self).requested@.len() == 0 ==> r is None
                && final(self).requested@ == old(self).requested@,
    {
        if self.requested.len() > 0 {
            let k = self.requested.remove(0);
            return Some(k);
        }
        None
    }

    /// Subscribe to a track through the remote at `k`: a live entry for
    /// the same names is reused (one more reader); otherwise a fresh entry
    /// with one reader is created. Returns whether an entry was reused.
    pub fn subscribe(&mut self, k: usize, namespace: Vec<u8>, name: Vec<u8>) -> (r: Result<
        bool,
        Error,
    >)
        requires
            k < old(self).remotes@.len(),
        ensures
            final(self).requested@ == old(self).requested@,
            final(self).remotes@.len() == old(self).remotes@.len(),
            match r {
                Ok(reused) => {
                    let tracks = old(self).remotes@[k as int].tracks@;
                    &&& reused == (spec_find_track(tracks, namespace@, name@, 0) is Some)
                    &&& spec_find_track(tracks, namespace@, name@, 0) matches Some(i)
                        ==> final(self).remotes@[k as int].tracks@ == tracks.update(
                            i,
                            RemoteTrack {
                                readers: (tracks[i].readers + 1) as u64,
                                ..tracks[i]
                            },
                        )
                    &&& spec_find_track(tracks, namespace@, name@, 0) is None
                        ==> final(self).remotes@[k as int].tracks@.len() == tracks.len() + 1
                            && final(self).remotes@[k as int].tracks@.last().namespace@
                                == namespace@
                            && final(self).remotes@[k as int].tracks@.last().name@ == name@
                            && final(self).remotes@[k as int].tracks@.last().readers == 1
                },
                Err(e) => e == Error::Duplicate && *final(self) == *old(self),
            },
    {
        let found = find_track(&self.remotes[k].tracks, &namespace, &name, 0);
        match found {
            Some(i) => {
                if self.remotes[k].tracks[i].readers == 0xffff_ffff_ffff_ffff {
                    return Err(Error::Duplicate);
                }
                let remote = &mut self.remotes[k];
                remote.tracks[i].readers = remote.tracks[i].readers + 1;
                Ok(true)
            },
            None => {
                let remote = &mut self.remotes[k];
                remote.tracks.push(RemoteTrack { namespace, name, readers: 1 });
                Ok(false)
            },
        }
    }

    /// A reader of a forwarded track dropped: one fewer reader; the last
    /// reader removes the entry, and the last entry tears the remote
    /// session down — the remote is removed and `true` returned.
    pub fn reader_drop(&mut self, k: usize, namespace: &Vec<u8>, name: &Vec<u8>) -> (r: Result<
        bool,
        Error,
    >)
        requires
            k < old(self).remotes@.len(),
        ensures
            match r {
                Ok(teardown) => {
                    let tracks = old(self).remotes@[k as int].tracks@;
                    &&& spec_find_track(tracks, namespace@, name@, 0) is Some
                    &&& spec_find_track(tracks, namespace@, name@, 0) matches Some(i) ==> {
                        &&& tracks[i].readers > 1
                            ==> !teardown
                                && final(self).remotes@[k as int].tracks@ == tracks.update(
                                    i,
                                    RemoteTrack {
                                        readers: (tracks[i].readers - 1) as u64,
                                        ..tracks[i]
                                    },
                                )
                        &&& tracks[i].readers <= 1 && tracks.len() > 1
                            ==> !teardown
                                && final(self).remotes@[k as int].tracks@ == tracks.remove(i)
                        &&& tracks[i].readers <= 1 && tracks.len() == 1
                            ==> teardown
                                && final(self).remotes@ == old(self).remotes@.remove(k as int)
                    }
                },
                Err(e) => e == Error::NotFound && *final(self) == *old(self)
                    && spec_find_track(
                        old(self).remotes@[k as int].tracks@,
                        namespace@,
                        name@,
                        0,
                    ) is None,
            },
    {
        let i = match find_track(&self.remotes[k].tracks, namespace, name, 0) {
            Some(i) => i,
            None => {
                return Err(Error::NotFound);
            },
        };
        if self.remotes[k].tracks[i].readers > 1 {
            let remote = &mut self.remotes[k];
            remote.tracks[i].readers = remote.tracks[i].readers - 1;
            return Ok(false);
        }
        if self.remotes[k].tracks.len() == 1 {
            self.remotes.remove(k);
            return Ok(true);
        }
        let remote = &mut self.remotes[k];
        remote.tracks.remove(i);
        Ok(false)
    }
}

} // verus!
