//! Broadcasts: a named namespace holding tracks by name.
//!
//! A broadcast maps track names to track states and keeps a queue of
//! newly-requested tracks awaiting fulfilment: a subscriber asking for an
//! unknown name creates the track and queues it for the publisher; asking
//! again returns the same track. Closing the broadcast closes the registry
//! from both sides.

use vstd::prelude::*;
use crate::error::Error;
use crate::track::{Track, TrackState, Cache};
use crate::util::{bytes_eq, bytes_clone, QueuePop};

verus! {

/// Static information about the broadcast.
#[derive(Clone, Debug, PartialEq)]
pub struct Info {
    /// The namespace under which the tracks are published.
    pub name: Vec<u8>,
}

/// One named track inside a broadcast.
#[derive(Clone)]
pub struct TrackEntry {
    pub name: Vec<u8>,
    pub state: TrackState,
}

/// The shared state of a broadcast: its tracks and the queue of requested
/// track positions awaiting the publisher.
#[derive(Clone)]
pub struct BroadcastState {
    pub info: Info,
    pub tracks: Vec<TrackEntry>,
    /// Positions in `tracks` of requested, not yet fulfilled tracks.
    pub requested: Vec<usize>,
    pub closed: Option<Error>,
}

/// The first position at or after `i` whose entry is named `name`.
pub open spec fn spec_find_from(tracks: Seq<TrackEntry>, name: Seq<u8>, i: int) -> Option<int>
    decreases tracks.len() - i,
{
    if i < 0 || i >= tracks.len() {
        None
    } else if tracks[i].name@ == name {
        Some(i)
    } else {
        spec_find_from(tracks, name, i + 1)
    }
}

/// The position of the track named `name`, if present.
pub open spec fn spec_find(tracks: Seq<TrackEntry>, name: Seq<u8>) -> Option<int> {
    spec_find_from(tracks, name, 0)
}

/// Find the first entry named `name` at or after `i`.
fn find_from(tracks: &Vec<TrackEntry>, name: &Vec<u8>, i: usize) -> (r: Option<usize>)
    requires
        i <= tracks.len(),
    ensures
        match r {
            Some(k) => spec_find_from(tracks@, name@, i as int) == Some(k as int)
                && k < tracks@.len(),
            None => spec_find_from(tracks@, name@, i as int) is None,
        },
    decreases tracks.len() - i,
{
    if i == tracks.len() {
        None
    } else if bytes_eq(&tracks[i].name, name) {
        Some(i)
    } else {
        find_from(tracks, name, i + 1)
    }
}

impl BroadcastState {
    /// Track names are unique.
    pub open spec fn wf(self) -> bool {
        &&& forall|i: int, j: int| 0 <= i < j < self.tracks.len()
            ==> (#[trigger] self.tracks[i]).name@ != (#[trigger] self.tracks[j]).name@
        &&& forall|i: int| 0 <= i < self.requested.len()
            ==> (#[trigger] self.requested[i]) < self.tracks.len()
    }

    /// A fresh open broadcast with no tracks.
    pub fn new(info: Info) -> (b: Self)
        ensures
            b.info == info,
            b.tracks@ == Seq::<TrackEntry>::empty(),
            b.requested@ == Seq::<usize>::empty(),
            b.closed is None,
            b.wf(),
    {
        BroadcastState { info, tracks: Vec::new(), requested: Vec::new(), closed: None }
    }

    /// Create a track with the given name, inserting it into the
    /// broadcast. Fails with the closing error on a closed broadcast and
    /// `Duplicate` when the name is taken; returns the new position.
    pub fn create_track(&mut self, name: Vec<u8>) -> (r: Result<usize, Error>)
        requires
            old(self).wf(),
        ensures
            final(self).wf(),
            final(self).info == old(self).info,
            final(self).closed == old(self).closed,
            final(self).requested@ == old(self).requested@,
            match r {
                Ok(k) => old(self).closed is None
                    && spec_find(old(self).tracks@, name@) is None
                    && k == old(self).tracks@.len()
                    && final(self).tracks@.len() == old(self).tracks@.len() + 1
                    && final(self).tracks@.take(old(self).tracks@.len() as int)
                        == old(self).tracks@
                    && final(self).tracks@.last().name@ == name@
                    && final(self).tracks@.last().state.cache is Init
                    && final(self).tracks@.last().state.closed is None,
                Err(e) => {
                    &&& *final(self) == *old(self)
                    &&& old(self).closed is Some ==> old(self).closed == Some(e)
                    &&& old(self).closed is None ==> e == Error::Duplicate
                        && spec_find(old(self).tracks@, name@) is Some
                },
            },
    {
        match self.closed {
            Some(e) => {
                return Err(e);
            },
            None => {},
        }
        if find_from(&self.tracks, &name, 0).is_some() {
            return Err(Error::Duplicate);
        }
        let ghost pre = self.tracks@;
        let namespace = bytes_clone(&self.info.name);
        let track_name = bytes_clone(&name);
        let (state, _reader) = Track { namespace, name: track_name }.produce();
        let k = self.tracks.len();
        self.tracks.push(TrackEntry { name, state });
        proof {
            assert(self.tracks@.take(pre.len() as int) =~= pre);
            lemma_find_none_all_differ(pre, self.tracks@.last().name@);
        }
        Ok(k)
    }

    /// Get the track named `name`, creating and queueing it for the
    /// publisher when it does not exist yet. A cached track is returned
    /// even on a closed broadcast; creation fails with the closing error.
    pub fn get_track(&mut self, name: Vec<u8>) -> (r: Result<usize, Error>)
        requires
            old(self).wf(),
        ensures
            final(self).wf(),
            final(self).info == old(self).info,
            final(self).closed == old(self).closed,
            match r {
                Ok(k) => (spec_find(old(self).tracks@, name@) matches Some(i)
                        ==> k == i && *final(self) == *old(self))
                    && (spec_find(old(self).tracks@, name@) is None
                        ==> old(self).closed is None
                            && k == old(self).tracks@.len()
                            && final(self).tracks@.len() == old(self).tracks@.len() + 1
                            && final(self).tracks@.take(old(self).tracks@.len() as int)
                                == old(self).tracks@
                            && final(self).tracks@.last().name@ == name@
                            && final(self).tracks@.last().state.cache is Init
                            && final(self).requested@
                                == old(self).requested@.push(k as usize)),
                Err(e) => *final(self) == *old(self) && old(self).closed == Some(e)
                    && spec_find(old(self).tracks@, name@) is None,
            },
    {
        if let Some(k) = find_from(&self.tracks, &name, 0) {
            return Ok(k);
        }
        match self.closed {
            Some(e) => {
                return Err(e);
            },
            None => {},
        }
        let ghost pre = self.tracks@;
        let namespace = bytes_clone(&self.info.name);
        let track_name = bytes_clone(&name);
        let (state, _reader) = Track { namespace, name: track_name }.produce();
        let k = self.tracks.len();
        self.tracks.push(TrackEntry { name, state });
        self.requested.push(k);
        proof {
            assert(self.tracks@.take(pre.len() as int) =~= pre);
            lemma_find_none_all_differ(pre, self.tracks@.last().name@);
        }
        Ok(k)
    }

    /// The next track position requested by a subscriber, for the
    /// publisher to fulfil; the close state once the queue is drained.
    pub fn next_track(&mut self) -> (r: QueuePop<usize>)
        requires
            old(self).wf(),
        ensures
            final(self).wf(),
            final(self).info == old(self).info,
            final(self).closed == old(self).closed,
            final(self).tracks@ == old(self).tracks@,
            old(self).requested@.len() > 0 ==> (r matches QueuePop::Item(k)
                && k == old(self).requested@[0]
                && k < old(self).tracks@.len()
                && final(self).requested@ == old(self).requested@.skip(1)),
            old(self).requested@.len() == 0 ==> final(self).requested@
                    == old(self).requested@
                && match old(self).closed {
                    Some(e) => r matches QueuePop::Closed(c) && c == e,
                    None => r is Pending,
                },
    {
        if self.requested.len() > 0 {
            let k = self.requested.remove(0);
            return QueuePop::Item(k);
        }
        match self.closed {
            Some(e) => QueuePop::Closed(e),
            None => QueuePop::Pending,
        }
    }

    /// Borrow the track at position `k`, for reading.
    pub fn track(&self, k: usize) -> (r: &TrackState)
        requires
            k < self.tracks@.len(),
        ensures
            *r == self.tracks@[k as int].state,
    {
        &self.tracks[k].state
    }

    /// Close the broadcast; every track lookup through it then fails.
    /// Fails with the prior error if already closed.
    pub fn close(&mut self, err: Error) -> (r: Result<(), Error>)
        ensures
            final(self).info == old(self).info,
            final(self).tracks@ == old(self).tracks@,
            final(self).requested@ == old(self).requested@,
            old(self).wf() ==> final(self).wf(),
            match r {
                Ok(()) => old(self).closed is None && final(self).closed == Some(err),
                Err(e) => old(self).closed == Some(e) && *final(self) == *old(self),
            },
    {
        match self.closed {
            Some(e) => {
                return Err(e);
            },
            None => {},
        }
        self.closed = Some(err);
        Ok(())
    }

    /// What dropping the last handle on one side does: close with `Done`,
    /// suppressed if already closed.
    pub fn handle_drop(&mut self)
        ensures
            final(self).info == old(self).info,
            final(self).tracks@ == old(self).tracks@,
            final(self).requested@ == old(self).requested@,
            old(self).wf() ==> final(self).wf(),
            old(self).closed is Some ==> *final(self) == *old(self),
            old(self).closed is None ==> final(self).closed == Some(Error::Done),
    {
        if self.closed.is_none() {
            self.closed = Some(Error::Done);
        }
    }
}

/// When no entry is named `name`, every entry's name differs from it.
proof fn lemma_find_none_all_differ(tracks: Seq<TrackEntry>, name: Seq<u8>)
    requires
        spec_find(tracks, name) is None,
    ensures
        forall|i: int| 0 <= i < tracks.len() ==> (#[trigger] tracks[i]).name@ != name,
{
    lemma_find_from_none(tracks, name, 0);
}

proof fn lemma_find_from_none(tracks: Seq<TrackEntry>, name: Seq<u8>, i: int)
    requires
        i >= 0,
        spec_find_from(tracks, name, i) is None,
    ensures
        forall|j: int| i <= j < tracks.len() ==> (#[trigger] tracks[j]).name@ != name,
    decreases tracks.len() - i,
{
    if i < tracks.len() {
        lemma_find_from_none(tracks, name, i + 1);
    }
}

} // verus!
