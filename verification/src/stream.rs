//! Stream mode: a single ordered stream for a whole track.
//!
//! The stream carries groups in creation order with nondecreasing ids; a
//! reader that falls behind skips straight to the newest group. Groups are
//! kept so that readers already inside an older group can finish it.

use vstd::prelude::*;
use crate::error::Error;
use crate::group::{Group, GroupState};

verus! {

/// Static information about a track served in stream mode.
#[derive(Clone, Debug, PartialEq)]
pub struct Stream {
    pub namespace: Vec<u8>,
    pub name: Vec<u8>,
    /// The send priority of the one stream.
    pub priority: u64,
}

/// Identification of a group within a stream.
#[derive(Copy, Clone, Debug, PartialEq, Eq, Structural)]
pub struct StreamGroup {
    pub group_id: u64,
}

/// Identification of an object within a stream, with its declared size.
#[derive(Copy, Clone, Debug, PartialEq, Eq, Structural)]
pub struct StreamObject {
    pub group_id: u64,
    pub object_id: u64,
    pub size: usize,
}

/// The state of a track's single ordered stream.
#[derive(Clone, Debug, PartialEq)]
pub struct StreamState {
    /// The send priority every group inherits.
    pub priority: u64,
    /// All groups in creation order; the last is the newest.
    pub groups: Vec<GroupState>,
    /// Bumped once per created group.
    pub epoch: u64,
    pub closed: Option<Error>,
}

/// A reader's private position: the epoch it has caught up to.
#[derive(Copy, Clone, Debug, PartialEq, Eq, Structural)]
pub struct StreamReader {
    pub epoch: u64,
}

/// What a stream reader's next blocking call would observe.
#[derive(Copy, Clone, Debug, PartialEq, Eq, Structural)]
pub enum StreamStep {
    /// The newest group, by its position in the group list.
    Group(usize),
    /// The stream ended cleanly.
    Done,
    /// The stream was closed with an error.
    Failed(Error),
    /// The call would block until the state changes.
    Pending,
}

impl StreamState {
    /// Groups are consistent, share the stream's priority, carry
    /// nondecreasing ids, and the epoch counts them.
    pub open spec fn wf(self) -> bool {
        &&& forall|i: int| 0 <= i < self.groups.len() ==> (#[trigger] self.groups[i]).wf()
        &&& forall|i: int| 0 <= i < self.groups.len()
            ==> (#[trigger] self.groups[i]).priority == self.priority
        &&& forall|i: int, j: int| 0 <= i < j < self.groups.len()
            ==> (#[trigger] self.groups[i]).group_id <= (#[trigger] self.groups[j]).group_id
        &&& self.epoch == self.groups.len()
    }

    /// A fresh open stream with no groups.
    pub fn new(priority: u64) -> (s: Self)
        ensures
            s.priority == priority,
            s.groups@.len() == 0,
            s.epoch == 0,
            s.closed is None,
            s.wf(),
    {
        StreamState { priority, groups: Vec::new(), epoch: 0, closed: None }
    }

    /// Create the next group. Fails `Done` on a closed stream and
    /// `Duplicate` when `group_id` is below the newest group's id; an equal
    /// or higher id starts a new group.
    pub fn create(&mut self, group_id: u64) -> (r: Result<(), Error>)
        requires
            old(self).wf(),
            old(self).groups@.len() < 0xffff_ffff_ffff_ffff,
        ensures
            final(self).wf(),
            final(self).priority == old(self).priority,
            match r {
                Ok(()) => old(self).closed is None
                    && (old(self).groups@.len() > 0
                        ==> old(self).groups@.last().group_id <= group_id)
                    && final(self).groups@.len() == old(self).groups@.len() + 1
                    && final(self).groups@.take(old(self).groups@.len() as int)
                        == old(self).groups@
                    && final(self).groups@.last().group_id == group_id
                    && final(self).groups@.last().objects@.len() == 0
                    && final(self).groups@.last().closed is None
                    && final(self).groups@.last().next_object_id == 0
                    && final(self).epoch == old(self).epoch + 1
                    && final(self).closed == old(self).closed,
                Err(e) => *final(self) == *old(self)
                    && ((e == Error::Done && old(self).closed is Some)
                        || (e == Error::Duplicate && old(self).closed is None
                            && old(self).groups@.len() > 0
                            && old(self).groups@.last().group_id > group_id)),
            },
    {
        if self.closed.is_some() {
            return Err(Error::Done);
        }
        let n = self.groups.len();
        if n > 0 {
            if self.groups[n - 1].group_id > group_id {
                return Err(Error::Duplicate);
            }
        }
        let ghost pre = self.groups@;
        let group = GroupState::new(Group { group_id, priority: self.priority });
        self.groups.push(group);
        self.epoch = self.epoch + 1;
        proof {
            assert(self.groups@.take(pre.len() as int) =~= pre);
        }
        Ok(())
    }

    /// Create a group under the next id: one past the newest, or 0 on an
    /// empty stream.
    pub fn append(&mut self) -> (r: Result<u64, Error>)
        requires
            old(self).wf(),
            old(self).groups@.len() < 0xffff_ffff_ffff_ffff,
            old(self).groups@.len() > 0
                ==> old(self).groups@.last().group_id < 0xffff_ffff_ffff_ffff,
        ensures
            final(self).wf(),
            final(self).priority == old(self).priority,
            match r {
                Ok(id) => old(self).closed is None
                    && id == (if old(self).groups@.len() == 0 {
                        0u64
                    } else {
                        (old(self).groups@.last().group_id + 1) as u64
                    })
                    && final(self).groups@.len() == old(self).groups@.len() + 1
                    && final(self).groups@.take(old(self).groups@.len() as int)
                        == old(self).groups@
                    && final(self).groups@.last().group_id == id
                    && final(self).groups@.last().objects@.len() == 0
                    && final(self).epoch == old(self).epoch + 1
                    && final(self).closed == old(self).closed,
                Err(e) => e == Error::Done && old(self).closed is Some
                    && *final(self) == *old(self),
            },
    {
        let n = self.groups.len();
        let next: u64 = if n == 0 {
            0
        } else {
            self.groups[n - 1].group_id + 1
        };
        match self.create(next) {
            Ok(()) => Ok(next),
            Err(e) => Err(e),
        }
    }

    /// Close the stream with an explicit error; closing an already closed
    /// stream fails with the prior error.
    pub fn close(&mut self, err: Error) -> (r: Result<(), Error>)
        ensures
            final(self).groups == old(self).groups,
            final(self).priority == old(self).priority,
            final(self).epoch == old(self).epoch,
            old(self).wf() ==> final(self).wf(),
            match r {
                Ok(()) => old(self).closed is None && final(self).closed == Some(err),
                Err(e) => old(self).closed == Some(e) && *final(self) == *old(self),
            },
    {
        match self.closed {
            Some(e) => {
                return Err(e);
            },
            None => {},
        }
        self.closed = Some(err);
        Ok(())
    }

    /// The newest group's id and newest object id, or nothing on an empty
    /// stream.
    pub fn latest(&self) -> (r: Option<(u64, u64)>)
        ensures
            r == if self.groups@.len() == 0 {
                Option::<(u64, u64)>::None
            } else {
                Option::Some((
                    self.groups@.last().group_id,
                    if self.groups@.last().objects@.len() == 0 {
                        0u64
                    } else {
                        self.groups@.last().objects@.last().info.object_id
                    },
                ))
            },
    {
        let n = self.groups.len();
        if n == 0 {
            return None;
        }
        let last = &self.groups[n - 1];
        Some((last.group_id, last.latest()))
    }

    /// Borrow the group at `index`, for reading.
    pub fn group(&self, index: usize) -> (r: &GroupState)
        requires
            index < self.groups@.len(),
        ensures
            *r == self.groups@[index as int],
    {
        &self.groups[index]
    }

    /// Append a whole object to the newest group, as [`GroupState::write`].
    /// Fails `NotFound` with no group.
    pub fn group_write(&mut self, payload: Vec<u8>) -> (r: Result<(), Error>)
        requires
            old(self).wf(),
            old(self).groups@.len() > 0
                ==> old(self).groups@.last().next_object_id < 0xffff_ffff_ffff_ffff,
        ensures
            final(self).wf(),
            final(self).priority == old(self).priority,
            final(self).epoch == old(self).epoch,
            final(self).closed == old(self).closed,
            old(self).groups@.len() == 0 ==> r == Err::<(), Error>(Error::NotFound)
                && *final(self) == *old(self),
            old(self).groups@.len() > 0 ==> final(self).groups@.len()
                == old(self).groups@.len()
                && final(self).groups@.take(old(self).groups@.len() - 1)
                    == old(self).groups@.take(old(self).groups@.len() - 1)
                && final(self).groups@.last().group_id
                    == old(self).groups@.last().group_id
                && match r {
                    Ok(()) => old(self).groups@.last().closed is None
                        && final(self).groups@.last().objects@.len()
                            == old(self).groups@.last().objects@.len() + 1
                        && final(self).groups@.last().objects@.last().payload()
                            == seq![payload@]
                        && final(self).groups@.last().objects@.last().info.object_id
                            == old(self).groups@.last().next_object_id,
                    Err(e) => e == Error::Done && old(self).groups@.last().closed is Some
                        && final(self).groups@.last() == old(self).groups@.last(),
                },
    {
        let n = self.groups.len();
        if n == 0 {
            return Err(Error::NotFound);
        }
        let ghost pre = self.groups@;
        let last = &mut self.groups[n - 1];
        let res = last.write(payload);
        proof {
            assert(self.groups@.take(pre.len() - 1) =~= pre.take(pre.len() - 1));
            assert(forall|i: int| 0 <= i < pre.len() - 1 ==> self.groups@[i] == pre[i]);
        }
        res
    }

    /// Start a sized object in the newest group, as [`GroupState::create`].
    /// Fails `NotFound` with no group.
    pub fn group_create(&mut self, size: usize) -> (r: Result<(), Error>)
        requires
            old(self).wf(),
            old(self).groups@.len() > 0
                ==> old(self).groups@.last().next_object_id < 0xffff_ffff_ffff_ffff,
        ensures
            final(self).wf(),
            final(self).priority == old(self).priority,
            final(self).epoch == old(self).epoch,
            final(self).closed == old(self).closed,
            old(self).groups@.len() == 0 ==> r == Err::<(), Error>(Error::NotFound)
                && *final(self) == *old(self),
            old(self).groups@.len() > 0 ==> final(self).groups@.len()
                == old(self).groups@.len()
                && final(self).groups@.take(old(self).groups@.len() - 1)
                    == old(self).groups@.take(old(self).groups@.len() - 1)
                && match r {
                    Ok(()) => old(self).groups@.last().closed is None
                        && final(self).groups@.last().objects@.len()
                            == old(self).groups@.last().objects@.len() + 1
                        && final(self).groups@.last().objects@.last().payload()
                            == Seq::<Seq<u8>>::empty()
                        && final(self).groups@.last().objects@.last().info.size == Some(size)
                        && final(self).groups@.last().objects@.last().info.object_id
                            == old(self).groups@.last().next_object_id,
                    Err(e) => e == Error::Done && old(self).groups@.last().closed is Some
                        && final(self).groups@.last() == old(self).groups@.last(),
                },
    {
        let n = self.groups.len();
        if n == 0 {
            return Err(Error::NotFound);
        }
        let ghost pre = self.groups@;
        let last = &mut self.groups[n - 1];
        let res = last.create(size);
        proof {
            assert(self.groups@.take(pre.len() - 1) =~= pre.take(pre.len() - 1));
            assert(forall|i: int| 0 <= i < pre.len() - 1 ==> self.groups@[i] == pre[i]);
        }
        res
    }

    /// Append a chunk to the newest object of the newest group, as
    /// [`GroupState::chunk`]. Fails `NotFound` with no group.
    pub fn group_chunk(&mut self, data: Vec<u8>) -> (r: Result<(), Error>)
        requires
            old(self).wf(),
            old(self).groups@.len() > 0 && old(self).groups@.last().objects@.len() > 0
                ==> old(self).groups@.last().objects@.last().spec_written() + data@.len()
                    <= usize::MAX,
        ensures
            final(self).wf(),
            final(self).priority == old(self).priority,
            final(self).epoch == old(self).epoch,
            final(self).closed == old(self).closed,
            old(self).groups@.len() == 0 ==> r == Err::<(), Error>(Error::NotFound)
                && *final(self) == *old(self),
            old(self).groups@.len() > 0 ==> final(self).groups@.len()
                == old(self).groups@.len()
                && final(self).groups@.take(old(self).groups@.len() - 1)
                    == old(self).groups@.take(old(self).groups@.len() - 1)
                && (old(self).groups@.last().objects@.len() == 0
                    ==> r == Err::<(), Error>(Error::NotFound)
                        && final(self).groups@.last() == old(self).groups@.last())
                && (old(self).groups@.last().objects@.len() > 0 ==> match r {
                    Ok(()) => final(self).groups@.last().objects@.last().payload()
                        == old(self).groups@.last().objects@.last().payload().push(data@),
                    Err(e) => final(self).groups@.last().objects@
                        == old(self).groups@.last().objects@
                        && (e == Error::Done || e == Error::Size),
                }),
    {
        let n = self.groups.len();
        if n == 0 {
            return Err(Error::NotFound);
        }
        let ghost pre = self.groups@;
        let last = &mut self.groups[n - 1];
        let res = last.chunk(data);
        proof {
            assert(self.groups@.take(pre.len() - 1) =~= pre.take(pre.len() - 1));
            assert(forall|i: int| 0 <= i < pre.len() - 1 ==> self.groups@[i] == pre[i]);
            if res is Err && pre.last().objects@.len() > 0 {
                let go = pre.last().objects@;
                let gn = self.groups@.last().objects@;
                assert forall|i: int| 0 <= i < gn.len() implies gn[i] == go[i] by {
                    if i < go.len() - 1 {
                        assert(gn.take(go.len() - 1)[i] == gn[i]);
                        assert(go.take(go.len() - 1)[i] == go[i]);
                    }
                }
                assert(gn =~= go);
            }
        }
        res
    }

    /// Drop the writer of the newest object of the newest group, as
    /// [`GroupState::finish_object`]. Fails `NotFound` with no group.
    pub fn group_finish_object(&mut self) -> (r: Result<(), Error>)
        requires
            old(self).wf(),
        ensures
            final(self).wf(),
            final(self).priority == old(self).priority,
            final(self).epoch == old(self).epoch,
            final(self).closed == old(self).closed,
            old(self).groups@.len() == 0 ==> r == Err::<(), Error>(Error::NotFound)
                && *final(self) == *old(self),
            old(self).groups@.len() > 0 ==> final(self).groups@.len()
                == old(self).groups@.len()
                && final(self).groups@.take(old(self).groups@.len() - 1)
                    == old(self).groups@.take(old(self).groups@.len() - 1)
                && (old(self).groups@.last().objects@.len() == 0
                    ==> r == Err::<(), Error>(Error::NotFound))
                && (old(self).groups@.last().objects@.len() > 0
                    ==> r == Ok::<(), Error>(())
                        && final(self).groups@.last().objects@.last().payload()
                            == old(self).groups@.last().objects@.last().payload()
                        && (old(self).groups@.last().objects@.last().spec_closed() is None
                            ==> final(self).groups@.last().objects@.last().spec_closed()
                                is Some)),
    {
        let n = self.groups.len();
        if n == 0 {
            return Err(Error::NotFound);
        }
        let ghost pre = self.groups@;
        let last = &mut self.groups[n - 1];
        let res = last.finish_object();
        proof {
            assert(self.groups@.take(pre.len() - 1) =~= pre.take(pre.len() - 1));
            assert(forall|i: int| 0 <= i < pre.len() - 1 ==> self.groups@[i] == pre[i]);
        }
        res
    }

    /// What `reader`'s next blocking call observes: the newest group when
    /// the epoch moved, else the close state.
    pub fn next(&self, reader: &mut StreamReader) -> (r: StreamStep)
        requires
            self.wf(),
            old(reader).epoch <= self.epoch,
        ensures
            r == old(reader).spec_next_step(*self),
            *final(reader) == old(reader).spec_next_cursor(*self),
            final(reader).epoch <= self.epoch,
    {
        if reader.epoch != self.epoch {
            reader.epoch = self.epoch;
            return StreamStep::Group(self.groups.len() - 1);
        }
        match self.closed {
            None => StreamStep::Pending,
            Some(Error::Done) => StreamStep::Done,
            Some(e) => StreamStep::Failed(e),
        }
    }
}

impl StreamReader {
    /// A cursor that has seen nothing yet.
    pub fn new() -> (r: Self)
        ensures
            r.epoch == 0,
    {
        StreamReader { epoch: 0 }
    }

    /// The observation a cursor makes on `state`.
    pub open spec fn spec_next_step(self, state: StreamState) -> StreamStep {
        if self.epoch != state.epoch {
            StreamStep::Group((state.groups.len() - 1) as usize)
        } else {
            match state.closed {
                None => StreamStep::Pending,
                Some(Error::Done) => StreamStep::Done,
                Some(e) => StreamStep::Failed(e),
            }
        }
    }

    /// The cursor after one observation.
    pub open spec fn spec_next_cursor(self, state: StreamState) -> StreamReader {
        if self.epoch != state.epoch {
            StreamReader { epoch: state.epoch }
        } else {
            self
        }
    }
}

} // verus!
