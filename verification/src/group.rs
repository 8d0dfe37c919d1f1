//! Groups: ordered sequences of objects sharing a group id and priority.
//!
//! A group writer appends objects with monotonically increasing object ids.
//! Objects may be written whole, or created with a declared size and filled
//! chunk by chunk. Readers walk the object list with their own cursor.

use vstd::prelude::*;
use crate::error::Error;
use crate::object::{ObjectInfo, ObjectState, total_len};

verus! {

/// Creation info for a group.
#[derive(Copy, Clone, Debug, PartialEq, Eq, Structural)]
pub struct Group {
    pub group_id: u64,
    pub priority: u64,
}

/// The state of one group: its objects in id order, and how it closed.
#[derive(Clone, Debug, PartialEq)]
pub struct GroupState {
    pub group_id: u64,
    pub priority: u64,
    pub next_object_id: u64,
    pub objects: Vec<ObjectState>,
    pub closed: Option<Error>,
}

/// A reader's private position in a group's object list.
#[derive(Copy, Clone, Debug, PartialEq, Eq, Structural)]
pub struct GroupReader {
    pub index: usize,
}

/// What a group reader's next blocking call would observe.
#[derive(Copy, Clone, Debug, PartialEq, Eq, Structural)]
pub enum GroupStep {
    /// The next object, by its position in the group.
    Object(usize),
    /// The group ended cleanly.
    Done,
    /// The group was closed with an error.
    Failed(Error),
    /// The call would block until the state changes.
    Pending,
}

impl GroupState {
    /// Objects are consistent, belong to this group, and carry increasing
    /// ids below the next to be assigned.
    pub open spec fn wf(self) -> bool {
        &&& forall|i: int| 0 <= i < self.objects.len() ==> (#[trigger] self.objects[i]).wf()
        &&& forall|i: int| 0 <= i < self.objects.len()
            ==> (#[trigger] self.objects[i]).info.group_id == self.group_id
        &&& forall|i: int| 0 <= i < self.objects.len()
            ==> (#[trigger] self.objects[i]).info.object_id < self.next_object_id
        &&& forall|i: int, j: int| 0 <= i < j < self.objects.len()
            ==> (#[trigger] self.objects[i]).info.object_id
                < (#[trigger] self.objects[j]).info.object_id
    }

    /// A fresh open group with no objects.
    pub fn new(info: Group) -> (s: Self)
        ensures
            s.group_id == info.group_id,
            s.priority == info.priority,
            s.next_object_id == 0,
            s.objects@.len() == 0,
            s.closed is None,
            s.wf(),
    {
        GroupState {
            group_id: info.group_id,
            priority: info.priority,
            next_object_id: 0,
            objects: Vec::new(),
            closed: None,
        }
    }

    /// Append a whole object carrying `payload`, under the next object id.
    /// Fails `Done` on a closed group.
    pub fn write(&mut self, payload: Vec<u8>) -> (r: Result<(), Error>)
        requires
            old(self).wf(),
            old(self).next_object_id < 0xffff_ffff_ffff_ffff,
        ensures
            final(self).wf(),
            final(self).group_id == old(self).group_id,
            final(self).priority == old(self).priority,
            match r {
                Ok(()) => old(self).closed is None
                    && final(self).objects@.len() == old(self).objects@.len() + 1
                    && final(self).objects@.last().info.object_id == old(self).next_object_id
                    && final(self).objects@.last().payload() == seq![payload@]
                    && final(self).objects@.last().spec_closed() == Some(Error::Done)
                    && final(self).objects@.take(old(self).objects@.len() as int)
                        == old(self).objects@
                    && final(self).next_object_id == old(self).next_object_id + 1
                    && final(self).closed is None,
                Err(e) => e == Error::Done && old(self).closed is Some
                    && *final(self) == *old(self),
            },
    {
        if self.closed.is_some() {
            return Err(Error::Done);
        }
        let len = payload.len();
        let info = ObjectInfo {
            group_id: self.group_id,
            object_id: self.next_object_id,
            priority: self.priority,
            size: Some(len),
        };
        let mut object = ObjectState::new(info);
        proof {
            assert(total_len(Seq::<Seq<u8>>::empty().push(payload@)) == payload@.len()) by {
                assert(Seq::<Seq<u8>>::empty().push(payload@).drop_last()
                    =~= Seq::<Seq<u8>>::empty());
            }
        }
        let res = object.write_chunk(payload);
        assert(res is Ok);
        object.writer_drop();
        let ghost pre = self.objects@;
        self.next_object_id = self.next_object_id + 1;
        self.objects.push(object);
        proof {
            assert(self.objects@.take(pre.len() as int) =~= pre);
            assert(self.objects@.last().payload() =~= seq![
                Seq::<Seq<u8>>::empty().push(payload@)[0],
            ]);
        }
        Ok(())
    }

    /// Start a new object with a declared size, under the next object id.
    /// Its chunks are then written through [`GroupState::chunk`]. Fails
    /// `Done` on a closed group.
    pub fn create(&mut self, size: usize) -> (r: Result<(), Error>)
        requires
            old(self).wf(),
            old(self).next_object_id < 0xffff_ffff_ffff_ffff,
        ensures
            final(self).wf(),
            final(self).group_id == old(self).group_id,
            final(self).priority == old(self).priority,
            match r {
                Ok(()) => old(self).closed is None
                    && final(self).objects@.len() == old(self).objects@.len() + 1
                    && final(self).objects@.last().info.object_id == old(self).next_object_id
                    && final(self).objects@.last().info.size == Some(size)
                    && final(self).objects@.last().payload() == Seq::<Seq<u8>>::empty()
                    && final(self).objects@.last().spec_closed() is None
                    && final(self).objects@.take(old(self).objects@.len() as int)
                        == old(self).objects@
                    && final(self).next_object_id == old(self).next_object_id + 1
                    && final(self).closed is None,
                Err(e) => e == Error::Done && old(self).closed is Some
                    && *final(self) == *old(self),
            },
    {
        if self.closed.is_some() {
            return Err(Error::Done);
        }
        let info = ObjectInfo {
            group_id: self.group_id,
            object_id: self.next_object_id,
            priority: self.priority,
            size: Some(size),
        };
        let object = ObjectState::new(info);
        let ghost pre = self.objects@;
        self.next_object_id = self.next_object_id + 1;
        self.objects.push(object);
        proof {
            assert(self.objects@.take(pre.len() as int) =~= pre);
        }
        Ok(())
    }

    /// Append a chunk to the newest object. Fails `NotFound` when there is
    /// no object; otherwise as [`ObjectState::write_chunk`].
    pub fn chunk(&mut self, data: Vec<u8>) -> (r: Result<(), Error>)
        requires
            old(self).wf(),
            old(self).objects@.len() > 0
                ==> old(self).objects@.last().spec_written() + data@.len() <= usize::MAX,
        ensures
            final(self).wf(),
            final(self).group_id == old(self).group_id,
            final(self).priority == old(self).priority,
            final(self).next_object_id == old(self).next_object_id,
            final(self).closed == old(self).closed,
            old(self).objects@.len() == 0 ==> r == Err::<(), Error>(Error::NotFound)
                && *final(self) == *old(self),
            old(self).objects@.len() > 0 ==> final(self).objects@.len()
                == old(self).objects@.len()
                && final(self).objects@.take(old(self).objects@.len() - 1)
                    == old(self).objects@.take(old(self).objects@.len() - 1)
                && match r {
                    Ok(()) => old(self).objects@.last().spec_closed() is None
                        && final(self).objects@.last().payload()
                            == old(self).objects@.last().payload().push(data@),
                    Err(e) => final(self).objects@.last() == old(self).objects@.last()
                        && (e == Error::Done || e == Error::Size),
                },
    {
        let n = self.objects.len();
        if n == 0 {
            return Err(Error::NotFound);
        }
        let ghost pre = self.objects@;
        let last = &mut self.objects[n - 1];
        let res = last.write_chunk(data);
        proof {
            assert(self.objects@.take(pre.len() - 1) =~= pre.take(pre.len() - 1));
            assert(forall|i: int| 0 <= i < pre.len() - 1
                ==> self.objects@[i] == pre[i]);
        }
        match res {
            Ok(()) => Ok(()),
            Err(e) => Err(e),
        }
    }

    /// Drop the writer of the newest object: closes it as
    /// [`ObjectState::writer_drop`] does. Fails `NotFound` with no object.
    pub fn finish_object(&mut self) -> (r: Result<(), Error>)
        requires
            old(self).wf(),
        ensures
            final(self).wf(),
            final(self).group_id == old(self).group_id,
            final(self).priority == old(self).priority,
            final(self).next_object_id == old(self).next_object_id,
            final(self).closed == old(self).closed,
            old(self).objects@.len() == 0 ==> r == Err::<(), Error>(Error::NotFound)
                && *final(self) == *old(self),
            old(self).objects@.len() > 0 ==> r == Ok::<(), Error>(())
                && final(self).objects@.len() == old(self).objects@.len()
                && final(self).objects@.take(old(self).objects@.len() - 1)
                    == old(self).objects@.take(old(self).objects@.len() - 1)
                && final(self).objects@.last().payload()
                    == old(self).objects@.last().payload()
                && (old(self).objects@.last().spec_closed() is Some
                    ==> final(self).objects@.last() == old(self).objects@.last())
                && (old(self).objects@.last().spec_closed() is None
                    ==> final(self).objects@.last().spec_closed() == Some(
                        if old(self).objects@.last().info.size is Some
                            && old(self).objects@.last().spec_written()
                                < old(self).objects@.last().info.size.unwrap() {
                            Error::Size
                        } else {
                            Error::Done
                        },
                    )),
    {
        let n = self.objects.len();
        if n == 0 {
            return Err(Error::NotFound);
        }
        let ghost pre = self.objects@;
        let last = &mut self.objects[n - 1];
        last.writer_drop();
        proof {
            assert(self.objects@.take(pre.len() - 1) =~= pre.take(pre.len() - 1));
            assert(forall|i: int| 0 <= i < pre.len() - 1
                ==> self.objects@[i] == pre[i]);
        }
        Ok(())
    }

    /// Close the group with an explicit error; closing an already closed
    /// group fails with the prior error.
    pub fn close(&mut self, err: Error) -> (r: Result<(), Error>)
        ensures
            final(self).objects == old(self).objects,
            final(self).group_id == old(self).group_id,
            final(self).priority == old(self).priority,
            final(self).next_object_id == old(self).next_object_id,
            old(self).wf() ==> final(self).wf(),
            match r {
                Ok(()) => old(self).closed is None && final(self).closed == Some(err),
                Err(e) => old(self).closed == Some(e) && *final(self) == *old(self),
            },
    {
        match self.closed {
            Some(e) => {
                return Err(e);
            },
            None => {},
        }
        self.closed = Some(err);
        Ok(())
    }

    /// The id of the newest object, or 0 with no objects.
    pub fn latest(&self) -> (r: u64)
        ensures
            r == if self.objects@.len() == 0 {
                0u64
            } else {
                self.objects@.last().info.object_id
            },
    {
        let n = self.objects.len();
        if n == 0 {
            0
        } else {
            self.objects[n - 1].info.object_id
        }
    }

    /// Borrow the object at `index`, for reading its chunks.
    pub fn object(&self, index: usize) -> (r: &ObjectState)
        requires
            index < self.objects@.len(),
        ensures
            *r == self.objects@[index as int],
    {
        &self.objects[index]
    }

    /// What `reader`'s next blocking call observes, advancing the cursor
    /// past the object it returns.
    pub fn next(&self, reader: &mut GroupReader) -> (r: GroupStep)
        ensures
            r == old(reader).spec_next_step(*self),
            *final(reader) == old(reader).spec_next_cursor(*self),
    {
        if reader.index < self.objects.len() {
            let i = reader.index;
            reader.index = i + 1;
            return GroupStep::Object(i);
        }
        match self.closed {
            None => GroupStep::Pending,
            Some(Error::Done) => GroupStep::Done,
            Some(e) => GroupStep::Failed(e),
        }
    }
}

impl GroupReader {
    /// A cursor at the first object.
    pub fn new() -> (r: Self)
        ensures
            r.index == 0,
    {
        GroupReader { index: 0 }
    }

    /// The observation a cursor makes on `state`.
    pub open spec fn spec_next_step(self, state: GroupState) -> GroupStep {
        if self.index < state.objects.len() {
            GroupStep::Object(self.index)
        } else {
            match state.closed {
                None => GroupStep::Pending,
                Some(Error::Done) => GroupStep::Done,
                Some(e) => GroupStep::Failed(e),
            }
        }
    }

    /// The cursor after one observation.
    pub open spec fn spec_next_cursor(self, state: GroupState) -> GroupReader {
        if self.index < state.objects.len() {
            GroupReader { index: (self.index + 1) as usize }
        } else {
            self
        }
    }
}

} // verus!
