//! Single objects: a byte payload that accumulates as a list of chunks.
//!
//! An object may declare its size up front. A writer that is dropped before
//! filling a declared size closes the object with a `Size` error; a writer
//! dropped after filling it (or with no declared size) closes it with the
//! benign `Done`. Readers hold their own cursor into the chunk list, so any
//! number of them can replay the same bytes.

use vstd::prelude::*;
use crate::error::Error;

verus! {

/// Identification of one object within a track.
#[derive(Copy, Clone, Debug, PartialEq, Eq, Structural)]
pub struct Object {
    /// The id of the group this object belongs to.
    pub group_id: u64,
    /// The id of the object within its group.
    pub object_id: u64,
    /// The send priority of the stream carrying it.
    pub priority: u64,
}

/// Identification of one object, together with its declared size if any.
#[derive(Copy, Clone, Debug, PartialEq, Eq, Structural)]
pub struct ObjectInfo {
    pub group_id: u64,
    pub object_id: u64,
    pub priority: u64,
    /// Total payload size promised by the writer, if declared.
    pub size: Option<usize>,
}

/// What a reader's next blocking call would observe.
#[derive(Clone, Debug, PartialEq)]
pub enum ReadStep {
    /// The next chunk of bytes.
    Chunk(Vec<u8>),
    /// The entity ended cleanly; no more data will come.
    Done,
    /// The entity was closed with an error.
    Failed(Error),
    /// Nothing yet: the call would block until the state changes.
    Pending,
}

/// The mathematical value of a [`ReadStep`].
pub enum ReadStepView {
    Chunk(Seq<u8>),
    Done,
    Failed(Error),
    Pending,
}

impl View for ReadStep {
    type V = ReadStepView;

    open spec fn view(&self) -> ReadStepView {
        match self {
            ReadStep::Chunk(c) => ReadStepView::Chunk(c@),
            ReadStep::Done => ReadStepView::Done,
            ReadStep::Failed(e) => ReadStepView::Failed(*e),
            ReadStep::Pending => ReadStepView::Pending,
        }
    }
}

/// The sum of the chunk lengths.
pub open spec fn total_len(chunks: Seq<Seq<u8>>) -> nat
    decreases chunks.len(),
{
    if chunks.len() == 0 {
        0
    } else {
        total_len(chunks.drop_last()) + chunks.last().len()
    }
}

/// The shared state of one object: its info, the chunks written so far, and
/// whether (and how) it was closed. A writer mutates it; readers observe it
/// through [`ObjectReader`] cursors.
#[derive(Clone, Debug, PartialEq)]
pub struct ObjectState {
    pub info: ObjectInfo,
    pub chunks: Vec<Vec<u8>>,
    pub written: usize,
    pub closed: Option<Error>,
}

/// A reader's private position in an object's chunk list. Clones inherit
/// the position, then advance independently.
#[derive(Copy, Clone, Debug, PartialEq, Eq, Structural)]
pub struct ObjectReader {
    pub index: usize,
}

impl ObjectState {
    /// The chunks written so far, oldest first.
    pub open spec fn payload(self) -> Seq<Seq<u8>> {
        self.chunks.deep_view()
    }

    /// How the object was closed, if it was.
    pub open spec fn spec_closed(self) -> Option<Error> {
        self.closed
    }

    /// The bytes accepted so far.
    pub open spec fn spec_written(self) -> nat {
        self.written as nat
    }

    /// The state is consistent: the byte count matches the chunks and never
    /// exceeds a declared size.
    pub open spec fn wf(self) -> bool {
        &&& self.written == total_len(self.payload())
        &&& self.info.size matches Some(sz) ==> self.written <= sz
    }

    /// A fresh open object with no chunks.
    pub fn new(info: ObjectInfo) -> (s: Self)
        ensures
            s.info == info,
            s.payload() == Seq::<Seq<u8>>::empty(),
            s.spec_closed() is None,
            s.spec_written() == 0,
            s.wf(),
    {
        let s = ObjectState { info, chunks: Vec::new(), written: 0, closed: None };
        proof {
            assert(s.payload() =~= Seq::<Seq<u8>>::empty());
        }
        s
    }

    /// Append a chunk. Fails `Done` on a closed object; fails `Size`, and
    /// changes nothing, when the chunk would overrun a declared size.
    pub fn write_chunk(&mut self, chunk: Vec<u8>) -> (r: Result<(), Error>)
        requires
            old(self).wf(),
            old(self).spec_written() + chunk@.len() <= usize::MAX,
        ensures
            final(self).wf(),
            final(self).info == old(self).info,
            match r {
                Ok(()) => old(self).spec_closed() is None
                    && (old(self).info.size matches Some(sz)
                        ==> old(self).spec_written() + chunk@.len() <= sz)
                    && final(self).payload() == old(self).payload().push(chunk@)
                    && final(self).spec_written() == old(self).spec_written() + chunk@.len()
                    && final(self).spec_closed() is None,
                Err(e) => *final(self) == *old(self)
                    && ((e == Error::Done && old(self).spec_closed() is Some)
                        || (e == Error::Size && old(self).spec_closed() is None
                            && old(self).info.size is Some
                            && old(self).spec_written() + chunk@.len()
                                > old(self).info.size.unwrap())),
            },
    {
        if self.closed.is_some() {
            return Err(Error::Done);
        }
        match self.info.size {
            Some(sz) => {
                if chunk.len() > sz - self.written {
                    return Err(Error::Size);
                }
            },
            None => {},
        }
        proof {
            assert(total_len(self.payload().push(chunk@))
                == total_len(self.payload()) + chunk@.len()) by {
                assert(self.payload().push(chunk@).drop_last() =~= self.payload());
            }
        }
        let len = chunk.len();
        self.written = self.written + len;
        let ghost pre = self.chunks.deep_view();
        self.chunks.push(chunk);
        proof {
            assert(self.chunks.deep_view() =~~= pre.push(chunk@));
        }
        Ok(())
    }

    /// Close with an explicit error. A benign `Done` that leaves a declared
    /// size unfilled is recorded as `Size` instead; closing an already
    /// closed object fails with the prior error.
    pub fn close(&mut self, err: Error) -> (r: Result<(), Error>)
        ensures
            final(self).info == old(self).info,
            final(self).payload() == old(self).payload(),
            final(self).spec_written() == old(self).spec_written(),
            old(self).wf() ==> final(self).wf(),
            match r {
                Ok(()) => old(self).spec_closed() is None
                    && final(self).spec_closed() == Some(
                        if err == Error::Done && old(self).info.size is Some
                            && old(self).spec_written() < old(self).info.size.unwrap() {
                            Error::Size
                        } else {
                            err
                        },
                    ),
                Err(e) => old(self).spec_closed() == Some(e) && *final(self) == *old(self),
            },
    {
        match self.closed {
            Some(e) => {
                return Err(e);
            },
            None => {},
        }
        let mut recorded = err;
        if err == Error::Done {
            match self.info.size {
                Some(sz) => {
                    if self.written < sz {
                        recorded = Error::Size;
                    }
                },
                None => {},
            }
        }
        self.closed = Some(recorded);
        Ok(())
    }

    /// What the writer's drop does: nothing if the object is already
    /// closed; `Size` if a declared size was not filled; `Done` otherwise.
    pub fn writer_drop(&mut self)
        ensures
            final(self).info == old(self).info,
            final(self).payload() == old(self).payload(),
            final(self).spec_written() == old(self).spec_written(),
            old(self).wf() ==> final(self).wf(),
            old(self).spec_closed() is Some ==> *final(self) == *old(self),
            old(self).spec_closed() is None ==> final(self).spec_closed() == Some(
                if old(self).info.size matches Some(sz) && old(self).spec_written() < sz {
                    Error::Size
                } else {
                    Error::Done
                },
            ),
    {
        if self.closed.is_some() {
            return;
        }
        match self.info.size {
            Some(sz) => {
                if self.written < sz {
                    self.closed = Some(Error::Size);
                } else {
                    self.closed = Some(Error::Done);
                }
            },
            None => {
                self.closed = Some(Error::Done);
            },
        }
    }

    /// What `reader`'s next blocking call observes, advancing the cursor
    /// past the chunk it returns. Deterministic in the state and cursor, so
    /// every cloned reader sees the same bytes from the same position.
    pub fn read(&self, reader: &mut ObjectReader) -> (r: ReadStep)
        ensures
            r@ == old(reader).spec_read_step(*self),
            *final(reader) == old(reader).spec_read_next(*self),
    {
        if reader.index < self.chunks.len() {
            proof {
                assert(self.payload()[reader.index as int] =~= self.chunks@[reader.index as int]@);
            }
            let chunk = clone_bytes(&self.chunks[reader.index]);
            reader.index = reader.index + 1;
            return ReadStep::Chunk(chunk);
        }
        match self.closed {
            None => ReadStep::Pending,
            Some(Error::Done) => ReadStep::Done,
            Some(e) => ReadStep::Failed(e),
        }
    }
}

impl ObjectReader {
    /// A cursor at the start of the payload.
    pub fn new() -> (r: Self)
        ensures
            r.index == 0,
    {
        ObjectReader { index: 0 }
    }

    /// The observation a cursor makes on `state`.
    pub open spec fn spec_read_step(self, state: ObjectState) -> ReadStepView {
        if self.index < state.payload().len() {
            ReadStepView::Chunk(state.payload()[self.index as int])
        } else {
            match state.spec_closed() {
                None => ReadStepView::Pending,
                Some(Error::Done) => ReadStepView::Done,
                Some(e) => ReadStepView::Failed(e),
            }
        }
    }

    /// The cursor after one observation: advanced past a returned chunk,
    /// unchanged otherwise.
    pub open spec fn spec_read_next(self, state: ObjectState) -> ObjectReader {
        if self.index < state.payload().len() {
            ObjectReader { index: (self.index + 1) as usize }
        } else {
            self
        }
    }
}

/// Drop closes, at the chunk level: once an object is closed — as the
/// drop of its writer does — no reader cursor blocks again: each read
/// yields a pending chunk, then `Done` for a benign close or the closing
/// error; every cached chunk is delivered exactly once, in write order,
/// before the close is surfaced.
pub proof fn lemma_object_drop_closes(state: ObjectState, reader: ObjectReader)
    ensures
        state.spec_closed() is Some ==> !(reader.spec_read_step(state) is Pending),
        reader.index >= state.payload().len() && state.spec_closed() == Some(Error::Done)
            ==> reader.spec_read_step(state) is Done,
        reader.index < state.payload().len() ==> reader.spec_read_step(state)
            == ReadStepView::Chunk(state.payload()[reader.index as int])
            && reader.spec_read_next(state).index == (reader.index + 1) as usize,
{
}

/// Copy a chunk.
fn clone_bytes(b: &Vec<u8>) -> (r: Vec<u8>)
    ensures
        r@ == b@,
{
    let mut r: Vec<u8> = Vec::new();
    let mut i: usize = 0;
    while i < b.len()
        invariant
            i <= b.len(),
            r@ == b@.take(i as int),
        decreases b.len() - i,
    {
        r.push(b[i]);
        i = i + 1;
        assert(r@ =~= b@.take(i as int));
    }
    assert(b@.take(b@.len() as int) =~= b@);
    r
}

} // verus!
