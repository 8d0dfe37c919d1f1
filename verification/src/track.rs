//! Tracks: the mode cache at the heart of the serve tree.
//!
//! A track starts in `Init` and is locked into one mode family by its first
//! write: a single ordered stream, a latest-group cache, a latest-group
//! object list, or a most-recent datagram. Any operation of another family
//! fails with `Mode` and changes nothing. A monotonic epoch counts
//! insertions so that cloned readers can resume from their last-seen
//! position; a reader that falls behind skips stale history and sees the
//! newest groups first.

use vstd::prelude::*;
use crate::error::Error;
use crate::group::{Group, GroupState};
use crate::object::{ObjectInfo, ObjectState, total_len};
use crate::stream::StreamState;

verus! {

/// Static information about a track.
#[derive(Clone, Debug, PartialEq)]
pub struct Track {
    pub namespace: Vec<u8>,
    pub name: Vec<u8>,
}

/// The object-mode cache: the objects of the newest group, in arrival
/// order.
#[derive(Clone, Debug, PartialEq)]
pub struct Objects {
    pub objects: Vec<ObjectState>,
}

/// A datagram as cached by a track: addressing and payload.
#[derive(Clone, Debug, PartialEq)]
pub struct DatagramInfo {
    pub group_id: u64,
    pub object_id: u64,
    pub priority: u64,
    pub payload: Vec<u8>,
}

/// The five states of the mode cache.
#[derive(Clone, Debug, PartialEq)]
pub enum Cache {
    /// No data yet: the first write decides the mode.
    Init,
    /// One ordered stream for the whole track.
    Stream(StreamState),
    /// The newest group.
    Group(GroupState),
    /// The objects of the newest group.
    Object(Objects),
    /// The most recent datagram.
    Datagram(DatagramInfo),
}

/// The variant family of the cache, without its contents.
#[derive(Copy, Clone, Debug, PartialEq, Eq, Structural)]
pub enum ModeFamily {
    Init,
    Stream,
    Group,
    Object,
    Datagram,
}

/// The event a track reader observes.
#[derive(Copy, Clone, Debug, PartialEq, Eq, Structural)]
pub enum TrackMode {
    /// The track entered stream mode; read groups through the stream state.
    Stream,
    /// A group with this id is the newest; read it through the group state.
    Group(u64),
    /// The object at this index of the object-mode cache.
    Object(usize),
    /// A new datagram is cached; read it through the datagram accessor.
    Datagram,
}

/// What a track reader's next blocking call would observe.
#[derive(Copy, Clone, Debug, PartialEq, Eq, Structural)]
pub enum TrackStep {
    Event(TrackMode),
    /// The track ended cleanly.
    Done,
    /// The track was closed with an error.
    Failed(Error),
    /// The call would block until the state changes.
    Pending,
}

/// The largest value in a sequence of ids; 0 when empty.
pub open spec fn seq_max(s: Seq<u64>) -> u64
    decreases s.len(),
{
    if s.len() == 0 {
        0
    } else if s.last() > seq_max(s.drop_last()) {
        s.last()
    } else {
        seq_max(s.drop_last())
    }
}

pub proof fn lemma_seq_max_push(s: Seq<u64>, x: u64)
    ensures
        seq_max(s.push(x)) == if x > seq_max(s) {
            x
        } else {
            seq_max(s)
        },
{
    assert(s.push(x).drop_last() =~= s);
}

/// The shared state of one track. A writer mutates it; readers observe it
/// through [`TrackReader`] cursors.
#[derive(Clone)]
pub struct TrackState {
    pub info: Track,
    pub cache: Cache,
    /// Bumped on every insertion into the cache.
    pub epoch: u64,
    pub closed: Option<Error>,
    /// Every group id ever submitted to this track, in order.
    pub groups_seen: Ghost<Seq<u64>>,
}

/// A reader's private position: the epoch it has caught up to. Clones
/// inherit the position, then advance independently.
#[derive(Copy, Clone, Debug, PartialEq, Eq, Structural)]
pub struct TrackReader {
    pub epoch: u64,
}

impl Cache {
    /// The variant family of this cache.
    pub open spec fn family(self) -> ModeFamily {
        match self {
            Cache::Init => ModeFamily::Init,
            Cache::Stream(_) => ModeFamily::Stream,
            Cache::Group(_) => ModeFamily::Group,
            Cache::Object(_) => ModeFamily::Object,
            Cache::Datagram(_) => ModeFamily::Datagram,
        }
    }
}

/// One writer operation relates a track state to its successor: the mode
/// family never changes once it has left `Init`.
pub open spec fn writer_step(pre: TrackState, post: TrackState) -> bool {
    pre.cache.family() is Init || post.cache.family() == pre.cache.family()
}

/// A sequence of states is a writer run when consecutive states are related
/// by one writer operation.
pub open spec fn writer_run(states: Seq<TrackState>) -> bool {
    forall|i: int| 0 <= i < states.len() - 1 ==> writer_step(
        #[trigger] states[i],
        states[i + 1],
    )
}

/// Mode monotonicity: across every writer run, once the mode has left
/// `Init` it stays in the same variant family.
pub proof fn lemma_mode_monotonic(states: Seq<TrackState>, i: int, j: int)
    requires
        writer_run(states),
        0 <= i <= j < states.len(),
        !(states[i].cache.family() is Init),
    ensures
        states[j].cache.family() == states[i].cache.family(),
    decreases j - i,
{
    if i < j {
        assert(writer_step(states[j - 1], states[j]));
        lemma_mode_monotonic(states, i, j - 1);
    }
}

/// A freshly installed group-mode cache for `group`.
pub open spec fn spec_is_fresh_group(cache: Cache, group: Group) -> bool {
    cache matches Cache::Group(g) && g.group_id == group.group_id
        && g.priority == group.priority && g.objects@.len() == 0
        && g.next_object_id == 0 && g.closed is None
}

/// Whether an object of `group_id` is silently dropped: the object-mode
/// cache already holds a newer group.
pub open spec fn spec_drops_object(cache: Cache, group_id: u64) -> bool {
    cache matches Cache::Object(o0) && o0.objects@[0].info.group_id > group_id
}

/// The largest object id in a list of objects; 0 when empty.
pub open spec fn max_object_id(objs: Seq<crate::object::ObjectState>) -> u64
    decreases objs.len(),
{
    if objs.len() == 0 {
        0
    } else if objs.last().info.object_id > max_object_id(objs.drop_last()) {
        objs.last().info.object_id
    } else {
        max_object_id(objs.drop_last())
    }
}

proof fn lemma_max_object_id_take(objs: Seq<crate::object::ObjectState>, i: int)
    requires
        0 <= i < objs.len(),
    ensures
        max_object_id(objs.take(i + 1)) == if objs[i].info.object_id
            > max_object_id(objs.take(i)) {
            objs[i].info.object_id
        } else {
            max_object_id(objs.take(i))
        },
{
    assert(objs.take(i + 1).drop_last() =~= objs.take(i));
}

impl TrackState {
    /// The cache is consistent with the epoch and with the group history:
    /// in group and object modes the cache holds exactly the newest group
    /// submitted so far.
    pub open spec fn wf(self) -> bool {
        match self.cache {
            Cache::Init => self.epoch == 0 && self.groups_seen@.len() == 0,
            Cache::Stream(s) => s.wf() && self.epoch >= 1,
            Cache::Group(g) => {
                &&& g.wf()
                &&& self.epoch >= 1
                &&& self.groups_seen@.len() > 0
                &&& g.group_id == seq_max(self.groups_seen@)
            },
            Cache::Object(o) => {
                &&& o.objects@.len() >= 1
                &&& self.epoch >= o.objects@.len()
                &&& forall|k: int| 0 <= k < o.objects@.len()
                    ==> (#[trigger] o.objects@[k]).wf()
                &&& forall|k: int| 0 <= k < o.objects@.len()
                    ==> (#[trigger] o.objects@[k]).info.group_id == o.objects@[0].info.group_id
                &&& self.groups_seen@.len() > 0
                &&& o.objects@[0].info.group_id == seq_max(self.groups_seen@)
            },
            Cache::Datagram(_) => self.epoch >= 1,
        }
    }

    /// Create a group with the given id and priority, replacing the cache.
    ///
    /// Fails with the closing error on a closed track and `Mode` outside
    /// the group family; fails `Duplicate` when the id equals the newest
    /// group's; silently drops an id below the newest.
    pub fn create_group(&mut self, group: Group) -> (r: Result<(), Error>)
        requires
            old(self).wf(),
            old(self).epoch < 0xffff_ffff_ffff_ffff,
        ensures
            final(self).wf(),
            final(self).info == old(self).info,
            final(self).closed == old(self).closed,
            writer_step(*old(self), *final(self)),
            old(self).closed matches Some(e0) ==> r == Err::<(), Error>(e0),
            old(self).closed is None && old(self).cache is Init ==> r is Ok,
            old(self).closed is None ==> (old(self).cache matches Cache::Group(g0) ==> {
                &&& g0.group_id == group.group_id ==> r == Err::<(), Error>(Error::Duplicate)
                &&& g0.group_id != group.group_id ==> r is Ok
            }),
            old(self).closed is None && !(old(self).cache.family() is Init)
                && !(old(self).cache.family() is Group)
                ==> r == Err::<(), Error>(Error::Mode),
            match r {
                Ok(()) => {
                    &&& old(self).closed is None
                    &&& final(self).groups_seen@
                        == old(self).groups_seen@.push(group.group_id)
                    &&& old(self).cache.family() is Init || old(self).cache.family() is Group
                    &&& old(self).cache is Init ==> spec_is_fresh_group(
                        final(self).cache, group) && final(self).epoch == old(self).epoch + 1
                    &&& old(self).cache matches Cache::Group(g0) ==> {
                        &&& g0.group_id != group.group_id
                        &&& g0.group_id > group.group_id
                            ==> final(self).cache == old(self).cache
                                && final(self).epoch == old(self).epoch
                        &&& g0.group_id < group.group_id
                            ==> spec_is_fresh_group(final(self).cache, group)
                                && final(self).epoch == old(self).epoch + 1
                    }
                },
                Err(e) => {
                    &&& *final(self) == *old(self)
                    &&& old(self).closed is None && e == Error::Duplicate
                        ==> (old(self).cache matches Cache::Group(g0)
                            && g0.group_id == group.group_id)
                    &&& old(self).closed is None && e == Error::Mode
                        ==> !(old(self).cache.family() is Init)
                            && !(old(self).cache.family() is Group)
                    &&& old(self).closed is Some ==> old(self).closed == Some(e)
                    &&& old(self).closed is None ==> e == Error::Duplicate
                        || e == Error::Mode
                },
            },
    {
        match self.closed {
            Some(e) => {
                return Err(e);
            },
            None => {},
        }
        match &self.cache {
            Cache::Init => {},
            Cache::Group(g0) => {
                if g0.group_id == group.group_id {
                    return Err(Error::Duplicate);
                }
                if g0.group_id > group.group_id {
                    proof {
                        lemma_seq_max_push(self.groups_seen@, group.group_id);
                    }
                    self.groups_seen = Ghost(self.groups_seen@.push(group.group_id));
                    return Ok(());
                }
            },
            _ => {
                return Err(Error::Mode);
            },
        }
        proof {
            lemma_seq_max_push(self.groups_seen@, group.group_id);
        }
        self.groups_seen = Ghost(self.groups_seen@.push(group.group_id));
        self.cache = Cache::Group(GroupState::new(group));
        self.epoch = self.epoch + 1;
        Ok(())
    }

    /// Write a whole object into the object-mode cache, keeping only the
    /// newest group: an older group's object is silently dropped, a newer
    /// group's object clears the cache first.
    pub fn write_object(&mut self, object: crate::object::Object, payload: Vec<u8>) -> (r:
        Result<(), Error>)
        requires
            old(self).wf(),
            old(self).epoch < 0xffff_ffff_ffff_ffff,
        ensures
            final(self).wf(),
            final(self).info == old(self).info,
            final(self).closed == old(self).closed,
            writer_step(*old(self), *final(self)),
            old(self).closed matches Some(e0) ==> r == Err::<(), Error>(e0),
            old(self).closed is None && (old(self).cache.family() is Init
                || old(self).cache.family() is Object) ==> r is Ok,
            old(self).closed is None && !(old(self).cache.family() is Init)
                && !(old(self).cache.family() is Object)
                ==> r == Err::<(), Error>(Error::Mode),
            match r {
                Ok(()) => {
                    &&& old(self).closed is None
                    &&& final(self).groups_seen@
                        == old(self).groups_seen@.push(object.group_id)
                    &&& spec_drops_object(old(self).cache, object.group_id)
                        ==> final(self).cache == old(self).cache
                            && final(self).epoch == old(self).epoch
                    &&& !spec_drops_object(old(self).cache, object.group_id)
                        ==> (final(self).cache matches Cache::Object(o)
                            && o.objects@.last().info.group_id == object.group_id
                            && o.objects@.last().info.object_id == object.object_id
                            && o.objects@.last().payload() == seq![payload@]
                            && final(self).epoch == old(self).epoch + 1)
                },
                Err(e) => {
                    &&& *final(self) == *old(self)
                    &&& old(self).closed is Some ==> old(self).closed == Some(e)
                    &&& old(self).closed is None ==> e == Error::Mode
                        && !(old(self).cache.family() is Init)
                        && !(old(self).cache.family() is Object)
                },
            },
    {
        match self.closed {
            Some(e) => {
                return Err(e);
            },
            None => {},
        }
        let len = payload.len();
        let info = ObjectInfo {
            group_id: object.group_id,
            object_id: object.object_id,
            priority: object.priority,
            size: Some(len),
        };
        let mut state = ObjectState::new(info);
        proof {
            assert(total_len(Seq::<Seq<u8>>::empty().push(payload@)) == payload@.len()) by {
                assert(Seq::<Seq<u8>>::empty().push(payload@).drop_last()
                    =~= Seq::<Seq<u8>>::empty());
            }
        }
        let res = state.write_chunk(payload);
        assert(res is Ok);
        state.writer_drop();
        proof {
            assert(state.payload() =~= seq![state.payload()[0]]);
        }
        self.insert_object(state)
    }

    /// Create an open object with a declared size in the object-mode
    /// cache; its chunks then arrive through [`TrackState::object_chunk`].
    pub fn create_object(&mut self, header: ObjectInfo) -> (r: Result<(), Error>)
        requires
            old(self).wf(),
            old(self).epoch < 0xffff_ffff_ffff_ffff,
        ensures
            final(self).wf(),
            final(self).info == old(self).info,
            final(self).closed == old(self).closed,
            writer_step(*old(self), *final(self)),
            old(self).closed matches Some(e0) ==> r == Err::<(), Error>(e0),
            old(self).closed is None && (old(self).cache.family() is Init
                || old(self).cache.family() is Object) ==> r is Ok,
            old(self).closed is None && !(old(self).cache.family() is Init)
                && !(old(self).cache.family() is Object)
                ==> r == Err::<(), Error>(Error::Mode),
            match r {
                Ok(()) => {
                    &&& old(self).closed is None
                    &&& final(self).groups_seen@
                        == old(self).groups_seen@.push(header.group_id)
                    &&& spec_drops_object(old(self).cache, header.group_id)
                        ==> final(self).cache == old(self).cache
                            && final(self).epoch == old(self).epoch
                    &&& !spec_drops_object(old(self).cache, header.group_id)
                        ==> (final(self).cache matches Cache::Object(o)
                            && o.objects@.last().info == header
                            && o.objects@.last().payload() == Seq::<Seq<u8>>::empty()
                            && o.objects@.last().spec_closed() is None
                            && final(self).epoch == old(self).epoch + 1)
                },
                Err(e) => {
                    &&& *final(self) == *old(self)
                    &&& old(self).closed is Some ==> old(self).closed == Some(e)
                    &&& old(self).closed is None ==> e == Error::Mode
                        && !(old(self).cache.family() is Init)
                        && !(old(self).cache.family() is Object)
                },
            },
    {
        match self.closed {
            Some(e) => {
                return Err(e);
            },
            None => {},
        }
        let state = ObjectState::new(header);
        self.insert_object(state)
    }

    /// Merge one object state into the object-mode cache.
    fn insert_object(&mut self, state: ObjectState) -> (r: Result<(), Error>)
        requires
            old(self).wf(),
            old(self).closed is None,
            old(self).epoch < 0xffff_ffff_ffff_ffff,
            state.wf(),
        ensures
            final(self).wf(),
            final(self).info == old(self).info,
            final(self).closed == old(self).closed,
            writer_step(*old(self), *final(self)),
            old(self).cache.family() is Init || old(self).cache.family() is Object
                ==> r is Ok,
            match r {
                Ok(()) => {
                    &&& final(self).groups_seen@
                        == old(self).groups_seen@.push(state.info.group_id)
                    &&& spec_drops_object(old(self).cache, state.info.group_id)
                        ==> final(self).cache == old(self).cache
                            && final(self).epoch == old(self).epoch
                    &&& !spec_drops_object(old(self).cache, state.info.group_id)
                        ==> (final(self).cache matches Cache::Object(o)
                            && o.objects@.last() == state
                            && final(self).epoch == old(self).epoch + 1)
                },
                Err(e) => *final(self) == *old(self) && e == Error::Mode
                    && !(old(self).cache.family() is Init)
                    && !(old(self).cache.family() is Object),
            },
    {
        let id = state.info.group_id;
        match &mut self.cache {
            Cache::Init => {
                let mut objects: Vec<ObjectState> = Vec::new();
                objects.push(state);
                proof {
                    lemma_seq_max_push(self.groups_seen@, id);
                }
                self.groups_seen = Ghost(self.groups_seen@.push(id));
                self.cache = Cache::Object(Objects { objects });
                self.epoch = self.epoch + 1;
                Ok(())
            },
            Cache::Object(o) => {
                let first_id = o.objects[0].info.group_id;
                if first_id > id {
                    proof {
                        lemma_seq_max_push(self.groups_seen@, id);
                    }
                    self.groups_seen = Ghost(self.groups_seen@.push(id));
                    return Ok(());
                }
                if first_id < id {
                    o.objects = Vec::new();
                }
                o.objects.push(state);
                proof {
                    lemma_seq_max_push(self.groups_seen@, id);
                }
                self.groups_seen = Ghost(self.groups_seen@.push(id));
                self.epoch = self.epoch + 1;
                Ok(())
            },
            _ => Err(Error::Mode),
        }
    }

    /// Append a chunk to the newest object of the object-mode cache, as
    /// [`ObjectState::write_chunk`]. Fails `Mode` outside object mode.
    pub fn object_chunk(&mut self, data: Vec<u8>) -> (r: Result<(), Error>)
        requires
            old(self).wf(),
            old(self).cache matches Cache::Object(o)
                ==> o.objects@.last().spec_written() + data@.len() <= usize::MAX,
        ensures
            final(self).wf(),
            final(self).info == old(self).info,
            final(self).closed == old(self).closed,
            final(self).epoch == old(self).epoch,
            final(self).groups_seen == old(self).groups_seen,
            writer_step(*old(self), *final(self)),
            !(old(self).cache is Object) ==> r == Err::<(), Error>(Error::Mode)
                && *final(self) == *old(self),
            old(self).cache matches Cache::Object(o0) ==> (final(self).cache matches
                Cache::Object(o)
                && o.objects@.len() == o0.objects@.len()
                && match r {
                    Ok(()) => o0.objects@.last().spec_closed() is None
                        && o.objects@.last().payload()
                            == o0.objects@.last().payload().push(data@),
                    Err(e) => o.objects@.last() == o0.objects@.last()
                        && ((e == Error::Done && o0.objects@.last().spec_closed() is Some)
                            || (e == Error::Size
                                && o0.objects@.last().spec_closed() is None)),
                }),
    {
        match &mut self.cache {
            Cache::Object(o) => {
                let n = o.objects.len();
                let ghost pre = o.objects@;
                let last = &mut o.objects[n - 1];
                let res = last.write_chunk(data);
                proof {
                    assert(forall|k: int| 0 <= k < pre.len() - 1
                        ==> o.objects@[k] == pre[k]);
                }
                res
            },
            _ => Err(Error::Mode),
        }
    }

    /// Drop the writer of the newest object of the object-mode cache, as
    /// [`ObjectState::writer_drop`]. Fails `Mode` outside object mode.
    pub fn object_finish(&mut self) -> (r: Result<(), Error>)
        requires
            old(self).wf(),
        ensures
            final(self).wf(),
            final(self).info == old(self).info,
            final(self).closed == old(self).closed,
            final(self).epoch == old(self).epoch,
            final(self).groups_seen == old(self).groups_seen,
            writer_step(*old(self), *final(self)),
            !(old(self).cache is Object) ==> r == Err::<(), Error>(Error::Mode)
                && *final(self) == *old(self),
            old(self).cache is Object ==> r == Ok::<(), Error>(()),
            old(self).cache matches Cache::Object(o0) ==> (final(self).cache matches
                Cache::Object(o)
                && o.objects@.len() == o0.objects@.len()
                && o.objects@.last().payload() == o0.objects@.last().payload()
                && (o0.objects@.last().spec_closed() is None
                    ==> o.objects@.last().spec_closed() == Some(
                        if o0.objects@.last().info.size is Some
                            && o0.objects@.last().spec_written()
                                < o0.objects@.last().info.size.unwrap() {
                            Error::Size
                        } else {
                            Error::Done
                        },
                    ))
                && (o0.objects@.last().spec_closed() is Some
                    ==> o.objects@.last() == o0.objects@.last())),
    {
        match &mut self.cache {
            Cache::Object(o) => {
                let n = o.objects.len();
                let ghost pre = o.objects@;
                let last = &mut o.objects[n - 1];
                last.writer_drop();
                proof {
                    assert(forall|k: int| 0 <= k < pre.len() - 1
                        ==> o.objects@[k] == pre[k]);
                }
                Ok(())
            },
            _ => Err(Error::Mode),
        }
    }

    /// Lock the track into stream mode; only valid from `Init`.
    pub fn create_stream(&mut self, send_order: u64) -> (r: Result<(), Error>)
        requires
            old(self).wf(),
            old(self).epoch < 0xffff_ffff_ffff_ffff,
        ensures
            final(self).wf(),
            final(self).info == old(self).info,
            final(self).closed == old(self).closed,
            writer_step(*old(self), *final(self)),
            old(self).closed matches Some(e0) ==> r == Err::<(), Error>(e0),
            old(self).closed is None && old(self).cache is Init ==> r is Ok,
            old(self).closed is None && !(old(self).cache is Init)
                ==> r == Err::<(), Error>(Error::Mode),
            match r {
                Ok(()) => {
                    &&& old(self).closed is None
                    &&& old(self).cache is Init
                    &&& final(self).cache matches Cache::Stream(s)
                        && s.priority == send_order
                        && s.groups@.len() == 0
                    &&& final(self).epoch == old(self).epoch + 1
                },
                Err(e) => {
                    &&& *final(self) == *old(self)
                    &&& old(self).closed is Some ==> old(self).closed == Some(e)
                    &&& old(self).closed is None ==> e == Error::Mode
                        && !(old(self).cache is Init)
                },
            },
    {
        match self.closed {
            Some(e) => {
                return Err(e);
            },
            None => {},
        }
        match &self.cache {
            Cache::Init => {},
            _ => {
                return Err(Error::Mode);
            },
        }
        self.cache = Cache::Stream(StreamState::new(send_order));
        self.epoch = self.epoch + 1;
        Ok(())
    }

    /// Overwrite the most recent datagram; valid from `Init` or datagram
    /// mode.
    pub fn write_datagram(&mut self, datagram: DatagramInfo) -> (r: Result<(), Error>)
        requires
            old(self).wf(),
            old(self).epoch < 0xffff_ffff_ffff_ffff,
        ensures
            final(self).wf(),
            final(self).info == old(self).info,
            final(self).closed == old(self).closed,
            writer_step(*old(self), *final(self)),
            old(self).closed matches Some(e0) ==> r == Err::<(), Error>(e0),
            old(self).closed is None && (old(self).cache is Init || old(self).cache is Datagram)
                ==> r is Ok,
            old(self).closed is None && !(old(self).cache is Init)
                && !(old(self).cache is Datagram) ==> r == Err::<(), Error>(Error::Mode),
            match r {
                Ok(()) => old(self).closed is None
                    && (old(self).cache is Init || old(self).cache is Datagram)
                    && final(self).cache == Cache::Datagram(datagram)
                    && final(self).epoch == old(self).epoch + 1,
                Err(e) => {
                    &&& *final(self) == *old(self)
                    &&& old(self).closed is Some ==> old(self).closed == Some(e)
                    &&& old(self).closed is None ==> e == Error::Mode
                        && !(old(self).cache is Init)
                        && !(old(self).cache is Datagram)
                },
            },
    {
        match self.closed {
            Some(e) => {
                return Err(e);
            },
            None => {},
        }
        match &self.cache {
            Cache::Init | Cache::Datagram(_) => {},
            _ => {
                return Err(Error::Mode);
            },
        }
        self.cache = Cache::Datagram(datagram);
        self.epoch = self.epoch + 1;
        Ok(())
    }

    /// Append a whole object to the current group, as
    /// [`GroupState::write`]. Fails `Mode` outside group mode.
    pub fn group_write(&mut self, payload: Vec<u8>) -> (r: Result<(), Error>)
        requires
            old(self).wf(),
            old(self).cache matches Cache::Group(g)
                ==> g.next_object_id < 0xffff_ffff_ffff_ffff,
        ensures
            final(self).wf(),
            final(self).info == old(self).info,
            final(self).closed == old(self).closed,
            final(self).epoch == old(self).epoch,
            final(self).groups_seen == old(self).groups_seen,
            writer_step(*old(self), *final(self)),
            !(old(self).cache is Group) ==> r == Err::<(), Error>(Error::Mode)
                && *final(self) == *old(self),
            old(self).cache matches Cache::Group(g0) ==> (final(self).cache matches
                Cache::Group(g)
                && g.group_id == g0.group_id
                && match r {
                    Ok(()) => g0.closed is None
                        && g.objects@.len() == g0.objects@.len() + 1
                        && g.objects@.last().payload() == seq![payload@]
                        && g.objects@.last().info.object_id == g0.next_object_id
                        && g.next_object_id == g0.next_object_id + 1,
                    Err(e) => e == Error::Done && g0.closed is Some && g == g0,
                }),
    {
        match &mut self.cache {
            Cache::Group(g) => g.write(payload),
            _ => Err(Error::Mode),
        }
    }

    /// Start a sized object in the current group, as
    /// [`GroupState::create`]. Fails `Mode` outside group mode.
    pub fn group_create(&mut self, size: usize) -> (r: Result<(), Error>)
        requires
            old(self).wf(),
            old(self).cache matches Cache::Group(g)
                ==> g.next_object_id < 0xffff_ffff_ffff_ffff,
        ensures
            final(self).wf(),
            final(self).info == old(self).info,
            final(self).closed == old(self).closed,
            final(self).epoch == old(self).epoch,
            final(self).groups_seen == old(self).groups_seen,
            writer_step(*old(self), *final(self)),
            !(old(self).cache is Group) ==> r == Err::<(), Error>(Error::Mode)
                && *final(self) == *old(self),
            old(self).cache matches Cache::Group(g0) ==> (final(self).cache matches
                Cache::Group(g)
                && g.group_id == g0.group_id
                && match r {
                    Ok(()) => g0.closed is None
                        && g.objects@.len() == g0.objects@.len() + 1
                        && g.objects@.last().payload() == Seq::<Seq<u8>>::empty()
                        && g.objects@.last().info.size == Some(size)
                        && g.objects@.last().info.object_id == g0.next_object_id,
                    Err(e) => e == Error::Done && g0.closed is Some && g == g0,
                }),
    {
        match &mut self.cache {
            Cache::Group(g) => g.create(size),
            _ => Err(Error::Mode),
        }
    }

    /// Append a chunk to the newest object of the current group, as
    /// [`GroupState::chunk`]. Fails `Mode` outside group mode.
    pub fn group_chunk(&mut self, data: Vec<u8>) -> (r: Result<(), Error>)
        requires
            old(self).wf(),
            old(self).cache matches Cache::Group(g) ==> (g.objects@.len() > 0
                ==> g.objects@.last().spec_written() + data@.len() <= usize::MAX),
        ensures
            final(self).wf(),
            final(self).info == old(self).info,
            final(self).closed == old(self).closed,
            final(self).epoch == old(self).epoch,
            final(self).groups_seen == old(self).groups_seen,
            writer_step(*old(self), *final(self)),
            !(old(self).cache is Group) ==> r == Err::<(), Error>(Error::Mode)
                && *final(self) == *old(self),
            old(self).cache matches Cache::Group(g0) ==> (final(self).cache matches
                Cache::Group(g)
                && g.group_id == g0.group_id
                && (g0.objects@.len() == 0 ==> r == Err::<(), Error>(Error::NotFound)
                    && g == g0)
                && (g0.objects@.len() > 0 ==> match r {
                    Ok(()) => g.objects@.last().payload()
                        == g0.objects@.last().payload().push(data@),
                    Err(e) => g.objects@.last() == g0.objects@.last()
                        && (e == Error::Done || e == Error::Size),
                })),
    {
        match &mut self.cache {
            Cache::Group(g) => g.chunk(data),
            _ => Err(Error::Mode),
        }
    }

    /// Drop the writer of the newest object of the current group, as
    /// [`GroupState::finish_object`]. Fails `Mode` outside group mode.
    pub fn group_finish_object(&mut self) -> (r: Result<(), Error>)
        requires
            old(self).wf(),
        ensures
            final(self).wf(),
            final(self).info == old(self).info,
            final(self).closed == old(self).closed,
            final(self).epoch == old(self).epoch,
            final(self).groups_seen == old(self).groups_seen,
            writer_step(*old(self), *final(self)),
            !(old(self).cache is Group) ==> r == Err::<(), Error>(Error::Mode)
                && *final(self) == *old(self),
            old(self).cache matches Cache::Group(g0) ==> (final(self).cache matches
                Cache::Group(g)
                && g.group_id == g0.group_id
                && (g0.objects@.len() == 0 ==> r == Err::<(), Error>(Error::NotFound)
                    && g == g0)
                && (g0.objects@.len() > 0 ==> r == Ok::<(), Error>(())
                    && g.objects@.last().payload() == g0.objects@.last().payload()
                    && (g0.objects@.last().spec_closed() is None
                        ==> g.objects@.last().spec_closed() is Some))),
    {
        match &mut self.cache {
            Cache::Group(g) => g.finish_object(),
            _ => Err(Error::Mode),
        }
    }

    /// Terminate the track with an error; readers surface it. Fails with
    /// the prior error if the track is already closed.
    pub fn close(&mut self, err: Error) -> (r: Result<(), Error>)
        ensures
            final(self).info == old(self).info,
            final(self).cache == old(self).cache,
            final(self).epoch == old(self).epoch,
            final(self).groups_seen == old(self).groups_seen,
            old(self).wf() ==> final(self).wf(),
            writer_step(*old(self), *final(self)),
            match r {
                Ok(()) => old(self).closed is None && final(self).closed == Some(err),
                Err(e) => old(self).closed == Some(e) && *final(self) == *old(self),
            },
    {
        match self.closed {
            Some(e) => {
                return Err(e);
            },
            None => {},
        }
        self.closed = Some(err);
        Ok(())
    }

    /// What dropping the last handle on one side does: close with the
    /// benign `Done`, suppressed if the track is already closed.
    pub fn handle_drop(&mut self)
        ensures
            final(self).info == old(self).info,
            final(self).cache == old(self).cache,
            final(self).epoch == old(self).epoch,
            final(self).groups_seen == old(self).groups_seen,
            old(self).wf() ==> final(self).wf(),
            writer_step(*old(self), *final(self)),
            old(self).closed is Some ==> *final(self) == *old(self),
            old(self).closed is None ==> final(self).closed == Some(Error::Done),
    {
        if self.closed.is_none() {
            self.closed = Some(Error::Done);
        }
    }

    /// The largest group and object ids in the cache, if any.
    pub fn latest(&self) -> (r: Option<(u64, u64)>)
        requires
            self.wf(),
        ensures
            match self.cache {
                Cache::Init => r is None,
                Cache::Datagram(d) => r == Some((d.group_id, d.object_id)),
                Cache::Group(g) => r == Some((
                    g.group_id,
                    if g.objects@.len() == 0 {
                        0u64
                    } else {
                        g.objects@.last().info.object_id
                    },
                )),
                Cache::Object(o) => r == Some((
                    o.objects@[0].info.group_id,
                    max_object_id(o.objects@),
                )),
                Cache::Stream(s) => if s.groups@.len() == 0 {
                    r is None
                } else {
                    r == Some((
                        s.groups@.last().group_id,
                        if s.groups@.last().objects@.len() == 0 {
                            0u64
                        } else {
                            s.groups@.last().objects@.last().info.object_id
                        },
                    ))
                },
            },
    {
        match &self.cache {
            Cache::Init => None,
            Cache::Datagram(d) => Some((d.group_id, d.object_id)),
            Cache::Group(g) => Some((g.group_id, g.latest())),
            Cache::Object(o) => {
                let mut best: u64 = o.objects[0].info.object_id;
                let mut i: usize = 1;
                proof {
                    assert(o.objects@.take(1).drop_last() =~= Seq::<ObjectState>::empty());
                    assert(max_object_id(Seq::<ObjectState>::empty()) == 0);
                    assert(o.objects@.take(1).last() == o.objects@[0]);
                }
                while i < o.objects.len()
                    invariant
                        1 <= i <= o.objects@.len(),
                        o.objects@.len() >= 1,
                        best == max_object_id(o.objects@.take(i as int)),
                    decreases o.objects@.len() - i,
                {
                    proof {
                        lemma_max_object_id_take(o.objects@, i as int);
                    }
                    if o.objects[i].info.object_id > best {
                        best = o.objects[i].info.object_id;
                    }
                    i = i + 1;
                }
                proof {
                    assert(o.objects@.take(o.objects@.len() as int) =~= o.objects@);
                }
                Some((o.objects[0].info.group_id, best))
            },
            Cache::Stream(s) => s.latest(),
        }
    }

    /// Borrow the group-mode cache, for reading or writing through the
    /// group's own operations. Fails `Mode` outside group mode.
    pub fn group_state(&self) -> (r: Result<&GroupState, Error>)
        ensures
            match r {
                Ok(g) => self.cache == Cache::Group(*g),
                Err(e) => e == Error::Mode && !(self.cache is Group),
            },
    {
        match &self.cache {
            Cache::Group(g) => Ok(g),
            _ => Err(Error::Mode),
        }
    }

    /// Borrow the stream-mode cache. Fails `Mode` outside stream mode.
    pub fn stream_state(&self) -> (r: Result<&StreamState, Error>)
        ensures
            match r {
                Ok(s) => self.cache == Cache::Stream(*s),
                Err(e) => e == Error::Mode && !(self.cache is Stream),
            },
    {
        match &self.cache {
            Cache::Stream(s) => Ok(s),
            _ => Err(Error::Mode),
        }
    }

    /// Borrow the most recent datagram. Fails `Mode` outside datagram mode.
    pub fn datagram(&self) -> (r: Result<&DatagramInfo, Error>)
        ensures
            match r {
                Ok(d) => self.cache == Cache::Datagram(*d),
                Err(e) => e == Error::Mode && !(self.cache is Datagram),
            },
    {
        match &self.cache {
            Cache::Datagram(d) => Ok(d),
            _ => Err(Error::Mode),
        }
    }

    /// Borrow the object at `index` of the object-mode cache.
    pub fn object_at(&self, index: usize) -> (r: Result<&ObjectState, Error>)
        ensures
            match r {
                Ok(ob) => self.cache matches Cache::Object(o) && index < o.objects@.len()
                    && *ob == o.objects@[index as int],
                Err(e) => e == Error::NotFound && !(self.cache matches Cache::Object(o)
                    && index < o.objects@.len()),
            },
    {
        match &self.cache {
            Cache::Object(o) => {
                if index < o.objects.len() {
                    Ok(&o.objects[index])
                } else {
                    Err(Error::NotFound)
                }
            },
            _ => Err(Error::NotFound),
        }
    }

    /// What `reader`'s next blocking call observes, advancing the cursor.
    ///
    /// A reader behind the epoch replays at most as many events as exist,
    /// indexed so that a slow reader sees recent history: in object mode
    /// the replay starts `epoch - seen` objects from the end, clamped to
    /// the start of the newest group.
    pub fn next(&self, reader: &mut TrackReader) -> (r: TrackStep)
        requires
            self.wf(),
            old(reader).epoch <= self.epoch,
        ensures
            r == old(reader).spec_next_step(*self),
            *final(reader) == old(reader).spec_next_cursor(*self),
            final(reader).epoch <= self.epoch,
            old(reader).epoch <= final(reader).epoch,
    {
        if reader.epoch != self.epoch {
            match &self.cache {
                Cache::Init => {},
                Cache::Stream(_) => {
                    reader.epoch = self.epoch;
                    return TrackStep::Event(TrackMode::Stream);
                },
                Cache::Group(g) => {
                    reader.epoch = self.epoch;
                    return TrackStep::Event(TrackMode::Group(g.group_id));
                },
                Cache::Object(o) => {
                    let len = o.objects.len();
                    let behind = self.epoch - reader.epoch;
                    let index: usize = if behind >= len as u64 {
                        0
                    } else {
                        len - behind as usize
                    };
                    reader.epoch = self.epoch - len as u64 + index as u64 + 1;
                    return TrackStep::Event(TrackMode::Object(index));
                },
                Cache::Datagram(_) => {
                    reader.epoch = self.epoch;
                    return TrackStep::Event(TrackMode::Datagram);
                },
            }
        }
        match self.closed {
            None => TrackStep::Pending,
            Some(Error::Done) => TrackStep::Done,
            Some(e) => TrackStep::Failed(e),
        }
    }
}

impl Track {
    /// Produce the track's state and its first reader cursor.
    pub fn produce(self) -> (r: (TrackState, TrackReader))
        ensures
            r.0.info == self,
            r.0.cache is Init,
            r.0.epoch == 0,
            r.0.closed is None,
            r.0.groups_seen@ == Seq::<u64>::empty(),
            r.0.wf(),
            r.1.epoch == 0,
    {
        let state = TrackState {
            info: self,
            cache: Cache::Init,
            epoch: 0,
            closed: None,
            groups_seen: Ghost(Seq::empty()),
        };
        (state, TrackReader { epoch: 0 })
    }
}

/// The close state as a reader observes it.
pub open spec fn spec_closed_step(s: TrackState) -> TrackStep {
    match s.closed {
        None => TrackStep::Pending,
        Some(Error::Done) => TrackStep::Done,
        Some(e) => TrackStep::Failed(e),
    }
}

impl TrackReader {
    /// A cursor that has seen nothing yet.
    pub fn new() -> (r: Self)
        ensures
            r.epoch == 0,
    {
        TrackReader { epoch: 0 }
    }

    /// The object-mode replay index for a cursor `behind` the epoch.
    pub open spec fn spec_object_index(self, s: TrackState) -> int {
        let len = s.cache->Object_0.objects@.len() as int;
        let behind = s.epoch - self.epoch;
        if behind >= len {
            0
        } else {
            len - behind
        }
    }

    /// The observation a cursor makes on `s`.
    pub open spec fn spec_next_step(self, s: TrackState) -> TrackStep {
        if self.epoch != s.epoch {
            match s.cache {
                Cache::Init => spec_closed_step(s),
                Cache::Stream(_) => TrackStep::Event(TrackMode::Stream),
                Cache::Group(g) => TrackStep::Event(TrackMode::Group(g.group_id)),
                Cache::Object(_) => TrackStep::Event(TrackMode::Object(
                    self.spec_object_index(s) as usize,
                )),
                Cache::Datagram(_) => TrackStep::Event(TrackMode::Datagram),
            }
        } else {
            spec_closed_step(s)
        }
    }

    /// The cursor after one observation.
    pub open spec fn spec_next_cursor(self, s: TrackState) -> TrackReader {
        if self.epoch != s.epoch {
            match s.cache {
                Cache::Init => self,
                Cache::Object(o) => TrackReader {
                    epoch: (s.epoch - o.objects@.len() + self.spec_object_index(s)
                        + 1) as u64,
                },
                _ => TrackReader { epoch: s.epoch },
            }
        } else {
            self
        }
    }
}

/// The sequence of observations a cursor makes over a run of states,
/// advancing after each.
pub open spec fn observations(states: Seq<TrackState>, reader: TrackReader) -> Seq<TrackStep>
    decreases states.len(),
{
    if states.len() == 0 {
        Seq::empty()
    } else {
        seq![reader.spec_next_step(states[0])] + observations(
            states.skip(1),
            reader.spec_next_cursor(states[0]),
        )
    }
}

/// Fanout fidelity: what a reader observes is a function of its cursor and
/// the states it reads alone, so a clone taken at any cursor observes the
/// identical sequence of events from that point onward.
pub proof fn lemma_fanout(states: Seq<TrackState>, a: TrackReader, b: TrackReader)
    requires
        a == b,
    ensures
        observations(states, a) == observations(states, b),
{
}

/// Latest-group wins: a reader behind the epoch of a group-mode or
/// object-mode track observes an event of the newest group submitted so
/// far — never a stale one.
pub proof fn lemma_latest_group_wins(s: TrackState, reader: TrackReader)
    requires
        s.wf(),
        reader.epoch < s.epoch,
    ensures
        s.cache matches Cache::Group(g)
            ==> reader.spec_next_step(s) == TrackStep::Event(TrackMode::Group(
                seq_max(s.groups_seen@),
            )),
        s.cache matches Cache::Object(o)
            ==> reader.spec_next_step(s) matches TrackStep::Event(m)
                && m matches TrackMode::Object(i)
                && i < o.objects@.len()
                && o.objects@[i as int].info.group_id == seq_max(s.groups_seen@),
{
    match s.cache {
        Cache::Object(o) => {
            let i = reader.spec_object_index(s);
            assert(0 <= i < o.objects@.len());
        },
        _ => {},
    }
}

/// A reader behind the epoch strictly advances with every observation, and
/// never past the epoch: together with [`lemma_drop_closes`], a reader of a
/// closed track reaches `Done` (or the closing error) within finitely many
/// calls — at most `epoch - cursor` events remain.
pub proof fn lemma_reader_progress(s: TrackState, reader: TrackReader)
    requires
        s.wf(),
        reader.epoch < s.epoch,
    ensures
        reader.epoch < reader.spec_next_cursor(s).epoch <= s.epoch,
{
    match s.cache {
        Cache::Object(o) => {
            let i = reader.spec_object_index(s);
            assert(0 <= i < o.objects@.len());
        },
        _ => {},
    }
}

/// Drop closes: once a track is closed — as the drop of its last writer
/// does — no reader blocks again: each next call yields a pending event,
/// `Done`, or the closing error; a caught-up reader of a `Done` track
/// observes exactly `Done`.
pub proof fn lemma_drop_closes(s: TrackState, reader: TrackReader)
    requires
        s.wf(),
        reader.epoch <= s.epoch,
        s.closed is Some,
    ensures
        !(reader.spec_next_step(s) is Pending),
        reader.epoch == s.epoch && s.closed == Some(Error::Done)
            ==> reader.spec_next_step(s) == TrackStep::Done,
{
}

} // verus!
