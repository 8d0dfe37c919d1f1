//! Serve-tree behavior: mode monotonicity, latest-group-wins, fanout,
//! drop-closes, object sizes, and the watched-state primitive.

use moq_transport::error::Error;
use moq_transport::group::{Group, GroupReader, GroupStep};
use moq_transport::object::{ObjectInfo, ObjectReader, ObjectState, ReadStep};
use moq_transport::track::{Cache, DatagramInfo, Track, TrackMode, TrackReader, TrackStep};
use moq_transport::util::{Queue, QueuePop};
use moq_transport::watch::{Watch, WatchPoll};

fn fresh_track() -> (moq_transport::track::TrackState, TrackReader) {
    Track { namespace: b"ns".to_vec(), name: b"t".to_vec() }.produce()
}

#[test]
fn mode_locks_after_first_write() {
    // Mode violation: a group locks the track into the group family; a
    // stream is then refused and the track keeps working in group mode.
    let (mut track, mut reader) = fresh_track();
    track.create_group(Group { group_id: 1, priority: 0 }).unwrap();
    assert_eq!(track.create_stream(7), Err(Error::Mode));
    assert_eq!(track.write_datagram(DatagramInfo {
        group_id: 0,
        object_id: 0,
        priority: 0,
        payload: vec![],
    }), Err(Error::Mode));
    // Still serving in group mode.
    track.group_write(b"after".to_vec()).unwrap();
    assert_eq!(track.next(&mut reader), TrackStep::Event(TrackMode::Group(1)));
}

#[test]
fn stream_mode_only_from_init() {
    let (mut track, _) = fresh_track();
    track.create_stream(9).unwrap();
    assert_eq!(
        track.create_group(Group { group_id: 1, priority: 0 }),
        Err(Error::Mode)
    );
    assert_eq!(track.create_stream(9), Err(Error::Mode));
}

#[test]
fn duplicate_group_id_fails() {
    // Two writers racing on the same id: the first install wins, the
    // second call gets Duplicate.
    let (mut track, _) = fresh_track();
    track.create_group(Group { group_id: 5, priority: 0 }).unwrap();
    assert_eq!(
        track.create_group(Group { group_id: 5, priority: 0 }),
        Err(Error::Duplicate)
    );
}

#[test]
fn latest_group_wins() {
    // A reader that joins after groups 1, 2, 3 were written sees group 3
    // only; a lower id is dropped without an error.
    let (mut track, _) = fresh_track();
    for id in [1u64, 2, 3] {
        track.create_group(Group { group_id: id, priority: 0 }).unwrap();
        track.group_write(vec![id as u8; 64]).unwrap();
    }
    // Group 2 arrives late: silently dropped.
    track.create_group(Group { group_id: 2, priority: 0 }).unwrap();
    let mut late = TrackReader::new();
    assert_eq!(track.next(&mut late), TrackStep::Event(TrackMode::Group(3)));
    assert_eq!(track.next(&mut late), TrackStep::Pending);
    assert_eq!(track.latest(), Some((3, 0)));
}

#[test]
fn fanout_clones_observe_identically() {
    let (mut track, reader) = fresh_track();
    track.create_group(Group { group_id: 1, priority: 0 }).unwrap();
    track.group_write(b"a".to_vec()).unwrap();
    // Two clones of the same cursor observe the identical events.
    let mut r1 = reader;
    let mut r2 = reader;
    let e1 = track.next(&mut r1);
    let e2 = track.next(&mut r2);
    assert_eq!(e1, e2);
    assert_eq!(r1, r2);
    // And the group contents read back identically chunk by chunk.
    let g = track.group_state().unwrap();
    let mut c1 = GroupReader::new();
    let mut c2 = GroupReader::new();
    assert_eq!(g.next(&mut c1), GroupStep::Object(0));
    assert_eq!(g.next(&mut c2), GroupStep::Object(0));
    let ob = g.object(0);
    let mut o1 = ObjectReader::new();
    let mut o2 = ObjectReader::new();
    assert_eq!(ob.read(&mut o1), ReadStep::Chunk(b"a".to_vec()));
    assert_eq!(ob.read(&mut o2), ReadStep::Chunk(b"a".to_vec()));
    assert_eq!(ob.read(&mut o1), ReadStep::Done);
}

#[test]
fn drop_closes_readers() {
    // Dropping the last writer closes the track; a caught-up reader then
    // observes Done instead of blocking.
    let (mut track, mut reader) = fresh_track();
    track.create_group(Group { group_id: 1, priority: 0 }).unwrap();
    assert_eq!(track.next(&mut reader), TrackStep::Event(TrackMode::Group(1)));
    assert_eq!(track.next(&mut reader), TrackStep::Pending);
    track.handle_drop();
    assert_eq!(track.next(&mut reader), TrackStep::Done);
    // A closed track refuses further writes with the closing error.
    assert_eq!(
        track.create_group(Group { group_id: 2, priority: 0 }),
        Err(Error::Done)
    );
}

#[test]
fn close_error_reaches_reader() {
    let (mut track, mut reader) = fresh_track();
    track.close(Error::Reset(42)).unwrap();
    assert_eq!(track.next(&mut reader), TrackStep::Failed(Error::Reset(42)));
    // Closing again reports the prior error; a later drop is suppressed.
    assert_eq!(track.close(Error::Done), Err(Error::Reset(42)));
    track.handle_drop();
    assert_eq!(track.next(&mut reader), TrackStep::Failed(Error::Reset(42)));
}

#[test]
fn object_size_zero_closes_clean() {
    // A declared size of zero may close with no chunks and no size error.
    let mut ob = ObjectState::new(ObjectInfo {
        group_id: 1,
        object_id: 0,
        priority: 0,
        size: Some(0),
    });
    ob.writer_drop();
    let mut r = ObjectReader::new();
    assert_eq!(ob.read(&mut r), ReadStep::Done);
}

#[test]
fn object_size_mismatch_on_drop() {
    // size = 4, dropped after 4 bytes: clean; dropped after fewer: Size.
    let info = ObjectInfo { group_id: 1, object_id: 0, priority: 0, size: Some(4) };
    let mut full = ObjectState::new(info);
    full.write_chunk(vec![1, 2]).unwrap();
    full.write_chunk(vec![3, 4]).unwrap();
    full.writer_drop();
    let mut r = ObjectReader::new();
    assert_eq!(full.read(&mut r), ReadStep::Chunk(vec![1, 2]));
    assert_eq!(full.read(&mut r), ReadStep::Chunk(vec![3, 4]));
    assert_eq!(full.read(&mut r), ReadStep::Done);

    let mut short = ObjectState::new(info);
    short.write_chunk(vec![1]).unwrap();
    short.writer_drop();
    let mut r = ObjectReader::new();
    assert_eq!(short.read(&mut r), ReadStep::Chunk(vec![1]));
    assert_eq!(short.read(&mut r), ReadStep::Failed(Error::Size));
}

#[test]
fn object_close_keeps_prior_error_and_maps_done() {
    // An explicit Done on an unfilled declared size records Size, exactly
    // as the writer's drop does.
    let mut ob = ObjectState::new(ObjectInfo {
        group_id: 1,
        object_id: 0,
        priority: 0,
        size: Some(3),
    });
    ob.write_chunk(vec![1]).unwrap();
    ob.close(Error::Done).unwrap();
    let mut r = ObjectReader::new();
    assert_eq!(ob.read(&mut r), ReadStep::Chunk(vec![1]));
    assert_eq!(ob.read(&mut r), ReadStep::Failed(Error::Size));
    // A second close reports the recorded error, not a fresh one.
    assert_eq!(ob.close(Error::Reset(9)), Err(Error::Size));
    // An explicit non-Done error is recorded as given.
    let mut ob2 = ObjectState::new(ObjectInfo {
        group_id: 1,
        object_id: 0,
        priority: 0,
        size: Some(3),
    });
    ob2.close(Error::Stop(7)).unwrap();
    assert_eq!(ob2.close(Error::Done), Err(Error::Stop(7)));
}

#[test]
fn queue_close_reports_prior_error() {
    let mut q: Queue<u8> = Queue::new();
    q.close(Error::Reset(3)).unwrap();
    assert_eq!(q.close(Error::Done), Err(Error::Reset(3)));
}

#[test]
fn object_overrun_rejected() {
    let mut ob = ObjectState::new(ObjectInfo {
        group_id: 1,
        object_id: 0,
        priority: 0,
        size: Some(2),
    });
    assert_eq!(ob.write_chunk(vec![1, 2, 3]), Err(Error::Size));
    ob.write_chunk(vec![1, 2]).unwrap();
    assert_eq!(ob.write_chunk(vec![9]), Err(Error::Size));
}

#[test]
fn object_mode_replay_shows_recent_tail() {
    // A slow reader of an object-mode track replays at most the cached
    // tail, newest group only.
    let (mut track, mut reader) = fresh_track();
    for oid in 0u64..3 {
        track
            .write_object(
                moq_transport::object::Object { group_id: 1, object_id: oid, priority: 0 },
                vec![oid as u8],
            )
            .unwrap();
    }
    // Reader saw nothing yet: it replays from the start of the cache.
    assert_eq!(track.next(&mut reader), TrackStep::Event(TrackMode::Object(0)));
    assert_eq!(track.next(&mut reader), TrackStep::Event(TrackMode::Object(1)));
    assert_eq!(track.next(&mut reader), TrackStep::Event(TrackMode::Object(2)));
    assert_eq!(track.next(&mut reader), TrackStep::Pending);
    // A newer group clears the cache; an old-group object is dropped.
    track
        .write_object(
            moq_transport::object::Object { group_id: 2, object_id: 0, priority: 0 },
            b"new".to_vec(),
        )
        .unwrap();
    track
        .write_object(
            moq_transport::object::Object { group_id: 1, object_id: 9, priority: 0 },
            b"stale".to_vec(),
        )
        .unwrap();
    assert_eq!(track.next(&mut reader), TrackStep::Event(TrackMode::Object(0)));
    assert_eq!(track.latest(), Some((2, 0)));
    let ob = track.object_at(0).unwrap();
    assert_eq!(ob.info.group_id, 2);
    let mut or = ObjectReader::new();
    assert_eq!(ob.read(&mut or), ReadStep::Chunk(b"new".to_vec()));
}

#[test]
fn stream_mode_serves_groups_in_order() {
    let (mut track, mut reader) = fresh_track();
    track.create_stream(4).unwrap();
    assert_eq!(track.next(&mut reader), TrackStep::Event(TrackMode::Stream));
    match &mut track.cache {
        Cache::Stream(s) => {
            assert_eq!(s.append().unwrap(), 0);
            s.group_write(b"first".to_vec()).unwrap();
            assert_eq!(s.append().unwrap(), 1);
            s.group_write(b"second".to_vec()).unwrap();
            // A stale id is refused.
            assert_eq!(s.create(0), Err(Error::Duplicate));
            let mut sr = moq_transport::stream::StreamReader::new();
            // A reader joining now sees the newest group.
            match s.next(&mut sr) {
                moq_transport::stream::StreamStep::Group(i) => {
                    let g = s.group(i);
                    assert_eq!(g.group_id, 1);
                    let mut gr = GroupReader::new();
                    assert_eq!(g.next(&mut gr), GroupStep::Object(0));
                    let ob = g.object(0);
                    let mut or = ObjectReader::new();
                    assert_eq!(ob.read(&mut or), ReadStep::Chunk(b"second".to_vec()));
                },
                other => panic!("expected a group, got {:?}", other),
            }
            assert_eq!(s.latest(), Some((1, 0)));
        },
        _ => unreachable!(),
    }
}

#[test]
fn datagram_mode_keeps_most_recent() {
    let (mut track, mut reader) = fresh_track();
    track
        .write_datagram(DatagramInfo { group_id: 1, object_id: 0, priority: 0,
            payload: b"a".to_vec() })
        .unwrap();
    track
        .write_datagram(DatagramInfo { group_id: 2, object_id: 1, priority: 0,
            payload: b"b".to_vec() })
        .unwrap();
    assert_eq!(track.next(&mut reader), TrackStep::Event(TrackMode::Datagram));
    let d = track.datagram().unwrap();
    assert_eq!((d.group_id, d.object_id), (2, 1));
    assert_eq!(d.payload, b"b".to_vec());
    assert_eq!(track.latest(), Some((2, 1)));
}

#[test]
fn watch_notifies_exactly_on_write_or_termination() {
    let mut w: Watch<u32> = Watch::new(7, 1);
    let (v, seen) = w.read();
    assert_eq!((*v, seen), (7, 0));
    assert_eq!(w.poll(seen), WatchPoll::Pending);
    w.write(8).unwrap();
    assert_eq!(w.poll(seen), WatchPoll::Changed(1));
    let (v2, seen2) = w.read();
    assert_eq!((*v2, seen2), (8, 1));
    assert_eq!(w.poll(seen2), WatchPoll::Pending);
    // The last writer leaves: pending readers terminate, writes fail.
    w.writer_drop();
    assert_eq!(w.poll(seen2), WatchPoll::Terminated);
    assert_eq!(w.write(9), Err(Error::Done));
    // A reader behind the version still sees the change first.
    assert_eq!(w.poll(seen), WatchPoll::Changed(1));
}

#[test]
fn queue_drains_before_close() {
    let mut q: Queue<u32> = Queue::new();
    q.push(1).unwrap();
    q.push(2).unwrap();
    q.close(Error::Closed).unwrap();
    assert!(matches!(q.push(3), Err(Error::Done)));
    assert!(matches!(q.pop(), QueuePop::Item(1)));
    assert!(matches!(q.pop(), QueuePop::Item(2)));
    assert!(matches!(q.pop(), QueuePop::Closed(Error::Closed)));
}

#[test]
fn error_codes_are_stable() {
    assert_eq!(Error::Closed.code(), 0);
    assert_eq!(Error::Done.code(), 0);
    assert_eq!(Error::Reset(1234).code(), 1234);
    assert_eq!(Error::Stop(77).code(), 77);
    assert_eq!(Error::NotFound.code(), 404);
    assert_eq!(Error::RoleViolation.code(), 405);
    assert_eq!(Error::RoleIncompatible.code(), 405);
    assert_eq!(Error::Version.code(), 407);
    assert_eq!(Error::Duplicate.code(), 409);
    assert_eq!(Error::Cancel.code(), 410);
    assert_eq!(Error::Mode.code(), 400);
    assert_eq!(Error::Size.code(), 413);
    assert_eq!(Error::OutOfOrder.code(), 416);
    assert_eq!(Error::Decode.code(), 401);
    assert_eq!(Error::Write.code(), 501);
    assert_eq!(Error::Read.code(), 502);
    assert_eq!(Error::NotFound.reason(), "not found");
    assert_eq!(Error::Closed.reason(), "closed");
    assert!(Error::Decode.is_fatal());
    assert!(Error::RoleViolation.is_fatal());
    assert!(!Error::Duplicate.is_fatal());
}
