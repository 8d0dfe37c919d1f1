//! Session, publisher/subscriber and relay scenarios: the handshake happy
//! path, role incompatibility, publishing one object end to end, and relay
//! forwarding with remote-session teardown.

use moq_transport::data::{GroupChunk, GroupHeader};
use moq_transport::error::Error;
use moq_transport::group::{Group, GroupReader, GroupStep};
use moq_transport::message::{Message, Params, SetupClient};
use moq_transport::object::{ObjectReader, ReadStep};
use moq_transport::publisher::Publisher;
use moq_transport::relay::{Connection, Origin, Remotes};
use moq_transport::session::{Dispatch, Session};
use moq_transport::setup::{downgrade, Role, DRAFT_03};
use moq_transport::broadcast::{BroadcastState, Info};
use moq_transport::subscriber::Subscriber;
use moq_transport::util::QueuePop;
use moq_transport::track::{TrackMode, TrackReader, TrackStep};

fn group(id: u64) -> Group {
    Group { group_id: id, priority: 0 }
}

#[test]
fn handshake_happy_path() {
    // Client offers [DRAFT_03], role Both, no params; the server accepts
    // and both ends hold a live session with role Both.
    let client_setup = SetupClient {
        versions: vec![DRAFT_03],
        role: Role::Both,
        params: Params(vec![]),
    };
    let (server_session, reply) = Session::accept(&client_setup, Role::Both).unwrap();
    assert_eq!(server_session.role, Role::Both);
    assert_eq!(reply.version, DRAFT_03);
    assert_eq!(reply.role, Role::Both);
    let client_session = Session::connect(Role::Both, &reply).unwrap();
    assert_eq!(client_session.role, Role::Both);
    // Both ends may immediately send either an announce or a subscribe.
    assert_eq!(
        client_session.route(&Message::Announce(moq_transport::message::Announce {
            namespace: b"x".to_vec(),
            params: Params(vec![]),
        })),
        Ok(Dispatch::Subscriber)
    );
    assert_eq!(
        server_session.route(&Message::Subscribe(moq_transport::message::Subscribe {
            id: 0,
            track_alias: 0,
            namespace: b"x".to_vec(),
            name: b"y".to_vec(),
            params: Params(vec![]),
        })),
        Ok(Dispatch::Publisher)
    );
}

#[test]
fn handshake_role_incompatible() {
    // Two publishers cannot talk: the handshake fails RoleIncompatible
    // before any reply is sent, and both sides close with wire code 405.
    let client_setup = SetupClient {
        versions: vec![DRAFT_03],
        role: Role::Publisher,
        params: Params(vec![]),
    };
    let err = match Session::accept(&client_setup, Role::Publisher) {
        Err(e) => e,
        Ok(_) => panic!("two publishers must not handshake"),
    };
    assert_eq!(err, Error::RoleIncompatible);
    assert_eq!(err.code(), 405);
}

#[test]
fn handshake_version_mismatch() {
    let client_setup = SetupClient {
        versions: vec![0xff000001],
        role: Role::Both,
        params: Params(vec![]),
    };
    match Session::accept(&client_setup, Role::Both) {
        Err(e) => assert_eq!(e, Error::Version),
        Ok(_) => panic!("an unknown version must not handshake"),
    }
}

#[test]
fn role_downgrade_table() {
    let both = Role::Both;
    assert_eq!(downgrade(both, both), Ok(both));
    assert_eq!(downgrade(Role::Both, Role::Publisher), Ok(Role::Subscriber));
    assert_eq!(downgrade(Role::Both, Role::Subscriber), Ok(Role::Publisher));
    assert_eq!(
        downgrade(Role::Publisher, Role::Publisher),
        Err(Error::RoleIncompatible)
    );
    assert_eq!(downgrade(Role::Publisher, Role::Subscriber), Ok(Role::Publisher));
    assert_eq!(
        downgrade(Role::Subscriber, Role::Subscriber),
        Err(Error::RoleIncompatible)
    );
    assert_eq!(downgrade(Role::Publisher, Role::Both), Ok(Role::Publisher));
    assert_eq!(downgrade(Role::Subscriber, Role::Both), Ok(Role::Subscriber));
    assert_eq!(downgrade(Role::Subscriber, Role::Publisher), Ok(Role::Subscriber));
    // Symmetry on concrete rows: both orders agree on success, and the
    // downgraded roles serve each other.
    for a in [Role::Both, Role::Publisher, Role::Subscriber] {
        for b in [Role::Both, Role::Publisher, Role::Subscriber] {
            assert_eq!(downgrade(a, b).is_ok(), downgrade(b, a).is_ok());
        }
    }
    // Idempotence: negotiating again from the downgraded role changes
    // nothing.
    let r = downgrade(Role::Both, Role::Publisher).unwrap();
    assert_eq!(downgrade(r, Role::Publisher), Ok(r));
}

#[test]
fn role_violation_on_wrong_side() {
    // A subscriber-only session must not receive subscriber-directed
    // messages' counterparts: an inbound Subscribe is publisher-directed.
    let subscribe = Message::Subscribe(moq_transport::message::Subscribe {
        id: 0,
        track_alias: 0,
        namespace: b"a".to_vec(),
        name: b"b".to_vec(),
        params: Params(vec![]),
    });
    let session = Session {
        role: Role::Subscriber,
        version: DRAFT_03,
        outgoing: moq_transport::util::Queue::new(),
    };
    assert_eq!(session.route(&subscribe), Err(Error::RoleViolation));
    // Setup after the handshake is also fatal.
    let setup = Message::SetupClient(SetupClient {
        versions: vec![DRAFT_03],
        role: Role::Both,
        params: Params(vec![]),
    });
    assert_eq!(session.route(&setup), Err(Error::RoleViolation));
}

#[test]
fn publish_one_object() {
    // Publisher announces "clock", a subscriber asks for ("clock","time"),
    // one group with one object flows across, and the close reports
    // last = (7, 0).
    let mut publisher = Publisher::new();
    publisher.announce(b"clock".to_vec()).unwrap();
    assert_eq!(publisher.announce(b"clock".to_vec()), Err(Error::Duplicate));

    // Subscriber side issues the subscription.
    let mut subscriber = Subscriber::new();
    let id = subscriber.subscribe(b"clock".to_vec(), b"time".to_vec());
    assert_eq!(id, 0);
    let subscribe_msg = subscriber.outgoing.last().unwrap().clone();

    // The publisher receives it; the namespace matches the announce.
    let (sid, ns, name) = match &subscribe_msg {
        Message::Subscribe(s) => (s.id, s.namespace.clone(), s.name.clone()),
        _ => unreachable!(),
    };
    assert_eq!(publisher.recv_subscribe(sid, ns, name), Ok(true));
    assert!(publisher.unknown.is_empty());

    // The publisher fills the track and accepts the subscription.
    let (mut track, mut reader) =
        moq_transport::track::Track { namespace: b"clock".to_vec(), name: b"time".to_vec() }
            .produce();
    track.create_group(group(7)).unwrap();
    track.group_write(b"2024-01-01 00:00:00".to_vec()).unwrap();
    publisher.subscribed_ok(sid, track.latest()).unwrap();
    match publisher.outgoing.last().unwrap() {
        Message::SubscribeOk(ok) => assert_eq!((ok.id, ok.latest), (sid, Some((7, 0)))),
        other => panic!("expected SubscribeOk, got {:?}", other),
    }

    // Serving: the track reader yields the group; its bytes travel as one
    // group-stream chunk to the subscriber's track cache.
    assert_eq!(track.next(&mut reader), TrackStep::Event(TrackMode::Group(7)));
    let g = track.group_state().unwrap();
    let mut gr = GroupReader::new();
    assert_eq!(g.next(&mut gr), GroupStep::Object(0));
    let ob = g.object(0);
    let mut or = ObjectReader::new();
    let payload = match ob.read(&mut or) {
        ReadStep::Chunk(c) => c,
        other => panic!("expected a chunk, got {:?}", other),
    };
    publisher.update_max(sid, 7, 0).unwrap();

    subscriber.recv_subscribe_ok(id).unwrap();
    subscriber
        .recv_group_header(GroupHeader {
            subscribe_id: id,
            track_alias: id,
            group_id: 7,
            send_order: 0,
        })
        .unwrap();
    subscriber
        .recv_group_chunk(
            id,
            GroupChunk { object_id: 0, size: payload.len() as u64 },
            payload,
        )
        .unwrap();

    // The subscriber's track now serves the exact bytes.
    let sub_track = subscriber.track(0);
    let mut sub_reader = TrackReader::new();
    assert_eq!(sub_track.next(&mut sub_reader), TrackStep::Event(TrackMode::Group(7)));
    let sg = sub_track.group_state().unwrap();
    let mut sgr = GroupReader::new();
    assert_eq!(sg.next(&mut sgr), GroupStep::Object(0));
    let sob = sg.object(0);
    let mut sor = ObjectReader::new();
    assert_eq!(sob.read(&mut sor), ReadStep::Chunk(b"2024-01-01 00:00:00".to_vec()));

    // Closing the served subscription reports SubscribeDone with
    // last = (7, 0) and code 0.
    publisher.subscribed_close(sid, Error::Done).unwrap();
    match publisher.outgoing.last().unwrap() {
        Message::SubscribeDone(done) => {
            assert_eq!((done.id, done.code, done.last), (sid, 0, Some((7, 0))));
        },
        other => panic!("expected SubscribeDone, got {:?}", other),
    }
}

#[test]
fn unmatched_subscribe_queued() {
    let mut publisher = Publisher::new();
    assert_eq!(
        publisher.recv_subscribe(3, b"nowhere".to_vec(), b"x".to_vec()),
        Ok(false)
    );
    assert_eq!(publisher.unknown, vec![0]);
    // The application rejects it: SubscribeError with NotFound's code.
    publisher.subscribed_close(3, Error::NotFound).unwrap();
    match publisher.outgoing.last().unwrap() {
        Message::SubscribeError(e) => assert_eq!((e.id, e.code), (3, 404)),
        other => panic!("expected SubscribeError, got {:?}", other),
    }
}

#[test]
fn out_of_order_group_chunk_fails() {
    let mut subscriber = Subscriber::new();
    let id = subscriber.subscribe(b"a".to_vec(), b"b".to_vec());
    subscriber
        .recv_group_header(GroupHeader {
            subscribe_id: id,
            track_alias: id,
            group_id: 1,
            send_order: 0,
        })
        .unwrap();
    subscriber
        .recv_group_chunk(id, GroupChunk { object_id: 0, size: 1 }, vec![9])
        .unwrap();
    // Skipping object 1 is fatal for the stream.
    assert_eq!(
        subscriber.recv_group_chunk(id, GroupChunk { object_id: 2, size: 1 }, vec![9]),
        Err(Error::OutOfOrder)
    );
    // A repeated id is just as fatal.
    assert_eq!(
        subscriber.recv_group_chunk(id, GroupChunk { object_id: 0, size: 1 }, vec![9]),
        Err(Error::OutOfOrder)
    );
    // A size that does not match the payload is a Size error.
    assert_eq!(
        subscriber.recv_group_chunk(id, GroupChunk { object_id: 1, size: 5 }, vec![9]),
        Err(Error::Size)
    );
}

#[test]
fn subscriber_ids_are_unique() {
    let mut subscriber = Subscriber::new();
    let a = subscriber.subscribe(b"n".to_vec(), b"1".to_vec());
    let b = subscriber.subscribe(b"n".to_vec(), b"2".to_vec());
    assert_ne!(a, b);
    assert_eq!((a, b), (0, 1));
    subscriber.unsubscribe(a).unwrap();
    match subscriber.outgoing.last().unwrap() {
        Message::Unsubscribe(u) => assert_eq!(u.id, a),
        other => panic!("expected Unsubscribe, got {:?}", other),
    }
    let c = subscriber.subscribe(b"n".to_vec(), b"3".to_vec());
    assert_eq!(c, 2);
}

#[test]
fn relay_forwards_and_tears_down() {
    // Subscriber S asks relay R1 for ("live","cam"). R1 has no local
    // publisher, consults the origin API, and dials R2 once; a second
    // subscriber reuses the session. Reader drops tear the track and then
    // the session down.
    let connection = Connection::new(Origin::new());
    assert!(!connection.is_local(&b"live".to_vec()));

    let mut remotes = Remotes::new();
    let r2 = b"https://r2.example".to_vec();
    let k = remotes.route(Some(r2.clone())).unwrap();
    assert_eq!(k, 0);
    // The same URL is not dialed twice.
    let k2 = remotes.route(Some(r2.clone())).unwrap();
    assert_eq!(k2, 0);
    // An unknown namespace with no origin routes nowhere.
    assert_eq!(remotes.route(None), None);
    // The dial loop picks the one requested session up, exactly once.
    assert_eq!(remotes.next_requested(), Some(0));
    assert_eq!(remotes.next_requested(), None);

    // First subscription creates the forwarded track; a second reuses it.
    assert_eq!(remotes.subscribe(k, b"live".to_vec(), b"cam".to_vec()), Ok(false));
    assert_eq!(remotes.subscribe(k, b"live".to_vec(), b"cam".to_vec()), Ok(true));
    assert_eq!(remotes.remotes[0].tracks[0].readers, 2);

    // The forwarded bytes are the same bytes: the relay re-serves from the
    // same track cache it fills as a subscriber of R2.
    let mut relay_sub = Subscriber::new();
    let id = relay_sub.subscribe(b"live".to_vec(), b"cam".to_vec());
    relay_sub
        .recv_group_header(GroupHeader {
            subscribe_id: id,
            track_alias: id,
            group_id: 1,
            send_order: 0,
        })
        .unwrap();
    relay_sub
        .recv_group_chunk(id, GroupChunk { object_id: 0, size: 3 }, b"cam".to_vec())
        .unwrap();
    let t = relay_sub.track(0);
    let mut tr = TrackReader::new();
    assert_eq!(t.next(&mut tr), TrackStep::Event(TrackMode::Group(1)));
    let g = t.group_state().unwrap();
    let ob = g.object(0);
    let mut or = ObjectReader::new();
    assert_eq!(ob.read(&mut or), ReadStep::Chunk(b"cam".to_vec()));

    // One reader drops: the entry stays; the last drop removes the track
    // and, it being the last track, tears the remote session down.
    assert_eq!(
        remotes.reader_drop(k, &b"live".to_vec(), &b"cam".to_vec()),
        Ok(false)
    );
    assert_eq!(
        remotes.reader_drop(k, &b"live".to_vec(), &b"cam".to_vec()),
        Ok(true)
    );
    assert!(remotes.remotes.is_empty());
}

#[test]
fn origin_registry_announce_cycle() {
    let mut origin = Origin::new();
    origin.announce(b"live".to_vec()).unwrap();
    assert_eq!(origin.announce(b"live".to_vec()), Err(Error::Duplicate));
    assert!(origin.contains(&b"live".to_vec()));
    origin.unannounce(&b"live".to_vec()).unwrap();
    assert!(!origin.contains(&b"live".to_vec()));
    assert_eq!(origin.unannounce(&b"live".to_vec()), Err(Error::NotFound));
}

#[test]
fn announce_lifecycle_messages() {
    let mut publisher = Publisher::new();
    publisher.announce(b"live".to_vec()).unwrap();
    publisher.recv_announce_ok(&b"live".to_vec());
    assert!(publisher.announces[0].ok);
    publisher.unannounce(&b"live".to_vec());
    assert!(publisher.announces.is_empty());
    match publisher.outgoing.last().unwrap() {
        Message::Unannounce(u) => assert_eq!(u.namespace, b"live".to_vec()),
        other => panic!("expected Unannounce, got {:?}", other),
    }
}

#[test]
fn broadcast_requests_unknown_tracks() {
    let mut b = BroadcastState::new(Info { name: b"live".to_vec() });
    // A subscriber asks for a track nobody created: it is queued for the
    // publisher, and asking again returns the same one.
    let first = b.get_track(b"cam".to_vec()).unwrap();
    let again = b.get_track(b"cam".to_vec()).unwrap();
    assert_eq!(first, again);
    assert!(matches!(b.next_track(), QueuePop::Item(k) if k == first));
    assert!(matches!(b.next_track(), QueuePop::Pending));
    // Creating a track twice is a duplicate.
    b.create_track(b"mic".to_vec()).unwrap();
    assert_eq!(b.create_track(b"mic".to_vec()), Err(Error::Duplicate));
    // Closing the broadcast ends requests but keeps cached lookups.
    b.close(Error::Closed).unwrap();
    assert_eq!(b.get_track(b"cam".to_vec()), Ok(first));
    assert_eq!(b.get_track(b"new".to_vec()), Err(Error::Closed));
    assert!(matches!(b.next_track(), QueuePop::Closed(Error::Closed)));
}

#[test]
fn update_max_takes_lexicographic_max() {
    let mut publisher = Publisher::new();
    publisher.recv_subscribe(1, b"n".to_vec(), b"t".to_vec()).unwrap();
    // A subscription accepted with nothing cached still records what is
    // served afterwards: no pair counts as smallest.
    publisher.subscribed_ok(1, None).unwrap();
    publisher.update_max(1, 5, 2).unwrap();
    assert_eq!(publisher.subscribed[0].max, Some((5, 2)));
    // A later group wins even with a smaller object id.
    publisher.update_max(1, 6, 0).unwrap();
    assert_eq!(publisher.subscribed[0].max, Some((6, 0)));
    // Within the same group, the larger object id wins.
    publisher.update_max(1, 6, 3).unwrap();
    assert_eq!(publisher.subscribed[0].max, Some((6, 3)));
    // A stale pair moves nothing.
    publisher.update_max(1, 5, 9).unwrap();
    assert_eq!(publisher.subscribed[0].max, Some((6, 3)));
    // Unknown ids are NotFound.
    assert_eq!(publisher.update_max(9, 0, 0), Err(Error::NotFound));
}

#[test]
fn subscription_close_reports_prior_error() {
    let mut publisher = Publisher::new();
    publisher.recv_subscribe(4, b"n".to_vec(), b"t".to_vec()).unwrap();
    publisher.subscribed_close(4, Error::NotFound).unwrap();
    let sent = publisher.outgoing.len();
    // The second close reports the first error and sends nothing, so the
    // drop handler's Done is suppressed.
    assert_eq!(publisher.subscribed_close(4, Error::Done), Err(Error::NotFound));
    assert_eq!(publisher.outgoing.len(), sent);
    // The closed subscription can no longer be accepted or advanced.
    assert_eq!(publisher.subscribed_ok(4, None), Err(Error::NotFound));
    assert_eq!(publisher.update_max(4, 1, 1), Err(Error::NotFound));
}

#[test]
fn duplicate_subscribe_id_rejected() {
    let mut publisher = Publisher::new();
    publisher.recv_subscribe(1, b"n".to_vec(), b"t".to_vec()).unwrap();
    assert_eq!(
        publisher.recv_subscribe(1, b"n".to_vec(), b"u".to_vec()),
        Err(Error::Duplicate)
    );
    // Accepting twice is also a duplicate.
    publisher.subscribed_ok(1, None).unwrap();
    assert_eq!(publisher.subscribed_ok(1, None), Err(Error::Duplicate));
}

#[test]
fn announce_close_records_error() {
    let mut publisher = Publisher::new();
    publisher.announce(b"live".to_vec()).unwrap();
    publisher.recv_announce_close(&b"live".to_vec(), Error::Cancel);
    assert_eq!(publisher.announces[0].closed, Some(Error::Cancel));
    // A later close does not overwrite the first.
    publisher.recv_announce_close(&b"live".to_vec(), Error::Reset(3));
    assert_eq!(publisher.announces[0].closed, Some(Error::Cancel));
}

#[test]
fn session_queues_outgoing_messages() {
    let mut session = Session {
        role: Role::Both,
        version: DRAFT_03,
        outgoing: moq_transport::util::Queue::new(),
    };
    session
        .send(Message::AnnounceOk(moq_transport::message::AnnounceOk {
            namespace: b"x".to_vec(),
        }))
        .unwrap();
    match session.outgoing.pop() {
        QueuePop::Item(Message::AnnounceOk(a)) => assert_eq!(a.namespace, b"x".to_vec()),
        other => panic!("expected the queued message, got {:?}", other),
    }
    assert!(matches!(session.outgoing.pop(), QueuePop::Pending));
}

#[test]
fn peer_error_closes_subscription() {
    let mut subscriber = Subscriber::new();
    let id = subscriber.subscribe(b"n".to_vec(), b"t".to_vec());
    subscriber.close_subscribe(id, Error::Reset(7)).unwrap();
    assert!(subscriber.subscribes.is_empty());
    assert_eq!(subscriber.close_subscribe(id, Error::Done), Err(Error::NotFound));
}
