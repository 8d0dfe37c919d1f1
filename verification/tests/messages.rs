//! Control-message round trips: decode(encode(M)) == M for every message
//! kind, short-buffer reporting, and rejection of unknown types.

use moq_transport::coding::DecodeError;
use moq_transport::message::{Message, Params, SetupClient, SetupServer, Subscribe, SubscribeOk,
    SubscribeError, SubscribeDone, Unsubscribe, Announce, AnnounceOk, AnnounceError,
    AnnounceCancel, Unannounce, GoAway};
use moq_transport::setup::Role;

fn round_trip(m: Message) {
    let mut buf = Vec::new();
    m.encode(&mut buf).unwrap();
    let (back, end) = Message::decode(&buf, 0).unwrap();
    assert_eq!(back, m);
    assert_eq!(end, buf.len());
    // With trailing bytes on the stream, the same message comes back and
    // the position stops right after it.
    let mut long = buf.clone();
    long.push(0xaa);
    let (again, end2) = Message::decode(&long, 0).unwrap();
    assert_eq!(again, m);
    assert_eq!(end2, buf.len());
}

fn sample_params() -> Params {
    Params(vec![(2, vec![1, 2, 3]), (7, vec![]), (0x3fff, vec![0xff; 40])])
}

#[test]
fn round_trip_setup_client() {
    round_trip(Message::SetupClient(SetupClient {
        versions: vec![0xff000003, 0xff000002],
        role: Role::Both,
        params: Params(vec![]),
    }));
    round_trip(Message::SetupClient(SetupClient {
        versions: vec![],
        role: Role::Publisher,
        params: sample_params(),
    }));
}

#[test]
fn round_trip_setup_server() {
    round_trip(Message::SetupServer(SetupServer {
        version: 0xff000003,
        role: Role::Subscriber,
        params: Params(vec![]),
    }));
}

#[test]
fn round_trip_subscribe() {
    round_trip(Message::Subscribe(Subscribe {
        id: 1,
        track_alias: 1,
        namespace: b"clock".to_vec(),
        name: b"time".to_vec(),
        params: sample_params(),
    }));
    round_trip(Message::Subscribe(Subscribe {
        id: (1 << 62) - 1,
        track_alias: 0,
        namespace: vec![],
        name: vec![],
        params: Params(vec![]),
    }));
}

#[test]
fn round_trip_subscribe_ok() {
    round_trip(Message::SubscribeOk(SubscribeOk { id: 9, expires: 0, latest: None }));
    round_trip(Message::SubscribeOk(SubscribeOk {
        id: 9,
        expires: 30,
        latest: Some((7, 0)),
    }));
}

#[test]
fn round_trip_subscribe_error() {
    round_trip(Message::SubscribeError(SubscribeError {
        id: 4,
        code: 404,
        reason: b"not found".to_vec(),
        track_alias: 0,
    }));
}

#[test]
fn round_trip_subscribe_done() {
    round_trip(Message::SubscribeDone(SubscribeDone {
        id: 4,
        code: 0,
        reason: vec![],
        last: Some((7, 0)),
    }));
    round_trip(Message::SubscribeDone(SubscribeDone {
        id: 4,
        code: 409,
        reason: b"duplicate".to_vec(),
        last: None,
    }));
}

#[test]
fn round_trip_announce_family() {
    round_trip(Message::Announce(Announce {
        namespace: b"live".to_vec(),
        params: Params(vec![]),
    }));
    round_trip(Message::AnnounceOk(AnnounceOk { namespace: b"live".to_vec() }));
    round_trip(Message::AnnounceError(AnnounceError {
        namespace: b"live".to_vec(),
        code: 500,
        reason: b"no".to_vec(),
    }));
    round_trip(Message::AnnounceCancel(AnnounceCancel { namespace: b"live".to_vec() }));
    round_trip(Message::Unannounce(Unannounce { namespace: b"live".to_vec() }));
}

#[test]
fn round_trip_unsubscribe_goaway() {
    round_trip(Message::Unsubscribe(Unsubscribe { id: 3 }));
    round_trip(Message::GoAway(GoAway { url: b"https://relay.example/x".to_vec() }));
}

#[test]
fn decode_unknown_type_fails() {
    // 0x21 is no message type.
    let buf: Vec<u8> = vec![0x21, 0x00];
    assert_eq!(Message::decode(&buf, 0), Err(DecodeError::InvalidType(0x21)));
}

#[test]
fn decode_short_buffer_asks_for_more() {
    let mut buf = Vec::new();
    Message::Subscribe(Subscribe {
        id: 1,
        track_alias: 1,
        namespace: b"clock".to_vec(),
        name: b"time".to_vec(),
        params: Params(vec![]),
    })
    .encode(&mut buf)
    .unwrap();
    for cut in 0..buf.len() {
        let partial: Vec<u8> = buf[..cut].to_vec();
        match Message::decode(&partial, 0) {
            Err(DecodeError::More(n)) => assert!(n > 0),
            other => panic!("expected More, got {:?}", other),
        }
    }
}

#[test]
fn decode_bad_role_fails() {
    // A SetupServer whose role code is 7.
    let buf: Vec<u8> = vec![0x40, 0x41, 0x00, 0x07, 0x00];
    // type 0x41 takes two bytes (0x40 0x41); version 0, role 7, empty params.
    assert!(Message::decode(&buf, 0).is_err());
}

#[test]
fn encode_rejects_oversized_field() {
    let mut buf = Vec::new();
    let r = Message::Unsubscribe(Unsubscribe { id: 1 << 62 }).encode(&mut buf);
    assert!(r.is_err());
}

#[test]
fn wire_bytes_are_exact() {
    // Unsubscribe id 3: type 0x0a, then varint 3.
    let mut buf = Vec::new();
    Message::Unsubscribe(Unsubscribe { id: 3 }).encode(&mut buf).unwrap();
    assert_eq!(buf, vec![0x0a, 0x03]);
    // AnnounceOk "hi": type 0x07, length 2, bytes.
    let mut buf = Vec::new();
    Message::AnnounceOk(AnnounceOk { namespace: b"hi".to_vec() }).encode(&mut buf).unwrap();
    assert_eq!(buf, vec![0x07, 0x02, b'h', b'i']);
    // SetupClient goes under type 0x40, which itself needs two bytes.
    let mut buf = Vec::new();
    Message::SetupClient(SetupClient {
        versions: vec![1],
        role: Role::Both,
        params: Params(vec![]),
    })
    .encode(&mut buf)
    .unwrap();
    assert_eq!(buf, vec![0x40, 0x40, 0x01, 0x01, 0x03, 0x00]);
}

#[test]
fn setup_client_rejects_path_parameter() {
    // The PATH parameter (key 1) belongs to raw-QUIC setup; a tunneled
    // session's decoder refuses it.
    let mut buf = Vec::new();
    Message::SetupClient(SetupClient {
        versions: vec![0xff000003],
        role: Role::Both,
        params: Params(vec![(1, b"/live".to_vec())]),
    })
    .encode(&mut buf)
    .unwrap();
    assert!(Message::decode(&buf, 0).is_err());
    // Any other key is carried through.
    let mut buf = Vec::new();
    let with_other = Message::SetupClient(SetupClient {
        versions: vec![0xff000003],
        role: Role::Both,
        params: Params(vec![(2, b"/live".to_vec())]),
    });
    with_other.encode(&mut buf).unwrap();
    assert_eq!(Message::decode(&buf, 0).unwrap().0, with_other);
}

#[test]
fn params_round_trip_standalone() {
    let ps = sample_params();
    let mut buf = Vec::new();
    ps.encode(&mut buf).unwrap();
    let (back, end) = Params::decode(&buf, 0).unwrap();
    assert_eq!(back, ps);
    assert_eq!(end, buf.len());
}
