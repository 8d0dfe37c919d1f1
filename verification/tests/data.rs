//! Data-stream header round trips and object-stream delivery.

use moq_transport::coding::DecodeError;
use moq_transport::data::{Datagram, DatagramHeader, GroupChunk, GroupHeader, Header,
    ObjectHeader, TrackChunk, TrackHeader};
use moq_transport::object::{ObjectReader, ReadStep};
use moq_transport::subscriber::Subscriber;
use moq_transport::track::{TrackMode, TrackReader, TrackStep};

fn header_round_trip(h: Header) {
    let mut buf = Vec::new();
    h.encode(&mut buf).unwrap();
    let (back, end) = Header::decode(&buf, 0).unwrap();
    assert_eq!(back, h);
    assert_eq!(end, buf.len());
}

#[test]
fn round_trip_headers() {
    header_round_trip(Header::Track(TrackHeader {
        subscribe_id: 1,
        track_alias: 1,
        send_order: 4,
    }));
    header_round_trip(Header::Group(GroupHeader {
        subscribe_id: 1,
        track_alias: 1,
        group_id: 7,
        send_order: 0,
    }));
    header_round_trip(Header::Object(ObjectHeader {
        subscribe_id: 2,
        track_alias: 2,
        group_id: 7,
        object_id: 3,
        send_order: 9,
    }));
    header_round_trip(Header::Datagram(DatagramHeader {
        subscribe_id: 2,
        track_alias: 2,
        group_id: 7,
        object_id: 3,
        send_order: 9,
    }));
}

#[test]
fn round_trip_chunks() {
    let mut buf = Vec::new();
    TrackChunk { group_id: 7, object_id: 0, size: 300 }.encode(&mut buf).unwrap();
    let (c, end) = TrackChunk::decode(&buf, 0).unwrap();
    assert_eq!((c.group_id, c.object_id, c.size), (7, 0, 300));
    assert_eq!(end, buf.len());

    let mut buf = Vec::new();
    GroupChunk { object_id: 5, size: 19 }.encode(&mut buf).unwrap();
    let (c, end) = GroupChunk::decode(&buf, 0).unwrap();
    assert_eq!((c.object_id, c.size), (5, 19));
    assert_eq!(end, buf.len());
}

#[test]
fn header_unknown_type_fails() {
    let buf: Vec<u8> = vec![0x33, 0x00];
    assert_eq!(Header::decode(&buf, 0), Err(DecodeError::InvalidType(0x33)));
}

#[test]
fn header_short_buffer_asks_for_more() {
    let mut buf = Vec::new();
    Header::Group(GroupHeader { subscribe_id: 1, track_alias: 1, group_id: 7, send_order: 0 })
        .encode(&mut buf)
        .unwrap();
    for cut in 0..buf.len() {
        let partial: Vec<u8> = buf[..cut].to_vec();
        match Header::decode(&partial, 0) {
            Err(DecodeError::More(n)) => assert!(n > 0),
            other => panic!("expected More, got {:?}", other),
        }
    }
}

#[test]
fn datagram_packet_round_trip() {
    let d = Datagram {
        header: DatagramHeader {
            subscribe_id: 1,
            track_alias: 1,
            group_id: 2,
            object_id: 3,
            send_order: 4,
        },
        payload: b"tick".to_vec(),
    };
    let packet = d.encode().unwrap();
    let back = Datagram::decode(&packet).unwrap();
    assert_eq!(back, d);
}

#[test]
fn object_stream_delivery() {
    // An object stream: header, then raw chunks until the stream ends.
    let mut subscriber = Subscriber::new();
    let id = subscriber.subscribe(b"live".to_vec(), b"cam".to_vec());
    subscriber
        .recv_object_header(ObjectHeader {
            subscribe_id: id,
            track_alias: id,
            group_id: 1,
            object_id: 0,
            send_order: 0,
        })
        .unwrap();
    subscriber.recv_object_chunk(id, b"he".to_vec()).unwrap();
    subscriber.recv_object_chunk(id, b"llo".to_vec()).unwrap();
    subscriber.recv_object_end(id).unwrap();

    let t = subscriber.track(0);
    let mut tr = TrackReader::new();
    assert_eq!(t.next(&mut tr), TrackStep::Event(TrackMode::Object(0)));
    let ob = t.object_at(0).unwrap();
    let mut or = ObjectReader::new();
    assert_eq!(ob.read(&mut or), ReadStep::Chunk(b"he".to_vec()));
    assert_eq!(ob.read(&mut or), ReadStep::Chunk(b"llo".to_vec()));
    assert_eq!(ob.read(&mut or), ReadStep::Done);
    // A chunk after the end is refused: the object closed cleanly.
    assert_eq!(
        subscriber.recv_object_chunk(id, b"x".to_vec()),
        Err(moq_transport::error::Error::Done)
    );
}
