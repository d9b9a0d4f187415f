use bytes::BytesMut;
use easyquic::task::{
    accept_result, connect_result, dispatch, drawn_conn_id, random_conn_id, with_key,
    CHANNEL_CAPACITY,
};
use easyquic::transport::{PacketHeader, PacketType};
use easyquic::{
    new_context, ConnectionId, Dispatch, ErrorKind, QuicKey, QuicPacketReceiver, QuicPacketSender,
    Registry, SocketAddr, StreamError,
};
use std::time::Instant;

const LOCAL: SocketAddr = SocketAddr::V4 { ip: 1, port: 1 };
const REMOTE: SocketAddr = SocketAddr::V4 { ip: 2, port: 2 };

fn key(id: &[u8]) -> QuicKey {
    QuicKey::new(LOCAL, REMOTE, ConnectionId::from_vec(id.to_vec()))
}

fn registry(entries: &[(&[u8], u32)]) -> Registry<u32> {
    let mut registry = Registry::new();
    for (id, value) in entries {
        assert_eq!(registry.reserve(key(id), *value), Ok(()));
    }
    registry
}

fn header(ty: PacketType, scid: &[u8], dcid: &[u8]) -> PacketHeader {
    PacketHeader { ty, scid: scid.to_vec(), dcid: dcid.to_vec() }
}

/// A packet with a long header of version 1, followed by an empty token and some payload.
fn long_packet(first: u8, dcid: &[u8], scid: &[u8]) -> BytesMut {
    let mut bytes = vec![first, 0, 0, 0, 1, dcid.len() as u8];
    bytes.extend_from_slice(dcid);
    bytes.push(scid.len() as u8);
    bytes.extend_from_slice(scid);
    bytes.extend_from_slice(&[0, 4, 1, 2, 3, 4]);
    BytesMut::from(&bytes[..])
}

fn short_packet(dcid: &[u8; 20]) -> BytesMut {
    let mut bytes = vec![0x40];
    bytes.extend_from_slice(dcid);
    bytes.extend_from_slice(b"payload");
    BytesMut::from(&bytes[..])
}

fn sent(registry: &Registry<u32>, data: &BytesMut, listening: bool) -> Result<String, StreamError> {
    let sender = QuicPacketSender { link: () };
    let mut copy = data.clone();
    let result = sender.send(registry, &mut copy, LOCAL, REMOTE, listening);
    assert_eq!(&copy, data);
    result.map(|d| format!("{d:?}"))
}

#[test]
fn packets_are_dispatched_by_sender_id_first() {
    let r = registry(&[(b"s", 1), (b"d", 2)]);
    let d = dispatch(&r, header(PacketType::Short, b"s", b"d"), LOCAL, REMOTE, false);
    assert!(matches!(d, Ok(Dispatch::Forward(&1))));
    let d = dispatch(&r, header(PacketType::Initial, b"x", b"d"), LOCAL, REMOTE, true);
    assert!(matches!(d, Ok(Dispatch::Forward(&2))));
}

#[test]
fn packets_of_no_connection_need_a_listener() {
    let r = registry(&[(b"d", 2)]);
    for ty in [
        PacketType::Initial,
        PacketType::Retry,
        PacketType::Handshake,
        PacketType::ZeroRtt,
        PacketType::VersionNegotiation,
        PacketType::Short,
    ] {
        let d = dispatch(&r, header(ty, b"x", b"y"), LOCAL, REMOTE, false);
        assert!(matches!(d, Err(StreamError::NoListener)));
        let d = dispatch(&r, header(ty, b"x", b"y"), LOCAL, REMOTE, true);
        if ty == PacketType::Initial {
            assert!(matches!(d, Ok(Dispatch::Accept)));
        } else {
            assert!(matches!(d, Ok(Dispatch::Ignore)));
        }
    }
    assert_eq!(StreamError::NoListener.kind(), ErrorKind::BrokenPipe);
    assert_eq!(StreamError::NoListener.message(), Some("no active listener"));
}

#[test]
fn packets_between_other_addresses_are_not_the_connections() {
    let r = registry(&[(b"d", 2)]);
    let d = dispatch(&r, header(PacketType::Short, b"", b"d"), REMOTE, LOCAL, true);
    assert!(matches!(d, Ok(Dispatch::Ignore)));
}

#[test]
fn a_forgotten_connection_gets_no_packets() {
    let mut r = registry(&[(b"d", 2)]);
    assert_eq!(r.remove(&key(b"d")), Some(2));
    let d = dispatch(&r, header(PacketType::Short, b"", b"d"), LOCAL, REMOTE, true);
    assert!(matches!(d, Ok(Dispatch::Ignore)));
}

#[test]
fn short_packets_go_by_the_receiver_id() {
    let id = [3u8; 20];
    let r = registry(&[(&id, 5)]);
    assert_eq!(sent(&r, &short_packet(&id), false), Ok("Forward(5)".to_string()));
    let other = short_packet(&[4u8; 20]);
    assert_eq!(sent(&r, &other, true), Ok("Ignore".to_string()));
    assert_eq!(sent(&r, &other, false), Err(StreamError::NoListener));
}

#[test]
fn long_packets_go_by_either_id() {
    let r = registry(&[(b"client", 1), (b"server", 2)]);
    let initial = long_packet(0xc0, b"server", b"client");
    assert_eq!(sent(&r, &initial, true), Ok("Forward(1)".to_string()));
    let initial = long_packet(0xc0, b"server", b"other");
    assert_eq!(sent(&r, &initial, true), Ok("Forward(2)".to_string()));
    let initial = long_packet(0xc0, b"unknown", b"other");
    assert_eq!(sent(&r, &initial, true), Ok("Accept".to_string()));
    let zero_rtt = long_packet(0xd0, b"unknown", b"other");
    assert_eq!(sent(&r, &zero_rtt, true), Ok("Ignore".to_string()));
    let handshake = long_packet(0xe0, b"unknown", b"other");
    assert_eq!(sent(&r, &handshake, true), Ok("Ignore".to_string()));
}

#[test]
fn retry_and_version_negotiation_open_nothing() {
    let r = registry(&[]);
    let mut bytes = vec![0xf0, 0, 0, 0, 1, 1, 9, 1, 8];
    bytes.extend_from_slice(&[0u8; 20]);
    assert_eq!(sent(&r, &BytesMut::from(&bytes[..]), true), Ok("Ignore".to_string()));
    let bytes = [0xc0, 0, 0, 0, 0, 1, 9, 1, 8, 0, 0, 0, 1];
    assert_eq!(sent(&r, &BytesMut::from(&bytes[..]), true), Ok("Ignore".to_string()));
    let r = registry(&[(&[8], 4)]);
    assert_eq!(sent(&r, &BytesMut::from(&bytes[..]), true), Ok("Forward(4)".to_string()));
}

#[test]
fn packets_that_make_no_sense_are_refused() {
    let r = registry(&[]);
    for bytes in [&b""[..], &[0x40u8; 20][..], &[0xc0, 0, 0, 0, 1, 21][..]] {
        match sent(&r, &BytesMut::from(bytes), true) {
            Err(e) => assert_eq!(e.kind(), ErrorKind::InvalidData),
            other => panic!("{other:?}"),
        }
    }
}

#[test]
fn made_up_ids_are_long_and_differ() {
    let a = random_conn_id().unwrap();
    let b = random_conn_id().unwrap();
    assert_eq!(a.as_bytes().len(), 20);
    assert_eq!(b.as_bytes().len(), 20);
    assert!(a != b);
    assert!(a.as_bytes() != &[0u8; 20]);
}

#[test]
fn an_id_is_the_bytes_that_were_drawn() {
    let id = drawn_conn_id(true, vec![1, 2, 3]).unwrap();
    assert_eq!(id.as_bytes(), &[1, 2, 3]);
    assert!(drawn_conn_id(false, vec![1, 2, 3]).is_none());
}

#[test]
fn failures_to_open_a_connection_are_told_apart() {
    let e = quiche::Error::TlsFail;
    let refused: Result<u8, quiche::Error> = Err(e);
    assert_eq!(accept_result(refused), Err(StreamError::InvalidData(e)));
    assert_eq!(connect_result(refused), Err(StreamError::Transport(e)));
    assert_eq!(accept_result(Ok(1u8)), Ok(1));
    assert_eq!(connect_result(Ok(1u8)), Ok(1));
}

#[test]
fn a_connection_goes_with_its_key() {
    let id = || ConnectionId::from_vec(vec![4, 5]);
    let (k, conn) = with_key(LOCAL, REMOTE, id(), Ok("conn")).unwrap();
    assert_eq!(conn, "conn");
    assert!(k == key(&[4, 5]));
    let refused: Result<&str, StreamError> = Err(StreamError::Aborted);
    assert!(matches!(with_key(LOCAL, REMOTE, id(), refused), Err(StreamError::Aborted)));
}

#[test]
fn a_context_has_its_sides() {
    let (io, endpoint, listener) = new_context("s", "r", "e", "l").unwrap();
    assert_eq!(endpoint.link, "e");
    assert_eq!(listener.receiver, "l");
    assert!(matches!(io.recv(None), Err(StreamError::PacketsClosed)));
    let r = registry(&[(&[3u8; 20], 5)]);
    let mut data = short_packet(&[3u8; 20]);
    assert!(matches!(io.send(&r, &mut data, LOCAL, REMOTE, false), Ok(Dispatch::Forward(&5))));
    assert!(matches!(io.input(&r, &mut data, LOCAL, REMOTE, false), Ok(Dispatch::Forward(&5))));
    assert!(matches!(io.input(&r, &mut data, REMOTE, LOCAL, true), Ok(Dispatch::Ignore)));
    assert!(matches!(io.output(None), Err(StreamError::PacketsClosed)));
    let (sender, receiver) = io.split();
    assert_eq!(sender.link, "s");
    assert_eq!(receiver.quic_pkt_rx, "r");
    assert_eq!(CHANNEL_CAPACITY, 128);
}

#[test]
fn packets_for_the_network_are_passed_on() {
    let receiver = QuicPacketReceiver { quic_pkt_rx: () };
    let info = quiche::SendInfo {
        from: "127.0.0.1:2".parse().unwrap(),
        to: "127.0.0.1:1".parse().unwrap(),
        at: Instant::now(),
    };
    let (packet, to) = receiver.recv(Some((BytesMut::from(&b"out"[..]), info))).unwrap();
    assert_eq!(&packet[..], b"out");
    assert_eq!(to, info);
    assert_eq!(StreamError::PacketsClosed.kind(), ErrorKind::BrokenPipe);
}
