use easyquic::{ConnectionId, ErrorKind, PacketPath, QuicKey, Registry, SocketAddr, StreamError};

fn local() -> SocketAddr {
    SocketAddr::V4 { ip: 0x7f000001, port: 12345 }
}

fn remote() -> SocketAddr {
    SocketAddr::V6 { ip6: 1, port: 443, flowinfo: 0, scope_id: 2 }
}

fn key(id: &[u8]) -> QuicKey {
    QuicKey::new(local(), remote(), ConnectionId::from_vec(id.to_vec()))
}

#[test]
fn conn_ids_are_as_long_as_the_transport_allows() {
    assert_eq!(easyquic::MAX_CONN_ID_LEN, quiche::MAX_CONN_ID_LEN);
}

#[test]
fn key_parts_come_back() {
    let k = key(&[1, 2, 3]);
    assert_eq!(k.local_addr(), local());
    assert_eq!(k.remote_addr(), remote());
    assert_eq!(k.conn_id().as_bytes(), &[1, 2, 3]);
}

#[test]
fn packets_arrive_from_the_remote_side() {
    let path = key(&[1]).recv_info();
    assert_eq!(path, PacketPath { from: remote(), to: local() });
}

#[test]
fn keys_are_equal_by_all_their_parts() {
    assert!(key(&[1, 2]) == key(&[1, 2]));
    assert!(key(&[1, 2]) == key(&[1, 2]).clone());
    assert!(key(&[1, 2]) != key(&[1, 3]));
    assert!(key(&[1, 2]) != key(&[1]));
    let swapped = QuicKey::new(remote(), local(), ConnectionId::from_vec(vec![1, 2]));
    assert!(key(&[1, 2]) != swapped);
    let scoped = SocketAddr::V6 { ip6: 1, port: 443, flowinfo: 0, scope_id: 3 };
    assert!(QuicKey::new(local(), scoped, ConnectionId::from_vec(vec![1, 2])) != key(&[1, 2]));
}

#[test]
fn registry_finds_what_was_registered() {
    let mut registry: Registry<u32> = Registry::new();
    assert!(registry.get(&key(&[1])).is_none());
    assert_eq!(registry.reserve(key(&[1]), 10), Ok(()));
    assert_eq!(registry.reserve(key(&[2]), 20), Ok(()));
    assert_eq!(registry.get(&key(&[1])), Some(&10));
    assert_eq!(registry.get(&key(&[2])), Some(&20));
    assert_eq!(registry.get(&key(&[3])), None);
}

#[test]
fn registry_refuses_a_second_stream_with_the_same_key() {
    let mut registry: Registry<u32> = Registry::new();
    assert_eq!(registry.reserve(key(&[1]), 10), Ok(()));
    let refused = registry.reserve(key(&[1]), 11);
    assert_eq!(refused, Err(StreamError::StreamExists));
    assert_eq!(StreamError::StreamExists.kind(), ErrorKind::AlreadyExists);
    assert_eq!(StreamError::StreamExists.message(), Some("stream already exists"));
    assert_eq!(registry.get(&key(&[1])), Some(&10));
}

#[test]
fn registry_forgets_what_was_removed_and_nothing_else() {
    let mut registry: Registry<u32> = Registry::new();
    for i in 0..5u8 {
        assert_eq!(registry.reserve(key(&[i]), i as u32), Ok(()));
    }
    assert_eq!(registry.remove(&key(&[1])), Some(1));
    assert_eq!(registry.remove(&key(&[1])), None);
    for i in [0u8, 2, 3, 4] {
        assert_eq!(registry.get(&key(&[i])), Some(&(i as u32)));
    }
    assert_eq!(registry.reserve(key(&[1]), 100), Ok(()));
    assert_eq!(registry.get(&key(&[1])), Some(&100));
}
