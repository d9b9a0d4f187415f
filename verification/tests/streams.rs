use bytes::BytesMut;
use easyquic::stream::{poll_write, take_chunk, Polled, ReadBuffer, ReadPoll, Reserve, MAX_WRITE};
use easyquic::{ConnectionId, QuicKey, QuicListener, QuicStream, SocketAddr, StreamError};
use tokio::io::ReadBuf;

fn addr(port: u16) -> SocketAddr {
    SocketAddr::V4 { ip: 0x0a000001, port }
}

fn stream() -> QuicStream<&'static str, u8> {
    let key = QuicKey::new(addr(1), addr(2), ConnectionId::from_vec(vec![9, 8, 7]));
    QuicStream::new_stream(key, "receiver", 5)
}

fn ready(bytes: &[u8]) -> Polled {
    Polled::Ready(Some(BytesMut::from(bytes)))
}

#[test]
fn stream_and_halves_agree_on_the_connection() {
    let s = stream();
    assert_eq!(s.local_addr(), Ok(addr(1)));
    assert_eq!(s.remote_addr(), Ok(addr(2)));
    assert_eq!(s.id().as_bytes(), &[9, 8, 7]);
    let (read, write) = s.split();
    assert_eq!(read.local_addr(), Ok(addr(1)));
    assert_eq!(read.remote_addr(), Ok(addr(2)));
    assert_eq!(read.id().as_bytes(), &[9, 8, 7]);
    assert_eq!(read.receiver, "receiver");
    assert_eq!(write.local_addr(), Ok(addr(1)));
    assert_eq!(write.remote_addr(), Ok(addr(2)));
    assert_eq!(write.id().as_bytes(), &[9, 8, 7]);
    assert_eq!(write.sender, 5);
}

#[test]
fn listener_tells_the_remote_address() {
    let listener = QuicListener { receiver: () };
    let (s, from) = listener.accept(Some(stream())).unwrap();
    assert_eq!(from, addr(2));
    assert_eq!(s.id().as_bytes(), &[9, 8, 7]);
    let closed: Option<QuicStream<&'static str, u8>> = None;
    assert!(matches!(listener.accept(closed), Err(StreamError::AcceptClosed)));
}

#[test]
fn read_takes_what_fits_and_keeps_the_rest() {
    let mut buffer = ReadBuffer::new();
    let mut space = [0u8; 3];
    let mut buf = ReadBuf::new(&mut space);
    assert_eq!(buffer.poll_read(&mut buf, || ready(b"hello")), ReadPoll::Ready);
    assert_eq!(buf.filled(), b"hel");
    let mut space = [0u8; 8];
    let mut buf = ReadBuf::new(&mut space);
    let rest = buffer.poll_read(&mut buf, || panic!("the rest comes first"));
    assert_eq!(rest, ReadPoll::Ready);
    assert_eq!(buf.filled(), b"lo");
    assert_eq!(buffer.poll_read(&mut buf, || ready(b"!")), ReadPoll::Ready);
    assert_eq!(buf.filled(), b"lo!");
}

#[test]
fn read_without_room_keeps_everything() {
    let mut buffer = ReadBuffer::new();
    let mut none = [0u8; 0];
    let mut buf = ReadBuf::new(&mut none);
    assert_eq!(buffer.poll_read(&mut buf, || ready(b"ab")), ReadPoll::Ready);
    let mut none = [0u8; 0];
    let mut buf = ReadBuf::new(&mut none);
    assert_eq!(buffer.poll_read(&mut buf, || ready(b"cd")), ReadPoll::Ready);
    let mut space = [0u8; 4];
    let mut buf = ReadBuf::new(&mut space);
    assert_eq!(buffer.poll_read(&mut buf, || ready(b"cd")), ReadPoll::Ready);
    assert_eq!(buf.filled(), b"ab");
}

#[test]
fn read_waits_for_the_channel() {
    let mut buffer = ReadBuffer::new();
    let mut space = [0u8; 4];
    let mut buf = ReadBuf::new(&mut space);
    assert_eq!(buffer.poll_read(&mut buf, || Polled::Pending), ReadPoll::Pending);
    assert_eq!(buf.filled(), b"");
    assert_eq!(buf.remaining(), 4);
}

#[test]
fn empty_data_and_a_closed_channel_end_a_read() {
    let mut buffer = ReadBuffer::new();
    let mut space = [0u8; 4];
    let mut buf = ReadBuf::new(&mut space);
    assert_eq!(buffer.poll_read(&mut buf, || ready(b"")), ReadPoll::End);
    assert_eq!(buffer.poll_read(&mut buf, || Polled::Ready(None)), ReadPoll::Ready);
    assert_eq!(buf.filled(), b"");
}

#[test]
fn receive_goes_on_after_the_channel_answered() {
    let mut buffer = ReadBuffer::new();
    let mut space = [0u8; 1];
    let mut buf = ReadBuf::new(&mut space);
    assert_eq!(buffer.receive(&mut buf, ready(b"xyz")), ReadPoll::Ready);
    assert_eq!(buf.filled(), b"x");
}

#[test]
fn reads_give_back_all_that_was_received_in_order() {
    let mut buffer = ReadBuffer::new();
    let mut chunks: Vec<&[u8]> = vec![b"gh", b"cdef", b"ab"];
    let mut got: Vec<u8> = Vec::new();
    for size in [1usize, 3, 2, 0, 5, 1, 1, 4, 4] {
        let mut space = vec![0u8; size];
        let mut buf = ReadBuf::new(&mut space);
        buffer.poll_read(&mut buf, || match chunks.pop() {
            Some(chunk) => ready(chunk),
            None => Polled::Pending,
        });
        got.extend_from_slice(buf.filled());
    }
    assert_eq!(got, b"abcdefgh");
}

#[test]
fn what_is_queued_stays_while_something_is_kept() {
    let mut buffer = ReadBuffer::new();
    let mut queue: Vec<&[u8]> = vec![b"XY", b"hello"];
    let mut space = [0u8; 3];
    let mut buf = ReadBuf::new(&mut space);
    assert_eq!(buffer.poll_read(&mut buf, || ready(queue.pop().unwrap())), ReadPoll::Ready);
    assert_eq!(buf.filled(), b"hel");
    let mut space = [0u8; 8];
    let mut buf = ReadBuf::new(&mut space);
    assert_eq!(buffer.poll_read(&mut buf, || ready(queue.pop().unwrap())), ReadPoll::Ready);
    assert_eq!(buf.filled(), b"lo");
    assert_eq!(queue, vec![b"XY"]);
}

#[test]
fn nothing_is_read_after_the_end() {
    let mut buffer = ReadBuffer::new();
    let mut space = [0u8; 8];
    let mut buf = ReadBuf::new(&mut space);
    assert_eq!(buffer.poll_read(&mut buf, || ready(b"last")), ReadPoll::Ready);
    assert_eq!(buffer.poll_read(&mut buf, || ready(b"")), ReadPoll::End);
    for _ in 0..3 {
        assert_eq!(buffer.poll_read(&mut buf, || Polled::Ready(None)), ReadPoll::Ready);
    }
    assert_eq!(buf.filled(), b"last");
}

#[test]
fn the_channel_gets_what_was_accepted() {
    let mut queue: Vec<Vec<u8>> = Vec::new();
    let mut accepted: Vec<u8> = Vec::new();
    for (reserve, bytes, taken) in [
        (Reserve::Ready, &b"ab"[..], true),
        (Reserve::Pending, b"cd", true),
        (Reserve::Ready, b"cd", true),
        (Reserve::Ready, b"ef", false),
        (Reserve::Closed, b"gh", true),
    ] {
        let result = poll_write(reserve, bytes, |chunk| {
            if taken {
                queue.push(chunk.to_vec());
            }
            taken
        });
        if let Some(Ok(count)) = result {
            accepted.extend_from_slice(&bytes[..count]);
        }
    }
    assert_eq!(queue, vec![b"ab".to_vec(), b"cd".to_vec()]);
    assert_eq!(accepted, b"abcd");
}

#[test]
fn write_hands_over_a_chunk() {
    let mut handed = None;
    let result = poll_write(Reserve::Ready, b"data", |chunk| {
        handed = Some(chunk);
        true
    });
    assert_eq!(result, Some(Ok(4)));
    assert_eq!(&handed.unwrap()[..], b"data");
}

#[test]
fn write_takes_no_more_than_a_chunk_at_a_time() {
    assert_eq!(MAX_WRITE, 10240);
    let bytes: Vec<u8> = (0..25000u32).map(|i| (i % 251) as u8).collect();
    let mut rest: &[u8] = &bytes;
    let mut sizes = Vec::new();
    let mut handed: Vec<u8> = Vec::new();
    while !rest.is_empty() {
        let result = poll_write(Reserve::Ready, rest, |chunk| {
            handed.extend_from_slice(&chunk);
            true
        });
        let count = result.unwrap().unwrap();
        sizes.push(count);
        rest = &rest[count..];
    }
    assert_eq!(sizes, vec![10240, 10240, 4520]);
    assert_eq!(handed, bytes);
}

#[test]
fn write_fails_where_the_channel_is_closed() {
    let closed = poll_write(Reserve::Closed, b"data", |_| panic!("nothing to hand over"));
    assert_eq!(closed, Some(Err(StreamError::WriteZero)));
    assert_eq!(poll_write(Reserve::Ready, b"data", |_| false), Some(Err(StreamError::WriteZero)));
    let pending = poll_write(Reserve::Pending, b"data", |_| panic!("nothing to hand over"));
    assert_eq!(pending, None);
}

#[test]
fn an_empty_write_is_an_empty_chunk() {
    assert!(take_chunk(b"").is_empty());
    assert_eq!(take_chunk(&[7u8; 10240]).len(), 10240);
    assert_eq!(take_chunk(&[7u8; 10241]).len(), 10240);
}
