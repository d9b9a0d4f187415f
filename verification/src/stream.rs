//! The two halves of a stream, as a reader and a writer of bytes see them.

use crate::buffer;
use crate::error::StreamError;
use crate::key::{ConnectionId, KeyView, QuicKey, SocketAddr};
use bytes::BytesMut;
use tokio::io::ReadBuf;
use vstd::prelude::*;
use vstd::slice::slice_subrange;

verus! {

/// The most bytes that one write takes.
pub const MAX_WRITE: usize = 10240;

/// What the channel of incoming data answered.
#[derive(Debug)]
pub enum Polled {
    /// Nothing yet.
    Pending,
    /// The next data, or that the channel is closed and drained.
    Ready(Option<BytesMut>),
}

/// What a read came to.
#[derive(Clone, Copy, PartialEq, Eq, Structural, Debug)]
pub enum ReadPoll {
    /// Nothing yet.
    Pending,
    /// The read is done.
    Ready,
    /// The read is done, and the stream has ended: nothing more is to be received.
    End,
}

/// Whether the channel of outgoing data has room for one more item.
#[derive(Clone, Copy, PartialEq, Eq, Structural, Debug)]
pub enum Reserve {
    /// It has.
    Ready,
    /// It is closed.
    Closed,
    /// Not yet.
    Pending,
}

/// A [`Polled`] by its bytes.
pub enum PolledView {
    Pending,
    Ready(Option<Seq<u8>>),
}

impl View for Polled {
    type V = PolledView;

    open spec fn view(&self) -> PolledView {
        match *self {
            Polled::Pending => PolledView::Pending,
            Polled::Ready(None) => PolledView::Ready(None),
            Polled::Ready(Some(data)) => PolledView::Ready(Some(buffer::content(data))),
        }
    }
}

/// The smaller of two numbers.
pub open spec fn min(a: nat, b: nat) -> nat {
    if a < b {
        a
    } else {
        b
    }
}

/// What a reader with so much room gets of some data.
pub open spec fn given(data: Seq<u8>, room: nat) -> Seq<u8> {
    data.take(min(room, data.len()) as int)
}

/// What a reader with so much room leaves of some data.
pub open spec fn kept(data: Seq<u8>, room: nat) -> Seq<u8> {
    data.skip(min(room, data.len()) as int)
}

/// The reader's buffer got these bytes.
pub open spec fn put(before: ReadBuf<'_>, bytes: Seq<u8>, after: ReadBuf<'_>) -> bool {
    &&& buffer::filled(after) == buffer::filled(before) + bytes
    &&& buffer::room(after) == buffer::room(before) - bytes.len()
}

/// The data that an answer of the channel brings.
pub open spec fn arrived(polled: PolledView) -> Seq<u8> {
    match polled {
        PolledView::Ready(Some(data)) => data,
        _ => Seq::empty(),
    }
}

/// What a read comes to after the channel was asked. Empty data is the end of the stream.
pub open spec fn read_poll(polled: PolledView) -> ReadPoll {
    match polled {
        PolledView::Pending => ReadPoll::Pending,
        PolledView::Ready(None) => ReadPoll::Ready,
        PolledView::Ready(Some(data)) => if data.len() == 0 {
            ReadPoll::End
        } else {
            ReadPoll::Ready
        },
    }
}

/// Data that was received and not read yet.
#[derive(Debug)]
pub struct ReadBuffer {
    last_buf: Option<BytesMut>,
}

impl View for ReadBuffer {
    type V = Seq<u8>;

    closed spec fn view(&self) -> Seq<u8> {
        match self.last_buf {
            Some(data) => buffer::content(data),
            None => Seq::empty(),
        }
    }
}

impl ReadBuffer {
    /// A buffer that is kept holds something.
    pub closed spec fn wf(self) -> bool {
        self.last_buf matches Some(data) ==> buffer::content(data).len() > 0
    }

    /// Nothing was received yet.
    pub fn new() -> (buffer: ReadBuffer)
        ensures
            buffer.wf(),
            buffer@ == Seq::<u8>::empty(),
    {
        ReadBuffer { last_buf: None }
    }

    /// Gives the reader as much as it has room for and keeps the rest.
    fn hand_over(&mut self, data: BytesMut, buf: &mut ReadBuf<'_>)
        ensures
            final(self).wf(),
            put(*old(buf), given(buffer::content(data), buffer::room(*old(buf))), *final(buf)),
            final(self)@ == kept(buffer::content(data), buffer::room(*old(buf))),
    {
        let mut data = data;
        let room = buffer::remaining(buf);
        let len: usize = if room < data.len() {
            room
        } else {
            data.len()
        };
        buffer::put_slice(buf, slice_subrange(buffer::as_slice(&data), 0, len));
        buffer::advance(&mut data, len);
        if data.is_empty() {
            self.last_buf = None;
        } else {
            self.last_buf = Some(data);
        }
    }

    /// Goes on with a read, for which nothing was kept, after the channel was asked.
    pub fn receive(&mut self, buf: &mut ReadBuf<'_>, polled: Polled) -> (result: ReadPoll)
        requires
            old(self).wf(),
            old(self)@.len() == 0,
        ensures
            final(self).wf(),
            result == read_poll(polled@),
            put(*old(buf), given(arrived(polled@), buffer::room(*old(buf))), *final(buf)),
            final(self)@ == kept(arrived(polled@), buffer::room(*old(buf))),
    {
        match polled {
            Polled::Pending => ReadPoll::Pending,
            Polled::Ready(None) => ReadPoll::Ready,
            Polled::Ready(Some(data)) => {
                if data.is_empty() {
                    return ReadPoll::End;
                }
                self.hand_over(data, buf);
                ReadPoll::Ready
            },
        }
    }

    /// Reads: what was kept comes first; only if there is nothing may the channel be asked.
    pub fn poll_read<P: FnOnce() -> Polled>(&mut self, buf: &mut ReadBuf<'_>, poll: P) -> (result:
        ReadPoll)
        requires
            old(self).wf(),
            old(self)@.len() == 0 ==> call_requires(poll, ()),
        ensures
            final(self).wf(),
            old(self)@.len() > 0 ==> {
                &&& result == ReadPoll::Ready
                &&& put(*old(buf), given(old(self)@, buffer::room(*old(buf))), *final(buf))
                &&& final(self)@ == kept(old(self)@, buffer::room(*old(buf)))
            },
            old(self)@.len() == 0 ==> exists|polled: Polled| #[trigger]
                call_ensures(poll, (), polled) && {
                    &&& result == read_poll(polled@)
                    &&& put(*old(buf), given(arrived(polled@), buffer::room(*old(buf))), *final(buf))
                    &&& final(self)@ == kept(arrived(polled@), buffer::room(*old(buf)))
                },
    {
        match self.last_buf.take() {
            Some(data) => {
                self.hand_over(data, buf);
                ReadPoll::Ready
            },
            None => {
                let polled = poll();
                self.receive(buf, polled)
            },
        }
    }
}

/// The part of some bytes that one write takes.
pub open spec fn write_chunk(bytes: Seq<u8>) -> Seq<u8> {
    bytes.take(min(MAX_WRITE as nat, bytes.len()) as int)
}

/// What a write comes to once its chunk was handed to the channel, or was not taken.
pub open spec fn write_result(bytes: Seq<u8>, sent: bool) -> Result<usize, StreamError> {
    if sent {
        Ok(write_chunk(bytes).len() as usize)
    } else {
        Err(StreamError::WriteZero)
    }
}

/// Cuts off the part of some bytes that one write takes.
pub fn take_chunk(bytes: &[u8]) -> (chunk: BytesMut)
    ensures
        buffer::content(chunk) == write_chunk(bytes@),
{
    let len: usize = if bytes.len() < MAX_WRITE {
        bytes.len()
    } else {
        MAX_WRITE
    };
    buffer::from_slice(slice_subrange(bytes, 0, len))
}

/// What a write comes to, `sent` telling whether the channel took the chunk that it was handed,
/// where it had room. Nothing, while there is no room yet.
pub open spec fn write_answer(reserve: Reserve, bytes: Seq<u8>, sent: bool) -> Option<
    Result<usize, StreamError>,
> {
    match reserve {
        Reserve::Pending => None,
        Reserve::Closed => Some(Err(StreamError::WriteZero)),
        Reserve::Ready => Some(write_result(bytes, sent)),
    }
}

/// Writes: with room in the channel, one chunk of the bytes is handed to it; without, nothing
/// may be.
pub fn poll_write<S: FnOnce(BytesMut) -> bool>(reserve: Reserve, bytes: &[u8], send: S) -> (result:
    Option<Result<usize, StreamError>>)
    requires
        reserve == Reserve::Ready ==> forall|chunk: BytesMut|
            buffer::content(chunk) == write_chunk(bytes@) ==> #[trigger] call_requires(
                send,
                (chunk,),
            ),
    ensures
        reserve != Reserve::Ready ==> result == write_answer(reserve, bytes@, false),
        reserve == Reserve::Ready ==> exists|chunk: BytesMut, sent: bool| #[trigger]
            call_ensures(send, (chunk,), sent) && buffer::content(chunk) == write_chunk(bytes@)
                && result == write_answer(reserve, bytes@, sent),
{
    match reserve {
        Reserve::Pending => None,
        Reserve::Closed => Some(Err(StreamError::WriteZero)),
        Reserve::Ready => {
            let chunk = take_chunk(bytes);
            let len: usize = chunk.len();
            if send(chunk) {
                Some(Ok(len))
            } else {
                Some(Err(StreamError::WriteZero))
            }
        },
    }
}

/// The reading half of a stream. It gets its data through a receiver.
#[derive(Debug)]
pub struct QuicStreamRead<R> {
    pub key: QuicKey,
    pub buffer: ReadBuffer,
    pub receiver: R,
}

/// The writing half of a stream. It hands its data to a sender.
#[derive(Debug)]
pub struct QuicStreamWrite<W> {
    pub key: QuicKey,
    pub sender: W,
}

/// A stream.
#[derive(Debug)]
pub struct QuicStream<R, W> {
    pub read: QuicStreamRead<R>,
    pub write: QuicStreamWrite<W>,
}

impl<R> QuicStreamRead<R> {
    /// Which connection the half belongs to.
    pub open spec fn key(self) -> KeyView {
        self.key@
    }

    /// The address on this side.
    pub fn local_addr(&self) -> (addr: Result<SocketAddr, StreamError>)
        ensures
            addr == Ok::<SocketAddr, StreamError>(self.key().local),
    {
        Ok(self.key.local_addr())
    }

    /// The address on the other side.
    pub fn remote_addr(&self) -> (addr: Result<SocketAddr, StreamError>)
        ensures
            addr == Ok::<SocketAddr, StreamError>(self.key().remote),
    {
        Ok(self.key.remote_addr())
    }

    /// The connection id.
    pub fn id(&self) -> (id: ConnectionId)
        ensures
            id@ == self.key().conn_id,
    {
        self.key.conn_id().clone()
    }
}

impl<W> QuicStreamWrite<W> {
    /// Which connection the half belongs to.
    pub open spec fn key(self) -> KeyView {
        self.key@
    }

    /// The address on this side.
    pub fn local_addr(&self) -> (addr: Result<SocketAddr, StreamError>)
        ensures
            addr == Ok::<SocketAddr, StreamError>(self.key().local),
    {
        Ok(self.key.local_addr())
    }

    /// The address on the other side.
    pub fn remote_addr(&self) -> (addr: Result<SocketAddr, StreamError>)
        ensures
            addr == Ok::<SocketAddr, StreamError>(self.key().remote),
    {
        Ok(self.key.remote_addr())
    }

    /// The connection id.
    pub fn id(&self) -> (id: ConnectionId)
        ensures
            id@ == self.key().conn_id,
    {
        self.key.conn_id().clone()
    }
}

impl<R, W> QuicStream<R, W> {
    /// Both halves belong to one connection, and what the reading half keeps is sound.
    pub open spec fn wf(self) -> bool {
        &&& self.read.key() == self.write.key()
        &&& self.read.buffer.wf()
    }

    /// Which connection the stream belongs to.
    pub open spec fn key(self) -> KeyView {
        self.read.key()
    }

    /// The stream of a connection, with nothing received yet.
    pub fn new_stream(key: QuicKey, receiver: R, sender: W) -> (stream: QuicStream<R, W>)
        ensures
            stream.wf(),
            stream.key() == key@,
            stream.read.buffer@ == Seq::<u8>::empty(),
            stream.read.receiver == receiver,
            stream.write.sender == sender,
    {
        let read = QuicStreamRead { key: key.clone(), buffer: ReadBuffer::new(), receiver };
        let write = QuicStreamWrite { key, sender };
        QuicStream { read, write }
    }

    /// The address on this side.
    pub fn local_addr(&self) -> (addr: Result<SocketAddr, StreamError>)
        requires
            self.wf(),
        ensures
            addr == Ok::<SocketAddr, StreamError>(self.key().local),
    {
        self.read.local_addr()
    }

    /// The address on the other side.
    pub fn remote_addr(&self) -> (addr: Result<SocketAddr, StreamError>)
        requires
            self.wf(),
        ensures
            addr == Ok::<SocketAddr, StreamError>(self.key().remote),
    {
        self.read.remote_addr()
    }

    /// The connection id.
    pub fn id(&self) -> (id: ConnectionId)
        requires
            self.wf(),
        ensures
            id@ == self.key().conn_id,
    {
        self.read.id()
    }

    /// Parts the two halves. Each still belongs to the connection of the stream, and the
    /// reading half keeps what the stream kept.
    pub fn split(self) -> (halves: (QuicStreamRead<R>, QuicStreamWrite<W>))
        requires
            self.wf(),
        ensures
            halves.0 == self.read,
            halves.1 == self.write,
            halves.0.key() == self.key(),
            halves.1.key() == self.key(),
            halves.0.buffer.wf(),
    {
        (self.read, self.write)
    }
}

/// A run of reads, each with so much room and, where nothing was kept, such an answer of the
/// channel: what the reader got, what is kept, and what was received.
pub open spec fn read_run(start: Seq<u8>, reads: Seq<(nat, PolledView)>) -> (
    Seq<u8>,
    Seq<u8>,
    Seq<u8>,
)
    decreases reads.len(),
{
    if reads.len() == 0 {
        (Seq::empty(), start, Seq::empty())
    } else {
        let (got, pending, received) = read_run(start, reads.drop_last());
        let (room, polled) = reads.last();
        if pending.len() > 0 {
            (got + given(pending, room), kept(pending, room), received)
        } else {
            let data = arrived(polled);
            (got + given(data, room), kept(data, room), received + data)
        }
    }
}

/// Reading loses nothing, repeats nothing and changes no order: at any moment, what the reader
/// got followed by what is kept is what was kept at first followed by all that was received.
pub proof fn law_reads_give_back_what_was_received(
    start: Seq<u8>,
    reads: Seq<(nat, PolledView)>,
)
    ensures
        read_run(start, reads).0 + read_run(start, reads).1 == start + read_run(start, reads).2,
    decreases reads.len(),
{
    if reads.len() > 0 {
        law_reads_give_back_what_was_received(start, reads.drop_last());
        let pending = read_run(start, reads.drop_last()).1;
        let (room, polled) = reads.last();
        let data = if pending.len() > 0 {
            pending
        } else {
            arrived(polled)
        };
        assert(given(data, room) + kept(data, room) =~= data);
    }
}

/// Once the stream has ended, no read gives anything: after a read to which the channel answered
/// with the end, reads that find no more data in it add nothing and leave nothing kept.
pub proof fn law_nothing_is_read_after_the_end(
    start: Seq<u8>,
    reads: Seq<(nat, PolledView)>,
    later: Seq<(nat, PolledView)>,
)
    requires
        reads.len() > 0,
        read_run(start, reads.drop_last()).1.len() == 0,
        read_poll(reads.last().1) == ReadPoll::End,
        forall|i: int| 0 <= i < later.len() ==> arrived((#[trigger] later[i]).1).len() == 0,
    ensures
        read_run(start, reads + later).0 == read_run(start, reads.drop_last()).0,
        read_run(start, reads + later).1.len() == 0,
    decreases later.len(),
{
    let before = read_run(start, reads.drop_last()).0;
    if later.len() == 0 {
        assert(reads + later =~= reads);
        assert(read_run(start, reads).0 =~= before);
    } else {
        law_nothing_is_read_after_the_end(start, reads, later.drop_last());
        assert((reads + later).drop_last() =~= reads + later.drop_last());
        assert((reads + later).last() == later[later.len() - 1]);
        assert(read_run(start, reads + later).0 =~= before);
    }
}

/// The chunks that a writer hands over who goes on after each with what is left.
pub open spec fn chunks(bytes: Seq<u8>) -> Seq<Seq<u8>>
    decreases bytes.len(),
{
    if bytes.len() == 0 {
        Seq::empty()
    } else {
        seq![write_chunk(bytes)] + chunks(bytes.skip(write_chunk(bytes).len() as int))
    }
}

/// A writer that goes on after each chunk with what is left hands over exactly its bytes, in
/// order.
pub proof fn law_writes_hand_over_everything(bytes: Seq<u8>)
    ensures
        chunks(bytes).flatten() == bytes,
    decreases bytes.len(),
{
    if bytes.len() > 0 {
        let first = write_chunk(bytes);
        let rest = bytes.skip(first.len() as int);
        law_writes_hand_over_everything(rest);
        assert(chunks(bytes).drop_first() =~= chunks(rest));
    }
}

/// One write: whether the channel had room, the bytes, and whether it took what it was handed.
pub struct WriteCall {
    pub reserve: Reserve,
    pub bytes: Seq<u8>,
    pub sent: bool,
}

/// The chunks that the channel took over some writes.
pub open spec fn queued(calls: Seq<WriteCall>) -> Seq<Seq<u8>>
    decreases calls.len(),
{
    if calls.len() == 0 {
        Seq::empty()
    } else {
        let call = calls.last();
        if call.reserve == Reserve::Ready && call.sent {
            queued(calls.drop_last()).push(write_chunk(call.bytes))
        } else {
            queued(calls.drop_last())
        }
    }
}

/// The bytes that the writer was told were taken over some writes.
pub open spec fn accepted(calls: Seq<WriteCall>) -> Seq<u8>
    decreases calls.len(),
{
    if calls.len() == 0 {
        Seq::empty()
    } else {
        let call = calls.last();
        match write_answer(call.reserve, call.bytes, call.sent) {
            Some(Ok(count)) => accepted(calls.drop_last()) + call.bytes.take(count as int),
            _ => accepted(calls.drop_last()),
        }
    }
}

/// Over any writes, the channel took exactly the bytes that the writer was told were taken, in
/// order, in chunks that are never longer than allowed. A write that has to wait or fails puts
/// nothing in it.
pub proof fn law_the_channel_gets_what_was_accepted(calls: Seq<WriteCall>)
    ensures
        queued(calls).flatten() == accepted(calls),
        forall|i: int| 0 <= i < queued(calls).len() ==> (#[trigger] queued(calls)[i]).len()
            <= MAX_WRITE,
    decreases calls.len(),
{
    if calls.len() > 0 {
        law_the_channel_gets_what_was_accepted(calls.drop_last());
        let call = calls.last();
        let chunk = write_chunk(call.bytes);
        if call.reserve == Reserve::Ready && call.sent {
            queued(calls.drop_last()).lemma_flatten_push(chunk);
            assert(queued(calls).flatten() == accepted(calls.drop_last()) + chunk);
        }
    }
}

/// A chunk is empty only if there was nothing to write, and never longer than allowed.
pub proof fn law_chunks_are_bounded(bytes: Seq<u8>)
    ensures
        write_chunk(bytes).len() <= MAX_WRITE,
        write_chunk(bytes).len() == 0 <==> bytes.len() == 0,
{
}

/// A read ends the stream exactly when empty data arrives.
pub proof fn law_empty_data_ends_the_stream(polled: PolledView)
    ensures
        read_poll(polled) == ReadPoll::End <==> polled == PolledView::Ready(
            Some(Seq::<u8>::empty()),
        ),
{
    if read_poll(polled) == ReadPoll::End {
        match polled {
            PolledView::Ready(Some(data)) => {
                assert(data =~= Seq::<u8>::empty());
            },
            _ => {},
        }
    }
}

/// A reader gets the front of the data, as much as it has room for or all of it, behind what it
/// has; the rest is kept.
pub proof fn law_a_read_gives_what_fits(
    data: Seq<u8>,
    before: ReadBuf<'_>,
    after: ReadBuf<'_>,
)
    requires
        put(before, given(data, buffer::room(before)), after),
    ensures
        ({
            let room = buffer::room(before);
            let count: int = if room < data.len() {
                room as int
            } else {
                data.len() as int
            };
            &&& buffer::filled(after) == buffer::filled(before) + data.subrange(0, count)
            &&& buffer::room(after) == room - count
            &&& kept(data, room) == data.subrange(count, data.len() as int)
        }),
{
    let room = buffer::room(before);
    let count: int = if room < data.len() {
        room as int
    } else {
        data.len() as int
    };
    assert(given(data, room) =~= data.subrange(0, count));
    assert(kept(data, room) =~= data.subrange(count, data.len() as int));
}

/// What the channel answered is what a read comes to: data is received, empty data is the end,
/// a closed channel brings nothing, and a channel that has nothing yet leaves the read waiting.
pub proof fn law_a_read_comes_to_what_the_channel_answered(data: Seq<u8>)
    ensures
        arrived(PolledView::Ready(Some(data))) == data,
        arrived(PolledView::Ready(None)).len() == 0,
        arrived(PolledView::Pending).len() == 0,
        read_poll(PolledView::Pending) == ReadPoll::Pending,
        read_poll(PolledView::Ready(None)) == ReadPoll::Ready,
        read_poll(PolledView::Ready(Some(data))) == if data.len() == 0 {
            ReadPoll::End
        } else {
            ReadPoll::Ready
        },
{
}

/// A write that the channel took came to as many bytes as it handed over: all, or the first
/// 10240 of them. One that the channel did not take, or is closed for, fails; one that finds no
/// room waits.
pub proof fn law_a_write_comes_to_what_was_handed_over(bytes: Seq<u8>, sent: bool)
    ensures
        write_chunk(bytes) == bytes.subrange(
            0,
            if bytes.len() < 10240 {
                bytes.len() as int
            } else {
                10240
            },
        ),
        write_answer(Reserve::Ready, bytes, true) matches Some(Ok(count)) && count == write_chunk(
            bytes,
        ).len(),
        write_answer(Reserve::Ready, bytes, false) == Some(
            Err::<usize, StreamError>(StreamError::WriteZero),
        ),
        write_answer(Reserve::Closed, bytes, sent) == Some(
            Err::<usize, StreamError>(StreamError::WriteZero),
        ),
        write_answer(Reserve::Pending, bytes, sent) is None,
{
}

/// The view of an answer of the channel shows what it holds.
pub proof fn law_an_answer_shows_what_it_holds(polled: Polled)
    ensures
        match polled {
            Polled::Pending => polled@ is Pending,
            Polled::Ready(None) => polled@ == PolledView::Ready(None),
            Polled::Ready(Some(data)) => polled@ == PolledView::Ready(Some(buffer::content(data))),
        },
{
}

} // verus!
