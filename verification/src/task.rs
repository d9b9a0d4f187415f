//! The two ends of a context: packets in and out on one side, connections on the other.

use crate::buffer;
use crate::error::StreamError;
use crate::key::{ConnectionId, KeyView, QuicKey, SocketAddr, MAX_CONN_ID_LEN};
use crate::registry::Registry;
use crate::stream::QuicStream;
use crate::transport::{self, HeaderView, PacketHeader, PacketType};
use bytes::BytesMut;
use ring::rand::SecureRandom;
use vstd::prelude::*;

verus! {

/// How many items each channel of a context holds.
pub const CHANNEL_CAPACITY: usize = 128;

/// What to do with a packet that arrived.
#[derive(Debug)]
pub enum Dispatch<'a, V> {
    /// Hand it to the connection that it belongs to.
    Forward(&'a V),
    /// Open a connection with it.
    Accept,
    /// Drop it.
    Ignore,
}

/// A [`Dispatch`] by its value.
pub enum DispatchView<V> {
    Forward(V),
    Accept,
    Ignore,
}

impl<'a, V> View for Dispatch<'a, V> {
    type V = DispatchView<V>;

    open spec fn view(&self) -> DispatchView<V> {
        match *self {
            Dispatch::Forward(value) => DispatchView::Forward(*value),
            Dispatch::Accept => DispatchView::Accept,
            Dispatch::Ignore => DispatchView::Ignore,
        }
    }
}

/// A decision on a packet, or why there is none, by its value.
pub open spec fn dispatch_view<V>(result: Result<Dispatch<'_, V>, StreamError>) -> Result<
    DispatchView<V>,
    StreamError,
> {
    match result {
        Ok(d) => Ok(d@),
        Err(e) => Err(e),
    }
}

/// Whose packet it is. A connection is looked up by the sender's id first, then by the
/// receiver's. A packet of no connection needs a listener, and opens a connection only if it
/// is an initial one.
pub open spec fn dispatched<V>(
    registry: Map<KeyView, V>,
    header: HeaderView,
    local: SocketAddr,
    remote: SocketAddr,
    listening: bool,
) -> Result<DispatchView<V>, StreamError> {
    let by_scid = KeyView { local, remote, conn_id: header.scid };
    let by_dcid = KeyView { local, remote, conn_id: header.dcid };
    if registry.contains_key(by_scid) {
        Ok(DispatchView::Forward(registry[by_scid]))
    } else if registry.contains_key(by_dcid) {
        Ok(DispatchView::Forward(registry[by_dcid]))
    } else if !listening {
        Err(StreamError::NoListener)
    } else if header.ty == PacketType::Initial {
        Ok(DispatchView::Accept)
    } else {
        Ok(DispatchView::Ignore)
    }
}

/// What to do with a datagram, given what its header was parsed to.
pub open spec fn routed<V>(
    registry: Map<KeyView, V>,
    header: Result<HeaderView, quiche::Error>,
    local: SocketAddr,
    remote: SocketAddr,
    listening: bool,
) -> Result<DispatchView<V>, StreamError> {
    match header {
        Ok(h) => dispatched(registry, h, local, remote, listening),
        Err(e) => Err(StreamError::InvalidData(e)),
    }
}

/// What comes of a datagram from the network. One with a short header goes by the bytes
/// behind the first, or is refused for want of them. One with a long header is refused, or
/// goes by its type and its two ids.
pub open spec fn sent<V>(
    registry: Map<KeyView, V>,
    datagram: Seq<u8>,
    local: SocketAddr,
    remote: SocketAddr,
    listening: bool,
    result: Result<DispatchView<V>, StreamError>,
) -> bool {
    let refused = result matches Err(e) && e is InvalidData;
    let short = transport::short_header(datagram, MAX_CONN_ID_LEN as nat);
    let long = transport::long_header(datagram);
    &&& result == routed(
        registry,
        transport::parsed_header(datagram, MAX_CONN_ID_LEN as nat),
        local,
        remote,
        listening,
    )
    &&& if datagram.len() == 0 {
        refused
    } else if !transport::is_short(datagram) {
        refused || result == dispatched(registry, long, local, remote, listening)
    } else if datagram.len() <= MAX_CONN_ID_LEN {
        refused
    } else {
        result == dispatched(registry, short, local, remote, listening)
    }
}

/// One call of `ring::rand::SystemRandom::fill` on so many bytes: whether it succeeded, and
/// what it left in them. Which answers can come is left unsaid: they are chance.
pub uninterp spec fn fill_call(len: nat, filled: bool, bytes: Seq<u8>) -> bool;

/// `ring::rand::SystemRandom::fill` fills the bytes with random ones, or fails. How many there
/// are stays as it is; what they are, and whether it fails, is left unsaid.
#[verifier::external_body]
fn fill_random(bytes: &mut Vec<u8>) -> (filled: bool)
    ensures
        final(bytes)@.len() == old(bytes)@.len(),
        fill_call(old(bytes)@.len(), filled, final(bytes)@),
{
    ring::rand::SystemRandom::new().fill(bytes).is_ok()
}

/// A connection id that may not be there, by its bytes.
pub open spec fn id_view(id: Option<ConnectionId>) -> Option<Seq<u8>> {
    match id {
        Some(i) => Some(i@),
        None => None,
    }
}

/// The id that a draw of random bytes gives: the bytes, if they were filled.
pub open spec fn drawn(filled: bool, bytes: Seq<u8>) -> Option<Seq<u8>> {
    if filled {
        Some(bytes)
    } else {
        None
    }
}

/// Makes an id of a draw of random bytes, if they were filled.
pub fn drawn_conn_id(filled: bool, bytes: Vec<u8>) -> (id: Option<ConnectionId>)
    ensures
        id_view(id) == drawn(filled, bytes@),
{
    if filled {
        Some(ConnectionId::from_vec(bytes))
    } else {
        None
    }
}

/// Makes up a connection id out of random bytes, as many as an id can have. Nothing, if there
/// is no randomness to be had, and only then.
pub fn random_conn_id() -> (id: Option<ConnectionId>)
    ensures
        id matches Some(i) ==> i@.len() == MAX_CONN_ID_LEN,
        exists|filled: bool, bytes: Seq<u8>| #[trigger]
            fill_call(MAX_CONN_ID_LEN as nat, filled, bytes) && id_view(id) == drawn(filled, bytes),
{
    let mut bytes: Vec<u8> = vec![0u8; MAX_CONN_ID_LEN];
    let filled = fill_random(&mut bytes);
    drawn_conn_id(filled, bytes)
}

/// Decides what to do with a packet that has this header.
pub fn dispatch<'a, V>(
    registry: &'a Registry<V>,
    header: PacketHeader,
    local: SocketAddr,
    remote: SocketAddr,
    listening: bool,
) -> (result: Result<Dispatch<'a, V>, StreamError>)
    requires
        registry.wf(),
    ensures
        dispatch_view(result) == dispatched(registry@, header@, local, remote, listening),
{
    let ty = header.ty;
    match registry.get(&QuicKey::new(local, remote, ConnectionId::from_vec(header.scid))) {
        Some(value) => {
            return Ok(Dispatch::Forward(value));
        },
        None => {},
    }
    match registry.get(&QuicKey::new(local, remote, ConnectionId::from_vec(header.dcid))) {
        Some(value) => {
            return Ok(Dispatch::Forward(value));
        },
        None => {},
    }
    if !listening {
        return Err(StreamError::NoListener);
    }
    if ty == PacketType::Initial {
        Ok(Dispatch::Accept)
    } else {
        Ok(Dispatch::Ignore)
    }
}

/// The side of a context that takes the packets from the network.
#[derive(Debug)]
pub struct QuicPacketSender<S> {
    pub link: S,
}

/// The side of a context that gives the packets for the network.
#[derive(Debug)]
pub struct QuicPacketReceiver<R> {
    pub quic_pkt_rx: R,
}

/// Both of them.
#[derive(Debug)]
pub struct QuicIO<S, R> {
    pub quic_tx: QuicPacketSender<S>,
    pub quic_rx: QuicPacketReceiver<R>,
}

/// The side of a context that opens connections.
#[derive(Debug)]
pub struct QuicEndpoint<E> {
    pub link: E,
}

/// The side of a context that takes the connections that others opened.
#[derive(Debug)]
pub struct QuicListener<L> {
    pub receiver: L,
}

impl<S> QuicPacketSender<S> {
    /// Decides what to do with a packet from the network, `listening` telling whether anyone
    /// takes new connections. The packet stays as it is.
    pub fn send<'a, V>(
        &self,
        registry: &'a Registry<V>,
        data: &mut BytesMut,
        local: SocketAddr,
        remote: SocketAddr,
        listening: bool,
    ) -> (result: Result<Dispatch<'a, V>, StreamError>)
        requires
            registry.wf(),
        ensures
            buffer::content(*final(data)) == buffer::content(*old(data)),
            sent(
                registry@,
                buffer::content(*old(data)),
                local,
                remote,
                listening,
                dispatch_view(result),
            ),
    {
        match transport::header_from_slice(data, MAX_CONN_ID_LEN) {
            Ok(header) => dispatch(registry, header, local, remote, listening),
            Err(e) => Err(StreamError::InvalidData(e)),
        }
    }

    /// Opens the connection that a packet asked for, under the drawn id, and gives it with its
    /// key. The addresses in `info` are the two others.
    pub fn accept(
        &self,
        local: SocketAddr,
        remote: SocketAddr,
        id: ConnectionId,
        info: quiche::RecvInfo,
        config: &mut quiche::Config,
    ) -> (opened: Result<(QuicKey, quiche::Connection), StreamError>)
        ensures
            exists|result: Result<quiche::Connection, quiche::Error>| #[trigger]
                transport::accept_call(id@, info, *old(config), result, *final(config))
                    && opened_view(opened) == keyed(
                    KeyView { local, remote, conn_id: id@ },
                    accepted(result),
                ),
    {
        let result = accept_result(transport::conn_accept(id.as_bytes(), info, config));
        with_key(local, remote, id, result)
    }
}

/// A connection and its key, or why there is none, by the key's bytes.
pub open spec fn opened_view<C>(opened: Result<(QuicKey, C), StreamError>) -> Result<
    (KeyView, C),
    StreamError,
> {
    match opened {
        Ok((key, conn)) => Ok((key@, conn)),
        Err(e) => Err(e),
    }
}

/// A connection with its key, if there is one.
pub open spec fn keyed<C>(key: KeyView, result: Result<C, StreamError>) -> Result<
    (KeyView, C),
    StreamError,
> {
    match result {
        Ok(conn) => Ok((key, conn)),
        Err(e) => Err(e),
    }
}

/// Puts the key of a connection beside it: the two addresses and the id that was drawn for it.
pub fn with_key<C>(
    local: SocketAddr,
    remote: SocketAddr,
    id: ConnectionId,
    result: Result<C, StreamError>,
) -> (opened: Result<(QuicKey, C), StreamError>)
    ensures
        opened_view(opened) == keyed(KeyView { local, remote, conn_id: id@ }, result),
{
    match result {
        Ok(conn) => Ok((QuicKey::new(local, remote, id), conn)),
        Err(e) => Err(e),
    }
}

/// What accepting a connection comes to.
pub open spec fn accepted<C>(result: Result<C, quiche::Error>) -> Result<C, StreamError> {
    match result {
        Ok(conn) => Ok(conn),
        Err(e) => Err(StreamError::InvalidData(e)),
    }
}

/// What opening a connection comes to.
pub open spec fn connected<C>(result: Result<C, quiche::Error>) -> Result<C, StreamError> {
    match result {
        Ok(conn) => Ok(conn),
        Err(e) => Err(StreamError::Transport(e)),
    }
}

/// What accepting a connection comes to.
pub fn accept_result<C>(result: Result<C, quiche::Error>) -> (conn: Result<C, StreamError>)
    ensures
        conn == accepted(result),
{
    match result {
        Ok(conn) => Ok(conn),
        Err(e) => Err(StreamError::InvalidData(e)),
    }
}

/// What opening a connection comes to.
pub fn connect_result<C>(result: Result<C, quiche::Error>) -> (conn: Result<C, StreamError>)
    ensures
        conn == connected(result),
{
    match result {
        Ok(conn) => Ok(conn),
        Err(e) => Err(StreamError::Transport(e)),
    }
}

impl<R> QuicPacketReceiver<R> {
    /// Passes on a packet for the network, or tells that there will be no more.
    pub fn recv(&self, received: Option<(BytesMut, quiche::SendInfo)>) -> (packet: Result<
        (BytesMut, quiche::SendInfo),
        StreamError,
    >)
        ensures
            packet == match received {
                Some(p) => Ok::<(BytesMut, quiche::SendInfo), StreamError>(p),
                None => Err(StreamError::PacketsClosed),
            },
    {
        match received {
            Some(p) => Ok(p),
            None => Err(StreamError::PacketsClosed),
        }
    }
}

impl<S, R> QuicIO<S, R> {
    /// Parts the two sides.
    pub fn split(self) -> (sides: (QuicPacketSender<S>, QuicPacketReceiver<R>))
        ensures
            sides.0 == self.quic_tx,
            sides.1 == self.quic_rx,
    {
        (self.quic_tx, self.quic_rx)
    }

    /// Passes on a packet for the network, or tells that there will be no more.
    pub fn recv(&self, received: Option<(BytesMut, quiche::SendInfo)>) -> (packet: Result<
        (BytesMut, quiche::SendInfo),
        StreamError,
    >)
        ensures
            packet == match received {
                Some(p) => Ok::<(BytesMut, quiche::SendInfo), StreamError>(p),
                None => Err(StreamError::PacketsClosed),
            },
    {
        self.quic_rx.recv(received)
    }

    /// Decides what to do with a packet from the network, as [`QuicPacketSender::send`] does.
    pub fn send<'a, V>(
        &self,
        registry: &'a Registry<V>,
        data: &mut BytesMut,
        local: SocketAddr,
        remote: SocketAddr,
        listening: bool,
    ) -> (result: Result<Dispatch<'a, V>, StreamError>)
        requires
            registry.wf(),
        ensures
            buffer::content(*final(data)) == buffer::content(*old(data)),
            sent(
                registry@,
                buffer::content(*old(data)),
                local,
                remote,
                listening,
                dispatch_view(result),
            ),
    {
        self.quic_tx.send(registry, data, local, remote, listening)
    }

    /// Takes in a packet from the network: another name for [`QuicIO::send`].
    pub fn input<'a, V>(
        &self,
        registry: &'a Registry<V>,
        data: &mut BytesMut,
        local: SocketAddr,
        remote: SocketAddr,
        listening: bool,
    ) -> (result: Result<Dispatch<'a, V>, StreamError>)
        requires
            registry.wf(),
        ensures
            buffer::content(*final(data)) == buffer::content(*old(data)),
            sent(
                registry@,
                buffer::content(*old(data)),
                local,
                remote,
                listening,
                dispatch_view(result),
            ),
    {
        self.send(registry, data, local, remote, listening)
    }

    /// Puts out a packet for the network: another name for [`QuicIO::recv`].
    pub fn output(&self, received: Option<(BytesMut, quiche::SendInfo)>) -> (packet: Result<
        (BytesMut, quiche::SendInfo),
        StreamError,
    >)
        ensures
            packet == match received {
                Some(p) => Ok::<(BytesMut, quiche::SendInfo), StreamError>(p),
                None => Err(StreamError::PacketsClosed),
            },
    {
        self.recv(received)
    }
}

impl<E> QuicEndpoint<E> {
    /// Opens a connection, under the drawn id, and gives it with its key. The addresses in
    /// `info` are the two others.
    pub fn connect(
        &self,
        server_name: Option<&str>,
        local: SocketAddr,
        remote: SocketAddr,
        id: ConnectionId,
        info: quiche::RecvInfo,
        config: &mut quiche::Config,
    ) -> (opened: Result<(QuicKey, quiche::Connection), StreamError>)
        ensures
            exists|name: Option<Seq<char>>, result: Result<quiche::Connection, quiche::Error>|
             #[trigger]
                transport::connect_call(name, id@, info, *old(config), result, *final(config))
                    && name == (match server_name {
                    Some(n) => Some(n@),
                    None => None,
                }) && opened_view(opened) == keyed(
                    KeyView { local, remote, conn_id: id@ },
                    connected(result),
                ),
    {
        let result = connect_result(
            transport::conn_connect(server_name, id.as_bytes(), info, config),
        );
        with_key(local, remote, id, result)
    }
}

impl<L> QuicListener<L> {
    /// Passes on a stream that another side opened, with the address of that side, or tells
    /// that there will be no more.
    pub fn accept<R, W>(&self, received: Option<QuicStream<R, W>>) -> (accepted: Result<
        (QuicStream<R, W>, SocketAddr),
        StreamError,
    >)
        requires
            received matches Some(stream) ==> stream.wf(),
        ensures
            accepted == match received {
                Some(stream) => Ok::<(QuicStream<R, W>, SocketAddr), StreamError>(
                    (stream, stream.key().remote),
                ),
                None => Err(StreamError::AcceptClosed),
            },
    {
        match received {
            Some(stream) => {
                let addr = stream.remote_addr()?;
                Ok((stream, addr))
            },
            None => Err(StreamError::AcceptClosed),
        }
    }
}

/// Puts the sides of a context together.
pub fn new_context<S, R, E, L>(sender: S, receiver: R, endpoint: E, listener: L) -> (context: Result<
    (QuicIO<S, R>, QuicEndpoint<E>, QuicListener<L>),
    StreamError,
>)
    ensures
        context == Ok::<(QuicIO<S, R>, QuicEndpoint<E>, QuicListener<L>), StreamError>(
            (
                QuicIO {
                    quic_tx: QuicPacketSender { link: sender },
                    quic_rx: QuicPacketReceiver { quic_pkt_rx: receiver },
                },
                QuicEndpoint { link: endpoint },
                QuicListener { receiver: listener },
            ),
        ),
{
    let quic_rx = QuicPacketReceiver { quic_pkt_rx: receiver };
    let quic_tx = QuicPacketSender { link: sender };
    Ok((QuicIO { quic_tx, quic_rx }, QuicEndpoint { link: endpoint }, QuicListener { receiver: listener }))
}

/// A packet that carries the id of a registered connection, between its addresses, goes to
/// that connection, whatever its type and whether or not anyone listens; unless the sender's
/// id in it belongs to another connection.
pub proof fn law_registered_connection_gets_its_packets<V>(
    registry: Map<KeyView, V>,
    key: KeyView,
    header: HeaderView,
    listening: bool,
)
    requires
        registry.contains_key(key),
        header.scid == key.conn_id || (header.dcid == key.conn_id && !registry.contains_key(
            KeyView { conn_id: header.scid, ..key },
        )),
    ensures
        dispatched(registry, header, key.local, key.remote, listening) == Ok::<
            DispatchView<V>,
            StreamError,
        >(DispatchView::Forward(registry[key])),
{
}

/// Registering a connection, or forgetting it, changes nothing for the packets that carry
/// neither of its ids or go between other addresses.
pub proof fn law_other_packets_are_unaffected<V>(
    registry: Map<KeyView, V>,
    key: KeyView,
    value: V,
    header: HeaderView,
    local: SocketAddr,
    remote: SocketAddr,
    listening: bool,
)
    requires
        key != (KeyView { local, remote, conn_id: header.scid }),
        key != (KeyView { local, remote, conn_id: header.dcid }),
    ensures
        dispatched(registry.insert(key, value), header, local, remote, listening) == dispatched(
            registry,
            header,
            local,
            remote,
            listening,
        ),
        dispatched(registry.remove(key), header, local, remote, listening) == dispatched(
            registry,
            header,
            local,
            remote,
            listening,
        ),
{
}

/// A connection is opened by an initial packet of no registered connection while someone
/// listens, and by nothing else.
pub proof fn law_only_initial_packets_open_connections<V>(
    registry: Map<KeyView, V>,
    header: HeaderView,
    local: SocketAddr,
    remote: SocketAddr,
    listening: bool,
)
    ensures
        dispatched(registry, header, local, remote, listening) == Ok::<
            DispatchView<V>,
            StreamError,
        >(DispatchView::Accept) <==> {
            &&& header.ty == PacketType::Initial
            &&& listening
            &&& !registry.contains_key(KeyView { local, remote, conn_id: header.scid })
            &&& !registry.contains_key(KeyView { local, remote, conn_id: header.dcid })
        },
{
}

/// A datagram goes to the connection that the sender's id in its header names, else to the one
/// that the receiver's id names. One of no connection opens one, if it is an initial packet
/// and someone listens. Without a header it is refused with what is wrong with it.
pub proof fn law_a_datagram_goes_where_its_header_says<V>(
    registry: Map<KeyView, V>,
    datagram: Seq<u8>,
    local: SocketAddr,
    remote: SocketAddr,
    listening: bool,
    result: Result<DispatchView<V>, StreamError>,
)
    requires
        sent(registry, datagram, local, remote, listening, result),
    ensures
        match transport::parsed_header(datagram, 20) {
            Err(e) => result == Err::<DispatchView<V>, StreamError>(StreamError::InvalidData(e)),
            Ok(header) => {
                let from = KeyView { local, remote, conn_id: header.scid };
                let to = KeyView { local, remote, conn_id: header.dcid };
                if registry.contains_key(from) {
                    result matches Ok(DispatchView::Forward(value)) && value == registry[from]
                } else if registry.contains_key(to) {
                    result matches Ok(DispatchView::Forward(value)) && value == registry[to]
                } else if !listening {
                    result == Err::<DispatchView<V>, StreamError>(StreamError::NoListener)
                } else if header.ty is Initial {
                    result matches Ok(DispatchView::Accept)
                } else {
                    result matches Ok(DispatchView::Ignore)
                }
            },
        },
{
}

/// A connection that was opened comes with its key, and one that was not with the reason: bad
/// data where another side asked for it, a failure of the transport where this side did.
pub proof fn law_an_open_connection_comes_with_its_key<C>(
    key: KeyView,
    conn: C,
    e: quiche::Error,
)
    ensures
        keyed(key, accepted(Ok::<C, quiche::Error>(conn))) == Ok::<(KeyView, C), StreamError>(
            (key, conn),
        ),
        keyed(key, connected(Ok::<C, quiche::Error>(conn))) == Ok::<(KeyView, C), StreamError>(
            (key, conn),
        ),
        keyed(key, accepted(Err::<C, quiche::Error>(e))) == Err::<(KeyView, C), StreamError>(
            StreamError::InvalidData(e),
        ),
        keyed(key, connected(Err::<C, quiche::Error>(e))) == Err::<(KeyView, C), StreamError>(
            StreamError::Transport(e),
        ),
{
}

/// An id is the bytes that were drawn for it, and there is none exactly where the draw failed.
pub proof fn law_an_id_is_what_was_drawn(filled: bool, bytes: Seq<u8>)
    ensures
        filled ==> drawn(filled, bytes) == Some(bytes),
        !filled ==> drawn(filled, bytes) is None,
{
}

} // verus!
