//! The calls on a `quiche` connection, and what is known of each.
//!
//! A connection answers out of its own state, the clock and its random numbers, so a call is
//! not a function of its arguments. Each of the `.._call` names below stands for the record
//! of one call: the connection before it, what was handed in, what came back, and the
//! connection after it. Nothing is said of which answers can come; the contracts of the
//! library use the records to say which calls it makes, in what order, with what data.

use crate::error::QuicError;
use bytes::BytesMut;
use std::time::Instant;
use vstd::prelude::*;

verus! {

/// `quiche::Connection`.
#[verifier::external_type_specification]
#[verifier::external_body]
pub struct ExConnection(quiche::Connection);

/// `quiche::Config`.
#[verifier::external_type_specification]
#[verifier::external_body]
pub struct ExConfig(quiche::Config);

/// `quiche::RecvInfo`: where a packet came from and where it arrived.
#[verifier::external_type_specification]
#[verifier::external_body]
pub struct ExRecvInfo(quiche::RecvInfo);

/// `quiche::SendInfo`: where a packet is to go, and when.
#[verifier::external_type_specification]
#[verifier::external_body]
pub struct ExSendInfo(quiche::SendInfo);

/// `std::time::Instant`.
#[verifier::external_type_specification]
#[verifier::external_body]
pub struct ExInstant(std::time::Instant);

/// One call of `quiche::connect`: the name of the server, the connection id, the addresses
/// and the configuration that it was given, and what came back.
pub uninterp spec fn connect_call(
    server_name: Option<Seq<char>>,
    scid: Seq<u8>,
    info: quiche::RecvInfo,
    config: quiche::Config,
    result: Result<quiche::Connection, quiche::Error>,
    config_after: quiche::Config,
) -> bool;

/// One call of `quiche::accept`: the connection id, the addresses and the configuration that
/// it was given, and what came back.
pub uninterp spec fn accept_call(
    scid: Seq<u8>,
    info: quiche::RecvInfo,
    config: quiche::Config,
    result: Result<quiche::Connection, quiche::Error>,
    config_after: quiche::Config,
) -> bool;

/// One call of `quiche::Connection::recv`: the datagram and the addresses that it was given,
/// what came back, and what the call left in the buffer.
pub uninterp spec fn recv_call(
    before: quiche::Connection,
    datagram: Seq<u8>,
    info: quiche::RecvInfo,
    result: Result<usize, QuicError>,
    scratch: Seq<u8>,
    after: quiche::Connection,
) -> bool;

/// One call of `quiche::Connection::send` with room for so many bytes: the packet that it
/// wrote, or how it failed.
pub uninterp spec fn send_call(
    before: quiche::Connection,
    room: nat,
    result: Result<(Seq<u8>, quiche::SendInfo), QuicError>,
    after: quiche::Connection,
) -> bool;

/// One call of `quiche::Connection::stream_send`: the stream, the data and the end mark that
/// it was given, and how many bytes it took.
pub uninterp spec fn stream_send_call(
    before: quiche::Connection,
    stream_id: u64,
    data: Seq<u8>,
    fin: bool,
    result: Result<usize, QuicError>,
    after: quiche::Connection,
) -> bool;

/// One call of `quiche::Connection::stream_recv` with room for so many bytes: what it read
/// from the stream and whether the stream ended there.
pub uninterp spec fn stream_recv_call(
    before: quiche::Connection,
    stream_id: u64,
    room: nat,
    result: Result<(Seq<u8>, bool), QuicError>,
    after: quiche::Connection,
) -> bool;

/// One call of `quiche::Connection::on_timeout`.
pub uninterp spec fn on_timeout_call(before: quiche::Connection, after: quiche::Connection) -> bool;

/// Whether the connection is closed.
pub uninterp spec fn closed(conn: quiche::Connection) -> bool;

/// Whether the handshake of the connection is complete.
pub uninterp spec fn established(conn: quiche::Connection) -> bool;

/// Whether the stream has data, or its end, to be read.
pub uninterp spec fn readable(conn: quiche::Connection, stream_id: u64) -> bool;

/// How much data the stream has room for. An error, if it takes none ever again, or was not
/// opened.
pub uninterp spec fn capacity(conn: quiche::Connection, stream_id: u64) -> Result<
    usize,
    quiche::Error,
>;

/// When the connection next wants to hear of a timeout.
pub uninterp spec fn deadline(conn: quiche::Connection) -> Option<Instant>;

/// `quiche::connect` makes a client connection with the given connection id, from the local
/// address `info.to` to the peer at `info.from`. Which answers can come is left unsaid: the
/// connection starts out of random numbers and the TLS library's state.
#[verifier::external_body]
pub(crate) fn conn_connect(
    server_name: Option<&str>,
    scid: &[u8],
    info: quiche::RecvInfo,
    config: &mut quiche::Config,
) -> (result: Result<quiche::Connection, quiche::Error>)
    ensures
        connect_call(
            match server_name {
                Some(name) => Some(name@),
                None => None,
            },
            scid@,
            info,
            *old(config),
            result,
            *final(config),
        ),
{
    let scid = quiche::ConnectionId::from_ref(scid);
    quiche::connect(server_name, &scid, info.to, info.from, config)
}

/// `quiche::accept` makes a server connection with the given connection id and no earlier
/// one, at the local address `info.to` for the peer at `info.from`. Which answers can come is
/// left unsaid, as it is for [`conn_connect`].
#[verifier::external_body]
pub(crate) fn conn_accept(
    scid: &[u8],
    info: quiche::RecvInfo,
    config: &mut quiche::Config,
) -> (result: Result<quiche::Connection, quiche::Error>)
    ensures
        accept_call(scid@, info, *old(config), result, *final(config)),
{
    let scid = quiche::ConnectionId::from_ref(scid);
    quiche::accept(&scid, None, info.to, info.from, config)
}

/// `quiche::Connection::recv` processes one datagram. It may scribble on the buffer, whose
/// length stays. Where it succeeds it has processed the whole datagram, coalesced packets
/// and all.
#[verifier::external_body]
pub(crate) fn conn_recv(
    conn: &mut quiche::Connection,
    datagram: &mut BytesMut,
    info: quiche::RecvInfo,
) -> (result: Result<usize, QuicError>)
    ensures
        crate::buffer::content(*final(datagram)).len() == crate::buffer::content(*old(datagram)).len(),
        result matches Ok(count) ==> count == crate::buffer::content(*old(datagram)).len(),
        recv_call(
            *old(conn),
            crate::buffer::content(*old(datagram)),
            info,
            result,
            crate::buffer::content(*final(datagram)),
            *final(conn),
        ),
{
    match conn.recv(datagram, info) {
        Ok(count) => Ok(count),
        Err(quiche::Error::Done) => Err(QuicError::Done),
        Err(e) => Err(QuicError::Failed(e)),
    }
}

/// `quiche::Connection::send` writes the next packet to the front of the buffer and tells
/// where it is to go. A packet has at least one byte and fits the buffer.
#[verifier::external_body]
pub(crate) fn conn_send(conn: &mut quiche::Connection, out: &mut Vec<u8>) -> (result: Result<
    (usize, quiche::SendInfo),
    QuicError,
>)
    ensures
        final(out)@.len() == old(out)@.len(),
        result matches Ok((count, _)) ==> 0 < count <= old(out)@.len(),
        send_call(
            *old(conn),
            old(out)@.len(),
            match result {
                Ok((count, info)) => Ok((final(out)@.take(count as int), info)),
                Err(e) => Err(e),
            },
            *final(conn),
        ),
{
    match conn.send(out) {
        Ok((count, info)) => Ok((count, info)),
        Err(quiche::Error::Done) => Err(QuicError::Done),
        Err(e) => Err(QuicError::Failed(e)),
    }
}

/// `quiche::Connection::stream_send` takes a front part of the data, no more than all of it,
/// and none of it only where there is none.
#[verifier::external_body]
pub(crate) fn conn_stream_send(
    conn: &mut quiche::Connection,
    stream_id: u64,
    data: &BytesMut,
    fin: bool,
) -> (result: Result<usize, QuicError>)
    ensures
        result matches Ok(count) ==> count <= crate::buffer::content(*data).len(),
        result matches Ok(count) ==> (count == 0 ==> crate::buffer::content(*data).len() == 0),
        stream_send_call(
            *old(conn),
            stream_id,
            crate::buffer::content(*data),
            fin,
            result,
            *final(conn),
        ),
{
    match conn.stream_send(stream_id, data, fin) {
        Ok(count) => Ok(count),
        Err(quiche::Error::Done) => Err(QuicError::Done),
        Err(e) => Err(QuicError::Failed(e)),
    }
}

/// `quiche::Connection::stream_recv` reads the next data of the stream to the front of the
/// buffer, as much as fits, and tells whether the stream ends there.
#[verifier::external_body]
pub(crate) fn conn_stream_recv(
    conn: &mut quiche::Connection,
    stream_id: u64,
    out: &mut Vec<u8>,
) -> (result: Result<(usize, bool), QuicError>)
    ensures
        final(out)@.len() == old(out)@.len(),
        result matches Ok((count, _)) ==> count <= old(out)@.len(),
        stream_recv_call(
            *old(conn),
            stream_id,
            old(out)@.len(),
            match result {
                Ok((count, fin)) => Ok((final(out)@.take(count as int), fin)),
                Err(e) => Err(e),
            },
            *final(conn),
        ),
{
    match conn.stream_recv(stream_id, out) {
        Ok((count, fin)) => Ok((count, fin)),
        Err(quiche::Error::Done) => Err(QuicError::Done),
        Err(e) => Err(QuicError::Failed(e)),
    }
}

/// `quiche::Connection::on_timeout` lets the connection act on timers that have run out.
/// What it does then is left unsaid: it depends on the clock.
#[verifier::external_body]
pub(crate) fn conn_on_timeout(conn: &mut quiche::Connection)
    ensures
        on_timeout_call(*old(conn), *final(conn)),
{
    conn.on_timeout()
}

/// `quiche::Connection::is_closed` reads a flag of the connection.
#[verifier::external_body]
pub(crate) fn conn_is_closed(conn: &quiche::Connection) -> (result: bool)
    ensures
        result == closed(*conn),
{
    conn.is_closed()
}

/// `quiche::Connection::is_established` reads a flag of the connection.
#[verifier::external_body]
pub(crate) fn conn_is_established(conn: &quiche::Connection) -> (result: bool)
    ensures
        result == established(*conn),
{
    conn.is_established()
}

/// `quiche::Connection::stream_readable` looks the stream up in the connection.
#[verifier::external_body]
pub(crate) fn conn_stream_readable(conn: &quiche::Connection, stream_id: u64) -> (result: bool)
    ensures
        result == readable(*conn, stream_id),
{
    conn.stream_readable(stream_id)
}

/// `quiche::Connection::stream_capacity` looks up how much the stream has room for. It fails
/// where there is no such stream, as after its end on both sides, and where the peer wants no
/// more of it.
#[verifier::external_body]
pub(crate) fn conn_stream_capacity(conn: &quiche::Connection, stream_id: u64) -> (result: Result<
    usize,
    quiche::Error,
>)
    ensures
        result == capacity(*conn, stream_id),
{
    conn.stream_capacity(stream_id)
}

/// `quiche::Connection::timeout_instant` is the soonest of the connection's timers, if any is
/// set.
#[verifier::external_body]
pub(crate) fn conn_timeout_instant(conn: &quiche::Connection) -> (result: Option<Instant>)
    ensures
        result == deadline(*conn),
{
    conn.timeout_instant()
}

/// The types of packets.
#[derive(Clone, Copy, PartialEq, Eq, Structural, Debug)]
pub enum PacketType {
    Initial,
    Retry,
    Handshake,
    ZeroRtt,
    VersionNegotiation,
    Short,
}

/// What the header of a packet tells.
#[derive(Debug)]
pub struct PacketHeader {
    /// The type of the packet.
    pub ty: PacketType,
    /// The connection id of the sender.
    pub scid: Vec<u8>,
    /// The connection id of the receiver.
    pub dcid: Vec<u8>,
}

/// A [`PacketHeader`] by its bytes.
pub struct HeaderView {
    pub ty: PacketType,
    pub scid: Seq<u8>,
    pub dcid: Seq<u8>,
}

impl View for PacketHeader {
    type V = HeaderView;

    open spec fn view(&self) -> HeaderView {
        HeaderView { ty: self.ty, scid: self.scid@, dcid: self.dcid@ }
    }
}

/// A header, or why there is none, by its bytes.
pub open spec fn header_view(header: Result<PacketHeader, quiche::Error>) -> Result<
    HeaderView,
    quiche::Error,
> {
    match header {
        Ok(h) => Ok(h@),
        Err(e) => Err(e),
    }
}

/// What `quiche::Header::from_slice` makes of a datagram, for receiver ids of the given
/// length in short headers.
pub uninterp spec fn parsed_header(datagram: Seq<u8>, dcid_len: nat) -> Result<
    HeaderView,
    quiche::Error,
>;

/// A datagram that starts with a short header: the top bit of its first byte is clear.
pub open spec fn is_short(datagram: Seq<u8>) -> bool {
    datagram.len() > 0 && datagram[0] < 0x80
}

/// A short header is its first byte and the receiver's connection id.
pub open spec fn short_header(datagram: Seq<u8>, dcid_len: nat) -> HeaderView {
    HeaderView {
        ty: PacketType::Short,
        scid: Seq::empty(),
        dcid: datagram.subrange(1, 1 + dcid_len as int),
    }
}

/// The type of a packet with a long header: by the version, if it is zero, else by two bits
/// of the first byte.
pub open spec fn long_type(datagram: Seq<u8>) -> PacketType {
    let bits = (datagram[0] / 16) % 4;
    if datagram.subrange(1, 5) == seq![0u8, 0, 0, 0] {
        PacketType::VersionNegotiation
    } else if bits == 0 {
        PacketType::Initial
    } else if bits == 1 {
        PacketType::ZeroRtt
    } else if bits == 2 {
        PacketType::Handshake
    } else {
        PacketType::Retry
    }
}

/// The fields of a long header: after the first byte and the version come the receiver's and
/// the sender's connection id, each behind its length.
pub open spec fn long_header(datagram: Seq<u8>) -> HeaderView {
    let dcid_len = datagram[5] as int;
    let scid_len = datagram[6 + dcid_len] as int;
    HeaderView {
        ty: long_type(datagram),
        scid: datagram.subrange(7 + dcid_len, 7 + dcid_len + scid_len),
        dcid: datagram.subrange(6, 6 + dcid_len),
    }
}

/// `quiche::Header::from_slice` parses the header of a datagram and leaves the datagram as it
/// is. A short header is parsed wherever there are enough bytes, and an empty datagram never;
/// of a long header that is parsed the type and the two ids are known. Which long headers are
/// refused, and with which error anything is, stays with the name.
#[verifier::external_body]
pub(crate) fn header_from_slice(datagram: &mut BytesMut, dcid_len: usize) -> (header: Result<
    PacketHeader,
    quiche::Error,
>)
    ensures
        crate::buffer::content(*final(datagram)) == crate::buffer::content(*old(datagram)),
        header_view(header) == parsed_header(
            crate::buffer::content(*old(datagram)),
            dcid_len as nat,
        ),
        crate::buffer::content(*old(datagram)).len() == 0 ==> header is Err,
        is_short(crate::buffer::content(*old(datagram))) ==> (header is Ok <==> 1 + dcid_len
            <= crate::buffer::content(*old(datagram)).len()),
        header matches Ok(h) ==> h@ == if is_short(crate::buffer::content(*old(datagram))) {
            short_header(crate::buffer::content(*old(datagram)), dcid_len as nat)
        } else {
            long_header(crate::buffer::content(*old(datagram)))
        },
{
    let hdr = quiche::Header::from_slice(datagram, dcid_len)?;
    let ty = match hdr.ty {
        quiche::Type::Initial => PacketType::Initial,
        quiche::Type::Retry => PacketType::Retry,
        quiche::Type::Handshake => PacketType::Handshake,
        quiche::Type::ZeroRTT => PacketType::ZeroRtt,
        quiche::Type::VersionNegotiation => PacketType::VersionNegotiation,
        quiche::Type::Short => PacketType::Short,
    };
    Ok(PacketHeader { ty, scid: hdr.scid.into(), dcid: hdr.dcid.into() })
}

} // verus!
