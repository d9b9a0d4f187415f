//! The handshake of a connection that this side opened, one step at a time.
//!
//! As in [`run`](crate::run), a step ends by asking for one thing that takes time: to hand a
//! packet to the socket, or to get the next packet that arrives. While the connection has a
//! deadline the latter is a wait; without one it is only a look.

use crate::buffer;
use crate::error::{QuicError, StreamError};
use crate::run::{self, PACKET_ROOM};
use crate::transport;
use bytes::BytesMut;
use std::time::Instant;
use vstd::prelude::*;
use vstd::slice::slice_subrange;

verus! {

/// What came of asking for the next packet.
#[derive(Debug)]
pub enum Arrival {
    /// A packet.
    Packet(BytesMut),
    /// None: the deadline passed, or there was none to take.
    Idle,
    /// There will be no more packets.
    Closed,
}

/// An [`Arrival`] by its bytes.
pub enum ArrivalView {
    Packet(Seq<u8>),
    Idle,
    Closed,
}

impl View for Arrival {
    type V = ArrivalView;

    open spec fn view(&self) -> ArrivalView {
        match *self {
            Arrival::Packet(packet) => ArrivalView::Packet(buffer::content(packet)),
            Arrival::Idle => ArrivalView::Idle,
            Arrival::Closed => ArrivalView::Closed,
        }
    }
}

/// What a handshake keeps between two steps: the addresses of its packets and its deadline.
pub struct HandshakeState {
    pub info: quiche::RecvInfo,
    pub alarm: Option<Instant>,
}

/// What a step ends with, by its bytes.
pub enum HandshakeStepView {
    Wait { at: Instant, state: HandshakeState },
    Poll { state: HandshakeState },
    Transmit { packet: Seq<u8>, info: quiche::SendInfo, state: HandshakeState },
    Finished(Result<(), StreamError>),
}

/// The next packet is asked for: until the deadline, if there is one.
pub open spec fn awaiting(state: HandshakeState) -> HandshakeStepView {
    match state.alarm {
        Some(at) => HandshakeStepView::Wait { at, state },
        None => HandshakeStepView::Poll { state },
    }
}

/// How a step goes on after a packet was asked of the connection.
pub open spec fn after_send(
    state: HandshakeState,
    result: Result<(Seq<u8>, quiche::SendInfo), QuicError>,
) -> HandshakeStepView {
    match result {
        Ok((packet, info)) => HandshakeStepView::Transmit { packet, info, state },
        Err(QuicError::Done) => awaiting(state),
        Err(QuicError::Failed(e)) => HandshakeStepView::Finished(Err(StreamError::Transport(e))),
    }
}

/// What a packet that arrived comes to: only a failure matters.
pub open spec fn after_packet(result: Result<usize, QuicError>) -> Result<(), StreamError> {
    match result {
        Err(QuicError::Failed(e)) => Err(StreamError::Transport(e)),
        _ => Ok(()),
    }
}

/// What it means that there will be no more packets, told during a wait or a look.
pub open spec fn closed_error(state: HandshakeState) -> StreamError {
    if state.alarm is Some {
        StreamError::InputClosed
    } else {
        StreamError::InputDisconnected
    }
}

/// The connection is asked for its next packet.
pub open spec fn flushed(
    state: HandshakeState,
    before: quiche::Connection,
    step: HandshakeStepView,
    after: quiche::Connection,
) -> bool {
    exists|result: Result<(Seq<u8>, quiche::SendInfo), QuicError>| #[trigger]
        transport::send_call(before, PACKET_ROOM as nat, result, after) && step == after_send(
            state,
            result,
        )
}

/// The connection is handed a packet that arrived.
pub open spec fn packet_taken(
    state: HandshakeState,
    datagram: Seq<u8>,
    before: quiche::Connection,
    out: Result<HandshakeState, StreamError>,
    after: quiche::Connection,
) -> bool {
    exists|result: Result<usize, QuicError>, scratch: Seq<u8>| #[trigger]
        transport::recv_call(before, datagram, state.info, result, scratch, after) && out == (
        match after_packet(result) {
            Ok(_) => Ok::<HandshakeState, StreamError>(state),
            Err(e) => Err(e),
        })
}

/// The connection acts on what arrived. Without a packet it is told of a timeout, and its
/// deadline is looked up anew.
pub open spec fn arrival_applied(
    state: HandshakeState,
    arrival: ArrivalView,
    before: quiche::Connection,
    out: Result<HandshakeState, StreamError>,
    after: quiche::Connection,
) -> bool {
    match arrival {
        ArrivalView::Packet(datagram) => packet_taken(state, datagram, before, out, after),
        ArrivalView::Idle => transport::on_timeout_call(before, after) && out == Ok::<
            HandshakeState,
            StreamError,
        >(HandshakeState { alarm: transport::deadline(after), ..state }),
        ArrivalView::Closed => out == Err::<HandshakeState, StreamError>(closed_error(state))
            && after == before,
    }
}

/// The handshake goes on, or is complete, after the connection acted on what arrived.
pub open spec fn arrival_stage(
    state: HandshakeState,
    arrival: ArrivalView,
    before: quiche::Connection,
    step: HandshakeStepView,
    after: quiche::Connection,
) -> bool {
    exists|out: Result<HandshakeState, StreamError>, mid: quiche::Connection| #[trigger]
        arrival_applied(state, arrival, before, out, mid) && match out {
            Err(e) => step == HandshakeStepView::Finished(Err(e)) && after == mid,
            Ok(next) => if transport::established(mid) {
                step == HandshakeStepView::Finished(Ok(())) && after == mid
            } else {
                flushed(next, mid, step, after)
            },
        }
}

/// A step after asking for the next packet. A connection that is closed by then is given up.
pub open spec fn arrived(
    state: HandshakeState,
    arrival: ArrivalView,
    before: quiche::Connection,
    step: HandshakeStepView,
    after: quiche::Connection,
) -> bool {
    if transport::closed(before) && !(arrival is Closed) {
        step == HandshakeStepView::Finished(Err(StreamError::Aborted)) && after == before
    } else {
        arrival_stage(state, arrival, before, step, after)
    }
}

/// A handshake between two steps.
#[derive(Debug)]
pub struct Handshake {
    info: quiche::RecvInfo,
    alarm: Option<Instant>,
    buf: Vec<u8>,
}

impl View for Handshake {
    type V = HandshakeState;

    closed spec fn view(&self) -> HandshakeState {
        HandshakeState { info: self.info, alarm: self.alarm }
    }
}

/// What goes on once a packet has arrived, or has not.
#[derive(Debug)]
pub struct AfterArrival {
    handshake: Handshake,
}

/// What goes on once a packet has been handed to the socket.
#[derive(Debug)]
pub struct AfterHandshakeSend {
    handshake: Handshake,
}

impl View for AfterArrival {
    type V = HandshakeState;

    closed spec fn view(&self) -> HandshakeState {
        self.handshake@
    }
}

impl View for AfterHandshakeSend {
    type V = HandshakeState;

    closed spec fn view(&self) -> HandshakeState {
        self.handshake@
    }
}

/// What a step ends with.
#[derive(Debug)]
pub enum HandshakeStep {
    /// Wait for the next packet, until this moment.
    Wait { at: Instant, on_arrival: AfterArrival },
    /// See whether there is a packet.
    Poll { on_arrival: AfterArrival },
    /// Hand this packet to the socket.
    Transmit { packet: BytesMut, info: quiche::SendInfo, on_sent: AfterHandshakeSend },
    /// The handshake is complete, or failed.
    Finished(Result<(), StreamError>),
}

impl View for HandshakeStep {
    type V = HandshakeStepView;

    open spec fn view(&self) -> HandshakeStepView {
        match *self {
            HandshakeStep::Wait { at, on_arrival } => HandshakeStepView::Wait {
                at,
                state: on_arrival@,
            },
            HandshakeStep::Poll { on_arrival } => HandshakeStepView::Poll { state: on_arrival@ },
            HandshakeStep::Transmit { packet, info, on_sent } => HandshakeStepView::Transmit {
                packet: buffer::content(packet),
                info,
                state: on_sent@,
            },
            HandshakeStep::Finished(result) => HandshakeStepView::Finished(result),
        }
    }
}

impl HandshakeStep {
    /// What the next step starts from is sound.
    pub open spec fn wf(self) -> bool {
        match self {
            HandshakeStep::Wait { on_arrival, .. } => on_arrival.wf(),
            HandshakeStep::Poll { on_arrival } => on_arrival.wf(),
            HandshakeStep::Transmit { on_sent, .. } => on_sent.wf(),
            HandshakeStep::Finished(_) => true,
        }
    }
}

/// A handshake, or how it failed, by what it keeps.
pub open spec fn handshake_view(out: Result<Handshake, StreamError>) -> Result<
    HandshakeState,
    StreamError,
> {
    match out {
        Ok(handshake) => Ok(handshake@),
        Err(e) => Err(e),
    }
}

impl Handshake {
    /// There is room for a packet.
    pub closed spec fn wf(self) -> bool {
        self.buf@.len() == PACKET_ROOM
    }

    /// A handshake with the given deadline, whose packets carry the given addresses.
    pub fn new(info: quiche::RecvInfo, alarm: Option<Instant>) -> (handshake: Handshake)
        ensures
            handshake.wf(),
            handshake@ == (HandshakeState { info, alarm }),
    {
        Handshake { info, alarm, buf: vec![0u8; PACKET_ROOM] }
    }

    /// Asks for the next packet.
    pub fn await_packet(self) -> (step: HandshakeStep)
        requires
            self.wf(),
        ensures
            step.wf(),
            step@ == awaiting(self@),
    {
        match self.alarm {
            Some(at) => HandshakeStep::Wait { at, on_arrival: AfterArrival { handshake: self } },
            None => HandshakeStep::Poll { on_arrival: AfterArrival { handshake: self } },
        }
    }

    /// Goes on after the connection was asked for a packet.
    pub fn after_send(self, result: Result<(BytesMut, quiche::SendInfo), QuicError>) -> (step:
        HandshakeStep)
        requires
            self.wf(),
        ensures
            step.wf(),
            step@ == after_send(self@, run::packet_view(result)),
    {
        match result {
            Ok((packet, info)) => HandshakeStep::Transmit {
                packet,
                info,
                on_sent: AfterHandshakeSend { handshake: self },
            },
            Err(QuicError::Done) => self.await_packet(),
            Err(QuicError::Failed(e)) => HandshakeStep::Finished(Err(StreamError::Transport(e))),
        }
    }

    /// What a packet that arrived comes to.
    pub fn after_packet(result: Result<usize, QuicError>) -> (out: Result<(), StreamError>)
        ensures
            out == after_packet(result),
    {
        match result {
            Ok(_) => Ok(()),
            Err(QuicError::Done) => Ok(()),
            Err(QuicError::Failed(e)) => Err(StreamError::Transport(e)),
        }
    }

    /// Asks the connection for its next packet.
    fn flush(self, conn: &mut quiche::Connection) -> (step: HandshakeStep)
        requires
            self.wf(),
        ensures
            step.wf(),
            flushed(self@, *old(conn), step@, *final(conn)),
    {
        let mut handshake = self;
        let result = match transport::conn_send(conn, &mut handshake.buf) {
            Ok((count, info)) => {
                let packet = buffer::from_slice(
                    slice_subrange(handshake.buf.as_slice(), 0, count),
                );
                Ok((packet, info))
            },
            Err(e) => Err(e),
        };
        handshake.after_send(result)
    }

    /// Lets the connection act on what arrived.
    fn apply(self, conn: &mut quiche::Connection, arrival: Arrival) -> (out: Result<
        Handshake,
        StreamError,
    >)
        requires
            self.wf(),
        ensures
            out matches Ok(handshake) ==> handshake.wf(),
            arrival_applied(
                self@,
                arrival@,
                *old(conn),
                handshake_view(out),
                *final(conn),
            ),
    {
        let mut handshake = self;
        match arrival {
            Arrival::Packet(packet) => {
                let mut packet = packet;
                let result = transport::conn_recv(conn, &mut packet, handshake.info);
                match Handshake::after_packet(result) {
                    Ok(_) => Ok(handshake),
                    Err(e) => Err(e),
                }
            },
            Arrival::Idle => {
                transport::conn_on_timeout(conn);
                handshake.alarm = transport::conn_timeout_instant(conn);
                Ok(handshake)
            },
            Arrival::Closed => {
                if handshake.alarm.is_some() {
                    Err(StreamError::InputClosed)
                } else {
                    Err(StreamError::InputDisconnected)
                }
            },
        }
    }
}

/// Starts the handshake of a connection: the next packet is asked for. Every packet that the
/// connection is handed is taken to carry the addresses in `info`.
pub fn wait_established(info: quiche::RecvInfo, conn: &quiche::Connection) -> (step: HandshakeStep)
    ensures
        step.wf(),
        step@ == awaiting(HandshakeState { info, alarm: transport::deadline(*conn) }),
{
    Handshake::new(info, transport::conn_timeout_instant(conn)).await_packet()
}

impl AfterHandshakeSend {
    /// What the next step starts from is sound.
    pub closed spec fn wf(self) -> bool {
        self.handshake.wf()
    }

    /// Goes on after a packet was handed to the socket, or could not be.
    pub fn resume(self, conn: &mut quiche::Connection, sent: bool) -> (step: HandshakeStep)
        requires
            self.wf(),
        ensures
            step.wf(),
            !sent ==> step@ == HandshakeStepView::Finished(Err(StreamError::WriteZero))
                && *final(conn) == *old(conn),
            sent ==> flushed(self@, *old(conn), step@, *final(conn)),
    {
        if !sent {
            return HandshakeStep::Finished(Err(StreamError::WriteZero));
        }
        self.handshake.flush(conn)
    }
}

impl AfterArrival {
    /// What the next step starts from is sound.
    pub closed spec fn wf(self) -> bool {
        self.handshake.wf()
    }

    /// Goes on after a packet arrived, or did not. The handshake is complete as soon as the
    /// connection says so; until then its packets go out.
    pub fn resume(self, conn: &mut quiche::Connection, arrival: Arrival) -> (step: HandshakeStep)
        requires
            self.wf(),
        ensures
            step.wf(),
            arrived(self@, arrival@, *old(conn), step@, *final(conn)),
            step@ == HandshakeStepView::Finished(Ok(())) ==> transport::established(*final(conn)),
    {
        let gone = match &arrival {
            Arrival::Closed => true,
            _ => false,
        };
        if !gone && transport::conn_is_closed(conn) {
            return HandshakeStep::Finished(Err(StreamError::Aborted));
        }
        let out = self.handshake.apply(conn, arrival);
        match out {
            Err(e) => HandshakeStep::Finished(Err(e)),
            Ok(handshake) => {
                if transport::conn_is_established(conn) {
                    HandshakeStep::Finished(Ok(()))
                } else {
                    handshake.flush(conn)
                }
            },
        }
    }
}

/// A handshake is complete only if the connection says so.
pub proof fn law_success_means_established(
    state: HandshakeState,
    arrival: ArrivalView,
    before: quiche::Connection,
    step: HandshakeStepView,
    after: quiche::Connection,
)
    requires
        arrived(state, arrival, before, step, after),
        step == HandshakeStepView::Finished(Ok(())),
    ensures
        transport::established(after),
{
}

/// A connection that is closed is never asked for anything during its handshake: the
/// handshake fails.
pub proof fn law_closed_connection_fails(
    state: HandshakeState,
    arrival: ArrivalView,
    before: quiche::Connection,
    step: HandshakeStepView,
    after: quiche::Connection,
)
    requires
        arrived(state, arrival, before, step, after),
        transport::closed(before),
    ensures
        step == HandshakeStepView::Finished(Err(StreamError::Aborted)) || step
            == HandshakeStepView::Finished(Err(closed_error(state))),
        after == before,
{
}

/// The next packet is waited for until the deadline; without one, it is only looked for.
pub proof fn law_a_handshake_waits_until_its_deadline(info: quiche::RecvInfo, alarm: Option<Instant>)
    ensures
        alarm matches Some(at) ==> awaiting(HandshakeState { info, alarm }) == (
        HandshakeStepView::Wait { at, state: HandshakeState { info, alarm } }),
        alarm is None ==> awaiting(HandshakeState { info, alarm }) == (HandshakeStepView::Poll {
            state: HandshakeState { info, alarm },
        }),
{
}

/// A packet that the connection makes during its handshake goes out as it was made, to where it
/// is to go, and the next one that arrives is asked for only where there was none to go out.
pub proof fn law_every_handshake_packet_goes_out(
    state: HandshakeState,
    before: quiche::Connection,
    step: HandshakeStepView,
    after: quiche::Connection,
)
    requires
        flushed(state, before, step, after),
    ensures
        exists|made: Result<(Seq<u8>, quiche::SendInfo), QuicError>| #[trigger]
            transport::send_call(before, 65536, made, after) && match made {
                Ok((packet, info)) => step == (HandshakeStepView::Transmit { packet, info, state }),
                Err(QuicError::Done) => match state.alarm {
                    Some(at) => step == (HandshakeStepView::Wait { at, state }),
                    None => step == (HandshakeStepView::Poll { state }),
                },
                Err(QuicError::Failed(e)) => step == HandshakeStepView::Finished(
                    Err(StreamError::Transport(e)),
                ),
            },
{
}

/// Every packet that arrives during a handshake is handed to the connection, as it arrived and
/// with the addresses of the handshake. If the connection refuses it, the handshake fails with
/// that error; else it is complete exactly if the connection is established then, and goes on
/// with the packets that the connection makes if not.
pub proof fn law_every_packet_is_heard(
    state: HandshakeState,
    datagram: Seq<u8>,
    before: quiche::Connection,
    step: HandshakeStepView,
    after: quiche::Connection,
)
    requires
        arrived(state, ArrivalView::Packet(datagram), before, step, after),
        !transport::closed(before),
    ensures
        exists|heard: Result<usize, QuicError>, scratch: Seq<u8>, mid: quiche::Connection| #[trigger]
            transport::recv_call(before, datagram, state.info, heard, scratch, mid) && match heard {
                Err(QuicError::Failed(e)) => after == mid && step == HandshakeStepView::Finished(
                    Err(StreamError::Transport(e)),
                ),
                _ => if transport::established(mid) {
                    after == mid && (step matches HandshakeStepView::Finished(Ok(_)))
                } else {
                    exists|made: Result<(Seq<u8>, quiche::SendInfo), QuicError>| #[trigger]
                        transport::send_call(mid, 65536, made, after) && match made {
                            Ok((packet, info)) => step == (HandshakeStepView::Transmit {
                                packet,
                                info,
                                state,
                            }),
                            Err(QuicError::Done) => match state.alarm {
                                Some(at) => step == (HandshakeStepView::Wait { at, state }),
                                None => step == (HandshakeStepView::Poll { state }),
                            },
                            Err(QuicError::Failed(e)) => step == HandshakeStepView::Finished(
                                Err(StreamError::Transport(e)),
                            ),
                        }
                },
            },
{
    let (out, mid) = choose|out: Result<HandshakeState, StreamError>, mid: quiche::Connection| #[trigger]
        arrival_applied(state, ArrivalView::Packet(datagram), before, out, mid) && match out {
            Err(e) => step == HandshakeStepView::Finished(Err(e)) && after == mid,
            Ok(next) => if transport::established(mid) {
                step == HandshakeStepView::Finished(Ok(())) && after == mid
            } else {
                flushed(next, mid, step, after)
            },
        };
    let (heard, scratch) = choose|heard: Result<usize, QuicError>, scratch: Seq<u8>| #[trigger]
        transport::recv_call(before, datagram, state.info, heard, scratch, mid) && out == (
        match after_packet(heard) {
            Ok(_) => Ok::<HandshakeState, StreamError>(state),
            Err(e) => Err(e),
        });
    if out is Ok && !transport::established(mid) {
        law_every_handshake_packet_goes_out(state, mid, step, after);
    }
    assert(transport::recv_call(before, datagram, state.info, heard, scratch, mid));
}

/// Where no packet arrived, the connection is told of a timeout and its deadline is looked up
/// anew. The handshake is complete exactly if the connection is established then.
pub proof fn law_a_timeout_is_told(
    state: HandshakeState,
    before: quiche::Connection,
    step: HandshakeStepView,
    after: quiche::Connection,
)
    requires
        arrived(state, ArrivalView::Idle, before, step, after),
        !transport::closed(before),
    ensures
        exists|mid: quiche::Connection| #[trigger]
            transport::on_timeout_call(before, mid) && if transport::established(mid) {
                after == mid && (step matches HandshakeStepView::Finished(Ok(_)))
            } else {
                exists|made: Result<(Seq<u8>, quiche::SendInfo), QuicError>| #[trigger]
                    transport::send_call(mid, 65536, made, after) && match made {
                        Ok((packet, info)) => step == (HandshakeStepView::Transmit {
                            packet,
                            info,
                            state: HandshakeState {
                                info: state.info,
                                alarm: transport::deadline(mid),
                            },
                        }),
                        Err(QuicError::Done) => match transport::deadline(mid) {
                            Some(at) => step == (HandshakeStepView::Wait {
                                at,
                                state: HandshakeState { info: state.info, alarm: Some(at) },
                            }),
                            None => step == (HandshakeStepView::Poll {
                                state: HandshakeState { info: state.info, alarm: None },
                            }),
                        },
                        Err(QuicError::Failed(e)) => step == HandshakeStepView::Finished(
                            Err(StreamError::Transport(e)),
                        ),
                    }
            },
{
    let (out, mid) = choose|out: Result<HandshakeState, StreamError>, mid: quiche::Connection| #[trigger]
        arrival_applied(state, ArrivalView::Idle, before, out, mid) && match out {
            Err(e) => step == HandshakeStepView::Finished(Err(e)) && after == mid,
            Ok(next) => if transport::established(mid) {
                step == HandshakeStepView::Finished(Ok(())) && after == mid
            } else {
                flushed(next, mid, step, after)
            },
        };
    if !transport::established(mid) {
        law_every_handshake_packet_goes_out(out->Ok_0, mid, step, after);
    }
    assert(transport::on_timeout_call(before, mid));
}

/// A handshake that cannot go on says why and leaves the connection alone: no more packets will
/// come, or the connection is closed.
pub proof fn law_a_handshake_that_cannot_go_on_fails(
    state: HandshakeState,
    arrival: ArrivalView,
    before: quiche::Connection,
    step: HandshakeStepView,
    after: quiche::Connection,
)
    requires
        arrived(state, arrival, before, step, after),
        arrival is Closed || transport::closed(before),
    ensures
        after == before,
        step == HandshakeStepView::Finished(
            Err(
                if !(arrival is Closed) {
                    StreamError::Aborted
                } else if state.alarm is Some {
                    StreamError::InputClosed
                } else {
                    StreamError::InputDisconnected
                },
            ),
        ),
{
}

/// The view of a step shows what the step holds.
pub proof fn law_a_handshake_step_shows_what_it_holds(step: HandshakeStep, arrival: Arrival)
    ensures
        match step {
            HandshakeStep::Wait { at, on_arrival } => step@ == (HandshakeStepView::Wait {
                at,
                state: on_arrival@,
            }),
            HandshakeStep::Poll { on_arrival } => step@ == (HandshakeStepView::Poll {
                state: on_arrival@,
            }),
            HandshakeStep::Transmit { packet, info, on_sent } => step@ == (
            HandshakeStepView::Transmit { packet: buffer::content(packet), info, state: on_sent@ }),
            HandshakeStep::Finished(result) => step@ == HandshakeStepView::Finished(result),
        },
        match arrival {
            Arrival::Packet(packet) => arrival@ == ArrivalView::Packet(buffer::content(packet)),
            Arrival::Idle => arrival@ is Idle,
            Arrival::Closed => arrival@ is Closed,
        },
{
}

} // verus!
