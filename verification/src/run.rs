//! The life of an established connection: packets go out, packets and data come in, one
//! step at a time.
//!
//! A step is what happens between two waits. It ends by asking for one thing that takes
//! time: to hand a packet to the socket, to hand data to the reader, or to wait for
//! something to happen. The next step starts from what the previous one left, with the
//! answer.

use crate::buffer;
use crate::error::{QuicError, StreamError};
use crate::event::{self, Alarm, Event, EventView, Wake, WakeView};
use crate::stream;
use crate::transport;
use bytes::BytesMut;
use vstd::prelude::*;
use vstd::slice::slice_subrange;

verus! {

/// The one stream of a connection that carries data.
pub const STREAM_ID: u64 = 0;

/// The most bytes that a packet, or one read of the stream, can have.
pub const PACKET_ROOM: usize = 65536;

/// What a connection waits for, besides its timer.
#[derive(Clone, Copy, PartialEq, Eq, Structural, Debug)]
pub enum Source {
    /// A packet.
    Input,
    /// Data to be sent.
    Output,
    /// Either of them.
    Both,
}

/// Why a connection ended.
#[derive(Clone, Copy, PartialEq, Eq, Debug)]
pub enum Exit {
    /// The connection is closed.
    Closed,
    /// A packet could not be handed to the socket.
    PacketsClosed,
    /// The connection could not make a packet.
    SendFailed(quiche::Error),
    /// The rest of a packet was refused.
    InputRetryFailed(quiche::Error),
    /// The rest of the data was refused.
    OutputRetryFailed(quiche::Error),
    /// A packet was refused.
    InputFailed(QuicError),
    /// Data was refused.
    OutputFailed(quiche::Error),
    /// The stream could not be read.
    ReadFailed(quiche::Error),
    /// A channel was closed.
    Event(StreamError),
}

/// What came of offering data to the stream.
#[derive(Clone, Copy, PartialEq, Eq, Debug)]
pub enum Offer {
    /// It took so many bytes.
    Taken(usize),
    /// It has no room now.
    Blocked,
    /// It takes no more data ever: it ended on both sides, or the peer stopped it.
    Gone,
    /// The connection refused.
    Failed(quiche::Error),
}

impl Exit {
    /// Whether the end is an error for the one who runs the connection, and which.
    pub open spec fn spec_result(self) -> Result<(), StreamError> {
        match self {
            Exit::Event(e) => Err(e),
            _ => Ok(()),
        }
    }

    /// What running the connection comes to.
    pub fn into_result(self) -> (result: Result<(), StreamError>)
        ensures
            result == self.spec_result(),
    {
        match self {
            Exit::Event(e) => Err(e),
            _ => Ok(()),
        }
    }
}

/// What a running connection keeps between two steps: the addresses of its packets, the rest
/// of a packet that was not digested, and the rest of data that was not taken.
pub struct RunState {
    pub info: quiche::RecvInfo,
    pub input_left: Option<Seq<u8>>,
    pub output_left: Option<Seq<u8>>,
}

/// What a step ends with, by its bytes.
pub enum RunStepView {
    Transmit { packet: Seq<u8>, info: quiche::SendInfo, state: RunState },
    Wait { source: Source, state: RunState },
    Deliver { data: Seq<u8>, fin: bool, state: RunState },
    Stop(Exit),
}

/// What a connection waits for: packets only, while data is pending or the handshake is not
/// complete; data only, while a packet is pending; else both.
pub open spec fn wait_source(state: RunState, established: bool) -> Source {
    if state.input_left is None && (state.output_left is Some || !established) {
        Source::Input
    } else if state.input_left is Some {
        Source::Output
    } else {
        Source::Both
    }
}

/// A wait for this can come back with that: the timer may always go off.
pub open spec fn answers(source: Source, wake: WakeView) -> bool {
    match wake {
        WakeView::Input(_) => source != Source::Output,
        WakeView::Output(_) => source != Source::Input,
        WakeView::Timer => true,
    }
}

/// What is left of some bytes after so many of them, where any are.
pub open spec fn remainder(data: Seq<u8>, count: int) -> Option<Seq<u8>> {
    if count < data.len() {
        Some(data.skip(count))
    } else {
        None
    }
}

/// How a step goes on after a packet was asked for.
pub open spec fn after_send(
    state: RunState,
    result: Result<(Seq<u8>, quiche::SendInfo), QuicError>,
    established: bool,
) -> RunStepView {
    match result {
        Ok((packet, info)) => RunStepView::Transmit { packet, info, state },
        Err(QuicError::Done) => RunStepView::Wait {
            source: wait_source(state, established),
            state,
        },
        Err(QuicError::Failed(e)) => RunStepView::Stop(Exit::SendFailed(e)),
    }
}

/// What becomes of the rest of a packet that was tried again.
pub open spec fn after_input_retry(
    state: RunState,
    scratch: Seq<u8>,
    result: Result<usize, QuicError>,
) -> Result<RunState, Exit> {
    match result {
        Ok(count) => Ok(RunState { input_left: remainder(scratch, count as int), ..state }),
        Err(QuicError::Done) => Ok(RunState { input_left: None, ..state }),
        Err(QuicError::Failed(e)) => Err(Exit::InputRetryFailed(e)),
    }
}

/// What came of offering data, given what the call answered and whether the stream still takes
/// data after it.
pub open spec fn offer_of(result: Result<usize, QuicError>, open: bool) -> Offer {
    match result {
        Ok(count) => Offer::Taken(count),
        Err(QuicError::Done) => if open {
            Offer::Blocked
        } else {
            Offer::Gone
        },
        Err(QuicError::Failed(e)) => Offer::Failed(e),
    }
}

/// What is left of data that was offered. Where the stream has no room, all of it; where it
/// takes no more data ever, none.
pub open spec fn left_over(data: Seq<u8>, offer: Offer) -> Option<Seq<u8>> {
    match offer {
        Offer::Taken(count) => remainder(data, count as int),
        Offer::Blocked => remainder(data, 0),
        _ => None,
    }
}

/// What becomes of the rest of the data that was tried again.
pub open spec fn after_output_retry(
    state: RunState,
    data: Seq<u8>,
    offer: Offer,
) -> Result<RunState, Exit> {
    match offer {
        Offer::Failed(e) => Err(Exit::OutputRetryFailed(e)),
        _ => Ok(RunState { output_left: left_over(data, offer), ..state }),
    }
}

/// What becomes of a packet that arrived.
pub open spec fn after_input(
    state: RunState,
    scratch: Seq<u8>,
    result: Result<usize, QuicError>,
) -> Result<RunState, Exit> {
    match result {
        Ok(count) => match remainder(scratch, count as int) {
            Some(rest) => Ok(RunState { input_left: Some(rest), ..state }),
            None => Ok(state),
        },
        Err(e) => Err(Exit::InputFailed(e)),
    }
}

/// What becomes of data that is to be sent.
pub open spec fn after_output(state: RunState, data: Seq<u8>, offer: Offer) -> Result<
    RunState,
    Exit,
> {
    match offer {
        Offer::Failed(e) => Err(Exit::OutputFailed(e)),
        _ => match left_over(data, offer) {
            Some(rest) => Ok(RunState { output_left: Some(rest), ..state }),
            None => Ok(state),
        },
    }
}

/// The stream takes no more than it is offered.
pub open spec fn fits(data: Seq<u8>, offer: Offer) -> bool {
    offer matches Offer::Taken(count) ==> count <= data.len()
}

/// What the stream took of the data that it was offered.
pub open spec fn took(data: Seq<u8>, offer: Offer) -> Seq<u8> {
    match offer {
        Offer::Taken(count) => data.take(count as int),
        _ => Seq::empty(),
    }
}

/// The stream is offered data, with or without an end mark.
pub open spec fn offer_made(
    before: quiche::Connection,
    data: Seq<u8>,
    fin: bool,
    offer: Offer,
    after: quiche::Connection,
) -> bool {
    exists|result: Result<usize, QuicError>| #[trigger]
        transport::stream_send_call(before, STREAM_ID, data, fin, result, after) && offer
            == offer_of(result, transport::capacity(after, STREAM_ID) is Ok) && fits(data, offer)
}

/// The connection is asked for its next packet.
pub open spec fn flushed(
    state: RunState,
    before: quiche::Connection,
    step: RunStepView,
    after: quiche::Connection,
) -> bool {
    exists|result: Result<(Seq<u8>, quiche::SendInfo), QuicError>| #[trigger]
        transport::send_call(before, PACKET_ROOM as nat, result, after) && step == after_send(
            state,
            result,
            transport::established(after),
        )
}

/// A connection that is not closed is asked for its next packet.
pub open spec fn turned(
    state: RunState,
    before: quiche::Connection,
    step: RunStepView,
    after: quiche::Connection,
) -> bool {
    if transport::closed(before) {
        step == RunStepView::Stop(Exit::Closed) && after == before
    } else {
        flushed(state, before, step, after)
    }
}

/// The stream is read, if it has anything; a stream with nothing to read ends the turn.
pub open spec fn drained(
    state: RunState,
    before: quiche::Connection,
    step: RunStepView,
    after: quiche::Connection,
) -> bool {
    if !transport::readable(before, STREAM_ID) {
        turned(state, before, step, after)
    } else {
        exists|result: Result<(Seq<u8>, bool), QuicError>, mid: quiche::Connection| #[trigger]
            transport::stream_recv_call(before, STREAM_ID, PACKET_ROOM as nat, result, mid)
                && match result {
                Ok((data, fin)) => step == (RunStepView::Deliver { data, fin, state }) && after
                    == mid,
                Err(QuicError::Done) => turned(state, mid, step, after),
                Err(QuicError::Failed(e)) => step == RunStepView::Stop(Exit::ReadFailed(e)) && after
                    == mid,
            }
    }
}

/// The connection is handed the rest of a packet.
pub open spec fn input_rest_sent(
    state: RunState,
    datagram: Seq<u8>,
    before: quiche::Connection,
    out: Result<RunState, Exit>,
    after: quiche::Connection,
) -> bool {
    exists|result: Result<usize, QuicError>, scratch: Seq<u8>| #[trigger]
        transport::recv_call(before, datagram, state.info, result, scratch, after) && out
            == after_input_retry(state, scratch, result)
}

/// The rest of a packet is tried again, if there is one.
pub open spec fn input_retried(
    state: RunState,
    before: quiche::Connection,
    out: Result<RunState, Exit>,
    after: quiche::Connection,
) -> bool {
    match state.input_left {
        None => out == Ok::<RunState, Exit>(state) && after == before,
        Some(datagram) => input_rest_sent(state, datagram, before, out, after),
    }
}

/// The stream is handed the rest of the data, without an end mark.
pub open spec fn output_rest_sent(
    state: RunState,
    data: Seq<u8>,
    before: quiche::Connection,
    out: Result<RunState, Exit>,
    after: quiche::Connection,
) -> bool {
    exists|offer: Offer| #[trigger]
        offer_made(before, data, false, offer, after) && out == after_output_retry(
            state,
            data,
            offer,
        )
}

/// The rest of the data is tried again, if there is any.
pub open spec fn output_retried(
    state: RunState,
    before: quiche::Connection,
    out: Result<RunState, Exit>,
    after: quiche::Connection,
) -> bool {
    match state.output_left {
        None => out == Ok::<RunState, Exit>(state) && after == before,
        Some(data) => output_rest_sent(state, data, before, out, after),
    }
}

/// The connection is handed a packet that arrived.
pub open spec fn input_sent(
    state: RunState,
    datagram: Seq<u8>,
    before: quiche::Connection,
    out: Result<RunState, Exit>,
    after: quiche::Connection,
) -> bool {
    exists|result: Result<usize, QuicError>, scratch: Seq<u8>| #[trigger]
        transport::recv_call(before, datagram, state.info, result, scratch, after) && out
            == after_input(state, scratch, result)
}

/// The stream is handed data; no data at all comes with an end mark.
pub open spec fn output_sent(
    state: RunState,
    data: Seq<u8>,
    before: quiche::Connection,
    out: Result<RunState, Exit>,
    after: quiche::Connection,
) -> bool {
    exists|fin: bool, offer: Offer| #[trigger]
        offer_made(before, data, fin, offer, after) && fin == (data.len() == 0) && out
            == after_output(state, data, offer)
}

/// The connection acts on an event. After a timeout the timer is set anew.
pub open spec fn event_applied(
    state: RunState,
    event: EventView,
    before: quiche::Connection,
    out: Result<RunState, Exit>,
    alarm: Option<Alarm>,
    after: quiche::Connection,
) -> bool {
    match event {
        EventView::Input(datagram) => alarm is None && input_sent(
            state,
            datagram,
            before,
            out,
            after,
        ),
        EventView::Output(data) => alarm is None && output_sent(state, data, before, out, after),
        EventView::Timeout => transport::on_timeout_call(before, after) && out == Ok::<
            RunState,
            Exit,
        >(state) && alarm == Some(event::alarm_for(transport::deadline(after))),
    }
}

/// The last part of a step after a wait: the event, then the stream.
pub open spec fn event_stage(
    state: RunState,
    event: EventView,
    before: quiche::Connection,
    alarm: Option<Alarm>,
    step: RunStepView,
    after: quiche::Connection,
) -> bool {
    exists|out: Result<RunState, Exit>, mid: quiche::Connection| #[trigger]
        event_applied(state, event, before, out, alarm, mid) && match out {
            Ok(next) => drained(next, mid, step, after),
            Err(exit) => step == RunStepView::Stop(exit) && after == mid,
        }
}

/// The middle part of a step after a wait: the rest of the data, then the event.
pub open spec fn output_stage(
    state: RunState,
    event: EventView,
    before: quiche::Connection,
    alarm: Option<Alarm>,
    step: RunStepView,
    after: quiche::Connection,
) -> bool {
    exists|out: Result<RunState, Exit>, mid: quiche::Connection| #[trigger]
        output_retried(state, before, out, mid) && match out {
            Ok(next) => event_stage(next, event, mid, alarm, step, after),
            Err(exit) => step == RunStepView::Stop(exit) && after == mid && alarm is None,
        }
}

/// The first part of a step after a wait: the rest of a packet, then the rest of the data.
pub open spec fn input_stage(
    state: RunState,
    event: EventView,
    before: quiche::Connection,
    alarm: Option<Alarm>,
    step: RunStepView,
    after: quiche::Connection,
) -> bool {
    exists|out: Result<RunState, Exit>, mid: quiche::Connection| #[trigger]
        input_retried(state, before, out, mid) && match out {
            Ok(next) => output_stage(next, event, mid, alarm, step, after),
            Err(exit) => step == RunStepView::Stop(exit) && after == mid && alarm is None,
        }
}

/// A step after a wait. A closed channel ends the connection.
pub open spec fn woken(
    state: RunState,
    wake: WakeView,
    before: quiche::Connection,
    alarm: Option<Alarm>,
    step: RunStepView,
    after: quiche::Connection,
) -> bool {
    match event::event_of(wake) {
        Ok(event) => input_stage(state, event, before, alarm, step, after),
        Err(e) => step == RunStepView::Stop(Exit::Event(e)) && after == before && alarm is None,
    }
}

impl RunStepView {
    /// What the next step starts from, unless this was the last.
    pub open spec fn state(self) -> Option<RunState> {
        match self {
            RunStepView::Transmit { state, .. } => Some(state),
            RunStepView::Wait { state, .. } => Some(state),
            RunStepView::Deliver { state, .. } => Some(state),
            RunStepView::Stop(_) => None,
        }
    }

    /// No packet is pending, and more data is asked for only where none is.
    pub open spec fn settled(self) -> bool {
        &&& self.state() matches Some(state) ==> state.input_left is None
        &&& self matches RunStepView::Wait { source, state } ==> (source != Source::Input
            ==> state.output_left is None)
    }
}

/// A running connection between two steps.
#[derive(Debug)]
pub struct QuicRun {
    info: quiche::RecvInfo,
    input_data: Option<BytesMut>,
    output_data: Option<BytesMut>,
    buf: Vec<u8>,
}

impl View for QuicRun {
    type V = RunState;

    closed spec fn view(&self) -> RunState {
        RunState {
            info: self.info,
            input_left: event::content_of(self.input_data),
            output_left: event::content_of(self.output_data),
        }
    }
}

/// What goes on once a packet has been handed to the socket.
#[derive(Debug)]
pub struct AfterTransmit {
    run: QuicRun,
}

/// What goes on once a wait is over.
#[derive(Debug)]
pub struct AfterWait {
    run: QuicRun,
    source: Source,
}

/// What goes on once data has been handed to the reader.
#[derive(Debug)]
pub struct AfterDeliver {
    run: QuicRun,
    fin: bool,
}

/// What a step ends with.
#[derive(Debug)]
pub enum RunStep {
    /// Hand this packet to the socket.
    Transmit { packet: BytesMut, info: quiche::SendInfo, on_sent: AfterTransmit },
    /// Wait for this, or for the timer.
    Wait { source: Source, on_wake: AfterWait },
    /// Hand this data to the reader; none at all is the end of the stream.
    Deliver { data: BytesMut, on_taken: AfterDeliver },
    /// The connection is over.
    Stop(Exit),
}

impl View for AfterTransmit {
    type V = RunState;

    closed spec fn view(&self) -> RunState {
        self.run@
    }
}

impl View for AfterWait {
    type V = RunState;

    closed spec fn view(&self) -> RunState {
        self.run@
    }
}

impl View for AfterDeliver {
    type V = (RunState, bool);

    closed spec fn view(&self) -> (RunState, bool) {
        (self.run@, self.fin)
    }
}

impl View for RunStep {
    type V = RunStepView;

    open spec fn view(&self) -> RunStepView {
        match *self {
            RunStep::Transmit { packet, info, on_sent } => RunStepView::Transmit {
                packet: buffer::content(packet),
                info,
                state: on_sent@,
            },
            RunStep::Wait { source, on_wake } => RunStepView::Wait { source, state: on_wake@ },
            RunStep::Deliver { data, on_taken } => RunStepView::Deliver {
                data: buffer::content(data),
                fin: on_taken@.1,
                state: on_taken@.0,
            },
            RunStep::Stop(exit) => RunStepView::Stop(exit),
        }
    }
}

impl RunStep {
    /// What the next step starts from is sound.
    pub open spec fn wf(self) -> bool {
        match self {
            RunStep::Transmit { on_sent, .. } => on_sent.wf(),
            RunStep::Wait { source, on_wake } => on_wake.wf() && on_wake.source() == source,
            RunStep::Deliver { on_taken, .. } => on_taken.wf(),
            RunStep::Stop(_) => true,
        }
    }
}

/// A running connection, or why it ended, by its bytes.
pub open spec fn run_view(out: Result<QuicRun, Exit>) -> Result<RunState, Exit> {
    match out {
        Ok(run) => Ok(run@),
        Err(exit) => Err(exit),
    }
}

/// A packet, or how it failed, by its bytes.
pub open spec fn packet_view(
    result: Result<(BytesMut, quiche::SendInfo), QuicError>,
) -> Result<(Seq<u8>, quiche::SendInfo), QuicError> {
    match result {
        Ok((packet, info)) => Ok((buffer::content(packet), info)),
        Err(e) => Err(e),
    }
}

impl QuicRun {
    /// There is room for a packet.
    pub closed spec fn wf(self) -> bool {
        self.buf@.len() == PACKET_ROOM
    }

    /// A connection with nothing pending, whose packets carry the given addresses.
    pub fn new(info: quiche::RecvInfo) -> (run: QuicRun)
        ensures
            run.wf(),
            run@ == (RunState { info, input_left: None, output_left: None }),
    {
        QuicRun { info, input_data: None, output_data: None, buf: vec![0u8; PACKET_ROOM] }
    }

    /// Goes on after the connection was asked for a packet. Whether it is established
    /// matters only where it had none.
    pub fn after_send(
        self,
        result: Result<(BytesMut, quiche::SendInfo), QuicError>,
        established: bool,
    ) -> (step: RunStep)
        requires
            self.wf(),
        ensures
            step.wf(),
            step@ == after_send(self@, packet_view(result), established),
    {
        match result {
            Ok((packet, info)) => RunStep::Transmit {
                packet,
                info,
                on_sent: AfterTransmit { run: self },
            },
            Err(QuicError::Done) => {
                let source = if self.input_data.is_none() && (self.output_data.is_some()
                    || !established) {
                    Source::Input
                } else if self.input_data.is_some() {
                    Source::Output
                } else {
                    Source::Both
                };
                RunStep::Wait { source, on_wake: AfterWait { run: self, source } }
            },
            Err(QuicError::Failed(e)) => RunStep::Stop(Exit::SendFailed(e)),
        }
    }

    /// Goes on after the rest of a packet was tried again; `data` is what the call left in
    /// the buffer.
    pub fn after_input_retry(self, data: BytesMut, result: Result<usize, QuicError>) -> (out:
        Result<QuicRun, Exit>)
        requires
            self.wf(),
        ensures
            out matches Ok(run) ==> run.wf(),
            run_view(out) == after_input_retry(self@, buffer::content(data), result),
    {
        let mut run = self;
        let mut data = data;
        let count: usize = match result {
            Ok(count) => count,
            Err(QuicError::Done) => data.len(),
            Err(QuicError::Failed(e)) => {
                return Err(Exit::InputRetryFailed(e));
            },
        };
        if count < data.len() {
            buffer::advance(&mut data, count);
            run.input_data = Some(data);
        } else {
            run.input_data = None;
        }
        Ok(run)
    }

    /// Goes on after the rest of the data was offered again.
    pub fn after_output_retry(self, data: BytesMut, offer: Offer) -> (out: Result<QuicRun, Exit>)
        requires
            self.wf(),
        ensures
            out matches Ok(run) ==> run.wf(),
            run_view(out) == after_output_retry(self@, buffer::content(data), offer),
    {
        let mut run = self;
        match offer {
            Offer::Failed(e) => Err(Exit::OutputRetryFailed(e)),
            _ => {
                run.output_data = rest_of(data, offer);
                Ok(run)
            },
        }
    }

    /// Goes on after a packet that arrived was handed to the connection; `data` is what the
    /// call left in the buffer.
    pub fn after_input(self, data: BytesMut, result: Result<usize, QuicError>) -> (out: Result<
        QuicRun,
        Exit,
    >)
        requires
            self.wf(),
        ensures
            out matches Ok(run) ==> run.wf(),
            run_view(out) == after_input(self@, buffer::content(data), result),
    {
        let mut run = self;
        let mut data = data;
        match result {
            Ok(count) => {
                if count < data.len() {
                    buffer::advance(&mut data, count);
                    run.input_data = Some(data);
                }
                Ok(run)
            },
            Err(e) => Err(Exit::InputFailed(e)),
        }
    }

    /// Goes on after data was offered to the stream.
    pub fn after_output(self, data: BytesMut, offer: Offer) -> (out: Result<QuicRun, Exit>)
        requires
            self.wf(),
        ensures
            out matches Ok(run) ==> run.wf(),
            run_view(out) == after_output(self@, buffer::content(data), offer),
    {
        let mut run = self;
        match offer {
            Offer::Failed(e) => Err(Exit::OutputFailed(e)),
            _ => {
                match rest_of(data, offer) {
                    Some(rest) => {
                        run.output_data = Some(rest);
                    },
                    None => {},
                }
                Ok(run)
            },
        }
    }
}

/// Tells what came of offering data, given what the call answered and whether the stream still
/// takes data after it.
pub fn offer_result(result: Result<usize, QuicError>, open: bool) -> (offer: Offer)
    ensures
        offer == offer_of(result, open),
{
    match result {
        Ok(count) => Offer::Taken(count),
        Err(QuicError::Done) => {
            if open {
                Offer::Blocked
            } else {
                Offer::Gone
            }
        },
        Err(QuicError::Failed(e)) => Offer::Failed(e),
    }
}

/// Cuts off what the stream took of data that it was offered.
fn rest_of(data: BytesMut, offer: Offer) -> (rest: Option<BytesMut>)
    ensures
        event::content_of(rest) == left_over(buffer::content(data), offer),
{
    let mut data = data;
    let count: usize = match offer {
        Offer::Taken(count) => count,
        Offer::Blocked => 0,
        _ => {
            return None;
        },
    };
    if count < data.len() {
        buffer::advance(&mut data, count);
        Some(data)
    } else {
        None
    }
}

/// Offers data to the stream.
fn offer(conn: &mut quiche::Connection, data: &BytesMut, fin: bool) -> (offer: Offer)
    ensures
        offer_made(*old(conn), buffer::content(*data), fin, offer, *final(conn)),
{
    let result = transport::conn_stream_send(conn, STREAM_ID, data, fin);
    let open = transport::conn_stream_capacity(conn, STREAM_ID).is_ok();
    offer_result(result, open)
}

impl QuicRun {
    /// Asks the connection for its next packet.
    fn flush(self, conn: &mut quiche::Connection) -> (step: RunStep)
        requires
            self.wf(),
        ensures
            step.wf(),
            flushed(self@, *old(conn), step@, *final(conn)),
            self@.input_left is None ==> step@.settled(),
    {
        let mut run = self;
        let result = match transport::conn_send(conn, &mut run.buf) {
            Ok((count, info)) => {
                let packet = buffer::from_slice(slice_subrange(run.buf.as_slice(), 0, count));
                Ok((packet, info))
            },
            Err(e) => Err(e),
        };
        let established = transport::conn_is_established(conn);
        run.after_send(result, established)
    }

    /// Starts a turn: unless the connection is closed, asks it for its next packet.
    fn turn(self, conn: &mut quiche::Connection) -> (step: RunStep)
        requires
            self.wf(),
        ensures
            step.wf(),
            turned(self@, *old(conn), step@, *final(conn)),
            self@.input_left is None ==> step@.settled(),
    {
        if transport::conn_is_closed(conn) {
            RunStep::Stop(Exit::Closed)
        } else {
            self.flush(conn)
        }
    }

    /// Reads the stream once, if it has anything; else starts the next turn.
    fn drain(self, conn: &mut quiche::Connection) -> (step: RunStep)
        requires
            self.wf(),
        ensures
            step.wf(),
            drained(self@, *old(conn), step@, *final(conn)),
            self@.input_left is None ==> step@.settled(),
    {
        if !transport::conn_stream_readable(conn, STREAM_ID) {
            return self.turn(conn);
        }
        let mut run = self;
        let result = transport::conn_stream_recv(conn, STREAM_ID, &mut run.buf);
        match result {
            Ok((count, fin)) => {
                let data = buffer::from_slice(slice_subrange(run.buf.as_slice(), 0, count));
                RunStep::Deliver { data, on_taken: AfterDeliver { run, fin } }
            },
            Err(QuicError::Done) => run.turn(conn),
            Err(QuicError::Failed(e)) => RunStep::Stop(Exit::ReadFailed(e)),
        }
    }

    /// Tries the rest of a packet again, if there is one.
    fn retry_input(self, conn: &mut quiche::Connection) -> (out: Result<QuicRun, Exit>)
        requires
            self.wf(),
        ensures
            out matches Ok(run) ==> run.wf() && run@.input_left is None,
            input_retried(self@, *old(conn), run_view(out), *final(conn)),
    {
        let mut run = self;
        match run.input_data.take() {
            None => Ok(run),
            Some(data) => {
                let mut data = data;
                let result = transport::conn_recv(conn, &mut data, run.info);
                run.after_input_retry(data, result)
            },
        }
    }

    /// Tries the rest of the data again, if there is any.
    fn retry_output(self, conn: &mut quiche::Connection) -> (out: Result<QuicRun, Exit>)
        requires
            self.wf(),
        ensures
            out matches Ok(run) ==> run.wf() && run@.input_left == self@.input_left,
            output_retried(self@, *old(conn), run_view(out), *final(conn)),
    {
        let mut run = self;
        match run.output_data.take() {
            None => Ok(run),
            Some(data) => {
                let offer = offer(conn, &data, false);
                run.after_output_retry(data, offer)
            },
        }
    }

    /// Lets the connection act on an event.
    fn apply(self, conn: &mut quiche::Connection, event: Event) -> (out: (
        Result<QuicRun, Exit>,
        Option<Alarm>,
    ))
        requires
            self.wf(),
        ensures
            out.0 matches Ok(run) ==> run.wf() && run@.input_left == self@.input_left,
            event_applied(self@, event@, *old(conn), run_view(out.0), out.1, *final(conn)),
    {
        match event {
            Event::Input(data) => {
                let mut data = data;
                let result = transport::conn_recv(conn, &mut data, self.info);
                (self.after_input(data, result), None)
            },
            Event::Output(data) => {
                let fin = data.is_empty();
                let offer = offer(conn, &data, fin);
                (self.after_output(data, offer), None)
            },
            Event::Timeout => {
                transport::conn_on_timeout(conn);
                let alarm = event::next_alarm(transport::conn_timeout_instant(conn));
                (Ok(self), Some(alarm))
            },
        }
    }
}

/// Sets a connection running: its timer, and its first step. Every packet that it is handed
/// is taken to carry the addresses in `info`.
pub fn quic_run(info: quiche::RecvInfo, conn: &mut quiche::Connection) -> (started: (Alarm, RunStep))
    ensures
        started.0 == event::alarm_for(transport::deadline(*old(conn))),
        turned(
            RunState { info, input_left: None, output_left: None },
            *old(conn),
            started.1@,
            *final(conn),
        ),
        started.1.wf(),
        started.1@.settled(),
{
    let alarm = event::next_alarm(transport::conn_timeout_instant(conn));
    (alarm, QuicRun::new(info).turn(conn))
}

impl AfterTransmit {
    /// What the next step starts from is sound.
    pub closed spec fn wf(self) -> bool {
        self.run.wf()
    }

    /// Goes on after a packet was handed to the socket, or could not be.
    pub fn resume(self, conn: &mut quiche::Connection, sent: bool) -> (step: RunStep)
        requires
            self.wf(),
        ensures
            step.wf(),
            !sent ==> step@ == RunStepView::Stop(Exit::PacketsClosed) && *final(conn) == *old(conn),
            sent ==> flushed(self@, *old(conn), step@, *final(conn)),
            self@.input_left is None ==> step@.settled(),
    {
        if !sent {
            return RunStep::Stop(Exit::PacketsClosed);
        }
        self.run.flush(conn)
    }
}

impl AfterWait {
    /// What the next step starts from is sound.
    pub closed spec fn wf(self) -> bool {
        self.run.wf()
    }

    /// What was waited for.
    pub closed spec fn source(self) -> Source {
        self.source
    }

    /// Goes on after a wait, with what was waited for or the timer. The timer is to be set anew where an alarm comes back.
    pub fn resume(self, conn: &mut quiche::Connection, wake: Wake) -> (next: (
        Option<Alarm>,
        RunStep,
    ))
        requires
            self.wf(),
            answers(self.source(), wake@),
        ensures
            next.1.wf(),
            woken(self@, wake@, *old(conn), next.0, next.1@, *final(conn)),
            next.1@.settled(),
    {
        let event = match event::all_event(wake) {
            Ok(event) => event,
            Err(e) => {
                return (None, RunStep::Stop(Exit::Event(e)));
            },
        };
        let run = match self.run.retry_input(conn) {
            Ok(run) => run,
            Err(exit) => {
                return (None, RunStep::Stop(exit));
            },
        };
        let run = match run.retry_output(conn) {
            Ok(run) => run,
            Err(exit) => {
                return (None, RunStep::Stop(exit));
            },
        };
        let (out, alarm) = run.apply(conn, event);
        let step = match out {
            Ok(run) => run.drain(conn),
            Err(exit) => RunStep::Stop(exit),
        };
        (alarm, step)
    }
}

impl AfterDeliver {
    /// What the next step starts from is sound.
    pub closed spec fn wf(self) -> bool {
        self.run.wf()
    }

    /// Goes on after data was handed to the reader. If the stream ended with it, no data at
    /// all comes next; else the stream is read on.
    pub fn resume(self, conn: &mut quiche::Connection) -> (step: RunStep)
        requires
            self.wf(),
        ensures
            step.wf(),
            self@.1 ==> step@ == (RunStepView::Deliver {
                data: Seq::empty(),
                fin: false,
                state: self@.0,
            }) && *final(conn) == *old(conn),
            !self@.1 ==> drained(self@.0, *old(conn), step@, *final(conn)),
            self@.0.input_left is None ==> step@.settled(),
    {
        if self.fin {
            return RunStep::Deliver {
                data: BytesMut::new(),
                on_taken: AfterDeliver { run: self.run, fin: false },
            };
        }
        self.run.drain(conn)
    }
}

/// More data is asked for only when no earlier data is pending and the handshake is complete;
/// packets are asked for all the time.
pub proof fn law_data_is_asked_for_one_at_a_time(
    state: RunState,
    result: Result<(Seq<u8>, quiche::SendInfo), QuicError>,
    established: bool,
)
    requires
        state.input_left is None,
    ensures
        after_send(state, result, established).settled(),
        after_send(state, result, established) matches RunStepView::Wait { source, .. } ==> (source
            == Source::Both <==> (state.output_left is None && established)) && source
            != Source::Output,
{
}

/// What one wait does for the data: what came of offering the rest, if there was a rest, and
/// the data that arrived, if any did, with what came of offering that.
pub struct WriteTurn {
    pub retried: Offer,
    pub arrived: Option<(Seq<u8>, Offer)>,
}

/// The data that arrived in a turn.
pub open spec fn turn_data(turn: WriteTurn) -> Seq<u8> {
    match turn.arrived {
        Some((data, _)) => data,
        None => Seq::empty(),
    }
}

/// The data that is pending.
pub open spec fn pending_data(state: RunState) -> Seq<u8> {
    match state.output_left {
        Some(rest) => rest,
        None => Seq::empty(),
    }
}

/// The rest is offered to the stream: the state after that, and what the stream took.
pub open spec fn rest_offered(state: RunState, offer: Offer) -> (RunState, Seq<u8>) {
    match state.output_left {
        Some(rest) => (after_output_retry(state, rest, offer)->Ok_0, took(rest, offer)),
        None => (state, Seq::empty()),
    }
}

/// The data that arrived is offered to the stream: the state after that, and what the stream
/// took.
pub open spec fn arrived_offered(state: RunState, arrived: Option<(Seq<u8>, Offer)>) -> (
    RunState,
    Seq<u8>,
) {
    match arrived {
        Some((data, offer)) => (after_output(state, data, offer)->Ok_0, took(data, offer)),
        None => (state, Seq::empty()),
    }
}

/// One turn: the state after it, and what the stream took.
pub open spec fn turn_made(state: RunState, turn: WriteTurn) -> (RunState, Seq<u8>) {
    let (mid, first) = rest_offered(state, turn.retried);
    let (after, second) = arrived_offered(mid, turn.arrived);
    (after, first + second)
}

/// Turn after turn: the state in the end, all that the stream took, and all that arrived.
pub open spec fn write_run(state: RunState, turns: Seq<WriteTurn>) -> (RunState, Seq<u8>, Seq<u8>)
    decreases turns.len(),
{
    if turns.len() == 0 {
        (state, Seq::empty(), Seq::empty())
    } else {
        let (before, taken, data) = write_run(state, turns.drop_last());
        let (after, more) = turn_made(before, turns.last());
        (after, taken + more, data + turn_data(turns.last()))
    }
}

/// The stream took some of the data, all or none of it, and the connection did not refuse.
pub open spec fn answered(data: Seq<u8>, offer: Offer) -> bool {
    fits(data, offer) && !(offer is Failed)
}

/// Data was offered to a stream that takes no more ever.
pub open spec fn wasted(data: Seq<u8>, offer: Offer) -> bool {
    offer is Gone && data.len() > 0
}

/// The connection refused nothing in a turn, and data arrived only if none was pending.
pub open spec fn turn_fits(state: RunState, turn: WriteTurn) -> bool {
    &&& state.output_left matches Some(rest) ==> answered(rest, turn.retried)
    &&& turn.arrived matches Some((data, offer)) ==> answered(data, offer)
        && state.output_left is None
}

/// In a turn, data was offered to a stream that takes no more ever.
pub open spec fn turn_wastes(state: RunState, turn: WriteTurn) -> bool {
    ||| state.output_left matches Some(rest) && wasted(rest, turn.retried)
    ||| turn.arrived matches Some((data, offer)) && wasted(data, offer)
}

/// In every turn the connection refused nothing, data arrived only if none was pending, and the
/// stream was still there for it.
pub open spec fn turns_fit(state: RunState, turns: Seq<WriteTurn>) -> bool
    decreases turns.len(),
{
    turns.len() == 0 || {
        let before = write_run(state, turns.drop_last()).0;
        &&& turns_fit(state, turns.drop_last())
        &&& turn_fits(before, turns.last())
        &&& !turn_wastes(before, turns.last())
    }
}

/// In one turn nothing is lost, repeated or moved, whether the stream takes all of the data,
/// some or, for now, none: what it took, followed by what is pending then, is what was pending,
/// followed by what arrived. Only a stream that takes no more data ever loses any.
pub proof fn law_a_turn_keeps_the_data(state: RunState, turn: WriteTurn)
    requires
        turn_fits(state, turn),
        !turn_wastes(state, turn),
    ensures
        turn_made(state, turn).1 + pending_data(turn_made(state, turn).0) == pending_data(state)
            + turn_data(turn),
        turn_made(state, turn).0.input_left == state.input_left,
{
    let (mid, first) = rest_offered(state, turn.retried);
    let (after, second) = arrived_offered(mid, turn.arrived);
    assert(first + pending_data(mid) =~= pending_data(state));
    assert(second + pending_data(after) =~= pending_data(mid) + turn_data(turn));
    assert(first + second + pending_data(after) =~= first + (second + pending_data(after)));
}

/// However the stream takes the data piece by piece, or takes none for a while, nothing is
/// lost, repeated or moved for as long as it is there: at any moment, all that it took, followed
/// by what is pending, is what was pending at first, followed by all that arrived.
pub proof fn law_stream_gets_the_data_in_order(state: RunState, turns: Seq<WriteTurn>)
    requires
        turns_fit(state, turns),
    ensures
        write_run(state, turns).1 + pending_data(write_run(state, turns).0) == pending_data(state)
            + write_run(state, turns).2,
        write_run(state, turns).0.input_left == state.input_left,
    decreases turns.len(),
{
    if turns.len() > 0 {
        law_stream_gets_the_data_in_order(state, turns.drop_last());
        let (before, taken, data) = write_run(state, turns.drop_last());
        let (after, more) = turn_made(before, turns.last());
        law_a_turn_keeps_the_data(before, turns.last());
        assert(taken + more + pending_data(after) =~= taken + (more + pending_data(after)));
    }
}

/// A stream that takes no more data holds nothing up: nothing is pending after data was offered
/// to it, so that more data, or the end of it, is waited for once the handshake is complete.
pub proof fn law_a_gone_stream_holds_nothing_up(
    state: RunState,
    data: Seq<u8>,
    retry: bool,
    result: Result<(Seq<u8>, quiche::SendInfo), QuicError>,
)
    requires
        state.input_left is None,
        !retry ==> state.output_left is None,
    ensures
        ({
            let next = if retry {
                after_output_retry(state, data, Offer::Gone)
            } else {
                after_output(state, data, Offer::Gone)
            };
            &&& next == Ok::<RunState, Exit>(RunState { output_left: None, ..state })
            &&& after_send(next->Ok_0, result, true) matches RunStepView::Wait { source, .. }
                ==> source == Source::Both
        }),
{
}

/// The data that a wait ended with, if it did.
pub open spec fn wake_data(wake: WakeView) -> Option<Seq<u8>> {
    match wake {
        WakeView::Output(data) => data,
        _ => None,
    }
}

/// The calls behind a turn: the rest is offered first, if there is one, without an end mark;
/// then the data that arrived, if any did.
pub open spec fn turn_recorded(
    state: RunState,
    wake: WakeView,
    turn: WriteTurn,
    first: quiche::Connection,
    mid: quiche::Connection,
    last: quiche::Connection,
) -> bool {
    &&& match state.output_left {
        Some(rest) => offer_made(first, rest, false, turn.retried, mid),
        None => mid == first,
    }
    &&& match wake_data(wake) {
        Some(data) => turn.arrived matches Some((d, offer)) && d == data && offer_made(
            mid,
            data,
            data.len() == 0,
            offer,
            last,
        ),
        None => turn.arrived is None,
    }
}

/// A step after a wait that does not end the connection is a turn, made of calls on the stream.
/// As long as the stream is there for the data, what it took in the turn, followed by what is
/// pending then, is what was pending, followed by the data that the wait brought.
pub proof fn law_a_step_keeps_the_data(
    state: RunState,
    source: Source,
    wake: WakeView,
    before: quiche::Connection,
    alarm: Option<Alarm>,
    step: RunStepView,
    after: quiche::Connection,
)
    requires
        (RunStepView::Wait { source, state }).settled(),
        answers(source, wake),
        woken(state, wake, before, alarm, step, after),
        step.state() is Some,
    ensures
        exists|
            turn: WriteTurn,
            first: quiche::Connection,
            mid: quiche::Connection,
            last: quiche::Connection,
        | #[trigger]
            turn_recorded(state, wake, turn, first, mid, last) && {
                &&& turn_fits(state, turn)
                &&& step.state()->0.output_left == turn_made(state, turn).0.output_left
                &&& turn_wastes(state, turn) || turn_made(state, turn).1 + pending_data(
                    step.state()->0,
                ) == pending_data(state) + turn_data(turn)
            },
{
    let event = event::event_of(wake)->Ok_0;
    let (out1, c1) = choose|out: Result<RunState, Exit>, mid: quiche::Connection| #[trigger]
        input_retried(state, before, out, mid) && match out {
            Ok(next) => output_stage(next, event, mid, alarm, step, after),
            Err(exit) => step == RunStepView::Stop(exit) && after == mid && alarm is None,
        };
    let s1 = out1->Ok_0;
    assert(s1.output_left == state.output_left);
    let (out2, c2) = choose|out: Result<RunState, Exit>, mid: quiche::Connection| #[trigger]
        output_retried(s1, c1, out, mid) && match out {
            Ok(next) => event_stage(next, event, mid, alarm, step, after),
            Err(exit) => step == RunStepView::Stop(exit) && after == mid && alarm is None,
        };
    let s2 = out2->Ok_0;
    let (out3, c3) = choose|out: Result<RunState, Exit>, mid: quiche::Connection| #[trigger]
        event_applied(s2, event, c2, out, alarm, mid) && match out {
            Ok(next) => drained(next, mid, step, after),
            Err(exit) => step == RunStepView::Stop(exit) && after == mid,
        };
    let s3 = out3->Ok_0;
    let retried = match s1.output_left {
        Some(rest) => choose|offer: Offer| #[trigger]
            offer_made(c1, rest, false, offer, c2) && out2 == after_output_retry(s1, rest, offer),
        None => Offer::Blocked,
    };
    let arrived = match wake_data(wake) {
        Some(data) => {
            let (fin, offer) = choose|fin: bool, offer: Offer| #[trigger]
                offer_made(c2, data, fin, offer, c3) && fin == (data.len() == 0) && out3
                    == after_output(s2, data, offer);
            Some((data, offer))
        },
        None => None,
    };
    let turn = WriteTurn { retried, arrived };
    law_other_steps_keep_what_is_pending(s3, c3, step, after);
    if !turn_wastes(state, turn) {
        law_a_turn_keeps_the_data(state, turn);
    }
    assert(turn_recorded(state, wake, turn, c1, c2, c3));
}

/// Reading the stream and asking for packets leave what is pending as it is.
pub proof fn law_other_steps_keep_what_is_pending(
    state: RunState,
    before: quiche::Connection,
    step: RunStepView,
    after: quiche::Connection,
)
    requires
        flushed(state, before, step, after) || turned(state, before, step, after) || drained(
            state,
            before,
            step,
            after,
        ),
    ensures
        step.state() matches Some(next) ==> next == state,
{
}

/// Bytes that a writer handed over chunk by chunk, to a stream that was there for them, have all
/// been taken by it, in order, once nothing is pending.
pub proof fn law_written_bytes_reach_the_stream(
    state: RunState,
    turns: Seq<WriteTurn>,
    bytes: Seq<u8>,
)
    requires
        turns_fit(state, turns),
        state.output_left is None,
        write_run(state, turns).2 == stream::chunks(bytes).flatten(),
        write_run(state, turns).0.output_left is None,
    ensures
        write_run(state, turns).1 == bytes,
{
    law_stream_gets_the_data_in_order(state, turns);
    stream::law_writes_hand_over_everything(bytes);
    assert(write_run(state, turns).1 =~= bytes);
}

/// The stream is ended by an empty write, and by no other.
pub proof fn law_only_an_empty_write_ends_the_stream(
    state: RunState,
    bytes: Seq<u8>,
    before: quiche::Connection,
    out: Result<RunState, Exit>,
    after: quiche::Connection,
)
    requires
        output_sent(state, stream::write_chunk(bytes), before, out, after),
    ensures
        exists|fin: bool, result: Result<usize, QuicError>| #[trigger]
            transport::stream_send_call(
                before,
                STREAM_ID,
                stream::write_chunk(bytes),
                fin,
                result,
                after,
            ) && fin == (bytes.len() == 0),
{
}

/// Running a connection is an error only if a channel was closed.
pub proof fn law_only_closed_channels_are_errors(
    state: RunState,
    wake: WakeView,
    before: quiche::Connection,
    alarm: Option<Alarm>,
    exit: Exit,
    after: quiche::Connection,
)
    requires
        woken(state, wake, before, alarm, RunStepView::Stop(exit), after),
    ensures
        exit.spec_result() is Err <==> event::event_of(wake) is Err,
        exit.spec_result() matches Err(e) ==> e == event::event_of(wake)->Err_0,
{
}

/// The timer is set anew only after it went off.
pub proof fn law_only_the_timer_sets_the_timer(
    state: RunState,
    wake: WakeView,
    before: quiche::Connection,
    alarm: Option<Alarm>,
    step: RunStepView,
    after: quiche::Connection,
)
    requires
        woken(state, wake, before, alarm, step, after),
        alarm is Some,
    ensures
        wake is Timer,
{
}

} // verus!
