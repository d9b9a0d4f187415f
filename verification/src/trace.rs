//! What the calls on a connection add up to.
//!
//! The steps of a connection are made of calls on it. Here is what goes into those calls and
//! comes out of them, held against what goes into the steps and comes out of them: over any
//! number of steps nothing is lost on the way between the network, the connection, its reader
//! and its writer.

use crate::buffer;
use crate::error::{QuicError, StreamError};
use crate::event::{self, Alarm, Event, EventView, Wake, WakeView};
use crate::run::{self, Exit, RunState, RunStep, RunStepView, Source};
use crate::transport;
use vstd::prelude::*;

verus! {

/// One call on a connection: what it was given, and what it answered.
pub enum Call {
    /// A datagram was handed in.
    Recv {
        datagram: Seq<u8>,
        info: quiche::RecvInfo,
        heard: Result<usize, QuicError>,
        scratch: Seq<u8>,
    },
    /// Data was offered to the stream.
    StreamSend { data: Seq<u8>, fin: bool, answer: Result<usize, QuicError> },
    /// A timeout was told.
    OnTimeout,
    /// The stream was read.
    StreamRecv { read: Result<(Seq<u8>, bool), QuicError> },
    /// A packet was asked for.
    Send { made: Result<(Seq<u8>, quiche::SendInfo), QuicError> },
}

/// A call, with the connection before and after it.
pub struct Moment {
    pub call: Call,
    pub before: quiche::Connection,
    pub after: quiche::Connection,
}

/// The call took place.
pub open spec fn took_place(m: Moment) -> bool {
    match m.call {
        Call::Recv { datagram, info, heard, scratch } => transport::recv_call(
            m.before,
            datagram,
            info,
            heard,
            scratch,
            m.after,
        ),
        Call::StreamSend { data, fin, answer } => transport::stream_send_call(
            m.before,
            0,
            data,
            fin,
            answer,
            m.after,
        ) && (answer matches Ok(count) ==> count <= data.len()),
        Call::OnTimeout => transport::on_timeout_call(m.before, m.after),
        Call::StreamRecv { read } => transport::stream_recv_call(
            m.before,
            0,
            65536,
            read,
            m.after,
        ),
        Call::Send { made } => transport::send_call(m.before, 65536, made, m.after),
    }
}

/// These calls, one after the other, lead from one state of a connection to another.
pub open spec fn leads(
    trace: Seq<Moment>,
    before: quiche::Connection,
    after: quiche::Connection,
) -> bool
    decreases trace.len(),
{
    if trace.len() == 0 {
        before == after
    } else {
        &&& took_place(trace.last())
        &&& trace.last().after == after
        &&& leads(trace.drop_last(), before, trace.last().before)
    }
}

/// What some calls add up to.
#[verifier::ext_equal]
pub struct Totals {
    /// The bytes that the stream took.
    pub taken: Seq<u8>,
    /// The data that the stream was offered, with its end marks.
    pub offers: Seq<(Seq<u8>, bool)>,
    /// The datagrams that were handed in, with their addresses.
    pub heard: Seq<(Seq<u8>, quiche::RecvInfo)>,
    /// The data that was read, with its end marks.
    pub reads: Seq<(Seq<u8>, bool)>,
    /// The packets that were made, with where they are to go.
    pub packets: Seq<(Seq<u8>, quiche::SendInfo)>,
    /// How often a timeout was told.
    pub timeouts: nat,
}

/// Nothing at all.
pub open spec fn nothing() -> Totals {
    Totals {
        taken: Seq::empty(),
        offers: Seq::empty(),
        heard: Seq::empty(),
        reads: Seq::empty(),
        packets: Seq::empty(),
        timeouts: 0,
    }
}

/// What one call adds.
pub open spec fn total_of(call: Call) -> Totals {
    match call {
        Call::Recv { datagram, info, .. } => Totals { heard: seq![(datagram, info)], ..nothing() },
        Call::StreamSend { data, fin, answer } => Totals {
            taken: match answer {
                Ok(count) => data.take(count as int),
                Err(_) => Seq::empty(),
            },
            offers: seq![(data, fin)],
            ..nothing()
        },
        Call::OnTimeout => Totals { timeouts: 1, ..nothing() },
        Call::StreamRecv { read } => match read {
            Ok(r) => Totals { reads: seq![r], ..nothing() },
            Err(_) => nothing(),
        },
        Call::Send { made } => match made {
            Ok(p) => Totals { packets: seq![p], ..nothing() },
            Err(_) => nothing(),
        },
    }
}

/// Two of them together, in order.
pub open spec fn plus(a: Totals, b: Totals) -> Totals {
    Totals {
        taken: a.taken + b.taken,
        offers: a.offers + b.offers,
        heard: a.heard + b.heard,
        reads: a.reads + b.reads,
        packets: a.packets + b.packets,
        timeouts: a.timeouts + b.timeouts,
    }
}

/// What all the calls add up to.
pub open spec fn totals(trace: Seq<Moment>) -> Totals
    decreases trace.len(),
{
    if trace.len() == 0 {
        nothing()
    } else {
        plus(totals(trace.drop_last()), total_of(trace.last().call))
    }
}

/// Data was offered to a stream that had no room and takes no more ever.
pub open spec fn wasted(m: Moment) -> bool {
    m.call matches Call::StreamSend { data, answer, .. } && data.len() > 0 && answer == Err::<
        usize,
        QuicError,
    >(QuicError::Done) && transport::capacity(m.after, 0) is Err
}

/// The stream was there for all the data that it was offered.
pub open spec fn lasting(trace: Seq<Moment>) -> bool {
    forall|i: int| 0 <= i < trace.len() ==> !wasted(#[trigger] trace[i])
}

/// The call failed in a way that the connection does not outlive.
pub open spec fn fatal(call: Call) -> bool {
    match call {
        Call::Recv { heard, .. } => heard is Err,
        Call::StreamSend { answer, .. } => answer matches Err(e) && e != QuicError::Done,
        Call::OnTimeout => false,
        Call::StreamRecv { read } => read matches Err(e) && e != QuicError::Done,
        Call::Send { made } => made matches Err(e) && e != QuicError::Done,
    }
}

/// What a step is handed: whether a packet could be handed to the socket, what a wait came back
/// with, or that data was handed to the reader.
pub enum Answer {
    Sent(bool),
    Woke(WakeView),
    Taken,
}

/// One step of a running connection, from what the step before it ended with to what it ends
/// with itself.
pub struct Transition {
    pub from: RunStepView,
    pub answer: Answer,
    pub before: quiche::Connection,
    pub alarm: Option<Alarm>,
    pub to: RunStepView,
    pub after: quiche::Connection,
}

/// The step is one that a running connection makes.
pub open spec fn follows(t: Transition) -> bool {
    &&& t.from.settled()
    &&& t.to.settled()
    &&& match (t.from, t.answer) {
        (RunStepView::Transmit { state, .. }, Answer::Sent(sent)) => t.alarm is None && if sent {
            run::flushed(state, t.before, t.to, t.after)
        } else {
            t.to == RunStepView::Stop(Exit::PacketsClosed) && t.after == t.before
        },
        (RunStepView::Wait { source, state }, Answer::Woke(wake)) => run::answers(source, wake)
            && run::woken(state, wake, t.before, t.alarm, t.to, t.after),
        (RunStepView::Deliver { fin, state, .. }, Answer::Taken) => t.alarm is None && if fin {
            t.to == (RunStepView::Deliver { data: Seq::empty(), fin: false, state }) && t.after
                == t.before
        } else {
            run::drained(state, t.before, t.to, t.after)
        },
        _ => false,
    }
}

/// The data that is kept for the stream where a step ends.
pub open spec fn pending(step: RunStepView) -> Seq<u8> {
    match step.state() {
        Some(state) => match state.output_left {
            Some(rest) => rest,
            None => Seq::empty(),
        },
        None => Seq::empty(),
    }
}

/// What is kept for the stream is more than nothing.
pub open spec fn holds_something(step: RunStepView) -> bool {
    step.state() matches Some(state) ==> (state.output_left matches Some(rest) ==> rest.len() > 0)
}

/// The data for the stream that a step is handed.
pub open spec fn brought(answer: Answer) -> Seq<u8> {
    match answer {
        Answer::Woke(WakeView::Output(Some(data))) => data,
        _ => Seq::empty(),
    }
}

/// The datagrams that a step is handed.
pub open spec fn datagrams(answer: Answer) -> Seq<Seq<u8>> {
    match answer {
        Answer::Woke(WakeView::Input(Some(datagram))) => seq![datagram],
        _ => Seq::empty(),
    }
}

/// The packets that a step ends with.
pub open spec fn transmitted(step: RunStepView) -> Seq<(Seq<u8>, quiche::SendInfo)> {
    match step {
        RunStepView::Transmit { packet, info, .. } => seq![(packet, info)],
        _ => Seq::empty(),
    }
}

/// The data for the reader that a step ends with.
pub open spec fn delivered(step: RunStepView) -> Seq<Seq<u8>> {
    match step {
        RunStepView::Deliver { data, .. } => seq![data],
        _ => Seq::empty(),
    }
}

/// The end of the stream, where the reader has yet to be told of it.
pub open spec fn owed(step: RunStepView) -> Seq<Seq<u8>> {
    match step {
        RunStepView::Deliver { fin: true, .. } => seq![Seq::empty()],
        _ => Seq::empty(),
    }
}

/// What a reader is to get of what was read: the data, and behind the last of it no data at all.
pub open spec fn for_reader(reads: Seq<(Seq<u8>, bool)>) -> Seq<Seq<u8>>
    decreases reads.len(),
{
    if reads.len() == 0 {
        Seq::empty()
    } else {
        let (data, fin) = reads.last();
        for_reader(reads.drop_last()).push(data) + if fin {
            seq![Seq::empty()]
        } else {
            Seq::empty()
        }
    }
}

/// The datagrams that were handed in, without their addresses.
pub open spec fn only_datagrams(heard: Seq<(Seq<u8>, quiche::RecvInfo)>) -> Seq<Seq<u8>> {
    Seq::new(heard.len(), |i: int| heard[i].0)
}

/// Why a step ended the connection: the call that it made last, or what it was handed.
pub open spec fn justified(t: Transition, exit: Exit, trace: Seq<Moment>) -> bool {
    match exit {
        Exit::Closed => transport::closed(t.after),
        Exit::PacketsClosed => t.answer == Answer::Sent(false) && trace.len() == 0,
        Exit::SendFailed(e) => trace.len() > 0 && (trace.last().call matches Call::Send { made }
            && made == Err::<(Seq<u8>, quiche::SendInfo), QuicError>(QuicError::Failed(e))),
        Exit::InputRetryFailed(_) => false,
        Exit::OutputRetryFailed(e) => trace.len() > 0 && (trace.last().call matches Call::StreamSend {
            data,
            answer,
            ..
        } && data == pending(t.from) && answer == Err::<usize, QuicError>(QuicError::Failed(e))),
        Exit::InputFailed(e) => trace.len() > 0 && (trace.last().call matches Call::Recv { heard, .. }
            && heard == Err::<usize, QuicError>(e)),
        Exit::OutputFailed(e) => trace.len() > 0 && (trace.last().call matches Call::StreamSend {
            data,
            answer,
            ..
        } && data == brought(t.answer) && answer == Err::<usize, QuicError>(QuicError::Failed(e))),
        Exit::ReadFailed(e) => trace.len() > 0 && (trace.last().call matches Call::StreamRecv { read }
            && read == Err::<(Seq<u8>, bool), QuicError>(QuicError::Failed(e))),
        Exit::Event(e) => trace.len() == 0 && {
            ||| t.answer == Answer::Woke(WakeView::Input(None)) && e == StreamError::InputClosed
            ||| t.answer == Answer::Woke(WakeView::Output(None)) && e == StreamError::OutputClosed
        },
    }
}

/// The stream had nothing to read, or said so when it was read, before a packet was asked for;
/// and the connection was not closed then.
pub open spec fn read_out(trace: Seq<Moment>) -> bool {
    let n = trace.len() as int;
    trace.last().call is Send ==> {
        &&& !transport::closed(trace.last().before)
        &&& !transport::readable(trace.last().before, 0) || (n > 1 && trace[n - 2].call
            == (Call::StreamRecv { read: Err(QuicError::Done) }))
    }
}

/// What a step that does not end the connection was handed, held against the calls that it made.
pub open spec fn goes_on(t: Transition, trace: Seq<Moment>) -> bool {
    let sum = totals(trace);
    // Every datagram that arrived is handed in, as it arrived.
    &&& only_datagrams(sum.heard) == datagrams(t.answer)
    &&& forall|i: int|
        0 <= i < sum.heard.len() ==> (#[trigger] sum.heard[i]).1 == t.from.state()->0.info
    &&& t.to.state()->0.info == t.from.state()->0.info
    // The stream is offered what is pending, then what arrived; only no data at all ends it.
    &&& t.from is Wait ==> sum.offers == (match t.from.state()->0.output_left {
        Some(rest) => seq![(rest, false)],
        None => Seq::empty(),
    }) + (if t.answer matches Answer::Woke(WakeView::Output(Some(data))) {
        seq![(brought(t.answer), brought(t.answer).len() == 0)]
    } else {
        Seq::empty()
    })
    &&& !(t.from is Wait) ==> sum.offers.len() == 0
    // The stream gets its data without a gap.
    &&& lasting(trace) ==> sum.taken + pending(t.to) == pending(t.from) + brought(t.answer)
    &&& !lasting(trace) ==> t.to.state()->0.output_left is None
    &&& holds_something(t.from) ==> holds_something(t.to)
    // A timeout is told, and the timer set anew, when the timer went off.
    &&& sum.timeouts == if t.answer == Answer::Woke(WakeView::Timer) {
        1nat
    } else {
        0
    }
    &&& t.answer == Answer::Woke(WakeView::Timer) ==> exists|i: int|
        0 <= i < trace.len() && (#[trigger] trace[i]).call is OnTimeout && t.alarm == Some(
            match transport::deadline(trace[i].after) {
                Some(at) => Alarm::At(at),
                None => Alarm::After(10),
            },
        )
    &&& t.answer != Answer::Woke(WakeView::Timer) ==> t.alarm is None
}

/// What a step comes to, held against the calls that it made.
pub open spec fn accounts(t: Transition, trace: Seq<Moment>) -> bool {
    let sum = totals(trace);
    // The calls are all there is between the connection before the step and after it.
    &&& leads(trace, t.before, t.after)
    // Every packet that was made goes out, as it was made, and nothing else does.
    &&& transmitted(t.to) == sum.packets
    // The reader gets what was read, as it was read, and is told the end.
    &&& delivered(t.to) + owed(t.to) == owed(t.from) + for_reader(sum.reads)
    // A step that ends the connection has a reason; one that does not has none.
    &&& t.to matches RunStepView::Stop(exit) ==> justified(t, exit, trace)
    &&& !(t.to is Stop) ==> forall|i: int|
        0 <= i < trace.len() ==> !fatal((#[trigger] trace[i]).call)
    // The connection is left to wait only where it had no packet.
    &&& t.to is Wait ==> trace.len() > 0 && trace.last().call == (Call::Send {
        made: Err(QuicError::Done),
    })
    // It is asked for a packet only when the stream was read to its end.
    &&& !(t.from is Transmit) && trace.len() > 0 ==> read_out(trace)
    &&& !(t.to is Stop) ==> goes_on(t, trace)
    // More data is asked for once none is pending and the handshake is complete.
    &&& t.to matches RunStepView::Wait { source, state } ==> source == if state.output_left
        is None && transport::established(t.after) {
        Source::Both
    } else {
        Source::Input
    }
}

/// Calls that lead from one place to another, and calls that lead on from there, lead all the
/// way.
proof fn lemma_leads_on(
    first: Seq<Moment>,
    second: Seq<Moment>,
    before: quiche::Connection,
    mid: quiche::Connection,
    after: quiche::Connection,
)
    requires
        leads(first, before, mid),
        leads(second, mid, after),
    ensures
        leads(first + second, before, after),
    decreases second.len(),
{
    if second.len() == 0 {
        assert(first + second =~= first);
    } else {
        lemma_leads_on(first, second.drop_last(), before, mid, second.last().before);
        assert((first + second).drop_last() =~= first + second.drop_last());
    }
}

/// What calls add up to is what the first of them and the others add up to.
proof fn lemma_totals_add(first: Seq<Moment>, second: Seq<Moment>)
    ensures
        totals(first + second) == plus(totals(first), totals(second)),
    decreases second.len(),
{
    if second.len() == 0 {
        assert(first + second =~= first);
        assert(plus(totals(first), nothing()) =~= totals(first));
    } else {
        lemma_totals_add(first, second.drop_last());
        assert((first + second).drop_last() =~= first + second.drop_last());
        assert(plus(
            plus(totals(first), totals(second.drop_last())),
            total_of(second.last().call),
        ) =~= plus(totals(first), totals(second)));
    }
}

/// One call.
proof fn lemma_single(m: Moment)
    requires
        took_place(m),
    ensures
        leads(seq![m], m.before, m.after),
        totals(seq![m]) == total_of(m.call),
{
    assert(seq![m].drop_last() =~= Seq::empty());
    assert(leads(Seq::empty(), m.before, m.before));
    assert(totals(seq![m].drop_last()) == nothing());
    assert(plus(nothing(), total_of(m.call)) =~= total_of(m.call));
}

/// A packet that the connection makes goes out as it was made, to where it is to go, and the
/// connection waits only where it had none.
pub proof fn law_every_packet_goes_out(
    state: RunState,
    before: quiche::Connection,
    step: RunStepView,
    after: quiche::Connection,
)
    requires
        run::flushed(state, before, step, after),
    ensures
        exists|made: Result<(Seq<u8>, quiche::SendInfo), QuicError>| #[trigger]
            transport::send_call(before, 65536, made, after) && match made {
                Ok((packet, info)) => step == (RunStepView::Transmit { packet, info, state }),
                Err(QuicError::Done) => step matches RunStepView::Wait { state: kept, .. } && kept
                    == state,
                Err(QuicError::Failed(e)) => step == RunStepView::Stop(Exit::SendFailed(e)),
            },
        step matches RunStepView::Wait { source, .. } ==> source == if state.input_left is Some {
            Source::Output
        } else if state.output_left is None && transport::established(after) {
            Source::Both
        } else {
            Source::Input
        },
{
}

/// The call behind [`law_every_packet_goes_out`].
proof fn lemma_flush(
    state: RunState,
    before: quiche::Connection,
    step: RunStepView,
    after: quiche::Connection,
) -> (m: Moment)
    requires
        run::flushed(state, before, step, after),
    ensures
        took_place(m),
        m.before == before,
        m.after == after,
        m.call matches Call::Send { made } && match made {
            Ok((packet, info)) => step == (RunStepView::Transmit { packet, info, state }),
            Err(QuicError::Done) => step matches RunStepView::Wait { state: kept, .. } && kept
                == state,
            Err(QuicError::Failed(e)) => step == RunStepView::Stop(Exit::SendFailed(e)),
        },
{
    law_every_packet_goes_out(state, before, step, after);
    let made = choose|made: Result<(Seq<u8>, quiche::SendInfo), QuicError>| #[trigger]
        transport::send_call(before, 65536, made, after) && match made {
            Ok((packet, info)) => step == (RunStepView::Transmit { packet, info, state }),
            Err(QuicError::Done) => step matches RunStepView::Wait { state: kept, .. } && kept
                == state,
            Err(QuicError::Failed(e)) => step == RunStepView::Stop(Exit::SendFailed(e)),
        };
    Moment { call: Call::Send { made }, before, after }
}

/// A turn of a connection that is closed ends it; any other asks for a packet.
pub proof fn law_a_closed_connection_stops(
    state: RunState,
    before: quiche::Connection,
    step: RunStepView,
    after: quiche::Connection,
)
    requires
        run::turned(state, before, step, after),
    ensures
        transport::closed(before) <==> step == RunStepView::Stop(Exit::Closed),
        transport::closed(before) ==> after == before,
        !transport::closed(before) ==> run::flushed(state, before, step, after),
{
    if !transport::closed(before) {
        let m = lemma_flush(state, before, step, after);
    }
}

/// What is read from the stream is handed to the reader as it was read, with its end mark. The
/// stream is read wherever it has anything, and read out before a packet is asked for.
pub proof fn law_every_read_is_delivered(
    state: RunState,
    before: quiche::Connection,
    step: RunStepView,
    after: quiche::Connection,
)
    requires
        run::drained(state, before, step, after),
    ensures
        !transport::readable(before, 0) ==> !(step is Deliver) && run::turned(
            state,
            before,
            step,
            after,
        ),
        transport::readable(before, 0) ==> exists|
            read: Result<(Seq<u8>, bool), QuicError>,
            mid: quiche::Connection,
        | #[trigger]
            transport::stream_recv_call(before, 0, 65536, read, mid) && match read {
                Ok((data, fin)) => step == (RunStepView::Deliver { data, fin, state }) && after
                    == mid,
                Err(QuicError::Done) => !(step is Deliver) && run::turned(state, mid, step, after),
                Err(QuicError::Failed(e)) => step == RunStepView::Stop(Exit::ReadFailed(e)) && after
                    == mid,
            },
{
    if !transport::readable(before, 0) {
        lemma_turn(state, before, step, after);
    } else {
        let (read, mid) = choose|
            read: Result<(Seq<u8>, bool), QuicError>,
            mid: quiche::Connection,
        | #[trigger]
            transport::stream_recv_call(before, 0, 65536, read, mid) && match read {
                Ok((data, fin)) => step == (RunStepView::Deliver { data, fin, state }) && after
                    == mid,
                Err(QuicError::Done) => run::turned(state, mid, step, after),
                Err(QuicError::Failed(e)) => step == RunStepView::Stop(Exit::ReadFailed(e)) && after
                    == mid,
            };
        if read == Err::<(Seq<u8>, bool), QuicError>(QuicError::Done) {
            lemma_turn(state, mid, step, after);
        }
        assert(transport::stream_recv_call(before, 0, 65536, read, mid));
    }
}

/// The calls of a turn: one for a packet, unless the connection is closed.
proof fn lemma_turn(
    state: RunState,
    before: quiche::Connection,
    step: RunStepView,
    after: quiche::Connection,
) -> (trace: Seq<Moment>)
    requires
        run::turned(state, before, step, after),
    ensures
        leads(trace, before, after),
        trace.len() == 0 ==> transport::closed(before) && step == RunStepView::Stop(Exit::Closed),
        trace.len() > 0 ==> {
            &&& !transport::closed(before)
            &&& trace.len() == 1
            &&& totals(trace) == total_of(trace[0].call)
            &&& trace[0].before == before
            &&& trace[0].call matches Call::Send { made } && match made {
                Ok((packet, info)) => step == (RunStepView::Transmit { packet, info, state }),
                Err(QuicError::Done) => step matches RunStepView::Wait { state: kept, .. } && kept
                    == state,
                Err(QuicError::Failed(e)) => step == RunStepView::Stop(Exit::SendFailed(e)),
            }
        },
{
    if transport::closed(before) {
        Seq::empty()
    } else {
        let m = lemma_flush(state, before, step, after);
        lemma_single(m);
        seq![m]
    }
}

/// The calls that read the stream, and ask for a packet where there was nothing to read.
proof fn lemma_drain(
    state: RunState,
    before: quiche::Connection,
    step: RunStepView,
    after: quiche::Connection,
) -> (trace: Seq<Moment>)
    requires
        run::drained(state, before, step, after),
    ensures
        leads(trace, before, after),
        totals(trace).packets == transmitted(step),
        for_reader(totals(trace).reads) == delivered(step) + owed(step),
        totals(trace) == (Totals {
            packets: totals(trace).packets,
            reads: totals(trace).reads,
            ..nothing()
        }),
        forall|i: int| 0 <= i < trace.len() ==> !wasted(#[trigger] trace[i]),
        step.state() matches Some(kept) ==> kept == state,
        !(step is Stop) ==> forall|i: int|
            0 <= i < trace.len() ==> !fatal((#[trigger] trace[i]).call),
        step matches RunStepView::Stop(exit) ==> match exit {
            Exit::Closed => transport::closed(after),
            Exit::SendFailed(e) => trace.len() > 0 && trace.last().call == (Call::Send {
                made: Err(QuicError::Failed(e)),
            }),
            Exit::ReadFailed(e) => trace.len() > 0 && trace.last().call == (Call::StreamRecv {
                read: Err(QuicError::Failed(e)),
            }),
            _ => false,
        },
        step is Wait ==> trace.len() > 0 && trace.last().call == (Call::Send {
            made: Err(QuicError::Done),
        }),
        trace.len() > 0 ==> read_out(trace),
{
    law_every_read_is_delivered(state, before, step, after);
    reveal_with_fuel(for_reader, 2);
    if !transport::readable(before, 0) {
        let trace = lemma_turn(state, before, step, after);
        assert(for_reader(Seq::empty()) =~= Seq::empty());
        assert(delivered(step) + owed(step) =~= Seq::empty());
        trace
    } else {
        let (read, mid) = choose|
            read: Result<(Seq<u8>, bool), QuicError>,
            mid: quiche::Connection,
        | #[trigger]
            transport::stream_recv_call(before, 0, 65536, read, mid) && match read {
                Ok((data, fin)) => step == (RunStepView::Deliver { data, fin, state }) && after
                    == mid,
                Err(QuicError::Done) => !(step is Deliver) && run::turned(state, mid, step, after),
                Err(QuicError::Failed(e)) => step == RunStepView::Stop(Exit::ReadFailed(e)) && after
                    == mid,
            };
        let m = Moment { call: Call::StreamRecv { read }, before, after: mid };
        lemma_single(m);
        if read == Err::<(Seq<u8>, bool), QuicError>(QuicError::Done) {
            let rest = lemma_turn(state, mid, step, after);
            lemma_leads_on(seq![m], rest, before, mid, after);
            lemma_totals_add(seq![m], rest);
            assert(totals(seq![m] + rest) =~= totals(rest));
            assert(for_reader(Seq::empty()) =~= Seq::empty());
            assert(delivered(step) + owed(step) =~= Seq::empty());
            seq![m] + rest
        } else {
            if let Ok((data, fin)) = read {
                let reads = seq![(data, fin)];
                assert(reads.drop_last() =~= Seq::empty());
                assert(for_reader(reads) =~= delivered(step) + owed(step));
            } else {
                assert(for_reader(Seq::empty()) =~= Seq::empty());
                assert(delivered(step) + owed(step) =~= Seq::empty());
            }
            seq![m]
        }
    }
}

/// What has to be kept of data after the stream was offered it and answered like this, leaving
/// the connection like that.
pub open spec fn to_keep(
    data: Seq<u8>,
    answer: Result<usize, QuicError>,
    after: quiche::Connection,
) -> Option<Seq<u8>> {
    let rest = match answer {
        Ok(count) => data.skip(count as int),
        Err(_) => data,
    };
    if rest.len() == 0 || (answer is Err && transport::capacity(after, 0) is Err) {
        None
    } else {
        Some(rest)
    }
}

/// The call that offers data to the stream.
proof fn lemma_offer(
    before: quiche::Connection,
    data: Seq<u8>,
    fin: bool,
    offer: run::Offer,
    after: quiche::Connection,
) -> (m: Moment)
    requires
        run::offer_made(before, data, fin, offer, after),
    ensures
        took_place(m),
        m.before == before,
        m.after == after,
        m.call matches Call::StreamSend { data: d, fin: f, answer } && d == data && f == fin && {
            &&& offer is Failed <==> fatal(m.call)
            &&& offer matches run::Offer::Failed(e) ==> answer == Err::<usize, QuicError>(
                QuicError::Failed(e),
            )
            &&& !(offer is Failed) ==> run::left_over(data, offer) == to_keep(data, answer, after)
        },
{
    let answer = choose|answer: Result<usize, QuicError>| #[trigger]
        transport::stream_send_call(before, run::STREAM_ID, data, fin, answer, after) && offer
            == run::offer_of(answer, transport::capacity(after, run::STREAM_ID) is Ok) && run::fits(
            data,
            offer,
        );
    assert(data.skip(0) =~= data);
    Moment { call: Call::StreamSend { data, fin, answer }, before, after }
}

/// Data that a wait brought is offered to the stream, with an end mark if there is none of it,
/// and what the stream did not take of it is kept: exactly the bytes behind those that it took.
/// Only a stream that takes no more data ever keeps none.
pub proof fn law_untaken_data_stays_pending(
    state: RunState,
    data: Seq<u8>,
    before: quiche::Connection,
    alarm: Option<Alarm>,
    step: RunStepView,
    after: quiche::Connection,
)
    requires
        state.input_left is None,
        state.output_left is None,
        run::woken(state, WakeView::Output(Some(data)), before, alarm, step, after),
    ensures
        exists|fin: bool, answer: Result<usize, QuicError>, mid: quiche::Connection| #[trigger]
            transport::stream_send_call(before, 0, data, fin, answer, mid) && {
                &&& fin == (data.len() == 0)
                &&& step.state() matches Some(next) ==> match answer {
                    Ok(count) => count <= data.len() && (if count == data.len() {
                        next.output_left is None
                    } else {
                        next.output_left == Some(data.skip(count as int))
                    }),
                    Err(QuicError::Done) => if data.len() > 0 && transport::capacity(mid, 0) is Ok {
                        next.output_left == Some(data)
                    } else {
                        next.output_left is None
                    },
                    Err(QuicError::Failed(_)) => false,
                }
                &&& forall|e: quiche::Error| #[trigger]
                    step_fails(step, e) <==> answer == Err::<usize, QuicError>(
                        QuicError::Failed(e),
                    )
            },
{
    let event = EventView::Output(data);
    let (trace, c, s2) = lemma_rest(state, event, before, alarm, step, after);
    let (m, s3) = lemma_event(s2, event, c, alarm, step, after);
    if !fatal(m.call) {
        let tail = lemma_drain(s3, m.after, step, after);
    }
    assert(transport::stream_send_call(before, 0, data, m.call->fin, m.call->answer, m.after));
}

/// The step ended the connection because the stream refused data that had arrived.
pub open spec fn step_fails(step: RunStepView, e: quiche::Error) -> bool {
    step == RunStepView::Stop(Exit::OutputFailed(e))
}

/// The first calls of a step after a wait: the rest of the data is offered, if there is one.
/// Where that did not end the connection, the event comes next.
proof fn lemma_rest(
    state: RunState,
    event: EventView,
    before: quiche::Connection,
    alarm: Option<Alarm>,
    step: RunStepView,
    after: quiche::Connection,
) -> (r: (Seq<Moment>, quiche::Connection, RunState))
    requires
        state.input_left is None,
        run::input_stage(state, event, before, alarm, step, after),
    ensures
        leads(r.0, before, r.1),
        state.output_left is None ==> r.0.len() == 0 && r.2 == state,
        state.output_left matches Some(rest) ==> r.0.len() == 1 && r.0[0].before == before
            && r.0[0].after == r.1 && took_place(r.0[0]) && totals(r.0) == total_of(r.0[0].call) && (
        r.0[0].call matches Call::StreamSend { data, fin, answer } && data == rest && !fin && if fatal(
            r.0[0].call,
        ) {
            &&& r.1 == after
            &&& alarm is None
            &&& answer matches Err(QuicError::Failed(e)) && step == RunStepView::Stop(
                Exit::OutputRetryFailed(e),
            )
        } else {
            r.2 == (RunState { output_left: to_keep(rest, answer, r.1), ..state })
        }),
        r.0.len() == 0 || !fatal(r.0[0].call) ==> run::event_stage(
            r.2,
            event,
            r.1,
            alarm,
            step,
            after,
        ),
{
    let (out1, c1) = choose|out: Result<RunState, Exit>, mid: quiche::Connection| #[trigger]
        run::input_retried(state, before, out, mid) && match out {
            Ok(next) => run::output_stage(next, event, mid, alarm, step, after),
            Err(exit) => step == RunStepView::Stop(exit) && after == mid && alarm is None,
        };
    let (out2, c2) = choose|out: Result<RunState, Exit>, mid: quiche::Connection| #[trigger]
        run::output_retried(state, c1, out, mid) && match out {
            Ok(next) => run::event_stage(next, event, mid, alarm, step, after),
            Err(exit) => step == RunStepView::Stop(exit) && after == mid && alarm is None,
        };
    match state.output_left {
        None => (Seq::empty(), c2, out2->Ok_0),
        Some(rest) => {
            let offer = choose|offer: run::Offer| #[trigger]
                run::offer_made(c1, rest, false, offer, c2) && out2 == run::after_output_retry(
                    state,
                    rest,
                    offer,
                );
            let m = lemma_offer(c1, rest, false, offer, c2);
            lemma_single(m);
            (seq![m], c2, out2->Ok_0)
        },
    }
}

/// The call that an event makes.
proof fn lemma_event(
    state: RunState,
    event: EventView,
    before: quiche::Connection,
    alarm: Option<Alarm>,
    step: RunStepView,
    after: quiche::Connection,
) -> (r: (Moment, RunState))
    requires
        run::event_stage(state, event, before, alarm, step, after),
    ensures
        took_place(r.0),
        r.0.before == before,
        match event {
            EventView::Input(datagram) => alarm is None && (r.0.call matches Call::Recv {
                datagram: d,
                info,
                heard,
                ..
            } && d == datagram && info == state.info && match heard {
                Ok(_) => r.1.output_left == state.output_left && r.1.info == state.info,
                Err(e) => step == RunStepView::Stop(Exit::InputFailed(e)),
            }),
            EventView::Output(data) => alarm is None && (r.0.call matches Call::StreamSend {
                data: d,
                fin,
                answer,
            } && d == data && fin == (data.len() == 0) && if fatal(r.0.call) {
                answer matches Err(QuicError::Failed(e)) && step == RunStepView::Stop(
                    Exit::OutputFailed(e),
                )
            } else {
                r.1 == match to_keep(data, answer, r.0.after) {
                    Some(rest) => RunState { output_left: Some(rest), ..state },
                    None => state,
                }
            }),
            EventView::Timeout => r.0.call is OnTimeout && r.1 == state && alarm == Some(
                match transport::deadline(r.0.after) {
                    Some(at) => Alarm::At(at),
                    None => Alarm::After(10),
                },
            ),
        },
        fatal(r.0.call) ==> after == r.0.after,
        !fatal(r.0.call) ==> run::drained(r.1, r.0.after, step, after),
{
    let (out, mid) = choose|out: Result<RunState, Exit>, mid: quiche::Connection| #[trigger]
        run::event_applied(state, event, before, out, alarm, mid) && match out {
            Ok(next) => run::drained(next, mid, step, after),
            Err(exit) => step == RunStepView::Stop(exit) && after == mid,
        };
    match event {
        EventView::Input(datagram) => {
            let (heard, scratch) = choose|heard: Result<usize, QuicError>, scratch: Seq<u8>| #[trigger]
                transport::recv_call(before, datagram, state.info, heard, scratch, mid) && out
                    == run::after_input(state, scratch, heard);
            let call = Call::Recv { datagram, info: state.info, heard, scratch };
            (Moment { call, before, after: mid }, out->Ok_0)
        },
        EventView::Output(data) => {
            let (fin, offer) = choose|fin: bool, offer: run::Offer| #[trigger]
                run::offer_made(before, data, fin, offer, mid) && fin == (data.len() == 0) && out
                    == run::after_output(state, data, offer);
            let m = lemma_offer(before, data, fin, offer, mid);
            (m, out->Ok_0)
        },
        EventView::Timeout => {
            (Moment { call: Call::OnTimeout, before, after: mid }, out->Ok_0)
        },
    }
}

/// The rest of the data is offered to the stream again after every wait that brings no error,
/// without an end mark, and what the stream did not take is kept on: exactly the bytes behind
/// those that it took.
pub proof fn law_the_rest_is_offered_again(
    state: RunState,
    rest: Seq<u8>,
    wake: WakeView,
    before: quiche::Connection,
    alarm: Option<Alarm>,
    step: RunStepView,
    after: quiche::Connection,
)
    requires
        state.input_left is None,
        state.output_left == Some(rest),
        wake is Timer || wake matches WakeView::Input(Some(_)),
        run::woken(state, wake, before, alarm, step, after),
    ensures
        exists|answer: Result<usize, QuicError>, mid: quiche::Connection| #[trigger]
            transport::stream_send_call(before, 0, rest, false, answer, mid) && {
                &&& step.state() matches Some(next) ==> match answer {
                    Ok(count) => count <= rest.len() && (if count == rest.len() {
                        next.output_left is None
                    } else {
                        next.output_left == Some(rest.skip(count as int))
                    }),
                    Err(QuicError::Done) => if rest.len() > 0 && transport::capacity(mid, 0) is Ok {
                        next.output_left == Some(rest)
                    } else {
                        next.output_left is None
                    },
                    Err(QuicError::Failed(_)) => false,
                }
                &&& answer matches Err(QuicError::Failed(e)) ==> step == RunStepView::Stop(
                    Exit::OutputRetryFailed(e),
                )
            },
{
    let event = match wake {
        WakeView::Input(Some(datagram)) => EventView::Input(datagram),
        _ => EventView::Timeout,
    };
    let (trace, c, s2) = lemma_rest(state, event, before, alarm, step, after);
    let m = trace[0];
    let answer = m.call->answer;
    if !fatal(m.call) {
        let (e, s3) = lemma_event(s2, event, c, alarm, step, after);
        if !fatal(e.call) {
            let tail = lemma_drain(s3, e.after, step, after);
        }
    }
    assert(transport::stream_send_call(before, 0, rest, false, answer, c));
}

/// Every packet that a wait brings is handed to the connection, as it arrived and with the
/// addresses of the connection, unless the rest of the data was refused before. Where the
/// connection refuses the packet, it ends with that error; else the stream is read next.
pub proof fn law_every_packet_is_processed(
    state: RunState,
    datagram: Seq<u8>,
    before: quiche::Connection,
    alarm: Option<Alarm>,
    step: RunStepView,
    after: quiche::Connection,
)
    requires
        state.input_left is None,
        run::woken(state, WakeView::Input(Some(datagram)), before, alarm, step, after),
        !(step matches RunStepView::Stop(Exit::OutputRetryFailed(_))),
    ensures
        exists|
            start: quiche::Connection,
            heard: Result<usize, QuicError>,
            scratch: Seq<u8>,
            mid: quiche::Connection,
        | #[trigger]
            transport::recv_call(start, datagram, state.info, heard, scratch, mid) && {
                &&& state.output_left is None ==> start == before
                &&& match heard {
                    Ok(_) => {
                        &&& !(step matches RunStepView::Stop(Exit::InputFailed(_)))
                        &&& if transport::readable(mid, 0) {
                            exists|read: Result<(Seq<u8>, bool), QuicError>, last: quiche::Connection|
                                #[trigger] transport::stream_recv_call(mid, 0, 65536, read, last) && (
                                read matches Ok((data, fin)) ==> after == last && (step
                                    matches RunStepView::Deliver { data: d, fin: f, .. } && d == data
                                    && f == fin))
                        } else if transport::closed(mid) {
                            step == RunStepView::Stop(Exit::Closed) && after == mid
                        } else {
                            exists|made: Result<(Seq<u8>, quiche::SendInfo), QuicError>| #[trigger]
                                transport::send_call(mid, 65536, made, after) && (made matches Ok(
                                    (packet, info),
                                ) ==> (step matches RunStepView::Transmit { packet: p, info: i, .. }
                                    && p == packet && i == info))
                        }
                    },
                    Err(e) => step == RunStepView::Stop(Exit::InputFailed(e)) && after == mid,
                }
            },
{
    let event = EventView::Input(datagram);
    let (trace, c, s2) = lemma_rest(state, event, before, alarm, step, after);
    let (m, s3) = lemma_event(s2, event, c, alarm, step, after);
    let heard = m.call->heard;
    let scratch = m.call->scratch;
    if !fatal(m.call) {
        let tail = lemma_drain(s3, m.after, step, after);
        law_every_read_is_delivered(s3, m.after, step, after);
        if !transport::readable(m.after, 0) {
            law_a_closed_connection_stops(s3, m.after, step, after);
            if !transport::closed(m.after) {
                law_every_packet_goes_out(s3, m.after, step, after);
            }
        }
    }
    assert(transport::recv_call(c, datagram, state.info, heard, scratch, m.after));
}

/// What is kept of data, behind what was taken of it, is all of it, unless it was wasted.
proof fn lemma_kept(m: Moment)
    requires
        took_place(m),
        m.call is StreamSend,
        !fatal(m.call),
    ensures
        ({
            let data = m.call->data;
            let kept = to_keep(data, m.call->answer, m.after);
            &&& wasted(m) ==> kept is None
            &&& kept matches Some(rest) ==> rest.len() > 0
            &&& !wasted(m) ==> total_of(m.call).taken + (match kept {
                Some(rest) => rest,
                None => Seq::empty(),
            }) == data
        }),
{
    let data = m.call->data;
    match m.call->answer {
        Ok(count) => {
            assert(data.take(count as int) + data.skip(count as int) =~= data);
            if count == data.len() {
                assert(data.take(count as int) + Seq::empty() =~= data);
            }
        },
        Err(_) => {
            if data.len() == 0 {
                assert(data =~= Seq::empty());
            }
            assert(Seq::empty() + data =~= data);
        },
    }
}

/// A step after a wait that goes on: what it heard, offered and kept.
proof fn lemma_wake_goes_on(
    t: Transition,
    head: Seq<Moment>,
    m: Moment,
    tail: Seq<Moment>,
    s2: RunState,
    s3: RunState,
)
    requires
        follows(t),
        t.from is Wait,
        !(t.to is Stop),
        event::event_of(t.answer->Woke_0) is Ok,
        // The rest of the data.
        match t.from->Wait_state.output_left {
            None => head.len() == 0 && s2 == t.from->Wait_state,
            Some(rest) => head.len() == 1 && took_place(head[0]) && !fatal(head[0].call) && totals(
                head,
            ) == total_of(head[0].call) && (head[0].call matches Call::StreamSend {
                data,
                fin,
                answer,
            } && data == rest && !fin && s2 == (RunState {
                output_left: to_keep(rest, answer, head[0].after),
                ..t.from->Wait_state
            })),
        },
        // The event.
        took_place(m),
        !fatal(m.call),
        totals(seq![m]) == total_of(m.call),
        match event::event_of(t.answer->Woke_0)->Ok_0 {
            EventView::Input(datagram) => t.alarm is None && (m.call matches Call::Recv {
                datagram: d,
                info,
                ..
            } && d == datagram && info == s2.info && s3.output_left == s2.output_left && s3.info
                == s2.info),
            EventView::Output(data) => t.alarm is None && (m.call matches Call::StreamSend {
                data: d,
                fin,
                answer,
            } && d == data && fin == (data.len() == 0) && s3 == match to_keep(data, answer, m.after) {
                Some(rest) => RunState { output_left: Some(rest), ..s2 },
                None => s2,
            }),
            EventView::Timeout => m.call is OnTimeout && s3 == s2 && t.alarm == Some(
                match transport::deadline(m.after) {
                    Some(at) => Alarm::At(at),
                    None => Alarm::After(10),
                },
            ),
        },
        // The stream.
        t.to.state() == Some(s3),
        totals(tail) == (Totals {
            packets: totals(tail).packets,
            reads: totals(tail).reads,
            ..nothing()
        }),
        forall|i: int| 0 <= i < tail.len() ==> !wasted(#[trigger] tail[i]),
        forall|i: int| 0 <= i < tail.len() ==> !fatal((#[trigger] tail[i]).call),
    ensures
        goes_on(t, head + seq![m] + tail),
        forall|i: int|
            0 <= i < (head + seq![m] + tail).len() ==> !fatal(
                (#[trigger] (head + seq![m] + tail)[i]).call,
            ),
{
    let state = t.from->Wait_state;
    let trace = head + seq![m] + tail;
    let sum = totals(trace);
    let k = head.len() as int;
    lemma_totals_add(head, seq![m]);
    lemma_totals_add(head + seq![m], tail);
    assert(trace[k] == m);
    assert(k > 0 ==> trace[0] == head[0]);
    assert forall|i: int| k < i < trace.len() implies #[trigger] trace[i] == tail[i - k - 1] by {}
    assert(only_datagrams(sum.heard) =~= datagrams(t.answer));
    let rests: Seq<(Seq<u8>, bool)> = match state.output_left {
        Some(rest) => seq![(rest, false)],
        None => Seq::empty(),
    };
    assert(totals(head).offers =~= rests);
    assert(sum.offers =~= rests + total_of(m.call).offers);
    assert(sum.taken =~= totals(head).taken + total_of(m.call).taken);
    if k > 0 {
        lemma_kept(head[0]);
    }
    if m.call is StreamSend {
        lemma_kept(m);
        assert(k == 0);
        assert(totals(head).taken =~= Seq::empty());
        assert(pending(t.from) =~= Seq::empty());
        if lasting(trace) {
            assert(!wasted(trace[k]));
            assert(sum.taken + pending(t.to) =~= pending(t.from) + brought(t.answer));
        } else if !wasted(m) {
            assert(lasting(trace)) by {
                assert forall|i: int| 0 <= i < trace.len() implies !wasted(#[trigger] trace[i]) by {
                    if i > k {
                        assert(trace[i] == tail[i - k - 1]);
                    }
                }
            }
        }
    } else {
        assert(!wasted(m));
        if lasting(trace) {
            if k > 0 {
                assert(!wasted(trace[0]));
            }
            assert(sum.taken + pending(t.to) =~= pending(t.from) + brought(t.answer));
        } else if k == 0 || !wasted(head[0]) {
            assert(lasting(trace)) by {
                assert forall|i: int| 0 <= i < trace.len() implies !wasted(#[trigger] trace[i]) by {
                    if i > k {
                        assert(trace[i] == tail[i - k - 1]);
                    }
                }
            }
        }
    }
}

/// The calls of a step after a wait.
proof fn lemma_wake(t: Transition) -> (trace: Seq<Moment>)
    requires
        follows(t),
        t.from is Wait,
    ensures
        accounts(t, trace),
{
    let state = t.from->Wait_state;
    let wake = t.answer->Woke_0;
    assert(for_reader(Seq::empty()) =~= Seq::empty());
    if event::event_of(wake) is Err {
        let trace = Seq::<Moment>::empty();
        assert(delivered(t.to) + owed(t.to) =~= owed(t.from) + for_reader(totals(trace).reads));
        trace
    } else {
        let event = event::event_of(wake)->Ok_0;
        let (head, c, s2) = lemma_rest(state, event, t.before, t.alarm, t.to, t.after);
        if head.len() > 0 && fatal(head[0].call) {
            assert(delivered(t.to) + owed(t.to) =~= owed(t.from) + for_reader(totals(head).reads));
            head
        } else {
            let (m, s3) = lemma_event(s2, event, c, t.alarm, t.to, t.after);
            lemma_single(m);
            let calls = head + seq![m];
            lemma_leads_on(head, seq![m], t.before, c, m.after);
            lemma_totals_add(head, seq![m]);
            assert(totals(calls).reads =~= Seq::empty());
            assert(totals(calls).packets =~= Seq::empty());
            if fatal(m.call) {
                assert(delivered(t.to) + owed(t.to) =~= owed(t.from) + for_reader(
                    totals(calls).reads,
                ));
                calls
            } else {
                let tail = lemma_drain(s3, m.after, t.to, t.after);
                let trace = calls + tail;
                lemma_leads_on(calls, tail, t.before, m.after, t.after);
                lemma_totals_add(calls, tail);
                assert(totals(trace).reads =~= totals(tail).reads);
                assert(totals(trace).packets =~= totals(tail).packets);
                assert(delivered(t.to) + owed(t.to) =~= owed(t.from) + for_reader(
                    totals(trace).reads,
                ));
                if !(t.to is Stop) {
                    lemma_wake_goes_on(t, head, m, tail, s2, s3);
                }
                assert(trace.len() > 0 && (tail.len() > 0 ==> trace.last() == tail.last()));
                assert(tail.len() > 1 ==> trace[trace.len() - 2] == tail[tail.len() - 2]);
                trace
            }
        }
    }
}

/// A step of a running connection is what its calls say: they account for the packets that go
/// out, the data that the reader gets, the datagrams that are handed in, the data that is offered
/// to the stream and what is kept of it, the timer, and the end of the connection.
pub proof fn law_a_step_is_what_its_calls_say(t: Transition)
    requires
        follows(t),
    ensures
        exists|trace: Seq<Moment>| #[trigger] accounts(t, trace),
{
    let trace = lemma_step(t);
}

/// The calls behind [`law_a_step_is_what_its_calls_say`].
proof fn lemma_step(t: Transition) -> (trace: Seq<Moment>)
    requires
        follows(t),
    ensures
        accounts(t, trace),
{
    assert(for_reader(Seq::empty()) =~= Seq::empty());
    match t.from {
        RunStepView::Wait { .. } => lemma_wake(t),
        RunStepView::Transmit { state, .. } => {
            let trace = if t.answer == Answer::Sent(true) {
                let m = lemma_flush(state, t.before, t.to, t.after);
                lemma_single(m);
                seq![m]
            } else {
                Seq::empty()
            };
            assert(delivered(t.to) + owed(t.to) =~= owed(t.from) + for_reader(totals(trace).reads));
            assert(only_datagrams(totals(trace).heard) =~= datagrams(t.answer));
            assert(totals(trace).taken + pending(t.to) =~= pending(t.to));
            assert(pending(t.from) + brought(t.answer) =~= pending(t.from));
            trace
        },
        RunStepView::Deliver { fin, state, .. } => {
            let trace = if fin {
                Seq::empty()
            } else {
                lemma_drain(state, t.before, t.to, t.after)
            };
            assert(delivered(t.to) + owed(t.to) =~= owed(t.from) + for_reader(totals(trace).reads));
            assert(only_datagrams(totals(trace).heard) =~= datagrams(t.answer));
            assert(totals(trace).taken + pending(t.to) =~= pending(t.to));
            assert(pending(t.from) + brought(t.answer) =~= pending(t.from));
            trace
        },
        RunStepView::Stop(_) => Seq::empty(),
    }
}

/// One step after the other, on one connection.
pub open spec fn in_a_row(steps: Seq<Transition>) -> bool {
    &&& forall|i: int| 0 <= i < steps.len() ==> follows(#[trigger] steps[i])
    &&& forall|i: int, j: int|
        #![trigger steps[i], steps[j]]
        0 <= i && j == i + 1 && j < steps.len() ==> steps[i].to == steps[j].from && steps[i].after
            == steps[j].before
}

/// What some steps were handed, and what they ended with.
#[verifier::ext_equal]
pub struct Traffic {
    /// The data for the stream.
    pub brought: Seq<u8>,
    /// The datagrams that arrived.
    pub datagrams: Seq<Seq<u8>>,
    /// The packets that went out.
    pub transmitted: Seq<(Seq<u8>, quiche::SendInfo)>,
    /// The data that the reader got.
    pub delivered: Seq<Seq<u8>>,
}

/// All that some steps were handed and ended with, in order.
pub open spec fn traffic(steps: Seq<Transition>) -> Traffic
    decreases steps.len(),
{
    if steps.len() == 0 {
        Traffic {
            brought: Seq::empty(),
            datagrams: Seq::empty(),
            transmitted: Seq::empty(),
            delivered: Seq::empty(),
        }
    } else {
        let t = steps.last();
        let before = traffic(steps.drop_last());
        Traffic {
            brought: before.brought + brought(t.answer),
            datagrams: before.datagrams + datagrams(t.answer),
            transmitted: before.transmitted + transmitted(t.to),
            delivered: before.delivered + delivered(t.to),
        }
    }
}

/// What some steps in a row come to, held against the calls that they made.
pub open spec fn all_accounts(steps: Seq<Transition>, trace: Seq<Moment>) -> bool {
    let sum = totals(trace);
    let all = traffic(steps);
    let first = steps.first().from;
    let last = steps.last().to;
    // The calls are all there is.
    &&& leads(trace, steps.first().before, steps.last().after)
    // The packets that went out are the packets that were made.
    &&& all.transmitted == sum.packets
    // The reader got what was read, and the end behind the last of it.
    &&& all.delivered + owed(last) == owed(first) + for_reader(sum.reads)
    &&& !(last is Stop) ==> {
        // The datagrams that were handed in are those that arrived.
        &&& only_datagrams(sum.heard) == all.datagrams
        &&& forall|i: int|
            0 <= i < sum.heard.len() ==> (#[trigger] sum.heard[i]).1 == first.state()->0.info
        &&& last.state()->0.info == first.state()->0.info
        // What the stream took, and behind it what is kept for it, is what was kept for it and
        // behind it all that arrived for it.
        &&& lasting(trace) ==> sum.taken + pending(last) == pending(first) + all.brought
    }
}

/// What is read in two parts is for the reader in two parts.
proof fn lemma_for_reader_add(a: Seq<(Seq<u8>, bool)>, b: Seq<(Seq<u8>, bool)>)
    ensures
        for_reader(a + b) == for_reader(a) + for_reader(b),
    decreases b.len(),
{
    if b.len() == 0 {
        assert(a + b =~= a);
        assert(for_reader(a) + Seq::empty() =~= for_reader(a));
    } else {
        lemma_for_reader_add(a, b.drop_last());
        assert((a + b).drop_last() =~= a + b.drop_last());
        assert(for_reader(a + b) =~= for_reader(a) + for_reader(b));
    }
}

/// Over any number of steps of a running connection nothing is lost, repeated, changed or moved:
/// not the packets that it makes, nor those that arrive for it, nor what is read from its stream,
/// nor, for as long as the stream is there for it, what is written to it.
pub proof fn law_nothing_is_lost_on_the_way(steps: Seq<Transition>)
    requires
        steps.len() > 0,
        in_a_row(steps),
    ensures
        exists|trace: Seq<Moment>| #[trigger] all_accounts(steps, trace),
{
    let trace = lemma_steps(steps);
}

/// What the calls of one step say of what it was handed and ended with.
proof fn lemma_step_traffic(t: Transition) -> (trace: Seq<Moment>)
    requires
        follows(t),
    ensures
        leads(trace, t.before, t.after),
        transmitted(t.to) == totals(trace).packets,
        delivered(t.to) + owed(t.to) == owed(t.from) + for_reader(totals(trace).reads),
        !(t.from is Stop),
        !(t.to is Stop) ==> {
            &&& only_datagrams(totals(trace).heard) == datagrams(t.answer)
            &&& forall|i: int|
                0 <= i < totals(trace).heard.len() ==> (#[trigger] totals(trace).heard[i]).1
                    == t.from.state()->0.info
            &&& t.to.state()->0.info == t.from.state()->0.info
            &&& lasting(trace) ==> totals(trace).taken + pending(t.to) == pending(t.from) + brought(
                t.answer,
            )
        },
{
    lemma_step(t)
}

/// What some steps and one more come to.
proof fn lemma_traffic_adds(steps: Seq<Transition>, so_far: Seq<Moment>, more: Seq<Moment>)
    requires
        steps.len() > 1,
        all_accounts(steps.drop_last(), so_far),
        leads(so_far + more, steps.first().before, steps.last().after),
        steps.drop_last().last().to == steps.last().from,
        ({
            let t = steps.last();
            &&& transmitted(t.to) == totals(more).packets
            &&& delivered(t.to) + owed(t.to) == owed(t.from) + for_reader(totals(more).reads)
            &&& !(t.from is Stop)
            &&& !(t.to is Stop) ==> {
                &&& only_datagrams(totals(more).heard) == datagrams(t.answer)
                &&& forall|i: int|
                    0 <= i < totals(more).heard.len() ==> (#[trigger] totals(more).heard[i]).1
                        == t.from.state()->0.info
                &&& t.to.state()->0.info == t.from.state()->0.info
                &&& lasting(more) ==> totals(more).taken + pending(t.to) == pending(t.from)
                    + brought(t.answer)
            }
        }),
    ensures
        all_accounts(steps, so_far + more),
{
    let t = steps.last();
    let head = steps.drop_last();
    let trace = so_far + more;
    lemma_totals_add(so_far, more);
    let a = totals(so_far);
    let b = totals(more);
    lemma_for_reader_add(a.reads, b.reads);
    let all = traffic(steps);
    let before = traffic(head);
    let start = steps.first().from;
    assert(all.delivered + owed(t.to) =~= before.delivered + (delivered(t.to) + owed(t.to)));
    assert(before.delivered + (owed(t.from) + for_reader(b.reads)) =~= (before.delivered + owed(
        t.from,
    )) + for_reader(b.reads));
    assert((owed(start) + for_reader(a.reads)) + for_reader(b.reads) =~= owed(start) + (
    for_reader(a.reads) + for_reader(b.reads)));
    if !(t.to is Stop) {
        assert(only_datagrams(totals(trace).heard) =~= only_datagrams(a.heard)
            + only_datagrams(b.heard));
        assert forall|i: int| 0 <= i < totals(trace).heard.len() implies (
        #[trigger] totals(trace).heard[i]).1 == start.state()->0.info by {
            if i < a.heard.len() {
                assert(totals(trace).heard[i] == a.heard[i]);
            } else {
                assert(totals(trace).heard[i] == b.heard[i - a.heard.len()]);
            }
        }
        if lasting(trace) {
            assert forall|i: int| 0 <= i < so_far.len() implies !wasted(#[trigger] so_far[i]) by {
                assert(trace[i] == so_far[i]);
            }
            assert forall|i: int| 0 <= i < more.len() implies !wasted(#[trigger] more[i]) by {
                assert(trace[so_far.len() + i] == more[i]);
            }
            assert(totals(trace).taken + pending(t.to) =~= a.taken + (b.taken + pending(t.to)));
            assert(a.taken + (pending(t.from) + brought(t.answer)) =~= (a.taken + pending(
                t.from,
            )) + brought(t.answer));
            assert((pending(start) + before.brought) + brought(t.answer) =~= pending(start)
                + all.brought);
        }
    }
}

/// The calls behind [`law_nothing_is_lost_on_the_way`].
proof fn lemma_steps(steps: Seq<Transition>) -> (trace: Seq<Moment>)
    requires
        steps.len() > 0,
        in_a_row(steps),
    ensures
        all_accounts(steps, trace),
    decreases steps.len(),
{
    let t = steps.last();
    let head = steps.drop_last();
    let more = lemma_step_traffic(t);
    if head.len() == 0 {
        assert(traffic(head) == traffic(Seq::empty())) by {
            assert(head =~= Seq::empty());
        }
        assert(traffic(steps) =~= Traffic {
            brought: brought(t.answer),
            datagrams: datagrams(t.answer),
            transmitted: transmitted(t.to),
            delivered: delivered(t.to),
        });
        more
    } else {
        assert(head.last() == steps[steps.len() - 2]);
        assert(in_a_row(head)) by {
            assert forall|i: int| 0 <= i < head.len() implies follows(#[trigger] head[i]) by {
                assert(head[i] == steps[i]);
            }
            assert forall|i: int, j: int|
                #![trigger head[i], head[j]]
                0 <= i && j == i + 1 && j < head.len() implies head[i].to == head[j].from
                && head[i].after == head[j].before by {
                assert(head[i] == steps[i] && head[j] == steps[j]);
            }
        }
        let so_far = lemma_steps(head);
        let trace = so_far + more;
        lemma_leads_on(so_far, more, steps.first().before, t.before, t.after);
        lemma_traffic_adds(steps, so_far, more);
        trace
    }
}

/// The views of steps, of what a wait came back with and of events show what those hold.
pub proof fn law_a_step_shows_what_it_holds(step: RunStep, wake: Wake, event: Event)
    ensures
        match step {
            RunStep::Transmit { packet, info, on_sent } => step@ == (RunStepView::Transmit {
                packet: buffer::content(packet),
                info,
                state: on_sent@,
            }),
            RunStep::Wait { source, on_wake } => step@ == (RunStepView::Wait {
                source,
                state: on_wake@,
            }),
            RunStep::Deliver { data, on_taken } => step@ == (RunStepView::Deliver {
                data: buffer::content(data),
                fin: on_taken@.1,
                state: on_taken@.0,
            }),
            RunStep::Stop(exit) => step@ == RunStepView::Stop(exit),
        },
        match wake {
            Wake::Input(Some(data)) => wake@ == WakeView::Input(Some(buffer::content(data))),
            Wake::Input(None) => wake@ == WakeView::Input(None),
            Wake::Output(Some(data)) => wake@ == WakeView::Output(Some(buffer::content(data))),
            Wake::Output(None) => wake@ == WakeView::Output(None),
            Wake::Timer => wake@ is Timer,
        },
        match event {
            Event::Input(data) => event@ == EventView::Input(buffer::content(data)),
            Event::Output(data) => event@ == EventView::Output(buffer::content(data)),
            Event::Timeout => event@ is Timeout,
        },
{
}

/// A wait may come back with what was waited for, or with the timer, and with nothing else.
pub proof fn law_a_wait_ends_with_what_was_asked_for(source: Source, wake: WakeView)
    ensures
        run::answers(source, wake) <==> match wake {
            WakeView::Input(_) => source is Input || source is Both,
            WakeView::Output(_) => source is Output || source is Both,
            WakeView::Timer => true,
        },
{
}

/// The end of a connection is an error exactly where a channel was closed, and that error.
pub proof fn law_an_end_is_an_error_for_a_closed_channel_only(exit: Exit)
    ensures
        match exit {
            Exit::Event(e) => exit.spec_result() == Err::<(), StreamError>(e),
            _ => exit.spec_result() is Ok,
        },
{
}

} // verus!
