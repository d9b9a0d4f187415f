//! What wakes a connection, and the timer that may.

use crate::buffer;
use crate::error::StreamError;
use bytes::BytesMut;
use std::time::Instant;
use vstd::prelude::*;

verus! {

/// How long a connection that has no timer of its own is left alone, in milliseconds.
pub const IDLE_WAIT_MS: u64 = 10;

/// When a timer is to go off.
#[derive(Clone, Copy, PartialEq, Eq, Debug)]
pub enum Alarm {
    /// At this moment.
    At(Instant),
    /// So many milliseconds from now.
    After(u64),
}

/// What a wait came back with: the next item of a channel, or that the channel is closed and
/// drained, or that the timer went off.
#[derive(Debug)]
pub enum Wake {
    /// From the channel of incoming packets.
    Input(Option<BytesMut>),
    /// From the channel of outgoing data.
    Output(Option<BytesMut>),
    /// From the timer.
    Timer,
}

/// Something that a connection has to act on.
#[derive(Debug)]
pub enum Event {
    /// Data to be sent.
    Output(BytesMut),
    /// A packet that arrived.
    Input(BytesMut),
    /// A timer went off.
    Timeout,
}

/// A [`Wake`] by its bytes.
pub enum WakeView {
    Input(Option<Seq<u8>>),
    Output(Option<Seq<u8>>),
    Timer,
}

/// An [`Event`] by its bytes.
pub enum EventView {
    Output(Seq<u8>),
    Input(Seq<u8>),
    Timeout,
}

/// The bytes of a buffer that may not be there.
pub open spec fn content_of(buf: Option<BytesMut>) -> Option<Seq<u8>> {
    match buf {
        Some(b) => Some(buffer::content(b)),
        None => None,
    }
}

impl View for Wake {
    type V = WakeView;

    open spec fn view(&self) -> WakeView {
        match *self {
            Wake::Input(buf) => WakeView::Input(content_of(buf)),
            Wake::Output(buf) => WakeView::Output(content_of(buf)),
            Wake::Timer => WakeView::Timer,
        }
    }
}

impl View for Event {
    type V = EventView;

    open spec fn view(&self) -> EventView {
        match *self {
            Event::Output(buf) => EventView::Output(buffer::content(buf)),
            Event::Input(buf) => EventView::Input(buffer::content(buf)),
            Event::Timeout => EventView::Timeout,
        }
    }
}

/// The event that a wake stands for; a closed channel is an error.
pub open spec fn event_of(wake: WakeView) -> Result<EventView, StreamError> {
    match wake {
        WakeView::Input(Some(data)) => Ok(EventView::Input(data)),
        WakeView::Input(None) => Err(StreamError::InputClosed),
        WakeView::Output(Some(data)) => Ok(EventView::Output(data)),
        WakeView::Output(None) => Err(StreamError::OutputClosed),
        WakeView::Timer => Ok(EventView::Timeout),
    }
}

/// The alarm for a connection with the given deadline.
pub open spec fn alarm_for(deadline: Option<Instant>) -> Alarm {
    match deadline {
        Some(at) => Alarm::At(at),
        None => Alarm::After(IDLE_WAIT_MS),
    }
}

/// Tells which event a wait ended with, or that a channel was closed.
pub fn all_event(wake: Wake) -> (event: Result<Event, StreamError>)
    ensures
        event is Ok <==> event_of(wake@) is Ok,
        event matches Ok(e) ==> e@ == event_of(wake@)->Ok_0,
        event matches Err(e) ==> e == event_of(wake@)->Err_0,
{
    match wake {
        Wake::Input(rs) => match rs {
            Some(buf) => Ok(Event::Input(buf)),
            None => Err(StreamError::InputClosed),
        },
        Wake::Output(rs) => match rs {
            Some(buf) => Ok(Event::Output(buf)),
            None => Err(StreamError::OutputClosed),
        },
        Wake::Timer => Ok(Event::Timeout),
    }
}

/// Picks the alarm for a connection with the given deadline: the deadline, or a short while
/// where there is none.
pub fn next_alarm(deadline: Option<Instant>) -> (alarm: Alarm)
    ensures
        alarm == alarm_for(deadline),
{
    match deadline {
        Some(at) => Alarm::At(at),
        None => Alarm::After(IDLE_WAIT_MS),
    }
}

/// The timer is set to the deadline, and without one to ten milliseconds from now.
pub proof fn law_the_alarm_is_the_deadline(deadline: Option<Instant>)
    ensures
        deadline matches Some(at) ==> alarm_for(deadline) == Alarm::At(at),
        deadline is None ==> alarm_for(deadline) == Alarm::After(10),
{
}

/// What a wait came back with is the event to act on, and a closed channel is its own error.
pub proof fn law_a_wake_is_its_event(data: Seq<u8>)
    ensures
        event_of(WakeView::Input(Some(data))) == Ok::<EventView, StreamError>(
            EventView::Input(data),
        ),
        event_of(WakeView::Output(Some(data))) == Ok::<EventView, StreamError>(
            EventView::Output(data),
        ),
        event_of(WakeView::Timer) == Ok::<EventView, StreamError>(EventView::Timeout),
        event_of(WakeView::Input(None)) == Err::<EventView, StreamError>(StreamError::InputClosed),
        event_of(WakeView::Output(None)) == Err::<EventView, StreamError>(
            StreamError::OutputClosed,
        ),
{
}

} // verus!
