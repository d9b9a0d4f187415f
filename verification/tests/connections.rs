use bytes::BytesMut;
use easyquic::event::{all_event, next_alarm, IDLE_WAIT_MS};
use easyquic::handshake::Handshake;
use easyquic::run::{offer_result, QuicRun};
use easyquic::{
    open_step, Alarm, ErrorKind, Event, Exit, HandshakeStep, Offer, OpenStep, QuicError, RunStep,
    Source, StreamError, Wake,
};
use std::time::{Duration, Instant};

fn info() -> quiche::RecvInfo {
    quiche::RecvInfo {
        from: "127.0.0.1:1".parse().unwrap(),
        to: "127.0.0.1:2".parse().unwrap(),
    }
}

fn send_info() -> quiche::SendInfo {
    quiche::SendInfo {
        from: "127.0.0.1:2".parse().unwrap(),
        to: "127.0.0.1:1".parse().unwrap(),
        at: Instant::now(),
    }
}

fn bytes(b: &[u8]) -> BytesMut {
    BytesMut::from(b)
}

fn source_of(run: QuicRun, established: bool) -> Source {
    match run.after_send(Err(QuicError::Done), established) {
        RunStep::Wait { source, .. } => source,
        other => panic!("{other:?}"),
    }
}

#[test]
fn a_packet_is_handed_on() {
    let at = send_info();
    match QuicRun::new(info()).after_send(Ok((bytes(b"packet"), at)), true) {
        RunStep::Transmit { packet, info, .. } => {
            assert_eq!(&packet[..], b"packet");
            assert_eq!(info, at);
        }
        other => panic!("{other:?}"),
    }
}

#[test]
fn a_failed_send_ends_the_connection() {
    let failed = Err(QuicError::Failed(quiche::Error::TlsFail));
    match QuicRun::new(info()).after_send(failed, true) {
        RunStep::Stop(exit) => {
            assert_eq!(exit, Exit::SendFailed(quiche::Error::TlsFail));
            assert_eq!(exit.into_result(), Ok(()));
        }
        other => panic!("{other:?}"),
    }
}

#[test]
fn data_is_waited_for_once_the_handshake_is_complete() {
    assert_eq!(source_of(QuicRun::new(info()), false), Source::Input);
    assert_eq!(source_of(QuicRun::new(info()), true), Source::Both);
}

#[test]
fn no_data_is_taken_while_some_is_pending() {
    let run = QuicRun::new(info()).after_output(bytes(b"hello"), Offer::Taken(2)).unwrap();
    assert_eq!(source_of(run, true), Source::Input);
    let run = QuicRun::new(info()).after_output(bytes(b"hello"), Offer::Taken(2)).unwrap();
    let run = run.after_output_retry(bytes(b"llo"), Offer::Taken(1)).unwrap();
    assert_eq!(source_of(run, true), Source::Input);
    let run = QuicRun::new(info()).after_output(bytes(b"hello"), Offer::Taken(2)).unwrap();
    let run = run.after_output_retry(bytes(b"llo"), Offer::Taken(3)).unwrap();
    assert_eq!(source_of(run, true), Source::Both);
}

#[test]
fn the_rest_of_the_data_is_kept_byte_for_byte() {
    let run = QuicRun::new(info()).after_output(bytes(b"hello"), Offer::Taken(2)).unwrap();
    assert!(format!("{run:?}").contains("output_data: Some(b\"llo\")"));
    let run = run.after_output_retry(bytes(b"llo"), Offer::Taken(1)).unwrap();
    assert!(format!("{run:?}").contains("output_data: Some(b\"lo\")"));
    let run = run.after_output_retry(bytes(b"lo"), Offer::Taken(2)).unwrap();
    assert!(format!("{run:?}").contains("output_data: None"));
}

#[test]
fn data_is_kept_while_the_stream_has_no_room() {
    let run = QuicRun::new(info()).after_output(bytes(b"hello"), Offer::Blocked).unwrap();
    assert!(format!("{run:?}").contains("output_data: Some(b\"hello\")"));
    let run = run.after_output_retry(bytes(b"hello"), Offer::Blocked).unwrap();
    assert!(format!("{run:?}").contains("output_data: Some(b\"hello\")"));
    assert_eq!(source_of(run, true), Source::Input);
    let run = QuicRun::new(info()).after_output(bytes(b"hello"), Offer::Taken(2)).unwrap();
    let run = run.after_output_retry(bytes(b"llo"), Offer::Blocked).unwrap();
    assert!(format!("{run:?}").contains("output_data: Some(b\"llo\")"));
    let run = run.after_output_retry(bytes(b"llo"), Offer::Taken(3)).unwrap();
    assert_eq!(source_of(run, true), Source::Both);
    let run = QuicRun::new(info()).after_output(bytes(b""), Offer::Blocked).unwrap();
    assert_eq!(source_of(run, true), Source::Both);
}

#[test]
fn a_stream_that_is_gone_holds_nothing_up() {
    let run = QuicRun::new(info()).after_output(bytes(b"hello"), Offer::Gone).unwrap();
    assert_eq!(source_of(run, true), Source::Both);
    let run = QuicRun::new(info()).after_output(bytes(b"hello"), Offer::Blocked).unwrap();
    let run = run.after_output_retry(bytes(b"hello"), Offer::Gone).unwrap();
    assert_eq!(source_of(run, true), Source::Both);
}

#[test]
fn offers_are_told_apart() {
    let e = quiche::Error::StreamStopped(7);
    for open in [false, true] {
        assert_eq!(offer_result(Ok(3), open), Offer::Taken(3));
        assert_eq!(offer_result(Err(QuicError::Failed(e)), open), Offer::Failed(e));
    }
    assert_eq!(offer_result(Err(QuicError::Done), true), Offer::Blocked);
    assert_eq!(offer_result(Err(QuicError::Done), false), Offer::Gone);
}

#[test]
fn an_opening_waits_for_its_handshake_if_asked_to() {
    let e = StreamError::Aborted;
    assert_eq!(open_step(false, None), OpenStep::Run);
    assert_eq!(open_step(true, None), OpenStep::Handshake);
    assert_eq!(open_step(true, Some(Ok(()))), OpenStep::Run);
    assert_eq!(open_step(true, Some(Err(e))), OpenStep::Undo(e));
}

#[test]
fn refused_data_ends_the_connection() {
    let failed = || Offer::Failed(quiche::Error::StreamStopped(7));
    let exit = QuicRun::new(info()).after_output(bytes(b"hello"), failed()).unwrap_err();
    assert_eq!(exit, Exit::OutputFailed(quiche::Error::StreamStopped(7)));
    let exit = QuicRun::new(info()).after_output_retry(bytes(b"hello"), failed()).unwrap_err();
    assert_eq!(exit, Exit::OutputRetryFailed(quiche::Error::StreamStopped(7)));
}

#[test]
fn a_packet_is_digested() {
    let run = QuicRun::new(info()).after_input(bytes(b"abc"), Ok(3)).unwrap();
    assert_eq!(source_of(run, true), Source::Both);
    let run = QuicRun::new(info()).after_input(bytes(b"abc"), Ok(1)).unwrap();
    assert!(format!("{run:?}").contains("input_data: Some(b\"bc\")"));
    assert_eq!(source_of(run, true), Source::Output);
    let run = QuicRun::new(info()).after_input(bytes(b"abc"), Ok(1)).unwrap();
    let run = run.after_input_retry(bytes(b"bc"), Ok(2)).unwrap();
    assert_eq!(source_of(run, false), Source::Input);
}

#[test]
fn a_refused_packet_ends_the_connection() {
    let exit = QuicRun::new(info()).after_input(bytes(b"abc"), Err(QuicError::Done)).unwrap_err();
    assert_eq!(exit, Exit::InputFailed(QuicError::Done));
    let failed = Err(QuicError::Failed(quiche::Error::InvalidPacket));
    let exit = QuicRun::new(info()).after_input_retry(bytes(b"abc"), failed).unwrap_err();
    assert_eq!(exit, Exit::InputRetryFailed(quiche::Error::InvalidPacket));
    let again = QuicRun::new(info()).after_input_retry(bytes(b"abc"), Err(QuicError::Done));
    assert_eq!(source_of(again.unwrap(), true), Source::Both);
}

#[test]
fn wakes_are_events() {
    match all_event(Wake::Input(Some(bytes(b"in")))) {
        Ok(Event::Input(data)) => assert_eq!(&data[..], b"in"),
        other => panic!("{other:?}"),
    }
    match all_event(Wake::Output(Some(bytes(b"out")))) {
        Ok(Event::Output(data)) => assert_eq!(&data[..], b"out"),
        other => panic!("{other:?}"),
    }
    assert!(matches!(all_event(Wake::Timer), Ok(Event::Timeout)));
}

#[test]
fn closed_channels_are_errors() {
    assert!(matches!(all_event(Wake::Input(None)), Err(StreamError::InputClosed)));
    assert!(matches!(all_event(Wake::Output(None)), Err(StreamError::OutputClosed)));
    assert_eq!(StreamError::InputClosed.message(), Some("input close"));
    assert_eq!(StreamError::OutputClosed.message(), Some("output close"));
    assert_eq!(StreamError::InputClosed.kind(), ErrorKind::Other);
    let exit = Exit::Event(StreamError::OutputClosed);
    assert_eq!(exit.into_result(), Err(StreamError::OutputClosed));
    assert_eq!(Exit::Closed.into_result(), Ok(()));
    assert_eq!(Exit::PacketsClosed.into_result(), Ok(()));
}

#[test]
fn the_alarm_is_the_deadline_or_a_short_while() {
    let at = Instant::now() + Duration::from_secs(1);
    assert_eq!(next_alarm(Some(at)), Alarm::At(at));
    assert_eq!(next_alarm(None), Alarm::After(10));
    assert_eq!(IDLE_WAIT_MS, 10);
}

#[test]
fn a_handshake_waits_until_its_deadline_or_looks() {
    let deadline = Instant::now() + Duration::from_secs(1);
    match Handshake::new(info(), Some(deadline)).await_packet() {
        HandshakeStep::Wait { at, .. } => assert_eq!(at, deadline),
        other => panic!("{other:?}"),
    }
    let step = Handshake::new(info(), None).await_packet();
    assert!(matches!(step, HandshakeStep::Poll { .. }));
    let step = Handshake::new(info(), None).after_send(Err(QuicError::Done));
    assert!(matches!(step, HandshakeStep::Poll { .. }));
}

#[test]
fn a_handshake_hands_its_packets_on() {
    let at = send_info();
    match Handshake::new(info(), None).after_send(Ok((bytes(b"hello"), at))) {
        HandshakeStep::Transmit { packet, info, .. } => {
            assert_eq!(&packet[..], b"hello");
            assert_eq!(info, at);
        }
        other => panic!("{other:?}"),
    }
}

#[test]
fn a_handshake_fails_with_the_transport() {
    let failed = Err(QuicError::Failed(quiche::Error::TlsFail));
    match Handshake::new(info(), None).after_send(failed) {
        HandshakeStep::Finished(result) => {
            assert_eq!(result, Err(StreamError::Transport(quiche::Error::TlsFail)));
        }
        other => panic!("{other:?}"),
    }
    assert_eq!(Handshake::after_packet(Ok(3)), Ok(()));
    assert_eq!(Handshake::after_packet(Err(QuicError::Done)), Ok(()));
    assert_eq!(
        Handshake::after_packet(Err(QuicError::Failed(quiche::Error::InvalidFrame))),
        Err(StreamError::Transport(quiche::Error::InvalidFrame))
    );
}

#[test]
fn every_error_has_its_kind() {
    let e = quiche::Error::InvalidPacket;
    for (error, kind) in [
        (StreamError::StreamExists, ErrorKind::AlreadyExists),
        (StreamError::NoListener, ErrorKind::BrokenPipe),
        (StreamError::PacketsClosed, ErrorKind::BrokenPipe),
        (StreamError::InputDisconnected, ErrorKind::BrokenPipe),
        (StreamError::Aborted, ErrorKind::ConnectionAborted),
        (StreamError::WriteZero, ErrorKind::WriteZero),
        (StreamError::InputClosed, ErrorKind::Other),
        (StreamError::OutputClosed, ErrorKind::Other),
        (StreamError::AcceptClosed, ErrorKind::Other),
        (StreamError::InvalidData(e), ErrorKind::InvalidData),
        (StreamError::Transport(e), ErrorKind::Other),
    ] {
        assert_eq!(error.kind(), kind);
    }
    assert_eq!(StreamError::Aborted.message(), None);
}
