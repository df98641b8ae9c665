use denon_avr_remote::session::{session_loop_start, session_loop_step, AvrSessionEvent, SessionAnswer, SessionLoopEvent, SessionLoopPhase, SessionWork};
use denon_avr_remote::protocol::avr::response::{get_command_family, response_matches};
use denon_avr_remote::session::{end_of_stream_error, frame_byte, frame_text, initial_connection_guidance, response_field, response_failure_reconnects, response_line, response_timeout_error, retryable_query_error, write_step, write_timeout_error, AvrSessionError, FrameProgress, RequestReply, ResponseLine, WriteStep, eq_reading, finish_eq_refresh, set_eq_state};
use denon_avr_remote::domain::{MainZoneField, Freshness};
use denon_avr_remote::domain::eq_status::{EqFeature, EqState, EqStatus};

#[test]
fn retries_only_read_query_failures() {
    assert!(retryable_query_error(&AvrSessionError::Timeout("timeout".into())));
    assert!(retryable_query_error(&AvrSessionError::Disconnected("closed".into())));
    assert!(!retryable_query_error(&AvrSessionError::MalformedFrame("bad".into())));
    assert!(!retryable_query_error(&AvrSessionError::UnexpectedResponse("bad".into())));
}

#[test]
fn malformed_frame_validation_is_bounded() {
    assert!(matches!(frame_text(&[], 1), Err(AvrSessionError::MalformedFrame(_))));
    assert!(matches!(frame_text(b"xx\r", 1), Err(AvrSessionError::MalformedFrame(_))));
}

#[test]
fn avr_session_keeps_numeric_query_suffixes_in_the_response_family() {
    assert_eq!(get_command_family("Z2?"), "Z2");
    assert!(response_matches("MV", "MV805"));
    assert!(!response_matches("MV", "MVMAX 615"));
}

#[test]
fn initial_connection_errors_include_receiver_access_guidance() {
    let message = initial_connection_guidance("connection refused");
    assert!(message.contains("connection refused"));
    assert!(message.contains("Network Control"));
    assert!(message.contains("Telnet client"));
}

#[test]
fn frame_text_reads_a_terminated_line() {
    assert_eq!(frame_text(b"PWON\r", 135).unwrap(), "PWON");
    assert_eq!(
        frame_text(b"PWON\r", 3).unwrap_err(),
        AvrSessionError::MalformedFrame("AVR response exceeded 3 bytes".into())
    );
    assert_eq!(
        frame_text(&[0xff, b'\r'], 135).unwrap_err(),
        AvrSessionError::MalformedFrame("AVR line is not valid UTF-8".into())
    );
}

#[test]
fn session_error_messages_name_the_failure() {
    assert_eq!(AvrSessionError::Timeout("x".into()).message(), "AVR session timed out: x");
    assert_eq!(AvrSessionError::SessionStopped.message(), "AVR session stopped");
}

#[test]
fn write_failures_reconnect_and_controls_are_acknowledged() {
    let error = write_timeout_error("PWON");
    assert_eq!(error, AvrSessionError::Timeout("writing PWON command".into()));
    assert_eq!(write_step(RequestReply::Response, Err(error.clone())), WriteStep::Reconnect(error));
    assert_eq!(write_step(RequestReply::Dispatched, Ok(())), WriteStep::Acknowledge);
    assert_eq!(write_step(RequestReply::Response, Ok(())), WriteStep::ReadResponse);
    assert_eq!(write_step(RequestReply::Nothing, Ok(())), WriteStep::Next);
}

#[test]
fn response_reading_separates_matches_from_notifications() {
    assert_eq!(response_line("MV", b"MV505\r", 135), ResponseLine::Matched("MV505".into()));
    assert_eq!(response_line("MV", b"MVMAX 98\r", 135), ResponseLine::Unsolicited("MVMAX 98".into()));
    assert_eq!(response_line("MV", b"PWON\r", 135), ResponseLine::Unsolicited("PWON".into()));
    assert!(matches!(response_line("MV", b"MV505", 135), ResponseLine::Failed(AvrSessionError::MalformedFrame(_))));
    assert_eq!(
        response_timeout_error("MV"),
        AvrSessionError::Timeout("waiting for MV response".into())
    );
}

#[test]
fn only_transport_level_response_failures_reconnect() {
    assert!(response_failure_reconnects(&AvrSessionError::Timeout("t".into())));
    assert!(response_failure_reconnects(&AvrSessionError::Disconnected("d".into())));
    assert!(response_failure_reconnects(&AvrSessionError::MalformedFrame("m".into())));
    assert!(!response_failure_reconnects(&AvrSessionError::ReceiverError("r".into())));
    assert!(!response_failure_reconnects(&AvrSessionError::SessionStopped));
}

#[test]
fn frames_end_at_cr_and_are_bounded() {
    let mut line = Vec::new();
    assert_eq!(frame_byte(&mut line, b'P', 2), FrameProgress::More);
    assert_eq!(frame_byte(&mut line, b'W', 2), FrameProgress::More);
    assert_eq!(frame_byte(&mut line, b'\r', 2), FrameProgress::Complete);
    assert_eq!(line, b"PW\r".to_vec());
    let mut long = b"PW".to_vec();
    assert_eq!(
        frame_byte(&mut long, b'O', 2),
        FrameProgress::TooLong(AvrSessionError::MalformedFrame("AVR response exceeded 2 bytes".into()))
    );
    assert_eq!(end_of_stream_error(true), AvrSessionError::Disconnected("receiver closed the socket".into()));
    assert_eq!(
        end_of_stream_error(false),
        AvrSessionError::MalformedFrame("AVR line was not terminated by CR".into())
    );
}

#[test]
fn response_families_map_to_main_zone_fields() {
    assert_eq!(response_field("PW"), Some(MainZoneField::Power));
    assert_eq!(response_field("MS"), Some(MainZoneField::SurroundMode));
    assert_eq!(response_field("Z2"), None);
}

#[test]
fn eq_readings_keep_the_reply_and_the_failure() {
    let (state, evidence) = eq_reading(EqFeature::DynamicEq, Ok("PSDYNEQ ON".into()), 12);
    assert_eq!(state, EqState::On);
    assert_eq!(evidence.response.as_deref(), Some("PSDYNEQ ON"));
    assert_eq!(evidence.error, None);
    assert_eq!(evidence.elapsed_millis, 12);

    let (state, evidence) = eq_reading(EqFeature::DynamicEq, Ok("MSSTEREO".into()), 3);
    assert_eq!(state, EqState::Unknown);
    assert_eq!(evidence.error.as_deref(), Some("EQ response has wrong family"));

    let (state, evidence) =
        eq_reading(EqFeature::DiracLive, Err(AvrSessionError::Timeout("waiting for PSDIRAC response".into())), 1000);
    assert_eq!(
        state,
        EqState::Unavailable("AVR session timed out: waiting for PSDIRAC response".into())
    );
    assert_eq!(evidence.response, None);

    let mut status = EqStatus::default();
    set_eq_state(&mut status, EqFeature::DiracLive, state);
    status.record_evidence(evidence);
    finish_eq_refresh(&mut status, 7);
    assert_eq!(status.generation, 7);
    assert_eq!(status.freshness, Freshness::Partial);
    assert!(matches!(status.dirac_live, EqState::Unavailable(_)));
    assert_eq!(status.dynamic_eq, EqState::Unknown);

    let mut clean = EqStatus::default();
    finish_eq_refresh(&mut clean, 1);
    assert_eq!(clean.freshness, Freshness::Live);
}

#[test]
fn a_session_answers_requests_in_turn() {
    let step = session_loop_start();
    assert_eq!(step.work, SessionWork::Publish(AvrSessionEvent::Connected));
    let step = session_loop_step(step.phase, SessionLoopEvent::Published(true));
    assert_eq!((step.phase, step.work), (SessionLoopPhase::Waiting, SessionWork::AwaitRequest));
    let step = session_loop_step(step.phase, SessionLoopEvent::Request(RequestReply::Response));
    assert_eq!((step.phase, step.work), (SessionLoopPhase::Writing(RequestReply::Response), SessionWork::Write));
    let step = session_loop_step(step.phase, SessionLoopEvent::Written(Ok(())));
    assert_eq!((step.phase, step.work), (SessionLoopPhase::Reading, SessionWork::ReadResponse));
    let step = session_loop_step(step.phase, SessionLoopEvent::Response(Ok("PWON".into())));
    assert_eq!(step.answer, Some(SessionAnswer::Answered("PWON".into())));
    assert_eq!(step.apply.as_deref(), Some("PWON"));
    assert_eq!(step.work, SessionWork::AwaitRequest);
    let step = session_loop_step(step.phase, SessionLoopEvent::Request(RequestReply::Dispatched));
    let step = session_loop_step(step.phase, SessionLoopEvent::Written(Ok(())));
    assert_eq!(step.answer, Some(SessionAnswer::Acknowledged));
    let step = session_loop_step(step.phase, SessionLoopEvent::RequestsClosed);
    assert_eq!((step.phase, step.work), (SessionLoopPhase::Stopped, SessionWork::Stop));
}

#[test]
fn a_lost_connection_is_published_and_replaced() {
    let error = AvrSessionError::Timeout("waiting for PW response".into());
    let step = session_loop_step(SessionLoopPhase::Reading, SessionLoopEvent::Response(Err(error.clone())));
    assert_eq!(step.phase, SessionLoopPhase::Disconnecting);
    assert!(step.invalidate);
    assert_eq!(step.answer, Some(SessionAnswer::Failed(error)));
    assert_eq!(step.work, SessionWork::Publish(AvrSessionEvent::Disconnected("AVR session timed out: waiting for PW response".into())));
    let step = session_loop_step(step.phase, SessionLoopEvent::Published(true));
    assert_eq!((step.phase, step.work), (SessionLoopPhase::Reconnecting, SessionWork::Reconnect));
    let step = session_loop_step(step.phase, SessionLoopEvent::Reconnected(true));
    assert!(step.next_generation);
    assert_eq!(step.work, SessionWork::Publish(AvrSessionEvent::Reconnected));
    let step = session_loop_step(step.phase, SessionLoopEvent::Published(true));
    assert_eq!(step.phase, SessionLoopPhase::Waiting);
    let unexpected = AvrSessionError::UnexpectedResponse("x".into());
    let step = session_loop_step(SessionLoopPhase::Reading, SessionLoopEvent::Response(Err(unexpected.clone())));
    assert_eq!(step.phase, SessionLoopPhase::Waiting);
    assert!(!step.invalidate);
    assert_eq!(step.answer, Some(SessionAnswer::Failed(unexpected)));
    let step = session_loop_step(SessionLoopPhase::Waiting, SessionLoopEvent::ReadFailed("reset".into()));
    assert_eq!(step.work, SessionWork::Publish(AvrSessionEvent::Disconnected("reset".into())));
    assert_eq!(step.answer, None);
    let step = session_loop_step(SessionLoopPhase::Reconnecting, SessionLoopEvent::Reconnected(false));
    assert_eq!(step.phase, SessionLoopPhase::Stopped);
}
