//! What the AVR session, its transport and the controller decide, apart from
//! the sockets and tasks that carry them out.
use crate::avr::utf8_str;
use crate::domain::{token_ok, SurroundMode, FieldError, FieldErrorKind, MainZoneControl, MainZoneEvent, MainZoneField, MainZoneValue};
use crate::protocol::avr::response::{main_zone_event_view, event_view, parse_main_zone_event, parse_main_zone_response, main_zone_view, fault_view, value_view, response_matches, ValueView};
use crate::protocol::avr::command::AvrProtocolError;
use crate::response::matches_family;
use crate::domain::eq_status::{state_of, state_view, EqEvidence, EqFeature, EqState, EqStatus, StateView};
use crate::domain::Freshness as Observed;
use crate::protocol::avr::quick_select_eq::{eq_outcome, parse_eq_status};
use crate::text::{chars_of, decimal, decimal_exec, owned, push_chars, push_str, string_of};
use vstd::prelude::*;
use vstd::utf8::*;

verus! {

/// The longest AVR line accepted, without its CR.
pub const DEFAULT_MAX_LINE_LENGTH: usize = 135;

/// Timing and limits of an AVR session; durations in milliseconds.
#[derive(Debug, Clone, PartialEq, Eq)]
pub struct AvrSessionConfig {
    pub connect_timeout_millis: u64,
    pub write_timeout_millis: u64,
    pub response_timeout_millis: u64,
    pub reconnect_attempts: usize,
    pub reconnect_delay_millis: u64,
    pub max_line_length: usize,
    pub app_command_port: u16,
}

impl AvrSessionConfig {
    /// Two seconds to connect, one to write and to answer, three reconnects
    /// 250 ms apart, 135-byte lines, AppCommand on port 8080.
    pub fn default() -> (r: Self)
        ensures
            r.connect_timeout_millis == 2000,
            r.write_timeout_millis == 1000,
            r.response_timeout_millis == 1000,
            r.reconnect_attempts == 3,
            r.reconnect_delay_millis == 250,
            r.max_line_length == DEFAULT_MAX_LINE_LENGTH,
            r.app_command_port == 8080,
    {
        AvrSessionConfig {
            connect_timeout_millis: 2000,
            write_timeout_millis: 1000,
            response_timeout_millis: 1000,
            reconnect_attempts: 3,
            reconnect_delay_millis: 250,
            max_line_length: DEFAULT_MAX_LINE_LENGTH,
            app_command_port: 8080,
        }
    }
}

#[derive(Debug, Clone, PartialEq, Eq)]
pub enum AvrSessionEvent {
    Connected,
    Reconnected,
    Line(String),
    Disconnected(String),
}

#[derive(Debug, Clone, PartialEq, Eq)]
pub enum AvrSessionError {
    InvalidCommand(String),
    Connection(String),
    Timeout(String),
    Disconnected(String),
    MalformedFrame(String),
    UnexpectedResponse(String),
    ReceiverError(String),
    SessionStopped,
}

pub open spec fn session_error_text(e: AvrSessionError) -> Seq<char> {
    match e {
        AvrSessionError::InvalidCommand(m) => "invalid AVR command: "@ + m@,
        AvrSessionError::Connection(m) => "AVR connection failed: "@ + m@,
        AvrSessionError::Timeout(m) => "AVR session timed out: "@ + m@,
        AvrSessionError::Disconnected(m) => "AVR disconnected: "@ + m@,
        AvrSessionError::MalformedFrame(m) => "malformed AVR frame: "@ + m@,
        AvrSessionError::UnexpectedResponse(m) => "unexpected AVR response: "@ + m@,
        AvrSessionError::ReceiverError(m) => "receiver reported an error: "@ + m@,
        AvrSessionError::SessionStopped => "AVR session stopped"@,
    }
}

fn prefixed(prefix: &str, message: &str) -> (r: String)
    ensures
        r@ == prefix@ + message@,
{
    let mut v = chars_of(prefix);
    push_str(&mut v, message);
    string_of(&v)
}

impl AvrSessionError {
    /// The human-readable text of the error.
    pub fn message(&self) -> (r: String)
        ensures
            r@ == session_error_text(*self),
    {
        match self {
            AvrSessionError::InvalidCommand(m) => prefixed("invalid AVR command: ", m.as_str()),
            AvrSessionError::Connection(m) => prefixed("AVR connection failed: ", m.as_str()),
            AvrSessionError::Timeout(m) => prefixed("AVR session timed out: ", m.as_str()),
            AvrSessionError::Disconnected(m) => prefixed("AVR disconnected: ", m.as_str()),
            AvrSessionError::MalformedFrame(m) => prefixed("malformed AVR frame: ", m.as_str()),
            AvrSessionError::UnexpectedResponse(m) => prefixed("unexpected AVR response: ", m.as_str()),
            AvrSessionError::ReceiverError(m) => prefixed("receiver reported an error: ", m.as_str()),
            AvrSessionError::SessionStopped => owned("AVR session stopped"),
        }
    }
}

/// Only a lost connection or a missing answer make a read query worth retrying.
pub fn retryable_query_error(error: &AvrSessionError) -> (r: bool)
    ensures
        r == (error is Disconnected || error is Timeout),
{
    match error {
        AvrSessionError::Disconnected(_) | AvrSessionError::Timeout(_) => true,
        _ => false,
    }
}

pub open spec fn frame_outcome(line: Seq<u8>, max_line_length: usize) -> Result<Seq<char>, Seq<char>> {
    if line.len() == 0 || line.last() != 13u8 {
        Err("AVR line was not terminated by CR"@)
    } else if line.len() - 1 > max_line_length {
        Err("AVR response exceeded "@ + decimal(max_line_length as nat) + " bytes"@)
    } else if !valid_utf8(line.drop_last()) {
        Err("AVR line is not valid UTF-8"@)
    } else {
        Ok(decode_utf8(line.drop_last()))
    }
}

/// The text of one CR-terminated AVR line of at most `max_line_length` bytes.
/// Which reply a queued request waits for.
#[derive(Debug, Clone, Copy, PartialEq, Eq)]
pub enum RequestReply {
    /// A control that only waits for its command to be written.
    Dispatched,
    /// A query that waits for the response of its command's family.
    Response,
    /// Nobody waits.
    Nothing,
}

/// What the session does once a request's command was written, or failed to be.
#[derive(Debug, Clone, PartialEq, Eq)]
pub enum WriteStep {
    /// The write failed: the waiter gets the error, the snapshot is
    /// invalidated, the disconnect is published and the session reconnects.
    Reconnect(AvrSessionError),
    /// A dispatched control is acknowledged without waiting for an echo.
    Acknowledge,
    /// The response of the command's family is read next.
    ReadResponse,
    /// Nothing is owed; the next request is taken.
    Next,
}

/// The session's decision after writing a request's command.
pub fn write_step(reply: RequestReply, written: Result<(), AvrSessionError>) -> (r: WriteStep)
    ensures
        written matches Err(e) ==> r == WriteStep::Reconnect(e),
        written is Ok ==> r == (match reply {
            RequestReply::Dispatched => WriteStep::Acknowledge,
            RequestReply::Response => WriteStep::ReadResponse,
            RequestReply::Nothing => WriteStep::Next,
        }),
{
    match written {
        Err(e) => WriteStep::Reconnect(e),
        Ok(()) => match reply {
            RequestReply::Dispatched => WriteStep::Acknowledge,
            RequestReply::Response => WriteStep::ReadResponse,
            RequestReply::Nothing => WriteStep::Next,
        },
    }
}

/// The failure of a write that did not finish in time.
pub fn write_timeout_error(command: &str) -> (r: AvrSessionError)
    ensures
        r matches AvrSessionError::Timeout(m) && m@ == "writing "@ + command@ + " command"@,
{
    let mut v = chars_of("writing ");
    push_str(&mut v, command);
    push_str(&mut v, " command");
    AvrSessionError::Timeout(string_of(&v))
}

/// The failure of a response that did not come in time.
pub fn response_timeout_error(family: &str) -> (r: AvrSessionError)
    ensures
        r matches AvrSessionError::Timeout(m) && m@ == "waiting for "@ + family@ + " response"@,
{
    let mut v = chars_of("waiting for ");
    push_str(&mut v, family);
    push_str(&mut v, " response");
    AvrSessionError::Timeout(string_of(&v))
}

/// What one line read while a response is awaited means.
#[derive(Debug, Clone, PartialEq, Eq)]
pub enum ResponseLine {
    /// The awaited response.
    Matched(String),
    /// A line of another family: applied as an event and published.
    Unsolicited(String),
    /// The frame is malformed.
    Failed(AvrSessionError),
}

/// Reads one frame while a response of `family` is awaited.
pub fn response_line(family: &str, frame: &[u8], max_line_length: usize) -> (r: ResponseLine)
    ensures
        match frame_outcome(frame@, max_line_length) {
            Err(m) => r matches ResponseLine::Failed(AvrSessionError::MalformedFrame(s)) && s@ == m,
            Ok(text) => if crate::response::matches_family(family@, text) {
                r matches ResponseLine::Matched(s) && s@ == text
            } else {
                r matches ResponseLine::Unsolicited(s) && s@ == text
            },
        },
{
    match frame_text(frame, max_line_length) {
        Err(e) => ResponseLine::Failed(e),
        Ok(text) => if crate::response::response_matches(family, text.as_str()) {
            ResponseLine::Matched(text)
        } else {
            ResponseLine::Unsolicited(text)
        },
    }
}

/// A failed response read costs the connection when the socket may be out of
/// step with the receiver: a timeout, a disconnect or a malformed frame.
pub fn response_failure_reconnects(error: &AvrSessionError) -> (r: bool)
    ensures
        r == (error is Timeout || error is Disconnected || error is MalformedFrame),
{
    match error {
        AvrSessionError::Timeout(_) | AvrSessionError::Disconnected(_) | AvrSessionError::MalformedFrame(_) => true,
        _ => false,
    }
}

/// Where a session's loop stands.
#[derive(Debug, Clone, Copy, PartialEq, Eq)]
pub enum SessionLoopPhase {
    /// `Connected` is being published.
    Announcing,
    /// Waiting for the next request; lines that arrive meanwhile are events.
    Waiting,
    /// The request's command is being written; `RequestReply` says who waits.
    Writing(RequestReply),
    /// The response to the request is being read.
    Reading,
    /// The disconnect is being published.
    Disconnecting,
    /// Connecting again.
    Reconnecting,
    /// `Reconnected` is being published.
    Reannouncing,
    /// The loop is over.
    Stopped,
}

/// What the loop learns from the work it asked for.
pub enum SessionLoopEvent {
    /// The publication went out, or nobody listens any more.
    Published(bool),
    /// The next request, and who waits for it.
    Request(RequestReply),
    /// No request will come any more.
    RequestsClosed,
    /// Reading the connection between requests failed, and why.
    ReadFailed(String),
    /// The write of the request's command ended.
    Written(Result<(), AvrSessionError>),
    /// The read of the request's response ended.
    Response(Result<String, AvrSessionError>),
    /// The new connection was made, or could not be.
    Reconnected(bool),
}

/// What the request's waiter is told.
#[derive(Debug, Clone, PartialEq, Eq)]
pub enum SessionAnswer {
    /// The dispatched command was written.
    Acknowledged,
    /// The response that was read.
    Answered(String),
    /// Why there is no answer.
    Failed(AvrSessionError),
}

/// The work the loop asks for next.
#[derive(Debug, Clone, PartialEq, Eq)]
pub enum SessionWork {
    Publish(AvrSessionEvent),
    AwaitRequest,
    Write,
    ReadResponse,
    Reconnect,
    Stop,
    /// The event does not belong to this phase: nothing to do.
    Ignore,
}

/// One step of the session loop.
#[derive(Debug, Clone, PartialEq, Eq)]
pub struct SessionLoopStep {
    pub phase: SessionLoopPhase,
    /// The answer owed to the request's waiter, if any.
    pub answer: Option<SessionAnswer>,
    /// A response to apply to the snapshot.
    pub apply: Option<String>,
    /// Whether the snapshot is invalidated.
    pub invalidate: bool,
    /// Whether the connection generation advances.
    pub next_generation: bool,
    pub work: SessionWork,
}

/// A disconnect and what follows it: the snapshot is invalidated and the
/// disconnect published; the waiter, if any, gets `answer`.
pub open spec fn disconnects(r: SessionLoopStep, message: Seq<char>, answer: Option<SessionAnswer>) -> bool {
    &&& r.phase == SessionLoopPhase::Disconnecting
    &&& r.answer == answer
    &&& r.apply is None
    &&& r.invalidate
    &&& !r.next_generation
    &&& r.work matches SessionWork::Publish(AvrSessionEvent::Disconnected(m)) && m@ == message
}

/// A step that only moves on: no answer, nothing applied or invalidated.
pub open spec fn moves_on(r: SessionLoopStep, phase: SessionLoopPhase, work: SessionWork) -> bool {
    r == SessionLoopStep { phase, answer: None, apply: None, invalidate: false, next_generation: false, work }
}

fn plain_step(phase: SessionLoopPhase, work: SessionWork) -> (r: SessionLoopStep)
    ensures
        moves_on(r, phase, work),
{
    SessionLoopStep { phase, answer: None, apply: None, invalidate: false, next_generation: false, work }
}

fn disconnect_step(message: String, answer: Option<SessionAnswer>) -> (r: SessionLoopStep)
    ensures
        disconnects(r, message@, answer),
{
    SessionLoopStep {
        phase: SessionLoopPhase::Disconnecting,
        answer,
        apply: None,
        invalidate: true,
        next_generation: false,
        work: SessionWork::Publish(AvrSessionEvent::Disconnected(message)),
    }
}

/// How a session loop begins: by publishing that it is connected.
pub fn session_loop_start() -> (r: SessionLoopStep)
    ensures
        moves_on(r, SessionLoopPhase::Announcing, SessionWork::Publish(AvrSessionEvent::Connected)),
{
    plain_step(SessionLoopPhase::Announcing, SessionWork::Publish(AvrSessionEvent::Connected))
}

/// One step of a session's loop: requests are taken one at a time, written,
/// acknowledged or answered; a failed read between requests, a failed write
/// or a response failure that leaves the connection out of step invalidates
/// the snapshot, publishes the disconnect and reconnects, with a new
/// generation; the loop stops when requests end, nobody listens any more or
/// no new connection can be made.
pub fn session_loop_step(phase: SessionLoopPhase, event: SessionLoopEvent) -> (r: SessionLoopStep)
    ensures
        match (phase, event) {
            (SessionLoopPhase::Stopped, _) => moves_on(r, SessionLoopPhase::Stopped, SessionWork::Stop),
            (SessionLoopPhase::Announcing, SessionLoopEvent::Published(delivered))
            | (SessionLoopPhase::Reannouncing, SessionLoopEvent::Published(delivered)) => if delivered {
                moves_on(r, SessionLoopPhase::Waiting, SessionWork::AwaitRequest)
            } else {
                moves_on(r, SessionLoopPhase::Stopped, SessionWork::Stop)
            },
            (SessionLoopPhase::Disconnecting, SessionLoopEvent::Published(delivered)) => if delivered {
                moves_on(r, SessionLoopPhase::Reconnecting, SessionWork::Reconnect)
            } else {
                moves_on(r, SessionLoopPhase::Stopped, SessionWork::Stop)
            },
            (SessionLoopPhase::Waiting, SessionLoopEvent::Request(reply)) =>
                moves_on(r, SessionLoopPhase::Writing(reply), SessionWork::Write),
            (SessionLoopPhase::Waiting, SessionLoopEvent::RequestsClosed) =>
                moves_on(r, SessionLoopPhase::Stopped, SessionWork::Stop),
            (SessionLoopPhase::Waiting, SessionLoopEvent::ReadFailed(message)) => disconnects(r, message@, None),
            (SessionLoopPhase::Writing(reply), SessionLoopEvent::Written(written)) => match written {
                Err(e) => disconnects(r, session_error_text(e), if reply is Nothing { None } else { Some(SessionAnswer::Failed(e)) }),
                Ok(_) => match reply {
                    RequestReply::Dispatched => r == SessionLoopStep { phase: SessionLoopPhase::Waiting,
                        answer: Some(SessionAnswer::Acknowledged), apply: None, invalidate: false,
                        next_generation: false, work: SessionWork::AwaitRequest },
                    RequestReply::Response => moves_on(r, SessionLoopPhase::Reading, SessionWork::ReadResponse),
                    RequestReply::Nothing => moves_on(r, SessionLoopPhase::Waiting, SessionWork::AwaitRequest),
                },
            },
            (SessionLoopPhase::Reading, SessionLoopEvent::Response(response)) => match response {
                Ok(text) => r == SessionLoopStep { phase: SessionLoopPhase::Waiting,
                    answer: Some(SessionAnswer::Answered(text)), apply: Some(text), invalidate: false,
                    next_generation: false, work: SessionWork::AwaitRequest },
                Err(e) => if e is Timeout || e is Disconnected || e is MalformedFrame {
                    disconnects(r, session_error_text(e), Some(SessionAnswer::Failed(e)))
                } else {
                    r == SessionLoopStep { phase: SessionLoopPhase::Waiting, answer: Some(SessionAnswer::Failed(e)),
                        apply: None, invalidate: false, next_generation: false, work: SessionWork::AwaitRequest }
                },
            },
            (SessionLoopPhase::Reconnecting, SessionLoopEvent::Reconnected(connected)) => if connected {
                r == SessionLoopStep { phase: SessionLoopPhase::Reannouncing, answer: None, apply: None,
                    invalidate: false, next_generation: true, work: SessionWork::Publish(AvrSessionEvent::Reconnected) }
            } else {
                moves_on(r, SessionLoopPhase::Stopped, SessionWork::Stop)
            },
            _ => moves_on(r, phase, SessionWork::Ignore),
        },
        (r.work matches SessionWork::Publish(AvrSessionEvent::Disconnected(_))) ==> r.invalidate,
        r.next_generation ==> r.work == SessionWork::Publish(AvrSessionEvent::Reconnected),
        phase is Stopped ==> r.phase is Stopped,
{
    match (phase, event) {
        (SessionLoopPhase::Stopped, _) => plain_step(SessionLoopPhase::Stopped, SessionWork::Stop),
        (SessionLoopPhase::Announcing, SessionLoopEvent::Published(delivered))
        | (SessionLoopPhase::Reannouncing, SessionLoopEvent::Published(delivered)) => if delivered {
            plain_step(SessionLoopPhase::Waiting, SessionWork::AwaitRequest)
        } else {
            plain_step(SessionLoopPhase::Stopped, SessionWork::Stop)
        },
        (SessionLoopPhase::Disconnecting, SessionLoopEvent::Published(delivered)) => if delivered {
            plain_step(SessionLoopPhase::Reconnecting, SessionWork::Reconnect)
        } else {
            plain_step(SessionLoopPhase::Stopped, SessionWork::Stop)
        },
        (SessionLoopPhase::Waiting, SessionLoopEvent::Request(reply)) => plain_step(SessionLoopPhase::Writing(reply), SessionWork::Write),
        (SessionLoopPhase::Waiting, SessionLoopEvent::RequestsClosed) => plain_step(SessionLoopPhase::Stopped, SessionWork::Stop),
        (SessionLoopPhase::Waiting, SessionLoopEvent::ReadFailed(message)) => disconnect_step(message, None),
        (SessionLoopPhase::Writing(reply), SessionLoopEvent::Written(written)) => match write_step(reply, written) {
            WriteStep::Reconnect(e) => {
                let message = e.message();
                let answer = match reply {
                    RequestReply::Nothing => None,
                    _ => Some(SessionAnswer::Failed(e)),
                };
                disconnect_step(message, answer)
            },
            WriteStep::Acknowledge => SessionLoopStep {
                phase: SessionLoopPhase::Waiting,
                answer: Some(SessionAnswer::Acknowledged),
                apply: None,
                invalidate: false,
                next_generation: false,
                work: SessionWork::AwaitRequest,
            },
            WriteStep::ReadResponse => plain_step(SessionLoopPhase::Reading, SessionWork::ReadResponse),
            WriteStep::Next => plain_step(SessionLoopPhase::Waiting, SessionWork::AwaitRequest),
        },
        (SessionLoopPhase::Reading, SessionLoopEvent::Response(response)) => match response {
            Ok(text) => SessionLoopStep {
                phase: SessionLoopPhase::Waiting,
                answer: Some(SessionAnswer::Answered(text.clone())),
                apply: Some(text),
                invalidate: false,
                next_generation: false,
                work: SessionWork::AwaitRequest,
            },
            Err(e) => if response_failure_reconnects(&e) {
                let message = e.message();
                disconnect_step(message, Some(SessionAnswer::Failed(e)))
            } else {
                SessionLoopStep {
                    phase: SessionLoopPhase::Waiting,
                    answer: Some(SessionAnswer::Failed(e)),
                    apply: None,
                    invalidate: false,
                    next_generation: false,
                    work: SessionWork::AwaitRequest,
                }
            },
        },
        (SessionLoopPhase::Reconnecting, SessionLoopEvent::Reconnected(connected)) => if connected {
            SessionLoopStep {
                phase: SessionLoopPhase::Reannouncing,
                answer: None,
                apply: None,
                invalidate: false,
                next_generation: true,
                work: SessionWork::Publish(AvrSessionEvent::Reconnected),
            }
        } else {
            plain_step(SessionLoopPhase::Stopped, SessionWork::Stop)
        },
        (phase, _) => plain_step(phase, SessionWork::Ignore),
    }
}

/// Where a frame being read stands after one more byte.
#[derive(Debug, Clone, PartialEq, Eq)]
pub enum FrameProgress {
    /// The CR arrived: the frame is complete.
    Complete,
    /// More bytes are needed.
    More,
    /// The frame grew past the limit.
    TooLong(AvrSessionError),
}

/// Appends a byte read from the socket to the frame being read.
pub fn frame_byte(line: &mut Vec<u8>, byte: u8, max_line_length: usize) -> (r: FrameProgress)
    ensures
        final(line)@ == old(line)@.push(byte),
        byte == 13u8 ==> r == FrameProgress::Complete,
        byte != 13u8 && final(line)@.len() > max_line_length ==> (r matches FrameProgress::TooLong(
            AvrSessionError::MalformedFrame(m)) && m@ == "AVR response exceeded "@ + decimal(
            max_line_length as nat) + " bytes"@),
        byte != 13u8 && final(line)@.len() <= max_line_length ==> r == FrameProgress::More,
{
    line.push(byte);
    if byte == 13u8 {
        return FrameProgress::Complete;
    }
    if line.len() > max_line_length {
        let mut v = chars_of("AVR response exceeded ");
        let n = decimal_exec(max_line_length as u64);
        push_chars(&mut v, &n);
        push_str(&mut v, " bytes");
        return FrameProgress::TooLong(AvrSessionError::MalformedFrame(string_of(&v)));
    }
    FrameProgress::More
}

/// The failure when the socket ends: a clean close between frames, a
/// malformed frame in the middle of one.
pub fn end_of_stream_error(line_is_empty: bool) -> (r: AvrSessionError)
    ensures
        line_is_empty ==> (r matches AvrSessionError::Disconnected(m) && m@ == "receiver closed the socket"@),
        !line_is_empty ==> (r matches AvrSessionError::MalformedFrame(m) && m@ == "AVR line was not terminated by CR"@),
{
    if line_is_empty {
        AvrSessionError::Disconnected(owned("receiver closed the socket"))
    } else {
        AvrSessionError::MalformedFrame(owned("AVR line was not terminated by CR"))
    }
}

/// The main-zone field a response family answers for, if any.
pub fn response_field(family: &str) -> (r: Option<MainZoneField>)
    ensures
        family@ == "PW"@ ==> r == Some(MainZoneField::Power),
        family@ == "SI"@ ==> r == Some(MainZoneField::Input),
        family@ == "MV"@ ==> r == Some(MainZoneField::Volume),
        family@ == "MU"@ ==> r == Some(MainZoneField::Mute),
        family@ == "MS"@ ==> r == Some(MainZoneField::SurroundMode),
        !(family@ == "PW"@ || family@ == "SI"@ || family@ == "MV"@ || family@ == "MU"@ || family@
            == "MS"@) ==> r is None,
{
    proof {
        reveal_strlit("PW");
        reveal_strlit("SI");
        reveal_strlit("MV");
        reveal_strlit("MU");
        reveal_strlit("MS");
        assert("PW"@[0] != "SI"@[0] && "PW"@[0] != "MV"@[0] && "PW"@[0] != "MU"@[0]);
        assert("SI"@[0] != "MV"@[0] && "SI"@[0] != "MU"@[0] && "MV"@[1] != "MU"@[1]);
    }
    if crate::text::str_eq(family, "PW") {
        Some(MainZoneField::Power)
    } else if crate::text::str_eq(family, "SI") {
        Some(MainZoneField::Input)
    } else if crate::text::str_eq(family, "MV") {
        Some(MainZoneField::Volume)
    } else if crate::text::str_eq(family, "MU") {
        Some(MainZoneField::Mute)
    } else if crate::text::str_eq(family, "MS") {
        Some(MainZoneField::SurroundMode)
    } else {
        None
    }
}

/// Every failure is `MalformedFrame`.
pub fn frame_text(line: &[u8], max_line_length: usize) -> (r: Result<String, AvrSessionError>)
    ensures
        match frame_outcome(line@, max_line_length) {
            Ok(text) => r matches Ok(s) && s@ == text,
            Err(m) => r matches Err(AvrSessionError::MalformedFrame(s)) && s@ == m,
        },
{
    if line.len() == 0 || line[line.len() - 1] != 13u8 {
        return Err(AvrSessionError::MalformedFrame(owned("AVR line was not terminated by CR")));
    }
    if line.len() - 1 > max_line_length {
        let mut v = chars_of("AVR response exceeded ");
        let n = decimal_exec(max_line_length as u64);
        push_chars(&mut v, &n);
        push_str(&mut v, " bytes");
        return Err(AvrSessionError::MalformedFrame(string_of(&v)));
    }
    let body = crate::bytes::bytes_range(line, 0, line.len() - 1);
    assert(body@ =~= line@.drop_last());
    match utf8_str(&body) {
        Ok(text) => Ok(owned(text)),
        Err(_) => Err(AvrSessionError::MalformedFrame(owned("AVR line is not valid UTF-8"))),
    }
}

pub open spec fn guidance_text(message: Seq<char>) -> Seq<char> {
    message + "; verify Network Control is enabled and no other Telnet client is connected"@
}

/// A connection failure message with what usually causes one.
pub fn initial_connection_guidance(message: &str) -> (r: String)
    ensures
        r@ == guidance_text(message@),
{
    prefixed(message, "; verify Network Control is enabled and no other Telnet client is connected")
}

/// The kind of an application-level operation failure.
#[derive(Debug, Clone, Copy, PartialEq, Eq, Structural)]
pub enum OperationErrorKind {
    Connection,
    Timeout,
    Disconnected,
    Malformed,
    Unsupported,
    Unavailable,
    Stopped,
    Discovery,
    Configuration,
}

/// An application-level operation failure: its kind, what was being done and why it failed.
#[derive(Debug, Clone, PartialEq, Eq)]
pub struct OperationError {
    pub kind: OperationErrorKind,
    pub context: String,
    pub message: String,
}

impl OperationError {
    pub fn new(kind: OperationErrorKind, context: &str, message: &str) -> (r: Self)
        ensures
            r.kind == kind,
            r.context@ == context@,
            r.message@ == message@,
    {
        OperationError { kind, context: owned(context), message: owned(message) }
    }

    /// `"{context}: {message}"`.
    pub fn text(&self) -> (r: String)
        ensures
            r@ == self.context@ + ": "@ + self.message@,
    {
        let mut v = chars_of(self.context.as_str());
        push_str(&mut v, ": ");
        push_str(&mut v, self.message.as_str());
        string_of(&v)
    }
}

pub open spec fn session_error_kind(e: AvrSessionError) -> OperationErrorKind {
    match e {
        AvrSessionError::InvalidCommand(_) | AvrSessionError::UnexpectedResponse(_) => OperationErrorKind::Malformed,
        AvrSessionError::Connection(_) => OperationErrorKind::Connection,
        AvrSessionError::Timeout(_) => OperationErrorKind::Timeout,
        AvrSessionError::Disconnected(_) => OperationErrorKind::Disconnected,
        AvrSessionError::MalformedFrame(_) => OperationErrorKind::Malformed,
        AvrSessionError::ReceiverError(_) => OperationErrorKind::Unsupported,
        AvrSessionError::SessionStopped => OperationErrorKind::Stopped,
    }
}

/// A session failure as an operation failure "using AVR session".
pub fn operation_error_of(error: &AvrSessionError) -> (r: OperationError)
    ensures
        r.kind == session_error_kind(*error),
        r.context@ == "using AVR session"@,
        r.message@ == session_error_text(*error),
{
    let kind = match error {
        AvrSessionError::InvalidCommand(_) | AvrSessionError::UnexpectedResponse(_) => OperationErrorKind::Malformed,
        AvrSessionError::Connection(_) => OperationErrorKind::Connection,
        AvrSessionError::Timeout(_) => OperationErrorKind::Timeout,
        AvrSessionError::Disconnected(_) => OperationErrorKind::Disconnected,
        AvrSessionError::MalformedFrame(_) => OperationErrorKind::Malformed,
        AvrSessionError::ReceiverError(_) => OperationErrorKind::Unsupported,
        AvrSessionError::SessionStopped => OperationErrorKind::Stopped,
    };
    OperationError { kind, context: owned("using AVR session"), message: error.message() }
}

/// The session actor is gone.
pub fn stopped() -> (r: OperationError)
    ensures
        r.kind == OperationErrorKind::Stopped,
        r.context@ == "receiver session"@,
        r.message@ == "session actor stopped"@,
{
    OperationError::new(OperationErrorKind::Stopped, "receiver session", "session actor stopped")
}

/// A controller refusal in `context`.
pub fn invalid(context: &str, message: &str) -> (r: OperationError)
    ensures
        r.kind == OperationErrorKind::Stopped,
        r.context@ == context@,
        r.message@ == message@,
{
    OperationError::new(OperationErrorKind::Stopped, context, message)
}

/// The controller is stopped.
pub fn controller_stopped() -> (r: OperationError)
    ensures
        r.kind == OperationErrorKind::Stopped,
        r.context@ == "controller"@,
        r.message@ == "controller is stopped"@,
{
    invalid("controller", "controller is stopped")
}

pub open spec fn field_error_kind(kind: OperationErrorKind) -> FieldErrorKind {
    match kind {
        OperationErrorKind::Timeout => FieldErrorKind::Timeout,
        OperationErrorKind::Disconnected | OperationErrorKind::Connection => FieldErrorKind::Disconnected,
        OperationErrorKind::Malformed => FieldErrorKind::Malformed,
        OperationErrorKind::Unsupported => FieldErrorKind::Unsupported,
        _ => FieldErrorKind::Unavailable,
    }
}

/// An operation failure as the error of the field it concerned.
pub fn field_error(e: &OperationError) -> (r: FieldError)
    ensures
        r.kind == field_error_kind(e.kind),
        r.message@ == e.context@ + ": "@ + e.message@,
{
    let kind = match e.kind {
        OperationErrorKind::Timeout => FieldErrorKind::Timeout,
        OperationErrorKind::Disconnected | OperationErrorKind::Connection => FieldErrorKind::Disconnected,
        OperationErrorKind::Malformed => FieldErrorKind::Malformed,
        OperationErrorKind::Unsupported => FieldErrorKind::Unsupported,
        _ => FieldErrorKind::Unavailable,
    };
    FieldError { kind, message: e.text() }
}

pub open spec fn control_field_of(c: MainZoneControl) -> MainZoneField {
    match c {
        MainZoneControl::Power(_) => MainZoneField::Power,
        MainZoneControl::Input(_) => MainZoneField::Input,
        MainZoneControl::Volume(_) => MainZoneField::Volume,
        MainZoneControl::Mute(_) => MainZoneField::Mute,
        MainZoneControl::SurroundMode(_) => MainZoneField::SurroundMode,
    }
}

/// The field a control changes.
pub fn control_field(c: &MainZoneControl) -> (r: MainZoneField)
    ensures
        r == control_field_of(*c),
{
    match c {
        MainZoneControl::Power(_) => MainZoneField::Power,
        MainZoneControl::Input(_) => MainZoneField::Input,
        MainZoneControl::Volume(_) => MainZoneField::Volume,
        MainZoneControl::Mute(_) => MainZoneField::Mute,
        MainZoneControl::SurroundMode(_) => MainZoneField::SurroundMode,
    }
}

/// The connection as the session reports it.
#[derive(Debug, Clone, Copy, PartialEq, Eq, Structural)]
pub enum ConnectionState {
    Connecting,
    Connected,
    Reconnecting,
    Disconnected,
}

#[derive(Debug, Clone, PartialEq, Eq)]
pub enum SessionEvent {
    Connection(ConnectionState),
    MainZone(MainZoneEvent),
}

/// An unsolicited line as a main-zone event; a line no field claims stays as it came.
pub fn session_event(line: &str) -> (r: SessionEvent)
    ensures
        r matches SessionEvent::MainZone(e) && main_zone_event_view(e) == event_view(line@),
{
    SessionEvent::MainZone(parse_main_zone_event(line))
}

#[derive(Debug, Clone, Copy, PartialEq, Eq, Structural)]
pub enum TransportConnectionState {
    Connected,
    Reconnecting,
    Disconnected,
}

#[derive(Debug, Clone, PartialEq, Eq)]
pub enum TransportEvent {
    Line(String),
    State(TransportConnectionState),
}

#[derive(Debug, Clone, PartialEq, Eq)]
pub enum TransportError {
    InvalidCommand(String),
    Connection(String),
    Timeout(String),
    Disconnected(String),
    Malformed(String),
    Unexpected(String),
    Stopped,
}

/// A session failure as a transport failure, its message kept.
pub fn transport_error(e: AvrSessionError) -> (r: TransportError)
    ensures
        match e {
            AvrSessionError::InvalidCommand(x) => r == TransportError::InvalidCommand(x),
            AvrSessionError::Connection(x) => r == TransportError::Connection(x),
            AvrSessionError::Timeout(x) => r == TransportError::Timeout(x),
            AvrSessionError::Disconnected(x) => r == TransportError::Disconnected(x),
            AvrSessionError::MalformedFrame(x) => r == TransportError::Malformed(x),
            AvrSessionError::UnexpectedResponse(x) => r == TransportError::Unexpected(x),
            AvrSessionError::ReceiverError(x) => r == TransportError::Unexpected(x),
            AvrSessionError::SessionStopped => r == TransportError::Stopped,
        },
{
    match e {
        AvrSessionError::InvalidCommand(x) => TransportError::InvalidCommand(x),
        AvrSessionError::Connection(x) => TransportError::Connection(x),
        AvrSessionError::Timeout(x) => TransportError::Timeout(x),
        AvrSessionError::Disconnected(x) => TransportError::Disconnected(x),
        AvrSessionError::MalformedFrame(x) => TransportError::Malformed(x),
        AvrSessionError::UnexpectedResponse(x) => TransportError::Unexpected(x),
        AvrSessionError::SessionStopped => TransportError::Stopped,
        AvrSessionError::ReceiverError(x) => TransportError::Unexpected(x),
    }
}

/// A session event as the transport reports it: (re)connection is `Connected`.
pub fn transport_event(event: AvrSessionEvent) -> (r: TransportEvent)
    ensures
        match event {
            AvrSessionEvent::Connected => r == TransportEvent::State(TransportConnectionState::Connected),
            AvrSessionEvent::Reconnected => r == TransportEvent::State(TransportConnectionState::Connected),
            AvrSessionEvent::Line(line) => r == TransportEvent::Line(line),
            AvrSessionEvent::Disconnected(_) => r == TransportEvent::State(TransportConnectionState::Disconnected),
        },
{
    match event {
        AvrSessionEvent::Connected => TransportEvent::State(TransportConnectionState::Connected),
        AvrSessionEvent::Reconnected => TransportEvent::State(TransportConnectionState::Connected),
        AvrSessionEvent::Line(line) => TransportEvent::Line(line),
        AvrSessionEvent::Disconnected(_) => TransportEvent::State(TransportConnectionState::Disconnected),
    }
}

/// Where the controller's receiver connection stands.
#[derive(Debug, Clone, Copy, PartialEq, Eq, Structural)]
pub enum Lifecycle {
    NoReceiver,
    Selected,
    Connecting,
    Connected { generation: u64 },
    Reconnecting { generation: u64 },
    Disconnected,
    Stopping,
    Stopped,
}

/// What the controller reports for observation.
#[derive(Debug, Clone, PartialEq, Eq)]
pub enum Diagnostic {
    ConnectionGeneration(u64),
    ReconnectAttempt { attempt: usize },
    Timeout { context: String },
    MalformedFrame { context: String },
    QueuePressure { queued: usize },
    Shutdown,
}


/// What one EQ status query leaves: the feature's state, and the evidence
/// record with the reply or the failure and how long the query took.
pub fn eq_reading(feature: EqFeature, reply: Result<String, AvrSessionError>, elapsed_millis: u128) -> (r: (EqState, EqEvidence))
    ensures
        r.1.feature == feature,
        r.1.elapsed_millis == elapsed_millis,
        reply matches Err(e) ==> (r.0 matches EqState::Unavailable(m) && m@ == session_error_text(e)),
        reply matches Err(e) ==> (r.1.response is None && (r.1.error matches Some(x) && x@ == session_error_text(e))),
        reply matches Ok(text) ==> (r.1.response matches Some(x) && x@ == text@),
        reply matches Ok(text) ==> (match eq_outcome(feature, text@) {
            Ok(s) => state_view(r.0) == s && r.1.error is None,
            Err(m) => r.0 is Unknown && (r.1.error matches Some(x) && x@ == m),
        }),
{
    match reply {
        Ok(text) => match parse_eq_status(feature, text.as_str()) {
            Ok(state) => (state, EqEvidence { feature, response: Some(text), error: None, elapsed_millis }),
            Err(error) => {
                let message = error.message();
                (EqState::Unknown, EqEvidence { feature, response: Some(text), error: Some(message), elapsed_millis })
            },
        },
        Err(error) => {
            let message = error.message();
            let copy = owned(message.as_str());
            (EqState::Unavailable(message), EqEvidence { feature, response: None, error: Some(copy), elapsed_millis })
        },
    }
}

/// Sets the state of one feature, leaving the others.
pub fn set_eq_state(status: &mut EqStatus, feature: EqFeature, state: EqState)
    ensures
        state_of(*final(status), feature) == state,
        forall|f: EqFeature| f != feature ==> state_of(*final(status), f) == state_of(*old(status), f),
        final(status).evidence == old(status).evidence,
        final(status).generation == old(status).generation,
        final(status).freshness == old(status).freshness,
{
    match feature {
        EqFeature::MultEqXt32 => status.multeq_xt32 = state,
        EqFeature::DynamicEq => status.dynamic_eq = state,
        EqFeature::DynamicEqReferenceLevel => status.dynamic_eq_reference_level = state,
        EqFeature::DynamicVolume => status.dynamic_volume = state,
        EqFeature::AudysseyLfc => status.audyssey_lfc = state,
        EqFeature::DiracLive => status.dirac_live = state,
    }
}

/// Closes an EQ refresh: the status belongs to connection `generation`, and
/// it is partial when any query failed, live otherwise.
pub fn finish_eq_refresh(status: &mut EqStatus, generation: u64)
    ensures
        final(status).generation == generation,
        final(status).freshness == (if (exists|i: int| 0 <= i < old(status).evidence@.len()
            && (#[trigger] old(status).evidence@[i]).error is Some) {
            Observed::Partial
        } else {
            Observed::Live
        }),
        final(status).evidence == old(status).evidence,
        forall|f: EqFeature| state_of(*final(status), f) == state_of(*old(status), f),
{
    let mut failed = false;
    let mut i: usize = 0;
    while i < status.evidence.len()
        invariant
            i <= status.evidence@.len(),
            failed <==> (exists|j: int| 0 <= j < i && (#[trigger] status.evidence@[j]).error is Some),
        decreases status.evidence@.len() - i,
    {
        if status.evidence[i].error.is_some() {
            failed = true;
        }
        i += 1;
    }
    status.generation = generation;
    status.freshness = if failed { Observed::Partial } else { Observed::Live };
}


/// The audio-context queries, in the order they are asked.
pub open spec fn audio_context_commands() -> Seq<Seq<char>> {
    seq!["SI?"@, "SD?"@, "DC?"@, "MS?"@, "CV?"@]
}

pub fn audio_context_command_list() -> (r: Vec<&'static str>)
    ensures
        r@.map_values(|c: &'static str| c@) == audio_context_commands(),
{
    let r = vec!["SI?", "SD?", "DC?", "MS?", "CV?"];
    assert(r@.map_values(|c: &'static str| c@) =~= audio_context_commands());
    r
}

/// What one audio-context answer says of its field.
#[derive(Debug, Clone, PartialEq, Eq)]
pub enum ContextReading {
    /// The value after the family.
    Known(String),
    /// The answer does not carry a value of the family.
    Malformed,
    /// The query failed.
    Unavailable(FieldError),
}

/// The value of an answer to `family`: what follows the family, if anything does.
pub open spec fn family_value(family: Seq<char>, reply: Seq<char>) -> Option<Seq<char>> {
    if crate::text::has_prefix(reply, family) && reply.len() > family.len() {
        Some(reply.skip(family.len() as int))
    } else {
        None
    }
}

/// Reads the answer to one audio-context query whose family is `family`
/// (its command without `?`): a value after the family is known, except that
/// a surround mode must also be a protocol token; a failed query leaves the
/// field unavailable with the failure's message.
pub fn audio_context_reading(family: &str, reply: Result<String, AvrSessionError>) -> (r: ContextReading)
    ensures
        reply matches Err(e) ==> (r matches ContextReading::Unavailable(f) && f.kind == FieldErrorKind::Unavailable
            && f.message@ == session_error_text(e)),
        reply matches Ok(text) ==> (match family_value(family@, text@) {
            None => r == ContextReading::Malformed,
            Some(v) => if family@ == "MS"@ && !token_ok(v) {
                r == ContextReading::Malformed
            } else {
                r matches ContextReading::Known(x) && x@ == v
            },
        }),
{
    match reply {
        Err(e) => ContextReading::Unavailable(FieldError { kind: FieldErrorKind::Unavailable, message: e.message() }),
        Ok(text) => {
            let t = chars_of(text.as_str());
            let f = chars_of(family);
            if !(crate::text::starts_with(&t, &f) && t.len() > f.len()) {
                return ContextReading::Malformed;
            }
            let value = crate::text::sub_vec(&t, f.len(), t.len());
            assert(value@ =~= text@.skip(family@.len() as int));
            let value = string_of(&value);
            if crate::text::str_eq(family, "MS") {
                match SurroundMode::new(value.as_str()) {
                    Ok(_) => ContextReading::Known(value),
                    Err(_) => ContextReading::Malformed,
                }
            } else {
                ContextReading::Known(value)
            }
        },
    }
}


/// The text of a line the synchronous client read up to a CR: without the CR,
/// which must be there, and as UTF-8.
pub fn sync_line_text(line: &[u8]) -> (r: Result<String, OperationError>)
    ensures
        (line@.len() == 0 || line@.last() != 13u8) ==> (r matches Err(e) && e.kind == OperationErrorKind::Malformed
            && e.context@ == "reading AVR line"@ && e.message@ == "line was not terminated by CR"@),
        line@.len() > 0 && line@.last() == 13u8 ==> (valid_utf8(line@.drop_last()) <==> r is Ok),
        line@.len() > 0 && line@.last() == 13u8 && valid_utf8(line@.drop_last()) ==> (r matches Ok(t) && t@ == decode_utf8(line@.drop_last())),
        line@.len() > 0 && line@.last() == 13u8 && !valid_utf8(line@.drop_last()) ==> (r matches Err(e)
            && e.kind == OperationErrorKind::Malformed && e.context@ == "reading AVR line"@),
{
    if line.len() == 0 || line[line.len() - 1] != 13u8 {
        return Err(OperationError::new(OperationErrorKind::Malformed, "reading AVR line", "line was not terminated by CR"));
    }
    let body = crate::bytes::bytes_range(line, 0, line.len() - 1);
    assert(body@ =~= line@.drop_last());
    match utf8_str(&body) {
        Ok(text) => Ok(owned(text)),
        Err(message) => Err(OperationError::new(OperationErrorKind::Malformed, "reading AVR line", message.as_str())),
    }
}

/// What a line read while the synchronous client waits for `field` means:
/// `None` for a line of another family, else the parsed value, a parse
/// failure being a malformed response.
pub fn sync_response(field: MainZoneField, family: &str, line: &str) -> (r: Result<Option<MainZoneValue>, OperationError>)
    ensures
        !matches_family(family@, line@) ==> r == Ok::<Option<MainZoneValue>, OperationError>(None),
        matches_family(family@, line@) ==> (match main_zone_view(field, line@) {
            Ok(v) => r matches Ok(Some(x)) && value_view(x) == v,
            Err(_) => r matches Err(e) && e.kind == OperationErrorKind::Malformed && e.context@ == "parsing AVR response"@,
        }),
{
    if !response_matches(family, line) {
        return Ok(None);
    }
    match parse_main_zone_response(field, line) {
        Ok(v) => Ok(Some(v)),
        Err(error) => {
            let message = error.message();
            Err(OperationError::new(OperationErrorKind::Malformed, "parsing AVR response", message.as_str()))
        },
    }
}

/// An unsolicited line of the synchronous client: a main-zone event, or,
/// when no field claims it, a sign that the connection is alive.
pub fn sync_event(line: &str) -> (r: SessionEvent)
    ensures
        event_view(line@) is Err ==> r == SessionEvent::Connection(ConnectionState::Connected),
        event_view(line@) is Ok ==> (r matches SessionEvent::MainZone(e) && main_zone_event_view(e) == event_view(line@)),
{
    match parse_main_zone_event(line) {
        MainZoneEvent::Unknown(_) => SessionEvent::Connection(ConnectionState::Connected),
        event => SessionEvent::MainZone(event),
    }
}

} // verus!
