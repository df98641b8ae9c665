//! Main-zone AVR status snapshots and the line discipline of the TCP transport.
use crate::avr::{utf8_str, strip_cr};
use crate::response::{result_view, tenths_exec, tenths_text, unexpected_message, unexpected_text, volume_code_tenths, code_valid, code_db_tenths, prefixed_result};
use crate::text::{chars_of, eq_chars, has_prefix, index_of, first_index, lemma_first_index, owned, push_chars, push_str, starts_with, str_eq, string_of, string_range, sub_vec};
use crate::domain::MainZoneField;
use vstd::prelude::*;
use vstd::utf8::*;

verus! {

#[derive(Debug, Clone, PartialEq, Eq)]
pub struct StatusField {
    pub value: Option<String>,
    pub error: Option<String>,
}

/// A field shown as a value or as the reason it is unavailable.
pub open spec fn field_of(r: Result<Seq<char>, Seq<char>>) -> (Option<Seq<char>>, Option<Seq<char>>) {
    match r {
        Ok(v) => (Some(v), None),
        Err(e) => (None, Some(e)),
    }
}

impl StatusField {
    pub open spec fn view(&self) -> (Option<Seq<char>>, Option<Seq<char>>) {
        (
            match self.value {
                Some(v) => Some(v@),
                None => None,
            },
            match self.error {
                Some(e) => Some(e@),
                None => None,
            },
        )
    }

    pub fn value(value: String) -> (f: Self)
        ensures
            f.view() == field_of(Ok(value@)),
    {
        StatusField { value: Some(value), error: None }
    }

    pub fn unavailable(error: String) -> (f: Self)
        ensures
            f.view() == field_of(Err(error@)),
    {
        StatusField { value: None, error: Some(error) }
    }
}

#[derive(Debug, Clone, PartialEq, Eq)]
pub struct MainZoneStatus {
    pub power: StatusField,
    pub input: StatusField,
    pub volume: StatusField,
    pub mute: StatusField,
    pub surround_mode: StatusField,
}

#[derive(Debug)]
pub enum StatusError {
    Connection(String),
    Transport(String),
}

impl StatusError {
    pub open spec fn text(&self) -> Seq<char> {
        match self {
            StatusError::Connection(m) => "connection failed: "@ + m@,
            StatusError::Transport(m) => "transport failed: "@ + m@,
        }
    }

    /// The error's human-readable text.
    pub fn message(&self) -> (r: String)
        ensures
            r@ == self.text(),
    {
        let mut v: Vec<char> = Vec::new();
        match self {
            StatusError::Connection(m) => {
                push_str(&mut v, "connection failed: ");
                push_str(&mut v, m.as_str());
            },
            StatusError::Transport(m) => {
                push_str(&mut v, "transport failed: ");
                push_str(&mut v, m.as_str());
            },
        }
        string_of(&v)
    }
}

/// What a transport has exchanged, oldest first: each command sent and what
/// came back for it.
pub type ExchangeLog = Seq<(Seq<char>, Result<Seq<char>, Seq<char>>)>;

/// A request/response channel to one receiver.
pub trait AvrTransport {
    /// The exchanges made on this transport so far.
    spec fn exchanges(&self) -> ExchangeLog;

    /// Sends `command` and hands back the reply or why there is none; the
    /// exchange is added to the log.
    fn query(&mut self, command: &str) -> (r: Result<String, String>)
        ensures
            final(self).exchanges() == old(self).exchanges().push((command@, result_view(r))),
    ;
}

/// The commands of a log, in order.
pub open spec fn commands_of(log: ExchangeLog) -> Seq<Seq<char>> {
    log.map_values(|e: (Seq<char>, Result<Seq<char>, Seq<char>>)| e.0)
}

/// The replies of a log, in order.
pub open spec fn replies_of(log: ExchangeLog) -> Seq<Result<Seq<char>, Seq<char>>> {
    log.map_values(|e: (Seq<char>, Result<Seq<char>, Seq<char>>)| e.1)
}

/// What `after` adds to the log `before`, when it extends it.
pub open spec fn added_exchanges(before: ExchangeLog, after: ExchangeLog) -> ExchangeLog {
    after.skip(before.len() as int)
}

/// `after` keeps `before` as its beginning.
pub open spec fn extends(after: ExchangeLog, before: ExchangeLog) -> bool {
    before.len() <= after.len() && after.take(before.len() as int) == before
}

/// The status text of a power response; main-zone (`ZM`) replies count too.
pub open spec fn power_status(response: Seq<char>) -> Result<Seq<char>, Seq<char>> {
    if response == "PWON"@ || response == "ZMON"@ {
        Ok("on"@)
    } else if response == "PWSTANDBY"@ || response == "ZMSTANDBY"@ {
        Ok("standby"@)
    } else if has_prefix(response, "PW"@) || has_prefix(response, "ZM"@) {
        Err("unsupported power response "@ + response)
    } else {
        Err(unexpected_text("power"@, response))
    }
}

pub open spec fn volume_status(response: Seq<char>) -> Result<Seq<char>, Seq<char>> {
    if !has_prefix(response, "MV"@) {
        Err(unexpected_text("volume"@, response))
    } else {
        let code = response.skip(2);
        if code.len() == 0 {
            Err("volume response is empty"@)
        } else if code_valid(code) {
            Ok("code "@ + code + " ("@ + tenths_text(code_db_tenths(code)) + " dB)"@)
        } else {
            Err("invalid volume code "@ + code)
        }
    }
}

pub open spec fn mute_status(response: Seq<char>) -> Result<Seq<char>, Seq<char>> {
    if response == "MUON"@ {
        Ok("on"@)
    } else if response == "MUOFF"@ {
        Ok("off"@)
    } else {
        Err(unexpected_text("mute"@, response))
    }
}

/// The parser a status field applies to its response.
#[derive(Clone, Copy)]
pub enum StatusParser {
    Power,
    Input,
    Volume,
    Mute,
    SurroundMode,
}

pub open spec fn status_parse(parser: StatusParser, response: Seq<char>) -> Result<Seq<char>, Seq<char>> {
    match parser {
        StatusParser::Power => power_status(response),
        StatusParser::Input => prefixed_result(response, "SI"@, "input"@),
        StatusParser::Volume => volume_status(response),
        StatusParser::Mute => mute_status(response),
        StatusParser::SurroundMode => prefixed_result(response, "MS"@, "surround"@),
    }
}

/// A field from what the transport returned: its error, or the parsed response.
pub open spec fn status_field_of(parser: StatusParser, reply: Result<Seq<char>, Seq<char>>) -> (Option<Seq<char>>, Option<Seq<char>>) {
    match reply {
        Ok(response) => field_of(status_parse(parser, response)),
        Err(e) => field_of(Err(e)),
    }
}

pub fn parse_power(response: &str) -> (r: Result<String, String>)
    ensures
        result_view(r) == power_status(response@),
{
    if str_eq(response, "PWON") || str_eq(response, "ZMON") {
        return Ok(owned("on"));
    }
    if str_eq(response, "PWSTANDBY") || str_eq(response, "ZMSTANDBY") {
        return Ok(owned("standby"));
    }
    let v = chars_of(response);
    let pw = chars_of("PW");
    let zm = chars_of("ZM");
    if starts_with(&v, &pw) || starts_with(&v, &zm) {
        let mut out: Vec<char> = Vec::new();
        push_str(&mut out, "unsupported power response ");
        push_chars(&mut out, &v);
        Err(string_of(&out))
    } else {
        Err(unexpected_message("power", response))
    }
}

fn prefixed(response: &str, prefix: &str, name: &str) -> (r: Result<String, String>)
    ensures
        result_view(r) == prefixed_result(response@, prefix@, name@),
{
    let v = chars_of(response);
    let p = chars_of(prefix);
    if starts_with(&v, &p) && v.len() > p.len() {
        assert(v@.subrange(p@.len() as int, v@.len() as int) =~= v@.skip(p@.len() as int));
        Ok(string_range(&v, p.len(), v.len()))
    } else {
        Err(unexpected_message(name, response))
    }
}

pub fn parse_input(response: &str) -> (r: Result<String, String>)
    ensures
        result_view(r) == prefixed_result(response@, "SI"@, "input"@),
{
    prefixed(response, "SI", "input")
}

pub fn parse_surround_mode(response: &str) -> (r: Result<String, String>)
    ensures
        result_view(r) == prefixed_result(response@, "MS"@, "surround"@),
{
    prefixed(response, "MS", "surround")
}

pub fn parse_volume(response: &str) -> (r: Result<String, String>)
    ensures
        result_view(r) == volume_status(response@),
{
    let v = chars_of(response);
    let mv = chars_of("MV");
    proof {
        reveal_strlit("MV");
    }
    if !starts_with(&v, &mv) {
        return Err(unexpected_message("volume", response));
    }
    let code = sub_vec(&v, 2, v.len());
    assert(code@ =~= response@.skip(2));
    if code.len() == 0 {
        return Err(owned("volume response is empty"));
    }
    match volume_code_tenths(&code) {
        Some(t) => {
            let mut out: Vec<char> = Vec::new();
            push_str(&mut out, "code ");
            push_chars(&mut out, &code);
            push_str(&mut out, " (");
            let d = tenths_exec(t);
            push_chars(&mut out, &d);
            push_str(&mut out, " dB)");
            Ok(string_of(&out))
        },
        None => {
            let mut out: Vec<char> = Vec::new();
            push_str(&mut out, "invalid volume code ");
            push_chars(&mut out, &code);
            Err(string_of(&out))
        },
    }
}

pub fn parse_mute(response: &str) -> (r: Result<String, String>)
    ensures
        result_view(r) == mute_status(response@),
{
    if str_eq(response, "MUON") {
        Ok(owned("on"))
    } else if str_eq(response, "MUOFF") {
        Ok(owned("off"))
    } else {
        Err(unexpected_message("mute", response))
    }
}

/// Applies a field's parser to a response.
pub fn parse_status_response(parser: StatusParser, response: &str) -> (r: Result<String, String>)
    ensures
        result_view(r) == status_parse(parser, response@),
{
    match parser {
        StatusParser::Power => parse_power(response),
        StatusParser::Input => parse_input(response),
        StatusParser::Volume => parse_volume(response),
        StatusParser::Mute => parse_mute(response),
        StatusParser::SurroundMode => parse_surround_mode(response),
    }
}

/// A field from the transport's reply: its error, or the parsed response.
pub fn status_field(parser: StatusParser, reply: Result<String, String>) -> (f: StatusField)
    ensures
        f.view() == status_field_of(parser, result_view(reply)),
{
    match reply {
        Ok(response) => match parse_status_response(parser, response.as_str()) {
            Ok(value) => StatusField::value(value),
            Err(error) => StatusField::unavailable(error),
        },
        Err(error) => StatusField::unavailable(error),
    }
}

fn query_field<T: AvrTransport>(transport: &mut T, command: &str, parser: StatusParser) -> (r: (
    StatusField,
    Ghost<Result<Seq<char>, Seq<char>>>,
))
    ensures
        r.0.view() == status_field_of(parser, r.1@),
{
    let reply = transport.query(command);
    let ghost g = result_view(reply);
    (status_field(parser, reply), Ghost(g))
}

impl MainZoneStatus {
    pub open spec fn fields(&self) -> Seq<(Option<Seq<char>>, Option<Seq<char>>)> {
        seq![
            self.power.view(),
            self.input.view(),
            self.volume.view(),
            self.mute.view(),
            self.surround_mode.view(),
        ]
    }
}

/// The status built from the transport's replies to `PW?`, `SI?`, `MV?`, `MU?` and `MS?`.
pub open spec fn status_from_replies(replies: Seq<Result<Seq<char>, Seq<char>>>) -> Seq<(Option<Seq<char>>, Option<Seq<char>>)> {
    seq![
        status_field_of(StatusParser::Power, replies[0]),
        status_field_of(StatusParser::Input, replies[1]),
        status_field_of(StatusParser::Volume, replies[2]),
        status_field_of(StatusParser::Mute, replies[3]),
        status_field_of(StatusParser::SurroundMode, replies[4]),
    ]
}

/// The five status queries, in the order they are sent.
pub open spec fn status_commands() -> Seq<Seq<char>> {
    seq!["PW?"@, "SI?"@, "MV?"@, "MU?"@, "MS?"@]
}

/// The status queries, in the order they are sent.
pub fn status_query_commands() -> (r: Vec<&'static str>)
    ensures
        r@.len() == 5,
        r@.map_values(|c: &str| c@) == status_commands(),
{
    let r = vec!["PW?", "SI?", "MV?", "MU?", "MS?"];
    assert(r@.map_values(|c: &str| c@) =~= status_commands());
    r
}

/// The status built from the replies to the status queries, reply `i`
/// answering query `i`: a failed query or parse makes its field unavailable
/// with the reason, the others keep their values.
pub fn status_from_reply_list(replies: Vec<Result<String, String>>) -> (status: MainZoneStatus)
    requires
        replies@.len() == 5,
    ensures
        status.fields() == status_from_replies(replies@.map_values(|r: Result<String, String>| result_view(r))),
{
    let ghost views = replies@.map_values(|r: Result<String, String>| result_view(r));
    let ghost all = replies@;
    let mut rest = replies;
    let power = status_field(StatusParser::Power, rest.remove(0));
    assert(rest@ =~= all.skip(1));
    let input = status_field(StatusParser::Input, rest.remove(0));
    assert(rest@ =~= all.skip(2));
    let volume = status_field(StatusParser::Volume, rest.remove(0));
    assert(rest@ =~= all.skip(3));
    let mute = status_field(StatusParser::Mute, rest.remove(0));
    assert(rest@ =~= all.skip(4));
    let surround_mode = status_field(StatusParser::SurroundMode, rest.remove(0));
    let status = MainZoneStatus { power, input, volume, mute, surround_mode };
    assert(status.fields() =~= status_from_replies(views));
    status
}

/// Queries the five main-zone fields in order: `PW?`, `SI?`, `MV?`, `MU?`
/// and `MS?`, each sent whatever the one before gave; a field whose query or
/// parse fails is reported unavailable with the reason, the others keep their
/// values. Reply `i` is the answer to query `i`.
pub fn query_main_zone<T: AvrTransport>(transport: &mut T) -> (status: MainZoneStatus)
    ensures
        extends(final(transport).exchanges(), old(transport).exchanges()),
        commands_of(added_exchanges(old(transport).exchanges(), final(transport).exchanges())) == status_commands(),
        status.fields() == status_from_replies(
            replies_of(added_exchanges(old(transport).exchanges(), final(transport).exchanges())),
        ),
{
    let commands = status_query_commands();
    let ghost before = transport.exchanges();
    let mut replies: Vec<Result<String, String>> = Vec::new();
    let mut i: usize = 0;
    while i < commands.len()
        invariant
            i <= commands@.len(),
            commands@.len() == 5,
            commands@.map_values(|c: &str| c@) == status_commands(),
            replies@.len() == i,
            transport.exchanges().len() == before.len() + i,
            transport.exchanges().take(before.len() as int) == before,
            forall|j: int| 0 <= j < i ==> #[trigger] transport.exchanges()[before.len() + j] == (
                commands@[j]@, result_view(replies@[j])),
        decreases commands@.len() - i,
    {
        let ghost log = transport.exchanges();
        let reply = transport.query(commands[i]);
        proof {
            assert(transport.exchanges().take(before.len() as int) =~= log.take(before.len() as int));
            assert forall|j: int| 0 <= j < i implies #[trigger] transport.exchanges()[before.len() + j] == (
                commands@[j]@, result_view(replies@[j])) by {
                assert(transport.exchanges()[before.len() + j] == log[before.len() + j]);
            }
        }
        replies.push(reply);
        i += 1;
    }
    proof {
        let added = added_exchanges(before, transport.exchanges());
        assert(added.len() == 5);
        assert forall|j: int| 0 <= j < 5 implies added[j] == transport.exchanges()[before.len() + j] by {}
        assert(commands_of(added) =~= status_commands()) by {
            assert forall|j: int| 0 <= j < 5 implies commands_of(added)[j] == status_commands()[j] by {
                assert(commands@.map_values(|c: &str| c@)[j] == commands@[j]@);
            }
        }
        assert(replies_of(added) =~= replies@.map_values(|r: Result<String, String>| result_view(r)));
    }
    status_from_reply_list(replies)
}

/// One rendered status line.
pub open spec fn line_text(name: Seq<char>, field: (Option<Seq<char>>, Option<Seq<char>>)) -> Seq<char> {
    match field {
        (Some(v), _) => name + ": "@ + v,
        (None, Some(e)) => name + ": unavailable ("@ + e + ")"@,
        (None, None) => name + ": unavailable"@,
    }
}

pub open spec fn render_text(status: MainZoneStatus) -> Seq<char> {
    line_text("Power"@, status.power.view()) + "\n"@ + line_text("Input"@, status.input.view())
        + "\n"@ + line_text("Volume"@, status.volume.view()) + "\n"@ + line_text(
        "Mute"@,
        status.mute.view(),
    ) + "\n"@ + line_text("Surround mode"@, status.surround_mode.view())
}

fn push_line(out: &mut Vec<char>, name: &str, field: &StatusField)
    ensures
        final(out)@ == old(out)@ + line_text(name@, field.view()),
{
    push_str(out, name);
    match (&field.value, &field.error) {
        (Some(value), _) => {
            push_str(out, ": ");
            push_str(out, value.as_str());
        },
        (None, Some(error)) => {
            push_str(out, ": unavailable (");
            push_str(out, error.as_str());
            push_str(out, ")");
        },
        (None, None) => {
            push_str(out, ": unavailable");
        },
    }
}

pub fn render(status: &MainZoneStatus) -> (r: String)
    ensures
        r@ == render_text(*status),
{
    let mut out: Vec<char> = Vec::new();
    push_line(&mut out, "Power", &status.power);
    push_str(&mut out, "\n");
    push_line(&mut out, "Input", &status.input);
    push_str(&mut out, "\n");
    push_line(&mut out, "Volume", &status.volume);
    push_str(&mut out, "\n");
    push_line(&mut out, "Mute", &status.mute);
    push_str(&mut out, "\n");
    push_line(&mut out, "Surround mode", &status.surround_mode);
    string_of(&out)
}

/// The line of one field, as `render` shows it.
pub open spec fn field_line_text(status: MainZoneStatus, field: MainZoneField) -> Seq<char> {
    match field {
        MainZoneField::Power => line_text("Power"@, status.power.view()),
        MainZoneField::Input => line_text("Input"@, status.input.view()),
        MainZoneField::Volume => line_text("Volume"@, status.volume.view()),
        MainZoneField::Mute => line_text("Mute"@, status.mute.view()),
        MainZoneField::SurroundMode => line_text("Surround mode"@, status.surround_mode.view()),
    }
}

/// The line `render` shows for one field.
pub fn render_field(status: &MainZoneStatus, field: MainZoneField) -> (r: String)
    ensures
        r@ == field_line_text(*status, field),
{
    let mut out: Vec<char> = Vec::new();
    match field {
        MainZoneField::Power => push_line(&mut out, "Power", &status.power),
        MainZoneField::Input => push_line(&mut out, "Input", &status.input),
        MainZoneField::Volume => push_line(&mut out, "Volume", &status.volume),
        MainZoneField::Mute => push_line(&mut out, "Mute", &status.mute),
        MainZoneField::SurroundMode => push_line(&mut out, "Surround mode", &status.surround_mode),
    }
    string_of(&out)
}

/// Longest response line the transport accepts, without its CR.
pub const MAX_RESPONSE_LINE: usize = 135;

/// What the transport does with one more byte of a response line.
#[derive(Debug, Clone, PartialEq, Eq)]
pub enum LineProgress {
    /// A CR ended the line.
    Complete,
    /// The byte was kept; read on.
    Continue,
    /// The line grew past the limit.
    TooLong,
}

/// Adds one received byte to the current line.
pub fn push_response_byte(line: &mut Vec<u8>, byte: u8) -> (p: LineProgress)
    ensures
        byte == 13u8 ==> p == LineProgress::Complete && final(line)@ == old(line)@,
        byte != 13u8 ==> final(line)@ == old(line)@.push(byte),
        byte != 13u8 ==> (p == LineProgress::TooLong <==> old(line)@.len() + 1 > MAX_RESPONSE_LINE),
        byte != 13u8 && old(line)@.len() + 1 <= MAX_RESPONSE_LINE ==> p == LineProgress::Continue,
{
    if byte == 13u8 {
        return LineProgress::Complete;
    }
    if line.len() >= MAX_RESPONSE_LINE {
        line.push(byte);
        return LineProgress::TooLong;
    }
    line.push(byte);
    LineProgress::Continue
}

/// The message reported when a line grows past the limit.
pub fn too_long_message() -> (r: String)
    ensures
        r@ == "AVR response exceeded 135 bytes"@,
{
    owned("AVR response exceeded 135 bytes")
}

/// What to do with one complete line read after sending a query.
#[derive(Debug, Clone, PartialEq, Eq)]
pub enum LineDecision {
    /// The line answers the query.
    Answer(String),
    /// The line belongs to another family; read the next one.
    Skip,
    /// The line cannot be read.
    Fail(String),
}

/// A line answers a query when it starts with the query's family.
pub fn classify_reply_line(family: &str, line: &[u8]) -> (d: LineDecision)
    ensures
        !valid_utf8(line@) ==> (d matches LineDecision::Fail(m) && m@ == "AVR line is not valid UTF-8"@),
        valid_utf8(line@) && strip_cr(decode_utf8(line@)).len() == 0 ==> (d matches LineDecision::Fail(m) && m@ == "AVR line is empty"@),
        valid_utf8(line@) && strip_cr(decode_utf8(line@)).len() > 0 ==> (if has_prefix(strip_cr(decode_utf8(line@)), family@) {
            d matches LineDecision::Answer(t) && t@ == strip_cr(decode_utf8(line@))
        } else {
            d == LineDecision::Skip
        }),
{
    match crate::avr::parse_line(line) {
        Ok(crate::avr::AvrLine::Raw(value)) => {
            let v = chars_of(value.as_str());
            let f = chars_of(family);
            if starts_with(&v, &f) {
                LineDecision::Answer(value)
            } else {
                LineDecision::Skip
            }
        },
        Ok(_) => LineDecision::Fail(owned("unexpected AVR line")),
        Err(error) => LineDecision::Fail(owned(error.message())),
    }
}

} // verus!
