//! Denon AppCommand XML request and response protocol.
//!
//! AppCommand is exposed by receiver firmware and is not documented by Denon
//! as a stable cross-model API. This module therefore preserves unknown
//! commands, attributes, control codes, and padded values without assigning
//! receiver-independent semantics to them.
use crate::avr::utf8_str;
use crate::bytes::bytes_eq;
use crate::table::{insert_sorted, sorted_insert, text_pairs};
use crate::text::{
    chars_of, eq_chars, has_prefix, is_ctrl, is_ctrl_exec, lemma_text_lt_irreflexive, owned,
    parse_unsigned, parse_unsigned_exec, starts_with, string_of, text_lt, text_order, trim,
    trim_bounds, trim_string, TextOrder,
};
use crate::xml::{
    attribute_text, attribute_value, attribute_view, element_attributes, escaped, event_view,
    next_attribute, out_text, read_element_text, read_xml_event, reader_decoder, reader_document,
    reader_position, reader_steps, start_attributes, attributes_left, unescape_text, write_xml,
    writer_bytes, written_text, xml_attribute_value, xml_next_event, xml_position, xml_reader,
    xml_text_read, xml_writer, EventView, ReaderStep, XmlEvent, XmlOut,
};
use crate::protocol::quick_select_name::{decode_content, decoded_view};
use crate::protocol::source_catalog::utf8_view;
use quick_xml::events::BytesStart;
use quick_xml::{Reader, Writer};
use crate::xml::xml_unescaped;
use vstd::prelude::*;
use vstd::string::StringSliceAdditionalSpecFns;
use vstd::utf8::*;

verus! {

broadcast use vstd::utf8::group_utf8_lib;

pub const APP_COMMAND_0300_PATH: &'static str = "/goform/AppCommand0300.xml";

pub const APP_COMMAND_0301_PATH: &'static str = "/goform/AppCommand0301.xml";

const QUERY_ID: &'static str = "3";

#[derive(Debug, Clone, PartialEq, Eq)]
pub enum AppCommandProtocolError {
    EmptyRequest,
    EmptyParameterList,
    InvalidIdentifier(&'static str),
    StateChangingQuery,
    MissingResponse,
    MissingResponseRoot,
    MultipleResponseRoots,
    CommandOutsideResponseRoot,
    NestedCommand,
    ParameterOutsideCommand,
    MissingCommandName,
    DuplicateCommandName,
    MalformedParameter,
    MalformedXml(String),
}

/// An `AppCommandProtocolError` with its text as a sequence.
pub enum ProtocolFault {
    EmptyRequest,
    EmptyParameterList,
    InvalidIdentifier(Seq<char>),
    StateChangingQuery,
    MissingResponse,
    MissingResponseRoot,
    MultipleResponseRoots,
    CommandOutsideResponseRoot,
    NestedCommand,
    ParameterOutsideCommand,
    MissingCommandName,
    DuplicateCommandName,
    MalformedParameter,
    MalformedXml(Seq<char>),
}

impl View for AppCommandProtocolError {
    type V = ProtocolFault;

    open spec fn view(&self) -> ProtocolFault {
        match self {
            AppCommandProtocolError::EmptyRequest => ProtocolFault::EmptyRequest,
            AppCommandProtocolError::EmptyParameterList => ProtocolFault::EmptyParameterList,
            AppCommandProtocolError::InvalidIdentifier(kind) => ProtocolFault::InvalidIdentifier(kind@),
            AppCommandProtocolError::StateChangingQuery => ProtocolFault::StateChangingQuery,
            AppCommandProtocolError::MissingResponse => ProtocolFault::MissingResponse,
            AppCommandProtocolError::MissingResponseRoot => ProtocolFault::MissingResponseRoot,
            AppCommandProtocolError::MultipleResponseRoots => ProtocolFault::MultipleResponseRoots,
            AppCommandProtocolError::CommandOutsideResponseRoot => ProtocolFault::CommandOutsideResponseRoot,
            AppCommandProtocolError::NestedCommand => ProtocolFault::NestedCommand,
            AppCommandProtocolError::ParameterOutsideCommand => ProtocolFault::ParameterOutsideCommand,
            AppCommandProtocolError::MissingCommandName => ProtocolFault::MissingCommandName,
            AppCommandProtocolError::DuplicateCommandName => ProtocolFault::DuplicateCommandName,
            AppCommandProtocolError::MalformedParameter => ProtocolFault::MalformedParameter,
            AppCommandProtocolError::MalformedXml(message) => ProtocolFault::MalformedXml(message@),
        }
    }
}

/// The text of a fault, as `Display` writes it.
pub open spec fn fault_text(f: ProtocolFault) -> Seq<char> {
    match f {
        ProtocolFault::EmptyRequest => "AppCommand request contains no queries"@,
        ProtocolFault::EmptyParameterList => "AppCommand query contains no parameters"@,
        ProtocolFault::InvalidIdentifier(kind) => "invalid "@ + kind,
        ProtocolFault::StateChangingQuery => "state-changing AppCommand operation is not a read-only query"@,
        ProtocolFault::MissingResponse => "AppCommand response is empty"@,
        ProtocolFault::MissingResponseRoot => "AppCommand response has no rx root element"@,
        ProtocolFault::MultipleResponseRoots => "AppCommand response has multiple rx root elements"@,
        ProtocolFault::CommandOutsideResponseRoot => "AppCommand response command is outside the rx root element"@,
        ProtocolFault::NestedCommand => "AppCommand response contains nested command elements"@,
        ProtocolFault::ParameterOutsideCommand => "AppCommand response parameter is outside a command"@,
        ProtocolFault::MissingCommandName => "AppCommand response command has no name"@,
        ProtocolFault::DuplicateCommandName => "AppCommand response command has multiple names"@,
        ProtocolFault::MalformedParameter => "AppCommand response contains a malformed parameter"@,
        ProtocolFault::MalformedXml(message) => message,
    }
}

impl AppCommandProtocolError {
    /// The human-readable text of the error.
    pub fn message(&self) -> (r: String)
        ensures
            r@ == fault_text(self@),
    {
        match self {
            AppCommandProtocolError::EmptyRequest => owned("AppCommand request contains no queries"),
            AppCommandProtocolError::EmptyParameterList => owned("AppCommand query contains no parameters"),
            AppCommandProtocolError::InvalidIdentifier(kind) => {
                let mut v = chars_of("invalid ");
                let k = chars_of(kind);
                v.append(&mut k.clone());
                assert(v@ =~= "invalid "@ + kind@);
                string_of(&v)
            },
            AppCommandProtocolError::StateChangingQuery => owned("state-changing AppCommand operation is not a read-only query"),
            AppCommandProtocolError::MissingResponse => owned("AppCommand response is empty"),
            AppCommandProtocolError::MissingResponseRoot => owned("AppCommand response has no rx root element"),
            AppCommandProtocolError::MultipleResponseRoots => owned("AppCommand response has multiple rx root elements"),
            AppCommandProtocolError::CommandOutsideResponseRoot => owned("AppCommand response command is outside the rx root element"),
            AppCommandProtocolError::NestedCommand => owned("AppCommand response contains nested command elements"),
            AppCommandProtocolError::ParameterOutsideCommand => owned("AppCommand response parameter is outside a command"),
            AppCommandProtocolError::MissingCommandName => owned("AppCommand response command has no name"),
            AppCommandProtocolError::DuplicateCommandName => owned("AppCommand response command has multiple names"),
            AppCommandProtocolError::MalformedParameter => owned("AppCommand response contains a malformed parameter"),
            AppCommandProtocolError::MalformedXml(message) => owned(message.as_str()),
        }
    }
}

/// No control character occurs in `s`.
pub open spec fn no_ctrl(s: Seq<char>) -> bool
    decreases s.len(),
{
    s.len() == 0 || (!is_ctrl(s[0]) && no_ctrl(s.drop_first()))
}

pub proof fn lemma_no_ctrl(s: Seq<char>)
    ensures
        no_ctrl(s) <==> forall|i: int| 0 <= i < s.len() ==> !is_ctrl(#[trigger] s[i]),
    decreases s.len(),
{
    if s.len() > 0 {
        lemma_no_ctrl(s.drop_first());
        if no_ctrl(s.drop_first()) && !is_ctrl(s[0]) {
            assert forall|i: int| 0 <= i < s.len() implies !is_ctrl(#[trigger] s[i]) by {
                if i > 0 {
                    assert(s[i] == s.drop_first()[i - 1]);
                }
            }
        }
        if forall|i: int| 0 <= i < s.len() ==> !is_ctrl(#[trigger] s[i]) {
            assert forall|i: int| 0 <= i < s.drop_first().len() implies !is_ctrl(
                #[trigger] s.drop_first()[i],
            ) by {
                assert(s.drop_first()[i] == s[i + 1]);
            }
        }
    }
}

/// An identifier: some text besides white space, and no control character.
pub open spec fn identifier_ok(s: Seq<char>) -> bool {
    trim(s).len() > 0 && no_ctrl(s)
}

pub fn identifier_valid(v: &[char]) -> (r: bool)
    ensures
        r == identifier_ok(v@),
{
    let (a, b) = trim_bounds(v);
    if a == b {
        return false;
    }
    let mut i: usize = 0;
    while i < v.len()
        invariant
            i <= v@.len(),
            forall|j: int| 0 <= j < i ==> !is_ctrl(#[trigger] v@[j]),
        decreases v@.len() - i,
    {
        if is_ctrl_exec(v[i]) {
            proof {
                lemma_no_ctrl(v@);
                assert(is_ctrl(v@[i as int]));
            }
            return false;
        }
        i += 1;
    }
    proof {
        lemma_no_ctrl(v@);
    }
    true
}

/// `value` when it is a valid identifier, else `InvalidIdentifier(kind)`.
fn validated_identifier(value: &str, kind: &'static str) -> (r: Result<String, AppCommandProtocolError>)
    ensures
        identifier_ok(value@) ==> (r matches Ok(s) && s@ == value@),
        !identifier_ok(value@) ==> (r matches Err(e) && e@ == ProtocolFault::InvalidIdentifier(kind@)),
{
    let v = chars_of(value);
    if !identifier_valid(&v) {
        return Err(AppCommandProtocolError::InvalidIdentifier(kind));
    }
    Ok(owned(value))
}

/// A read-only query: a valid `Get...` name and one or more valid parameter names.
pub open spec fn query_ok(name: Seq<char>, parameters: Seq<Seq<char>>) -> bool {
    &&& identifier_ok(name)
    &&& has_prefix(name, "Get"@)
    &&& parameters.len() > 0
    &&& forall|i: int| 0 <= i < parameters.len() ==> identifier_ok(#[trigger] parameters[i])
}

/// What `AppCommandQuery::new` answers for a name and its parameter names.
pub open spec fn query_outcome(name: Seq<char>, parameters: Seq<Seq<char>>) -> Result<(), ProtocolFault> {
    if !identifier_ok(name) {
        Err(ProtocolFault::InvalidIdentifier("command name"@))
    } else if !has_prefix(name, "Get"@) {
        Err(ProtocolFault::StateChangingQuery)
    } else if exists|i: int| 0 <= i < parameters.len() && !identifier_ok(#[trigger] parameters[i]) {
        Err(ProtocolFault::InvalidIdentifier("parameter name"@))
    } else if parameters.len() == 0 {
        Err(ProtocolFault::EmptyParameterList)
    } else {
        Ok(())
    }
}

#[derive(Debug, Clone, PartialEq, Eq)]
pub struct AppCommandQuery {
    name: String,
    parameters: Vec<String>,
}

pub open spec fn strings_view(v: Seq<String>) -> Seq<Seq<char>> {
    v.map_values(|s: String| s@)
}

pub open spec fn strs_view(v: Seq<&str>) -> Seq<Seq<char>> {
    v.map_values(|s: &str| s@)
}

impl AppCommandQuery {
    pub closed spec fn name_view(&self) -> Seq<char> {
        self.name@
    }

    pub closed spec fn parameters_view(&self) -> Seq<Seq<char>> {
        strings_view(self.parameters@)
    }

    /// A read-only query with valid names, as every constructor makes it.
    pub open spec fn wf(&self) -> bool {
        query_ok(self.name_view(), self.parameters_view())
    }

    pub fn new(name: &str, parameters: &[&str]) -> (r: Result<Self, AppCommandProtocolError>)
        ensures
            match query_outcome(name@, strs_view(parameters@)) {
                Ok(()) => r matches Ok(q) && q.name_view() == name@ && q.parameters_view() == strs_view(
                    parameters@,
                ) && q.wf(),
                Err(f) => r matches Err(e) && e@ == f,
            },
    {
        let checked = match validated_identifier(name, "command name") {
            Ok(n) => n,
            Err(e) => return Err(e),
        };
        let nv = chars_of(checked.as_str());
        let get = chars_of("Get");
        if !starts_with(&nv, &get) {
            return Err(AppCommandProtocolError::StateChangingQuery);
        }
        let ghost ps = strs_view(parameters@);
        let mut validated: Vec<String> = Vec::new();
        let mut i: usize = 0;
        while i < parameters.len()
            invariant
                i <= parameters@.len(),
                ps == strs_view(parameters@),
                strings_view(validated@) == ps.take(i as int),
                identifier_ok(name@),
                has_prefix(name@, "Get"@),
                forall|j: int| 0 <= j < i ==> identifier_ok(#[trigger] ps[j]),
            decreases parameters@.len() - i,
        {
            assert(ps[i as int] == parameters@[i as int]@);
            let p = match validated_identifier(parameters[i], "parameter name") {
                Ok(p) => p,
                Err(e) => {
                    assert(!identifier_ok(ps[i as int]));
                    return Err(e);
                },
            };
            let ghost before = validated@;
            validated.push(p);
            assert(validated@ == before.push(p));
            assert(strings_view(validated@) =~= strings_view(before).push(p@));
            assert(ps.take(i + 1) =~= ps.take(i as int).push(ps[i as int]));
            i += 1;
        }
        assert(ps.take(i as int) =~= ps);
        assert(!exists|j: int| 0 <= j < ps.len() && !identifier_ok(#[trigger] ps[j]));
        if validated.len() == 0 {
            return Err(AppCommandProtocolError::EmptyParameterList);
        }
        let q = AppCommandQuery { name: checked, parameters: validated };
        Ok(q)
    }

    pub fn name(&self) -> (r: &str)
        ensures
            r@ == self.name_view(),
    {
        self.name.as_str()
    }

    pub fn parameters(&self) -> (r: &[String])
        ensures
            strings_view(r@) == self.parameters_view(),
    {
        self.parameters.as_slice()
    }
}


pub open spec fn decl_text(version: Seq<char>, encoding: Seq<char>) -> Seq<char> {
    "<?xml version=\""@ + version + "\" encoding=\""@ + encoding + "\"?>"@
}

pub open spec fn start_text(name: Seq<char>, attribute: Option<(Seq<char>, Seq<char>)>) -> Seq<char> {
    "<"@ + name + attribute_text(attribute) + ">"@
}

pub open spec fn end_text(name: Seq<char>) -> Seq<char> {
    "</"@ + name + ">"@
}

/// One `<param name="..."></param>` line of a query.
pub open spec fn param_xml(parameter: Seq<char>) -> Seq<char> {
    start_text("param"@, Some(("name"@, parameter))) + end_text("param"@) + "\n"@
}

pub open spec fn params_xml(parameters: Seq<Seq<char>>) -> Seq<char>
    decreases parameters.len(),
{
    if parameters.len() == 0 {
        seq![]
    } else {
        params_xml(parameters.drop_last()) + param_xml(parameters.last())
    }
}

/// One `<cmd>` element, its elements each on a line of their own.
pub open spec fn query_xml(name: Seq<char>, parameters: Seq<Seq<char>>) -> Seq<char> {
    start_text("cmd"@, Some(("id"@, "3"@))) + "\n"@ + start_text("name"@, None) + escaped(name)
        + end_text("name"@) + "\n"@ + start_text("list"@, None) + "\n"@ + params_xml(parameters)
        + end_text("list"@) + "\n"@ + end_text("cmd"@) + "\n"@
}

pub open spec fn queries_xml(queries: Seq<(Seq<char>, Seq<Seq<char>>)>) -> Seq<char>
    decreases queries.len(),
{
    if queries.len() == 0 {
        seq![]
    } else {
        queries_xml(queries.drop_last()) + query_xml(queries.last().0, queries.last().1)
    }
}

/// The request document: the declaration, then `<tx>` with one `<cmd>` per query.
pub open spec fn request_xml(queries: Seq<(Seq<char>, Seq<Seq<char>>)>) -> Seq<char> {
    decl_text("1.0"@, "utf-8"@) + "\n"@ + start_text("tx"@, None) + "\n"@ + queries_xml(queries)
        + end_text("tx"@)
}

pub open spec fn query_view(q: AppCommandQuery) -> (Seq<char>, Seq<Seq<char>>) {
    (q.name_view(), q.parameters_view())
}

#[derive(Debug, Clone, PartialEq, Eq)]
pub struct AppCommandRequest {
    queries: Vec<AppCommandQuery>,
}

/// A query of names known to be valid.
fn known_query(name: &str, parameters: &[&str]) -> (q: AppCommandQuery)
    requires
        query_ok(name@, strs_view(parameters@)),
    ensures
        q.name_view() == name@,
        q.parameters_view() == strs_view(parameters@),
        q.wf(),
{
    let mut owned_parameters: Vec<String> = Vec::new();
    let mut i: usize = 0;
    while i < parameters.len()
        invariant
            i <= parameters@.len(),
            strings_view(owned_parameters@) == strs_view(parameters@).take(i as int),
        decreases parameters@.len() - i,
    {
        let ghost before = owned_parameters@;
        let p = owned(parameters[i]);
        owned_parameters.push(p);
        assert(strings_view(owned_parameters@) =~= strings_view(before).push(p@));
        assert(strs_view(parameters@).take(i + 1) =~= strs_view(parameters@).take(i as int).push(
            parameters@[i as int]@,
        ));
        i += 1;
    }
    assert(strs_view(parameters@).take(i as int) =~= strs_view(parameters@));
    AppCommandQuery { name: owned(name), parameters: owned_parameters }
}

/// The appended line break is the bare `\n`.
proof fn lemma_line_break()
    ensures
        escaped("\n"@) == "\n"@,
{
    reveal_strlit("\n");
    reveal_with_fuel(escaped, 2);
    assert(escaped("\n"@) =~= "\n"@);
}

/// Writes one `<cmd>` element and its line breaks.
#[verifier::rlimit(60)]
fn write_query(writer: &mut Writer<Vec<u8>>, query: &AppCommandQuery, line: &XmlOut)
    requires
        out_text(*line) == "\n"@,
    ensures
        written_text(*final(writer)) == written_text(*old(writer)) + query_xml(query.name_view(), query.parameters_view()),
{
    let ghost before = written_text(*writer);
    let cmd = XmlOut::Start { name: owned("cmd"), attribute: Some((owned("id"), owned(QUERY_ID))) };
    let _ = write_xml(writer, &cmd);
    let _ = write_xml(writer, line);
    let name_start = XmlOut::Start { name: owned("name"), attribute: None };
    let _ = write_xml(writer, &name_start);
    let name_text = XmlOut::Text(owned(query.name()));
    let _ = write_xml(writer, &name_text);
    let name_end = XmlOut::End(owned("name"));
    let _ = write_xml(writer, &name_end);
    let _ = write_xml(writer, line);
    let list_start = XmlOut::Start { name: owned("list"), attribute: None };
    let _ = write_xml(writer, &list_start);
    let _ = write_xml(writer, line);
    let ghost mid = written_text(*writer);
    assert(mid =~= before + start_text("cmd"@, Some(("id"@, "3"@))) + "\n"@ + start_text("name"@, None)
        + escaped(query.name_view()) + end_text("name"@) + "\n"@ + start_text("list"@, None) + "\n"@);
    let parameters = query.parameters();
    let ghost ps = strings_view(parameters@);
    let mut j: usize = 0;
    assert(ps.take(0) =~= Seq::<Seq<char>>::empty());
    while j < parameters.len()
        invariant
            j <= parameters@.len(),
            ps == strings_view(parameters@),
            out_text(*line) == "\n"@,
            written_text(*writer) == mid + params_xml(ps.take(j as int)),
        decreases parameters@.len() - j,
    {
        let ghost inner = written_text(*writer);
        let param = XmlOut::Start {
            name: owned("param"),
            attribute: Some((owned("name"), owned(parameters[j].as_str()))),
        };
        let _ = write_xml(writer, &param);
        let param_end = XmlOut::End(owned("param"));
        let _ = write_xml(writer, &param_end);
        let _ = write_xml(writer, line);
        assert(ps.take(j + 1).drop_last() =~= ps.take(j as int));
        assert(ps[j as int] == parameters@[j as int]@);
        assert(written_text(*writer) =~= inner + param_xml(ps[j as int]));
        j += 1;
    }
    assert(ps.take(j as int) =~= ps);
    let ghost after_params = written_text(*writer);
    let list_end = XmlOut::End(owned("list"));
    let _ = write_xml(writer, &list_end);
    let _ = write_xml(writer, line);
    let cmd_end = XmlOut::End(owned("cmd"));
    let _ = write_xml(writer, &cmd_end);
    let _ = write_xml(writer, line);
    assert(written_text(*writer) =~= after_params + end_text("list"@) + "\n"@ + end_text("cmd"@) + "\n"@);
}

impl AppCommandRequest {
    pub closed spec fn queries_view(&self) -> Seq<(Seq<char>, Seq<Seq<char>>)> {
        self.queries@.map_values(|q: AppCommandQuery| query_view(q))
    }

    pub fn new(queries: Vec<AppCommandQuery>) -> (r: Result<Self, AppCommandProtocolError>)
        ensures
            queries@.len() == 0 ==> (r matches Err(e) && e@ == ProtocolFault::EmptyRequest),
            queries@.len() > 0 ==> (r matches Ok(request) && request.queries_view()
                == queries@.map_values(|q: AppCommandQuery| query_view(q))),
    {
        if queries.len() == 0 {
            return Err(AppCommandProtocolError::EmptyRequest);
        }
        Ok(AppCommandRequest { queries })
    }

    pub fn queries(&self) -> (r: &[AppCommandQuery])
        ensures
            r@.map_values(|q: AppCommandQuery| query_view(q)) == self.queries_view(),
    {
        self.queries.as_slice()
    }

    /// The request document. AVR-X3800H firmware 6000-1060-0071-9831 accepts
    /// the AppCommand structure only when its elements are line-delimited, so
    /// every element after the declaration ends a line.
    pub fn to_xml(&self) -> (r: Result<String, AppCommandProtocolError>)
        ensures
            r matches Ok(xml) && xml@ == request_xml(self.queries_view()),
    {
        proof {
            lemma_line_break();
        }
        let mut writer = xml_writer();
        let decl = XmlOut::Decl { version: owned("1.0"), encoding: owned("utf-8") };
        let _ = write_xml(&mut writer, &decl);
        let line = XmlOut::Text(owned("\n"));
        let _ = write_xml(&mut writer, &line);
        let tx = XmlOut::Start { name: owned("tx"), attribute: None };
        let _ = write_xml(&mut writer, &tx);
        let _ = write_xml(&mut writer, &line);
        let ghost head = decl_text("1.0"@, "utf-8"@) + "\n"@ + start_text("tx"@, None) + "\n"@;
        assert(written_text(writer) =~= head);
        let ghost qs = self.queries_view();
        let mut k: usize = 0;
        while k < self.queries.len()
            invariant
                k <= self.queries@.len(),
                qs == self.queries_view(),
                qs.len() == self.queries@.len(),
                out_text(line) == "\n"@,
                written_text(writer) == head + queries_xml(qs.take(k as int)),
            decreases self.queries@.len() - k,
        {
            let ghost before = written_text(writer);
            write_query(&mut writer, &self.queries[k], &line);
            assert(qs[k as int] == query_view(self.queries@[k as int]));
            assert(qs.take(k + 1).drop_last() =~= qs.take(k as int));
            assert(written_text(writer) =~= before + query_xml(qs[k as int].0, qs[k as int].1));
            k += 1;
        }
        assert(qs.take(k as int) =~= qs);
        let tx_end = XmlOut::End(owned("tx"));
        let _ = write_xml(&mut writer, &tx_end);
        let ghost text = written_text(writer);
        assert(text =~= request_xml(qs));
        let bytes = writer_bytes(writer);
        match utf8_str(&bytes) {
            Ok(xml) => Ok(owned(xml)),
            Err(error) => {
                let mut message = chars_of("encoded XML is not UTF-8: ");
                let rest = chars_of(error.as_str());
                message.append(&mut rest.clone());
                Err(AppCommandProtocolError::MalformedXml(string_of(&message)))
            },
        }
    }
}


pub open spec fn input_signal_query() -> (Seq<char>, Seq<Seq<char>>) {
    ("GetInputSignal"@, seq!["inputsigall"@])
}

pub open spec fn active_speaker_query() -> (Seq<char>, Seq<Seq<char>>) {
    ("GetActiveSpeaker"@, seq!["activespall"@])
}

pub open spec fn video_info_query() -> (Seq<char>, Seq<Seq<char>>) {
    ("GetVideoInfo"@, seq!["videooutput"@, "hdmisigin"@, "hdmisigout"@])
}

pub open spec fn audio_info_query() -> (Seq<char>, Seq<Seq<char>>) {
    ("GetAudioInfo"@, seq!["inputmode"@, "output"@, "signal"@, "sound"@, "fs"@])
}

pub open spec fn audyssey_info_query() -> (Seq<char>, Seq<Seq<char>>) {
    ("GetAudyssyInfo"@, seq!["eqname"@, "eqvalue"@, "dynamiceq"@, "dynamicvol"@])
}

proof fn lemma_get_prefix(name: &str)
    requires
        name@.len() >= 3,
        name@[0] == 'G',
        name@[1] == 'e',
        name@[2] == 't',
    ensures
        has_prefix(name@, "Get"@),
{
    reveal_strlit("Get");
    assert(name@.take(3) =~= "Get"@);
}

fn built_in_query(name: &str, parameters: &[&str]) -> (q: AppCommandQuery)
    requires
        query_ok(name@, strs_view(parameters@)),
    ensures
        query_view(q) == (name@, strs_view(parameters@)),
        q.wf(),
{
    known_query(name, parameters)
}

fn builtin_input_signal() -> (q: AppCommandQuery)
    ensures
        query_view(q) == input_signal_query(),
        q.wf(),
{
    let parameters: [&str; 1] = ["inputsigall"];
    proof {
        reveal_strlit("GetInputSignal");
        reveal_strlit("inputsigall");
        reveal_with_fuel(no_ctrl, 20);
        lemma_get_prefix("GetInputSignal");
        assert(identifier_ok("GetInputSignal"@));
        assert(identifier_ok("inputsigall"@));
        assert(strs_view(parameters@) =~= seq!["inputsigall"@]);
    }
    built_in_query("GetInputSignal", &parameters)
}


fn builtin_active_speaker() -> (q: AppCommandQuery)
    ensures
        query_view(q) == active_speaker_query(),
        q.wf(),
{
    let parameters: [&str; 1] = ["activespall"];
    proof {
        reveal_strlit("GetActiveSpeaker");
        reveal_strlit("activespall");
        reveal_with_fuel(no_ctrl, 20);
        lemma_get_prefix("GetActiveSpeaker");
        assert(identifier_ok("GetActiveSpeaker"@));
        assert(identifier_ok("activespall"@));
        let ps = seq!["activespall"@];
        assert(strs_view(parameters@) =~= ps);
        assert forall|i: int| 0 <= i < ps.len() implies identifier_ok(#[trigger] ps[i]) by {
            if i == 0 {
                assert(identifier_ok("activespall"@));
            }
        }
    }
    built_in_query("GetActiveSpeaker", &parameters)
}

fn builtin_video_info() -> (q: AppCommandQuery)
    ensures
        query_view(q) == video_info_query(),
        q.wf(),
{
    let parameters: [&str; 3] = ["videooutput", "hdmisigin", "hdmisigout"];
    proof {
        reveal_strlit("GetVideoInfo");
        reveal_strlit("videooutput");
        reveal_strlit("hdmisigin");
        reveal_strlit("hdmisigout");
        reveal_with_fuel(no_ctrl, 20);
        lemma_get_prefix("GetVideoInfo");
        assert(identifier_ok("GetVideoInfo"@));
        assert(identifier_ok("videooutput"@));
        assert(identifier_ok("hdmisigin"@));
        assert(identifier_ok("hdmisigout"@));
        let ps = seq!["videooutput"@, "hdmisigin"@, "hdmisigout"@];
        assert(strs_view(parameters@) =~= ps);
        assert forall|i: int| 0 <= i < ps.len() implies identifier_ok(#[trigger] ps[i]) by {
            if i == 0 {
                assert(identifier_ok("videooutput"@));
            }
            if i == 1 {
                assert(identifier_ok("hdmisigin"@));
            }
            if i == 2 {
                assert(identifier_ok("hdmisigout"@));
            }
        }
    }
    built_in_query("GetVideoInfo", &parameters)
}

fn builtin_audio_info() -> (q: AppCommandQuery)
    ensures
        query_view(q) == audio_info_query(),
        q.wf(),
{
    let parameters: [&str; 5] = ["inputmode", "output", "signal", "sound", "fs"];
    proof {
        reveal_strlit("GetAudioInfo");
        reveal_strlit("inputmode");
        reveal_strlit("output");
        reveal_strlit("signal");
        reveal_strlit("sound");
        reveal_strlit("fs");
        reveal_with_fuel(no_ctrl, 20);
        lemma_get_prefix("GetAudioInfo");
        assert(identifier_ok("GetAudioInfo"@));
        assert(identifier_ok("inputmode"@));
        assert(identifier_ok("output"@));
        assert(identifier_ok("signal"@));
        assert(identifier_ok("sound"@));
        assert(identifier_ok("fs"@));
        let ps = seq!["inputmode"@, "output"@, "signal"@, "sound"@, "fs"@];
        assert(strs_view(parameters@) =~= ps);
        assert forall|i: int| 0 <= i < ps.len() implies identifier_ok(#[trigger] ps[i]) by {
            if i == 0 {
                assert(identifier_ok("inputmode"@));
            }
            if i == 1 {
                assert(identifier_ok("output"@));
            }
            if i == 2 {
                assert(identifier_ok("signal"@));
            }
            if i == 3 {
                assert(identifier_ok("sound"@));
            }
            if i == 4 {
                assert(identifier_ok("fs"@));
            }
        }
    }
    built_in_query("GetAudioInfo", &parameters)
}

fn builtin_audyssey_info() -> (q: AppCommandQuery)
    ensures
        query_view(q) == audyssey_info_query(),
        q.wf(),
{
    let parameters: [&str; 4] = ["eqname", "eqvalue", "dynamiceq", "dynamicvol"];
    proof {
        reveal_strlit("GetAudyssyInfo");
        reveal_strlit("eqname");
        reveal_strlit("eqvalue");
        reveal_strlit("dynamiceq");
        reveal_strlit("dynamicvol");
        reveal_with_fuel(no_ctrl, 20);
        lemma_get_prefix("GetAudyssyInfo");
        assert(identifier_ok("GetAudyssyInfo"@));
        assert(identifier_ok("eqname"@));
        assert(identifier_ok("eqvalue"@));
        assert(identifier_ok("dynamiceq"@));
        assert(identifier_ok("dynamicvol"@));
        let ps = seq!["eqname"@, "eqvalue"@, "dynamiceq"@, "dynamicvol"@];
        assert(strs_view(parameters@) =~= ps);
        assert forall|i: int| 0 <= i < ps.len() implies identifier_ok(#[trigger] ps[i]) by {
            if i == 0 {
                assert(identifier_ok("eqname"@));
            }
            if i == 1 {
                assert(identifier_ok("eqvalue"@));
            }
            if i == 2 {
                assert(identifier_ok("dynamiceq"@));
            }
            if i == 3 {
                assert(identifier_ok("dynamicvol"@));
            }
        }
    }
    built_in_query("GetAudyssyInfo", &parameters)
}


impl AppCommandRequest {
    /// One or more queries, each read-only with valid names.
    pub closed spec fn wf(&self) -> bool {
        &&& self.queries@.len() > 0
        &&& forall|i: int| 0 <= i < self.queries@.len() ==> (#[trigger] self.queries@[i]).wf()
    }

    fn of_queries(queries: Vec<AppCommandQuery>) -> (r: Self)
        requires
            queries@.len() > 0,
            forall|i: int| 0 <= i < queries@.len() ==> (#[trigger] queries@[i]).wf(),
        ensures
            r.queries_view() == queries@.map_values(|q: AppCommandQuery| query_view(q)),
            r.wf(),
    {
        AppCommandRequest { queries }
    }

    /// The five information queries, in the order the receiver is asked them.
    pub fn audio_information() -> (r: Self)
        ensures
            r.queries_view() == seq![input_signal_query(), active_speaker_query(), video_info_query(), audio_info_query(), audyssey_info_query()],
            r.wf(),
    {
        let queries = vec![
            builtin_input_signal(),
            builtin_active_speaker(),
            builtin_video_info(),
            builtin_audio_info(),
            builtin_audyssey_info(),
        ];
        let r = Self::of_queries(queries);
        assert(r.queries_view() =~= seq![input_signal_query(), active_speaker_query(), video_info_query(), audio_info_query(), audyssey_info_query()]);
        r
    }

    pub fn input_signal() -> (r: Self)
        ensures
            r.queries_view() == seq![input_signal_query()],
            r.wf(),
    {
        let r = Self::of_queries(vec![builtin_input_signal()]);
        assert(r.queries_view() =~= seq![input_signal_query()]);
        r
    }

    pub fn active_speaker() -> (r: Self)
        ensures
            r.queries_view() == seq![active_speaker_query()],
            r.wf(),
    {
        let r = Self::of_queries(vec![builtin_active_speaker()]);
        assert(r.queries_view() =~= seq![active_speaker_query()]);
        r
    }

    pub fn audio_info() -> (r: Self)
        ensures
            r.queries_view() == seq![audio_info_query()],
            r.wf(),
    {
        let r = Self::of_queries(vec![builtin_audio_info()]);
        assert(r.queries_view() =~= seq![audio_info_query()]);
        r
    }

    pub fn video_info() -> (r: Self)
        ensures
            r.queries_view() == seq![video_info_query()],
            r.wf(),
    {
        let r = Self::of_queries(vec![builtin_video_info()]);
        assert(r.queries_view() =~= seq![video_info_query()]);
        r
    }

    pub fn audyssey_info() -> (r: Self)
        ensures
            r.queries_view() == seq![audyssey_info_query()],
            r.wf(),
    {
        let r = Self::of_queries(vec![builtin_audyssey_info()]);
        assert(r.queries_view() =~= seq![audyssey_info_query()]);
        r
    }
}


/// A key/value list by its views.
pub open spec fn pairs_view(v: Seq<(String, String)>) -> Seq<(Seq<char>, Seq<char>)> {
    text_pairs(v)
}

/// The attributes of a parameter element as a `BTreeMap` holds them, keyed
/// and ordered by name, the last of equal keys winning; `name` is kept apart.
pub open spec fn attribute_table(pairs: Seq<(Seq<char>, Seq<char>)>) -> Seq<(Seq<char>, Seq<char>)>
    decreases pairs.len(),
{
    if pairs.len() == 0 {
        seq![]
    } else if pairs.last().0 == "name"@ {
        attribute_table(pairs.drop_last())
    } else {
        sorted_insert(attribute_table(pairs.drop_last()), pairs.last().0, pairs.last().1)
    }
}

/// The value of the last pair with key `key`.
pub open spec fn last_value(pairs: Seq<(Seq<char>, Seq<char>)>, key: Seq<char>) -> Option<Seq<char>>
    decreases pairs.len(),
{
    if pairs.len() == 0 {
        None
    } else if pairs.last().0 == key {
        Some(pairs.last().1)
    } else {
        last_value(pairs.drop_last(), key)
    }
}

/// The name and the other attributes of a parameter element.
pub open spec fn parameter_of(pairs: Seq<(Seq<char>, Seq<char>)>) -> Result<(Seq<char>, Seq<(Seq<char>, Seq<char>)>), ProtocolFault> {
    match last_value(pairs, "name"@) {
        Some(name) => if name.len() > 0 {
            Ok((name, attribute_table(pairs)))
        } else {
            Err(ProtocolFault::MalformedParameter)
        },
        None => Err(ProtocolFault::MalformedParameter),
    }
}

/// Splits a parameter element's attributes into its `name` and the others.
fn parameter_attributes(pairs: &Vec<(String, String)>) -> (r: Result<(String, Vec<(String, String)>), AppCommandProtocolError>)
    ensures
        match parameter_of(pairs_view(pairs@)) {
            Ok((name, table)) => r matches Ok((n, t)) && n@ == name && pairs_view(t@) == table,
            Err(f) => r matches Err(e) && e@ == f,
        },
{
    let ghost all = pairs_view(pairs@);
    let name_key = chars_of("name");
    let mut name: Option<String> = None;
    let mut table: Vec<(String, String)> = Vec::new();
    let mut i: usize = 0;
    while i < pairs.len()
        invariant
            i <= pairs@.len(),
            all == pairs_view(pairs@),
            name_key@ == "name"@,
            pairs_view(table@) == attribute_table(all.take(i as int)),
            match name {
                Some(n) => last_value(all.take(i as int), "name"@) == Some(n@),
                None => last_value(all.take(i as int), "name"@) is None,
            },
        decreases pairs@.len() - i,
    {
        let key = pairs[i].0.clone();
        let value = pairs[i].1.clone();
        let kv = chars_of(key.as_str());
        assert(all.take(i + 1).drop_last() =~= all.take(i as int));
        assert(all.take(i + 1).last() == all[i as int]);
        assert(all[i as int] == (key@, value@));
        if eq_chars(&kv, &name_key) {
            name = Some(value);
        } else {
            insert_sorted(&mut table, key, value);
        }
        i += 1;
    }
    assert(all.take(i as int) =~= all);
    match name {
        Some(n) => {
            if n.as_str().is_empty() {
                return Err(AppCommandProtocolError::MalformedParameter);
            }
            Ok((n, table))
        },
        None => Err(AppCommandProtocolError::MalformedParameter),
    }
}


/// The value of the first pair with key `key`.
pub open spec fn first_value(pairs: Seq<(Seq<char>, Seq<char>)>, key: Seq<char>) -> Option<Seq<char>>
    decreases pairs.len(),
{
    if pairs.len() == 0 {
        None
    } else if pairs[0].0 == key {
        Some(pairs[0].1)
    } else {
        first_value(pairs.drop_first(), key)
    }
}

/// The number a control attribute holds, as `str::parse::<u8>` reads it.
pub open spec fn control_code_of(control: Option<Seq<char>>) -> Option<u8> {
    match control {
        Some(text) => match parse_unsigned(text) {
            Some(n) => if n <= 255 {
                Some(n as u8)
            } else {
                None
            },
            None => None,
        },
        None => None,
    }
}

pub struct ParameterView {
    pub name: Seq<char>,
    pub attributes: Seq<(Seq<char>, Seq<char>)>,
    pub value: Seq<char>,
}

#[derive(Debug, Clone, PartialEq, Eq)]
pub struct AppCommandParameter {
    pub name: String,
    /// The other attributes, ordered by key.
    pub attributes: Vec<(String, String)>,
    /// Exact decoded text, including firmware-added padding.
    pub value: String,
}

impl View for AppCommandParameter {
    type V = ParameterView;

    open spec fn view(&self) -> ParameterView {
        ParameterView { name: self.name@, attributes: pairs_view(self.attributes@), value: self.value@ }
    }
}

impl AppCommandParameter {
    /// The `control` attribute.
    pub fn control(&self) -> (r: Option<&str>)
        ensures
            match first_value(self@.attributes, "control"@) {
                Some(v) => r matches Some(c) && c@ == v,
                None => r is None,
            },
    {
        let key = chars_of("control");
        let mut i: usize = 0;
        assert(self@.attributes.skip(0) =~= self@.attributes);
        while i < self.attributes.len()
            invariant
                i <= self.attributes@.len(),
                key@ == "control"@,
                first_value(self@.attributes, "control"@) == first_value(self@.attributes.skip(i as int), "control"@),
            decreases self.attributes@.len() - i,
        {
            let ghost rest = self@.attributes.skip(i as int);
            assert(rest[0] == (self.attributes@[i as int].0@, self.attributes@[i as int].1@));
            let current = chars_of(self.attributes[i].0.as_str());
            if eq_chars(&current, &key) {
                return Some(self.attributes[i].1.as_str());
            }
            assert(rest.drop_first() =~= self@.attributes.skip(i + 1));
            i += 1;
        }
        None
    }

    /// The `control` attribute as a number.
    pub fn control_code(&self) -> (r: Option<u8>)
        ensures
            r == control_code_of(first_value(self@.attributes, "control"@)),
    {
        match self.control() {
            Some(c) => {
                let v = chars_of(c);
                match parse_unsigned_exec(&v, 255) {
                    Some(n) => Some(n as u8),
                    None => None,
                }
            },
            None => None,
        }
    }

    /// The value without its surrounding white space.
    pub fn trimmed_value(&self) -> (r: String)
        ensures
            r@ == trim(self@.value),
    {
        trim_string(self.value.as_str())
    }
}

pub open spec fn parameters_view(v: Seq<AppCommandParameter>) -> Seq<ParameterView> {
    v.map_values(|p: AppCommandParameter| p@)
}

/// Index of the first entry named `name`, or -1.
pub open spec fn first_named(names: Seq<Seq<char>>, name: Seq<char>) -> int
    decreases names.len(),
{
    if names.len() == 0 {
        -1
    } else if names[0] == name {
        0
    } else {
        let r = first_named(names.drop_first(), name);
        if r < 0 {
            -1
        } else {
            r + 1
        }
    }
}

pub proof fn lemma_first_named(names: Seq<Seq<char>>, name: Seq<char>)
    ensures
        -1 <= first_named(names, name) < names.len(),
        first_named(names, name) >= 0 ==> names[first_named(names, name)] == name,
        forall|j: int| 0 <= j < first_named(names, name) ==> names[j] != name,
        first_named(names, name) < 0 ==> forall|j: int| 0 <= j < names.len() ==> names[j] != name,
    decreases names.len(),
{
    if names.len() > 0 && names[0] != name {
        lemma_first_named(names.drop_first(), name);
        assert forall|j: int| 0 < j < names.len() implies names[j] == names.drop_first()[j - 1] by {}
    }
}

pub struct ResultView {
    pub name: Seq<char>,
    pub parameters: Seq<ParameterView>,
}

#[derive(Debug, Clone, PartialEq, Eq)]
pub struct AppCommandResult {
    pub name: String,
    pub parameters: Vec<AppCommandParameter>,
}

impl View for AppCommandResult {
    type V = ResultView;

    open spec fn view(&self) -> ResultView {
        ResultView { name: self.name@, parameters: parameters_view(self.parameters@) }
    }
}

pub open spec fn parameter_names(ps: Seq<ParameterView>) -> Seq<Seq<char>> {
    ps.map_values(|p: ParameterView| p.name)
}

impl AppCommandResult {
    /// The first parameter named `name`.
    pub fn parameter(&self, name: &str) -> (r: Option<&AppCommandParameter>)
        ensures
            ({
                let i = first_named(parameter_names(self@.parameters), name@);
                if i < 0 {
                    r is None
                } else {
                    r matches Some(p) && *p == self.parameters@[i]
                }
            }),
    {
        let ghost names = parameter_names(self@.parameters);
        proof {
            lemma_first_named(names, name@);
        }
        let wanted = chars_of(name);
        let mut i: usize = 0;
        while i < self.parameters.len()
            invariant
                i <= self.parameters@.len(),
                names == parameter_names(self@.parameters),
                names.len() == self.parameters@.len(),
                wanted@ == name@,
                forall|j: int| 0 <= j < i ==> names[j] != name@,
            decreases self.parameters@.len() - i,
        {
            let current = chars_of(self.parameters[i].name.as_str());
            assert(names[i as int] == self.parameters@[i as int].name@);
            if eq_chars(&current, &wanted) {
                proof {
                    lemma_first_named(names, name@);
                }
                return Some(&self.parameters[i]);
            }
            i += 1;
        }
        proof {
            lemma_first_named(names, name@);
        }
        None
    }

    /// The parameters whose `control` attribute is the number `code`, in order.
    pub fn parameters_with_control(&self, code: u8) -> (r: Vec<&AppCommandParameter>)
        ensures
            r@.map_values(|p: &AppCommandParameter| *p) == self.parameters@.filter(
                |p: AppCommandParameter| control_code_of(first_value(p@.attributes, "control"@)) == Some(code),
            ),
    {
        let ghost keep = |p: AppCommandParameter| control_code_of(first_value(p@.attributes, "control"@)) == Some(code);
        let mut r: Vec<&AppCommandParameter> = Vec::new();
        let mut i: usize = 0;
        while i < self.parameters.len()
            invariant
                i <= self.parameters@.len(),
                keep == (|p: AppCommandParameter| control_code_of(first_value(p@.attributes, "control"@)) == Some(code)),
                r@.map_values(|p: &AppCommandParameter| *p) == self.parameters@.take(i as int).filter(keep),
            decreases self.parameters@.len() - i,
        {
            let ghost before = r@.map_values(|p: &AppCommandParameter| *p);
            let p = &self.parameters[i];
            assert(self.parameters@.take(i + 1).drop_last() =~= self.parameters@.take(i as int));
            reveal(Seq::filter);
            if p.control_code() == Some(code) {
                r.push(p);
                assert(r@.map_values(|p: &AppCommandParameter| *p) =~= before.push(*p));
            } else {
                assert(r@.map_values(|p: &AppCommandParameter| *p) =~= before);
            }
            i += 1;
        }
        assert(self.parameters@.take(i as int) =~= self.parameters@);
        r
    }
}

pub open spec fn results_view(v: Seq<AppCommandResult>) -> Seq<ResultView> {
    v.map_values(|c: AppCommandResult| c@)
}

pub open spec fn result_names(cs: Seq<ResultView>) -> Seq<Seq<char>> {
    cs.map_values(|c: ResultView| c.name)
}

#[derive(Debug, Clone, PartialEq, Eq)]
pub struct AppCommandResponse {
    pub raw_xml: String,
    pub commands: Vec<AppCommandResult>,
}

impl AppCommandResponse {
    /// The first command named `name`.
    pub fn command(&self, name: &str) -> (r: Option<&AppCommandResult>)
        ensures
            ({
                let i = first_named(result_names(results_view(self.commands@)), name@);
                if i < 0 {
                    r is None
                } else {
                    r matches Some(c) && *c == self.commands@[i]
                }
            }),
    {
        let ghost names = result_names(results_view(self.commands@));
        proof {
            lemma_first_named(names, name@);
        }
        let wanted = chars_of(name);
        let mut i: usize = 0;
        while i < self.commands.len()
            invariant
                i <= self.commands@.len(),
                names == result_names(results_view(self.commands@)),
                names.len() == self.commands@.len(),
                wanted@ == name@,
                forall|j: int| 0 <= j < i ==> names[j] != name@,
            decreases self.commands@.len() - i,
        {
            let current = chars_of(self.commands[i].name.as_str());
            assert(names[i as int] == self.commands@[i as int].name@);
            if eq_chars(&current, &wanted) {
                proof {
                    lemma_first_named(names, name@);
                }
                return Some(&self.commands[i]);
            }
            i += 1;
        }
        proof {
            lemma_first_named(names, name@);
        }
        None
    }

    /// Every parameter with the name of its command, in document order.
    pub fn parameters(&self) -> (r: Vec<(&str, &AppCommandParameter)>)
        ensures
            r@.map_values(|e: (&str, &AppCommandParameter)| (e.0@, *e.1)) == flat_parameters(self.commands@),
    {
        let mut r: Vec<(&str, &AppCommandParameter)> = Vec::new();
        let mut i: usize = 0;
        while i < self.commands.len()
            invariant
                i <= self.commands@.len(),
                r@.map_values(|e: (&str, &AppCommandParameter)| (e.0@, *e.1)) == flat_parameters(self.commands@.take(i as int)),
            decreases self.commands@.len() - i,
        {
            let command = &self.commands[i];
            let ghost start = r@.map_values(|e: (&str, &AppCommandParameter)| (e.0@, *e.1));
            let mut j: usize = 0;
            while j < command.parameters.len()
                invariant
                    j <= command.parameters@.len(),
                    r@.map_values(|e: (&str, &AppCommandParameter)| (e.0@, *e.1)) == start + command.parameters@.take(j as int).map_values(|p: AppCommandParameter| (command.name@, p)),
                decreases command.parameters@.len() - j,
            {
                let ghost before = r@.map_values(|e: (&str, &AppCommandParameter)| (e.0@, *e.1));
                r.push((command.name.as_str(), &command.parameters[j]));
                assert(r@.map_values(|e: (&str, &AppCommandParameter)| (e.0@, *e.1)) =~= before.push((command.name@, command.parameters@[j as int])));
                assert(command.parameters@.take(j + 1).map_values(|p: AppCommandParameter| (command.name@, p)) =~= command.parameters@.take(j as int).map_values(|p: AppCommandParameter| (command.name@, p)).push((command.name@, command.parameters@[j as int])));
                j += 1;
            }
            assert(command.parameters@.take(j as int) =~= command.parameters@);
            assert(self.commands@.take(i + 1).drop_last() =~= self.commands@.take(i as int));
            i += 1;
        }
        assert(self.commands@.take(i as int) =~= self.commands@);
        r
    }
}

/// Each parameter paired with the name of its command, in document order.
pub open spec fn flat_parameters(commands: Seq<AppCommandResult>) -> Seq<(Seq<char>, AppCommandParameter)>
    decreases commands.len(),
{
    if commands.len() == 0 {
        seq![]
    } else {
        flat_parameters(commands.drop_last()) + commands.last().parameters@.map_values(
            |p: AppCommandParameter| (commands.last().name@, p),
        )
    }
}


pub open spec fn rx_tag() -> Seq<u8> {
    seq![114u8, 120u8]
}

pub open spec fn cmd_tag() -> Seq<u8> {
    seq![99u8, 109u8, 100u8]
}

pub open spec fn name_tag() -> Seq<u8> {
    seq![110u8, 97u8, 109u8, 101u8]
}

pub open spec fn param_tag() -> Seq<u8> {
    seq![112u8, 97u8, 114u8, 97u8, 109u8]
}

/// What the reader reported, with what was read for `<name>` and `<param>`
/// elements: their attributes and their decoded text, or the error met.
pub enum AppCommandItem {
    Start {
        name: Vec<u8>,
        attributes: Result<Vec<(String, String)>, String>,
        text: Result<String, String>,
    },
    Empty { name: Vec<u8>, attributes: Result<Vec<(String, String)>, String> },
    End(Vec<u8>),
    /// The reader failed with this message.
    Failed(String),
    /// Text, declarations, comments and the like.
    Other,
}

pub enum ItemView {
    Start {
        name: Seq<u8>,
        attributes: Result<Seq<(Seq<char>, Seq<char>)>, Seq<char>>,
        text: Result<Seq<char>, Seq<char>>,
    },
    Empty { name: Seq<u8>, attributes: Result<Seq<(Seq<char>, Seq<char>)>, Seq<char>> },
    End(Seq<u8>),
    Failed(Seq<char>),
    Other,
}

pub open spec fn attributes_view(a: Result<Vec<(String, String)>, String>) -> Result<Seq<(Seq<char>, Seq<char>)>, Seq<char>> {
    match a {
        Ok(pairs) => Ok(pairs_view(pairs@)),
        Err(message) => Err(message@),
    }
}

pub open spec fn text_view(t: Result<String, String>) -> Result<Seq<char>, Seq<char>> {
    match t {
        Ok(text) => Ok(text@),
        Err(message) => Err(message@),
    }
}

impl View for AppCommandItem {
    type V = ItemView;

    open spec fn view(&self) -> ItemView {
        match self {
            AppCommandItem::Start { name, attributes, text } => ItemView::Start {
                name: name@,
                attributes: attributes_view(*attributes),
                text: text_view(*text),
            },
            AppCommandItem::Empty { name, attributes } => ItemView::Empty {
                name: name@,
                attributes: attributes_view(*attributes),
            },
            AppCommandItem::End(name) => ItemView::End(name@),
            AppCommandItem::Failed(message) => ItemView::Failed(message@),
            AppCommandItem::Other => ItemView::Other,
        }
    }
}

pub struct BuilderView {
    pub name: Option<Seq<char>>,
    pub parameters: Seq<ParameterView>,
}

pub struct ScanView {
    pub commands: Seq<ResultView>,
    pub current: Option<BuilderView>,
    pub saw_root: bool,
    pub inside_root: bool,
    pub closed_root: bool,
}

pub open spec fn scan_start() -> ScanView {
    ScanView { commands: seq![], current: None, saw_root: false, inside_root: false, closed_root: false }
}

/// A `<param>` element with this attribute outcome and text added to the open command.
pub open spec fn add_parameter(
    s: ScanView,
    attributes: Result<Seq<(Seq<char>, Seq<char>)>, Seq<char>>,
    text: Result<Seq<char>, Seq<char>>,
) -> Result<ScanView, ProtocolFault> {
    match s.current {
        None => Err(ProtocolFault::ParameterOutsideCommand),
        Some(b) => match attributes {
            Err(m) => Err(ProtocolFault::MalformedXml(m)),
            Ok(pairs) => match parameter_of(pairs) {
                Err(f) => Err(f),
                Ok((name, table)) => match text {
                    Err(m) => Err(ProtocolFault::MalformedXml(m)),
                    Ok(value) => Ok(
                        ScanView {
                            current: Some(
                                BuilderView {
                                    parameters: b.parameters.push(
                                        ParameterView { name, attributes: table, value },
                                    ),
                                    ..b
                                },
                            ),
                            ..s
                        },
                    ),
                },
            },
        },
    }
}

/// One reader event applied to the state of the scan.
pub open spec fn scan_step(s: ScanView, item: ItemView) -> Result<ScanView, ProtocolFault> {
    match item {
        ItemView::Start { name, attributes, text } => if name == rx_tag() {
            if s.saw_root {
                Err(ProtocolFault::MultipleResponseRoots)
            } else {
                Ok(ScanView { saw_root: true, inside_root: true, ..s })
            }
        } else if name == cmd_tag() {
            if !s.inside_root {
                Err(ProtocolFault::CommandOutsideResponseRoot)
            } else if s.current is Some {
                Err(ProtocolFault::NestedCommand)
            } else {
                Ok(ScanView { current: Some(BuilderView { name: None, parameters: seq![] }), ..s })
            }
        } else if name == name_tag() {
            match s.current {
                None => Err(ProtocolFault::MissingCommandName),
                Some(b) => match text {
                    Err(m) => Err(ProtocolFault::MalformedXml(m)),
                    Ok(t) => if b.name is Some {
                        Err(ProtocolFault::DuplicateCommandName)
                    } else {
                        Ok(ScanView { current: Some(BuilderView { name: Some(trim(t)), ..b }), ..s })
                    },
                },
            }
        } else if name == param_tag() {
            add_parameter(s, attributes, text)
        } else {
            Ok(s)
        },
        ItemView::Empty { name, attributes } => if name == rx_tag() {
            if s.saw_root {
                Err(ProtocolFault::MultipleResponseRoots)
            } else {
                Ok(ScanView { saw_root: true, closed_root: true, ..s })
            }
        } else if name == param_tag() {
            add_parameter(s, attributes, Ok(seq![]))
        } else {
            Ok(s)
        },
        ItemView::End(name) => if name == rx_tag() {
            Ok(ScanView { inside_root: false, closed_root: true, ..s })
        } else if name == cmd_tag() {
            match s.current {
                None => Err(ProtocolFault::MissingCommandName),
                Some(b) => match b.name {
                    Some(n) => if n.len() > 0 {
                        Ok(
                            ScanView {
                                commands: s.commands.push(ResultView { name: n, parameters: b.parameters }),
                                current: None,
                                ..s
                            },
                        )
                    } else {
                        Err(ProtocolFault::MissingCommandName)
                    },
                    None => Err(ProtocolFault::MissingCommandName),
                },
            }
        } else {
            Ok(s)
        },
        ItemView::Failed(m) => Err(ProtocolFault::MalformedXml(m)),
        ItemView::Other => Ok(s),
    }
}

/// The events applied in order; the first failure ends the scan.
pub open spec fn scan_items(items: Seq<ItemView>) -> Result<ScanView, ProtocolFault>
    decreases items.len(),
{
    if items.len() == 0 {
        Ok(scan_start())
    } else {
        match scan_items(items.drop_last()) {
            Err(f) => Err(f),
            Ok(s) => scan_step(s, items.last()),
        }
    }
}

/// What the end of the document makes of the scan.
pub open spec fn scan_finish(s: ScanView) -> Result<Seq<ResultView>, ProtocolFault> {
    if s.current is Some || s.inside_root || (s.saw_root && !s.closed_root) {
        Err(ProtocolFault::MalformedXml("AppCommand response contains an unclosed element"@))
    } else if !s.saw_root {
        Err(ProtocolFault::MissingResponseRoot)
    } else {
        Ok(s.commands)
    }
}

/// The commands of a response document whose reader reported `items` before its end.
pub open spec fn response_outcome(xml: Seq<char>, items: Seq<ItemView>) -> Result<Seq<ResultView>, ProtocolFault> {
    if trim(xml).len() == 0 {
        Err(ProtocolFault::MissingResponse)
    } else {
        match scan_items(items) {
            Err(f) => Err(f),
            Ok(s) => scan_finish(s),
        }
    }
}

/// A parse result by its view.
pub open spec fn response_view(r: Result<AppCommandResponse, AppCommandProtocolError>) -> Result<Seq<ResultView>, ProtocolFault> {
    match r {
        Ok(response) => Ok(results_view(response.commands@)),
        Err(e) => Err(e@),
    }
}

#[derive(Debug)]
struct CommandBuilder {
    name: Option<String>,
    parameters: Vec<AppCommandParameter>,
}

impl View for CommandBuilder {
    type V = BuilderView;

    closed spec fn view(&self) -> BuilderView {
        BuilderView {
            name: match self.name {
                Some(n) => Some(n@),
                None => None,
            },
            parameters: parameters_view(self.parameters@),
        }
    }
}

impl CommandBuilder {
    fn finish(self) -> (r: Result<AppCommandResult, AppCommandProtocolError>)
        ensures
            match self@.name {
                Some(n) => if n.len() > 0 {
                    r matches Ok(c) && c@ == (ResultView { name: n, parameters: self@.parameters })
                } else {
                    r matches Err(e) && e@ == ProtocolFault::MissingCommandName
                },
                None => r matches Err(e) && e@ == ProtocolFault::MissingCommandName,
            },
    {
        match self.name {
            Some(name) => {
                if name.as_str().is_empty() {
                    return Err(AppCommandProtocolError::MissingCommandName);
                }
                Ok(AppCommandResult { name, parameters: self.parameters })
            },
            None => Err(AppCommandProtocolError::MissingCommandName),
        }
    }
}

/// The scan over the reader's events.
struct AppCommandScan {
    commands: Vec<AppCommandResult>,
    current: Option<CommandBuilder>,
    saw_root: bool,
    inside_root: bool,
    closed_root: bool,
}

impl View for AppCommandScan {
    type V = ScanView;

    closed spec fn view(&self) -> ScanView {
        ScanView {
            commands: results_view(self.commands@),
            current: match self.current {
                Some(b) => Some(b@),
                None => None,
            },
            saw_root: self.saw_root,
            inside_root: self.inside_root,
            closed_root: self.closed_root,
        }
    }
}

fn tag(name: &[u8], tag_bytes: &[u8]) -> (r: bool)
    ensures
        r == (name@ == tag_bytes@),
{
    bytes_eq(name, tag_bytes)
}

impl AppCommandScan {
    fn new() -> (r: Self)
        ensures
            r@ == scan_start(),
    {
        let r = AppCommandScan { commands: Vec::new(), current: None, saw_root: false, inside_root: false, closed_root: false };
        assert(r@.commands =~= Seq::<ResultView>::empty());
        r
    }

    fn add_parameter(
        &mut self,
        attributes: &Result<Vec<(String, String)>, String>,
        text: Result<String, String>,
    ) -> (r: Result<(), AppCommandProtocolError>)
        ensures
            match add_parameter(old(self)@, attributes_view(*attributes), text_view(text)) {
                Ok(s) => r is Ok && final(self)@ == s,
                Err(f) => r matches Err(e) && e@ == f,
            },
    {
        let ghost before = self@;
        match &mut self.current {
            None => Err(AppCommandProtocolError::ParameterOutsideCommand),
            Some(builder) => {
                let pairs = match attributes {
                    Err(m) => return Err(AppCommandProtocolError::MalformedXml(m.clone())),
                    Ok(p) => p,
                };
                let (name, table) = match parameter_attributes(pairs) {
                    Ok(parts) => parts,
                    Err(e) => return Err(e),
                };
                let value = match text {
                    Err(m) => return Err(AppCommandProtocolError::MalformedXml(m)),
                    Ok(v) => v,
                };
                let parameter = AppCommandParameter { name, attributes: table, value };
                let ghost ps = builder@.parameters;
                builder.parameters.push(parameter);
                assert(builder@.parameters =~= ps.push(parameter@));
                Ok(())
            },
        }
    }

    fn step(&mut self, item: AppCommandItem) -> (r: Result<(), AppCommandProtocolError>)
        ensures
            match scan_step(old(self)@, item@) {
                Ok(s) => r is Ok && final(self)@ == s,
                Err(f) => r matches Err(e) && e@ == f,
            },
    {
        let rx: [u8; 2] = [114u8, 120u8];
        let cmd: [u8; 3] = [99u8, 109u8, 100u8];
        let name_bytes: [u8; 4] = [110u8, 97u8, 109u8, 101u8];
        let param: [u8; 5] = [112u8, 97u8, 114u8, 97u8, 109u8];
        assert(rx@ =~= rx_tag());
        assert(cmd@ =~= cmd_tag());
        assert(name_bytes@ =~= name_tag());
        assert(param@ =~= param_tag());
        match item {
            AppCommandItem::Start { name, attributes, text } => {
                if tag(&name, &rx) {
                    if self.saw_root {
                        return Err(AppCommandProtocolError::MultipleResponseRoots);
                    }
                    self.saw_root = true;
                    self.inside_root = true;
                    Ok(())
                } else if tag(&name, &cmd) {
                    if !self.inside_root {
                        return Err(AppCommandProtocolError::CommandOutsideResponseRoot);
                    }
                    if self.current.is_some() {
                        return Err(AppCommandProtocolError::NestedCommand);
                    }
                    let builder = CommandBuilder { name: None, parameters: Vec::new() };
                    assert(builder@.parameters =~= Seq::<ParameterView>::empty());
                    self.current = Some(builder);
                    Ok(())
                } else if tag(&name, &name_bytes) {
                    match &mut self.current {
                        None => Err(AppCommandProtocolError::MissingCommandName),
                        Some(builder) => {
                            let t = match text {
                                Err(m) => return Err(AppCommandProtocolError::MalformedXml(m)),
                                Ok(t) => t,
                            };
                            if builder.name.is_some() {
                                return Err(AppCommandProtocolError::DuplicateCommandName);
                            }
                            builder.name = Some(trim_string(t.as_str()));
                            Ok(())
                        },
                    }
                } else if tag(&name, &param) {
                    self.add_parameter(&attributes, text)
                } else {
                    Ok(())
                }
            },
            AppCommandItem::Empty { name, attributes } => {
                if tag(&name, &rx) {
                    if self.saw_root {
                        return Err(AppCommandProtocolError::MultipleResponseRoots);
                    }
                    self.saw_root = true;
                    self.closed_root = true;
                    Ok(())
                } else if tag(&name, &param) {
                    let empty = String::new();
                    self.add_parameter(&attributes, Ok(empty))
                } else {
                    Ok(())
                }
            },
            AppCommandItem::End(name) => {
                if tag(&name, &rx) {
                    self.inside_root = false;
                    self.closed_root = true;
                    Ok(())
                } else if tag(&name, &cmd) {
                    let builder = match self.current.take() {
                        Some(b) => b,
                        None => return Err(AppCommandProtocolError::MissingCommandName),
                    };
                    let command = match builder.finish() {
                        Ok(c) => c,
                        Err(e) => return Err(e),
                    };
                    let ghost cs = self@.commands;
                    self.commands.push(command);
                    assert(self@.commands =~= cs.push(command@));
                    Ok(())
                } else {
                    Ok(())
                }
            },
            AppCommandItem::Failed(m) => Err(AppCommandProtocolError::MalformedXml(m)),
            AppCommandItem::Other => Ok(()),
        }
    }

    fn finish(self, xml: &str) -> (r: Result<AppCommandResponse, AppCommandProtocolError>)
        ensures
            match scan_finish(self@) {
                Ok(cs) => r matches Ok(response) && response.raw_xml@ == xml@ && results_view(response.commands@) == cs,
                Err(f) => r matches Err(e) && e@ == f,
            },
    {
        if self.current.is_some() || self.inside_root || (self.saw_root && !self.closed_root) {
            return Err(AppCommandProtocolError::MalformedXml(owned("AppCommand response contains an unclosed element")));
        }
        if !self.saw_root {
            return Err(AppCommandProtocolError::MissingResponseRoot);
        }
        Ok(AppCommandResponse { raw_xml: owned(xml), commands: self.commands })
    }
}

fn blank(xml: &str) -> (r: bool)
    ensures
        r == (trim(xml@).len() == 0),
{
    let v = chars_of(xml);
    let (a, b) = trim_bounds(&v);
    a == b
}

/// A failed scan stays failed, whatever events follow.
pub proof fn lemma_scan_failed(done: Seq<ItemView>, more: Seq<ItemView>)
    requires
        scan_items(done) is Err,
    ensures
        scan_items(done + more) == scan_items(done),
    decreases more.len(),
{
    if more.len() > 0 {
        lemma_scan_failed(done, more.drop_last());
        assert((done + more).drop_last() =~= done + more.drop_last());
    } else {
        assert(done + more =~= done);
    }
}

/// The response a document gives whose reader reported `items` before the end
/// of the document: this is the whole of the structural checking.
pub fn scan_app_command_response(xml: &str, items: Vec<AppCommandItem>) -> (r: Result<AppCommandResponse, AppCommandProtocolError>)
    ensures
        response_view(r) == response_outcome(xml@, items@.map_values(|i: AppCommandItem| i@)),
        r matches Ok(response) ==> response.raw_xml@ == xml@,
{
    if blank(xml) {
        return Err(AppCommandProtocolError::MissingResponse);
    }
    let ghost all = items@.map_values(|i: AppCommandItem| i@);
    let mut scan = AppCommandScan::new();
    let mut rest = items;
    let ghost mut seen: Seq<ItemView> = seq![];
    assert(rest@.map_values(|i: AppCommandItem| i@) =~= all);
    assert(seen + all =~= all);
    while rest.len() > 0
        invariant
            all == items@.map_values(|i: AppCommandItem| i@),
            all == seen + rest@.map_values(|i: AppCommandItem| i@),
            scan_items(seen) == Ok::<ScanView, ProtocolFault>(scan@),
            trim(xml@).len() > 0,
        decreases rest@.len(),
    {
        let ghost tail = rest@.map_values(|i: AppCommandItem| i@);
        let item = rest.remove(0);
        let ghost iv = item@;
        assert(tail[0] == iv);
        assert(tail.drop_first() =~= rest@.map_values(|i: AppCommandItem| i@));
        let stepped = scan.step(item);
        let ghost next = seen.push(iv);
        assert(next.drop_last() =~= seen);
        assert(all =~= next + rest@.map_values(|i: AppCommandItem| i@));
        match stepped {
            Err(e) => {
                proof {
                    assert(scan_items(next) == scan_step(scan_items(seen)->Ok_0, iv));
                    assert(scan_items(next) == Err::<ScanView, ProtocolFault>(e@));
                    lemma_scan_failed(next, rest@.map_values(|i: AppCommandItem| i@));
                    assert(scan_items(all) == Err::<ScanView, ProtocolFault>(e@));
                }
                return Err(e);
            },
            Ok(()) => {},
        }
        proof {
            seen = next;
        }
    }
    assert(seen =~= all);
    scan.finish(xml)
}


/// The key/value text of the attributes a `<param>` tag reports, from the
/// `i`-th on: each key as UTF-8 text and each value decoded and normalized,
/// the first error met, or a refusal as unending where an attribute stands at
/// index `limit` or beyond.
pub open spec fn attribute_pairs(attrs: Seq<Result<(Seq<u8>, Seq<u8>), Seq<char>>>, i: int, limit: int) -> Result<Seq<(Seq<char>, Seq<char>)>, Seq<char>>
    decreases attrs.len() - i,
{
    if i < 0 || i >= attrs.len() {
        Ok(seq![])
    } else {
        match attrs[i] {
            Err(m) => Err(m),
            Ok((key, value)) => match utf8_view(key) {
                Err(m) => Err(m),
                Ok(key_text) => match xml_attribute_value(value) {
                    Err(m) => Err(m),
                    Ok(value_text) => if i >= limit {
                        Err("XML attribute list did not end"@)
                    } else {
                        match attribute_pairs(attrs, i + 1, limit) {
                            Ok(rest) => Ok(seq![(key_text, value_text)] + rest),
                            Err(m) => Err(m),
                        }
                    },
                },
            },
        }
    }
}

/// `done` before the pairs of `rest`, or the error of `rest`.
pub open spec fn pairs_before(done: Seq<(Seq<char>, Seq<char>)>, rest: Result<Seq<(Seq<char>, Seq<char>)>, Seq<char>>) -> Result<Seq<(Seq<char>, Seq<char>)>, Seq<char>> {
    match rest {
        Ok(pairs) => Ok(done + pairs),
        Err(m) => Err(m),
    }
}

/// The attributes of `element` as key/value text, or the first error met;
/// a list of more than `limit` attributes is refused as unending.
fn read_parameter_attributes(reader: &Reader<&[u8]>, element: &BytesStart, limit: usize) -> (r: Result<
    Vec<(String, String)>,
    String,
>)
    ensures
        attributes_view(r) == attribute_pairs(start_attributes(*element), 0, limit as int),
        r matches Ok(list) ==> list@.len() <= limit,
{
    let decoder = reader_decoder(reader);
    let mut attributes = element_attributes(element);
    let ghost attrs = start_attributes(*element);
    let mut out: Vec<(String, String)> = Vec::new();
    let mut count: usize = 0;
    proof {
        assert(pairs_view(out@) =~= Seq::<(Seq<char>, Seq<char>)>::empty());
        assert(attrs.skip(0) =~= attrs);
        assert(pairs_before(pairs_view(out@), attribute_pairs(attrs, 0, limit as int)) == attribute_pairs(attrs, 0, limit as int)) by {
            match attribute_pairs(attrs, 0, limit as int) {
                Ok(p) => assert(seq![] + p =~= p),
                Err(_) => {},
            }
        }
    }
    // An attribute takes at least one byte of the document, so the list ends
    // within `limit` steps; the bound only gives the loop its measure.
    while count <= limit
        invariant_except_break
            out@.len() == count,
            count <= limit,
            count <= attrs.len(),
            attributes_left(attributes) == attrs.skip(count as int),
            attrs == start_attributes(*element),
            pairs_before(pairs_view(out@), attribute_pairs(attrs, count as int, limit as int))
                == attribute_pairs(attrs, 0, limit as int),
        ensures
            attribute_pairs(attrs, 0, limit as int) == Err::<Seq<(Seq<char>, Seq<char>)>, Seq<char>>(
                "XML attribute list did not end"@,
            ),
        decreases limit - count + 1,
    {
        let ghost left = attributes_left(attributes);
        let ghost before = pairs_view(out@);
        match next_attribute(&mut attributes) {
            None => {
                assert(attrs.len() <= count);
                assert(attribute_pairs(attrs, count as int, limit as int) == Ok::<Seq<(Seq<char>, Seq<char>)>, Seq<char>>(seq![]));
                assert(before + seq![] =~= before);
                return Ok(out);
            },
            Some(Err(message)) => {
                assert(left[0] == attrs[count as int]);
                return Err(message);
            },
            Some(Ok((key, value))) => {
                assert(left[0] == attrs[count as int]);
                let key_text = match utf8_str(&key) {
                    Ok(k) => owned(k),
                    Err(message) => return Err(message),
                };
                let value_text = match attribute_value(&key, &value, decoder) {
                    Ok(v) => v,
                    Err(message) => return Err(message),
                };
                if count == limit {
                    proof {
                        reveal_strlit("XML attribute list did not end");
                    }
                    assert(attribute_pairs(attrs, count as int, limit as int) == Err::<Seq<(Seq<char>, Seq<char>)>, Seq<char>>("XML attribute list did not end"@));
                    break;
                }
                let ghost pair = (key_text@, value_text@);
                out.push((key_text, value_text));
                proof {
                    assert(pairs_view(out@) =~= before.push(pair));
                    assert(attributes_left(attributes) =~= attrs.skip(count + 1));
                    match attribute_pairs(attrs, count + 1, limit as int) {
                        Ok(rest) => {
                            assert(attribute_pairs(attrs, count as int, limit as int) == Ok::<Seq<(Seq<char>, Seq<char>)>, Seq<char>>(seq![pair] + rest));
                            assert(before + (seq![pair] + rest) =~= before.push(pair) + rest);
                        },
                        Err(m) => {},
                    }
                }
            },
        }
        count += 1;
    }
    Err(owned("XML attribute list did not end"))
}

/// The decoded and unescaped text content a `read_text` result comes to.
pub open spec fn text_content_of(read: Result<Seq<u8>, Seq<char>>) -> Result<Seq<char>, Seq<char>> {
    match read {
        Err(m) => Err(m),
        Ok(bytes) => match decoded_view(bytes) {
            Err(m) => Err(m),
            Ok(text) => xml_unescaped(text),
        },
    }
}

/// The decoded and unescaped text of the element `name` just opened.
fn read_text_content<'a>(reader: &mut Reader<&'a [u8]>, name: &[u8]) -> (r: Result<String, String>)
    ensures
        text_view(r) == text_content_of(xml_text_read(reader_document(*old(reader)), reader_steps(*old(reader)), name@)),
        reader_document(*final(reader)) == reader_document(*old(reader)),
        reader_steps(*final(reader)) == reader_steps(*old(reader)).push(ReaderStep::TextRead(name@)),
{
    let text = match read_element_text(reader, name) {
        Ok(t) => t,
        Err(message) => return Err(message),
    };
    let decoded = match decode_content(&text) {
        Ok(d) => d,
        Err(message) => return Err(message),
    };
    unescape_text(decoded.as_str())
}

/// The view of an optional item.
pub open spec fn item_option_view(r: Option<AppCommandItem>) -> Option<ItemView> {
    match r {
        Some(item) => Some(item@),
        None => None,
    }
}

/// The item an event gives the parser, with what was asked of the reader
/// after it (`steps` already holds the event): for a `<param>` tag its
/// attributes, for `<param>` and `<name>` elements their text, read next;
/// for other elements no attributes and empty text; `None` at the end.
pub open spec fn app_item_of(document: Seq<char>, steps: Seq<ReaderStep>, event: EventView, limit: int) -> (Option<ItemView>, Seq<ReaderStep>) {
    match event {
        EventView::Failed(m) => (Some(ItemView::Failed(m)), steps),
        EventView::Eof => (None, steps),
        EventView::Start(name, attrs) => {
            let attributes = if name == param_tag() {
                attribute_pairs(attrs, 0, limit)
            } else {
                Ok(seq![])
            };
            if name == param_tag() || name == name_tag() {
                (
                    Some(ItemView::Start { name, attributes, text: text_content_of(xml_text_read(document, steps, name)) }),
                    steps.push(ReaderStep::TextRead(name)),
                )
            } else {
                (Some(ItemView::Start { name, attributes, text: Ok(seq![]) }), steps)
            }
        },
        EventView::Empty(name, attrs) => {
            let attributes = if name == param_tag() {
                attribute_pairs(attrs, 0, limit)
            } else {
                Ok(seq![])
            };
            (Some(ItemView::Empty { name, attributes }), steps)
        },
        EventView::End(name) => (Some(ItemView::End(name)), steps),
        _ => (Some(ItemView::Other), steps),
    }
}

/// What the parser needs of an event the reader reported: for a `<param>`
/// element its attributes, for `<param>` and `<name>` elements their text,
/// read from `reader`; for other elements no attributes and empty text; a
/// reader error as a failure; `None` at the end of the document.
fn next_item<'a>(reader: &mut Reader<&'a [u8]>, event: Result<XmlEvent<'a>, String>, limit: usize) -> (r: Option<AppCommandItem>)
    ensures
        reader_document(*final(reader)) == reader_document(*old(reader)),
        (item_option_view(r), reader_steps(*final(reader))) == app_item_of(
            reader_document(*old(reader)),
            reader_steps(*old(reader)),
            event_view(event),
            limit as int,
        ),
{
    let name_bytes: [u8; 4] = [110u8, 97u8, 109u8, 101u8];
    let param: [u8; 5] = [112u8, 97u8, 114u8, 97u8, 109u8];
    assert(name_bytes@ == name_tag());
    assert(param@ == param_tag());
    match event {
        Err(message) => Some(AppCommandItem::Failed(message)),
        Ok(XmlEvent::Eof) => None,
        Ok(XmlEvent::Start(name, element)) => {
            let is_param = tag(&name, &param);
            let attributes = if is_param {
                read_parameter_attributes(reader, &element, limit)
            } else {
                Ok(Vec::new())
            };
            let text = if is_param || tag(&name, &name_bytes) {
                read_text_content(reader, &name)
            } else {
                Ok(String::new())
            };
            proof {
                if attributes is Ok && !is_param {
                    assert(pairs_view(attributes->Ok_0@) =~= Seq::<(Seq<char>, Seq<char>)>::empty());
                }
            }
            Some(AppCommandItem::Start { name, attributes, text })
        },
        Ok(XmlEvent::Empty(name, element)) => {
            let attributes = if tag(&name, &param) {
                read_parameter_attributes(reader, &element, limit)
            } else {
                Ok(Vec::new())
            };
            proof {
                if attributes is Ok && name@ != param_tag() {
                    assert(pairs_view(attributes->Ok_0@) =~= Seq::<(Seq<char>, Seq<char>)>::empty());
                }
            }
            Some(AppCommandItem::Empty { name, attributes })
        },
        Ok(XmlEvent::End(name)) => Some(AppCommandItem::End(name)),
        Ok(_) => Some(AppCommandItem::Other),
    }
}

/// The items the parser is handed by a reader of `document` once `steps`
/// were asked of it and it was seen to have consumed `position` of its `limit`
/// bytes: one per event up to the end of the document, and a failure where the
/// reader stops consuming input.
pub open spec fn app_reader_items(document: Seq<char>, limit: int, steps: Seq<ReaderStep>, position: int) -> Seq<ItemView>
    decreases limit - position,
{
    let event = xml_next_event(document, steps);
    let (item, after) = app_item_of(document, steps.push(ReaderStep::Event(event)), event, limit);
    match item {
        None => seq![],
        Some(i) => {
            let now = xml_position(document, after) as int;
            if position < now && now <= limit {
                seq![i] + app_reader_items(document, limit, after, now)
            } else {
                seq![i, ItemView::Failed("XML reader did not advance"@)]
            }
        },
    }
}

/// The items of a whole document.
pub open spec fn app_document_items(xml: Seq<char>) -> Seq<ItemView> {
    app_reader_items(xml, (encode_utf8(xml).len() as usize) as int, Seq::empty(), 0)
}

/// Parses an AppCommand response document: what the scan makes of the items
/// the reader of `xml` hands it.
pub fn parse_app_command_response(xml: &str) -> (r: Result<AppCommandResponse, AppCommandProtocolError>)
    ensures
        response_view(r) == response_outcome(xml@, app_document_items(xml@)),
        trim(xml@).len() == 0 ==> (r matches Err(e) && e@ == ProtocolFault::MissingResponse),
        r matches Ok(response) ==> response.raw_xml@ == xml@,
{
    if blank(xml) {
        let r = Err(AppCommandProtocolError::MissingResponse);
        assert(response_view(r) == response_outcome(xml@, app_document_items(xml@)));
        return r;
    }
    let limit: usize = xml.len();
    let mut reader = xml_reader(xml);
    let mut scan = AppCommandScan::new();
    let ghost all = app_document_items(xml@);
    let ghost mut seen: Seq<ItemView> = seq![];
    let mut position: u64 = 0;
    assert(seen + app_reader_items(xml@, limit as int, reader_steps(reader), position as int) =~= all);
    loop
        invariant
            scan_items(seen) == Ok::<ScanView, ProtocolFault>(scan@),
            position <= limit,
            trim(xml@).len() > 0,
            limit == xml.spec_bytes().len() as usize,
            reader_document(reader) == xml@,
            all == app_document_items(xml@),
            seen + app_reader_items(xml@, limit as int, reader_steps(reader), position as int) == all,
        decreases limit - position,
    {
        let ghost steps = reader_steps(reader);
        let ghost rest = app_reader_items(xml@, limit as int, steps, position as int);
        let event = read_xml_event(&mut reader);
        let ghost ev = event_view(event);
        let item = match next_item(&mut reader, event, limit) {
            Some(item) => item,
            None => {
                assert(rest == Seq::<ItemView>::empty());
                assert(seen =~= all);
                let r = scan.finish(xml);
                assert(response_view(r) == response_outcome(xml@, seen));
                return r;
            },
        };
        let ghost next = seen.push(item@);
        assert(next.drop_last() =~= seen);
        let ghost after = reader_steps(reader);
        let ghost now_spec = xml_position(xml@, after) as int;
        proof {
            if position < now_spec && now_spec <= limit {
                assert(rest == seq![item@] + app_reader_items(xml@, limit as int, after, now_spec));
                assert(all =~= next + app_reader_items(xml@, limit as int, after, now_spec));
            } else {
                assert(rest == seq![item@, ItemView::Failed("XML reader did not advance"@)]);
                assert(all =~= next.push(ItemView::Failed("XML reader did not advance"@)));
            }
        }
        match scan.step(item) {
            Err(e) => {
                let r = Err(e);
                assert(scan_items(next) == Err::<ScanView, ProtocolFault>(e@));
                proof {
                    lemma_scan_failed(next, all.skip(next.len() as int));
                    assert(next + all.skip(next.len() as int) =~= all);
                }
                assert(response_view(r) == response_outcome(xml@, all));
                return r;
            },
            Ok(()) => {},
        }
        proof {
            seen = next;
        }
        let now = reader_position(&reader);
        assert(now == now_spec);
        if !(position < now && now <= limit as u64) {
            // quick_xml consumes input for every event but the end; should it
            // ever not, the reader is reported as failed rather than polled again
            let stuck = AppCommandItem::Failed(owned("XML reader did not advance"));
            let ghost last = seen.push(stuck@);
            assert(last.drop_last() =~= seen);
            assert(last =~= all);
            match scan.step(stuck) {
                Err(e) => {
                    let r = Err(e);
                    assert(scan_items(last) == Err::<ScanView, ProtocolFault>(e@));
                    assert(response_view(r) == response_outcome(xml@, last));
                    return r;
                },
                Ok(()) => {
                    assert(false);
                    return Err(AppCommandProtocolError::MissingResponse);
                },
            }
        }
        position = now;
    }
}

} // verus!
