//! Parser for the receiver-advertised `GetQuickSelectName` AppCommand reply.
use crate::avr::{utf8_error_text, utf8_str};
use crate::bytes::{bytes_eq, bytes_match_at, bytes_range, bytes_at};
use crate::text::{chars_of, owned, push_str, parse_unsigned, parse_unsigned_exec, string_of, trim, trim_bounds};
use crate::xml::{event_view, read_xml_event, reader_document, reader_position, reader_steps, xml_next_event, xml_position, xml_reader, EventView, ReaderStep, XmlEvent};
use quick_xml::Reader;
use vstd::prelude::*;
use vstd::string::StringSliceAdditionalSpecFns;
use vstd::utf8::*;

verus! {

#[derive(Debug, Clone, PartialEq, Eq)]
pub struct ParsedQuickSelectNames {
    pub names: [Option<String>; 4],
    pub sources: [Option<String>; 4],
    pub complete: bool,
}

#[derive(Debug, Clone, PartialEq, Eq)]
pub enum QuickSelectNameProtocolError {
    MalformedXml(String),
    MissingResponse,
}

/// A `QuickSelectNameProtocolError` with its text as a sequence.
pub enum NameFault {
    MalformedXml(Seq<char>),
    MissingResponse,
}

impl View for QuickSelectNameProtocolError {
    type V = NameFault;

    open spec fn view(&self) -> NameFault {
        match self {
            QuickSelectNameProtocolError::MalformedXml(m) => NameFault::MalformedXml(m@),
            QuickSelectNameProtocolError::MissingResponse => NameFault::MissingResponse,
        }
    }
}

impl QuickSelectNameProtocolError {
    /// The human-readable text of the error.
    pub fn message(&self) -> (r: String)
        ensures
            r@ == match self@ {
                NameFault::MalformedXml(m) => "malformed Quick Select name XML: "@ + m,
                NameFault::MissingResponse => "Quick Select name response is empty"@,
            },
    {
        match self {
            QuickSelectNameProtocolError::MalformedXml(error) => {
                let mut v = chars_of("malformed Quick Select name XML: ");
                let e = chars_of(error.as_str());
                v.append(&mut e.clone());
                string_of(&v)
            },
            QuickSelectNameProtocolError::MissingResponse => owned("Quick Select name response is empty"),
        }
    }
}

/// The slot a tag such as `Name3` names: `prefix`, then a number from 1 to 4,
/// as `str::parse` reads it.
pub open spec fn indexed_field_of(tag: Seq<u8>, prefix: Seq<u8>) -> Option<usize> {
    if bytes_at(tag, prefix, 0) && valid_utf8(tag.skip(prefix.len() as int)) {
        match parse_unsigned(decode_utf8(tag.skip(prefix.len() as int))) {
            Some(n) => if 1 <= n <= 4 {
                Some((n - 1) as usize)
            } else {
                None
            },
            None => None,
        }
    } else {
        None
    }
}

/// The zero-based slot of a `NameN` or `SourceN` tag.
pub fn indexed_field(tag: &[u8], prefix: &[u8]) -> (r: Option<usize>)
    ensures
        r == indexed_field_of(tag@, prefix@),
{
    if !bytes_match_at(tag, 0, prefix) {
        return None;
    }
    let suffix = bytes_range(tag, prefix.len(), tag.len());
    assert(suffix@ =~= tag@.skip(prefix@.len() as int));
    let text = match utf8_str(&suffix) {
        Ok(t) => t,
        Err(_) => return None,
    };
    let v = chars_of(text);
    match parse_unsigned_exec(&v, 4) {
        Some(n) => {
            if n >= 1 {
                Some((n - 1) as usize)
            } else {
                None
            }
        },
        None => None,
    }
}

pub open spec fn name_tag() -> Seq<u8> {
    seq![78u8, 97u8, 109u8, 101u8]
}

pub open spec fn source_tag() -> Seq<u8> {
    seq![83u8, 111u8, 117u8, 114u8, 99u8, 101u8]
}

pub open spec fn rx_tag() -> Seq<u8> {
    seq![114u8, 120u8]
}

pub open spec fn cmd_tag() -> Seq<u8> {
    seq![99u8, 109u8, 100u8]
}

/// What the reader reported; text comes decoded, or with the error met.
pub enum QuickSelectItem {
    Start(Vec<u8>),
    Text(Result<String, String>),
    End(Vec<u8>),
    Failed(String),
    Other,
}

pub enum NameItemView {
    Start(Seq<u8>),
    Text(Result<Seq<char>, Seq<char>>),
    End(Seq<u8>),
    Failed(Seq<char>),
    Other,
}

impl View for QuickSelectItem {
    type V = NameItemView;

    open spec fn view(&self) -> NameItemView {
        match self {
            QuickSelectItem::Start(t) => NameItemView::Start(t@),
            QuickSelectItem::Text(Ok(v)) => NameItemView::Text(Ok(v@)),
            QuickSelectItem::Text(Err(m)) => NameItemView::Text(Err(m@)),
            QuickSelectItem::End(t) => NameItemView::End(t@),
            QuickSelectItem::Failed(m) => NameItemView::Failed(m@),
            QuickSelectItem::Other => NameItemView::Other,
        }
    }
}

/// Text content decoded as `BytesText::decode` decodes it without the
/// `encoding` feature: UTF-8, an error reported with its `Display` text.
pub open spec fn decoded_view(bytes: Seq<u8>) -> Result<Seq<char>, Seq<char>> {
    if valid_utf8(bytes) {
        Ok(decode_utf8(bytes))
    } else {
        Err("cannot decode input using UTF-8: "@ + utf8_error_text(bytes))
    }
}

/// The item an event gives the name scan; `None` at the end of the document.
pub open spec fn name_item_of(event: EventView) -> Option<NameItemView> {
    match event {
        EventView::Start(name, _) => Some(NameItemView::Start(name)),
        EventView::Text(bytes) => Some(NameItemView::Text(decoded_view(bytes))),
        EventView::End(name) => Some(NameItemView::End(name)),
        EventView::Failed(m) => Some(NameItemView::Failed(m)),
        EventView::Eof => None,
        _ => Some(NameItemView::Other),
    }
}

/// The items the name scan is handed by a reader of `document` once `steps`
/// were asked of it and it was seen to have consumed `position` of its `limit`
/// bytes: one per event up to the end of the document, and a failure where the
/// reader stops consuming input.
pub open spec fn name_reader_items(document: Seq<char>, limit: int, steps: Seq<ReaderStep>, position: int) -> Seq<NameItemView>
    decreases limit - position,
{
    let event = xml_next_event(document, steps);
    match name_item_of(event) {
        None => seq![],
        Some(item) => {
            let after = steps.push(ReaderStep::Event(event));
            let now = xml_position(document, after) as int;
            if position < now && now <= limit {
                seq![item] + name_reader_items(document, limit, after, now)
            } else {
                seq![item, NameItemView::Failed("XML reader did not advance"@)]
            }
        },
    }
}

/// The items of a whole document.
pub open spec fn name_document_items(xml: Seq<char>) -> Seq<NameItemView> {
    name_reader_items(xml, (encode_utf8(xml).len() as usize) as int, Seq::empty(), 0)
}

pub struct NameScanView {
    pub names: Seq<Option<Seq<char>>>,
    pub sources: Seq<Option<Seq<char>>>,
    /// The slot whose text comes next: a name (`true`) or a source, and its index.
    pub current: Option<(bool, usize)>,
    pub saw_root: bool,
    pub saw_command: bool,
}

pub open spec fn name_scan_start() -> NameScanView {
    NameScanView {
        names: seq![None, None, None, None],
        sources: seq![None, None, None, None],
        current: None,
        saw_root: false,
        saw_command: false,
    }
}

pub open spec fn name_scan_step(s: NameScanView, item: NameItemView) -> Result<NameScanView, Seq<char>> {
    match item {
        NameItemView::Start(tag) => if tag == rx_tag() {
            if s.saw_root {
                Err("duplicate rx root"@)
            } else {
                Ok(NameScanView { saw_root: true, ..s })
            }
        } else if tag == cmd_tag() {
            if !s.saw_root || s.saw_command {
                Err("unexpected cmd element"@)
            } else {
                Ok(NameScanView { saw_command: true, ..s })
            }
        } else {
            match indexed_field_of(tag, name_tag()) {
                Some(i) => Ok(NameScanView { current: Some((true, i)), ..s }),
                None => match indexed_field_of(tag, source_tag()) {
                    Some(i) => Ok(NameScanView { current: Some((false, i)), ..s }),
                    None => Ok(s),
                },
            }
        },
        NameItemView::Text(decoded) => match s.current {
            None => Ok(s),
            Some((is_name, i)) => match decoded {
                Err(m) => Err(m),
                Ok(v) => if is_name {
                    Ok(NameScanView { names: s.names.update(i as int, Some(v)), ..s })
                } else {
                    Ok(NameScanView { sources: s.sources.update(i as int, Some(v)), ..s })
                },
            },
        },
        NameItemView::End(tag) => if tag == rx_tag() {
            Ok(NameScanView { saw_root: false, ..s })
        } else if tag == cmd_tag() || indexed_field_of(tag, name_tag()) is Some || indexed_field_of(
            tag,
            source_tag(),
        ) is Some {
            Ok(NameScanView { current: None, ..s })
        } else {
            Ok(s)
        },
        NameItemView::Failed(m) => Err(m),
        NameItemView::Other => Ok(s),
    }
}

pub open spec fn name_scan_items(items: Seq<NameItemView>) -> Result<NameScanView, Seq<char>>
    decreases items.len(),
{
    if items.len() == 0 {
        Ok(name_scan_start())
    } else {
        match name_scan_items(items.drop_last()) {
            Err(m) => Err(m),
            Ok(s) => name_scan_step(s, items.last()),
        }
    }
}

pub struct NamesView {
    pub names: Seq<Option<Seq<char>>>,
    pub sources: Seq<Option<Seq<char>>>,
    pub complete: bool,
}

/// The names of a reply whose reader reported `items` before its end.
pub open spec fn names_outcome(xml: Seq<char>, items: Seq<NameItemView>) -> Result<NamesView, NameFault> {
    if trim(xml).len() == 0 {
        Err(NameFault::MissingResponse)
    } else {
        match name_scan_items(items) {
            Err(m) => Err(NameFault::MalformedXml(m)),
            Ok(s) => if !s.saw_command {
                Err(NameFault::MalformedXml("response has no cmd"@))
            } else {
                Ok(
                    NamesView {
                        names: s.names,
                        sources: s.sources,
                        complete: forall|i: int| 0 <= i < 4 ==> s.names[i] is Some,
                    },
                )
            },
        }
    }
}

pub open spec fn slot_view(o: Option<String>) -> Option<Seq<char>> {
    match o {
        Some(s) => Some(s@),
        None => None,
    }
}

pub open spec fn slots_view(a: [Option<String>; 4]) -> Seq<Option<Seq<char>>> {
    a@.map_values(|o: Option<String>| slot_view(o))
}

pub open spec fn names_view(r: Result<ParsedQuickSelectNames, QuickSelectNameProtocolError>) -> Result<NamesView, NameFault> {
    match r {
        Ok(p) => Ok(NamesView { names: slots_view(p.names), sources: slots_view(p.sources), complete: p.complete }),
        Err(e) => Err(e@),
    }
}

struct NameScan {
    names: [Option<String>; 4],
    sources: [Option<String>; 4],
    current: Option<(bool, usize)>,
    saw_root: bool,
    saw_command: bool,
}

impl View for NameScan {
    type V = NameScanView;

    closed spec fn view(&self) -> NameScanView {
        NameScanView {
            names: slots_view(self.names),
            sources: slots_view(self.sources),
            current: self.current,
            saw_root: self.saw_root,
            saw_command: self.saw_command,
        }
    }
}

impl NameScan {
    fn new() -> (r: Self)
        ensures
            r@ == name_scan_start(),
    {
        let r = NameScan {
            names: [None, None, None, None],
            sources: [None, None, None, None],
            current: None,
            saw_root: false,
            saw_command: false,
        };
        assert(r@.names =~= seq![None, None, None, None]);
        assert(r@.sources =~= seq![None, None, None, None]);
        r
    }

    /// `current` always names a slot.
    closed spec fn inv(&self) -> bool {
        self.current matches Some((_, i)) ==> i < 4
    }

    fn step(&mut self, item: QuickSelectItem) -> (r: Result<(), String>)
        requires
            old(self).inv(),
        ensures
            final(self).inv(),
            match name_scan_step(old(self)@, item@) {
                Ok(s) => r is Ok && final(self)@ == s,
                Err(m) => r matches Err(e) && e@ == m,
            },
    {
        let rx: [u8; 2] = [114u8, 120u8];
        let cmd: [u8; 3] = [99u8, 109u8, 100u8];
        let name_prefix: [u8; 4] = [78u8, 97u8, 109u8, 101u8];
        let source_prefix: [u8; 6] = [83u8, 111u8, 117u8, 114u8, 99u8, 101u8];
        assert(rx@ =~= rx_tag());
        assert(cmd@ =~= cmd_tag());
        assert(name_prefix@ =~= name_tag());
        assert(source_prefix@ =~= source_tag());
        match item {
            QuickSelectItem::Start(tag) => {
                if bytes_eq(&tag, &rx) {
                    if self.saw_root {
                        return Err(owned("duplicate rx root"));
                    }
                    self.saw_root = true;
                } else if bytes_eq(&tag, &cmd) {
                    if !self.saw_root || self.saw_command {
                        return Err(owned("unexpected cmd element"));
                    }
                    self.saw_command = true;
                } else if let Some(index) = indexed_field(&tag, &name_prefix) {
                    self.current = Some((true, index));
                } else if let Some(index) = indexed_field(&tag, &source_prefix) {
                    self.current = Some((false, index));
                }
                Ok(())
            },
            QuickSelectItem::Text(decoded) => {
                match self.current {
                    None => Ok(()),
                    Some((is_name, index)) => {
                        let value = match decoded {
                            Err(m) => return Err(m),
                            Ok(v) => v,
                        };
                        let ghost before = self@;
                        if is_name {
                            self.names[index] = Some(value);
                            assert(self@.names =~= before.names.update(index as int, self@.names[index as int]));
                        } else {
                            self.sources[index] = Some(value);
                            assert(self@.sources =~= before.sources.update(index as int, self@.sources[index as int]));
                        }
                        Ok(())
                    },
                }
            },
            QuickSelectItem::End(tag) => {
                if bytes_eq(&tag, &rx) {
                    self.saw_root = false;
                } else if bytes_eq(&tag, &cmd) || indexed_field(&tag, &name_prefix).is_some()
                    || indexed_field(&tag, &source_prefix).is_some() {
                    self.current = None;
                }
                Ok(())
            },
            QuickSelectItem::Failed(m) => Err(m),
            QuickSelectItem::Other => Ok(()),
        }
    }
}

fn blank(xml: &str) -> (r: bool)
    ensures
        r == (trim(xml@).len() == 0),
{
    let v = chars_of(xml);
    let (a, b) = trim_bounds(&v);
    a == b
}

proof fn lemma_name_scan_failed(done: Seq<NameItemView>, more: Seq<NameItemView>)
    requires
        name_scan_items(done) is Err,
    ensures
        name_scan_items(done + more) == name_scan_items(done),
    decreases more.len(),
{
    if more.len() > 0 {
        lemma_name_scan_failed(done, more.drop_last());
        assert((done + more).drop_last() =~= done + more.drop_last());
    } else {
        assert(done + more =~= done);
    }
}

fn finish_names(scan: NameScan) -> (r: Result<ParsedQuickSelectNames, QuickSelectNameProtocolError>)
    ensures
        names_view(r) == (if !scan@.saw_command {
            Err(NameFault::MalformedXml("response has no cmd"@))
        } else {
            Ok(NamesView {
                names: scan@.names,
                sources: scan@.sources,
                complete: forall|i: int| 0 <= i < 4 ==> scan@.names[i] is Some,
            })
        }),
{
    if !scan.saw_command {
        return Err(QuickSelectNameProtocolError::MalformedXml(owned("response has no cmd")));
    }
    let complete = scan.names[0].is_some() && scan.names[1].is_some() && scan.names[2].is_some()
        && scan.names[3].is_some();
    assert(complete == forall|i: int| 0 <= i < 4 ==> scan@.names[i] is Some) by {
        if !complete {
            if scan.names[0].is_none() {
                assert(scan@.names[0] is None);
            } else if scan.names[1].is_none() {
                assert(scan@.names[1] is None);
            } else if scan.names[2].is_none() {
                assert(scan@.names[2] is None);
            } else {
                assert(scan@.names[3] is None);
            }
        }
    }
    Ok(ParsedQuickSelectNames { names: scan.names, sources: scan.sources, complete })
}

/// The names a reply holds when its reader reports `items` before the end.
pub fn scan_quick_select_names(xml: &str, items: Vec<QuickSelectItem>) -> (r: Result<ParsedQuickSelectNames, QuickSelectNameProtocolError>)
    ensures
        names_view(r) == names_outcome(xml@, items@.map_values(|i: QuickSelectItem| i@)),
{
    if blank(xml) {
        return Err(QuickSelectNameProtocolError::MissingResponse);
    }
    let ghost all = items@.map_values(|i: QuickSelectItem| i@);
    let mut scan = NameScan::new();
    let mut rest = items;
    let ghost mut seen: Seq<NameItemView> = seq![];
    assert(rest@.map_values(|i: QuickSelectItem| i@) =~= all);
    assert(seen + all =~= all);
    while rest.len() > 0
        invariant
            all == items@.map_values(|i: QuickSelectItem| i@),
            all == seen + rest@.map_values(|i: QuickSelectItem| i@),
            name_scan_items(seen) == Ok::<NameScanView, Seq<char>>(scan@),
            scan.inv(),
            trim(xml@).len() > 0,
        decreases rest@.len(),
    {
        let ghost tail = rest@.map_values(|i: QuickSelectItem| i@);
        let item = rest.remove(0);
        let ghost iv = item@;
        assert(tail[0] == iv);
        assert(tail.drop_first() =~= rest@.map_values(|i: QuickSelectItem| i@));
        let stepped = scan.step(item);
        let ghost next = seen.push(iv);
        assert(next.drop_last() =~= seen);
        assert(all =~= next + rest@.map_values(|i: QuickSelectItem| i@));
        match stepped {
            Err(m) => {
                proof {
                    assert(name_scan_items(next) == Err::<NameScanView, Seq<char>>(m@));
                    lemma_name_scan_failed(next, rest@.map_values(|i: QuickSelectItem| i@));
                }
                return Err(QuickSelectNameProtocolError::MalformedXml(m));
            },
            Ok(()) => {},
        }
        proof {
            seen = next;
        }
    }
    assert(seen =~= all);
    finish_names(scan)
}

pub(crate) fn decode_content(bytes: &[u8]) -> (r: Result<String, String>)
    ensures
        match r {
            Ok(t) => decoded_view(bytes@) == Ok::<Seq<char>, Seq<char>>(t@),
            Err(m) => decoded_view(bytes@) == Err::<Seq<char>, Seq<char>>(m@),
        },
{
    match utf8_str(bytes) {
        Ok(t) => Ok(owned(t)),
        Err(m) => {
            let mut v = chars_of("cannot decode input using UTF-8: ");
            push_str(&mut v, m.as_str());
            Err(string_of(&v))
        },
    }
}

/// What the parser needs of an event the reader reported: element names,
/// decoded text, a reader error as a failure, and nothing of note for the
/// rest; `None` at the end of the document.
fn next_name_item<'a>(event: Result<XmlEvent<'a>, String>) -> (r: Option<QuickSelectItem>)
    ensures
        match r {
            Some(item) => name_item_of(event_view(event)) == Some(item@),
            None => name_item_of(event_view(event)) is None,
        },
{
    match event {
        Err(message) => Some(QuickSelectItem::Failed(message)),
        Ok(XmlEvent::Eof) => None,
        Ok(XmlEvent::Start(name, _)) => Some(QuickSelectItem::Start(name)),
        Ok(XmlEvent::Text(bytes)) => Some(QuickSelectItem::Text(decode_content(&bytes))),
        Ok(XmlEvent::End(name)) => Some(QuickSelectItem::End(name)),
        Ok(_) => Some(QuickSelectItem::Other),
    }
}

/// Parses a `GetQuickSelectName` reply: what the name scan makes of the
/// items the reader of `xml` hands it.
pub fn parse_quick_select_names(xml: &str) -> (r: Result<ParsedQuickSelectNames, QuickSelectNameProtocolError>)
    ensures
        names_view(r) == names_outcome(xml@, name_document_items(xml@)),
        trim(xml@).len() == 0 ==> (r matches Err(e) && e@ == NameFault::MissingResponse),
{
    if blank(xml) {
        let r = Err(QuickSelectNameProtocolError::MissingResponse);
        assert(names_view(r) == names_outcome(xml@, name_document_items(xml@)));
        return r;
    }
    let limit: usize = xml.len();
    let mut reader = xml_reader(xml);
    let mut scan = NameScan::new();
    let ghost all = name_document_items(xml@);
    let ghost mut seen: Seq<NameItemView> = seq![];
    let mut position: u64 = 0;
    assert(seen + name_reader_items(xml@, limit as int, reader_steps(reader), position as int) =~= all);
    loop
        invariant
            name_scan_items(seen) == Ok::<NameScanView, Seq<char>>(scan@),
            scan.inv(),
            position <= limit,
            trim(xml@).len() > 0,
            limit == xml.spec_bytes().len() as usize,
            reader_document(reader) == xml@,
            all == name_document_items(xml@),
            seen + name_reader_items(xml@, limit as int, reader_steps(reader), position as int) == all,
        decreases limit - position,
    {
        let ghost steps = reader_steps(reader);
        let ghost rest = name_reader_items(xml@, limit as int, steps, position as int);
        let event = read_xml_event(&mut reader);
        let ghost ev = event_view(event);
        let item = match next_name_item(event) {
            Some(item) => item,
            None => {
                assert(rest == Seq::<NameItemView>::empty());
                assert(seen =~= all);
                let r = finish_names(scan);
                assert(names_view(r) == names_outcome(xml@, seen));
                return r;
            },
        };
        let ghost next = seen.push(item@);
        assert(next.drop_last() =~= seen);
        let ghost after = steps.push(ReaderStep::Event(ev));
        let ghost now_spec = xml_position(xml@, after) as int;
        proof {
            if position < now_spec && now_spec <= limit {
                assert(rest == seq![item@] + name_reader_items(xml@, limit as int, after, now_spec));
                assert(all =~= next + name_reader_items(xml@, limit as int, after, now_spec));
            } else {
                assert(rest == seq![item@, NameItemView::Failed("XML reader did not advance"@)]);
                assert(all =~= next.push(NameItemView::Failed("XML reader did not advance"@)));
            }
        }
        match scan.step(item) {
            Err(m) => {
                let r = Err(QuickSelectNameProtocolError::MalformedXml(m));
                assert(name_scan_items(next) == Err::<NameScanView, Seq<char>>(m@));
                proof {
                    lemma_name_scan_failed(next, all.skip(next.len() as int));
                    assert(next + all.skip(next.len() as int) =~= all);
                }
                assert(names_view(r) == names_outcome(xml@, all));
                return r;
            },
            Ok(()) => {},
        }
        proof {
            seen = next;
        }
        let now = reader_position(&reader);
        assert(now == now_spec);
        if !(position < now && now <= limit as u64) {
            // quick_xml consumes input for every event but the end; should it
            // ever not, the reader is reported as failed rather than polled again
            let stuck = QuickSelectItem::Failed(owned("XML reader did not advance"));
            let ghost last = seen.push(stuck@);
            assert(last.drop_last() =~= seen);
            assert(last =~= all);
            match scan.step(stuck) {
                Err(m) => {
                    let r = Err(QuickSelectNameProtocolError::MalformedXml(m));
                    assert(name_scan_items(last) == Err::<NameScanView, Seq<char>>(m@));
                    assert(names_view(r) == names_outcome(xml@, last));
                    return r;
                },
                Ok(()) => {
                    assert(false);
                    return Err(QuickSelectNameProtocolError::MissingResponse);
                },
            }
        }
        position = now;
    }
}

} // verus!
