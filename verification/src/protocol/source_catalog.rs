//! Candidate AppCommand source-catalog protocol.
//!
//! This module deliberately models only the observed read shape.  It contains
//! no HTTP, sockets, or write commands.  Product use remains gated by the
//! model/firmware validation capability.
use crate::avr::{utf8_error_text, utf8_str};
use crate::domain::source::{CatalogResponseEvidence, SourceEntry, SourceId, SourceVisibility};
use crate::domain::{token_error, token_ok};
use crate::table::{
    append_value, entry_at, first_value, lemma_append_value_at, lemma_slot,
    lemma_sorted_insert_at, slot, sorted_insert,
};
use crate::text::{
    chars_of, eq_chars, lower_seq, lower_vec, owned, str_eq, string_of, text_lt, text_order,
    trim, trim_vec, TextOrder,
};
use crate::xml::{
    event_view, read_xml_event, reader_document, reader_position, reader_steps, unescape_text,
    xml_next_event, xml_position, xml_reader, xml_unescaped, EventView, ReaderStep, XmlEvent,
};
use quick_xml::Reader;
use vstd::prelude::*;
use vstd::string::StringSliceAdditionalSpecFns;
use vstd::utf8::*;

verus! {

/// X3800H AppCommand firmware requires line-delimited elements; this read-only
/// request keeps the accepted wire shape of the information batch.
pub const SOURCE_CATALOG_REQUEST_XML: &'static str = "<?xml version=\"1.0\" encoding=\"utf-8\"?>\n<tx>\n<cmd id=\"1\">GetRenameSource</cmd>\n<cmd id=\"1\">GetDeletedSource</cmd>\n</tx>";

pub fn source_catalog_request_xml() -> (r: &'static str)
    ensures
        r@ == SOURCE_CATALOG_REQUEST_XML@,
{
    SOURCE_CATALOG_REQUEST_XML
}

#[derive(Debug, Clone, PartialEq, Eq)]
pub enum SourceCatalogProtocolError {
    MalformedXml(String),
    ConflictingEntry(String),
}

/// A `SourceCatalogProtocolError` with its text as a sequence.
pub enum CatalogFault {
    MalformedXml(Seq<char>),
    ConflictingEntry(Seq<char>),
}

impl View for SourceCatalogProtocolError {
    type V = CatalogFault;

    open spec fn view(&self) -> CatalogFault {
        match self {
            SourceCatalogProtocolError::MalformedXml(m) => CatalogFault::MalformedXml(m@),
            SourceCatalogProtocolError::ConflictingEntry(id) => CatalogFault::ConflictingEntry(id@),
        }
    }
}

impl SourceCatalogProtocolError {
    /// The human-readable text of the error.
    pub fn message(&self) -> (r: String)
        ensures
            r@ == match self@ {
                CatalogFault::MalformedXml(m) => "malformed source catalog XML: "@ + m,
                CatalogFault::ConflictingEntry(id) => "conflicting source catalog entry for "@ + id,
            },
    {
        let (mut v, rest) = match self {
            SourceCatalogProtocolError::MalformedXml(m) => (chars_of("malformed source catalog XML: "), chars_of(m.as_str())),
            SourceCatalogProtocolError::ConflictingEntry(id) => (chars_of("conflicting source catalog entry for "), chars_of(id.as_str())),
        };
        v.append(&mut rest.clone());
        string_of(&v)
    }
}

/// One `<list>` row of a catalog section: its section and its child texts by
/// lower-case tag name.
pub struct RowView {
    pub section: Seq<char>,
    pub values: Seq<(Seq<char>, Seq<char>)>,
}

/// What the reader reported: names and text as UTF-8 text, or the error met.
pub enum CatalogItem {
    Start(Result<String, String>),
    /// Text or CDATA content.
    Text(Result<String, String>),
    /// A general reference, without `&` and `;`.
    Reference(Result<String, String>),
    End(Result<String, String>),
    Failed(String),
    Other,
}

pub enum CatalogItemView {
    Start(Result<Seq<char>, Seq<char>>),
    Text(Result<Seq<char>, Seq<char>>),
    Reference(Result<Seq<char>, Seq<char>>),
    End(Result<Seq<char>, Seq<char>>),
    Failed(Seq<char>),
    Other,
}

pub open spec fn text_view(t: Result<String, String>) -> Result<Seq<char>, Seq<char>> {
    match t {
        Ok(text) => Ok(text@),
        Err(message) => Err(message@),
    }
}

/// Bytes as UTF-8 text, or the error `std::str::from_utf8` reports.
pub open spec fn utf8_view(bytes: Seq<u8>) -> Result<Seq<char>, Seq<char>> {
    if valid_utf8(bytes) {
        Ok(decode_utf8(bytes))
    } else {
        Err(utf8_error_text(bytes))
    }
}

/// The item an event gives the row scan; `None` at the end of the document.
pub open spec fn catalog_item_of(event: EventView) -> Option<CatalogItemView> {
    match event {
        EventView::Start(name, _) => Some(CatalogItemView::Start(utf8_view(name))),
        EventView::Text(bytes) => Some(CatalogItemView::Text(utf8_view(bytes))),
        EventView::CData(bytes) => Some(CatalogItemView::Text(utf8_view(bytes))),
        EventView::GeneralRef(bytes) => Some(CatalogItemView::Reference(utf8_view(bytes))),
        EventView::End(name) => Some(CatalogItemView::End(utf8_view(name))),
        EventView::Failed(m) => Some(CatalogItemView::Failed(m)),
        EventView::Eof => None,
        EventView::Empty(_, _) => Some(CatalogItemView::Other),
        EventView::Other => Some(CatalogItemView::Other),
    }
}

/// The items the row scan is handed by a reader of `document` once `steps`
/// were asked of it and it was seen to have consumed `position` of its `limit`
/// bytes: one per event up to the end of the document, and a failure where the
/// reader stops consuming input.
pub open spec fn catalog_reader_items(document: Seq<char>, limit: int, steps: Seq<ReaderStep>, position: int) -> Seq<CatalogItemView>
    decreases limit - position,
{
    let event = xml_next_event(document, steps);
    match catalog_item_of(event) {
        None => seq![],
        Some(item) => {
            let after = steps.push(ReaderStep::Event(event));
            let now = xml_position(document, after) as int;
            if position < now && now <= limit {
                seq![item] + catalog_reader_items(document, limit, after, now)
            } else {
                seq![item, CatalogItemView::Failed("XML reader did not advance"@)]
            }
        },
    }
}

/// The items of a whole document.
pub open spec fn catalog_document_items(xml: Seq<char>) -> Seq<CatalogItemView> {
    catalog_reader_items(xml, (encode_utf8(xml).len() as usize) as int, Seq::empty(), 0)
}

impl View for CatalogItem {
    type V = CatalogItemView;

    open spec fn view(&self) -> CatalogItemView {
        match self {
            CatalogItem::Start(t) => CatalogItemView::Start(text_view(*t)),
            CatalogItem::Text(t) => CatalogItemView::Text(text_view(*t)),
            CatalogItem::Reference(t) => CatalogItemView::Reference(text_view(*t)),
            CatalogItem::End(t) => CatalogItemView::End(text_view(*t)),
            CatalogItem::Failed(m) => CatalogItemView::Failed(m@),
            CatalogItem::Other => CatalogItemView::Other,
        }
    }
}

pub struct RowScanView {
    pub rows: Seq<RowView>,
    pub path: Seq<Seq<char>>,
    pub row: Option<RowView>,
}

pub open spec fn row_scan_start() -> RowScanView {
    RowScanView { rows: seq![], path: seq![], row: None }
}

pub open spec fn is_section(name: Seq<char>) -> bool {
    name == "functionrename"@ || name == "functiondelete"@
}

/// Text inside the innermost element of the open row, unless that is the `<list>` itself.
pub open spec fn append_row_text(s: RowScanView, text: Result<Seq<char>, Seq<char>>) -> Result<RowScanView, Seq<char>> {
    match s.row {
        None => Ok(s),
        Some(row) => if s.path.len() == 0 || s.path.last() == "list"@ {
            Ok(s)
        } else {
            match text {
                Err(m) => Err(m),
                Ok(t) => match xml_unescaped(t) {
                    Err(m) => Err(m),
                    Ok(decoded) => Ok(
                        RowScanView {
                            row: Some(RowView { values: append_value(row.values, s.path.last(), decoded), ..row }),
                            ..s
                        },
                    ),
                },
            }
        },
    }
}

pub open spec fn row_scan_step(s: RowScanView, item: CatalogItemView) -> Result<RowScanView, Seq<char>> {
    match item {
        CatalogItemView::Start(Err(m)) => Err(m),
        CatalogItemView::Start(Ok(raw)) => {
            let name = lower_seq(raw);
            let path = s.path.push(name);
            if name == "list"@ && path.len() >= 2 && is_section(path[path.len() - 2]) {
                Ok(RowScanView { path, row: Some(RowView { section: path[path.len() - 2], values: seq![] }), ..s })
            } else {
                Ok(RowScanView { path, ..s })
            }
        },
        CatalogItemView::Text(t) => append_row_text(s, t),
        CatalogItemView::Reference(Err(m)) => Err(m),
        CatalogItemView::Reference(Ok(entity)) => append_row_text(s, Ok("&"@ + entity + ";"@)),
        CatalogItemView::End(Err(m)) => Err(m),
        CatalogItemView::End(Ok(raw)) => {
            let name = lower_seq(raw);
            let path = if s.path.len() > 0 { s.path.drop_last() } else { s.path };
            if name == "list"@ && s.row is Some {
                Ok(RowScanView { rows: s.rows.push(s.row->Some_0), row: None, path })
            } else {
                Ok(RowScanView { path, ..s })
            }
        },
        CatalogItemView::Failed(m) => Err(m),
        CatalogItemView::Other => Ok(s),
    }
}

pub open spec fn row_scan_items(items: Seq<CatalogItemView>) -> Result<RowScanView, Seq<char>>
    decreases items.len(),
{
    if items.len() == 0 {
        Ok(row_scan_start())
    } else {
        match row_scan_items(items.drop_last()) {
            Err(m) => Err(m),
            Ok(s) => row_scan_step(s, items.last()),
        }
    }
}

/// The rows of a document whose reader reported `items` before its end.
pub open spec fn rows_outcome(items: Seq<CatalogItemView>) -> Result<Seq<RowView>, Seq<char>> {
    match row_scan_items(items) {
        Err(m) => Err(m),
        Ok(s) => if s.path.len() > 0 {
            Err("unclosed element"@)
        } else {
            Ok(s.rows)
        },
    }
}

/// What the catalog knows of one source: its label and its visibility.
pub type EntryData = (Option<Seq<char>>, SourceVisibility);

pub struct CatalogView {
    /// By source id, in the order of ids.
    pub entries: Seq<(Seq<char>, EntryData)>,
    pub evidence: CatalogResponseEvidence,
}

pub open spec fn entry_or_default(table: Seq<(Seq<char>, EntryData)>, id: Seq<char>) -> EntryData {
    match entry_at(table, id) {
        Some(e) => e,
        None => (None, SourceVisibility::Unknown),
    }
}

/// The trimmed, non-empty value of a row's child element.
pub open spec fn trimmed_value(row: RowView, key: Seq<char>) -> Option<Seq<char>> {
    match first_value(row.values, key) {
        Some(v) => if trim(v).len() > 0 {
            Some(trim(v))
        } else {
            None
        },
        None => None,
    }
}

pub open spec fn visibility_of(row: RowView) -> SourceVisibility {
    match first_value(row.values, "use"@) {
        Some(v) => if trim(v) == "0"@ {
            SourceVisibility::Hidden
        } else if trim(v) == "1"@ {
            SourceVisibility::Shown
        } else {
            SourceVisibility::Unknown
        },
        None => SourceVisibility::Unknown,
    }
}

/// One row applied to the catalog: a `functionrename` row names a source, a
/// `functiondelete` row says whether it is shown; other rows change nothing.
pub open spec fn catalog_step(table: Seq<(Seq<char>, EntryData)>, row: RowView) -> Result<Seq<(Seq<char>, EntryData)>, CatalogFault> {
    let key = if row.section == "functionrename"@ { "name"@ } else { "funcname"@ };
    if !is_section(row.section) {
        Ok(table)
    } else {
        match trimmed_value(row, key) {
            None => Ok(table),
            Some(id) => if !token_ok(id) {
                Err(CatalogFault::MalformedXml(token_error(id, "source id must not be empty"@, "source id must not contain control characters"@)))
            } else {
                let entry = entry_or_default(table, id);
                if row.section == "functionrename"@ {
                    match trimmed_value(row, "rename"@) {
                        None => Ok(sorted_insert(table, id, entry)),
                        Some(label) => match entry.0 {
                            Some(previous) => if previous != label {
                                Err(CatalogFault::ConflictingEntry(id))
                            } else {
                                Ok(sorted_insert(table, id, entry))
                            },
                            None => Ok(sorted_insert(table, id, (Some(label), entry.1))),
                        },
                    }
                } else {
                    let visibility = visibility_of(row);
                    if entry.1 != SourceVisibility::Unknown && visibility != SourceVisibility::Unknown
                        && entry.1 != visibility {
                        Err(CatalogFault::ConflictingEntry(id))
                    } else if visibility != SourceVisibility::Unknown {
                        Ok(sorted_insert(table, id, (entry.0, visibility)))
                    } else {
                        Ok(sorted_insert(table, id, entry))
                    }
                }
            },
        }
    }
}

pub open spec fn catalog_rows(rows: Seq<RowView>) -> Result<Seq<(Seq<char>, EntryData)>, CatalogFault>
    decreases rows.len(),
{
    if rows.len() == 0 {
        Ok(seq![])
    } else {
        match catalog_rows(rows.drop_last()) {
            Err(f) => Err(f),
            Ok(t) => catalog_step(t, rows.last()),
        }
    }
}

pub open spec fn evidence_of(rows: Seq<RowView>) -> CatalogResponseEvidence {
    let rename = exists|i: int| 0 <= i < rows.len() && (#[trigger] rows[i]).section == "functionrename"@;
    let delete = exists|i: int| 0 <= i < rows.len() && (#[trigger] rows[i]).section == "functiondelete"@;
    if rename && delete {
        CatalogResponseEvidence::Complete
    } else if rename || delete {
        CatalogResponseEvidence::Partial
    } else {
        CatalogResponseEvidence::Unsupported
    }
}

/// The catalog of a response whose reader reported `items` before its end.
pub open spec fn catalog_outcome(items: Seq<CatalogItemView>) -> Result<CatalogView, CatalogFault> {
    match rows_outcome(items) {
        Err(m) => Err(CatalogFault::MalformedXml(m)),
        Ok(rows) => match catalog_rows(rows) {
            Err(f) => Err(f),
            Ok(entries) => Ok(CatalogView { entries, evidence: evidence_of(rows) }),
        },
    }
}

#[derive(Debug, Clone, PartialEq, Eq)]
pub struct ParsedSourceCatalog {
    pub entries: Vec<SourceEntry>,
    pub evidence: CatalogResponseEvidence,
}

pub open spec fn name_view(n: Option<String>) -> Option<Seq<char>> {
    match n {
        Some(s) => Some(s@),
        None => None,
    }
}

pub open spec fn entry_view(e: SourceEntry) -> (Seq<char>, EntryData) {
    (e.id.text(), (name_view(e.display_name), e.visibility))
}

pub open spec fn entries_view(v: Seq<SourceEntry>) -> Seq<(Seq<char>, EntryData)> {
    v.map_values(|e: SourceEntry| entry_view(e))
}

pub open spec fn catalog_view(r: Result<ParsedSourceCatalog, SourceCatalogProtocolError>) -> Result<CatalogView, CatalogFault> {
    match r {
        Ok(c) => Ok(CatalogView { entries: entries_view(c.entries@), evidence: c.evidence }),
        Err(e) => Err(e@),
    }
}


pub open spec fn pairs_view(v: Seq<(String, String)>) -> Seq<(Seq<char>, Seq<char>)> {
    v.map_values(|p: (String, String)| (p.0@, p.1@))
}

/// One `<list>` row of a catalog section.
#[derive(Debug, Clone, PartialEq, Eq)]
pub struct Row {
    pub section: String,
    /// Child texts by lower-case tag name, in order of first appearance.
    pub values: Vec<(String, String)>,
}

impl View for Row {
    type V = RowView;

    open spec fn view(&self) -> RowView {
        RowView { section: self.section@, values: pairs_view(self.values@) }
    }
}

impl Row {
    /// The text of the child element `name`.
    pub fn value(&self, name: &str) -> (r: Option<&str>)
        ensures
            match first_value(self@.values, name@) {
                Some(v) => r matches Some(t) && t@ == v,
                None => r is None,
            },
    {
        let key = chars_of(name);
        let mut i: usize = 0;
        assert(self@.values.skip(0) =~= self@.values);
        while i < self.values.len()
            invariant
                i <= self.values@.len(),
                key@ == name@,
                first_value(self@.values, name@) == first_value(self@.values.skip(i as int), name@),
            decreases self.values@.len() - i,
        {
            let ghost rest = self@.values.skip(i as int);
            assert(rest[0] == (self.values@[i as int].0@, self.values@[i as int].1@));
            let current = chars_of(self.values[i].0.as_str());
            if eq_chars(&current, &key) {
                return Some(self.values[i].1.as_str());
            }
            assert(rest.drop_first() =~= self@.values.skip(i + 1));
            i += 1;
        }
        None
    }
}

pub fn concat(a: &str, b: &str) -> (r: String)
    ensures
        r@ == a@ + b@,
{
    let mut v = chars_of(a);
    let w = chars_of(b);
    v.append(&mut w.clone());
    string_of(&v)
}

/// Appends `text` to the value of `key`, adding the key when it is missing.
fn append_value_exec(values: &mut Vec<(String, String)>, key: &str, text: &str)
    ensures
        pairs_view(final(values)@) == append_value(pairs_view(old(values)@), key@, text@),
{
    let ghost before = pairs_view(values@);
    let kv = chars_of(key);
    let mut i: usize = 0;
    while i < values.len()
        invariant
            i <= values@.len(),
            before == pairs_view(values@),
            before == pairs_view(old(values)@),
            kv@ == key@,
            forall|j: int| 0 <= j < i ==> #[trigger] before[j].0 != key@,
        decreases values@.len() - i,
    {
        let current = chars_of(values[i].0.as_str());
        assert(before[i as int].0 == values@[i as int].0@);
        if eq_chars(&current, &kv) {
            proof {
                lemma_append_value_at(before, key@, text@, i as int);
            }
            let (k, v) = values.remove(i);
            let joined = concat(v.as_str(), text);
            values.insert(i, (k, joined));
            assert(pairs_view(values@) =~= append_value(before, key@, text@));
            return;
        }
        i += 1;
    }
    proof {
        lemma_append_value_at(before, key@, text@, i as int);
    }
    values.push((owned(key), owned(text)));
    assert(pairs_view(values@) =~= append_value(before, key@, text@));
}

struct RowScan {
    rows: Vec<Row>,
    path: Vec<String>,
    row: Option<Row>,
}

impl View for RowScan {
    type V = RowScanView;

    closed spec fn view(&self) -> RowScanView {
        RowScanView {
            rows: self.rows@.map_values(|r: Row| r@),
            path: self.path@.map_values(|p: String| p@),
            row: match self.row {
                Some(r) => Some(r@),
                None => None,
            },
        }
    }
}

impl RowScan {
    fn new() -> (r: Self)
        ensures
            r@ == row_scan_start(),
    {
        let r = RowScan { rows: Vec::new(), path: Vec::new(), row: None };
        assert(r@.rows =~= Seq::<RowView>::empty());
        assert(r@.path =~= Seq::<Seq<char>>::empty());
        r
    }

    fn append_text(&mut self, text: Result<String, String>) -> (r: Result<(), String>)
        ensures
            match append_row_text(old(self)@, text_view(text)) {
                Ok(s) => r is Ok && final(self)@ == s,
                Err(m) => r matches Err(e) && e@ == m,
            },
    {
        let n = self.path.len();
        match &mut self.row {
            None => Ok(()),
            Some(row) => {
                if n == 0 || str_eq(self.path[n - 1].as_str(), "list") {
                    return Ok(());
                }
                let t = match text {
                    Err(m) => return Err(m),
                    Ok(t) => t,
                };
                let decoded = match unescape_text(t.as_str()) {
                    Err(m) => return Err(m),
                    Ok(d) => d,
                };
                append_value_exec(&mut row.values, self.path[n - 1].as_str(), decoded.as_str());
                Ok(())
            },
        }
    }

    fn step(&mut self, item: CatalogItem) -> (r: Result<(), String>)
        ensures
            match row_scan_step(old(self)@, item@) {
                Ok(s) => r is Ok && final(self)@ == s,
                Err(m) => r matches Err(e) && e@ == m,
            },
    {
        match item {
            CatalogItem::Start(Err(m)) => Err(m),
            CatalogItem::Start(Ok(raw)) => {
                let name = lower_vec(&chars_of(raw.as_str()));
                let ghost before = self@;
                self.path.push(string_of(&name));
                assert(self@.path =~= before.path.push(name@));
                let n = self.path.len();
                if eq_chars(&name, &chars_of("list")) && n >= 2 && (str_eq(self.path[n - 2].as_str(), "functionrename")
                    || str_eq(self.path[n - 2].as_str(), "functiondelete")) {
                    let row = Row { section: owned(self.path[n - 2].as_str()), values: Vec::new() };
                    assert(row@.values =~= Seq::<(Seq<char>, Seq<char>)>::empty());
                    self.row = Some(row);
                }
                Ok(())
            },
            CatalogItem::Text(t) => self.append_text(t),
            CatalogItem::Reference(Err(m)) => Err(m),
            CatalogItem::Reference(Ok(entity)) => {
                let with_amp = concat("&", entity.as_str());
                let reference = concat(with_amp.as_str(), ";");
                self.append_text(Ok(reference))
            },
            CatalogItem::End(Err(m)) => Err(m),
            CatalogItem::End(Ok(raw)) => {
                let name = lower_vec(&chars_of(raw.as_str()));
                let ghost before = self@;
                let _ = self.path.pop();
                assert(self@.path =~= (if before.path.len() > 0 { before.path.drop_last() } else { before.path }));
                if eq_chars(&name, &chars_of("list")) {
                    match self.row.take() {
                        Some(completed) => {
                            self.rows.push(completed);
                            assert(self@.rows =~= before.rows.push(before.row->Some_0));
                        },
                        None => {},
                    }
                }
                Ok(())
            },
            CatalogItem::Failed(m) => Err(m),
            CatalogItem::Other => Ok(()),
        }
    }
}


/// The position of `id` among the entries, and whether an entry has it.
fn find_entry(entries: &Vec<SourceEntry>, id: &[char]) -> (r: (usize, bool))
    ensures
        r.0 == slot(entries_view(entries@), id@),
        r.0 <= entries@.len(),
        r.1 == (r.0 < entries@.len() && entries_view(entries@)[r.0 as int].0 == id@),
        forall|j: int| 0 <= j < r.0 ==> text_lt(#[trigger] entries_view(entries@)[j].0, id@),
        r.0 == entries@.len() || !text_lt(entries_view(entries@)[r.0 as int].0, id@),
{
    let ghost t = entries_view(entries@);
    let mut i: usize = 0;
    while i < entries.len()
        invariant
            i <= entries@.len(),
            t == entries_view(entries@),
            forall|j: int| 0 <= j < i ==> text_lt(#[trigger] t[j].0, id@),
        decreases entries@.len() - i,
    {
        let current = chars_of(entries[i].id.as_str());
        assert(t[i as int].0 == current@);
        match text_order(&current, id) {
            TextOrder::Before => {
                i += 1;
            },
            TextOrder::Same => {
                proof {
                    lemma_slot(t, id@, i as int);
                }
                return (i, true);
            },
            TextOrder::After => {
                proof {
                    crate::text::lemma_text_lt_irreflexive(id@);
                    lemma_slot(t, id@, i as int);
                }
                return (i, false);
            },
        }
    }
    proof {
        lemma_slot(t, id@, i as int);
    }
    (i, false)
}

/// The trimmed, non-empty value of a row's child element.
fn trimmed(row: &Row, key: &str) -> (r: Option<Vec<char>>)
    ensures
        match trimmed_value(row@, key@) {
            Some(v) => r matches Some(t) && t@ == v,
            None => r is None,
        },
{
    match row.value(key) {
        None => None,
        Some(v) => {
            let t = trim_vec(&chars_of(v));
            if t.len() == 0 {
                None
            } else {
                Some(t)
            }
        },
    }
}

fn visibility(row: &Row) -> (r: SourceVisibility)
    ensures
        r == visibility_of(row@),
{
    match trimmed(row, "use") {
        None => {
            proof {
                if first_value(row@.values, "use"@) is Some {
                    let v = first_value(row@.values, "use"@)->Some_0;
                    reveal_strlit("0");
                    reveal_strlit("1");
                    assert(trim(v).len() == 0);
                    assert(trim(v) != "0"@);
                    assert(trim(v) != "1"@);
                }
            }
            SourceVisibility::Unknown
        },
        Some(v) => {
            if eq_chars(&v, &chars_of("0")) {
                SourceVisibility::Hidden
            } else if eq_chars(&v, &chars_of("1")) {
                SourceVisibility::Shown
            } else {
                SourceVisibility::Unknown
            }
        },
    }
}

/// Applies one row to the id-ordered entries.
fn catalog_row(entries: &mut Vec<SourceEntry>, row: &Row) -> (r: Result<(), SourceCatalogProtocolError>)
    ensures
        match catalog_step(entries_view(old(entries)@), row@) {
            Ok(t) => r is Ok && entries_view(final(entries)@) == t,
            Err(f) => r matches Err(e) && e@ == f,
        },
{
    let ghost before = entries_view(entries@);
    let rename = str_eq(row.section.as_str(), "functionrename");
    let delete = str_eq(row.section.as_str(), "functiondelete");
    if !rename && !delete {
        return Ok(());
    }
    let key = if rename { "name" } else { "funcname" };
    let id = match trimmed(row, key) {
        None => return Ok(()),
        Some(id) => id,
    };
    let id_text = string_of(&id);
    let source_id = match SourceId::new(id_text.as_str()) {
        Ok(s) => s,
        Err(m) => return Err(SourceCatalogProtocolError::MalformedXml(owned(m))),
    };
    let (i, found) = find_entry(entries, &id);
    let mut entry = if found {
        entries.remove(i)
    } else {
        SourceEntry { id: source_id, display_name: None, visibility: SourceVisibility::Unknown }
    };
    assert(entry_view(entry).1 == entry_or_default(before, id@));
    assert(entry_view(entry).0 == id@);
    if rename {
        match trimmed(row, "rename") {
            None => {},
            Some(label) => {
                match &entry.display_name {
                    Some(previous) => {
                        if !eq_chars(&chars_of(previous.as_str()), &label) {
                            return Err(SourceCatalogProtocolError::ConflictingEntry(id_text));
                        }
                    },
                    None => {
                        entry.display_name = Some(string_of(&label));
                    },
                }
            },
        }
    } else {
        let seen = visibility(row);
        if entry.visibility != SourceVisibility::Unknown && seen != SourceVisibility::Unknown
            && entry.visibility != seen {
            return Err(SourceCatalogProtocolError::ConflictingEntry(id_text));
        }
        if seen != SourceVisibility::Unknown {
            entry.visibility = seen;
        }
    }
    let ghost data = entry_view(entry).1;
    proof {
        lemma_sorted_insert_at(before, id@, data, i as int);
    }
    entries.insert(i, entry);
    assert(entries_view(entries@) =~= sorted_insert(before, id@, data));
    Ok(())
}

pub open spec fn rows_view(v: Seq<Row>) -> Seq<RowView> {
    v.map_values(|r: Row| r@)
}

/// The catalog a list of rows describes.
pub fn catalog_from_rows(rows: &Vec<Row>) -> (r: Result<ParsedSourceCatalog, SourceCatalogProtocolError>)
    ensures
        catalog_view(r) == match catalog_rows(rows_view(rows@)) {
            Err(f) => Err(f),
            Ok(entries) => Ok(CatalogView { entries, evidence: evidence_of(rows_view(rows@)) }),
        },
{
    let ghost all = rows_view(rows@);
    let mut entries: Vec<SourceEntry> = Vec::new();
    let mut saw_rename = false;
    let mut saw_delete = false;
    let mut i: usize = 0;
    assert(entries_view(entries@) =~= Seq::<(Seq<char>, EntryData)>::empty());
    while i < rows.len()
        invariant
            i <= rows@.len(),
            all == rows_view(rows@),
            catalog_rows(all.take(i as int)) == Ok::<Seq<(Seq<char>, EntryData)>, CatalogFault>(entries_view(entries@)),
            saw_rename == exists|j: int| 0 <= j < i && (#[trigger] all[j]).section == "functionrename"@,
            saw_delete == exists|j: int| 0 <= j < i && (#[trigger] all[j]).section == "functiondelete"@,
        decreases rows@.len() - i,
    {
        let row = &rows[i];
        assert(all[i as int] == row@);
        assert(all.take(i + 1).drop_last() =~= all.take(i as int));
        if str_eq(row.section.as_str(), "functionrename") {
            saw_rename = true;
        }
        if str_eq(row.section.as_str(), "functiondelete") {
            saw_delete = true;
        }
        match catalog_row(&mut entries, row) {
            Err(e) => {
                proof {
                    lemma_catalog_failed(all.take(i + 1), all.skip(i + 1));
                    assert(all =~= all.take(i + 1) + all.skip(i + 1));
                }
                return Err(e);
            },
            Ok(()) => {},
        }
        i += 1;
    }
    assert(all.take(i as int) =~= all);
    let evidence = if saw_rename && saw_delete {
        CatalogResponseEvidence::Complete
    } else if saw_rename || saw_delete {
        CatalogResponseEvidence::Partial
    } else {
        CatalogResponseEvidence::Unsupported
    };
    Ok(ParsedSourceCatalog { entries, evidence })
}

pub proof fn lemma_catalog_failed(done: Seq<RowView>, more: Seq<RowView>)
    requires
        catalog_rows(done) is Err,
    ensures
        catalog_rows(done + more) == catalog_rows(done),
    decreases more.len(),
{
    if more.len() > 0 {
        lemma_catalog_failed(done, more.drop_last());
        assert((done + more).drop_last() =~= done + more.drop_last());
    } else {
        assert(done + more =~= done);
    }
}


pub proof fn lemma_rows_failed(done: Seq<CatalogItemView>, more: Seq<CatalogItemView>)
    requires
        row_scan_items(done) is Err,
    ensures
        row_scan_items(done + more) == row_scan_items(done),
    decreases more.len(),
{
    if more.len() > 0 {
        lemma_rows_failed(done, more.drop_last());
        assert((done + more).drop_last() =~= done + more.drop_last());
    } else {
        assert(done + more =~= done);
    }
}

pub open spec fn rows_result_view(r: Result<Vec<Row>, SourceCatalogProtocolError>) -> Result<Seq<RowView>, Seq<char>> {
    match r {
        Ok(rows) => Ok(rows_view(rows@)),
        Err(SourceCatalogProtocolError::MalformedXml(m)) => Err(m@),
        Err(SourceCatalogProtocolError::ConflictingEntry(m)) => Err(m@),
    }
}

fn finish_rows(scan: RowScan) -> (r: Result<Vec<Row>, SourceCatalogProtocolError>)
    ensures
        r matches Err(e) ==> e is MalformedXml,
        rows_result_view(r) == (if scan@.path.len() > 0 {
            Err("unclosed element"@)
        } else {
            Ok::<Seq<RowView>, Seq<char>>(scan@.rows)
        }),
{
    if scan.path.len() > 0 {
        return Err(SourceCatalogProtocolError::MalformedXml(owned("unclosed element")));
    }
    Ok(scan.rows)
}

/// The rows of a response whose reader reported `items` before its end.
pub fn scan_rows(items: Vec<CatalogItem>) -> (r: Result<Vec<Row>, SourceCatalogProtocolError>)
    ensures
        r matches Err(e) ==> e is MalformedXml,
        rows_result_view(r) == rows_outcome(items@.map_values(|i: CatalogItem| i@)),
{
    let ghost all = items@.map_values(|i: CatalogItem| i@);
    let mut scan = RowScan::new();
    let mut rest = items;
    let ghost mut seen: Seq<CatalogItemView> = seq![];
    assert(rest@.map_values(|i: CatalogItem| i@) =~= all);
    assert(seen + all =~= all);
    while rest.len() > 0
        invariant
            all == items@.map_values(|i: CatalogItem| i@),
            all == seen + rest@.map_values(|i: CatalogItem| i@),
            row_scan_items(seen) == Ok::<RowScanView, Seq<char>>(scan@),
        decreases rest@.len(),
    {
        let ghost tail = rest@.map_values(|i: CatalogItem| i@);
        let item = rest.remove(0);
        let ghost iv = item@;
        assert(tail[0] == iv);
        assert(tail.drop_first() =~= rest@.map_values(|i: CatalogItem| i@));
        let stepped = scan.step(item);
        let ghost next = seen.push(iv);
        assert(next.drop_last() =~= seen);
        assert(all =~= next + rest@.map_values(|i: CatalogItem| i@));
        match stepped {
            Err(m) => {
                proof {
                    assert(row_scan_items(next) == Err::<RowScanView, Seq<char>>(m@));
                    lemma_rows_failed(next, rest@.map_values(|i: CatalogItem| i@));
                }
                return Err(SourceCatalogProtocolError::MalformedXml(m));
            },
            Ok(()) => {},
        }
        proof {
            seen = next;
        }
    }
    assert(seen =~= all);
    finish_rows(scan)
}

/// The catalog of a response whose reader reported `items` before its end.
pub fn scan_source_catalog(items: Vec<CatalogItem>) -> (r: Result<ParsedSourceCatalog, SourceCatalogProtocolError>)
    ensures
        catalog_view(r) == catalog_outcome(items@.map_values(|i: CatalogItem| i@)),
{
    match scan_rows(items) {
        Err(e) => Err(e),
        Ok(rows) => catalog_from_rows(&rows),
    }
}

/// The bytes as text: `Ok` exactly for valid UTF-8, holding the decoded text.
fn utf8_text(bytes: &[u8]) -> (r: Result<String, String>)
    ensures
        text_view(r) == utf8_view(bytes@),
{
    match utf8_str(bytes) {
        Ok(t) => Ok(owned(t)),
        Err(m) => Err(m),
    }
}

/// What the row scan needs of an event the reader reported: names, text and
/// references as UTF-8 text, a reader error as a failure, declarations,
/// comments and empty elements as nothing of note; `None` at the end of the document.
fn next_catalog_item<'a>(event: Result<XmlEvent<'a>, String>) -> (r: Option<CatalogItem>)
    ensures
        match r {
            Some(item) => catalog_item_of(event_view(event)) == Some(item@),
            None => catalog_item_of(event_view(event)) is None,
        },
{
    match event {
        Err(message) => Some(CatalogItem::Failed(message)),
        Ok(XmlEvent::Eof) => None,
        Ok(XmlEvent::Start(name, _)) => Some(CatalogItem::Start(utf8_text(&name))),
        Ok(XmlEvent::Text(bytes)) => Some(CatalogItem::Text(utf8_text(&bytes))),
        Ok(XmlEvent::CData(bytes)) => Some(CatalogItem::Text(utf8_text(&bytes))),
        Ok(XmlEvent::GeneralRef(bytes)) => Some(CatalogItem::Reference(utf8_text(&bytes))),
        Ok(XmlEvent::End(name)) => Some(CatalogItem::End(utf8_text(&name))),
        Ok(_) => Some(CatalogItem::Other),
    }
}

/// Once the row scan fails, later items leave the failure as it is.
proof fn lemma_row_scan_failed(a: Seq<CatalogItemView>, b: Seq<CatalogItemView>)
    requires
        row_scan_items(a) is Err,
    ensures
        row_scan_items(a + b) == row_scan_items(a),
    decreases b.len(),
{
    if b.len() > 0 {
        lemma_row_scan_failed(a, b.drop_last());
        assert((a + b).drop_last() =~= a + b.drop_last());
    } else {
        assert(a + b =~= a);
    }
}

/// The `<list>` rows of the catalog sections of a response: what the row scan
/// makes of the items the reader of `xml` hands it.
pub fn xml_rows(xml: &str) -> (r: Result<Vec<Row>, SourceCatalogProtocolError>)
    ensures
        r matches Err(e) ==> e is MalformedXml,
        rows_result_view(r) == rows_outcome(catalog_document_items(xml@)),
{
    let limit: usize = xml.len();
    let mut reader = xml_reader(xml);
    let mut scan = RowScan::new();
    let ghost all = catalog_document_items(xml@);
    let ghost mut seen: Seq<CatalogItemView> = seq![];
    let mut position: u64 = 0;
    assert(seen + catalog_reader_items(xml@, limit as int, reader_steps(reader), position as int) =~= all);
    loop
        invariant
            row_scan_items(seen) == Ok::<RowScanView, Seq<char>>(scan@),
            position <= limit,
            limit == xml.spec_bytes().len() as usize,
            reader_document(reader) == xml@,
            all == catalog_document_items(xml@),
            seen + catalog_reader_items(xml@, limit as int, reader_steps(reader), position as int) == all,
        decreases limit - position,
    {
        let ghost steps = reader_steps(reader);
        let ghost rest = catalog_reader_items(xml@, limit as int, steps, position as int);
        let event = read_xml_event(&mut reader);
        let ghost ev = event_view(event);
        let item = match next_catalog_item(event) {
            Some(item) => item,
            None => {
                assert(rest == Seq::<CatalogItemView>::empty());
                assert(seen =~= all);
                let r = finish_rows(scan);
                assert(rows_result_view(r) == rows_outcome(seen));
                return r;
            },
        };
        let ghost next = seen.push(item@);
        assert(next.drop_last() =~= seen);
        let ghost after = steps.push(ReaderStep::Event(ev));
        let ghost now_spec = xml_position(xml@, after) as int;
        proof {
            if position < now_spec && now_spec <= limit {
                assert(rest == seq![item@] + catalog_reader_items(xml@, limit as int, after, now_spec));
                assert(all =~= next + catalog_reader_items(xml@, limit as int, after, now_spec));
            } else {
                assert(rest == seq![item@, CatalogItemView::Failed("XML reader did not advance"@)]);
                assert(all =~= next.push(CatalogItemView::Failed("XML reader did not advance"@)));
            }
        }
        match scan.step(item) {
            Err(m) => {
                let r = Err(SourceCatalogProtocolError::MalformedXml(m));
                assert(row_scan_items(next) == Err::<RowScanView, Seq<char>>(m@));
                proof {
                    lemma_row_scan_failed(next, all.skip(next.len() as int));
                    assert(next + all.skip(next.len() as int) =~= all);
                }
                assert(rows_result_view(r) == rows_outcome(all));
                return r;
            },
            Ok(()) => {},
        }
        proof {
            seen = next;
        }
        let now = reader_position(&reader);
        assert(now == now_spec);
        if !(position < now && now <= limit as u64) {
            // quick_xml consumes input for every event but the end; should it
            // ever not, the reader is reported as failed rather than polled again
            let stuck = CatalogItem::Failed(owned("XML reader did not advance"));
            let ghost last = seen.push(stuck@);
            assert(last.drop_last() =~= seen);
            assert(last =~= all);
            match scan.step(stuck) {
                Err(m) => {
                    let r = Err(SourceCatalogProtocolError::MalformedXml(m));
                    assert(row_scan_items(last) == Err::<RowScanView, Seq<char>>(m@));
                    assert(rows_result_view(r) == rows_outcome(last));
                    return r;
                },
                Ok(()) => {
                    assert(false);
                    return Err(SourceCatalogProtocolError::MalformedXml(owned("XML reader did not advance")));
                },
            }
        }
        position = now;
    }
}

/// Parses the candidate `functionrename` and `functiondelete` response rows.
/// Unknown functions are ignored; absent or malformed visibility is
/// represented as `Unknown`, never as hidden.
pub fn parse_source_catalog_response(xml: &str) -> (r: Result<ParsedSourceCatalog, SourceCatalogProtocolError>)
    ensures
        catalog_view(r) == catalog_outcome(catalog_document_items(xml@)),
{
    let rows = xml_rows(xml);
    let ghost items = catalog_document_items(xml@);
    match rows {
        Err(e) => {
            let r = Err(e);
            assert(catalog_view(r) == catalog_outcome(items));
            r
        },
        Ok(rows) => {
            let r = catalog_from_rows(&rows);
            assert(catalog_view(r) == catalog_outcome(items));
            r
        },
    }
}

} // verus!
