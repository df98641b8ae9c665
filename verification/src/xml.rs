//! The `quick_xml` reader and writer as the protocol parsers use them.
//!
//! Every function here makes one `quick_xml` call and hands back plain values;
//! the parsers that decide what the events mean are verified elsewhere.
use crate::text::has_char;
use quick_xml::encoding::Decoder;
use quick_xml::escape::unescape;
use quick_xml::events::attributes::{AttrError, Attribute, Attributes};
use quick_xml::events::{BytesDecl, BytesEnd, BytesStart, BytesText, Event};
use quick_xml::name::QName;
use quick_xml::{Reader, Writer, XmlVersion};
use vstd::prelude::*;

verus! {

#[verifier::external_type_specification]
#[verifier::external_body]
#[verifier::reject_recursive_types(R)]
pub struct ExReader<R>(Reader<R>);

#[verifier::external_type_specification]
#[verifier::external_body]
#[verifier::reject_recursive_types(W)]
pub struct ExWriter<W>(Writer<W>);

#[verifier::external_type_specification]
#[verifier::external_body]
pub struct ExBytesStart<'a>(BytesStart<'a>);

#[verifier::external_type_specification]
#[verifier::external_body]
pub struct ExAttributes<'a>(Attributes<'a>);

#[verifier::external_type_specification]
#[verifier::external_body]
pub struct ExAttribute<'a>(Attribute<'a>);

#[verifier::external_type_specification]
#[verifier::external_body]
pub struct ExAttrError(AttrError);

#[verifier::external_type_specification]
#[verifier::external_body]
pub struct ExDecoder(Decoder);

/// One event of the reader, with the event kinds the parsers tell apart:
/// element names and the raw bytes of text, CDATA and references (a reference
/// without `&` and `;`); a start element also keeps the element for its attributes.
pub enum XmlEvent<'a> {
    Start(Vec<u8>, BytesStart<'a>),
    Empty(Vec<u8>, BytesStart<'a>),
    End(Vec<u8>),
    Text(Vec<u8>),
    CData(Vec<u8>),
    GeneralRef(Vec<u8>),
    Eof,
    /// A declaration, comment, processing instruction or doctype.
    Other,
}

/// What a reader call reported, as plain values.
pub enum EventView {
    /// A start tag: its name, and what its attribute iterator reports.
    Start(Seq<u8>, Seq<Result<(Seq<u8>, Seq<u8>), Seq<char>>>),
    Empty(Seq<u8>, Seq<Result<(Seq<u8>, Seq<u8>), Seq<char>>>),
    End(Seq<u8>),
    Text(Seq<u8>),
    CData(Seq<u8>),
    GeneralRef(Seq<u8>),
    Eof,
    Other,
    /// The reader's error, as its `Display` text.
    Failed(Seq<char>),
}

pub open spec fn event_view(r: Result<XmlEvent, String>) -> EventView {
    match r {
        Ok(XmlEvent::Start(name, element)) => EventView::Start(name@, start_attributes(element)),
        Ok(XmlEvent::Empty(name, element)) => EventView::Empty(name@, start_attributes(element)),
        Ok(XmlEvent::End(name)) => EventView::End(name@),
        Ok(XmlEvent::Text(bytes)) => EventView::Text(bytes@),
        Ok(XmlEvent::CData(bytes)) => EventView::CData(bytes@),
        Ok(XmlEvent::GeneralRef(bytes)) => EventView::GeneralRef(bytes@),
        Ok(XmlEvent::Eof) => EventView::Eof,
        Ok(XmlEvent::Other) => EventView::Other,
        Err(m) => EventView::Failed(m@),
    }
}

/// One thing asked of a reader: the next event, with what it reported, or
/// the text up to the end tag of the named element.
pub enum ReaderStep {
    Event(EventView),
    TextRead(Seq<u8>),
}

/// The attributes of a start tag, as its attribute iterator reports them
/// until it ends: each a raw key and raw value, or the `Display` text of the error met.
pub uninterp spec fn start_attributes(element: BytesStart) -> Seq<Result<(Seq<u8>, Seq<u8>), Seq<char>>>;

/// What an attribute iterator has still to report.
pub uninterp spec fn attributes_left(attributes: Attributes) -> Seq<Result<(Seq<u8>, Seq<u8>), Seq<char>>>;

/// The document a reader was made over.
pub uninterp spec fn reader_document(reader: Reader<&[u8]>) -> Seq<char>;

/// What has been asked of a reader, oldest first.
pub uninterp spec fn reader_steps(reader: Reader<&[u8]>) -> Seq<ReaderStep>;

/// The event `Reader::read_event` reports, on a reader made by
/// `Reader::from_str(document)`, once `steps` have been asked of it.
pub uninterp spec fn xml_next_event(document: Seq<char>, steps: Seq<ReaderStep>) -> EventView;

/// The raw content `Reader::read_text` reports for the element `name`, on
/// such a reader once `steps` have been asked of it, or the `Display` text of its error.
pub uninterp spec fn xml_text_read(document: Seq<char>, steps: Seq<ReaderStep>, name: Seq<u8>) -> Result<Seq<u8>, Seq<char>>;

/// `Reader::buffer_position` of such a reader once `steps` have been asked of it.
pub uninterp spec fn xml_position(document: Seq<char>, steps: Seq<ReaderStep>) -> u64;

/// `Reader::from_str`. Its default configuration neither trims text nor
/// expands empty elements; the reader is over `xml`, nothing yet asked of it.
#[verifier::external_body]
pub(crate) fn xml_reader<'a>(xml: &'a str) -> (r: Reader<&'a [u8]>)
    ensures
        reader_document(r) == xml@,
        reader_steps(r) == Seq::<ReaderStep>::empty(),
{
    Reader::from_str(xml)
}

/// `Reader::read_event`: the next event, carried over variant by variant with
/// its name or raw bytes; an error as its `Display` text. The reader is
/// deterministic: what it reports follows from its document and what was asked
/// of it before, and the call is recorded.
#[verifier::external_body]
pub(crate) fn read_xml_event<'a>(reader: &mut Reader<&'a [u8]>) -> (r: Result<XmlEvent<'a>, String>)
    ensures
        event_view(r) == xml_next_event(reader_document(*old(reader)), reader_steps(*old(reader))),
        reader_document(*final(reader)) == reader_document(*old(reader)),
        reader_steps(*final(reader)) == reader_steps(*old(reader)).push(ReaderStep::Event(event_view(r))),
{
    Ok(match reader.read_event().map_err(|error| error.to_string())? {
        Event::Start(e) => XmlEvent::Start(e.name().0.to_vec(), e),
        Event::Empty(e) => XmlEvent::Empty(e.name().0.to_vec(), e),
        Event::End(e) => XmlEvent::End(e.name().0.to_vec()),
        Event::Text(t) => XmlEvent::Text(t.to_vec()),
        Event::CData(t) => XmlEvent::CData(t.to_vec()),
        Event::GeneralRef(t) => XmlEvent::GeneralRef(t.to_vec()),
        Event::Eof => XmlEvent::Eof,
        _ => XmlEvent::Other,
    })
}

/// `Reader::buffer_position`: how many input bytes the reader has consumed.
#[verifier::external_body]
pub(crate) fn reader_position(reader: &Reader<&[u8]>) -> (r: u64)
    ensures
        r == xml_position(reader_document(*reader), reader_steps(*reader)),
{
    reader.buffer_position()
}

/// `Reader::read_text`: the raw content up to the end tag `name`, which it
/// consumes; an error as its `Display` text. The call is recorded.
#[verifier::external_body]
pub(crate) fn read_element_text<'a>(reader: &mut Reader<&'a [u8]>, name: &[u8]) -> (r: Result<Vec<u8>, String>)
    ensures
        bytes_result(r) == xml_text_read(reader_document(*old(reader)), reader_steps(*old(reader)), name@),
        reader_document(*final(reader)) == reader_document(*old(reader)),
        reader_steps(*final(reader)) == reader_steps(*old(reader)).push(ReaderStep::TextRead(name@)),
{
    reader.read_text(QName(name)).map(|text| text.to_vec()).map_err(|error| error.to_string())
}

/// A byte result by its view.
pub open spec fn bytes_result(r: Result<Vec<u8>, String>) -> Result<Seq<u8>, Seq<char>> {
    match r {
        Ok(bytes) => Ok(bytes@),
        Err(message) => Err(message@),
    }
}

/// Text without `&` holds no entity or character reference.
pub open spec fn no_reference(s: Seq<char>) -> bool {
    !has_char(s, '&')
}

/// A text result by its view.
pub open spec fn text_result(r: Result<String, String>) -> Result<Seq<char>, Seq<char>> {
    match r {
        Ok(value) => Ok(value@),
        Err(message) => Err(message@),
    }
}

/// What `quick_xml::escape::unescape` makes of `raw`: the text with its
/// entity and character references replaced, or the `Display` text of the error.
pub uninterp spec fn xml_unescaped(raw: Seq<char>) -> Result<Seq<char>, Seq<char>>;

/// `quick_xml::escape::unescape`. Its source hands text without `&` back unchanged.
#[verifier::external_body]
pub(crate) fn unescape_text(raw: &str) -> (r: Result<String, String>)
    ensures
        text_result(r) == xml_unescaped(raw@),
        no_reference(raw@) ==> r is Ok,
        r matches Ok(value) ==> (no_reference(raw@) ==> value@ == raw@),
{
    unescape(raw).map(|value| value.into_owned()).map_err(|error| error.to_string())
}

/// `BytesStart::attributes`: an iterator over the element's attributes.
#[verifier::external_body]
pub(crate) fn element_attributes<'b>(element: &'b BytesStart) -> (r: Attributes<'b>)
    ensures
        attributes_left(r) == start_attributes(*element),
{
    element.attributes()
}

/// The view of one reported attribute.
pub open spec fn attribute_item_view(item: Result<(Vec<u8>, Vec<u8>), String>) -> Result<(Seq<u8>, Seq<u8>), Seq<char>> {
    match item {
        Ok((key, value)) => Ok((key@, value@)),
        Err(message) => Err(message@),
    }
}

/// `Iterator::next` of `Attributes`: the next attribute's raw key and raw
/// value, or the `Display` text of the error met; `None` once it has ended.
#[verifier::external_body]
pub(crate) fn next_attribute<'b>(attributes: &mut Attributes<'b>) -> (r: Option<Result<(Vec<u8>, Vec<u8>), String>>)
    ensures
        attributes_left(*old(attributes)).len() == 0 <==> r is None,
        r matches Some(item) ==> attribute_item_view(item) == attributes_left(*old(attributes))[0]
            && attributes_left(*final(attributes)) == attributes_left(*old(attributes)).drop_first(),
{
    match attributes.next() {
        Some(Ok(attribute)) => Some(Ok((attribute.key.0.to_vec(), attribute.value.to_vec()))),
        Some(Err(error)) => Some(Err(error.to_string())),
        None => None,
    }
}

/// `Reader::decoder`: the decoder of the reader's input encoding.
#[verifier::external_body]
pub(crate) fn reader_decoder(reader: &Reader<&[u8]>) -> Decoder {
    reader.decoder()
}

/// What `Attribute::decoded_and_normalized_value` for an XML 1.0 document
/// makes of a raw attribute value: decoded, references replaced, white space
/// normalized, or the `Display` text of the error.
pub uninterp spec fn xml_attribute_value(value: Seq<u8>) -> Result<Seq<char>, Seq<char>>;

/// `Attribute::decoded_and_normalized_value` for an XML 1.0 document, of the
/// attribute with this raw key and value. It reads the value alone, and a
/// `Decoder` without the `encoding` feature holds nothing, so the result
/// follows from the value.
#[verifier::external_body]
pub(crate) fn attribute_value(key: &[u8], value: &[u8], decoder: Decoder) -> (r: Result<String, String>)
    ensures
        text_result(r) == xml_attribute_value(value@),
{
    Attribute::from((key, value))
        .decoded_and_normalized_value(XmlVersion::Implicit1_0, decoder)
        .map(|value| value.into_owned())
        .map_err(|error| error.to_string())
}

/// One event for the writer.
pub enum XmlOut {
    /// `<?xml version=".." encoding=".."?>`
    Decl { version: String, encoding: String },
    /// A start tag with at most one attribute.
    Start { name: String, attribute: Option<(String, String)> },
    End(String),
    Text(String),
}

/// The text `quick_xml::escape::escape` puts in place of one character.
pub open spec fn escape_char_text(c: char) -> Seq<char> {
    if c == '<' {
        "&lt;"@
    } else if c == '>' {
        "&gt;"@
    } else if c == '&' {
        "&amp;"@
    } else if c == '\'' {
        "&apos;"@
    } else if c == '"' {
        "&quot;"@
    } else {
        seq![c]
    }
}

/// `quick_xml::escape::escape`.
pub open spec fn escaped(s: Seq<char>) -> Seq<char>
    decreases s.len(),
{
    if s.len() == 0 {
        seq![]
    } else {
        escape_char_text(s[0]) + escaped(s.drop_first())
    }
}

pub open spec fn attribute_text(attribute: Option<(Seq<char>, Seq<char>)>) -> Seq<char> {
    match attribute {
        Some((key, value)) => " "@ + key + "=\""@ + escaped(value) + "\""@,
        None => seq![],
    }
}

pub open spec fn attribute_view(attribute: Option<(String, String)>) -> Option<(Seq<char>, Seq<char>)> {
    match attribute {
        Some((key, value)) => Some((key@, value@)),
        None => None,
    }
}

/// The text that writing `event` appends.
pub open spec fn out_text(event: XmlOut) -> Seq<char> {
    match event {
        XmlOut::Decl { version, encoding } => "<?xml version=\""@ + version@ + "\" encoding=\""@
            + encoding@ + "\"?>"@,
        XmlOut::Start { name, attribute } => "<"@ + name@ + attribute_text(attribute_view(attribute))
            + ">"@,
        XmlOut::End(name) => "</"@ + name@ + ">"@,
        XmlOut::Text(text) => escaped(text@),
    }
}

/// The text a writer holds.
pub uninterp spec fn written_text(writer: Writer<Vec<u8>>) -> Seq<char>;

/// `Writer::new` over an empty `Vec`.
#[verifier::external_body]
pub(crate) fn xml_writer() -> (w: Writer<Vec<u8>>)
    ensures
        written_text(w) == Seq::<char>::empty(),
{
    Writer::new(Vec::new())
}

/// `Writer::write_event`. Writing into a `Vec` cannot fail, and without
/// indentation the writer appends exactly the event's text.
#[verifier::external_body]
pub(crate) fn write_xml(writer: &mut Writer<Vec<u8>>, event: &XmlOut) -> (r: Result<(), String>)
    ensures
        r is Ok,
        written_text(*final(writer)) == written_text(*old(writer)) + out_text(*event),
{
    let event = match event {
        XmlOut::Decl { version, encoding } => Event::Decl(BytesDecl::new(version, Some(encoding), None)),
        XmlOut::Start { name, attribute: None } => Event::Start(BytesStart::new(name.as_str())),
        XmlOut::Start { name, attribute: Some((key, value)) } => Event::Start(
            BytesStart::new(name.as_str()).with_attributes([(key.as_str(), value.as_str())]),
        ),
        XmlOut::End(name) => Event::End(BytesEnd::new(name.as_str())),
        XmlOut::Text(text) => Event::Text(BytesText::new(text)),
    };
    writer.write_event(event).map_err(|error| error.to_string())
}

/// `Writer::into_inner`: the UTF-8 bytes of the written text.
#[verifier::external_body]
pub(crate) fn writer_bytes(writer: Writer<Vec<u8>>) -> (r: Vec<u8>)
    ensures
        r@ == vstd::utf8::encode_utf8(written_text(writer)),
{
    writer.into_inner()
}

} // verus!
