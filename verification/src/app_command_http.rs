//! Framing of the bounded HTTP exchange that carries Denon AppCommand requests.
//!
//! Requests are written and responses are read by the caller; this module
//! builds the request text and decides what the received bytes mean.
use crate::avr::utf8_str;
use crate::protocol::app_command::{app_document_items, fault_text, response_view, parse_app_command_response, response_outcome, results_view, AppCommandResponse, ItemView, ResultView};
use crate::bytes::{bytes_at, bytes_match_at, bytes_range, extend_range, find_bytes_from, first_from, lemma_first_from, lemma_first_from_prefix, is_first_from};
use crate::text::{all_hex, hex_digits_value, hex_value, is_hex, unsigned_body, chars_of, decimal, decimal_exec, first_index, has_char, has_char_exec, index_of, is_ws, is_ws_exec, lemma_first_index, lines, lines_exec, lower_seq, lower_vec, eq_chars, owned, parse_unsigned, parse_unsigned_exec, push_chars, push_str, string_of, sub_vec, trim, trim_start, trim_vec, has_prefix, starts_with, parse_hex, parse_hex_exec, words, words_exec};
use vstd::prelude::*;
use vstd::utf8::*;

verus! {

/// Largest response, and largest decoded chunked body, that is accepted.
pub const MAX_RESPONSE_BYTES: usize = 1048576;

/// The `std::io::ErrorKind` an HTTP failure is reported with.
#[derive(Debug, Clone, Copy, PartialEq, Eq, Structural)]
pub enum HttpErrorKind {
    InvalidData,
    UnexpectedEof,
    InvalidInput,
    NotFound,
    TimedOut,
    Other,
}

#[derive(Debug, Clone, PartialEq, Eq)]
pub struct HttpError {
    pub kind: HttpErrorKind,
    pub message: String,
}

fn fail(kind: HttpErrorKind, message: &str) -> (e: HttpError)
    ensures
        e.kind == kind,
        e.message@ == message@,
{
    HttpError { kind, message: owned(message) }
}

#[derive(Debug, Clone, PartialEq, Eq)]
pub struct RawHttpResponse {
    pub status_line: String,
    pub status_code: u16,
    pub body: String,
}

pub open spec fn crlf() -> Seq<u8> {
    seq![13u8, 10u8]
}

pub open spec fn crlfcrlf() -> Seq<u8> {
    seq![13u8, 10u8, 13u8, 10u8]
}

/// Index of the blank line that ends the headers.
pub fn find_header_end(bytes: &[u8]) -> (r: Option<usize>)
    ensures
        match r {
            Some(i) => first_from(bytes@, crlfcrlf(), 0) == Some(i as int),
            None => first_from(bytes@, crlfcrlf(), 0) is None,
        },
{
    let sep: Vec<u8> = vec![13u8, 10u8, 13u8, 10u8];
    assert(sep@ =~= crlfcrlf());
    find_bytes_from(bytes, &sep, 0)
}

/// `Host` value: an IPv6 literal is bracketed.
pub open spec fn authority_text(host: Seq<char>, port: u16) -> Seq<char> {
    if has_char(host, ':') && !has_prefix(host, "["@) {
        "["@ + host + "]:"@ + decimal(port as nat)
    } else {
        host + ":"@ + decimal(port as nat)
    }
}

pub open spec fn request_text(host: Seq<char>, port: u16, path: Seq<char>, body: Seq<char>) -> Seq<char> {
    "POST "@ + path + " HTTP/1.1\r\nHost: "@ + authority_text(host, port)
        + "\r\nAccept: */*\r\nContent-Type: text/xml; charset=utf-8\r\nContent-Length: "@ + decimal(
        encode_utf8(body).len(),
    ) + "\r\nConnection: close\r\nUser-Agent: curl/8.0\r\n\r\n"@ + body
}

/// The complete request text; `Content-Length` counts the body's UTF-8 bytes.
pub fn build_request(host: &str, port: u16, path: &str, body: &str) -> (r: String)
    requires
        encode_utf8(body@).len() <= usize::MAX,
    ensures
        r@ == request_text(host@, port, path@, body@),
{
    let h = chars_of(host);
    let mut authority: Vec<char> = Vec::new();
    let open = chars_of("[");
    if has_char_exec(&h, ':') && !starts_with(&h, &open) {
        push_str(&mut authority, "[");
        push_chars(&mut authority, &h);
        push_str(&mut authority, "]:");
    } else {
        push_chars(&mut authority, &h);
        push_str(&mut authority, ":");
    }
    let p = decimal_exec(port as u64);
    push_chars(&mut authority, &p);
    let mut out: Vec<char> = Vec::new();
    push_str(&mut out, "POST ");
    push_str(&mut out, path);
    push_str(&mut out, " HTTP/1.1\r\nHost: ");
    push_chars(&mut out, &authority);
    push_str(&mut out, "\r\nAccept: */*\r\nContent-Type: text/xml; charset=utf-8\r\nContent-Length: ");
    let n = decimal_exec(body.len() as u64);
    push_chars(&mut out, &n);
    push_str(&mut out, "\r\nConnection: close\r\nUser-Agent: curl/8.0\r\n\r\n");
    push_str(&mut out, body);
    assert(out@ =~= request_text(host@, port, path@, body@));
    string_of(&out)
}

#[derive(Debug, Clone, Copy, PartialEq, Eq, Structural)]
pub enum BodyFraming {
    ContentLength(usize),
    Chunked,
    CloseDelimited,
}

/// `str::eq_ignore_ascii_case`.
pub open spec fn eq_ignore_case(a: Seq<char>, b: Seq<char>) -> bool {
    lower_seq(a) == lower_seq(b)
}

fn eq_ignore_case_exec(a: &[char], b: &str) -> (r: bool)
    ensures
        r == eq_ignore_case(a@, b@),
{
    let x = lower_vec(a);
    let y = chars_of(b);
    let z = lower_vec(&y);
    eq_chars(&x, &z)
}

/// Header scan state: the Transfer-Encoding and Content-Length seen so far.
pub struct HeaderScan {
    pub transfer_encoding: Option<Seq<char>>,
    pub content_length: Option<nat>,
}

/// One header line; a line without `:` is ignored.
pub open spec fn header_step(line: Seq<char>, st: HeaderScan) -> Result<HeaderScan, Seq<char>> {
    let i = first_index(line, ':');
    if i < 0 {
        Ok(st)
    } else {
        let name = line.take(i);
        let value = trim(line.skip(i + 1));
        if eq_ignore_case(name, "transfer-encoding"@) {
            if st.transfer_encoding is Some {
                Err("HTTP response contains duplicate Transfer-Encoding headers"@)
            } else {
                Ok(HeaderScan { transfer_encoding: Some(value), ..st })
            }
        } else if eq_ignore_case(name, "content-length"@) {
            match parse_unsigned(value) {
                Some(n) if n <= usize::MAX => if st.content_length is Some {
                    Err("HTTP response contains duplicate Content-Length headers"@)
                } else {
                    Ok(HeaderScan { content_length: Some(n), ..st })
                },
                _ => Err("Content-Length is invalid"@),
            }
        } else {
            Ok(st)
        }
    }
}

pub open spec fn header_scan(ls: Seq<Seq<char>>, i: int, st: HeaderScan) -> Result<HeaderScan, Seq<char>>
    decreases ls.len() - i,
{
    if i < 1 || i >= ls.len() {
        Ok(st)
    } else {
        match header_step(ls[i], st) {
            Ok(next) => header_scan(ls, i + 1, next),
            Err(e) => Err(e),
        }
    }
}

/// How the body of a response with these headers is delimited; every failure is `InvalidData`.
pub open spec fn framing_of(headers: Seq<char>) -> Result<BodyFraming, Seq<char>> {
    match header_scan(lines(headers), 1, HeaderScan { transfer_encoding: None, content_length: None }) {
        Err(e) => Err(e),
        Ok(st) => match st.transfer_encoding {
            Some(te) => if !eq_ignore_case(te, "chunked"@) {
                Err("HTTP response uses an unsupported Transfer-Encoding"@)
            } else if st.content_length is Some {
                Err("HTTP response has conflicting body framing"@)
            } else {
                Ok(BodyFraming::Chunked)
            },
            None => match st.content_length {
                Some(n) => Ok(BodyFraming::ContentLength(n as usize)),
                None => Ok(BodyFraming::CloseDelimited),
            },
        },
    }
}

/// The name of a header line: what stands before its first `:`.
pub open spec fn header_name(line: Seq<char>) -> Seq<char> {
    line.take(first_index(line, ':'))
}

/// The value of a header line: what follows its first `:`, trimmed.
pub open spec fn header_value(line: Seq<char>) -> Seq<char> {
    trim(line.skip(first_index(line, ':') + 1))
}

/// A header line with this name, compared ignoring ASCII case.
pub open spec fn names_header(line: Seq<char>, name: Seq<char>) -> bool {
    first_index(line, ':') >= 0 && eq_ignore_case(header_name(line), name)
}

/// A Content-Length value as a length, when it is one.
pub open spec fn length_of(value: Seq<char>) -> Option<nat> {
    match parse_unsigned(value) {
        Some(n) => if n <= usize::MAX { Some(n) } else { None },
        None => None,
    }
}

/// How many header lines from `i` on carry this name (line zero is the status line).
pub open spec fn header_count(ls: Seq<Seq<char>>, i: int, name: Seq<char>) -> nat
    decreases ls.len() - i,
{
    if i < 1 || i >= ls.len() {
        0
    } else {
        (if names_header(ls[i], name) { 1nat } else { 0nat }) + header_count(ls, i + 1, name)
    }
}

/// The value of the first header line from `i` on with this name.
pub open spec fn first_header_value(ls: Seq<Seq<char>>, i: int, name: Seq<char>) -> Option<Seq<char>>
    decreases ls.len() - i,
{
    if i < 1 || i >= ls.len() {
        None
    } else if names_header(ls[i], name) {
        Some(header_value(ls[i]))
    } else {
        first_header_value(ls, i + 1, name)
    }
}

/// Some Content-Length line from `i` on has a value that is no length.
pub open spec fn invalid_length(ls: Seq<Seq<char>>, i: int) -> bool
    decreases ls.len() - i,
{
    if i < 1 || i >= ls.len() {
        false
    } else {
        (names_header(ls[i], "content-length"@) && length_of(header_value(ls[i])) is None) || invalid_length(ls, i + 1)
    }
}

proof fn lemma_header_names_differ(line: Seq<char>)
    ensures
        !(names_header(line, "transfer-encoding"@) && names_header(line, "content-length"@)),
{
    reveal_strlit("transfer-encoding");
    reveal_strlit("content-length");
    if names_header(line, "transfer-encoding"@) && names_header(line, "content-length"@) {
        assert(lower_seq("transfer-encoding"@).len() == 17);
        assert(lower_seq("content-length"@).len() == 14);
    }
}

proof fn lemma_first_header(ls: Seq<Seq<char>>, i: int, name: Seq<char>)
    ensures
        header_count(ls, i, name) > 0 <==> first_header_value(ls, i, name) is Some,
    decreases ls.len() - i,
{
    if !(i < 1 || i >= ls.len()) {
        lemma_first_header(ls, i + 1, name);
    }
}

proof fn lemma_header_scan(ls: Seq<Seq<char>>, i: int, st: HeaderScan)
    requires
        1 <= i,
    ensures
        header_scan(ls, i, st) is Ok <==> !invalid_length(ls, i)
            && header_count(ls, i, "transfer-encoding"@) + (if st.transfer_encoding is Some { 1int } else { 0int }) <= 1
            && header_count(ls, i, "content-length"@) + (if st.content_length is Some { 1int } else { 0int }) <= 1,
        header_scan(ls, i, st) matches Ok(end) ==> end.transfer_encoding == (if st.transfer_encoding is Some {
            st.transfer_encoding
        } else {
            first_header_value(ls, i, "transfer-encoding"@)
        }),
        header_scan(ls, i, st) matches Ok(end) ==> end.content_length == (if st.content_length is Some {
            st.content_length
        } else {
            match first_header_value(ls, i, "content-length"@) {
                Some(v) => length_of(v),
                None => None,
            }
        }),
    decreases ls.len() - i,
{
    if i >= ls.len() {
        return;
    }
    let line = ls[i];
    lemma_header_names_differ(line);
    match header_step(line, st) {
        Ok(next) => lemma_header_scan(ls, i + 1, next),
        Err(_) => {
            lemma_header_scan(ls, i + 1, st);
        },
    }
}

/// How the headers frame a body, said of the header lines: it is refused
/// exactly when a Content-Length value is no length, Transfer-Encoding or
/// Content-Length occurs twice, or a Transfer-Encoding is not `chunked`
/// (ignoring case) or comes with a Content-Length; otherwise the body is
/// chunked under a Transfer-Encoding, delimited by the one Content-Length, or
/// runs to the end of the stream.
pub proof fn lemma_framing_by_header_lines(headers: Seq<char>)
    ensures
        ({
            let ls = lines(headers);
            let te = header_count(ls, 1, "transfer-encoding"@);
            let cl = header_count(ls, 1, "content-length"@);
            &&& framing_of(headers) is Err <==> (invalid_length(ls, 1) || te > 1 || cl > 1 || (te == 1 && (cl > 0
                || !eq_ignore_case(first_header_value(ls, 1, "transfer-encoding"@)->Some_0, "chunked"@))))
            &&& framing_of(headers) is Ok ==> framing_of(headers) == Ok::<BodyFraming, Seq<char>>(if te == 1 {
                BodyFraming::Chunked
            } else if cl == 1 {
                BodyFraming::ContentLength(length_of(first_header_value(ls, 1, "content-length"@)->Some_0)->Some_0 as usize)
            } else {
                BodyFraming::CloseDelimited
            })
        }),
{
    let ls = lines(headers);
    lemma_header_scan(ls, 1, HeaderScan { transfer_encoding: None, content_length: None });
    lemma_first_header(ls, 1, "transfer-encoding"@);
    lemma_first_header(ls, 1, "content-length"@);
    lemma_valid_first_length(ls, 1);
}

proof fn lemma_valid_first_length(ls: Seq<Seq<char>>, i: int)
    ensures
        !invalid_length(ls, i) && first_header_value(ls, i, "content-length"@) is Some ==> length_of(
            first_header_value(ls, i, "content-length"@)->Some_0,
        ) is Some,
    decreases ls.len() - i,
{
    if !(i < 1 || i >= ls.len()) {
        lemma_valid_first_length(ls, i + 1);
    }
}

pub open spec fn nat_opt(o: Option<usize>) -> Option<nat> {
    match o {
        Some(n) => Some(n as nat),
        None => None,
    }
}

pub open spec fn cview(o: Option<Vec<char>>) -> Option<Seq<char>> {
    match o {
        Some(v) => Some(v@),
        None => None,
    }
}

pub fn body_framing(headers: &str) -> (r: Result<BodyFraming, HttpError>)
    ensures
        match framing_of(headers@) {
            Ok(f) => r == Ok::<BodyFraming, HttpError>(f),
            Err(m) => r matches Err(e) && e.kind == HttpErrorKind::InvalidData && e.message@ == m,
        },
{
    let chars = chars_of(headers);
    let ls = lines_exec(&chars);
    let ghost gl = lines(headers@);
    let mut transfer_encoding: Option<Vec<char>> = None;
    let mut content_length: Option<usize> = None;
    let ghost start = HeaderScan { transfer_encoding: None, content_length: None };
    let mut i: usize = if ls.len() > 0 { 1 } else { 0 };
    assert(header_scan(gl, 1, start) == header_scan(gl, i as int, start));
    while i < ls.len()
        invariant
            1 <= i || ls@.len() == 0,
            i <= ls@.len(),
            gl == lines(headers@),
            start == (HeaderScan { transfer_encoding: None, content_length: None }),
            ls@.len() == gl.len(),
            forall|k: int| 0 <= k < ls@.len() ==> #[trigger] ls@[k]@ == gl[k],
            header_scan(gl, 1, start) == header_scan(gl, i as int, HeaderScan { transfer_encoding: cview(transfer_encoding), content_length: nat_opt(content_length) }),
        decreases ls@.len() - i,
    {
        let line: Vec<char> = sub_vec(&ls[i], 0, ls[i].len());
        assert(line@ =~= gl[i as int]);
        let ghost st = HeaderScan { transfer_encoding: cview(transfer_encoding), content_length: nat_opt(content_length) };
        assert(header_scan(gl, i as int, st) == match header_step(gl[i as int], st) {
            Ok(next) => header_scan(gl, i + 1, next),
            Err(e) => Err(e),
        });
        proof {
            lemma_first_index(line@, ':');
        }
        let colon = match index_of(&line, ':') {
            Some(c) => c,
            None => {
                i += 1;
                continue;
            },
        };
        let name = sub_vec(&line, 0, colon);
        assert(name@ =~= line@.take(colon as int));
        let raw = sub_vec(&line, colon + 1, line.len());
        assert(raw@ =~= line@.skip(colon + 1));
        let value = trim_vec(&raw);
        if eq_ignore_case_exec(&name, "transfer-encoding") {
            if transfer_encoding.is_some() {
                assert(first_index(gl[i as int], ':') == colon);
                assert(eq_ignore_case(gl[i as int].take(colon as int), "transfer-encoding"@));
                assert(header_step(gl[i as int], st) == Err::<HeaderScan, Seq<char>>("HTTP response contains duplicate Transfer-Encoding headers"@));
                assert(header_scan(gl, 1, start) == Err::<HeaderScan, Seq<char>>("HTTP response contains duplicate Transfer-Encoding headers"@));
                assert(framing_of(headers@) == Err::<BodyFraming, Seq<char>>("HTTP response contains duplicate Transfer-Encoding headers"@));
                return Err(fail(HttpErrorKind::InvalidData, "HTTP response contains duplicate Transfer-Encoding headers"));
            }
            transfer_encoding = Some(value);
        } else if eq_ignore_case_exec(&name, "content-length") {
            let length = match parse_unsigned_exec(&value, usize::MAX as u64) {
                Some(n) => n as usize,
                None => {
                    assert(!(parse_unsigned(value@) matches Some(n) && n <= usize::MAX));
                    assert(first_index(gl[i as int], ':') == colon);
                    assert(header_step(gl[i as int], st) == Err::<HeaderScan, Seq<char>>("Content-Length is invalid"@));
                    assert(header_scan(gl, 1, start) == Err::<HeaderScan, Seq<char>>("Content-Length is invalid"@));
                    assert(framing_of(headers@) == Err::<BodyFraming, Seq<char>>("Content-Length is invalid"@));
                    return Err(fail(HttpErrorKind::InvalidData, "Content-Length is invalid"));
                },
            };
            if content_length.is_some() {
                assert(first_index(gl[i as int], ':') == colon);
                assert(header_step(gl[i as int], st) == Err::<HeaderScan, Seq<char>>("HTTP response contains duplicate Content-Length headers"@));
                assert(header_scan(gl, 1, start) == Err::<HeaderScan, Seq<char>>("HTTP response contains duplicate Content-Length headers"@));
                assert(framing_of(headers@) == Err::<BodyFraming, Seq<char>>("HTTP response contains duplicate Content-Length headers"@));
                return Err(fail(HttpErrorKind::InvalidData, "HTTP response contains duplicate Content-Length headers"));
            }
            content_length = Some(length);
        }
        i += 1;
    }
    match transfer_encoding {
        Some(te) => {
            if !eq_ignore_case_exec(&te, "chunked") {
                return Err(fail(HttpErrorKind::InvalidData, "HTTP response uses an unsupported Transfer-Encoding"));
            }
            if content_length.is_some() {
                return Err(fail(HttpErrorKind::InvalidData, "HTTP response has conflicting body framing"));
            }
            Ok(BodyFraming::Chunked)
        },
        None => match content_length {
            Some(n) => Ok(BodyFraming::ContentLength(n)),
            None => Ok(BodyFraming::CloseDelimited),
        },
    }
}


/// What a chunked body decodes to.
pub enum ChunkedBody {
    /// More bytes are needed.
    Incomplete,
    /// The decoded body and the length of its encoding, trailer included.
    Complete(Seq<u8>, nat),
    /// The encoding is malformed; every such failure is `InvalidData`.
    Invalid(Seq<char>),
}

/// The hex size of a chunk-size line: chunk extensions after `;` are dropped.
pub open spec fn chunk_size_text(line: Seq<char>) -> Seq<char> {
    let i = first_index(line, ';');
    trim(if i < 0 { line } else { line.take(i) })
}

/// Decodes the chunks of `enc` from `cursor` on, `decoded` holding the data of the chunks before it.
pub open spec fn chunk_walk(enc: Seq<u8>, cursor: int, decoded: Seq<u8>) -> ChunkedBody
    decreases enc.len() - cursor,
{
    if cursor < 0 {
        ChunkedBody::Incomplete
    } else {
        match first_from(enc, crlf(), cursor) {
            None => ChunkedBody::Incomplete,
            Some(line_end) => {
                proof {
                    lemma_first_from(enc, crlf(), cursor);
                }
                let raw = enc.subrange(cursor, line_end);
                if !valid_utf8(raw) {
                    ChunkedBody::Invalid("chunk size is not ASCII"@)
                } else {
                    match parse_hex(chunk_size_text(decode_utf8(raw))) {
                        Some(size) if size <= usize::MAX => {
                            let next = line_end + 2;
                            if size == 0 {
                                if bytes_at(enc, crlf(), next) {
                                    ChunkedBody::Complete(decoded, (next + 2) as nat)
                                } else {
                                    match first_from(enc, crlfcrlf(), next) {
                                        None => ChunkedBody::Incomplete,
                                        Some(t) => ChunkedBody::Complete(decoded, (t + 4) as nat),
                                    }
                                }
                            } else if next + size + 2 > usize::MAX {
                                ChunkedBody::Invalid("chunk size overflows"@)
                            } else if enc.len() < next + size + 2 {
                                ChunkedBody::Incomplete
                            } else if !bytes_at(enc, crlf(), next + size) {
                                ChunkedBody::Invalid("chunk data has no CRLF terminator"@)
                            } else if decoded.len() + size > MAX_RESPONSE_BYTES {
                                ChunkedBody::Invalid("decoded HTTP body exceeds bounded size"@)
                            } else {
                                chunk_walk(enc, next + size + 2, decoded + enc.subrange(next, next + size))
                            }
                        },
                        _ => ChunkedBody::Invalid("chunk size is invalid"@),
                    }
                }
            },
        }
    }
}

pub open spec fn chunked_of(enc: Seq<u8>) -> ChunkedBody {
    chunk_walk(enc, 0, seq![])
}

/// Decodes a chunked body: `Ok(None)` while it is incomplete, else the data and
/// the length of the encoding that carried it.
pub fn decode_chunked_body(encoded: &[u8]) -> (r: Result<Option<(Vec<u8>, usize)>, HttpError>)
    ensures
        match chunked_of(encoded@) {
            ChunkedBody::Incomplete => r == Ok::<Option<(Vec<u8>, usize)>, HttpError>(None),
            ChunkedBody::Complete(d, n) => r matches Ok(Some((v, m))) && v@ == d && m == n,
            ChunkedBody::Invalid(msg) => r matches Err(e) && e.kind == HttpErrorKind::InvalidData
                && e.message@ == msg,
        },
{
    let crlf_bytes: Vec<u8> = vec![13u8, 10u8];
    assert(crlf_bytes@ =~= crlf());
    let end_bytes: Vec<u8> = vec![13u8, 10u8, 13u8, 10u8];
    assert(end_bytes@ =~= crlfcrlf());
    let mut decoded: Vec<u8> = Vec::new();
    let mut cursor: usize = 0;
    loop
        invariant
            cursor <= encoded@.len(),
            decoded@.len() <= MAX_RESPONSE_BYTES,
            crlf_bytes@ == crlf(),
            end_bytes@ == crlfcrlf(),
            chunked_of(encoded@) == chunk_walk(encoded@, cursor as int, decoded@),
        decreases encoded@.len() - cursor,
    {
        let ghost enc = encoded@;
        proof {
            lemma_first_from(enc, crlf(), cursor as int);
        }
        let line_end = match find_bytes_from(encoded, &crlf_bytes, cursor) {
            Some(e) => e,
            None => return Ok(None),
        };
        let raw = bytes_range(encoded, cursor, line_end);
        let text = match utf8_str(&raw) {
            Ok(t) => t,
            Err(_) => return Err(fail(HttpErrorKind::InvalidData, "chunk size is not ASCII")),
        };
        let line = chars_of(text);
        proof {
            lemma_first_index(line@, ';');
        }
        let head = match index_of(&line, ';') {
            Some(i) => sub_vec(&line, 0, i),
            None => sub_vec(&line, 0, line.len()),
        };
        assert(head@ =~= (if first_index(line@, ';') < 0 { line@ } else { line@.take(first_index(line@, ';')) }));
        let size_text = trim_vec(&head);
        let size = match parse_hex_exec(&size_text, usize::MAX as u64) {
            Some(n) => n as usize,
            None => return Err(fail(HttpErrorKind::InvalidData, "chunk size is invalid")),
        };
        let total = encoded.len();
        assert(crlf().len() == 2);
        assert(bytes_at(enc, crlf(), line_end as int));
        assert(line_end + 2 <= total);
        let next = line_end + 2;
        if size == 0 {
            if total - next >= 2 && encoded[next] == 13u8 && encoded[next + 1] == 10u8 {
                assert(enc.subrange(next as int, next + 2) =~= crlf());
                return Ok(Some((decoded, next + 2)));
            }
            assert(!bytes_at(enc, crlf(), next as int)) by {
                if bytes_at(enc, crlf(), next as int) {
                    assert(enc.subrange(next as int, next + 2)[0] == enc[next as int]);
                    assert(enc.subrange(next as int, next + 2)[1] == enc[next + 1]);
                }
            }
            return match find_bytes_from(encoded, &end_bytes, next) {
                Some(t) => {
                    proof {
                        lemma_first_from(enc, crlfcrlf(), next as int);
                    }
                    Ok(Some((decoded, t + 4)))
                },
                None => Ok(None),
            };
        }
        let data_end = match next.checked_add(size) {
            Some(d) => d,
            None => return Err(fail(HttpErrorKind::InvalidData, "chunk size overflows")),
        };
        let chunk_end = match data_end.checked_add(2) {
            Some(c) => c,
            None => return Err(fail(HttpErrorKind::InvalidData, "chunk size overflows")),
        };
        if encoded.len() < chunk_end {
            return Ok(None);
        }
        if !bytes_match_at(encoded, data_end, &crlf_bytes) {
            return Err(fail(HttpErrorKind::InvalidData, "chunk data has no CRLF terminator"));
        }
        if size > MAX_RESPONSE_BYTES - decoded.len() {
            return Err(fail(HttpErrorKind::InvalidData, "decoded HTTP body exceeds bounded size"));
        }
        extend_range(&mut decoded, encoded, next, data_end);
        cursor = chunk_end;
    }
}


/// Length the complete response will have, once the headers say it.
pub open spec fn expected_length_of(bytes: Seq<u8>) -> Result<Option<nat>, Seq<char>> {
    match first_from(bytes, crlfcrlf(), 0) {
        None => Ok(None),
        Some(h) => if !valid_utf8(bytes.take(h)) {
            Err("HTTP headers are not UTF-8"@)
        } else if h + 4 > usize::MAX {
            Err("HTTP header length overflows"@)
        } else {
            match framing_of(decode_utf8(bytes.take(h))) {
                Err(m) => Err(m),
                Ok(BodyFraming::ContentLength(n)) => if h + 4 + n > usize::MAX {
                    Err("HTTP body length overflows"@)
                } else {
                    Ok(Some((h + 4 + n) as nat))
                },
                Ok(BodyFraming::Chunked) => match chunked_of(bytes.skip(h + 4)) {
                    ChunkedBody::Invalid(m) => Err(m),
                    ChunkedBody::Incomplete => Ok(None),
                    ChunkedBody::Complete(_, n) => if h + 4 + n > usize::MAX {
                        Err("chunked HTTP body length overflows"@)
                    } else {
                        Ok(Some((h + 4 + n) as nat))
                    },
                },
                Ok(BodyFraming::CloseDelimited) => Ok(None),
            }
        },
    }
}

/// The header text and the encoded body of a response that has its blank line.
fn split_head(bytes: &[u8]) -> (r: Result<Option<(String, Vec<u8>)>, HttpError>)
    ensures
        match first_from(bytes@, crlfcrlf(), 0) {
            None => r == Ok::<Option<(String, Vec<u8>)>, HttpError>(None),
            Some(h) => if valid_utf8(bytes@.take(h)) {
                r matches Ok(Some((t, b))) && t@ == decode_utf8(bytes@.take(h)) && b@ == bytes@.skip(h + 4)
            } else {
                r matches Err(e) && e.kind == HttpErrorKind::InvalidData && e.message@ == "HTTP headers are not UTF-8"@
            },
        },
{
    let header_end = match find_header_end(bytes) {
        Some(h) => h,
        None => return Ok(None),
    };
    proof {
        lemma_first_from(bytes@, crlfcrlf(), 0);
    }
    assert(crlfcrlf().len() == 4);
    let total = bytes.len();
    assert(header_end + 4 <= total);
    let head = bytes_range(bytes, 0, header_end);
    assert(head@ =~= bytes@.take(header_end as int));
    let text = match utf8_str(&head) {
        Ok(t) => owned(t),
        Err(_) => return Err(fail(HttpErrorKind::InvalidData, "HTTP headers are not UTF-8")),
    };
    let body = bytes_range(bytes, header_end + 4, bytes.len());
    assert(body@ =~= bytes@.skip(header_end + 4));
    Ok(Some((text, body)))
}

/// Total length of the response in `bytes` once its headers are complete:
/// `Ok(None)` while that is not yet known.
pub fn expected_response_length(bytes: &[u8]) -> (r: Result<Option<usize>, HttpError>)
    ensures
        match expected_length_of(bytes@) {
            Ok(n) => r == Ok::<Option<usize>, HttpError>(match n {
                Some(k) => Some(k as usize),
                None => None,
            }),
            Err(m) => r matches Err(e) && e.kind == HttpErrorKind::InvalidData && e.message@ == m,
        },
{
    proof {
        lemma_first_from(bytes@, crlfcrlf(), 0);
    }
    let (headers, encoded) = match split_head(bytes) {
        Ok(Some(parts)) => parts,
        Ok(None) => return Ok(None),
        Err(e) => return Err(e),
    };
    let ghost h = first_from(bytes@, crlfcrlf(), 0)->Some_0;
    assert(h + 4 <= bytes@.len());
    let body_start = bytes.len() - encoded.len();
    assert(body_start == h + 4);
    match body_framing(headers.as_str()) {
        Err(e) => Err(e),
        Ok(BodyFraming::ContentLength(length)) => match body_start.checked_add(length) {
            Some(n) => Ok(Some(n)),
            None => Err(fail(HttpErrorKind::InvalidData, "HTTP body length overflows")),
        },
        Ok(BodyFraming::Chunked) => match decode_chunked_body(&encoded) {
            Err(e) => Err(e),
            Ok(None) => Ok(None),
            Ok(Some((_, encoded_length))) => match body_start.checked_add(encoded_length) {
                Some(n) => Ok(Some(n)),
                None => Err(fail(HttpErrorKind::InvalidData, "chunked HTTP body length overflows")),
            },
        },
        Ok(BodyFraming::CloseDelimited) => Ok(None),
    }
}

/// Reading exactly the length a `Content-Length` response announces hands the
/// parser the same headers and exactly the announced body.
pub proof fn lemma_content_length_frames_body(bytes: Seq<u8>, n: nat)
    requires
        expected_length_of(bytes) == Ok::<Option<nat>, Seq<char>>(Some(n)),
        n <= bytes.len(),
        first_from(bytes, crlfcrlf(), 0) matches Some(h) && framing_of(decode_utf8(bytes.take(h))) is Ok
            && framing_of(decode_utf8(bytes.take(h)))->Ok_0 is ContentLength,
    ensures
        first_from(bytes.take(n as int), crlfcrlf(), 0) == first_from(bytes, crlfcrlf(), 0),
        ({
            let h = first_from(bytes, crlfcrlf(), 0)->Some_0;
            let cut = bytes.take(n as int);
            &&& cut.take(h) == bytes.take(h)
            &&& body_of(decode_utf8(cut.take(h)), cut.skip(h + 4)) == Ok::<Seq<u8>, (HttpErrorKind, Seq<char>)>(bytes.subrange(h + 4, n as int))
        }),
{
    let h = first_from(bytes, crlfcrlf(), 0)->Some_0;
    lemma_first_from(bytes, crlfcrlf(), 0);
    assert(h + 4 <= n);
    lemma_first_from_prefix(bytes, crlfcrlf(), n as int);
    let cut = bytes.take(n as int);
    assert(cut.take(h) =~= bytes.take(h));
    assert(cut.skip(h + 4) =~= bytes.subrange(h + 4, n as int));
}

/// A body sent as one chunk: its size line in hex, CRLF, the data, CRLF,
/// then the last chunk `0` and an empty trailer.
pub open spec fn one_chunk_encoding(size: Seq<char>, data: Seq<u8>) -> Seq<u8> {
    encode_utf8(size) + crlf() + data + crlf() + seq![48u8] + crlf() + crlf()
}

/// The first CRLF at or after `from` is at `at` when `at` holds one and no
/// byte from `from` up to it is a CR.
proof fn lemma_first_crlf(s: Seq<u8>, from: int, at: int)
    requires
        0 <= from <= at,
        bytes_at(s, crlf(), at),
        forall|j: int| from <= j < at ==> s[j] != 13u8,
    ensures
        first_from(s, crlf(), from) == Some(at),
{
    lemma_first_from(s, crlf(), from);
    assert(from <= at && bytes_at(s, crlf(), at));
    let i = first_from(s, crlf(), from)->Some_0;
    assert(is_first_from(s, crlf(), from, i));
    if i < at {
        assert(s.subrange(i, i + 2)[0] == s[i]);
    }
}

/// A hex size line reads as its value.
proof fn lemma_size_line(size: Seq<char>)
    requires
        size.len() > 0,
        all_hex(size),
    ensures
        valid_utf8(encode_utf8(size)),
        decode_utf8(encode_utf8(size)) == size,
        encode_utf8(size).len() == size.len(),
        forall|j: int| 0 <= j < size.len() ==> encode_utf8(size)[j] == size[j] as u8,
        forall|j: int| 0 <= j < size.len() ==> encode_utf8(size)[j] != 13u8,
        parse_hex(chunk_size_text(size)) == Some(hex_digits_value(size)),
{
    assert(is_ascii_chars(size)) by {
        assert forall|i: int| 0 <= i < size.len() implies '\0' <= #[trigger] size[i] <= '\u{7f}' by {
            assert(is_hex(size[i]));
        }
    }
    is_ascii_chars_encode_utf8(size);
    encode_utf8_valid_utf8(size);
    encode_utf8_decode_utf8(size);
    assert forall|j: int| 0 <= j < size.len() implies encode_utf8(size)[j] != 13u8 by {
        assert(size[j] as u8 == encode_utf8(size)[j]);
        assert(is_hex(size[j]));
    }
    lemma_first_index(size, ';');
    assert(!has_char(size, ';')) by {
        if has_char(size, ';') {
            let k = choose|k: int| 0 <= k < size.len() && size[k] == ';';
            assert(is_hex(size[k]));
        }
    }
    assert(is_hex(size[0]) && is_hex(size.last()));
    assert(trim_start(size) == size);
    assert(trim(size) == size);
    assert(unsigned_body(size) == size);
}

/// The last chunk, `0` CRLF, and an empty trailer end the body with what was decoded before.
proof fn lemma_last_chunk(enc: Seq<u8>, c: int, decoded: Seq<u8>)
    requires
        0 <= c,
        enc.len() == c + 5,
        enc.subrange(c, c + 5) == seq![48u8, 13u8, 10u8, 13u8, 10u8],
    ensures
        chunk_walk(enc, c, decoded) == ChunkedBody::Complete(decoded, (c + 5) as nat),
{
    let tail = enc.subrange(c, c + 5);
    assert(enc[c] == tail[0] && enc[c + 1] == tail[1] && enc[c + 2] == tail[2]);
    assert(enc[c + 3] == tail[3] && enc[c + 4] == tail[4]);
    assert(enc.subrange(c + 1, c + 3) =~= crlf());
    assert(enc.subrange(c + 3, c + 5) =~= crlf());
    lemma_first_crlf(enc, c, c + 1);
    let zero = seq!['0'];
    lemma_size_line(zero);
    assert(encode_utf8(zero) =~= seq![48u8]) by {
        assert(encode_utf8(zero)[0] == '0' as u8);
    }
    assert(enc.subrange(c, c + 1) =~= seq![48u8]);
    assert(hex_digits_value(zero) == 0) by {
        assert(zero.last() == '0');
        assert(hex_value('0') == 0);
        assert(zero.drop_last() =~= Seq::<char>::empty());
        reveal_with_fuel(hex_digits_value, 2);
    }
}

/// A data chunk of `data.len()` bytes, announced in hex, is taken whole.
proof fn lemma_data_chunk(enc: Seq<u8>, size: Seq<char>, data: Seq<u8>)
    requires
        size.len() > 0,
        all_hex(size),
        hex_digits_value(size) == data.len(),
        0 < data.len() <= MAX_RESPONSE_BYTES,
        enc.len() <= usize::MAX,
        enc.len() >= size.len() + data.len() + 4,
        enc.subrange(0, size.len() as int) == encode_utf8(size),
        enc.subrange(size.len() as int, (size.len() + 2) as int) == crlf(),
        enc.subrange((size.len() + 2) as int, (size.len() + 2 + data.len()) as int) == data,
        enc.subrange((size.len() + 2 + data.len()) as int, (size.len() + 4 + data.len()) as int)
            == crlf(),
    ensures
        chunk_walk(enc, 0, seq![]) == chunk_walk(enc, (size.len() + data.len() + 4) as int, data),
{
    let k = size.len() as int;
    lemma_size_line(size);
    assert forall|j: int| 0 <= j < k implies enc[j] != 13u8 by {
        assert(enc[j] == enc.subrange(0, k)[j]);
    }
    lemma_first_crlf(enc, 0, k);
    assert(seq![] + data =~= data);
}

/// Where the parts of a one-chunk encoding lie.
proof fn lemma_one_chunk_layout(size: Seq<char>, data: Seq<u8>)
    requires
        size.len() > 0,
        all_hex(size),
    ensures
        ({
            let enc = one_chunk_encoding(size, data);
            let k = size.len() as int;
            let n = data.len() as int;
            &&& enc.len() == k + n + 9
            &&& enc.subrange(0, k) == encode_utf8(size)
            &&& enc.subrange(k, k + 2) == crlf()
            &&& enc.subrange(k + 2, k + 2 + n) == data
            &&& enc.subrange(k + 2 + n, k + 4 + n) == crlf()
            &&& enc.subrange(k + 4 + n, k + n + 9) == seq![48u8, 13u8, 10u8, 13u8, 10u8]
        }),
{
    let enc = one_chunk_encoding(size, data);
    let e = encode_utf8(size);
    lemma_size_line(size);
    let k = size.len() as int;
    let n = data.len() as int;
    assert(enc.subrange(0, k) =~= e);
    assert(enc.subrange(k, k + 2) =~= crlf());
    assert(enc.subrange(k + 2, k + 2 + n) =~= data);
    assert(enc.subrange(k + 2 + n, k + 4 + n) =~= crlf());
    assert(enc.subrange(k + 4 + n, k + n + 9) =~= seq![48u8, 13u8, 10u8, 13u8, 10u8]);
}

/// A body sent as one chunk, its size written in any hex spelling, decodes
/// back to the body, and the decoder consumes the whole encoding.
#[verifier::spinoff_prover]
pub proof fn lemma_one_chunk_decodes(size: Seq<char>, data: Seq<u8>)
    requires
        size.len() > 0,
        all_hex(size),
        hex_digits_value(size) == data.len(),
        0 < data.len() <= MAX_RESPONSE_BYTES,
        one_chunk_encoding(size, data).len() <= usize::MAX,
    ensures
        chunked_of(one_chunk_encoding(size, data)) == ChunkedBody::Complete(
            data,
            one_chunk_encoding(size, data).len(),
        ),
{
    let enc = one_chunk_encoding(size, data);
    lemma_one_chunk_layout(size, data);
    lemma_data_chunk(enc, size, data);
    lemma_last_chunk(enc, (size.len() + data.len() + 4) as int, data);
}

/// The first line of the headers, or nothing.
pub open spec fn status_line_of(headers: Seq<char>) -> Seq<char> {
    if lines(headers).len() == 0 {
        seq![]
    } else {
        lines(headers)[0]
    }
}

/// The status code named by the second word of the status line.
pub open spec fn status_code_of(line: Seq<char>) -> Option<u16> {
    let w = words(line);
    if w.len() > 1 {
        match parse_unsigned(w[1]) {
            Some(n) if n <= u16::MAX => Some(n as u16),
            _ => None,
        }
    } else {
        None
    }
}

/// The body bytes a response carries, given its headers and its encoded body.
pub open spec fn body_of(headers: Seq<char>, enc: Seq<u8>) -> Result<Seq<u8>, (HttpErrorKind, Seq<char>)> {
    match framing_of(headers) {
        Err(m) => Err((HttpErrorKind::InvalidData, m)),
        Ok(BodyFraming::ContentLength(n)) => if enc.len() != n {
            Err((HttpErrorKind::UnexpectedEof, "HTTP body length does not match Content-Length"@))
        } else {
            Ok(enc)
        },
        Ok(BodyFraming::Chunked) => match chunked_of(enc) {
            ChunkedBody::Invalid(m) => Err((HttpErrorKind::InvalidData, m)),
            ChunkedBody::Incomplete => Err((HttpErrorKind::UnexpectedEof, "chunked HTTP body is incomplete"@)),
            ChunkedBody::Complete(d, _) => Ok(d),
        },
        Ok(BodyFraming::CloseDelimited) => Ok(enc),
    }
}

/// A complete response: status line, status code and body text.
pub open spec fn http_response_of(bytes: Seq<u8>) -> Result<(Seq<char>, u16, Seq<char>), (HttpErrorKind, Seq<char>)> {
    match first_from(bytes, crlfcrlf(), 0) {
        None => Err((HttpErrorKind::InvalidData, "HTTP response has no header separator"@)),
        Some(h) => if !valid_utf8(bytes.take(h)) {
            Err((HttpErrorKind::InvalidData, "HTTP headers are not UTF-8"@))
        } else {
            let headers = decode_utf8(bytes.take(h));
            let line = status_line_of(headers);
            let w = words(line);
            if line.len() == 0 {
                Err((HttpErrorKind::InvalidData, "HTTP status is empty"@))
            } else if !(w.len() > 0 && (w[0] == "HTTP/1.0"@ || w[0] == "HTTP/1.1"@)) {
                Err((HttpErrorKind::InvalidData, "HTTP status line has an invalid protocol"@))
            } else {
                match status_code_of(line) {
                    None => Err((HttpErrorKind::InvalidData, "HTTP status is invalid"@)),
                    Some(code) => if !(100 <= code <= 599) {
                        Err((HttpErrorKind::InvalidData, "HTTP status code is out of range"@))
                    } else {
                        match body_of(headers, bytes.skip(h + 4)) {
                            Err(e) => Err(e),
                            Ok(body) => if !valid_utf8(body) {
                                Err((HttpErrorKind::InvalidData, "HTTP body is not UTF-8"@))
                            } else {
                                Ok((line, code, decode_utf8(body)))
                            },
                        }
                    },
                }
            }
        },
    }
}

fn body_bytes(headers: &str, encoded: Vec<u8>) -> (r: Result<Vec<u8>, HttpError>)
    ensures
        match body_of(headers@, encoded@) {
            Ok(b) => r matches Ok(v) && v@ == b,
            Err((k, m)) => r matches Err(e) && e.kind == k && e.message@ == m,
        },
{
    match body_framing(headers) {
        Err(e) => Err(e),
        Ok(BodyFraming::ContentLength(content_length)) => {
            if encoded.len() != content_length {
                return Err(fail(HttpErrorKind::UnexpectedEof, "HTTP body length does not match Content-Length"));
            }
            Ok(encoded)
        },
        Ok(BodyFraming::Chunked) => match decode_chunked_body(&encoded) {
            Err(e) => Err(e),
            Ok(None) => Err(fail(HttpErrorKind::UnexpectedEof, "chunked HTTP body is incomplete")),
            Ok(Some((body, _))) => Ok(body),
        },
        Ok(BodyFraming::CloseDelimited) => Ok(encoded),
    }
}

/// Parses a complete HTTP/1.x response.
pub fn parse_http_response(bytes: &[u8]) -> (r: Result<RawHttpResponse, HttpError>)
    ensures
        match http_response_of(bytes@) {
            Ok((line, code, body)) => r matches Ok(resp) && resp.status_line@ == line
                && resp.status_code == code && resp.body@ == body,
            Err((k, m)) => r matches Err(e) && e.kind == k && e.message@ == m,
        },
{
    let (headers, encoded) = match split_head(bytes) {
        Ok(Some(parts)) => parts,
        Ok(None) => return Err(fail(HttpErrorKind::InvalidData, "HTTP response has no header separator")),
        Err(e) => return Err(e),
    };
    let hv = chars_of(headers.as_str());
    let ls = lines_exec(&hv);
    let line: Vec<char> = if ls.len() == 0 { Vec::new() } else { sub_vec(&ls[0], 0, ls[0].len()) };
    assert(line@ =~= status_line_of(headers@));
    if line.len() == 0 {
        return Err(fail(HttpErrorKind::InvalidData, "HTTP status is empty"));
    }
    let w = words_exec(&line);
    let http10 = chars_of("HTTP/1.0");
    let http11 = chars_of("HTTP/1.1");
    if !(w.len() > 0 && (eq_chars(&w[0], &http10) || eq_chars(&w[0], &http11))) {
        return Err(fail(HttpErrorKind::InvalidData, "HTTP status line has an invalid protocol"));
    }
    let status_code: u16 = if w.len() > 1 {
        match parse_unsigned_exec(&w[1], 65535) {
            Some(n) => n as u16,
            None => return Err(fail(HttpErrorKind::InvalidData, "HTTP status is invalid")),
        }
    } else {
        return Err(fail(HttpErrorKind::InvalidData, "HTTP status is invalid"));
    };
    if !(100 <= status_code && status_code <= 599) {
        return Err(fail(HttpErrorKind::InvalidData, "HTTP status code is out of range"));
    }
    let body = match body_bytes(headers.as_str(), encoded) {
        Ok(b) => b,
        Err(e) => return Err(e),
    };
    let text = match utf8_str(&body) {
        Ok(t) => owned(t),
        Err(_) => return Err(fail(HttpErrorKind::InvalidData, "HTTP body is not UTF-8")),
    };
    Ok(RawHttpResponse { status_line: string_of(&line), status_code, body: text })
}


#[derive(Debug, Clone, PartialEq, Eq)]
pub struct AppCommandExchange {
    pub http: RawHttpResponse,
    pub response: AppCommandResponse,
}

/// What an AppCommand exchange with this HTTP response comes to, given the
/// events the XML reader reports for its body.
pub open spec fn exchange_outcome(status_line: Seq<char>, status_code: u16, body: Seq<char>, items: Seq<ItemView>) -> Result<Seq<ResultView>, (HttpErrorKind, Seq<char>)> {
    if !(200 <= status_code < 300) {
        Err((HttpErrorKind::Other, "AppCommand request failed with "@ + status_line))
    } else {
        match response_outcome(body, items) {
            Ok(commands) => Ok(commands),
            Err(f) => Err((HttpErrorKind::InvalidData, fault_text(f))),
        }
    }
}

/// `r` is what the exchange comes to when the reader reports `items`.
pub open spec fn exchange_matches(http: RawHttpResponse, items: Seq<ItemView>, r: Result<AppCommandExchange, HttpError>) -> bool {
    match exchange_outcome(http.status_line@, http.status_code, http.body@, items) {
        Ok(commands) => r matches Ok(x) && x.http == http && results_view(x.response.commands@) == commands,
        Err((kind, message)) => r matches Err(e) && e.kind == kind && e.message@ == message,
    }
}

/// A successful HTTP status and a parseable AppCommand body: what the
/// exchange comes to with the items the reader of the body reports.
pub fn parse_app_command_exchange(http: RawHttpResponse) -> (r: Result<AppCommandExchange, HttpError>)
    ensures
        exchange_matches(http, app_document_items(http.body@), r),
{
    if !(200 <= http.status_code && http.status_code < 300) {
        let mut message = chars_of("AppCommand request failed with ");
        let line = chars_of(http.status_line.as_str());
        message.append(&mut line.clone());
        let r = Err(HttpError { kind: HttpErrorKind::Other, message: string_of(&message) });
        assert(exchange_matches(http, app_document_items(http.body@), r));
        return r;
    }
    let parsed = parse_app_command_response(http.body.as_str());
    let ghost body = http.body@;
    let ghost items = app_document_items(http.body@);
    let r = match parsed {
        Ok(response) => Ok(AppCommandExchange { http, response }),
        Err(error) => Err(HttpError { kind: HttpErrorKind::InvalidData, message: error.message() }),
    };
    assert(exchange_matches(http, items, r));
    r
}

} // verus!
