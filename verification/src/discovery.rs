//! SSDP discovery for Denon/HEOS receivers: the search requests, and what
//! the answers and device descriptions say. Sockets are the caller's.
use crate::avr::utf8_str;
use crate::domain::receiver::{DiscoveredReceiver, ReceiverEndpoint};
use crate::table::{entry_at, insert_sorted, sorted_insert, text_pairs};
use crate::text::{
    chars_of, contains_seq, decimal, decimal_exec, find_from, find_seq, first_index, index_of,
    lemma_first_index, lines, lines_exec, lower_seq, lower_vec, owned, push_chars, push_str,
    string_of, sub_vec, trim, trim_vec, contains, occurs_at, text_lt, text_order, TextOrder,
    lemma_text_lt_irreflexive, lemma_text_lt_transitive, lemma_text_lt_total, after_first,
};
use vstd::prelude::*;

verus! {

pub const SSDP_PORT: u16 = 1900;

pub const DENON_DOCUMENTED_SSDP_PORT: u16 = 1800;

pub const SSDP_TARGET: &'static str = "urn:schemas-denon-com:device:ACT-Denon:1";

pub const AIOS_SSDP_TARGET: &'static str = "urn:schemas-denon-com:device:AiosDevice:1";

/// How long discovery listens, in milliseconds.
pub const DEFAULT_DISCOVERY_TIMEOUT_MILLIS: u64 = 5000;

pub const DESCRIPTION_PORT: u16 = 60006;

pub const DESCRIPTION_PATH: &'static str = "/upnp/desc/aios_device/aios_device.xml";

#[derive(Debug)]
pub enum DiscoveryError {
    Io(std::io::Error),
    InvalidResponse(String),
    Timeout,
}

/// The part of a discovery deadline kept for the description scan: a third
/// of it, or all of it when a third is nothing. Durations are in nanoseconds.
pub fn reserved_fallback_budget(timeout: u128) -> (r: u128)
    ensures
        r == (if timeout / 3 == 0 { timeout } else { timeout / 3 }),
{
    let budget = timeout / 3;
    if budget == 0 {
        timeout
    } else {
        budget
    }
}

/// How a search spends its time, in nanoseconds from its start: answers are
/// read until the first value, the searches are sent again at the second,
/// and what is left after the first is kept for the description scan.
pub fn ssdp_schedule(timeout: u128) -> (r: (u128, u128))
    ensures
        r.0 == timeout - (if timeout / 3 == 0 { timeout } else { timeout / 3 }),
        r.1 == r.0 / 2,
{
    let fallback = reserved_fallback_budget(timeout);
    let window = timeout - fallback;
    (window, window / 2)
}

pub open spec fn discovery_request_text(port: u16, target: Seq<char>) -> Seq<char> {
    "M-SEARCH * HTTP/1.1\r\nHOST: 239.255.255.250:"@ + decimal(port as nat)
        + "\r\nMAN: \"ssdp:discover\"\r\nMX: 3\r\nST: "@ + target
        + "\r\nUSER-AGENT: Rust/std UPnP/1.1 denon-avr-remote/0.1\r\n\r\n"@
}

/// An SSDP `M-SEARCH` for `target` sent to the multicast group on `port`.
pub fn discovery_request(port: u16, target: &str) -> (r: String)
    ensures
        r@ == discovery_request_text(port, target@),
{
    let mut out: Vec<char> = Vec::new();
    push_str(&mut out, "M-SEARCH * HTTP/1.1\r\nHOST: 239.255.255.250:");
    let p = decimal_exec(port as u64);
    push_chars(&mut out, &p);
    push_str(&mut out, "\r\nMAN: \"ssdp:discover\"\r\nMX: 3\r\nST: ");
    push_str(&mut out, target);
    push_str(&mut out, "\r\nUSER-AGENT: Rust/std UPnP/1.1 denon-avr-remote/0.1\r\n\r\n");
    assert(out@ =~= discovery_request_text(port, target@));
    string_of(&out)
}

/// The headers of an SSDP answer, as a `BTreeMap` keeps them: by trimmed
/// lower-case name, in name order, the last of equal names winning.
pub open spec fn header_table(ls: Seq<Seq<char>>) -> Seq<(Seq<char>, Seq<char>)>
    decreases ls.len(),
{
    if ls.len() <= 1 {
        seq![]
    } else {
        let line = ls.last();
        let rest = header_table(ls.drop_last());
        let i = first_index(line, ':');
        if i < 0 {
            rest
        } else {
            sorted_insert(rest, lower_seq(trim(line.take(i))), trim(line.skip(i + 1)))
        }
    }
}

pub open spec fn opt_text(o: Option<String>) -> Option<Seq<char>> {
    match o {
        Some(s) => Some(s@),
        None => None,
    }
}

pub open spec fn or_else(a: Option<Seq<char>>, b: Option<Seq<char>>) -> Option<Seq<char>> {
    match a {
        Some(x) => Some(x),
        None => b,
    }
}

/// What an answer says of the receiver that sent it from `host`:`port`.
pub open spec fn answer_matches(headers: Seq<(Seq<char>, Seq<char>)>, host: Seq<char>, port: u16, r: DiscoveredReceiver) -> bool {
    &&& r.address.host@ == host
    &&& r.address.port == port
    &&& opt_text(r.location) == entry_at(headers, "location"@)
    &&& opt_text(r.server) == entry_at(headers, "server"@)
    &&& opt_text(r.model) == or_else(entry_at(headers, "model"@), entry_at(headers, "friendlyname"@))
    &&& opt_text(r.search_target) == entry_at(headers, "st"@)
    &&& opt_text(r.unique_service_name) == entry_at(headers, "usn"@)
}

fn header(table: &Vec<(String, String)>, name: &str) -> (r: Option<String>)
    ensures
        opt_text(r) == entry_at(text_pairs(table@), name@),
{
    let wanted = chars_of(name);
    let ghost t = text_pairs(table@);
    let mut i: usize = 0;
    while i < table.len()
        invariant
            i <= table@.len(),
            t == text_pairs(table@),
            wanted@ == name@,
            forall|j: int| 0 <= j < i ==> crate::text::text_lt(#[trigger] t[j].0, name@),
        decreases table@.len() - i,
    {
        let key = chars_of(table[i].0.as_str());
        assert(t[i as int] == (key@, table@[i as int].1@));
        match crate::text::text_order(&key, &wanted) {
            crate::text::TextOrder::Before => {
                i += 1;
            },
            crate::text::TextOrder::Same => {
                proof {
                    crate::table::lemma_slot(t, name@, i as int);
                }
                return Some(table[i].1.clone());
            },
            crate::text::TextOrder::After => {
                proof {
                    crate::table::lemma_slot(t, name@, i as int);
                    crate::text::lemma_text_lt_irreflexive(name@);
                }
                return None;
            },
        }
    }
    proof {
        crate::table::lemma_slot(t, name@, i as int);
    }
    None
}

/// Reads an SSDP answer that came from `host`:`port`.
pub fn parse_response(packet: &[u8], host: &str, port: u16) -> (r: Result<DiscoveredReceiver, DiscoveryError>)
    ensures
        !vstd::utf8::valid_utf8(packet@) ==> (r matches Err(DiscoveryError::InvalidResponse(m)) && m@ == "response is not UTF-8"@),
        vstd::utf8::valid_utf8(packet@) ==> ({
            let headers = header_table(lines(vstd::utf8::decode_utf8(packet@)));
            &&& headers.len() == 0 ==> (r matches Err(DiscoveryError::InvalidResponse(m)) && m@ == "no headers"@)
            &&& headers.len() > 0 ==> (r matches Ok(receiver) && answer_matches(headers, host@, port, receiver))
        }),
{
    let text = match utf8_str(packet) {
        Ok(t) => t,
        Err(_) => return Err(DiscoveryError::InvalidResponse(owned("response is not UTF-8"))),
    };
    let chars = chars_of(text);
    let ls = lines_exec(&chars);
    let ghost gl = lines(chars@);
    let mut table: Vec<(String, String)> = Vec::new();
    let mut i: usize = if ls.len() > 0 { 1 } else { 0 };
    assert(gl.take(i as int).len() <= 1);
    assert(text_pairs(table@) =~= header_table(gl.take(i as int)));
    while i < ls.len()
        invariant
            1 <= i <= ls@.len() || (i == 0 && ls@.len() == 0),
            gl == lines(chars@),
            ls@.len() == gl.len(),
            forall|k: int| 0 <= k < ls@.len() ==> #[trigger] ls@[k]@ == gl[k],
            text_pairs(table@) == header_table(gl.take(i as int)),
        decreases ls@.len() - i,
    {
        let line: Vec<char> = sub_vec(&ls[i], 0, ls[i].len());
        assert(line@ =~= gl[i as int]);
        assert(gl.take(i + 1).drop_last() =~= gl.take(i as int));
        assert(gl.take(i + 1).last() == gl[i as int]);
        proof {
            lemma_first_index(line@, ':');
        }
        match index_of(&line, ':') {
            None => {},
            Some(colon) => {
                let name = lower_vec(&trim_vec(&sub_vec(&line, 0, colon)));
                assert(line@.take(colon as int) =~= sub_vec_spec(line@, 0, colon as int));
                let value = trim_vec(&sub_vec(&line, colon + 1, line.len()));
                assert(line@.skip(colon + 1) =~= sub_vec_spec(line@, colon + 1, line@.len() as int));
                insert_sorted(&mut table, string_of(&name), string_of(&value));
            },
        }
        i += 1;
    }
    assert(gl.take(i as int) =~= gl);
    if table.len() == 0 {
        return Err(DiscoveryError::InvalidResponse(owned("no headers")));
    }
    let model = match header(&table, "model") {
        Some(m) => Some(m),
        None => header(&table, "friendlyname"),
    };
    Ok(DiscoveredReceiver {
        address: ReceiverEndpoint { host: owned(host), port },
        location: header(&table, "location"),
        server: header(&table, "server"),
        model,
        search_target: header(&table, "st"),
        unique_service_name: header(&table, "usn"),
    })
}

pub open spec fn sub_vec_spec(s: Seq<char>, a: int, b: int) -> Seq<char> {
    s.subrange(a, b)
}

/// One of the names the Denon family goes by occurs in `value`, in any case.
pub open spec fn names_denon_family(value: Seq<char>) -> bool {
    let v = lower_seq(value);
    contains_seq(v, "denon"@) || contains_seq(v, "marantz"@) || contains_seq(v, "heos"@) || contains_seq(v, "aios"@)
}

/// A reported field names the family exactly when, ignoring case, it
/// contains `denon`, `marantz`, `heos` or `aios`.
pub proof fn lemma_family_words(value: Seq<char>)
    ensures
        contains_seq(lower_seq(value), "denon"@) ==> names_denon_family(value),
        contains_seq(lower_seq(value), "marantz"@) ==> names_denon_family(value),
        contains_seq(lower_seq(value), "heos"@) ==> names_denon_family(value),
        contains_seq(lower_seq(value), "aios"@) ==> names_denon_family(value),
        names_denon_family(value) ==> contains_seq(lower_seq(value), "denon"@) || contains_seq(lower_seq(value), "marantz"@)
            || contains_seq(lower_seq(value), "heos"@) || contains_seq(lower_seq(value), "aios"@),
{
}

pub open spec fn field_names_family(field: Option<String>) -> bool {
    match field {
        Some(v) => names_denon_family(v@),
        None => false,
    }
}

fn names_family(field: &Option<String>) -> (r: bool)
    ensures
        r == field_names_family(*field),
{
    match field {
        None => false,
        Some(v) => {
            let lower = lower_vec(&chars_of(v.as_str()));
            contains(&lower, &chars_of("denon")) || contains(&lower, &chars_of("marantz"))
                || contains(&lower, &chars_of("heos")) || contains(&lower, &chars_of("aios"))
        },
    }
}

/// Whether anything the receiver reported names the Denon family.
pub fn is_denon_family(receiver: &DiscoveredReceiver) -> (r: bool)
    ensures
        r == (field_names_family(receiver.location) || field_names_family(receiver.server)
            || field_names_family(receiver.model) || field_names_family(receiver.search_target)
            || field_names_family(receiver.unique_service_name)),
{
    names_family(&receiver.location) || names_family(&receiver.server) || names_family(&receiver.model)
        || names_family(&receiver.search_target) || names_family(&receiver.unique_service_name)
}

/// Two answers name one receiver when host and location agree.
pub fn receiver_key(receiver: &DiscoveredReceiver) -> (r: (String, Option<String>))
    ensures
        r.0@ == receiver.address.host@,
        opt_text(r.1) == opt_text(receiver.location),
{
    let location = match &receiver.location {
        Some(l) => Some(owned(l.as_str())),
        None => None,
    };
    (owned(receiver.address.host.as_str()), location)
}

/// The trimmed text of the first `<tag>` element of `xml`.
#[verifier::opaque]
pub open spec fn xml_tag_of(xml: Seq<char>, tag: Seq<char>) -> Option<Seq<char>> {
    let open = "<"@ + tag + ">"@;
    let close = "</"@ + tag + ">"@;
    match find_seq(xml, open) {
        None => None,
        Some(i) => {
            let start = i + open.len();
            match find_seq(xml.skip(start), close) {
                None => None,
                Some(j) => Some(trim(xml.subrange(start, start + j))),
            }
        },
    }
}

#[verifier::rlimit(40)]
pub fn xml_tag(xml: &str, tag: &str) -> (r: Option<String>)
    ensures
        opt_text(r) == xml_tag_of(xml@, tag@),
{
    reveal(xml_tag_of);
    let x = chars_of(xml);
    let mut open: Vec<char> = Vec::new();
    push_str(&mut open, "<");
    push_str(&mut open, tag);
    push_str(&mut open, ">");
    let mut close: Vec<char> = Vec::new();
    push_str(&mut close, "</");
    push_str(&mut close, tag);
    push_str(&mut close, ">");
    assert(open@ =~= "<"@ + tag@ + ">"@);
    assert(close@ =~= "</"@ + tag@ + ">"@);
    let i = match crate::text::find(&x, &open) {
        None => return None,
        Some(i) => i,
    };
    assert(occurs_at(x@, open@, i as int));
    assert(occurs_at(x@, open@, i as int));
    let total = x.len();
    assert(i + open@.len() <= total);
    let start = i + open.len();
    let rest = sub_vec(&x, start, x.len());
    assert(rest@ =~= x@.skip(start as int));
    let j = match crate::text::find(&rest, &close) {
        None => return None,
        Some(j) => j,
    };
    let inner = sub_vec(&x, start, start + j);
    Some(string_of(&trim_vec(&inner)))
}


/// What a device description served by `host`:`port` says, when it is a
/// Denon or Marantz one.
pub open spec fn description_matches(xml: Seq<char>, host: Seq<char>, port: u16, r: Option<DiscoveredReceiver>) -> bool {
    match xml_tag_of(xml, "manufacturer"@) {
        None => r is None,
        Some(manufacturer) => if !(lower_seq(manufacturer) == "denon"@ || lower_seq(manufacturer) == "marantz"@) {
            r is None
        } else {
            r matches Some(d) && {
                &&& d.address.host@ == host
                &&& d.address.port == port
                &&& opt_text(d.location) == Some("http://"@ + host + ":60006/upnp/desc/aios_device/aios_device.xml"@)
                &&& opt_text(d.server) == Some(manufacturer + " UPnP"@)
                &&& opt_text(d.model) == or_else(xml_tag_of(xml, "modelName"@), xml_tag_of(xml, "friendlyName"@))
                &&& opt_text(d.search_target) == xml_tag_of(xml, "deviceType"@)
                &&& opt_text(d.unique_service_name) == xml_tag_of(xml, "UDN"@)
            }
        },
    }
}

pub fn parse_description(xml: &str, host: &str, port: u16) -> (r: Option<DiscoveredReceiver>)
    ensures
        description_matches(xml@, host@, port, r),
{
    let manufacturer = match xml_tag(xml, "manufacturer") {
        None => return None,
        Some(m) => m,
    };
    let lower = lower_vec(&chars_of(manufacturer.as_str()));
    if !(crate::text::eq_chars(&lower, &chars_of("denon")) || crate::text::eq_chars(&lower, &chars_of("marantz"))) {
        return None;
    }
    let model = match xml_tag(xml, "modelName") {
        Some(m) => Some(m),
        None => xml_tag(xml, "friendlyName"),
    };
    let mut location: Vec<char> = Vec::new();
    push_str(&mut location, "http://");
    push_str(&mut location, host);
    push_str(&mut location, ":60006/upnp/desc/aios_device/aios_device.xml");
    let mut server = chars_of(manufacturer.as_str());
    push_str(&mut server, " UPnP");
    assert(location@ =~= "http://"@ + host@ + ":60006/upnp/desc/aios_device/aios_device.xml"@);
    assert(server@ =~= manufacturer@ + " UPnP"@);
    Some(DiscoveredReceiver {
        address: ReceiverEndpoint { host: owned(host), port },
        location: Some(string_of(&location)),
        server: Some(string_of(&server)),
        model,
        search_target: xml_tag(xml, "deviceType"),
        unique_service_name: xml_tag(xml, "UDN"),
    })
}


/// The request for a receiver's device description at `host`.
pub fn description_request(host: &str) -> (r: String)
    ensures
        r@ == "GET "@ + DESCRIPTION_PATH@ + " HTTP/1.0\r\nHost: "@ + host@ + ":"@ + decimal(
            DESCRIPTION_PORT as nat) + "\r\nConnection: close\r\n\r\n"@,
{
    let mut v = chars_of("GET ");
    push_str(&mut v, DESCRIPTION_PATH);
    push_str(&mut v, " HTTP/1.0\r\nHost: ");
    push_str(&mut v, host);
    push_str(&mut v, ":");
    push_chars(&mut v, &decimal_exec(DESCRIPTION_PORT as u64));
    push_str(&mut v, "\r\nConnection: close\r\n\r\n");
    string_of(&v)
}

/// The body of a description response: what follows the first blank line,
/// CR LF or bare LF.
pub open spec fn description_body_of(text: Seq<char>) -> Option<Seq<char>> {
    match find_seq(text, "\r\n\r\n"@) {
        Some(i) => Some(text.skip(i + 4)),
        None => match find_seq(text, "\n\n"@) {
            Some(i) => Some(text.skip(i + 2)),
            None => None,
        },
    }
}

/// The body of a description response, if the response is text with a blank line.
pub fn description_body(response: &[u8]) -> (r: Option<String>)
    ensures
        !vstd::utf8::valid_utf8(response@) ==> r is None,
        vstd::utf8::valid_utf8(response@) ==> (match description_body_of(vstd::utf8::decode_utf8(response@)) {
            Some(b) => r matches Some(x) && x@ == b,
            None => r is None,
        }),
{
    let text = match utf8_str(response) {
        Ok(t) => t,
        Err(_) => return None,
    };
    let chars = chars_of(text);
    let crlf = chars_of("\r\n\r\n");
    let lf = chars_of("\n\n");
    proof {
        reveal_strlit("\r\n\r\n");
        reveal_strlit("\n\n");
    }
    assert(crlf@.len() == 4 && lf@.len() == 2);
    match after_first(&chars, &crlf) {
        Some(body) => Some(string_of(&body)),
        None => match after_first(&chars, &lf) {
            Some(body) => Some(string_of(&body)),
            None => None,
        },
    }
}

/// The key a discovered receiver is filed under: its host and its location.
pub open spec fn key_of(r: DiscoveredReceiver) -> (Seq<char>, Option<Seq<char>>) {
    (r.address.host@, opt_text(r.location))
}

/// The order of keys: by host, then no location before a location, then by location.
pub open spec fn key_lt(a: (Seq<char>, Option<Seq<char>>), b: (Seq<char>, Option<Seq<char>>)) -> bool {
    text_lt(a.0, b.0) || (a.0 == b.0 && match (a.1, b.1) {
        (None, Some(_)) => true,
        (Some(x), Some(y)) => text_lt(x, y),
        _ => false,
    })
}

/// Receivers listed in key order, no key twice.
pub open spec fn keyed(s: Seq<DiscoveredReceiver>) -> bool {
    forall|i: int, j: int| 0 <= i < j < s.len() ==> key_lt(key_of(s[i]), key_of(s[j]))
}

proof fn lemma_key_order(a: (Seq<char>, Option<Seq<char>>), b: (Seq<char>, Option<Seq<char>>), c: (Seq<char>, Option<Seq<char>>))
    ensures
        !key_lt(a, a),
        key_lt(a, b) || a == b || key_lt(b, a),
        key_lt(a, b) && key_lt(b, c) ==> key_lt(a, c),
{
    lemma_text_lt_irreflexive(a.0);
    lemma_text_lt_total(a.0, b.0);
    if text_lt(a.0, b.0) && text_lt(b.0, c.0) {
        lemma_text_lt_transitive(a.0, b.0, c.0);
    }
    if a.1 is Some {
        lemma_text_lt_irreflexive(a.1->0);
    }
    if a.1 is Some && b.1 is Some {
        lemma_text_lt_total(a.1->0, b.1->0);
    }
    if a.1 is Some && b.1 is Some && c.1 is Some && text_lt(a.1->0, b.1->0) && text_lt(b.1->0, c.1->0) {
        lemma_text_lt_transitive(a.1->0, b.1->0, c.1->0);
    }
    if key_lt(a, b) && key_lt(b, c) {
        if a.0 == b.0 && b.0 == c.0 {
        } else if text_lt(a.0, b.0) && b.0 == c.0 {
        } else if a.0 == b.0 && text_lt(b.0, c.0) {
        } else {
        }
    }
}

enum KeyOrder {
    Before,
    Same,
    After,
}

fn key_order(a: &DiscoveredReceiver, b: &DiscoveredReceiver) -> (r: KeyOrder)
    ensures
        r is Before <==> key_lt(key_of(*a), key_of(*b)),
        r is Same <==> key_of(*a) == key_of(*b),
        r is After <==> key_lt(key_of(*b), key_of(*a)),
{
    proof {
        lemma_key_order(key_of(*a), key_of(*b), key_of(*a));
        lemma_key_order(key_of(*b), key_of(*a), key_of(*b));
    }
    match text_order(&chars_of(a.address.host.as_str()), &chars_of(b.address.host.as_str())) {
        TextOrder::Before => KeyOrder::Before,
        TextOrder::After => KeyOrder::After,
        TextOrder::Same => match (&a.location, &b.location) {
            (None, None) => KeyOrder::Same,
            (None, Some(_)) => KeyOrder::Before,
            (Some(_), None) => KeyOrder::After,
            (Some(x), Some(y)) => match text_order(&chars_of(x.as_str()), &chars_of(y.as_str())) {
                TextOrder::Before => KeyOrder::Before,
                TextOrder::Same => KeyOrder::Same,
                TextOrder::After => KeyOrder::After,
            },
        },
    }
}

/// Files a receiver under its key unless that key is already known: the first
/// answer for a host and location is the one kept, and the receivers stay in
/// key order.
pub fn record_receiver(found: &mut Vec<DiscoveredReceiver>, receiver: DiscoveredReceiver)
    requires
        keyed(old(found)@),
    ensures
        keyed(final(found)@),
        (exists|i: int| 0 <= i < old(found)@.len() && key_of(old(found)@[i]) == key_of(receiver))
            ==> final(found)@ == old(found)@,
        !(exists|i: int| 0 <= i < old(found)@.len() && key_of(old(found)@[i]) == key_of(receiver))
            ==> (exists|k: int| 0 <= k <= old(found)@.len() && final(found)@ == old(found)@.insert(k, receiver)),
{
    let ghost before = found@;
    let mut i: usize = 0;
    while i < found.len()
        invariant
            found@ == before,
            keyed(before),
            i <= before.len(),
            forall|j: int| 0 <= j < i ==> key_lt(key_of(before[j]), key_of(receiver)),
        ensures
            found@ == before,
            i <= before.len(),
            forall|j: int| 0 <= j < i ==> key_lt(key_of(before[j]), key_of(receiver)),
            i == before.len() || key_lt(key_of(receiver), key_of(before[i as int])),
        decreases before.len() - i,
    {
        match key_order(&found[i], &receiver) {
            KeyOrder::Before => {},
            KeyOrder::Same => {
                return;
            },
            KeyOrder::After => {
                break;
            },
        }
        i += 1;
    }
    proof {
        assert forall|j: int| i <= j < before.len() implies key_lt(key_of(receiver), key_of(#[trigger] before[j])) by {
            if j > i {
                lemma_key_order(key_of(receiver), key_of(before[i as int]), key_of(before[j]));
            }
        }
        assert forall|j: int| 0 <= j < before.len() implies key_of(#[trigger] before[j]) != key_of(receiver) by {
            lemma_key_order(key_of(receiver), key_of(receiver), key_of(receiver));
        }
    }
    found.insert(i, receiver);
    proof {
        let after = found@;
        assert(after == before.insert(i as int, receiver));
        assert forall|a: int, b: int| 0 <= a < b < after.len() implies key_lt(key_of(after[a]), key_of(after[b])) by {
            if b < i {
            } else if a < i && b == i {
            } else if a < i {
                assert(after[b] == before[b - 1]);
                lemma_key_order(key_of(before[a]), key_of(receiver), key_of(before[b - 1]));
            } else if a == i {
                assert(after[b] == before[b - 1]);
            } else {
                assert(after[a] == before[a - 1]);
                assert(after[b] == before[b - 1]);
            }
        }
    }
}

/// A receiver with what its device description adds: the description's
/// model, location, search target and unique service name where it has them.
pub fn merge_description(receiver: DiscoveredReceiver, description: DiscoveredReceiver) -> (r: DiscoveredReceiver)
    ensures
        r.address == receiver.address,
        r.server == receiver.server,
        r.model == (if description.model is Some { description.model } else { receiver.model }),
        r.location == (if description.location is Some { description.location } else { receiver.location }),
        r.search_target == (if description.search_target is Some { description.search_target } else { receiver.search_target }),
        r.unique_service_name == (if description.unique_service_name is Some { description.unique_service_name } else { receiver.unique_service_name }),
{
    let DiscoveredReceiver { address, location, server, model, search_target, unique_service_name } = receiver;
    DiscoveredReceiver {
        address,
        server,
        model: match description.model {
            Some(m) => Some(m),
            None => model,
        },
        location: match description.location {
            Some(l) => Some(l),
            None => location,
        },
        search_target: match description.search_target {
            Some(t) => Some(t),
            None => search_target,
        },
        unique_service_name: match description.unique_service_name {
            Some(u) => Some(u),
            None => unique_service_name,
        },
    }
}

/// An IPv4 address in a private range (`10/8`, `172.16/12`, `192.168/16`),
/// the address taken as a big-endian number.
pub open spec fn private_ipv4(ip: u32) -> bool {
    (0x0A000000 <= ip <= 0x0AFFFFFF) || (0xAC100000 <= ip <= 0xAC1FFFFF) || (0xC0A80000 <= ip <= 0xC0A8FFFF)
}

/// The interface addresses discovery searches from: the private ones, in
/// ascending order, each once. (A private address is never a loopback one.)
pub fn private_ipv4_addresses(addresses: &[u32]) -> (r: Vec<u32>)
    ensures
        forall|i: int, j: int| 0 <= i < j < r@.len() ==> r@[i] < r@[j],
        forall|x: u32| r@.contains(x) <==> (addresses@.contains(x) && private_ipv4(x)),
{
    let mut out: Vec<u32> = Vec::new();
    let mut i: usize = 0;
    while i < addresses.len()
        invariant
            i <= addresses@.len(),
            forall|a: int, b: int| 0 <= a < b < out@.len() ==> out@[a] < out@[b],
            forall|x: u32| #[trigger] out@.contains(x) <==> (addresses@.take(i as int).contains(x) && private_ipv4(x)),
        decreases addresses@.len() - i,
    {
        let ip = addresses[i];
        let ghost seen = addresses@.take(i as int);
        let ghost prev = out@;
        assert(addresses@.take(i + 1) =~= seen.push(ip));
        if (0x0A000000 <= ip && ip <= 0x0AFFFFFF) || (0xAC100000 <= ip && ip <= 0xAC1FFFFF) || (0xC0A80000 <= ip && ip <= 0xC0A8FFFF) {
            let mut k: usize = 0;
            while k < out.len() && out[k] < ip
                invariant
                    k <= out@.len(),
                    out@ == prev,
                    forall|a: int| 0 <= a < k ==> out@[a] < ip,
                    forall|a: int, b: int| 0 <= a < b < prev.len() ==> prev[a] < prev[b],
                    forall|x: u32| #[trigger] prev.contains(x) <==> (seen.contains(x) && private_ipv4(x)),
                decreases out@.len() - k,
            {
                k += 1;
            }
            if k < out.len() && out[k] == ip {
                proof {
                    assert forall|x: u32| #[trigger] out@.contains(x) <==> (addresses@.take(i + 1).contains(x) && private_ipv4(x)) by {
                        assert(addresses@.take(i + 1) == seen.push(ip));
                        lemma_push_contains(seen, ip, x);
                        assert(prev.contains(x) <==> (seen.contains(x) && private_ipv4(x)));
                        if x == ip {
                            assert(out@[k as int] == x);
                        }
                    }
                }
            } else {
                out.insert(k, ip);
                proof {
                    assert(out@ == prev.insert(k as int, ip));
                    assert forall|a: int, b: int| 0 <= a < b < out@.len() implies out@[a] < out@[b] by {
                        if b < k {
                        } else if a < k && b == k {
                        } else if a < k {
                            assert(out@[b] == prev[b - 1]);
                            if b - 1 > k {
                                assert(prev[k as int] < prev[b - 1]);
                            }
                        } else if a == k {
                            assert(out@[b] == prev[b - 1]);
                            if b - 1 > k {
                                assert(prev[k as int] < prev[b - 1]);
                            }
                        } else {
                            assert(out@[a] == prev[a - 1]);
                            assert(out@[b] == prev[b - 1]);
                        }
                    }
                    assert forall|x: u32| #[trigger] out@.contains(x) <==> (addresses@.take(i + 1).contains(x) && private_ipv4(x)) by {
                        assert(addresses@.take(i + 1) == seen.push(ip));
                        lemma_push_contains(seen, ip, x);
                        lemma_insert_contains(prev, k as int, ip, x);
                        assert(prev.contains(x) <==> (seen.contains(x) && private_ipv4(x)));
                    }
                }
            }
        } else {
            proof {
                assert forall|x: u32| #[trigger] out@.contains(x) <==> (addresses@.take(i + 1).contains(x) && private_ipv4(x)) by {
                        assert(addresses@.take(i + 1) == seen.push(ip));
                    lemma_push_contains(seen, ip, x);
                }
            }
        }
        i += 1;
    }
    assert(addresses@.take(i as int) =~= addresses@);
    assert forall|x: u32| out@.contains(x) <==> (addresses@.contains(x) && private_ipv4(x)) by {
        assert(out@.contains(x) <==> (addresses@.take(i as int).contains(x) && private_ipv4(x)));
    }
    out
}

proof fn lemma_push_contains(s: Seq<u32>, v: u32, x: u32)
    ensures
        s.push(v).contains(x) <==> (s.contains(x) || x == v),
{
    if s.contains(x) {
        let t = choose|t: int| 0 <= t < s.len() && s[t] == x;
        assert(s.push(v)[t] == x);
    }
    if x == v {
        assert(s.push(v)[s.len() as int] == x);
    }
    if s.push(v).contains(x) && x != v {
        let t = choose|t: int| 0 <= t < s.push(v).len() && s.push(v)[t] == x;
        assert(s[t] == x);
    }
}

proof fn lemma_insert_contains(s: Seq<u32>, k: int, v: u32, x: u32)
    requires
        0 <= k <= s.len(),
    ensures
        s.insert(k, v).contains(x) <==> (s.contains(x) || x == v),
{
    let n = s.insert(k, v);
    if s.contains(x) {
        let t = choose|t: int| 0 <= t < s.len() && s[t] == x;
        if t < k {
            assert(n[t] == x);
        } else {
            assert(n[t + 1] == x);
        }
    }
    if x == v {
        assert(n[k] == x);
    }
    if n.contains(x) && x != v {
        let t = choose|t: int| 0 <= t < n.len() && n[t] == x;
        if t < k {
            assert(s[t] == x);
        } else {
            assert(s[t - 1] == x);
        }
    }
}


/// The hosts `.1` to `.254` of the `/24` network of `local`, in order, without `local`.
pub open spec fn subnet_candidates(local: u32) -> Seq<u32> {
    subnet_hosts(local).filter(other_than(local))
}

/// The hosts `.1` to `.254` of the `/24` network of `local`.
pub open spec fn subnet_hosts(local: u32) -> Seq<u32> {
    Seq::new(254, |h: int| (local - local % 256 + h + 1) as u32)
}

pub open spec fn other_than(local: u32) -> spec_fn(u32) -> bool {
    |c: u32| c != local
}

/// The candidates of every interface, one interface after the other.
pub open spec fn all_candidates(interfaces: Seq<u32>) -> Seq<u32>
    decreases interfaces.len(),
{
    if interfaces.len() == 0 {
        seq![]
    } else {
        all_candidates(interfaces.drop_last()) + subnet_candidates(interfaces.last())
    }
}

/// The first occurrence of every value, in order.
pub open spec fn first_occurrences(s: Seq<u32>) -> Seq<u32>
    decreases s.len(),
{
    if s.len() == 0 {
        seq![]
    } else {
        let d = first_occurrences(s.drop_last());
        if d.contains(s.last()) {
            d
        } else {
            d.push(s.last())
        }
    }
}

/// The addresses a description scan probes when SSDP found nothing: every
/// other host of each interface's `/24` network, each address once, in the
/// order the interfaces and hosts come.
pub fn scan_candidates(interfaces: &[u32]) -> (r: Vec<u32>)
    ensures
        r@ == first_occurrences(all_candidates(interfaces@)),
{
    let mut out: Vec<u32> = Vec::new();
    let mut i: usize = 0;
    assert(interfaces@.take(0) =~= Seq::<u32>::empty());
    while i < interfaces.len()
        invariant
            i <= interfaces@.len(),
            out@ == first_occurrences(all_candidates(interfaces@.take(i as int))),
        decreases interfaces@.len() - i,
    {
        let local = interfaces[i];
        let base: u32 = local - local % 256;
        let ghost done = all_candidates(interfaces@.take(i as int));
        let ghost hosts = subnet_hosts(local);
        let ghost keep = other_than(local);
        assert(interfaces@.take(i + 1).drop_last() =~= interfaces@.take(i as int));
        assert(all_candidates(interfaces@.take(i + 1)) == done + subnet_candidates(local));
        assert(hosts.take(0) =~= Seq::<u32>::empty());
        assert(hosts.take(0).filter(keep) =~= Seq::<u32>::empty()) by {
            reveal_with_fuel(Seq::<u32>::filter, 1);
        }
        assert(done + hosts.take(0).filter(keep) =~= done);
        assert(subnet_candidates(local) == hosts.filter(keep));
        let mut h: u32 = 1;
        while h <= 254
            invariant
                1 <= h <= 255,
                base == local - local % 256,
                hosts == subnet_hosts(local),
                keep == other_than(local),
                out@ == first_occurrences(done + hosts.take(h - 1).filter(keep)),
                i < interfaces@.len(),
                all_candidates(interfaces@.take(i + 1)) == done + subnet_candidates(local),
                subnet_candidates(local) == hosts.filter(keep),
            decreases 255 - h,
        {
            let candidate = base + h;
            let ghost before = done + hosts.take(h - 1).filter(keep);
            assert(hosts[h - 1] == candidate);
            assert(hosts.take(h as int).drop_last() =~= hosts.take(h - 1));
            assert(hosts.take(h as int).filter(keep) == if keep(candidate) {
                hosts.take(h - 1).filter(keep).push(candidate)
            } else {
                hosts.take(h - 1).filter(keep)
            }) by {
                reveal_with_fuel(Seq::<u32>::filter, 1);
            }
            if candidate != local {
                let mut seen = false;
                let mut k: usize = 0;
                while k < out.len()
                    invariant
                        k <= out@.len(),
                        seen <==> (exists|t: int| 0 <= t < k && out@[t] == candidate),
                    decreases out@.len() - k,
                {
                    if out[k] == candidate {
                        seen = true;
                    }
                    k += 1;
                }
                assert(seen <==> out@.contains(candidate));
                assert((before.push(candidate)).drop_last() =~= before);
                assert(done + hosts.take(h as int).filter(keep) =~= before.push(candidate));
                if !seen {
                    out.push(candidate);
                }
            } else {
                assert(done + hosts.take(h as int).filter(keep) =~= before);
            }
            h += 1;
        }
        assert(hosts.take(254) =~= hosts);
        i += 1;
    }
    assert(interfaces@.take(i as int) =~= interfaces@);
    out
}

} // verus!
