//! Shared, transport-independent AVR response correlation and field parsing.
use crate::text::{all_digits, chars_of, decimal, decimal_exec, digit_char, digit_char_exec, digits_upto, eq_chars, first_index, has_prefix, index_of, is_digit, lemma_first_index, matches_at, owned, parse_signed, parse_unsigned_exec, push_chars, push_str, starts_with, str_eq, string_of, string_range, sub_vec};
use crate::avr::{volume_accepts, volume_code_text};
use crate::protocol::avr::response::lemma_two_digits;
use crate::text::decimal2;
use vstd::prelude::*;
use vstd::string::StrSliceExecFns;

verus! {

/// The part of a command before its first `?`.
pub open spec fn family_of(command: Seq<char>) -> Seq<char> {
    let i = first_index(command, '?');
    if i < 0 {
        command
    } else {
        command.take(i)
    }
}

pub fn command_family(command: &str) -> (r: &str)
    ensures
        r@ == family_of(command@),
{
    let chars = chars_of(command);
    proof {
        lemma_first_index(command@, '?');
    }
    match index_of(&chars, '?') {
        Some(i) => command.substring_char(0, i),
        None => {
            assert(command@.subrange(0, command@.len() as int) =~= command@);
            command.substring_char(0, chars.len())
        },
    }
}

/// A response belongs to a family when it starts with it; `MV` further
/// requires `---` or a non-empty run of digits after the prefix.
pub open spec fn matches_family(family: Seq<char>, response: Seq<char>) -> bool {
    let suffix = response.skip(family.len() as int);
    has_prefix(response, family) && (family != seq!['M', 'V'] || suffix == seq!['-', '-', '-'] || (
    suffix.len() > 0 && all_digits(suffix)))
}

pub fn all_digits_from(v: &[char], from: usize) -> (r: bool)
    requires
        from <= v@.len(),
    ensures
        r == all_digits(v@.skip(from as int)),
{
    let mut i = from;
    while i < v.len()
        invariant
            from <= i <= v@.len(),
            forall|j: int| from <= j < i ==> is_digit(v@[j]),
        decreases v@.len() - i,
    {
        if !('0' <= v[i] && v[i] <= '9') {
            assert(v@.skip(from as int)[i - from] == v@[i as int]);
            return false;
        }
        i += 1;
    }
    assert forall|j: int| 0 <= j < v@.skip(from as int).len() implies is_digit(
        v@.skip(from as int)[j],
    ) by {
        assert(v@.skip(from as int)[j] == v@[from + j]);
    }
    true
}

/// Whether `rest` equals `v[from..]`.
pub fn rest_equals(v: &[char], from: usize, rest: &[char]) -> (r: bool)
    requires
        from <= v@.len(),
    ensures
        r == (v@.skip(from as int) == rest@),
{
    if v.len() - from != rest.len() {
        return false;
    }
    let r = matches_at(v, from, rest);
    assert(v@.skip(from as int) =~= v@.subrange(from as int, from + rest@.len()));
    r
}

pub fn response_matches(family: &str, response: &str) -> (r: bool)
    ensures
        r == matches_family(family@, response@),
{
    let f = chars_of(family);
    let v = chars_of(response);
    if !starts_with(&v, &f) {
        return false;
    }
    let mv: Vec<char> = vec!['M', 'V'];
    if !eq_chars(&f, &mv) {
        return true;
    }
    let dashes: Vec<char> = vec!['-', '-', '-'];
    if rest_equals(&v, f.len(), &dashes) {
        return true;
    }
    f.len() < v.len() && all_digits_from(&v, f.len())
}

/// `"unexpected {name} response {response}"`.
pub open spec fn unexpected_text(name: Seq<char>, response: Seq<char>) -> Seq<char> {
    "unexpected "@ + name + " response "@ + response
}

pub fn unexpected_message(name: &str, response: &str) -> (r: String)
    ensures
        r@ == unexpected_text(name@, response@),
{
    let mut v: Vec<char> = Vec::new();
    push_str(&mut v, "unexpected ");
    push_str(&mut v, name);
    push_str(&mut v, " response ");
    push_str(&mut v, response);
    string_of(&v)
}

pub open spec fn power_result(response: Seq<char>) -> Result<Seq<char>, Seq<char>> {
    if response == "PWON"@ {
        Ok("on"@)
    } else if response == "PWSTANDBY"@ {
        Ok("standby"@)
    } else {
        Err(unexpected_text("power"@, response))
    }
}

pub open spec fn result_view(r: Result<String, String>) -> Result<Seq<char>, Seq<char>> {
    match r {
        Ok(v) => Ok(v@),
        Err(e) => Err(e@),
    }
}

pub fn parse_power(response: &str) -> (r: Result<String, String>)
    ensures
        result_view(r) == power_result(response@),
{
    if str_eq(response, "PWON") {
        Ok(owned("on"))
    } else if str_eq(response, "PWSTANDBY") {
        Ok(owned("standby"))
    } else {
        Err(unexpected_message("power", response))
    }
}

/// The non-empty text after `prefix`, or the unexpected-response message.
pub open spec fn prefixed_result(response: Seq<char>, prefix: Seq<char>, name: Seq<char>) -> Result<
    Seq<char>,
    Seq<char>,
> {
    if has_prefix(response, prefix) && response.len() > prefix.len() {
        Ok(response.skip(prefix.len() as int))
    } else {
        Err(unexpected_text(name, response))
    }
}

fn prefixed(response: &str, prefix: &str, name: &str) -> (r: Result<String, String>)
    ensures
        result_view(r) == prefixed_result(response@, prefix@, name@),
{
    let v = chars_of(response);
    let p = chars_of(prefix);
    if starts_with(&v, &p) && v.len() > p.len() {
        assert(v@.subrange(p@.len() as int, v@.len() as int) =~= v@.skip(p@.len() as int));
        Ok(string_range(&v, p.len(), v.len()))
    } else {
        Err(unexpected_message(name, response))
    }
}

pub fn parse_input(response: &str) -> (r: Result<String, String>)
    ensures
        result_view(r) == prefixed_result(response@, "SI"@, "input"@),
{
    prefixed(response, "SI", "input")
}

pub fn parse_surround(response: &str) -> (r: Result<String, String>)
    ensures
        result_view(r) == prefixed_result(response@, "MS"@, "surround"@),
{
    prefixed(response, "MS", "surround")
}

/// `{t:.1}` for a value `t / 10`.
pub open spec fn tenths_text(t: int) -> Seq<char> {
    let m = if t < 0 { -t } else { t };
    let body = decimal((m / 10) as nat) + seq!['.', digit_char((m % 10) as nat)];
    if t < 0 {
        seq!['-'] + body
    } else {
        body
    }
}

pub fn tenths_exec(t: i64) -> (r: Vec<char>)
    requires
        -1_000_000 <= t <= 1_000_000,
    ensures
        r@ == tenths_text(t as int),
{
    let m: u64 = if t < 0 { (-t) as u64 } else { t as u64 };
    let mut r: Vec<char> = Vec::new();
    if t < 0 {
        r.push('-');
    }
    let d = decimal_exec(m / 10);
    push_chars(&mut r, &d);
    r.push('.');
    r.push(digit_char_exec(m % 10));
    r
}

/// The parts of a volume code: whether it is a half step (three characters,
/// the last a `5`, after a two-character whole-dB base), and the number before it.
/// A two-character code such as `75` is a whole-dB code, whatever its last digit.
pub open spec fn code_half(code: Seq<char>) -> bool {
    code.len() == 3 && code.last() == '5'
}

pub open spec fn code_base_text(code: Seq<char>) -> Seq<char> {
    if code_half(code) {
        code.drop_last()
    } else {
        code
    }
}

/// A volume code is well formed: a base `00..=98` in two characters, with an
/// optional trailing `5`. The base is read with `i16::from_str`.
pub open spec fn code_valid(code: Seq<char>) -> bool {
    &&& parse_signed(code_base_text(code)) matches Some(b)
    &&& 0 <= b <= 98
    &&& code.len() == if code_half(code) { 3int } else { 2int }
}

pub open spec fn code_base(code: Seq<char>) -> int {
    parse_signed(code_base_text(code)).unwrap()
}

/// Tenths of a dB of a valid code: `80` is 0 dB.
pub open spec fn code_db_tenths(code: Seq<char>) -> int {
    (code_base(code) - 80) * 10 + if code_half(code) { 5int } else { 0int }
}

/// `i16::from_str` restricted to results no larger than 1000 in magnitude.
pub fn parse_small_signed(v: &[char]) -> (r: Option<i64>)
    ensures
        match r {
            Some(x) => parse_signed(v@) == Some(x as int) && -1000 <= x <= 1000,
            None => parse_signed(v@) is None || parse_signed(v@).unwrap() > 1000
                || parse_signed(v@).unwrap() < -1000,
        },
{
    if v.len() > 0 && v[0] == '-' {
        let body = sub_vec(v, 1, v.len());
        assert(body@ =~= v@.drop_first());
        if body.len() == 0 {
            return None;
        }
        let mut i: usize = 0;
        while i < body.len()
            invariant
                i <= body@.len(),
                body@ == v@.drop_first(),
                v@.len() > 0 && v@[0] == '-',
                forall|j: int| 0 <= j < i ==> is_digit(body@[j]),
            decreases body@.len() - i,
        {
            if !('0' <= body[i] && body[i] <= '9') {
                assert(!is_digit(body@[i as int]));
                assert(!all_digits(v@.drop_first()));
                return None;
            }
            i += 1;
        }
        assert(body@.subrange(0, body@.len() as int) =~= body@);
        match digits_upto(&body, 0, body.len(), 1000) {
            Some(x) => Some(-(x as i64)),
            None => None,
        }
    } else {
        match parse_unsigned_exec(v, 1000) {
            Some(x) => Some(x as i64),
            None => None,
        }
    }
}

pub open spec fn volume_result(response: Seq<char>) -> Result<Seq<char>, Seq<char>> {
    if !has_prefix(response, "MV"@) {
        Err(unexpected_text("volume"@, response))
    } else {
        let code = response.skip(2);
        if code == "---"@ {
            Ok("unknown"@)
        } else if code_valid(code) {
            Ok("code "@ + code + " ("@ + tenths_text(code_db_tenths(code)) + " dB)"@)
        } else {
            Err("invalid volume code "@ + code)
        }
    }
}

/// Checks a volume code, returning its tenths of a dB.
pub fn volume_code_tenths(code: &[char]) -> (r: Option<i64>)
    ensures
        r is Some <==> code_valid(code@),
        r matches Some(t) ==> t == code_db_tenths(code@) && -800 <= t <= 185,
{
    let half = code.len() == 3 && code[code.len() - 1] == '5';
    let base_text = if half {
        sub_vec(code, 0, code.len() - 1)
    } else {
        sub_vec(code, 0, code.len())
    };
    assert(base_text@ =~= code_base_text(code@));
    let base = match parse_small_signed(&base_text) {
        Some(b) => b,
        None => return None,
    };
    if !(0 <= base && base <= 98) || (half && code.len() != 3) || (!half && code.len() != 2) {
        return None;
    }
    Some((base - 80) * 10 + if half { 5 } else { 0 })
}

pub fn parse_volume(response: &str) -> (r: Result<String, String>)
    ensures
        result_view(r) == volume_result(response@),
{
    let v = chars_of(response);
    let mv: Vec<char> = vec!['M', 'V'];
    proof {
        reveal_strlit("MV");
        reveal_strlit("---");
        assert(mv@ =~= "MV"@);
    }
    if !starts_with(&v, &mv) {
        return Err(unexpected_message("volume", response));
    }
    let code = sub_vec(&v, 2, v.len());
    assert(code@ =~= response@.skip(2));
    let dashes: Vec<char> = vec!['-', '-', '-'];
    assert(dashes@ =~= "---"@);
    if eq_chars(&code, &dashes) {
        return Ok(owned("unknown"));
    }
    match volume_code_tenths(&code) {
        Some(t) => {
            let mut out: Vec<char> = Vec::new();
            push_str(&mut out, "code ");
            push_chars(&mut out, &code);
            push_str(&mut out, " (");
            let d = tenths_exec(t);
            push_chars(&mut out, &d);
            push_str(&mut out, " dB)");
            Ok(string_of(&out))
        },
        None => {
            let mut out: Vec<char> = Vec::new();
            push_str(&mut out, "invalid volume code ");
            push_chars(&mut out, &code);
            Err(string_of(&out))
        },
    }
}

pub open spec fn mute_result(response: Seq<char>) -> Result<Seq<char>, Seq<char>> {
    if response == "MUON"@ {
        Ok("on"@)
    } else if response == "MUOFF"@ {
        Ok("off"@)
    } else {
        Err(unexpected_text("mute"@, response))
    }
}

pub fn parse_mute(response: &str) -> (r: Result<String, String>)
    ensures
        result_view(r) == mute_result(response@),
{
    if str_eq(response, "MUON") {
        Ok(owned("on"))
    } else if str_eq(response, "MUOFF") {
        Ok(owned("off"))
    } else {
        Err(unexpected_message("mute", response))
    }
}


/// A volume code the encoder writes reads back as a valid code of the same
/// tenths of a dB, and `parse_volume` reports that code and value.
pub proof fn lemma_volume_code_reads_back(db_tenths: int)
    requires
        volume_accepts(db_tenths),
    ensures
        code_valid(volume_code_text(db_tenths)),
        code_db_tenths(volume_code_text(db_tenths)) == db_tenths,
        volume_result(seq!['M', 'V'] + volume_code_text(db_tenths)) == Ok::<Seq<char>, Seq<char>>(
            "code "@ + volume_code_text(db_tenths) + " ("@ + tenths_text(db_tenths) + " dB)"@,
        ),
{
    let base = (80 + db_tenths / 10) as nat;
    let code = volume_code_text(db_tenths);
    let line = seq!['M', 'V'] + code;
    reveal_strlit("MV");
    reveal_strlit("---");
    lemma_two_digits(base);
    if db_tenths % 10 == 0 {
        assert(code =~= decimal2(base));
        assert(!code_half(code));
        assert(code_base_text(code) == code);
    } else {
        assert(code =~= decimal2(base) + seq!['5']);
        assert(code_half(code));
        assert(code_base_text(code) =~= decimal2(base));
    }
    assert(code_base_text(code)[0] != '-');
    assert(code_base_text(code)[0] != '+');
    assert(parse_signed(code_base_text(code)) == Some(base as int));
    assert(has_prefix(line, "MV"@)) by {
        assert(line.take(2) =~= "MV"@);
    }
    assert(line.skip(2) =~= code);
    assert(code != "---"@) by {
        assert(is_digit(code[0]));
    }
}

} // verus!
