//! AVR response correlation, parsing, and event reduction.
use super::command::{volume_command_text, volume_encodable, AvrProtocolError};
use crate::domain::{
    AudioContextField, AudioContextValue, Input, MainZoneEvent, MainZoneField, MainZoneValue,
    MuteState, PowerState, SurroundMode, Volume, token_ok, token_error,
};
use crate::response::{matches_family, code_half, code_base_text};
use crate::text::{all_digits, decimal, decimal2, digit_char, digit_value, digits_value, is_digit, chars_of, eq_chars, has_prefix, parse_signed, parse_i16_exec, starts_with, str_eq, string_range, sub_vec, trim_end, trim_end_len, first_index, index_of, lemma_first_index, owned};
use vstd::prelude::*;
use vstd::string::StrSliceExecFns;

verus! {

/// The non-empty text after `prefix`, if any.
pub open spec fn after_prefix(response: Seq<char>, prefix: Seq<char>) -> Option<Seq<char>> {
    if has_prefix(response, prefix) && response.len() > prefix.len() {
        Some(response.skip(prefix.len() as int))
    } else {
        None
    }
}

fn prefixed_rest(v: &[char], prefix: &str) -> (r: Option<Vec<char>>)
    ensures
        match r {
            Some(x) => after_prefix(v@, prefix@) == Some(x@),
            None => after_prefix(v@, prefix@) is None,
        },
{
    let p = chars_of(prefix);
    if starts_with(v, &p) && v.len() > p.len() {
        let rest = sub_vec(v, p.len(), v.len());
        assert(rest@ =~= v@.skip(p@.len() as int));
        Some(rest)
    } else {
        None
    }
}

/// CV is a channel trim/configuration response, never an active channel map.
pub fn parse_channel_volume_response(response: &str) -> (r: Result<String, AvrProtocolError>)
    ensures
        match after_prefix(response@, "CV"@) {
            Some(rest) => r matches Ok(t) && t@ == rest,
            None => r == Err::<String, _>(AvrProtocolError::MalformedResponse("invalid CV response")),
        },
{
    let v = chars_of(response);
    match prefixed_rest(&v, "CV") {
        Some(rest) => Ok(crate::text::string_of(&rest)),
        None => Err(AvrProtocolError::MalformedResponse("invalid CV response")),
    }
}

pub open spec fn context_prefix(field: AudioContextField) -> Seq<char> {
    match field {
        AudioContextField::InputMode => "SD"@,
        AudioContextField::DigitalMode => "DC"@,
    }
}

pub fn parse_audio_context_response(field: AudioContextField, response: &str) -> (r: Result<
    AudioContextValue,
    AvrProtocolError,
>)
    ensures
        match after_prefix(response@, context_prefix(field)) {
            Some(rest) if token_ok(rest) => r matches Ok(x) && x.text() == rest,
            _ => r == Err::<AudioContextValue, _>(
                AvrProtocolError::MalformedResponse("invalid audio context response"),
            ),
        },
{
    let prefix = match field {
        AudioContextField::InputMode => "SD",
        AudioContextField::DigitalMode => "DC",
    };
    let v = chars_of(response);
    match prefixed_rest(&v, prefix) {
        Some(rest) => {
            let text = crate::text::string_of(&rest);
            match AudioContextValue::new(text.as_str()) {
                Ok(value) => Ok(value),
                Err(_) => Err(AvrProtocolError::MalformedResponse("invalid audio context response")),
            }
        },
        None => Err(AvrProtocolError::MalformedResponse("invalid audio context response")),
    }
}

/// The part of a command before its first `?`, without trailing white space.
pub open spec fn command_family_of(command: Seq<char>) -> Seq<char> {
    let i = first_index(command, '?');
    trim_end(if i < 0 { command } else { command.take(i) })
}

pub fn get_command_family(command: &str) -> (r: &str)
    ensures
        r@ == command_family_of(command@),
{
    let chars = chars_of(command);
    proof {
        lemma_first_index(command@, '?');
    }
    let head = match index_of(&chars, '?') {
        Some(i) => sub_vec(&chars, 0, i),
        None => sub_vec(&chars, 0, chars.len()),
    };
    assert(head@ =~= if first_index(command@, '?') < 0 { command@ } else { command@.take(first_index(command@, '?')) });
    let n = trim_end_len(&head);
    assert(command@.subrange(0, n as int) =~= head@.take(n as int));
    command.substring_char(0, n)
}

pub fn response_matches(family: &str, response: &str) -> (r: bool)
    ensures
        r == matches_family(family@, response@),
{
    crate::response::response_matches(family, response)
}

/// What a main-zone response means, by field.
pub enum ValueView {
    Power(PowerState),
    Input(Seq<char>),
    Volume(Seq<char>, int),
    Mute(MuteState),
    SurroundMode(Seq<char>),
}

/// Why a main-zone response was refused.
pub enum FaultView {
    Unexpected(MainZoneField, Seq<char>),
    Malformed(Seq<char>),
    Unavailable(Seq<char>),
    InvalidVolume(Seq<char>),
    Other,
}

pub open spec fn value_view(v: MainZoneValue) -> ValueView {
    match v {
        MainZoneValue::Power(p) => ValueView::Power(p),
        MainZoneValue::Input(i) => ValueView::Input(i.text()),
        MainZoneValue::Volume(x) => ValueView::Volume(x.code_spec(), x.db_tenths_spec()),
        MainZoneValue::Mute(m) => ValueView::Mute(m),
        MainZoneValue::SurroundMode(s) => ValueView::SurroundMode(s.text()),
    }
}

pub open spec fn fault_view(e: AvrProtocolError) -> FaultView {
    match e {
        AvrProtocolError::UnexpectedResponse { field, response } => FaultView::Unexpected(field, response@),
        AvrProtocolError::MalformedResponse(m) => FaultView::Malformed(m@),
        AvrProtocolError::Unavailable(m) => FaultView::Unavailable(m@),
        AvrProtocolError::InvalidVolume(m) => FaultView::InvalidVolume(m@),
        _ => FaultView::Other,
    }
}

pub open spec fn result_view(r: Result<MainZoneValue, AvrProtocolError>) -> Result<ValueView, FaultView> {
    match r {
        Ok(v) => Ok(value_view(v)),
        Err(e) => Err(fault_view(e)),
    }
}

pub open spec fn token_field(field: MainZoneField, response: Seq<char>, prefix: Seq<char>, empty: Seq<char>, control: Seq<char>) -> Result<Seq<char>, FaultView> {
    match after_prefix(response, prefix) {
        None => Err(FaultView::Unexpected(field, response)),
        Some(rest) => if token_ok(rest) {
            Ok(rest)
        } else {
            Err(FaultView::Malformed(token_error(rest, empty, control)))
        },
    }
}

/// A volume response: `MV---` is unavailable; otherwise a well-formed code.
pub open spec fn volume_view(response: Seq<char>) -> Result<ValueView, FaultView> {
    if !has_prefix(response, "MV"@) {
        Err(FaultView::Unexpected(MainZoneField::Volume, response))
    } else {
        let code = response.skip(2);
        if code == "---"@ {
            Err(FaultView::Unavailable("volume is unavailable"@))
        } else {
            match parse_signed(code_base_text(code)) {
                Some(b) if -32768 <= b <= 32767 => if 0 <= b <= 98 && code.len() == (if code_half(code) { 3int } else { 2int }) {
                    Ok(ValueView::Volume(code, (b - 80) * 10 + if code_half(code) { 5int } else { 0int }))
                } else {
                    Err(FaultView::InvalidVolume("volume code is outside the supported format"@))
                },
                _ => Err(FaultView::InvalidVolume("volume code is not numeric"@)),
            }
        }
    }
}

pub open spec fn main_zone_view(field: MainZoneField, response: Seq<char>) -> Result<ValueView, FaultView> {
    match field {
        MainZoneField::Power => if response == "PWON"@ {
            Ok(ValueView::Power(PowerState::On))
        } else if response == "PWSTANDBY"@ {
            Ok(ValueView::Power(PowerState::Standby))
        } else {
            Err(FaultView::Unexpected(field, response))
        },
        MainZoneField::Input => match token_field(field, response, "SI"@, "input must not be empty"@, "input must not contain control characters"@) {
            Ok(t) => Ok(ValueView::Input(t)),
            Err(e) => Err(e),
        },
        MainZoneField::Volume => volume_view(response),
        MainZoneField::Mute => if response == "MUON"@ {
            Ok(ValueView::Mute(MuteState::On))
        } else if response == "MUOFF"@ {
            Ok(ValueView::Mute(MuteState::Off))
        } else {
            Err(FaultView::Unexpected(field, response))
        },
        MainZoneField::SurroundMode => match token_field(field, response, "MS"@, "surround mode must not be empty"@, "surround mode must not contain control characters"@) {
            Ok(t) => Ok(ValueView::SurroundMode(t)),
            Err(e) => Err(e),
        },
    }
}

fn unexpected(field: MainZoneField, response: &str) -> (e: AvrProtocolError)
    ensures
        fault_view(e) == FaultView::Unexpected(field, response@),
{
    AvrProtocolError::UnexpectedResponse { field, response: owned(response) }
}

fn parse_volume(response: &str) -> (r: Result<Volume, AvrProtocolError>)
    ensures
        match r {
            Ok(v) => volume_view(response@) == Ok::<ValueView, FaultView>(ValueView::Volume(v.code_spec(), v.db_tenths_spec())),
            Err(e) => volume_view(response@) == Err::<ValueView, FaultView>(fault_view(e)),
        },
{
    let v = chars_of(response);
    let mv = chars_of("MV");
    proof {
        reveal_strlit("MV");
        reveal_strlit("---");
    }
    if !starts_with(&v, &mv) {
        return Err(unexpected(MainZoneField::Volume, response));
    }
    let code = sub_vec(&v, 2, v.len());
    assert(code@ =~= response@.skip(2));
    let dashes = chars_of("---");
    if eq_chars(&code, &dashes) {
        return Err(AvrProtocolError::Unavailable("volume is unavailable"));
    }
    let half = code.len() == 3 && code[code.len() - 1] == '5';
    let base_text = if half {
        sub_vec(&code, 0, code.len() - 1)
    } else {
        sub_vec(&code, 0, code.len())
    };
    assert(base_text@ =~= code_base_text(code@));
    let base = match parse_i16_exec(&base_text) {
        Some(b) => b,
        None => return Err(AvrProtocolError::InvalidVolume("volume code is not numeric")),
    };
    if !(0 <= base && base <= 98) || (half && code.len() != 3) || (!half && code.len() != 2) {
        return Err(AvrProtocolError::InvalidVolume("volume code is outside the supported format"));
    }
    let code_text = crate::text::string_of(&code);
    Ok(Volume::from_parts(code_text.as_str(), (base - 80) * 10 + if half { 5 } else { 0 }))
}

pub fn parse_main_zone_response(field: MainZoneField, response: &str) -> (r: Result<
    MainZoneValue,
    AvrProtocolError,
>)
    ensures
        result_view(r) == main_zone_view(field, response@),
{
    match field {
        MainZoneField::Power => {
            if str_eq(response, "PWON") {
                Ok(MainZoneValue::Power(PowerState::On))
            } else if str_eq(response, "PWSTANDBY") {
                Ok(MainZoneValue::Power(PowerState::Standby))
            } else {
                Err(unexpected(field, response))
            }
        },
        MainZoneField::Input => {
            let v = chars_of(response);
            match prefixed_rest(&v, "SI") {
                Some(rest) => {
                    let text = crate::text::string_of(&rest);
                    match Input::new(text.as_str()) {
                        Ok(i) => Ok(MainZoneValue::Input(i)),
                        Err(m) => Err(AvrProtocolError::MalformedResponse(m)),
                    }
                },
                None => Err(unexpected(field, response)),
            }
        },
        MainZoneField::Volume => match parse_volume(response) {
            Ok(v) => Ok(MainZoneValue::Volume(v)),
            Err(e) => Err(e),
        },
        MainZoneField::Mute => {
            if str_eq(response, "MUON") {
                Ok(MainZoneValue::Mute(MuteState::On))
            } else if str_eq(response, "MUOFF") {
                Ok(MainZoneValue::Mute(MuteState::Off))
            } else {
                Err(unexpected(field, response))
            }
        },
        MainZoneField::SurroundMode => {
            let v = chars_of(response);
            match prefixed_rest(&v, "MS") {
                Some(rest) => {
                    let text = crate::text::string_of(&rest);
                    match SurroundMode::new(text.as_str()) {
                        Ok(s) => Ok(MainZoneValue::SurroundMode(s)),
                        Err(m) => Err(AvrProtocolError::MalformedResponse(m)),
                    }
                },
                None => Err(unexpected(field, response)),
            }
        },
    }
}

/// The event a line reports: the first field, in query order, whose parser
/// accepts it; a line no field accepts is kept verbatim as unknown.
pub open spec fn event_view(line: Seq<char>) -> Result<ValueView, Seq<char>> {
    if main_zone_view(MainZoneField::Power, line) is Ok {
        Ok(main_zone_view(MainZoneField::Power, line)->Ok_0)
    } else if main_zone_view(MainZoneField::Input, line) is Ok {
        Ok(main_zone_view(MainZoneField::Input, line)->Ok_0)
    } else if main_zone_view(MainZoneField::Volume, line) is Ok {
        Ok(main_zone_view(MainZoneField::Volume, line)->Ok_0)
    } else if main_zone_view(MainZoneField::Mute, line) is Ok {
        Ok(main_zone_view(MainZoneField::Mute, line)->Ok_0)
    } else if main_zone_view(MainZoneField::SurroundMode, line) is Ok {
        Ok(main_zone_view(MainZoneField::SurroundMode, line)->Ok_0)
    } else {
        Err(line)
    }
}

/// The two characters a line a field accepts begins with.
pub open spec fn field_head(field: MainZoneField) -> (char, char) {
    match field {
        MainZoneField::Power => ('P', 'W'),
        MainZoneField::Input => ('S', 'I'),
        MainZoneField::Volume => ('M', 'V'),
        MainZoneField::Mute => ('M', 'U'),
        MainZoneField::SurroundMode => ('M', 'S'),
    }
}

proof fn lemma_accepted_line_head(field: MainZoneField, line: Seq<char>)
    requires
        main_zone_view(field, line) is Ok,
    ensures
        line.len() >= 2,
        (line[0], line[1]) == field_head(field),
{
    reveal_strlit("PWON");
    reveal_strlit("PWSTANDBY");
    reveal_strlit("SI");
    reveal_strlit("MV");
    reveal_strlit("MUON");
    reveal_strlit("MUOFF");
    reveal_strlit("MS");
    match field {
        MainZoneField::Input => {
            assert(line.take(2)[0] == line[0] && line.take(2)[1] == line[1]);
        },
        MainZoneField::Volume => {
            assert(line.take(2)[0] == line[0] && line.take(2)[1] == line[1]);
        },
        MainZoneField::SurroundMode => {
            assert(line.take(2)[0] == line[0] && line.take(2)[1] == line[1]);
        },
        _ => {},
    }
}

/// No line is accepted by two fields, so the event a line reports is the
/// reading of the field that accepts it, whichever it is; a line that no
/// field accepts is reported unknown, verbatim.
pub proof fn lemma_event_is_the_field_reading(line: Seq<char>, field: MainZoneField)
    ensures
        main_zone_view(field, line) is Ok ==> event_view(line) == Ok::<ValueView, Seq<char>>(
            main_zone_view(field, line)->Ok_0,
        ),
        event_view(line) is Err <==> (forall|f: MainZoneField| #[trigger] main_zone_view(f, line) is Err),
        event_view(line) is Err ==> event_view(line) == Err::<ValueView, Seq<char>>(line),
{
    if main_zone_view(field, line) is Ok {
        lemma_accepted_line_head(field, line);
        let fields = seq![MainZoneField::Power, MainZoneField::Input, MainZoneField::Volume, MainZoneField::Mute, MainZoneField::SurroundMode];
        assert forall|i: int| 0 <= i < 5 && fields[i] != field implies main_zone_view(#[trigger] fields[i], line) is Err by {
            if main_zone_view(fields[i], line) is Ok {
                lemma_accepted_line_head(fields[i], line);
            }
        }
        assert(fields[0] == MainZoneField::Power && fields[1] == MainZoneField::Input);
        assert(fields[2] == MainZoneField::Volume && fields[3] == MainZoneField::Mute);
        assert(fields[4] == MainZoneField::SurroundMode);
    }
    if event_view(line) is Err {
        assert forall|f: MainZoneField| #[trigger] main_zone_view(f, line) is Err by {
            match f {
                MainZoneField::Power => {},
                MainZoneField::Input => {},
                MainZoneField::Volume => {},
                MainZoneField::Mute => {},
                MainZoneField::SurroundMode => {},
            }
        }
    }
    if forall|f: MainZoneField| #[trigger] main_zone_view(f, line) is Err {
        assert(main_zone_view(MainZoneField::Power, line) is Err);
        assert(main_zone_view(MainZoneField::Input, line) is Err);
        assert(main_zone_view(MainZoneField::Volume, line) is Err);
        assert(main_zone_view(MainZoneField::Mute, line) is Err);
        assert(main_zone_view(MainZoneField::SurroundMode, line) is Err);
    }
}

pub open spec fn main_zone_event_view(e: MainZoneEvent) -> Result<ValueView, Seq<char>> {
    match e {
        MainZoneEvent::Changed(v) => Ok(value_view(v)),
        MainZoneEvent::Unknown(l) => Err(l@),
    }
}

pub fn parse_main_zone_event(line: &str) -> (e: MainZoneEvent)
    ensures
        main_zone_event_view(e) == event_view(line@),
{
    let fields = MainZoneField::all();
    let mut k: usize = 0;
    while k < 5
        invariant
            k <= 5,
            fields@ == seq![MainZoneField::Power, MainZoneField::Input, MainZoneField::Volume, MainZoneField::Mute, MainZoneField::SurroundMode],
            forall|j: int| 0 <= j < k ==> main_zone_view(#[trigger] fields@[j], line@) is Err,
        decreases 5 - k,
    {
        if let Ok(value) = parse_main_zone_response(fields[k], line) {
            return MainZoneEvent::Changed(value);
        }
        k += 1;
    }
    assert(main_zone_view(fields@[0], line@) is Err);
    assert(main_zone_view(fields@[1], line@) is Err);
    assert(main_zone_view(fields@[2], line@) is Err);
    assert(main_zone_view(fields@[3], line@) is Err);
    assert(main_zone_view(fields@[4], line@) is Err);
    MainZoneEvent::Unknown(owned(line))
}

pub proof fn lemma_two_digits(base: nat)
    requires
        base <= 98,
    ensures
        decimal2(base).len() == 2,
        all_digits(decimal2(base)),
        digits_value(decimal2(base)) == base,
        (decimal2(base).last() == '5') == (base % 10 == 5),
{
    reveal_with_fuel(decimal, 2);
    reveal_with_fuel(digits_value, 3);
    let d = decimal2(base);
    let t = base / 10;
    let u = base % 10;
    assert(digit_value(digit_char(u)) == u);
    assert(digit_value(digit_char(t)) == t);
    assert(digit_value('0') == 0);
    if base >= 10 {
        assert(decimal(base) == decimal(t).push(digit_char(u)));
        assert(decimal(t) == seq![digit_char(t)]);
        assert(d =~= seq![digit_char(t), digit_char(u)]);
        assert(d.drop_last() =~= seq![digit_char(t)]);
        assert(d.drop_last().drop_last() =~= Seq::<char>::empty());
    } else {
        assert(d =~= seq!['0', digit_char(u)]);
        assert(d.drop_last() =~= seq!['0']);
        assert(d.drop_last().drop_last() =~= Seq::<char>::empty());
    }
}

/// What an encoded volume command reads back as: the same volume, in the
/// same tenths of a dB, for every encodable volume.
pub proof fn lemma_volume_round_trip(db_tenths: int)
    requires
        volume_encodable(db_tenths),
    ensures
        volume_view(volume_command_text(db_tenths)) == Ok::<ValueView, FaultView>(
            ValueView::Volume(volume_command_text(db_tenths).skip(2), db_tenths),
        ),
{
    let base = (80 + db_tenths / 10) as nat;
    let text = volume_command_text(db_tenths);
    reveal_strlit("MV");
    reveal_strlit("---");
    lemma_two_digits(base);
    let code = text.skip(2);
    assert(has_prefix(text, "MV"@)) by {
        assert(text.take(2) =~= "MV"@);
    }
    if db_tenths % 10 == 0 {
        assert(code =~= decimal2(base));
        assert(!code_half(code));
        assert(code_base_text(code) == code);
    } else {
        assert(code =~= decimal2(base) + seq!['5']);
        assert(code_half(code));
        assert(code_base_text(code) =~= decimal2(base));
    }
    assert(code != "---"@) by {
        assert(is_digit(code[0]));
    }
    assert(code_base_text(code)[0] != '-');
    assert(code_base_text(code)[0] != '+');
    assert(parse_signed(code_base_text(code)) == Some(base as int));
}

} // verus!
