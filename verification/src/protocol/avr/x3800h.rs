//! The strict AVR-X3800H core protocol profile: typed queries, commands and
//! frames.
use super::command::{AvrCommand, AvrProtocolError};
use super::response::lemma_two_digits;
use crate::avr::has_line_break;
use crate::domain::{MuteState, check_token, token_error, token_ok};
use crate::domain::profile::{
    CoreField, HIGHEST_HALF_STEP, LOWEST_HALF_STEP, MasterVolume, ReceiverIntent, SoundModeIntent,
    SoundModeStatus, SystemPower, ZonePower, canonical_source, canonical_x3800h_source,
    half_step_in_range, intent_field,
};
use crate::domain::capabilities::x3800h_inputs;
use crate::domain::source::SourceId;
use crate::text::{
    all_digits, chars_of, decimal2, decimal2_exec, digits_value, has_char, has_prefix, is_ctrl,
    is_digit, owned, parse_i16_exec, parse_signed, parse_unsigned, push_chars, push_str,
    starts_with, str_eq, string_of, sub_vec, trim, trim_vec, upper_seq,
};
use vstd::prelude::*;

verus! {

/// The read-only query of a core field.
pub open spec fn core_query_text(field: CoreField) -> Seq<char> {
    match field {
        CoreField::SystemPower => "PW?"@,
        CoreField::MainZonePower => "ZM?"@,
        CoreField::Zone2Power => "Z2?"@,
        CoreField::Source => "SI?"@,
        CoreField::Volume => "MV?"@,
        CoreField::Mute => "MU?"@,
        CoreField::SoundMode => "MS?"@,
    }
}

/// The query that observes the field an intent changes.
pub fn query(intent: &ReceiverIntent) -> (c: AvrCommand)
    ensures
        c.text() == core_query_text(intent_field(*intent)),
{
    let text: &'static str = match intent {
        ReceiverIntent::SystemPower(_) => "PW?",
        ReceiverIntent::MainZonePower(_) => "ZM?",
        ReceiverIntent::Zone2Power(_) => "Z2?",
        ReceiverIntent::Source(_) => "SI?",
        ReceiverIntent::Volume(_) => "MV?",
        ReceiverIntent::Mute(_) => "MU?",
        ReceiverIntent::SoundMode(_) => "MS?",
    };
    proof {
        reveal_strlit("PW?");
        reveal_strlit("ZM?");
        reveal_strlit("Z2?");
        reveal_strlit("SI?");
        reveal_strlit("MV?");
        reveal_strlit("MU?");
        reveal_strlit("MS?");
        assert(text@.len() == 3);
        assert(!has_line_break(text@));
    }
    AvrCommand::valid(text)
}

/// `MV` and the two-digit code of a half-step level, then `5` for an odd code.
pub open spec fn half_step_code(step: int) -> Seq<char> {
    let native = step + 160;
    let whole = (native / 2) as nat;
    if native % 2 == 0 {
        "MV"@ + decimal2(whole)
    } else {
        "MV"@ + decimal2(whole) + seq!['5']
    }
}

/// The command that sets a master volume, where the profile has one.
pub open spec fn volume_text(value: MasterVolume) -> Option<Seq<char>> {
    match value {
        MasterVolume::Minimum => Some("MVMIN"@),
        MasterVolume::DbHalfSteps(step) => if half_step_in_range(step as int) {
            Some(half_step_code(step as int))
        } else {
            None
        },
    }
}

/// A mode the receiver names may be selected when it is neither blank nor holds controls.
pub open spec fn selectable_mode(mode: Seq<char>) -> bool {
    trim(mode).len() > 0 && token_ok(mode)
}

/// The command that selects a listening mode, where the profile has one.
pub open spec fn sound_mode_text(intent: SoundModeIntent) -> Option<Seq<char>> {
    match intent {
        SoundModeIntent::Auto => Some("MSAUTO"@),
        SoundModeIntent::Direct => Some("MSDIRECT"@),
        SoundModeIntent::PureDirect => Some("MSPURE DIRECT"@),
        SoundModeIntent::Stereo => Some("MSSTEREO"@),
        SoundModeIntent::RecallMovie => Some("MSMOVIE"@),
        SoundModeIntent::RecallMusic => Some("MSMUSIC"@),
        SoundModeIntent::RecallGame => Some("MSGAME"@),
        SoundModeIntent::Select(mode) => if selectable_mode(mode@) {
            Some("MS"@ + mode@)
        } else {
            None
        },
    }
}

/// The command for an intent, or why the profile refuses it.
pub open spec fn intent_text(intent: ReceiverIntent) -> Result<Seq<char>, AvrProtocolError> {
    match intent {
        ReceiverIntent::SystemPower(SystemPower::On) => Ok("PWON"@),
        ReceiverIntent::SystemPower(SystemPower::Standby) => Ok("PWSTANDBY"@),
        ReceiverIntent::MainZonePower(ZonePower::On) => Ok("ZMON"@),
        ReceiverIntent::MainZonePower(ZonePower::Off) => Ok("ZMOFF"@),
        ReceiverIntent::Zone2Power(ZonePower::On) => Ok("Z2ON"@),
        ReceiverIntent::Zone2Power(ZonePower::Off) => Ok("Z2OFF"@),
        ReceiverIntent::Source(id) => match canonical_source(id.text()) {
            Some(canonical) => Ok("SI"@ + canonical),
            None => Err(AvrProtocolError::InvalidCommand("source is not supported by X3800H profile")),
        },
        ReceiverIntent::Volume(value) => match volume_text(value) {
            Some(text) => Ok(text),
            None => Err(AvrProtocolError::InvalidVolume("volume is outside X3800H range")),
        },
        ReceiverIntent::Mute(MuteState::On) => Ok("MUON"@),
        ReceiverIntent::Mute(MuteState::Off) => Ok("MUOFF"@),
        ReceiverIntent::SoundMode(mode) => match sound_mode_text(mode) {
            Some(text) => Ok(text),
            None => Err(AvrProtocolError::InvalidCommand("sound mode is empty or contains controls")),
        },
    }
}

fn volume_command(value: MasterVolume) -> (r: Result<String, AvrProtocolError>)
    ensures
        match (r, volume_text(value)) {
            (Ok(s), Some(t)) => s@ == t,
            (Err(e), None) => e == AvrProtocolError::InvalidVolume("volume is outside X3800H range"),
            _ => false,
        },
{
    match value {
        MasterVolume::Minimum => Ok(owned("MVMIN")),
        MasterVolume::DbHalfSteps(step) => {
            if !(LOWEST_HALF_STEP <= step && step <= HIGHEST_HALF_STEP) {
                return Err(AvrProtocolError::InvalidVolume("volume is outside X3800H range"));
            }
            let native: i16 = step + 160;
            let whole: i16 = native / 2;
            let mut v: Vec<char> = Vec::new();
            push_str(&mut v, "MV");
            let digits = decimal2_exec(whole as u64);
            push_chars(&mut v, &digits);
            if native % 2 != 0 {
                v.push('5');
            }
            Ok(string_of(&v))
        },
    }
}

fn sound_mode_command(intent: &SoundModeIntent) -> (r: Result<String, AvrProtocolError>)
    ensures
        match (r, sound_mode_text(*intent)) {
            (Ok(s), Some(t)) => s@ == t,
            (Err(e), None) => e == AvrProtocolError::InvalidCommand(
                "sound mode is empty or contains controls",
            ),
            _ => false,
        },
{
    match intent {
        SoundModeIntent::Auto => Ok(owned("MSAUTO")),
        SoundModeIntent::Direct => Ok(owned("MSDIRECT")),
        SoundModeIntent::PureDirect => Ok(owned("MSPURE DIRECT")),
        SoundModeIntent::Stereo => Ok(owned("MSSTEREO")),
        SoundModeIntent::RecallMovie => Ok(owned("MSMOVIE")),
        SoundModeIntent::RecallMusic => Ok(owned("MSMUSIC")),
        SoundModeIntent::RecallGame => Ok(owned("MSGAME")),
        SoundModeIntent::Select(mode) => {
            let v = chars_of(mode.as_str());
            let trimmed = trim_vec(&v);
            if trimmed.len() > 0 && check_token(&v) {
                let mut out: Vec<char> = Vec::new();
                push_str(&mut out, "MS");
                push_chars(&mut out, &v);
                Ok(string_of(&out))
            } else {
                Err(AvrProtocolError::InvalidCommand("sound mode is empty or contains controls"))
            }
        },
    }
}

proof fn lemma_no_controls_single_line(s: Seq<char>)
    requires
        forall|i: int| 0 <= i < s.len() ==> !is_ctrl(s[i]),
    ensures
        !has_line_break(s),
{
    assert forall|i: int| 0 <= i < s.len() implies s[i] != '\r' && s[i] != '\n' by {
        assert(!is_ctrl(s[i]));
    }
}

proof fn lemma_inputs_single_line(s: Seq<char>)
    requires
        x3800h_inputs().contains(s),
    ensures
        s.len() > 0,
        forall|i: int| 0 <= i < s.len() ==> !is_ctrl(s[i]),
{
    reveal_strlit("PHONO");
    reveal_strlit("CD");
    reveal_strlit("TUNER");
    reveal_strlit("DVD");
    reveal_strlit("BD");
    reveal_strlit("GAME");
    reveal_strlit("MEDIA PLAYER");
    reveal_strlit("TV AUDIO");
    reveal_strlit("AUX1");
    reveal_strlit("AUX2");
    reveal_strlit("AUX3");
    reveal_strlit("AUX4");
    reveal_strlit("AUX5");
    reveal_strlit("AUX6");
    reveal_strlit("AUX7");
    let k = choose|k: int| 0 <= k < x3800h_inputs().len() && x3800h_inputs()[k] == s;
    assert(0 <= k < 15);
}

/// Every command the profile writes is one non-empty line.
proof fn lemma_intent_text_single_line(intent: ReceiverIntent)
    requires
        intent_text(intent) is Ok,
    ensures
        intent_text(intent)->Ok_0.len() > 0,
        !has_line_break(intent_text(intent)->Ok_0),
{
    let t = intent_text(intent)->Ok_0;
    reveal_strlit("PWON");
    reveal_strlit("PWSTANDBY");
    reveal_strlit("ZMON");
    reveal_strlit("ZMOFF");
    reveal_strlit("Z2ON");
    reveal_strlit("Z2OFF");
    reveal_strlit("MUON");
    reveal_strlit("MUOFF");
    reveal_strlit("MVMIN");
    reveal_strlit("MV");
    reveal_strlit("SI");
    reveal_strlit("MS");
    reveal_strlit("MSAUTO");
    reveal_strlit("MSDIRECT");
    reveal_strlit("MSPURE DIRECT");
    reveal_strlit("MSSTEREO");
    reveal_strlit("MSMOVIE");
    reveal_strlit("MSMUSIC");
    reveal_strlit("MSGAME");
    match intent {
        ReceiverIntent::Source(id) => {
            let c = canonical_source(id.text())->Some_0;
            lemma_inputs_single_line(c);
            assert forall|i: int| 0 <= i < t.len() implies !is_ctrl(t[i]) by {
                if i >= 2 {
                    assert(t[i] == c[i - 2]);
                }
            }
            lemma_no_controls_single_line(t);
        },
        ReceiverIntent::Volume(MasterVolume::DbHalfSteps(step)) => {
            let native = step + 160;
            let whole = (native / 2) as nat;
            lemma_two_digits(whole);
            assert forall|i: int| 0 <= i < t.len() implies !is_ctrl(t[i]) by {
                if 2 <= i < 4 {
                    assert(t[i] == decimal2(whole)[i - 2]);
                    assert(is_digit(decimal2(whole)[i - 2]));
                }
            }
            lemma_no_controls_single_line(t);
        },
        ReceiverIntent::SoundMode(SoundModeIntent::Select(mode)) => {
            assert forall|i: int| 0 <= i < t.len() implies !is_ctrl(t[i]) by {
                if i >= 2 {
                    assert(t[i] == mode@[i - 2]);
                }
            }
            lemma_no_controls_single_line(t);
        },
        _ => {
            assert(!has_line_break(t));
        },
    }
}

/// The command that carries out an intent on an X3800H.
pub fn encode(intent: &ReceiverIntent) -> (r: Result<AvrCommand, AvrProtocolError>)
    ensures
        match (r, intent_text(*intent)) {
            (Ok(c), Ok(t)) => c.text() == t,
            (Err(e), Err(f)) => e == f,
            _ => false,
        },
{
    let value: String = match intent {
        ReceiverIntent::SystemPower(SystemPower::On) => owned("PWON"),
        ReceiverIntent::SystemPower(SystemPower::Standby) => owned("PWSTANDBY"),
        ReceiverIntent::MainZonePower(ZonePower::On) => owned("ZMON"),
        ReceiverIntent::MainZonePower(ZonePower::Off) => owned("ZMOFF"),
        ReceiverIntent::Zone2Power(ZonePower::On) => owned("Z2ON"),
        ReceiverIntent::Zone2Power(ZonePower::Off) => owned("Z2OFF"),
        ReceiverIntent::Source(id) => match canonical_x3800h_source(id.as_str()) {
            Some(canonical) => {
                let mut v: Vec<char> = Vec::new();
                push_str(&mut v, "SI");
                push_str(&mut v, canonical.as_str());
                string_of(&v)
            },
            None => {
                return Err(
                    AvrProtocolError::InvalidCommand("source is not supported by X3800H profile"),
                );
            },
        },
        ReceiverIntent::Volume(value) => match volume_command(*value) {
            Ok(text) => text,
            Err(e) => {
                return Err(e);
            },
        },
        ReceiverIntent::Mute(MuteState::On) => owned("MUON"),
        ReceiverIntent::Mute(MuteState::Off) => owned("MUOFF"),
        ReceiverIntent::SoundMode(mode) => match sound_mode_command(mode) {
            Ok(text) => text,
            Err(e) => {
                return Err(e);
            },
        },
    };
    proof {
        lemma_intent_text_single_line(*intent);
    }
    AvrCommand::new(value.as_str())
}

/// One parsed X3800H frame.
#[derive(Debug, Clone, PartialEq, Eq)]
pub enum X3800hFrame {
    SystemPower(SystemPower),
    MainZonePower(ZonePower),
    Zone2Power(ZonePower),
    Source(SourceId),
    Volume(MasterVolume),
    Mute(MuteState),
    SoundMode(SoundModeStatus),
    VolumeUnavailable,
    /// Receiver-reported volume ceiling; not the current Main Zone volume.
    VolumeLimit(String),
    Unknown(String),
}

/// What a frame reports, with its text as `Seq<char>`.
pub enum FrameView {
    SystemPower(SystemPower),
    MainZonePower(ZonePower),
    Zone2Power(ZonePower),
    Source(Seq<char>),
    Volume(MasterVolume),
    Mute(MuteState),
    SoundMode(Seq<char>, Seq<char>),
    VolumeUnavailable,
    VolumeLimit(Seq<char>),
    Unknown(Seq<char>),
}

/// Why a line is refused, with the error's text.
pub enum FrameFault {
    InvalidVolume(Seq<char>),
    Malformed(Seq<char>),
}

impl View for X3800hFrame {
    type V = FrameView;

    open spec fn view(&self) -> FrameView {
        match self {
            X3800hFrame::SystemPower(p) => FrameView::SystemPower(*p),
            X3800hFrame::MainZonePower(p) => FrameView::MainZonePower(*p),
            X3800hFrame::Zone2Power(p) => FrameView::Zone2Power(*p),
            X3800hFrame::Source(id) => FrameView::Source(id.text()),
            X3800hFrame::Volume(v) => FrameView::Volume(*v),
            X3800hFrame::Mute(m) => FrameView::Mute(*m),
            X3800hFrame::SoundMode(s) => FrameView::SoundMode(s.id@, s.raw@),
            X3800hFrame::VolumeUnavailable => FrameView::VolumeUnavailable,
            X3800hFrame::VolumeLimit(t) => FrameView::VolumeLimit(t@),
            X3800hFrame::Unknown(t) => FrameView::Unknown(t@),
        }
    }
}

/// The native code (twice the whole-dB code, plus one for a trailing `5`) of
/// the text after `MV`.
pub open spec fn volume_code_native(code: Seq<char>) -> Option<int> {
    if code.len() == 2 {
        match parse_signed(code) {
            Some(whole) => Some(2 * whole),
            None => None,
        }
    } else if code.len() == 3 && code[2] == '5' {
        match parse_signed(code.take(2)) {
            Some(whole) => Some(2 * whole + 1),
            None => None,
        }
    } else {
        None
    }
}

/// The master volume an `MV` frame reports, or the error's text.
pub open spec fn volume_frame(line: Seq<char>) -> Result<MasterVolume, Seq<char>> {
    if line == "MVMIN"@ {
        Ok(MasterVolume::Minimum)
    } else {
        match volume_code_native(line.skip(2)) {
            None => Err("invalid X3800H volume frame"@),
            Some(native) => if half_step_in_range(native - 160) {
                Ok(MasterVolume::DbHalfSteps((native - 160) as i16))
            } else {
                Err("master volume is outside the half-step range"@)
            },
        }
    }
}

/// What an X3800H line reads as: fixed frames first, then the volume ceiling,
/// volume, source and listening-mode families; anything else is kept as unknown.
pub open spec fn frame_of(line: Seq<char>) -> Result<FrameView, FrameFault> {
    if line == "PWON"@ {
        Ok(FrameView::SystemPower(SystemPower::On))
    } else if line == "PWSTANDBY"@ {
        Ok(FrameView::SystemPower(SystemPower::Standby))
    } else if line == "ZMON"@ {
        Ok(FrameView::MainZonePower(ZonePower::On))
    } else if line == "ZMOFF"@ {
        Ok(FrameView::MainZonePower(ZonePower::Off))
    } else if line == "Z2ON"@ {
        Ok(FrameView::Zone2Power(ZonePower::On))
    } else if line == "Z2OFF"@ {
        Ok(FrameView::Zone2Power(ZonePower::Off))
    } else if line == "MUON"@ {
        Ok(FrameView::Mute(MuteState::On))
    } else if line == "MUOFF"@ {
        Ok(FrameView::Mute(MuteState::Off))
    } else if line == "MV---"@ {
        Ok(FrameView::VolumeUnavailable)
    } else if has_prefix(line, "MVMAX "@) {
        Ok(FrameView::VolumeLimit(line))
    } else if has_prefix(line, "MV"@) {
        match volume_frame(line) {
            Ok(v) => Ok(FrameView::Volume(v)),
            Err(m) => Err(FrameFault::InvalidVolume(m)),
        }
    } else if has_prefix(line, "SI"@) {
        let id = line.skip(2);
        if token_ok(id) {
            Ok(FrameView::Source(id))
        } else {
            Err(FrameFault::Malformed(token_error(id, "source id must not be empty"@, "source id must not contain control characters"@)))
        }
    } else if has_prefix(line, "MS"@) && line.len() > 2 {
        Ok(FrameView::SoundMode(line.skip(2), line.skip(2)))
    } else {
        Ok(FrameView::Unknown(line))
    }
}

/// Whether a parse result is the one `frame_of` describes.
pub open spec fn parsed_as(r: Result<X3800hFrame, AvrProtocolError>, expected: Result<FrameView, FrameFault>) -> bool {
    match (r, expected) {
        (Ok(f), Ok(v)) => f@ == v,
        (Err(AvrProtocolError::InvalidVolume(m)), Err(FrameFault::InvalidVolume(t))) => m@ == t,
        (Err(AvrProtocolError::MalformedResponse(m)), Err(FrameFault::Malformed(t))) => m@ == t,
        _ => false,
    }
}

/// Two characters read as an integer stay within two decimal digits.
proof fn lemma_two_char_bound(s: Seq<char>)
    requires
        s.len() == 2,
        parse_signed(s) is Some,
    ensures
        -9 <= parse_signed(s)->Some_0 <= 99,
{
    reveal_with_fuel(digits_value, 3);
    if s[0] == '-' {
        let body = s.drop_first();
        assert(body.drop_last().len() == 0);
        assert(all_digits(body));
        assert(is_digit(body[0]));
    } else {
        let body = if s[0] == '+' { s.drop_first() } else { s };
        assert(all_digits(body));
        if body.len() == 1 {
            assert(body.drop_last().len() == 0);
            assert(is_digit(body[0]));
        } else {
            assert(body.drop_last().drop_last().len() == 0);
            assert(is_digit(body[0]));
            assert(is_digit(body[1]));
            assert(body.drop_last()[0] == body[0]);
        }
    }
}

fn parse_volume(line: &str) -> (r: Result<MasterVolume, AvrProtocolError>)
    requires
        has_prefix(line@, "MV"@),
    ensures
        match (r, volume_frame(line@)) {
            (Ok(v), Ok(w)) => v == w,
            (Err(AvrProtocolError::InvalidVolume(m)), Err(t)) => m@ == t,
            _ => false,
        },
{
    if str_eq(line, "MVMIN") {
        return Ok(MasterVolume::Minimum);
    }
    let chars = chars_of(line);
    proof {
        reveal_strlit("MV");
    }
    let code = sub_vec(&chars, 2, chars.len());
    assert(code@ == line@.skip(2));
    let native: Option<i16> = if code.len() == 2 {
        match parse_i16_exec(&code) {
            Some(whole) => {
                proof {
                    lemma_two_char_bound(code@);
                }
                Some(whole * 2)
            },
            None => None,
        }
    } else if code.len() == 3 && code[2] == '5' {
        let head = sub_vec(&code, 0, 2);
        assert(head@ == code@.take(2));
        match parse_i16_exec(&head) {
            Some(whole) => {
                proof {
                    lemma_two_char_bound(head@);
                }
                Some(whole * 2 + 1)
            },
            None => None,
        }
    } else {
        None
    };
    proof {
        if code@.len() == 2 && parse_signed(code@) is Some {
            lemma_two_char_bound(code@);
        }
        if code@.len() == 3 && code@[2] == '5' && parse_signed(code@.take(2)) is Some {
            lemma_two_char_bound(code@.take(2));
        }
    }
    match native {
        None => Err(AvrProtocolError::InvalidVolume("invalid X3800H volume frame")),
        Some(n) => match MasterVolume::db_half_steps(n - 160) {
            Ok(v) => Ok(v),
            Err(m) => Err(AvrProtocolError::InvalidVolume(m)),
        },
    }
}

/// Reads one X3800H line.
pub fn parse(line: &str) -> (r: Result<X3800hFrame, AvrProtocolError>)
    ensures
        parsed_as(r, frame_of(line@)),
{
    if str_eq(line, "PWON") {
        return Ok(X3800hFrame::SystemPower(SystemPower::On));
    }
    if str_eq(line, "PWSTANDBY") {
        return Ok(X3800hFrame::SystemPower(SystemPower::Standby));
    }
    if str_eq(line, "ZMON") {
        return Ok(X3800hFrame::MainZonePower(ZonePower::On));
    }
    if str_eq(line, "ZMOFF") {
        return Ok(X3800hFrame::MainZonePower(ZonePower::Off));
    }
    if str_eq(line, "Z2ON") {
        return Ok(X3800hFrame::Zone2Power(ZonePower::On));
    }
    if str_eq(line, "Z2OFF") {
        return Ok(X3800hFrame::Zone2Power(ZonePower::Off));
    }
    if str_eq(line, "MUON") {
        return Ok(X3800hFrame::Mute(MuteState::On));
    }
    if str_eq(line, "MUOFF") {
        return Ok(X3800hFrame::Mute(MuteState::Off));
    }
    if str_eq(line, "MV---") {
        return Ok(X3800hFrame::VolumeUnavailable);
    }
    let chars = chars_of(line);
    if starts_with(&chars, &chars_of("MVMAX ")) {
        return Ok(X3800hFrame::VolumeLimit(owned(line)));
    }
    if starts_with(&chars, &chars_of("MV")) {
        return match parse_volume(line) {
            Ok(v) => Ok(X3800hFrame::Volume(v)),
            Err(e) => Err(e),
        };
    }
    if starts_with(&chars, &chars_of("SI")) {
        proof {
            reveal_strlit("SI");
        }
        let rest = string_of(&sub_vec(&chars, 2, chars.len()));
        return match SourceId::new(rest.as_str()) {
            Ok(id) => Ok(X3800hFrame::Source(id)),
            Err(m) => Err(AvrProtocolError::MalformedResponse(m)),
        };
    }
    if starts_with(&chars, &chars_of("MS")) && chars.len() > 2 {
        proof {
            reveal_strlit("MS");
        }
        let value = string_of(&sub_vec(&chars, 2, chars.len()));
        return Ok(X3800hFrame::SoundMode(SoundModeStatus { id: value.clone(), raw: value }));
    }
    Ok(X3800hFrame::Unknown(owned(line)))
}

/// The frame a receiver echoes once it has carried out an intent.
pub open spec fn echo_of(intent: ReceiverIntent) -> FrameView {
    match intent {
        ReceiverIntent::SystemPower(p) => FrameView::SystemPower(p),
        ReceiverIntent::MainZonePower(p) => FrameView::MainZonePower(p),
        ReceiverIntent::Zone2Power(p) => FrameView::Zone2Power(p),
        ReceiverIntent::Source(id) => FrameView::Source(canonical_source(id.text())->Some_0),
        ReceiverIntent::Volume(v) => FrameView::Volume(v),
        ReceiverIntent::Mute(m) => FrameView::Mute(m),
        ReceiverIntent::SoundMode(mode) => {
            let t = sound_mode_text(mode)->Some_0.skip(2);
            FrameView::SoundMode(t, t)
        },
    }
}

proof fn lemma_half_step_reads_back(step: int)
    requires
        half_step_in_range(step),
    ensures
        frame_of(half_step_code(step)) == Ok::<FrameView, FrameFault>(
            FrameView::Volume(MasterVolume::DbHalfSteps(step as i16)),
        ),
{
    let line = half_step_code(step);
    let native = step + 160;
    let whole = (native / 2) as nat;
    reveal_strlit("MV");
    reveal_strlit("MVMIN");
    reveal_strlit("MV---");
    reveal_strlit("MVMAX ");
    reveal_strlit("PWON");
    reveal_strlit("PWSTANDBY");
    reveal_strlit("ZMON");
    reveal_strlit("ZMOFF");
    reveal_strlit("Z2ON");
    reveal_strlit("Z2OFF");
    reveal_strlit("MUON");
    reveal_strlit("MUOFF");
    lemma_two_digits(whole);
    let d = decimal2(whole);
    assert(line[0] == 'M' && line[1] == 'V');
    assert(line[2] == d[0] && is_digit(d[0]));
    assert(line != "MVMIN"@ && line != "MV---"@);
    assert(!has_prefix(line, "MVMAX "@)) by {
        if has_prefix(line, "MVMAX "@) {
            assert(line.take(6)[2] == line[2]);
        }
    }
    assert(has_prefix(line, "MV"@)) by {
        assert(line.take(2) =~= "MV"@);
    }
    let code = line.skip(2);
    assert(d[0] != '-' && d[0] != '+');
    assert(parse_unsigned(d) == Some(whole));
    if native % 2 == 0 {
        assert(code =~= d);
        assert(volume_code_native(code) == Some(2 * whole as int));
    } else {
        assert(code =~= d + seq!['5']);
        assert(code.take(2) =~= d);
        assert(volume_code_native(code) == Some(2 * whole as int + 1));
    }
}

proof fn lemma_source_reads_back(c: Seq<char>)
    requires
        x3800h_inputs().contains(c),
    ensures
        frame_of("SI"@ + c) == Ok::<FrameView, FrameFault>(FrameView::Source(c)),
{
    let t = "SI"@ + c;
    reveal_strlit("PWON");
    reveal_strlit("PWSTANDBY");
    reveal_strlit("ZMON");
    reveal_strlit("ZMOFF");
    reveal_strlit("Z2ON");
    reveal_strlit("Z2OFF");
    reveal_strlit("MUON");
    reveal_strlit("MUOFF");
    reveal_strlit("MV---");
    reveal_strlit("MVMAX ");
    reveal_strlit("MV");
    reveal_strlit("SI");
    lemma_inputs_single_line(c);
    assert(t[0] == 'S' && t[1] == 'I');
    assert(!has_prefix(t, "MVMAX "@) && !has_prefix(t, "MV"@)) by {
        if has_prefix(t, "MV"@) || has_prefix(t, "MVMAX "@) {
            assert(t.take(2)[0] == t[0]);
            assert(t.take(6)[0] == t[0]);
        }
    }
    assert(has_prefix(t, "SI"@)) by {
        assert(t.take(2) =~= "SI"@);
    }
    assert(t.skip(2) =~= c);
    assert(token_ok(c));
}

/// A command the profile writes reads back, as the receiver's echo of it,
/// as the very state it asked for: the law behind confirming a control by
/// observing the receiver.
pub proof fn lemma_command_reads_back(intent: ReceiverIntent)
    requires
        intent_text(intent) is Ok,
    ensures
        frame_of(intent_text(intent)->Ok_0) == Ok::<FrameView, FrameFault>(echo_of(intent)),
{
    let t = intent_text(intent)->Ok_0;
    reveal_strlit("PWON");
    reveal_strlit("PWSTANDBY");
    reveal_strlit("ZMON");
    reveal_strlit("ZMOFF");
    reveal_strlit("Z2ON");
    reveal_strlit("Z2OFF");
    reveal_strlit("MUON");
    reveal_strlit("MUOFF");
    reveal_strlit("MV---");
    reveal_strlit("MVMAX ");
    reveal_strlit("MVMIN");
    reveal_strlit("MV");
    reveal_strlit("SI");
    reveal_strlit("MS");
    reveal_strlit("MSAUTO");
    reveal_strlit("MSDIRECT");
    reveal_strlit("MSPURE DIRECT");
    reveal_strlit("MSSTEREO");
    reveal_strlit("MSMOVIE");
    reveal_strlit("MSMUSIC");
    reveal_strlit("MSGAME");
    match intent {
        ReceiverIntent::Source(id) => {
            lemma_source_reads_back(canonical_source(id.text())->Some_0);
        },
        ReceiverIntent::Volume(MasterVolume::DbHalfSteps(step)) => {
            lemma_half_step_reads_back(step as int);
        },
        ReceiverIntent::Volume(MasterVolume::Minimum) => {
            assert(!has_prefix(t, "MVMAX "@)) by {
                if has_prefix(t, "MVMAX "@) {
                    assert(t.take(6)[2] == t[2]);
                }
            }
            assert(has_prefix(t, "MV"@)) by {
                assert(t.take(2) =~= "MV"@);
            }
        },
        ReceiverIntent::SoundMode(mode) => {
            assert(t[0] == 'M' && t[1] == 'S');
            assert(t.len() > 2);
            assert(!has_prefix(t, "MVMAX "@) && !has_prefix(t, "MV"@) && !has_prefix(t, "SI"@)) by {
                if has_prefix(t, "MV"@) || has_prefix(t, "MVMAX "@) || has_prefix(t, "SI"@) {
                    assert(t.take(2)[0] == t[0]);
                    assert(t.take(2)[1] == t[1]);
                    assert(t.take(6)[1] == t[1]);
                }
            }
            assert(has_prefix(t, "MS"@)) by {
                assert(t.take(2) =~= "MS"@);
            }
            assert(t != "MUON"@ && t != "MUOFF"@ && t != "MV---"@);
        },
        ReceiverIntent::SystemPower(p) => {
            assert(t == "PWON"@ || t == "PWSTANDBY"@);
        },
        ReceiverIntent::MainZonePower(p) => {
            assert(t == "ZMON"@ || t == "ZMOFF"@);
            assert(t[0] == 'Z' && t[1] == 'M');
        },
        ReceiverIntent::Zone2Power(p) => {
            assert(t == "Z2ON"@ || t == "Z2OFF"@);
            assert(t[0] == 'Z' && t[1] == '2' && t[2] == 'O');
        },
        ReceiverIntent::Mute(m) => {
            assert(t == "MUON"@ || t == "MUOFF"@);
            assert(t[0] == 'M' && t[1] == 'U' && t[2] == 'O');
        },
    }
}

} // verus!
