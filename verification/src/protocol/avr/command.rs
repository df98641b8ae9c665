//! AVR command validation and framing.
use crate::avr::has_line_break;
use crate::domain::{MainZoneControl, MainZoneField, MuteState, PowerState, field_name};
use crate::text::{chars_of, decimal2, decimal2_exec, has_char_exec, push_chars, push_str, string_of};
use vstd::prelude::*;
use vstd::utf8::*;
use vstd::string::StrSliceExecFns;

verus! {

#[derive(Debug, Clone, PartialEq, Eq)]
pub struct AvrCommand(String);

impl AvrCommand {
    pub closed spec fn text(&self) -> Seq<char> {
        self.0@
    }

    pub fn new(command: &str) -> (r: Result<Self, AvrProtocolError>)
        ensures
            command@.len() == 0 ==> r == Err::<Self, _>(
                AvrProtocolError::InvalidCommand("command is empty"),
            ),
            command@.len() > 0 && has_line_break(command@) ==> r == Err::<Self, _>(
                AvrProtocolError::InvalidCommand("command contains a line break"),
            ),
            r is Ok <==> !has_line_break(command@) && command@.len() > 0,
            r matches Ok(c) ==> c.text() == command@,
    {
        let chars = chars_of(command);
        if chars.len() == 0 {
            return Err(AvrProtocolError::InvalidCommand("command is empty"));
        }
        if has_char_exec(&chars, '\r') || has_char_exec(&chars, '\n') {
            return Err(AvrProtocolError::InvalidCommand("command contains a line break"));
        }
        Ok(AvrCommand(string_of(&chars)))
    }

    /// A command already known to be non-empty and free of line breaks.
    pub fn valid(command: &str) -> (c: Self)
        requires
            command@.len() > 0,
            !has_line_break(command@),
        ensures
            c.text() == command@,
    {
        AvrCommand(crate::text::owned(command))
    }

    pub fn as_str(&self) -> (r: &str)
        ensures
            r@ == self.text(),
    {
        self.0.as_str()
    }

    /// The command's UTF-8 bytes followed by CR.
    pub fn as_bytes(&self) -> (r: Vec<u8>)
        ensures
            r@ == encode_utf8(self.text()).push(13u8),
    {
        let mut bytes = self.0.as_str().as_bytes_vec();
        bytes.push(13u8);
        bytes
    }
}

pub open spec fn query_text(field: MainZoneField) -> Seq<char> {
    match field {
        MainZoneField::Power => "PW?"@,
        MainZoneField::Input => "SI?"@,
        MainZoneField::Volume => "MV?"@,
        MainZoneField::Mute => "MU?"@,
        MainZoneField::SurroundMode => "MS?"@,
    }
}

/// The read-only query of one main-zone field.
pub fn query_command(field: MainZoneField) -> (c: AvrCommand)
    ensures
        c.text() == query_text(field),
{
    let command = match field {
        MainZoneField::Power => "PW?",
        MainZoneField::Input => "SI?",
        MainZoneField::Volume => "MV?",
        MainZoneField::Mute => "MU?",
        MainZoneField::SurroundMode => "MS?",
    };
    AvrCommand(crate::text::owned(command))
}

/// Whether a volume in tenths of a dB has a wire code.
pub open spec fn volume_encodable(db_tenths: int) -> bool {
    db_tenths % 5 == 0 && 0 <= 80 + db_tenths / 10 <= 98
}

/// `MV` followed by the code of a volume in tenths of a dB (`80` is 0 dB).
pub open spec fn volume_command_text(db_tenths: int) -> Seq<char> {
    let base = (80 + db_tenths / 10) as nat;
    "MV"@ + if db_tenths % 10 == 0 {
        decimal2(base)
    } else {
        decimal2(base) + seq!['5']
    }
}

pub fn encode_volume(db_tenths: i16) -> (r: Result<AvrCommand, AvrProtocolError>)
    ensures
        db_tenths % 5 != 0 ==> r == Err::<AvrCommand, _>(
            AvrProtocolError::InvalidVolume("volume must use 0.5 dB steps"),
        ),
        db_tenths % 5 == 0 && !volume_encodable(db_tenths as int) ==> r == Err::<AvrCommand, _>(
            AvrProtocolError::InvalidVolume("volume is outside AVR code range"),
        ),
        volume_encodable(db_tenths as int) ==> (r matches Ok(c) && c.text() == volume_command_text(
            db_tenths as int,
        )),
{
    if db_tenths % 5 != 0 {
        return Err(AvrProtocolError::InvalidVolume("volume must use 0.5 dB steps"));
    }
    let whole_db: i16 = if db_tenths >= 0 || db_tenths % 10 == 0 {
        db_tenths / 10
    } else {
        db_tenths / 10 - 1
    };
    assert(whole_db == db_tenths as int / 10);
    let base: i16 = 80 + whole_db;
    if !(0 <= base && base <= 98) {
        return Err(AvrProtocolError::InvalidVolume("volume is outside AVR code range"));
    }
    let mut code: Vec<char> = Vec::new();
    push_str(&mut code, "MV");
    let digits = decimal2_exec(base as u64);
    push_chars(&mut code, &digits);
    if db_tenths % 10 != 0 {
        code.push('5');
    }
    proof {
        reveal_strlit("MV");
    }
    Ok(AvrCommand(string_of(&code)))
}

/// The command of a main-zone control: the family of the field's query
/// followed by the value (`PWON`, `SICD`, `MV505`, `MUOFF`, `MSSTEREO`).
pub open spec fn control_text(control: MainZoneControl) -> Seq<char> {
    match control {
        MainZoneControl::Power(PowerState::On) => "PWON"@,
        MainZoneControl::Power(PowerState::Standby) => "PWSTANDBY"@,
        MainZoneControl::Input(i) => "SI"@ + i.text(),
        MainZoneControl::Volume(l) => volume_command_text(l.tenths_spec() - 800),
        MainZoneControl::Mute(MuteState::On) => "MUON"@,
        MainZoneControl::Mute(MuteState::Off) => "MUOFF"@,
        MainZoneControl::SurroundMode(m) => "MS"@ + m.text(),
    }
}

/// Encodes a main-zone control as one AVR command.
pub fn encode_control(control: &MainZoneControl) -> (r: Result<AvrCommand, AvrProtocolError>)
    ensures
        !has_line_break(control_text(*control)) ==> (r matches Ok(c) && c.text() == control_text(*control)),
        has_line_break(control_text(*control)) ==> r == Err::<AvrCommand, AvrProtocolError>(
            AvrProtocolError::InvalidCommand("command contains a line break")),
{
    let mut v: Vec<char> = Vec::new();
    match control {
        MainZoneControl::Power(PowerState::On) => push_str(&mut v, "PWON"),
        MainZoneControl::Power(PowerState::Standby) => push_str(&mut v, "PWSTANDBY"),
        MainZoneControl::Input(i) => {
            push_str(&mut v, "SI");
            push_str(&mut v, i.as_str());
        },
        MainZoneControl::Volume(l) => {
            let tenths = l.tenths();
            let base = tenths / 10;
            push_str(&mut v, "MV");
            let digits = decimal2_exec(base as u64);
            push_chars(&mut v, &digits);
            if tenths % 10 != 0 {
                v.push('5');
            }
            proof {
                let t = l.tenths_spec() as int;
                assert((t - 800) / 10 == t / 10 - 80);
                assert((t - 800) % 10 == t % 10);
            }
        },
        MainZoneControl::Mute(MuteState::On) => push_str(&mut v, "MUON"),
        MainZoneControl::Mute(MuteState::Off) => push_str(&mut v, "MUOFF"),
        MainZoneControl::SurroundMode(m) => {
            push_str(&mut v, "MS");
            push_str(&mut v, m.as_str());
        },
    }
    assert(v@ =~= control_text(*control));
    proof {
        reveal_strlit("PWON");
        reveal_strlit("PWSTANDBY");
        reveal_strlit("SI");
        reveal_strlit("MV");
        reveal_strlit("MUON");
        reveal_strlit("MUOFF");
        reveal_strlit("MS");
    }
    assert(v@.len() > 0);
    let text = string_of(&v);
    AvrCommand::new(text.as_str())
}

#[derive(Debug, Clone, PartialEq, Eq)]
pub enum AvrProtocolError {
    InvalidCommand(&'static str),
    InvalidUtf8,
    EmptyLine,
    InvalidVolume(&'static str),
    MalformedResponse(&'static str),
    Unavailable(&'static str),
    UnexpectedResponse { field: MainZoneField, response: String },
}

impl AvrProtocolError {
    pub open spec fn text(&self) -> Seq<char> {
        match self {
            AvrProtocolError::InvalidCommand(m) => m@,
            AvrProtocolError::InvalidVolume(m) => m@,
            AvrProtocolError::MalformedResponse(m) => m@,
            AvrProtocolError::Unavailable(m) => m@,
            AvrProtocolError::InvalidUtf8 => "AVR line is not valid UTF-8"@,
            AvrProtocolError::EmptyLine => "AVR line is empty"@,
            AvrProtocolError::UnexpectedResponse { field, response } => "unexpected "@ + field_name(
                *field,
            ) + " response "@ + response@,
        }
    }

    /// The error's human-readable text.
    pub fn message(&self) -> (r: String)
        ensures
            r@ == self.text(),
    {
        let mut v: Vec<char> = Vec::new();
        match self {
            AvrProtocolError::InvalidCommand(m) => push_str(&mut v, m),
            AvrProtocolError::InvalidVolume(m) => push_str(&mut v, m),
            AvrProtocolError::MalformedResponse(m) => push_str(&mut v, m),
            AvrProtocolError::Unavailable(m) => push_str(&mut v, m),
            AvrProtocolError::InvalidUtf8 => push_str(&mut v, "AVR line is not valid UTF-8"),
            AvrProtocolError::EmptyLine => push_str(&mut v, "AVR line is empty"),
            AvrProtocolError::UnexpectedResponse { field, response } => {
                push_str(&mut v, "unexpected ");
                push_str(&mut v, field.name());
                push_str(&mut v, " response ");
                push_str(&mut v, response.as_str());
            },
        }
        string_of(&v)
    }
}

} // verus!
