//! Domain types for Denon/Marantz AVR control.
//!
//! The canonical domain model, independent of protocol details, transport
//! mechanisms, and infrastructure concerns.
pub mod capabilities;
pub mod eq_status;
pub mod information;
pub mod profile;
pub mod quick_select;
pub mod receiver;
pub mod source;

use crate::text::{chars_of, has_char, is_ctrl, is_ctrl_exec, decimal, decimal_exec, digit_char, digit_char_exec, push_chars, string_of, owned};
use vstd::prelude::*;

verus! {

#[derive(Debug, Clone, Copy, PartialEq, Eq, Structural)]
pub enum PowerState {
    On,
    Standby,
}

#[derive(Debug, Clone, Copy, PartialEq, Eq, Structural)]
pub enum MuteState {
    On,
    Off,
}

#[derive(Debug, Clone, Copy, PartialEq, Eq, Structural)]
pub enum Freshness {
    Unknown,
    Live,
    Partial,
    Invalidated,
}

/// A value a receiver accepts as one protocol token: non-empty, no control characters.
pub open spec fn token_ok(s: Seq<char>) -> bool {
    s.len() > 0 && !(exists|i: int| 0 <= i < s.len() && is_ctrl(s[i]))
}

pub fn check_token(v: &[char]) -> (r: bool)
    ensures
        r == token_ok(v@),
{
    if v.len() == 0 {
        return false;
    }
    let mut i: usize = 0;
    while i < v.len()
        invariant
            i <= v@.len(),
            forall|j: int| 0 <= j < i ==> !is_ctrl(v@[j]),
        decreases v@.len() - i,
    {
        if is_ctrl_exec(v[i]) {
            return false;
        }
        i += 1;
    }
    true
}

/// The error text for a rejected token.
pub open spec fn token_error(s: Seq<char>, empty: Seq<char>, control: Seq<char>) -> Seq<char> {
    if s.len() == 0 {
        empty
    } else {
        control
    }
}

/// A receiver input (source) name.
#[derive(Debug, Clone, PartialEq, Eq)]
pub struct Input(String);

impl Input {
    pub closed spec fn text(&self) -> Seq<char> {
        self.0@
    }

    pub fn new(value: &str) -> (r: Result<Self, &'static str>)
        ensures
            r is Ok <==> token_ok(value@),
            r matches Ok(i) ==> i.text() == value@,
            r matches Err(m) ==> m@ == token_error(value@, "input must not be empty"@, "input must not contain control characters"@),
    {
        let v = chars_of(value);
        if v.len() == 0 {
            return Err("input must not be empty");
        }
        if !check_token(&v) {
            return Err("input must not contain control characters");
        }
        Ok(Input(string_of(&v)))
    }

    pub fn as_str(&self) -> (r: &str)
        ensures
            r@ == self.text(),
    {
        self.0.as_str()
    }
}

/// A receiver surround (sound) mode name.
#[derive(Debug, Clone, PartialEq, Eq)]
pub struct SurroundMode(String);

impl SurroundMode {
    pub closed spec fn text(&self) -> Seq<char> {
        self.0@
    }

    pub fn new(value: &str) -> (r: Result<Self, &'static str>)
        ensures
            r is Ok <==> token_ok(value@),
            r matches Ok(i) ==> i.text() == value@,
            r matches Err(m) ==> m@ == token_error(value@, "surround mode must not be empty"@, "surround mode must not contain control characters"@),
    {
        let v = chars_of(value);
        if v.len() == 0 {
            return Err("surround mode must not be empty");
        }
        if !check_token(&v) {
            return Err("surround mode must not contain control characters");
        }
        Ok(SurroundMode(string_of(&v)))
    }

    pub fn as_str(&self) -> (r: &str)
        ensures
            r@ == self.text(),
    {
        self.0.as_str()
    }
}

/// An audio-context value (input mode or digital mode) as the receiver reports it.
#[derive(Debug, Clone, PartialEq, Eq)]
pub struct AudioContextValue(String);

impl AudioContextValue {
    pub closed spec fn text(&self) -> Seq<char> {
        self.0@
    }

    pub fn new(value: &str) -> (r: Result<Self, &'static str>)
        ensures
            r is Ok <==> token_ok(value@),
            r matches Ok(i) ==> i.text() == value@,
            r matches Err(m) ==> m@ == token_error(value@, "audio context value must not be empty"@, "audio context value must not contain control characters"@),
    {
        let v = chars_of(value);
        if v.len() == 0 {
            return Err("audio context value must not be empty");
        }
        if !check_token(&v) {
            return Err("audio context value must not contain control characters");
        }
        Ok(AudioContextValue(string_of(&v)))
    }

    pub fn as_str(&self) -> (r: &str)
        ensures
            r@ == self.text(),
    {
        self.0.as_str()
    }
}

#[derive(Debug, Clone, Copy, PartialEq, Eq, Structural)]
pub enum AudioContextField {
    InputMode,
    DigitalMode,
}

/// A master volume level on the receiver's 0.0–100.0 scale, in tenths.
#[derive(Debug, Clone, Copy, PartialEq, Eq, Structural)]
pub struct VolumeLevel(u16);

/// Levels run from 0.0 to 100.0 in 0.5 steps.
pub open spec fn level_ok(tenths: int) -> bool {
    0 <= tenths <= 1000 && tenths % 5 == 0
}

/// `"{whole}.{tenth}"`.
pub open spec fn level_text(tenths: nat) -> Seq<char> {
    decimal(tenths / 10) + seq!['.', digit_char(tenths % 10)]
}

impl VolumeLevel {
    pub closed spec fn tenths_spec(&self) -> nat {
        self.0 as nat
    }

    pub fn new(tenths: u16) -> (r: Result<Self, &'static str>)
        ensures
            r is Ok <==> level_ok(tenths as int),
            r matches Ok(l) ==> l.tenths_spec() == tenths,
            r matches Err(m) ==> m@ == "volume level must be between 0.0 and 100.0 in 0.5 steps"@,
    {
        if tenths > 1000 || tenths % 5 != 0 {
            return Err("volume level must be between 0.0 and 100.0 in 0.5 steps");
        }
        Ok(VolumeLevel(tenths))
    }

    pub fn tenths(&self) -> (r: u16)
        ensures
            r == self.tenths_spec(),
    {
        self.0
    }

    /// The receiver-native code: the level in tenths (`50.5` is `505`).
    pub fn to_native_code(&self) -> (r: u16)
        ensures
            r == self.tenths_spec(),
    {
        self.0
    }

    pub fn from_native_code(code: u16) -> (r: Result<Self, &'static str>)
        ensures
            r is Ok <==> level_ok(code as int),
            r matches Ok(l) ==> l.tenths_spec() == code,
    {
        VolumeLevel::new(code)
    }

    /// The level as text with one decimal, such as `50.5`.
    pub fn to_text(&self) -> (r: String)
        ensures
            r@ == level_text(self.tenths_spec()),
    {
        let mut v = decimal_exec((self.0 / 10) as u64);
        v.push('.');
        v.push(digit_char_exec((self.0 % 10) as u64));
        string_of(&v)
    }
}

/// An observed master volume: the receiver's code and its tenths of a dB.
#[derive(Debug, Clone, PartialEq, Eq)]
pub struct Volume {
    code: String,
    db_tenths: i16,
}

impl Volume {
    pub closed spec fn code_spec(&self) -> Seq<char> {
        self.code@
    }

    pub closed spec fn db_tenths_spec(&self) -> int {
        self.db_tenths as int
    }

    pub fn from_parts(code: &str, db_tenths: i16) -> (v: Self)
        ensures
            v.code_spec() == code@,
            v.db_tenths_spec() == db_tenths,
    {
        Volume { code: owned(code), db_tenths }
    }

    pub fn code(&self) -> (r: &str)
        ensures
            r@ == self.code_spec(),
    {
        self.code.as_str()
    }

    pub fn db_tenths(&self) -> (r: i16)
        ensures
            r == self.db_tenths_spec(),
    {
        self.db_tenths
    }

    /// The volume on the 0.0–100.0 level scale, where 80.0 is 0 dB.
    pub fn level(&self) -> (r: Result<VolumeLevel, &'static str>)
        ensures
            r is Ok <==> level_ok(self.db_tenths_spec() + 800),
            r matches Ok(l) ==> l.tenths_spec() == self.db_tenths_spec() + 800,
    {
        let t: i32 = self.db_tenths as i32 + 800;
        if t < 0 || t > 1000 {
            return Err("volume is outside the level scale");
        }
        VolumeLevel::new(t as u16)
    }
}

#[derive(Debug, Clone, Copy, PartialEq, Eq, Structural)]
pub enum MainZoneField {
    Power,
    Input,
    Volume,
    Mute,
    SurroundMode,
}

pub open spec fn field_name(field: MainZoneField) -> Seq<char> {
    match field {
        MainZoneField::Power => "power"@,
        MainZoneField::Input => "input"@,
        MainZoneField::Volume => "volume"@,
        MainZoneField::Mute => "mute"@,
        MainZoneField::SurroundMode => "surround mode"@,
    }
}

impl MainZoneField {
    /// The fields in query order.
    pub fn all() -> (r: [MainZoneField; 5])
        ensures
            r@ == seq![
                MainZoneField::Power,
                MainZoneField::Input,
                MainZoneField::Volume,
                MainZoneField::Mute,
                MainZoneField::SurroundMode,
            ],
    {
        [
            MainZoneField::Power,
            MainZoneField::Input,
            MainZoneField::Volume,
            MainZoneField::Mute,
            MainZoneField::SurroundMode,
        ]
    }

    pub fn name(&self) -> (r: &'static str)
        ensures
            r@ == field_name(*self),
    {
        match self {
            MainZoneField::Power => "power",
            MainZoneField::Input => "input",
            MainZoneField::Volume => "volume",
            MainZoneField::Mute => "mute",
            MainZoneField::SurroundMode => "surround mode",
        }
    }
}

#[derive(Debug, Clone, PartialEq, Eq)]
pub enum MainZoneValue {
    Power(PowerState),
    Input(Input),
    Volume(Volume),
    Mute(MuteState),
    SurroundMode(SurroundMode),
}

#[derive(Debug, Clone, PartialEq, Eq)]
pub enum MainZoneEvent {
    Changed(MainZoneValue),
    Unknown(String),
}

#[derive(Debug, Clone, PartialEq, Eq)]
pub enum MainZoneControl {
    Power(PowerState),
    Input(Input),
    Volume(VolumeLevel),
    Mute(MuteState),
    SurroundMode(SurroundMode),
}

#[derive(Debug, Clone, Copy, PartialEq, Eq, Structural)]
pub enum FieldErrorKind {
    Unavailable,
    Unsupported,
    Timeout,
    Malformed,
    Disconnected,
}

#[derive(Debug, Clone, PartialEq, Eq)]
pub struct FieldError {
    pub kind: FieldErrorKind,
    pub message: String,
}

#[derive(Debug, Clone, PartialEq, Eq)]
pub enum FieldStatus<T> {
    Value(T),
    Unavailable(FieldError),
}

} // verus!
