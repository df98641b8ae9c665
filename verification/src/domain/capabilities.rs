//! Model capability declarations.
use super::{Input, MainZoneControl, MuteState, PowerState, SurroundMode, VolumeLevel, token_error, token_ok, level_ok};
use crate::text::{chars_of, contains, contains_seq, eq_chars, owned, upper, upper_exec, string_of};
use vstd::prelude::*;

verus! {

#[derive(Debug, Clone, Copy, PartialEq, Eq, Structural)]
pub enum Model {
    AvrX3800h,
    Unknown,
}

/// Upper-cased, with spaces and hyphens removed.
pub open spec fn normalized_model(s: Seq<char>) -> Seq<char>
    decreases s.len(),
{
    if s.len() == 0 {
        Seq::empty()
    } else {
        let rest = normalized_model(s.drop_last());
        let c = s.last();
        if c == ' ' || c == '-' {
            rest
        } else {
            rest.push(upper(c))
        }
    }
}

pub open spec fn reported_model(s: Seq<char>) -> Model {
    if contains_seq(normalized_model(s), "AVRX3800H"@) || contains_seq(normalized_model(s), "AVCX3800H"@) {
        Model::AvrX3800h
    } else {
        Model::Unknown
    }
}

impl Model {
    pub fn from_reported(value: &str) -> (m: Self)
        ensures
            m == reported_model(value@),
    {
        let v = chars_of(value);
        let mut n: Vec<char> = Vec::new();
        let mut i: usize = 0;
        while i < v.len()
            invariant
                i <= v@.len(),
                n@ == normalized_model(v@.take(i as int)),
            decreases v@.len() - i,
        {
            assert(v@.take(i + 1).drop_last() =~= v@.take(i as int));
            if v[i] != ' ' && v[i] != '-' {
                n.push(upper_exec(v[i]));
            }
            i += 1;
        }
        assert(v@.take(v@.len() as int) =~= v@);
        let a = chars_of("AVRX3800H");
        let b = chars_of("AVCX3800H");
        if contains(&n, &a) || contains(&n, &b) {
            Model::AvrX3800h
        } else {
            Model::Unknown
        }
    }
}

#[derive(Debug, Clone, PartialEq, Eq)]
pub struct ModelCapabilities {
    pub model: Model,
    pub tcp_avr_port: u16,
    pub heos_cli_port: u16,
    pub supports_heos_secure_cli: Option<bool>,
    pub needs_live_validation: bool,
    pub writable: bool,
    pub native_volume_min: u16,
    pub native_volume_max: u16,
    pub inputs: Vec<&'static str>,
    pub surround_modes: Vec<&'static str>,
}

/// The validated AVR-X3800H input allowlist.
pub open spec fn x3800h_inputs() -> Seq<Seq<char>> {
    seq![
        "PHONO"@, "CD"@, "TUNER"@, "DVD"@, "BD"@, "GAME"@, "MEDIA PLAYER"@, "TV AUDIO"@,
        "AUX1"@, "AUX2"@, "AUX3"@, "AUX4"@, "AUX5"@, "AUX6"@, "AUX7"@,
    ]
}

/// The validated AVR-X3800H surround-mode allowlist.
pub open spec fn x3800h_surround_modes() -> Seq<Seq<char>> {
    seq!["DIRECT"@, "PURE DIRECT"@, "STEREO"@, "MULTI CH IN"@]
}

pub open spec fn views(v: Seq<&'static str>) -> Seq<Seq<char>> {
    v.map_values(|s: &'static str| s@)
}

pub open spec fn listed(list: Seq<&'static str>, s: Seq<char>) -> bool {
    exists|i: int| 0 <= i < list.len() && list[i]@ == s
}

pub(crate) fn x3800h_input_list() -> (v: Vec<&'static str>)
    ensures
        views(v@) == x3800h_inputs(),
{
    let v = vec![
        "PHONO", "CD", "TUNER", "DVD", "BD", "GAME", "MEDIA PLAYER", "TV AUDIO", "AUX1", "AUX2",
        "AUX3", "AUX4", "AUX5", "AUX6", "AUX7",
    ];
    assert(views(v@) =~= x3800h_inputs());
    v
}

fn x3800h_surround_list() -> (v: Vec<&'static str>)
    ensures
        views(v@) == x3800h_surround_modes(),
{
    let v = vec!["DIRECT", "PURE DIRECT", "STEREO", "MULTI CH IN"];
    assert(views(v@) =~= x3800h_surround_modes());
    v
}

pub(crate) fn is_listed(list: &Vec<&'static str>, value: &str) -> (r: bool)
    ensures
        r == listed(list@, value@),
{
    let v = chars_of(value);
    let mut i: usize = 0;
    while i < list.len()
        invariant
            i <= list@.len(),
            v@ == value@,
            forall|j: int| 0 <= j < i ==> list@[j]@ != value@,
        decreases list@.len() - i,
    {
        let item = chars_of(list[i]);
        if eq_chars(&item, &v) {
            return true;
        }
        i += 1;
    }
    false
}

/// Whether a control is within what a model's capabilities allow.
pub open spec fn control_allowed(c: ModelCapabilities, control: MainZoneControl) -> bool {
    c.writable && match control {
        MainZoneControl::Power(_) | MainZoneControl::Mute(_) => true,
        MainZoneControl::Volume(level) => c.native_volume_min <= level.tenths_spec() <= c.native_volume_max,
        MainZoneControl::Input(value) => listed(c.inputs@, value.text()),
        MainZoneControl::SurroundMode(value) => listed(c.surround_modes@, value.text()),
    }
}

/// Only writable capabilities allow a control. Where they are writable,
/// power and mute are always allowed, an input or surround mode exactly when
/// its allowlist names it, and a volume exactly when its native code lies in
/// the model's range.
pub proof fn lemma_control_support(c: ModelCapabilities, control: MainZoneControl)
    ensures
        !c.writable ==> !control_allowed(c, control),
        c.writable && (control is Power || control is Mute) ==> control_allowed(c, control),
        c.writable ==> (control matches MainZoneControl::Input(v) ==> (control_allowed(c, control) <==> listed(c.inputs@, v.text()))),
        c.writable ==> (control matches MainZoneControl::SurroundMode(m) ==> (control_allowed(c, control) <==> listed(c.surround_modes@, m.text()))),
        c.writable ==> (control matches MainZoneControl::Volume(l) ==> (control_allowed(c, control)
            <==> c.native_volume_min <= l.tenths_spec() <= c.native_volume_max)),
{
}

impl ModelCapabilities {
    /// Only the validated AVR-X3800H is writable; it alone has allowlists.
    pub fn for_model(model: Model) -> (c: Self)
        ensures
            c.model == model,
            c.tcp_avr_port == 23,
            c.heos_cli_port == 1255,
            c.supports_heos_secure_cli is None,
            c.writable == (model == Model::AvrX3800h),
            c.needs_live_validation == c.writable,
            c.native_volume_min == 0,
            c.native_volume_max == 985,
            views(c.inputs@) == if c.writable { x3800h_inputs() } else { Seq::empty() },
            views(c.surround_modes@) == if c.writable { x3800h_surround_modes() } else { Seq::empty() },
    {
        let writable = match model {
            Model::AvrX3800h => true,
            Model::Unknown => false,
        };
        let inputs = if writable { x3800h_input_list() } else { Vec::new() };
        let surround_modes = if writable { x3800h_surround_list() } else { Vec::new() };
        assert(!writable ==> views(inputs@) =~= Seq::empty());
        assert(!writable ==> views(surround_modes@) =~= Seq::empty());
        ModelCapabilities {
            model,
            tcp_avr_port: 23,
            heos_cli_port: 1255,
            supports_heos_secure_cli: None,
            needs_live_validation: writable,
            writable,
            native_volume_min: 0,
            native_volume_max: 985,
            inputs,
            surround_modes,
        }
    }

    pub fn supports_control(&self, control: &MainZoneControl) -> (r: bool)
        ensures
            r == control_allowed(*self, *control),
    {
        if !self.writable {
            return false;
        }
        match control {
            MainZoneControl::Power(_) | MainZoneControl::Mute(_) => true,
            MainZoneControl::Volume(level) => {
                let code = level.to_native_code();
                code >= self.native_volume_min && code <= self.native_volume_max
            },
            MainZoneControl::Input(value) => is_listed(&self.inputs, value.as_str()),
            MainZoneControl::SurroundMode(value) => is_listed(&self.surround_modes, value.as_str()),
        }
    }

    pub fn volume_level_from_native(&self, code: u16) -> (r: Result<VolumeLevel, &'static str>)
        ensures
            code < self.native_volume_min || code > self.native_volume_max ==> r == Err::<VolumeLevel, &'static str>("native volume code is outside model capability range"),
            self.native_volume_min <= code <= self.native_volume_max ==> (r is Ok <==> level_ok(code as int)),
            r matches Ok(l) ==> l.tenths_spec() == code,
    {
        if code < self.native_volume_min || code > self.native_volume_max {
            return Err("native volume code is outside model capability range");
        }
        VolumeLevel::from_native_code(code)
    }

    pub fn input(&self, value: &str) -> (r: Result<Input, &'static str>)
        ensures
            r is Ok <==> token_ok(value@) && listed(self.inputs@, value@),
            r matches Ok(i) ==> i.text() == value@,
            token_ok(value@) && !listed(self.inputs@, value@) ==> r == Err::<Input, &'static str>("input is not supported by this receiver"),
            !token_ok(value@) ==> (r matches Err(m) && m@ == token_error(value@, "input must not be empty"@, "input must not contain control characters"@)),
    {
        let input = Input::new(value)?;
        if is_listed(&self.inputs, input.as_str()) {
            Ok(input)
        } else {
            Err("input is not supported by this receiver")
        }
    }

    pub fn surround_mode(&self, value: &str) -> (r: Result<SurroundMode, &'static str>)
        ensures
            r is Ok <==> token_ok(value@) && listed(self.surround_modes@, value@),
            r matches Ok(i) ==> i.text() == value@,
            token_ok(value@) && !listed(self.surround_modes@, value@) ==> r == Err::<SurroundMode, &'static str>("surround mode is not supported by this receiver"),
            !token_ok(value@) ==> (r matches Err(m) && m@ == token_error(value@, "surround mode must not be empty"@, "surround mode must not contain control characters"@)),
    {
        let mode = SurroundMode::new(value)?;
        if is_listed(&self.surround_modes, mode.as_str()) {
            Ok(mode)
        } else {
            Err("surround mode is not supported by this receiver")
        }
    }
}

} // verus!
