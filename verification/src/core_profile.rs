//! Decisions of the canonical X3800H session that need no socket: which frames
//! become state, which fields a control disturbs, how a field is observed, and
//! how the canonical state maps onto the main-zone vocabulary.
use crate::domain::{MuteState, Volume, VolumeLevel, token_ok};
use crate::domain::profile::{
    CoreField, CoreFrame, Epoch, MasterVolume, ReceiverIntent, SoundModeIntent, SystemPower,
    ZonePower, half_step_in_range, intent_field,
};
use crate::domain::source::SourceId;
use crate::protocol::avr::x3800h::X3800hFrame;
use crate::session::ConnectionState;
use crate::text::{decimal, decimal2, decimal2_exec, decimal_exec, owned, push_chars, string_of};
use vstd::prelude::*;

verus! {

/// Typed frames become canonical state; a reported volume ceiling and unknown
/// frames remain diagnostics only.
pub fn core_frame(frame: X3800hFrame) -> (r: Option<CoreFrame>)
    ensures
        match frame {
            X3800hFrame::SystemPower(p) => r == Some(CoreFrame::SystemPower(p)),
            X3800hFrame::MainZonePower(p) => r == Some(CoreFrame::MainZonePower(p)),
            X3800hFrame::Zone2Power(p) => r == Some(CoreFrame::Zone2Power(p)),
            X3800hFrame::Source(id) => r == Some(CoreFrame::Source(id)),
            X3800hFrame::Volume(v) => r == Some(CoreFrame::Volume(v)),
            X3800hFrame::Mute(m) => r == Some(CoreFrame::Mute(m)),
            X3800hFrame::SoundMode(s) => r == Some(CoreFrame::SoundMode(s)),
            X3800hFrame::VolumeUnavailable => r matches Some(CoreFrame::VolumeUnavailable { raw })
                && raw@ == "MV---"@,
            X3800hFrame::VolumeLimit(_) => r is None,
            X3800hFrame::Unknown(_) => r is None,
        },
{
    match frame {
        X3800hFrame::SystemPower(value) => Some(CoreFrame::SystemPower(value)),
        X3800hFrame::MainZonePower(value) => Some(CoreFrame::MainZonePower(value)),
        X3800hFrame::Zone2Power(value) => Some(CoreFrame::Zone2Power(value)),
        X3800hFrame::Source(value) => Some(CoreFrame::Source(value)),
        X3800hFrame::Volume(value) => Some(CoreFrame::Volume(value)),
        X3800hFrame::Mute(value) => Some(CoreFrame::Mute(value)),
        X3800hFrame::SoundMode(value) => Some(CoreFrame::SoundMode(value)),
        X3800hFrame::VolumeUnavailable => Some(CoreFrame::VolumeUnavailable { raw: owned("MV---") }),
        X3800hFrame::VolumeLimit(_) => None,
        X3800hFrame::Unknown(_) => None,
    }
}

/// The fields a control of one field may disturb, the field itself first.
pub open spec fn dependencies(field: CoreField) -> Seq<CoreField> {
    match field {
        CoreField::SystemPower => seq![
            CoreField::SystemPower,
            CoreField::MainZonePower,
            CoreField::Source,
            CoreField::Volume,
            CoreField::Mute,
            CoreField::SoundMode,
            CoreField::Zone2Power,
        ],
        CoreField::MainZonePower => seq![
            CoreField::MainZonePower,
            CoreField::Source,
            CoreField::Volume,
            CoreField::Mute,
            CoreField::SoundMode,
        ],
        CoreField::Source => seq![CoreField::Source, CoreField::SoundMode],
        CoreField::Volume => seq![CoreField::Volume],
        CoreField::Mute => seq![CoreField::Mute],
        CoreField::SoundMode => seq![CoreField::SoundMode],
        CoreField::Zone2Power => seq![CoreField::Zone2Power],
    }
}

pub fn dependency_fields(field: CoreField) -> (r: Vec<CoreField>)
    ensures
        r@ == dependencies(field),
{
    let r = match field {
        CoreField::SystemPower => vec![
            CoreField::SystemPower,
            CoreField::MainZonePower,
            CoreField::Source,
            CoreField::Volume,
            CoreField::Mute,
            CoreField::SoundMode,
            CoreField::Zone2Power,
        ],
        CoreField::MainZonePower => vec![
            CoreField::MainZonePower,
            CoreField::Source,
            CoreField::Volume,
            CoreField::Mute,
            CoreField::SoundMode,
        ],
        CoreField::Source => vec![CoreField::Source, CoreField::SoundMode],
        CoreField::Volume => vec![CoreField::Volume],
        CoreField::Mute => vec![CoreField::Mute],
        CoreField::SoundMode => vec![CoreField::SoundMode],
        CoreField::Zone2Power => vec![CoreField::Zone2Power],
    };
    assert(r@ =~= dependencies(field));
    r
}

/// A control disturbs the field it changes, and a power change of the whole
/// receiver disturbs every field.
pub proof fn lemma_dependencies_cover_the_field(field: CoreField)
    ensures
        dependencies(field)[0] == field,
        dependencies(CoreField::SystemPower).contains(field),
{
    let all = dependencies(CoreField::SystemPower);
    match field {
        CoreField::SystemPower => assert(all[0] == field),
        CoreField::MainZonePower => assert(all[1] == field),
        CoreField::Source => assert(all[2] == field),
        CoreField::Volume => assert(all[3] == field),
        CoreField::Mute => assert(all[4] == field),
        CoreField::SoundMode => assert(all[5] == field),
        CoreField::Zone2Power => assert(all[6] == field),
    }
}

/// The intent whose query observes a field: its value is never written.
pub open spec fn is_probe(field: CoreField, intent: ReceiverIntent) -> bool {
    match field {
        CoreField::SystemPower => intent == ReceiverIntent::SystemPower(SystemPower::On),
        CoreField::MainZonePower => intent == ReceiverIntent::MainZonePower(ZonePower::On),
        CoreField::Zone2Power => intent == ReceiverIntent::Zone2Power(ZonePower::On),
        CoreField::Source => intent matches ReceiverIntent::Source(id) && id.text() == "CD"@,
        CoreField::Volume => intent == ReceiverIntent::Volume(MasterVolume::Minimum),
        CoreField::Mute => intent == ReceiverIntent::Mute(MuteState::Off),
        CoreField::SoundMode => intent == ReceiverIntent::SoundMode(SoundModeIntent::Auto),
    }
}

pub fn intent_for_field(field: CoreField) -> (r: ReceiverIntent)
    ensures
        is_probe(field, r),
        intent_field(r) == field,
{
    match field {
        CoreField::SystemPower => ReceiverIntent::SystemPower(SystemPower::On),
        CoreField::MainZonePower => ReceiverIntent::MainZonePower(ZonePower::On),
        CoreField::Zone2Power => ReceiverIntent::Zone2Power(ZonePower::On),
        CoreField::Source => {
            proof {
                reveal_strlit("CD");
            }
            ReceiverIntent::Source(SourceId::valid("CD"))
        },
        CoreField::Volume => ReceiverIntent::Volume(MasterVolume::Minimum),
        CoreField::Mute => ReceiverIntent::Mute(MuteState::Off),
        CoreField::SoundMode => ReceiverIntent::SoundMode(SoundModeIntent::Auto),
    }
}

/// The core fields in the order a synchronization pass observes them.
pub open spec fn core_fields() -> Seq<CoreField> {
    seq![
        CoreField::SystemPower,
        CoreField::MainZonePower,
        CoreField::Zone2Power,
        CoreField::Source,
        CoreField::Volume,
        CoreField::Mute,
        CoreField::SoundMode,
    ]
}

/// One probe per core field, in synchronization order.
pub fn core_intents() -> (r: Vec<ReceiverIntent>)
    ensures
        r@.len() == core_fields().len(),
        forall|i: int| 0 <= i < r@.len() ==> is_probe(core_fields()[i], #[trigger] r@[i]),
{
    let mut r: Vec<ReceiverIntent> = Vec::new();
    r.push(intent_for_field(CoreField::SystemPower));
    r.push(intent_for_field(CoreField::MainZonePower));
    r.push(intent_for_field(CoreField::Zone2Power));
    r.push(intent_for_field(CoreField::Source));
    r.push(intent_for_field(CoreField::Volume));
    r.push(intent_for_field(CoreField::Mute));
    r.push(intent_for_field(CoreField::SoundMode));
    r
}

/// What a change of connection epoch tells the main-zone observer: losing
/// the epoch means reconnecting, gaining one means connected, and a move from
/// one epoch to the next is no lifecycle event of its own.
pub open spec fn transition(previous: Option<Epoch>, current: Option<Epoch>) -> Option<ConnectionState> {
    if previous is Some && current is None {
        Some(ConnectionState::Reconnecting)
    } else if previous is None && current is Some {
        Some(ConnectionState::Connected)
    } else {
        None
    }
}

pub fn lifecycle_transition(previous: Option<Epoch>, current: Option<Epoch>) -> (r: Option<ConnectionState>)
    ensures
        r == transition(previous, current),
{
    match (previous.is_some(), current.is_some()) {
        (true, false) => Some(ConnectionState::Reconnecting),
        (false, true) => Some(ConnectionState::Connected),
        _ => None,
    }
}

/// `format!("{n:02}")` of an integer.
pub open spec fn padded2(n: int) -> Seq<char> {
    if n >= 0 {
        decimal2(n as nat)
    } else {
        seq!['-'] + decimal((-n) as nat)
    }
}

/// Integer division by two that rounds toward zero, as `i16` division does.
pub open spec fn half_toward_zero(n: int) -> int {
    if n >= 0 {
        n / 2
    } else {
        -((-n) / 2)
    }
}

/// The main-zone volume code of a half-step level: the whole-dB code, then
/// `5` for an odd native code.
pub open spec fn half_step_volume_code(step: int) -> Seq<char> {
    let native = step + 160;
    if native % 2 == 0 {
        padded2(half_toward_zero(native))
    } else {
        padded2(half_toward_zero(native)) + seq!['5']
    }
}

fn padded2_exec(n: i16) -> (r: Vec<char>)
    ensures
        r@ == padded2(n as int),
{
    if n >= 0 {
        decimal2_exec(n as u64)
    } else {
        let mut r: Vec<char> = Vec::new();
        r.push('-');
        let m: i32 = -(n as i32);
        let digits = decimal_exec(m as u64);
        push_chars(&mut r, &digits);
        r
    }
}

/// The canonical master volume in the main-zone vocabulary.
pub fn volume(value: MasterVolume) -> (r: Volume)
    requires
        value matches MasterVolume::DbHalfSteps(step) ==> -6553 <= step <= 6553,
    ensures
        value == MasterVolume::Minimum ==> r.code_spec() == "MIN"@ && r.db_tenths_spec() == 0,
        value matches MasterVolume::DbHalfSteps(step) ==> r.code_spec() == half_step_volume_code(
            step as int,
        ) && r.db_tenths_spec() == step * 5,
{
    match value {
        MasterVolume::Minimum => Volume::from_parts("MIN", 0),
        MasterVolume::DbHalfSteps(step) => {
            let native: i16 = step + 160;
            let half: i16 = if native >= 0 {
                native / 2
            } else {
                -((-native) / 2)
            };
            let odd: bool = if native >= 0 {
                native % 2 != 0
            } else {
                (-native) % 2 != 0
            };
            assert(odd == (native as int % 2 != 0));
            let mut code = padded2_exec(half);
            if odd {
                code.push('5');
            }
            let text = string_of(&code);
            Volume::from_parts(text.as_str(), step * 5)
        },
    }
}

/// The canonical master volume of a level: its whole-dB part, in half steps,
/// or the minimum where that is below the half-step range.
pub open spec fn master_volume_of(tenths: nat) -> MasterVolume {
    let step = (tenths / 10) as int * 2 - 160;
    if half_step_in_range(step) {
        MasterVolume::DbHalfSteps(step as i16)
    } else {
        MasterVolume::Minimum
    }
}

pub fn master_volume(value: VolumeLevel) -> (r: MasterVolume)
    ensures
        r == master_volume_of(value.tenths_spec()),
{
    let code: u16 = value.to_native_code() / 10;
    let step: i16 = (code as i16) * 2 - 160;
    match MasterVolume::db_half_steps(step) {
        Ok(v) => v,
        Err(_) => MasterVolume::Minimum,
    }
}

} // verus!
