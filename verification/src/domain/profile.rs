//! Typed receiver vocabulary of the AVR-X3800H core profile: what can be asked
//! of a receiver, and what its frames report.
use crate::domain::MuteState;
use crate::domain::capabilities::{is_listed, listed, views, x3800h_input_list, x3800h_inputs};
use crate::domain::source::SourceId;
use crate::text::{chars_of, string_of, upper_seq, upper_vec};
use vstd::prelude::*;

verus! {

#[derive(Debug, Clone, Copy, PartialEq, Eq, Structural)]
pub enum SystemPower {
    On,
    Standby,
}

#[derive(Debug, Clone, Copy, PartialEq, Eq, Structural)]
pub enum ZonePower {
    On,
    Off,
}

/// The lowest master volume above `MIN`, in half-dB steps from 0 dB (`MV005`).
pub const LOWEST_HALF_STEP: i16 = -159;

/// The highest master volume, in half-dB steps from 0 dB (`MV98`).
pub const HIGHEST_HALF_STEP: i16 = 36;

pub open spec fn half_step_in_range(step: int) -> bool {
    LOWEST_HALF_STEP <= step <= HIGHEST_HALF_STEP
}

/// Master volume: the receiver's `MIN` setting, or a level in half-dB steps.
#[derive(Debug, Clone, Copy, PartialEq, Eq, Structural)]
pub enum MasterVolume {
    Minimum,
    DbHalfSteps(i16),
}

impl MasterVolume {
    pub open spec fn valid(&self) -> bool {
        match self {
            MasterVolume::Minimum => true,
            MasterVolume::DbHalfSteps(step) => half_step_in_range(*step as int),
        }
    }

    pub fn db_half_steps(step: i16) -> (r: Result<Self, &'static str>)
        ensures
            half_step_in_range(step as int) ==> r == Ok::<Self, &'static str>(
                MasterVolume::DbHalfSteps(step),
            ),
            !half_step_in_range(step as int) ==> r == Err::<Self, &'static str>(
                "master volume is outside the half-step range",
            ),
    {
        if LOWEST_HALF_STEP <= step && step <= HIGHEST_HALF_STEP {
            Ok(MasterVolume::DbHalfSteps(step))
        } else {
            Err("master volume is outside the half-step range")
        }
    }
}

/// A requested listening mode: a fixed family, or a mode named by the receiver.
#[derive(Debug, Clone, PartialEq, Eq)]
pub enum SoundModeIntent {
    Auto,
    Direct,
    PureDirect,
    Stereo,
    RecallMovie,
    RecallMusic,
    RecallGame,
    Select(String),
}

/// A listening mode as the receiver reported it.
#[derive(Debug, Clone, PartialEq, Eq)]
pub struct SoundModeStatus {
    pub id: String,
    pub raw: String,
}

/// The fields of the core receiver state.
#[derive(Debug, Clone, Copy, PartialEq, Eq, Structural)]
pub enum CoreField {
    SystemPower,
    MainZonePower,
    Zone2Power,
    Source,
    Volume,
    Mute,
    SoundMode,
}

/// One requested change of the core receiver state.
#[derive(Debug, Clone, PartialEq, Eq)]
pub enum ReceiverIntent {
    SystemPower(SystemPower),
    MainZonePower(ZonePower),
    Zone2Power(ZonePower),
    Source(SourceId),
    Volume(MasterVolume),
    Mute(MuteState),
    SoundMode(SoundModeIntent),
}

pub open spec fn intent_field(intent: ReceiverIntent) -> CoreField {
    match intent {
        ReceiverIntent::SystemPower(_) => CoreField::SystemPower,
        ReceiverIntent::MainZonePower(_) => CoreField::MainZonePower,
        ReceiverIntent::Zone2Power(_) => CoreField::Zone2Power,
        ReceiverIntent::Source(_) => CoreField::Source,
        ReceiverIntent::Volume(_) => CoreField::Volume,
        ReceiverIntent::Mute(_) => CoreField::Mute,
        ReceiverIntent::SoundMode(_) => CoreField::SoundMode,
    }
}

impl ReceiverIntent {
    /// The field the intent changes.
    pub fn field(&self) -> (f: CoreField)
        ensures
            f == intent_field(*self),
    {
        match self {
            ReceiverIntent::SystemPower(_) => CoreField::SystemPower,
            ReceiverIntent::MainZonePower(_) => CoreField::MainZonePower,
            ReceiverIntent::Zone2Power(_) => CoreField::Zone2Power,
            ReceiverIntent::Source(_) => CoreField::Source,
            ReceiverIntent::Volume(_) => CoreField::Volume,
            ReceiverIntent::Mute(_) => CoreField::Mute,
            ReceiverIntent::SoundMode(_) => CoreField::SoundMode,
        }
    }
}

/// One typed observation of the core receiver state.
#[derive(Debug, Clone, PartialEq, Eq)]
pub enum CoreFrame {
    SystemPower(SystemPower),
    MainZonePower(ZonePower),
    Zone2Power(ZonePower),
    Source(SourceId),
    Volume(MasterVolume),
    Mute(MuteState),
    SoundMode(SoundModeStatus),
    VolumeUnavailable { raw: String },
}

pub open spec fn frame_field(frame: CoreFrame) -> CoreField {
    match frame {
        CoreFrame::SystemPower(_) => CoreField::SystemPower,
        CoreFrame::MainZonePower(_) => CoreField::MainZonePower,
        CoreFrame::Zone2Power(_) => CoreField::Zone2Power,
        CoreFrame::Source(_) => CoreField::Source,
        CoreFrame::Volume(_) => CoreField::Volume,
        CoreFrame::VolumeUnavailable { .. } => CoreField::Volume,
        CoreFrame::Mute(_) => CoreField::Mute,
        CoreFrame::SoundMode(_) => CoreField::SoundMode,
    }
}

impl CoreFrame {
    /// The field the frame reports.
    pub fn field(&self) -> (f: CoreField)
        ensures
            f == frame_field(*self),
    {
        match self {
            CoreFrame::SystemPower(_) => CoreField::SystemPower,
            CoreFrame::MainZonePower(_) => CoreField::MainZonePower,
            CoreFrame::Zone2Power(_) => CoreField::Zone2Power,
            CoreFrame::Source(_) => CoreField::Source,
            CoreFrame::Volume(_) => CoreField::Volume,
            CoreFrame::VolumeUnavailable { .. } => CoreField::Volume,
            CoreFrame::Mute(_) => CoreField::Mute,
            CoreFrame::SoundMode(_) => CoreField::SoundMode,
        }
    }
}

/// The number of one receiver connection; each reconnect starts a later one.
#[derive(Debug, Clone, Copy, PartialEq, Eq, Structural)]
pub struct Epoch(pub u64);

/// The X3800H identifier of a source: its name in upper case, where that is
/// on the validated input allowlist.
pub open spec fn canonical_source(id: Seq<char>) -> Option<Seq<char>> {
    if x3800h_inputs().contains(upper_seq(id)) {
        Some(upper_seq(id))
    } else {
        None
    }
}

pub fn canonical_x3800h_source(id: &str) -> (r: Option<String>)
    ensures
        match r {
            Some(s) => canonical_source(id@) == Some(s@),
            None => canonical_source(id@) is None,
        },
{
    let upper = upper_vec(&chars_of(id));
    let text = string_of(&upper);
    let list = x3800h_input_list();
    let found = is_listed(&list, text.as_str());
    proof {
        let s = upper_seq(id@);
        if found {
            let i = choose|i: int| 0 <= i < list@.len() && list@[i]@ == s;
            assert(views(list@)[i] == s);
        } else {
            assert forall|i: int| 0 <= i < x3800h_inputs().len() implies x3800h_inputs()[i] != s by {
                assert(views(list@)[i] == list@[i]@);
            }
        }
    }
    if found {
        Some(text)
    } else {
        None
    }
}

} // verus!
