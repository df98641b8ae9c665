//! What the receiver's HTTP information pages report about its signals.
use crate::domain::{FieldStatus, Freshness};
use vstd::prelude::*;

verus! {

/// What a receiver says of one channel of its speaker layout.
#[derive(Debug, Clone, Copy, PartialEq, Eq, Structural)]
pub enum ChannelSlotState {
    Active,
    Available,
    Absent,
    Unknown,
}

#[derive(Debug, Clone, PartialEq, Eq)]
pub struct ChannelSlot {
    pub label: String,
    pub state: ChannelSlotState,
}

#[derive(Debug, Clone, PartialEq, Eq)]
pub struct AudioInformation {
    pub input_mode: FieldStatus<String>,
    pub output: FieldStatus<String>,
    pub signal: FieldStatus<String>,
    pub sound: FieldStatus<String>,
    pub sample_rate: FieldStatus<String>,
}

#[derive(Debug, Clone, PartialEq, Eq)]
pub struct VideoInformation {
    pub monitor: FieldStatus<String>,
    pub hdmi_input: FieldStatus<String>,
    pub hdmi_output: FieldStatus<String>,
}

#[derive(Debug, Clone, PartialEq, Eq)]
pub struct AudysseyInformation {
    pub multeq: FieldStatus<String>,
    pub dynamic_eq: FieldStatus<String>,
    pub dynamic_volume: FieldStatus<String>,
}

/// One reading of the information pages.
#[derive(Debug, Clone, PartialEq, Eq)]
pub struct HttpInformationSnapshot {
    pub generation: u64,
    /// When the reading was taken, in milliseconds since the Unix epoch.
    pub observed_at: Option<u64>,
    pub freshness: Freshness,
    pub input_slots: FieldStatus<Vec<ChannelSlot>>,
    pub output_slots: FieldStatus<Vec<ChannelSlot>>,
    pub audio: AudioInformation,
    pub video: VideoInformation,
    pub audyssey: AudysseyInformation,
}

} // verus!
