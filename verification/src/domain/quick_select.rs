//! Main Zone Quick Select observations and operations.
use super::{Freshness, Input, SurroundMode, VolumeLevel};
use crate::text::{chars_of, is_ctrl, is_ctrl_exec, string_of, trim, trim_vec};
use vstd::prelude::*;

verus! {

#[derive(Debug, Clone, Copy, PartialEq, Eq, PartialOrd, Ord, Hash, Structural)]
pub struct QuickSelectSlot(u8);

impl QuickSelectSlot {
    pub closed spec fn number_spec(self) -> u8 {
        self.0
    }

    /// The main zone's four slots, in order.
    pub fn all() -> (r: [QuickSelectSlot; 4])
        ensures
            r@.len() == 4,
            forall|i: int| 0 <= i < 4 ==> #[trigger] r@[i].number_spec() == i + 1,
    {
        [QuickSelectSlot(1), QuickSelectSlot(2), QuickSelectSlot(3), QuickSelectSlot(4)]
    }

    pub fn new(slot: u8) -> (r: Result<Self, &'static str>)
        ensures
            r is Ok <==> 1 <= slot <= 4,
            r matches Ok(s) ==> s.number_spec() == slot,
            r matches Err(m) ==> m@ == "Quick Select slot must be 1 through 4"@,
    {
        if 1 <= slot && slot <= 4 {
            Ok(QuickSelectSlot(slot))
        } else {
            Err("Quick Select slot must be 1 through 4")
        }
    }

    pub fn number(self) -> (r: u8)
        ensures
            r == self.number_spec(),
    {
        self.0
    }
}

#[derive(Debug, Clone, PartialEq, Eq)]
pub struct QuickSelectName(String);

pub open spec fn has_ctrl(s: Seq<char>) -> bool {
    exists|i: int| 0 <= i < s.len() && is_ctrl(s[i])
}

/// Names are trimmed; they must be non-empty, at most 16 characters, and free of control characters.
pub open spec fn name_result(value: Seq<char>) -> Result<Seq<char>, Seq<char>> {
    let t = trim(value);
    if t.len() == 0 {
        Err("Quick Select name must not be empty"@)
    } else if t.len() > 16 {
        Err("Quick Select name must not exceed 16 characters"@)
    } else if has_ctrl(t) {
        Err("Quick Select name must not contain control characters"@)
    } else {
        Ok(t)
    }
}

impl QuickSelectName {
    pub closed spec fn text(&self) -> Seq<char> {
        self.0@
    }

    pub fn new(value: &str) -> (r: Result<Self, &'static str>)
        ensures
            match name_result(value@) {
                Ok(t) => r matches Ok(n) && n.text() == t,
                Err(e) => r matches Err(m) && m@ == e,
            },
    {
        let v = chars_of(value);
        let t = trim_vec(&v);
        if t.len() == 0 {
            return Err("Quick Select name must not be empty");
        }
        if t.len() > 16 {
            return Err("Quick Select name must not exceed 16 characters");
        }
        let mut i: usize = 0;
        while i < t.len()
            invariant
                i <= t@.len(),
                t@ == trim(value@),
                0 < t@.len() <= 16,
                forall|j: int| 0 <= j < i ==> !is_ctrl(t@[j]),
            decreases t@.len() - i,
        {
            if is_ctrl_exec(t[i]) {
                assert(has_ctrl(t@));
                return Err("Quick Select name must not contain control characters");
            }
            i += 1;
        }
        Ok(QuickSelectName(string_of(&t)))
    }

    pub fn as_str(&self) -> (r: &str)
        ensures
            r@ == self.text(),
    {
        self.0.as_str()
    }
}

#[derive(Debug, Clone, PartialEq, Eq)]
pub enum Registered<T> {
    Included(T),
    Omitted,
    Unknown,
}

impl<T> Registered<T> {
    /// A field the receiver has not reported.
    pub fn default() -> (r: Self)
        ensures
            r is Unknown,
    {
        Registered::Unknown
    }
}

#[derive(Debug, Clone, PartialEq, Eq)]
pub struct QuickSelectSummary {
    pub input: Registered<Input>,
    pub volume: Registered<VolumeLevel>,
    pub sound_mode: Registered<SurroundMode>,
    pub channel_levels: Registered<String>,
    pub audyssey: Registered<String>,
    pub restorer: Registered<String>,
    pub dialog_enhancer: Registered<String>,
    pub hdmi_video_output: Registered<String>,
    pub speaker_preset: Registered<String>,
    pub dirac_live: Registered<String>,
    pub playback_content: Registered<String>,
    pub all_zone_stereo: Registered<String>,
    pub tv_audio_sharing: Registered<String>,
    pub video_select: Registered<String>,
}

impl QuickSelectSummary {
    /// A summary with every field unreported.
    pub fn default() -> (r: Self)
        ensures
            r.input is Unknown && r.volume is Unknown && r.sound_mode is Unknown
                && r.channel_levels is Unknown && r.audyssey is Unknown && r.restorer is Unknown
                && r.dialog_enhancer is Unknown && r.hdmi_video_output is Unknown
                && r.speaker_preset is Unknown && r.dirac_live is Unknown
                && r.playback_content is Unknown && r.all_zone_stereo is Unknown
                && r.tv_audio_sharing is Unknown && r.video_select is Unknown,
    {
        QuickSelectSummary {
            input: Registered::Unknown,
            volume: Registered::Unknown,
            sound_mode: Registered::Unknown,
            channel_levels: Registered::Unknown,
            audyssey: Registered::Unknown,
            restorer: Registered::Unknown,
            dialog_enhancer: Registered::Unknown,
            hdmi_video_output: Registered::Unknown,
            speaker_preset: Registered::Unknown,
            dirac_live: Registered::Unknown,
            playback_content: Registered::Unknown,
            all_zone_stereo: Registered::Unknown,
            tv_audio_sharing: Registered::Unknown,
            video_select: Registered::Unknown,
        }
    }
}

#[derive(Debug, Clone, PartialEq, Eq)]
pub struct QuickSelectPreset {
    pub slot: QuickSelectSlot,
    pub name: Option<QuickSelectName>,
    pub available: bool,
    pub summary: QuickSelectSummary,
}

/// The resource version after a change: one more, held at the maximum.
pub open spec fn next_version(v: u64) -> u64 {
    if v == u64::MAX {
        u64::MAX
    } else {
        (v + 1) as u64
    }
}

/// Every change moves the resource version strictly forward until it
/// saturates, so a recall that names an older version is recognised as stale.
pub proof fn lemma_version_moves_forward(v: u64)
    ensures
        v < u64::MAX ==> v < next_version(v),
        v <= next_version(v),
{
}

#[derive(Debug, Clone, PartialEq, Eq)]
pub struct QuickSelectSnapshot {
    pub presets: [Option<QuickSelectPreset>; 4],
    pub freshness: Freshness,
    pub generation: u64,
    resource_version: u64,
}

impl QuickSelectSnapshot {
    pub closed spec fn version(&self) -> u64 {
        self.resource_version
    }

    pub closed spec fn slots(&self) -> Seq<Option<QuickSelectPreset>> {
        self.presets@
    }

    pub closed spec fn fresh(&self) -> Freshness {
        self.freshness
    }

    pub closed spec fn gen(&self) -> u64 {
        self.generation
    }

    /// What `invalidate` leaves of `prior`: four empty slots, marked
    /// invalidated, the same generation and the next resource version.
    pub open spec fn is_invalidation_of(&self, prior: QuickSelectSnapshot) -> bool {
        &&& self.slots() == seq![None::<QuickSelectPreset>, None, None, None]
        &&& self.fresh() == Freshness::Invalidated
        &&& self.gen() == prior.gen()
        &&& self.version() == next_version(prior.version())
    }

    /// A snapshot always has four slots.
    pub proof fn lemma_four_slots(&self)
        ensures
            self.slots().len() == 4,
    {
    }

    /// Slot `n` is at index `n - 1`.
    pub open spec fn preset_at(&self, slot: QuickSelectSlot) -> Option<QuickSelectPreset> {
        self.slots()[slot.number_spec() - 1]
    }

    /// Nothing observed yet.
    pub fn default() -> (r: Self)
        ensures
            r.slots().len() == 4,
            forall|i: int| 0 <= i < 4 ==> r.slots()[i] is None,
            r.fresh() == Freshness::Unknown,
            r.gen() == 0,
            r.version() == 0,
            r.slots() == seq![None::<QuickSelectPreset>, None, None, None],
    {
        QuickSelectSnapshot {
            presets: [None, None, None, None],
            freshness: Freshness::Unknown,
            generation: 0,
            resource_version: 0,
        }
    }

    pub fn preset(&self, slot: QuickSelectSlot) -> (r: Option<&QuickSelectPreset>)
        requires
            1 <= slot.number_spec() <= 4,
        ensures
            match self.preset_at(slot) {
                Some(p) => r == Some(&p),
                None => r is None,
            },
    {
        let index = (slot.number() - 1) as usize;
        self.presets[index].as_ref()
    }

    /// Forgets every preset and bumps the resource version.
    pub fn invalidate(&mut self)
        ensures
            final(self).slots().len() == 4,
            forall|i: int| 0 <= i < 4 ==> final(self).slots()[i] is None,
            final(self).fresh() == Freshness::Invalidated,
            final(self).gen() == old(self).gen(),
            final(self).version() == next_version(old(self).version()),
            final(self).is_invalidation_of(*old(self)),
    {
        self.resource_version = self.resource_version.saturating_add(1);
        self.presets = [None, None, None, None];
        self.freshness = Freshness::Invalidated;
    }

    /// Records one preset in its slot, leaves the others, and bumps the resource version.
    pub fn set(&mut self, preset: QuickSelectPreset)
        requires
            1 <= preset.slot.number_spec() <= 4,
        ensures
            old(self).slots().len() == 4,
            final(self).slots().len() == 4,
            final(self).slots() == old(self).slots().update(preset.slot.number_spec() - 1, Some(preset)),
            final(self).fresh() == Freshness::Live,
            final(self).gen() == old(self).gen(),
            final(self).version() == next_version(old(self).version()),
    {
        let index = (preset.slot.number() - 1) as usize;
        self.presets[index] = Some(preset);
        self.resource_version = self.resource_version.saturating_add(1);
        self.freshness = Freshness::Live;
    }

    pub fn resource_version(&self) -> (r: u64)
        ensures
            r == self.version(),
    {
        self.resource_version
    }
}

#[derive(Debug, Clone, PartialEq, Eq)]
pub enum QuickSelectRecallOutcome {
    Pending { slot: QuickSelectSlot },
    Confirmed { slot: QuickSelectSlot },
    Rejected(String),
    Conflict { expected: u64, current: u64 },
    Unsupported(String),
    TransportFailure(String),
    Unconfirmed(String),
}

#[derive(Debug, Clone, Copy, PartialEq, Eq, Structural)]
pub enum QuickSelectRecallConfirmation {
    Authoritative,
    Dispatched,
}

} // verus!
