//! Independent room-correction and audio-processing observations.
use super::Freshness;
use crate::text::{chars_of, eq_chars, owned, push_str, string_of, upper_seq, upper_vec};
use vstd::prelude::*;

verus! {

#[derive(Debug, Clone, Copy, PartialEq, Eq, Structural)]
pub enum EqFeature {
    MultEqXt32,
    DynamicEq,
    DynamicEqReferenceLevel,
    DynamicVolume,
    AudysseyLfc,
    DiracLive,
}

pub open spec fn feature_label(f: EqFeature) -> Seq<char> {
    match f {
        EqFeature::MultEqXt32 => "Audyssey MultEQ XT32"@,
        EqFeature::DynamicEq => "Dynamic EQ"@,
        EqFeature::DynamicEqReferenceLevel => "Dynamic EQ reference offset"@,
        EqFeature::DynamicVolume => "Dynamic Volume"@,
        EqFeature::AudysseyLfc => "Audyssey LFC"@,
        EqFeature::DiracLive => "Dirac Live"@,
    }
}

impl EqFeature {
    /// Every feature, in display order.
    pub fn all() -> (r: [EqFeature; 6])
        ensures
            r@ == seq![
                EqFeature::MultEqXt32,
                EqFeature::DynamicEq,
                EqFeature::DynamicEqReferenceLevel,
                EqFeature::DynamicVolume,
                EqFeature::AudysseyLfc,
                EqFeature::DiracLive,
            ],
    {
        [
            EqFeature::MultEqXt32,
            EqFeature::DynamicEq,
            EqFeature::DynamicEqReferenceLevel,
            EqFeature::DynamicVolume,
            EqFeature::AudysseyLfc,
            EqFeature::DiracLive,
        ]
    }

    pub fn label(self) -> (r: &'static str)
        ensures
            r@ == feature_label(self),
    {
        match self {
            EqFeature::MultEqXt32 => "Audyssey MultEQ XT32",
            EqFeature::DynamicEq => "Dynamic EQ",
            EqFeature::DynamicEqReferenceLevel => "Dynamic EQ reference offset",
            EqFeature::DynamicVolume => "Dynamic Volume",
            EqFeature::AudysseyLfc => "Audyssey LFC",
            EqFeature::DiracLive => "Dirac Live",
        }
    }
}

#[derive(Debug, Clone, PartialEq, Eq)]
pub enum EqState {
    On,
    Off,
    Configured(String),
    Unavailable(String),
    Unsupported,
    NotApplicable(String),
    Unknown,
}

/// An `EqState` with its text as a sequence.
pub enum StateView {
    On,
    Off,
    Configured(Seq<char>),
    Unavailable(Seq<char>),
    Unsupported,
    NotApplicable(Seq<char>),
    Unknown,
}

pub open spec fn state_view(s: EqState) -> StateView {
    match s {
        EqState::On => StateView::On,
        EqState::Off => StateView::Off,
        EqState::Configured(v) => StateView::Configured(v@),
        EqState::Unavailable(v) => StateView::Unavailable(v@),
        EqState::Unsupported => StateView::Unsupported,
        EqState::NotApplicable(v) => StateView::NotApplicable(v@),
        EqState::Unknown => StateView::Unknown,
    }
}

pub open spec fn explanation_text(s: EqState) -> Seq<char> {
    match s {
        EqState::On => "On"@,
        EqState::Off => "Off"@,
        EqState::Configured(v) => v@,
        EqState::Unavailable(v) => v@,
        EqState::Unsupported => "Unsupported"@,
        EqState::NotApplicable(v) => v@,
        EqState::Unknown => "EQ status not reported"@,
    }
}

impl EqState {
    pub fn explanation(&self) -> (r: &str)
        ensures
            r@ == explanation_text(*self),
    {
        match self {
            EqState::On => "On",
            EqState::Off => "Off",
            EqState::Configured(v) => v.as_str(),
            EqState::Unavailable(v) => v.as_str(),
            EqState::Unsupported => "Unsupported",
            EqState::NotApplicable(v) => v.as_str(),
            EqState::Unknown => "EQ status not reported",
        }
    }

    /// A copy with the same text.
    pub fn duplicate(&self) -> (r: EqState)
        ensures
            state_view(r) == state_view(*self),
    {
        match self {
            EqState::On => EqState::On,
            EqState::Off => EqState::Off,
            EqState::Configured(v) => EqState::Configured(owned(v.as_str())),
            EqState::Unavailable(v) => EqState::Unavailable(owned(v.as_str())),
            EqState::Unsupported => EqState::Unsupported,
            EqState::NotApplicable(v) => EqState::NotApplicable(owned(v.as_str())),
            EqState::Unknown => EqState::Unknown,
        }
    }
}

#[derive(Debug, Clone, PartialEq, Eq)]
pub struct EqEvidence {
    pub feature: EqFeature,
    pub response: Option<String>,
    pub error: Option<String>,
    pub elapsed_millis: u128,
}

#[derive(Debug, Clone, PartialEq, Eq)]
pub struct EqStatus {
    pub multeq_xt32: EqState,
    pub dynamic_eq: EqState,
    pub dynamic_eq_reference_level: EqState,
    pub dynamic_volume: EqState,
    pub audyssey_lfc: EqState,
    pub dirac_live: EqState,
    pub generation: u64,
    pub freshness: Freshness,
    pub evidence: Vec<EqEvidence>,
}

/// The six feature states of a status, in `EqFeature` order.
pub open spec fn states(s: EqStatus) -> Seq<StateView> {
    seq![
        state_view(s.multeq_xt32),
        state_view(s.dynamic_eq),
        state_view(s.dynamic_eq_reference_level),
        state_view(s.dynamic_volume),
        state_view(s.audyssey_lfc),
        state_view(s.dirac_live),
    ]
}

pub open spec fn feature_index(f: EqFeature) -> int {
    match f {
        EqFeature::MultEqXt32 => 0,
        EqFeature::DynamicEq => 1,
        EqFeature::DynamicEqReferenceLevel => 2,
        EqFeature::DynamicVolume => 3,
        EqFeature::AudysseyLfc => 4,
        EqFeature::DiracLive => 5,
    }
}

pub open spec fn state_of(s: EqStatus, f: EqFeature) -> EqState {
    match f {
        EqFeature::MultEqXt32 => s.multeq_xt32,
        EqFeature::DynamicEq => s.dynamic_eq,
        EqFeature::DynamicEqReferenceLevel => s.dynamic_eq_reference_level,
        EqFeature::DynamicVolume => s.dynamic_volume,
        EqFeature::AudysseyLfc => s.audyssey_lfc,
        EqFeature::DiracLive => s.dirac_live,
    }
}

pub open spec fn is_direct_mode(mode: Seq<char>) -> bool {
    upper_seq(mode) == "DIRECT"@ || upper_seq(mode) == "PURE DIRECT"@
}

/// The failed features whose previous observation is known.
pub open spec fn failed_features(evidence: Seq<EqEvidence>) -> Set<EqFeature> {
    Set::new(|f: EqFeature| exists|i: int| 0 <= i < evidence.len() && evidence[i].feature == f && evidence[i].error is Some)
}

/// After a partial refresh: a feature whose query failed keeps its previous
/// observation unless that was unknown; every other feature keeps its new state.
/// Some evidence record before index `i` reports a failed query of `f`.
pub open spec fn failed_before(evidence: Seq<EqEvidence>, i: int, f: EqFeature) -> bool {
    exists|j: int| 0 <= j < i && evidence[j].feature == f && evidence[j].error is Some
}

pub open spec fn merged_state(current: EqStatus, previous: EqStatus, f: EqFeature) -> StateView {
    if failed_features(current.evidence@).contains(f) && !(state_of(previous, f) is Unknown) {
        state_view(state_of(previous, f))
    } else {
        state_view(state_of(current, f))
    }
}

/// The evidence records about features other than `f`, in order.
pub open spec fn kept_evidence(evidence: Seq<EqEvidence>, f: EqFeature) -> Seq<EqEvidence> {
    evidence.filter(|e: EqEvidence| e.feature != f)
}

/// No two evidence records are about the same feature.
pub open spec fn one_per_feature(evidence: Seq<EqEvidence>) -> bool {
    forall|i: int, j: int| 0 <= i < j < evidence.len() ==> evidence[i].feature != evidence[j].feature
}

proof fn lemma_kept_evidence(evidence: Seq<EqEvidence>, f: EqFeature)
    requires
        one_per_feature(evidence),
    ensures
        one_per_feature(kept_evidence(evidence, f)),
        forall|k: int| 0 <= k < kept_evidence(evidence, f).len() ==> (#[trigger] kept_evidence(evidence, f)[k]).feature != f
            && exists|i: int| 0 <= i < evidence.len() && evidence[i] == kept_evidence(evidence, f)[k],
    decreases evidence.len(),
{
    reveal_with_fuel(Seq::<EqEvidence>::filter, 1);
    if evidence.len() > 0 {
        let d = evidence.drop_last();
        assert(one_per_feature(d));
        lemma_kept_evidence(d, f);
        let kd = kept_evidence(d, f);
        let k = kept_evidence(evidence, f);
        if evidence.last().feature != f {
            assert(k == kd.push(evidence.last()));
            assert forall|a: int| 0 <= a < kd.len() implies kd[a].feature != evidence.last().feature by {
                let i = choose|i: int| 0 <= i < d.len() && d[i] == kd[a];
                assert(evidence[i] == d[i]);
            }
            assert forall|a: int| 0 <= a < k.len() implies (#[trigger] k[a]).feature != f
                && exists|i: int| 0 <= i < evidence.len() && evidence[i] == k[a] by {
                if a < kd.len() {
                    let i = choose|i: int| 0 <= i < d.len() && d[i] == kd[a];
                    assert(evidence[i] == k[a]);
                } else {
                    assert(evidence[evidence.len() - 1] == k[a]);
                }
            }
        } else {
            assert(k == kd);
            assert forall|a: int| 0 <= a < k.len() implies (#[trigger] k[a]).feature != f
                && exists|i: int| 0 <= i < evidence.len() && evidence[i] == k[a] by {
                let i = choose|i: int| 0 <= i < d.len() && d[i] == kd[a];
                assert(evidence[i] == k[a]);
            }
        }
    }
}

/// Recording evidence keeps at most one record per feature, and the record
/// kept for the recorded feature is the new one.
pub proof fn lemma_recorded_evidence_is_one_per_feature(evidence: Seq<EqEvidence>, record: EqEvidence)
    requires
        one_per_feature(evidence),
    ensures
        one_per_feature(kept_evidence(evidence, record.feature).push(record)),
        forall|i: int| 0 <= i < kept_evidence(evidence, record.feature).push(record).len()
            && (#[trigger] kept_evidence(evidence, record.feature).push(record)[i]).feature == record.feature
            ==> kept_evidence(evidence, record.feature).push(record)[i] == record,
{
    lemma_kept_evidence(evidence, record.feature);
    let k = kept_evidence(evidence, record.feature);
    let n = k.push(record);
    assert forall|i: int, j: int| 0 <= i < j < n.len() implies n[i].feature != n[j].feature by {
        if j == n.len() - 1 {
            assert(k[i].feature != record.feature);
        } else {
            assert(n[i] == k[i] && n[j] == k[j]);
        }
    }
    assert forall|i: int| 0 <= i < n.len() && (#[trigger] n[i]).feature == record.feature implies n[i] == record by {
        if i < k.len() {
            assert(n[i] == k[i]);
        }
    }
}

impl EqStatus {
    pub fn default() -> (r: Self)
        ensures
            forall|f: EqFeature| state_of(r, f) is Unknown,
            r.generation == 0,
            r.freshness == Freshness::Unknown,
            r.evidence@.len() == 0,
    {
        EqStatus {
            multeq_xt32: EqState::Unknown,
            dynamic_eq: EqState::Unknown,
            dynamic_eq_reference_level: EqState::Unknown,
            dynamic_volume: EqState::Unknown,
            audyssey_lfc: EqState::Unknown,
            dirac_live: EqState::Unknown,
            generation: 0,
            freshness: Freshness::Unknown,
            evidence: Vec::new(),
        }
    }

    pub fn state(&self, feature: EqFeature) -> (r: &EqState)
        ensures
            *r == state_of(*self, feature),
    {
        match feature {
            EqFeature::MultEqXt32 => &self.multeq_xt32,
            EqFeature::DynamicEq => &self.dynamic_eq,
            EqFeature::DynamicEqReferenceLevel => &self.dynamic_eq_reference_level,
            EqFeature::DynamicVolume => &self.dynamic_volume,
            EqFeature::AudysseyLfc => &self.audyssey_lfc,
            EqFeature::DiracLive => &self.dirac_live,
        }
    }

    /// What `invalidate` leaves: every feature unknown, generation zero,
    /// marked invalidated, no evidence.
    pub open spec fn is_cleared(&self) -> bool {
        &&& forall|f: EqFeature| state_of(*self, f) is Unknown
        &&& self.generation == 0
        &&& self.freshness == Freshness::Invalidated
        &&& self.evidence@.len() == 0
    }

    /// Forgets everything observed; only the invalidation itself is recorded.
    pub fn invalidate(&mut self)
        ensures
            final(self).is_cleared(),
            forall|f: EqFeature| state_of(*final(self), f) is Unknown,
            final(self).generation == 0,
            final(self).freshness == Freshness::Invalidated,
            final(self).evidence@.len() == 0,
    {
        *self = EqStatus {
            multeq_xt32: EqState::Unknown,
            dynamic_eq: EqState::Unknown,
            dynamic_eq_reference_level: EqState::Unknown,
            dynamic_volume: EqState::Unknown,
            audyssey_lfc: EqState::Unknown,
            dirac_live: EqState::Unknown,
            generation: 0,
            freshness: Freshness::Invalidated,
            evidence: Vec::new(),
        };
    }

    /// Keeps at most one evidence record per feature: the newest.
    pub fn record_evidence(&mut self, evidence: EqEvidence)
        ensures
            final(self).evidence@ == kept_evidence(old(self).evidence@, evidence.feature).push(evidence),
            states(*final(self)) == states(*old(self)),
            final(self).generation == old(self).generation,
            final(self).freshness == old(self).freshness,
    {
        let mut old_list: Vec<EqEvidence> = Vec::new();
        std::mem::swap(&mut old_list, &mut self.evidence);
        let ghost original = old_list@;
        let ghost pred = |e: EqEvidence| e.feature != evidence.feature;
        let mut kept: Vec<EqEvidence> = Vec::new();
        let mut consumed: usize = 0;
        let n = old_list.len();
        assert(original.len() == n);
        assert(original.skip(0) =~= original);
        assert(original.take(0).filter(pred) =~= Seq::<EqEvidence>::empty()) by {
            reveal_with_fuel(Seq::<EqEvidence>::filter, 1);
        }
        while old_list.len() > 0
            invariant
                original == old(self).evidence@,
                original.len() <= usize::MAX,
                pred == (|e: EqEvidence| e.feature != evidence.feature),
                consumed + old_list@.len() == original.len(),
                old_list@ == original.skip(consumed as int),
                kept@ == original.take(consumed as int).filter(pred),
            decreases old_list@.len(),
        {
            let item = old_list.remove(0);
            proof {
                assert(original.take(consumed + 1).drop_last() =~= original.take(consumed as int));
                assert(original[consumed as int] == item);
                assert(original.skip(consumed + 1) =~= original.skip(consumed as int).drop_first());
            }
            let ghost before = kept@;
            let keep = item.feature != evidence.feature;
            assert(pred(item) == keep);
            if keep {
                kept.push(item);
            }
            proof {
                reveal_with_fuel(Seq::<EqEvidence>::filter, 1);
                let t = original.take(consumed + 1);
                assert(t.drop_last() =~= original.take(consumed as int));
                assert(t.last() == item);
            }
            consumed += 1;
        }
        assert(original.take(consumed as int) =~= original);
        assert(pred == (|e: EqEvidence| e.feature != evidence.feature));
        kept.push(evidence);
        self.evidence = kept;
    }

    /// Merge a partial refresh without erasing an authoritative observation
    /// merely because its follow-up query failed.
    pub fn preserve_failed_observations(&mut self, previous: &Self)
        ensures
            forall|f: EqFeature| #[trigger] state_view(state_of(*final(self), f)) == merged_state(*old(self), *previous, f),
            final(self).evidence@ == old(self).evidence@,
            final(self).generation == old(self).generation,
            final(self).freshness == old(self).freshness,
    {
        let mut i: usize = 0;
        while i < self.evidence.len()
            invariant
                i <= self.evidence@.len(),
                self.evidence@ == old(self).evidence@,
                self.generation == old(self).generation,
                self.freshness == old(self).freshness,
                forall|f: EqFeature| #[trigger] state_view(state_of(*self, f)) == if failed_before(self.evidence@, i as int, f) && !(state_of(*previous, f) is Unknown) {
                    state_view(state_of(*previous, f))
                } else {
                    state_view(state_of(*old(self), f))
                },
            decreases self.evidence@.len() - i,
        {
            let ghost before = *self;
            let feature = self.evidence[i].feature;
            let failed = self.evidence[i].error.is_some();
            proof {
                let ev = self.evidence@;
                assert forall|f: EqFeature| failed_before(ev, i + 1, f) == (failed_before(ev, i as int, f) || (f == feature && failed)) by {
                    if failed_before(ev, i + 1, f) {
                        let j = choose|j: int| 0 <= j < i + 1 && ev[j].feature == f && ev[j].error is Some;
                        if j < i {
                            assert(failed_before(ev, i as int, f));
                        }
                    }
                    if failed_before(ev, i as int, f) {
                        let j = choose|j: int| 0 <= j < i && ev[j].feature == f && ev[j].error is Some;
                        assert(0 <= j < i + 1 && ev[j].feature == f && ev[j].error is Some);
                    }
                    if f == feature && failed {
                        assert(0 <= i < i + 1 && ev[i as int].feature == f && ev[i as int].error is Some);
                    }
                }
            }
            if failed {
                let previous_state = previous.state(feature).duplicate();
                let unknown = match previous_state {
                    EqState::Unknown => true,
                    _ => false,
                };
                if !unknown {
                    match feature {
                        EqFeature::MultEqXt32 => self.multeq_xt32 = previous_state,
                        EqFeature::DynamicEq => self.dynamic_eq = previous_state,
                        EqFeature::DynamicEqReferenceLevel => self.dynamic_eq_reference_level = previous_state,
                        EqFeature::DynamicVolume => self.dynamic_volume = previous_state,
                        EqFeature::AudysseyLfc => self.audyssey_lfc = previous_state,
                        EqFeature::DiracLive => self.dirac_live = previous_state,
                    }
                }
            }
            proof {
                assert forall|f: EqFeature| #[trigger] state_view(state_of(*self, f)) == if failed_before(self.evidence@, i + 1, f) && !(state_of(*previous, f) is Unknown) {
                    state_view(state_of(*previous, f))
                } else {
                    state_view(state_of(*old(self), f))
                } by {
                    let _ = state_view(state_of(before, f));
                    let _ = state_view(state_of(*previous, f));
                }
            }
            i += 1;
        }
        assert forall|f: EqFeature| #[trigger] state_view(state_of(*self, f)) == merged_state(*old(self), *previous, f) by {
            assert(failed_features(old(self).evidence@).contains(f) == failed_before(self.evidence@, i as int, f));
        }
    }

    /// Direct modes bypass the processing features represented here. This is
    /// a receiver-mode restriction, not evidence that those features are off.
    pub fn apply_mode_restrictions(&mut self, mode: &str)
        ensures
            is_direct_mode(mode@) ==> forall|f: EqFeature| #[trigger] state_view(state_of(*final(self), f)) == StateView::NotApplicable("not applicable in "@ + mode@ + " mode"@),
            !is_direct_mode(mode@) ==> states(*final(self)) == states(*old(self)),
            final(self).evidence@ == old(self).evidence@,
            final(self).generation == old(self).generation,
            final(self).freshness == old(self).freshness,
    {
        let m = chars_of(mode);
        let u = upper_vec(&m);
        let direct = chars_of("DIRECT");
        let pure = chars_of("PURE DIRECT");
        if eq_chars(&u, &direct) || eq_chars(&u, &pure) {
            let mut text: Vec<char> = Vec::new();
            push_str(&mut text, "not applicable in ");
            push_str(&mut text, mode);
            push_str(&mut text, " mode");
            self.multeq_xt32 = EqState::NotApplicable(string_of(&text));
            self.dynamic_eq = EqState::NotApplicable(string_of(&text));
            self.dynamic_eq_reference_level = EqState::NotApplicable(string_of(&text));
            self.dynamic_volume = EqState::NotApplicable(string_of(&text));
            self.audyssey_lfc = EqState::NotApplicable(string_of(&text));
            self.dirac_live = EqState::NotApplicable(string_of(&text));
        }
    }
}

} // verus!
