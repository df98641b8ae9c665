//! Evidence-backed main-zone event reduction.
use crate::response::{
    mute_result, parse_input, parse_mute, parse_surround, parse_volume, prefixed_result,
    volume_result,
};
use crate::text::{owned, str_eq};
use vstd::prelude::*;

verus! {

#[derive(Debug, Clone, PartialEq, Eq)]
pub enum MainZoneEvent {
    Power(String),
    Input(String),
    Volume(String),
    Mute(String),
    Surround(String),
    Unknown(String),
}

#[derive(Debug, Clone, Copy, PartialEq, Eq, Structural)]
pub enum Freshness {
    Unknown,
    Live,
    Invalidated,
}

#[derive(Debug, Clone, Copy, PartialEq, Eq, Structural)]
pub enum StateAuthority {
    Unconfirmed,
    Event,
    Authoritative,
}

#[derive(Debug, Clone, PartialEq, Eq)]
pub struct MainZoneState {
    pub power: Option<String>,
    pub input: Option<String>,
    pub volume: Option<String>,
    pub mute: Option<String>,
    pub surround: Option<String>,
    pub freshness: Freshness,
    pub authority: StateAuthority,
}

/// The five observed values of a state, by their text.
pub struct MainZoneValues {
    pub power: Option<Seq<char>>,
    pub input: Option<Seq<char>>,
    pub volume: Option<Seq<char>>,
    pub mute: Option<Seq<char>>,
    pub surround: Option<Seq<char>>,
}

pub open spec fn opt_view(o: Option<String>) -> Option<Seq<char>> {
    match o {
        Some(s) => Some(s@),
        None => None,
    }
}

/// Observed values after one event: a recognised event replaces its own field.
pub open spec fn values_after(v: MainZoneValues, event: MainZoneEvent) -> MainZoneValues {
    match event {
        MainZoneEvent::Power(x) => MainZoneValues { power: Some(x@), ..v },
        MainZoneEvent::Input(x) => MainZoneValues { input: Some(x@), ..v },
        MainZoneEvent::Volume(x) => MainZoneValues { volume: Some(x@), ..v },
        MainZoneEvent::Mute(x) => MainZoneValues { mute: Some(x@), ..v },
        MainZoneEvent::Surround(x) => MainZoneValues { surround: Some(x@), ..v },
        MainZoneEvent::Unknown(_) => v,
    }
}

/// The field an event reports, numbered in the order power, input, volume,
/// mute, surround; an unknown line reports none.
pub open spec fn event_field(event: MainZoneEvent) -> Option<int> {
    match event {
        MainZoneEvent::Power(_) => Some(0),
        MainZoneEvent::Input(_) => Some(1),
        MainZoneEvent::Volume(_) => Some(2),
        MainZoneEvent::Mute(_) => Some(3),
        MainZoneEvent::Surround(_) => Some(4),
        MainZoneEvent::Unknown(_) => None,
    }
}

/// An unknown line never changes the observed values.
pub proof fn lemma_unknown_event_changes_nothing(v: MainZoneValues, event: MainZoneEvent)
    requires
        event is Unknown,
    ensures
        values_after(v, event) == v,
{
}

/// Of two events about the same field, the later one decides its value.
pub proof fn lemma_later_event_wins(v: MainZoneValues, first: MainZoneEvent, second: MainZoneEvent)
    requires
        event_field(first) is Some,
        event_field(first) == event_field(second),
    ensures
        values_after(values_after(v, first), second) == values_after(v, second),
{
}

/// Events about different fields may arrive in either order.
pub proof fn lemma_distinct_fields_commute(v: MainZoneValues, a: MainZoneEvent, b: MainZoneEvent)
    requires
        event_field(a) != event_field(b),
    ensures
        values_after(values_after(v, a), b) == values_after(values_after(v, b), a),
{
}

impl MainZoneState {
    pub open spec fn values(&self) -> MainZoneValues {
        MainZoneValues {
            power: opt_view(self.power),
            input: opt_view(self.input),
            volume: opt_view(self.volume),
            mute: opt_view(self.mute),
            surround: opt_view(self.surround),
        }
    }

    /// The state after one event: a recognised event replaces its own field
    /// and marks the state live and event-backed; an unknown line changes nothing.
    pub open spec fn after(self, event: MainZoneEvent) -> MainZoneValues {
        values_after(self.values(), event)
    }

    pub fn default() -> (s: Self)
        ensures
            s.power is None && s.input is None && s.volume is None && s.mute is None
                && s.surround is None,
            s.freshness == Freshness::Unknown,
            s.authority == StateAuthority::Unconfirmed,
    {
        MainZoneState {
            power: None,
            input: None,
            volume: None,
            mute: None,
            surround: None,
            freshness: Freshness::Unknown,
            authority: StateAuthority::Unconfirmed,
        }
    }

    pub fn invalidate(&mut self)
        ensures
            final(self).power is None && final(self).input is None && final(self).volume is None
                && final(self).mute is None && final(self).surround is None,
            final(self).freshness == Freshness::Invalidated,
            final(self).authority == StateAuthority::Unconfirmed,
    {
        self.power = None;
        self.input = None;
        self.volume = None;
        self.mute = None;
        self.surround = None;
        self.freshness = Freshness::Invalidated;
        self.authority = StateAuthority::Unconfirmed;
    }

    pub fn apply(&mut self, event: MainZoneEvent)
        ensures
            final(self).values() == old(self).after(event),
            event is Unknown ==> final(self).freshness == old(self).freshness
                && final(self).authority == old(self).authority,
            !(event is Unknown) ==> final(self).freshness == Freshness::Live
                && final(self).authority == StateAuthority::Event,
    {
        match event {
            MainZoneEvent::Power(v) => self.power = Some(v),
            MainZoneEvent::Input(v) => self.input = Some(v),
            MainZoneEvent::Volume(v) => self.volume = Some(v),
            MainZoneEvent::Mute(v) => self.mute = Some(v),
            MainZoneEvent::Surround(v) => self.surround = Some(v),
            MainZoneEvent::Unknown(_) => return ,
        };
        self.freshness = Freshness::Live;
        self.authority = StateAuthority::Event;
    }

    pub fn apply_authoritative(&mut self, event: MainZoneEvent)
        ensures
            final(self).values() == old(self).after(event),
            event is Unknown ==> final(self).freshness == old(self).freshness && (
            final(self).authority == if old(self).freshness == Freshness::Live {
                StateAuthority::Authoritative
            } else {
                old(self).authority
            }),
            !(event is Unknown) ==> final(self).freshness == Freshness::Live
                && final(self).authority == StateAuthority::Authoritative,
    {
        self.apply(event);
        if self.freshness == Freshness::Live {
            self.authority = StateAuthority::Authoritative;
        }
    }
}

/// Classification of one line as a main-zone event: power lines first, then
/// the first of input, volume, mute and surround whose parser accepts it.
pub open spec fn event_of(line: Seq<char>) -> (Seq<char>, Seq<char>) {
    if line == "PWON"@ {
        ("power"@, "on"@)
    } else if line == "PWSTANDBY"@ {
        ("power"@, "standby"@)
    } else if prefixed_result(line, "SI"@, "input"@) is Ok {
        ("input"@, prefixed_result(line, "SI"@, "input"@)->Ok_0)
    } else if volume_result(line) is Ok {
        ("volume"@, volume_result(line)->Ok_0)
    } else if mute_result(line) is Ok {
        ("mute"@, mute_result(line)->Ok_0)
    } else if prefixed_result(line, "MS"@, "surround"@) is Ok {
        ("surround"@, prefixed_result(line, "MS"@, "surround"@)->Ok_0)
    } else {
        ("unknown"@, line)
    }
}

/// Kind and payload of an event, as `event_of` names them.
pub open spec fn event_parts(e: MainZoneEvent) -> (Seq<char>, Seq<char>) {
    match e {
        MainZoneEvent::Power(v) => ("power"@, v@),
        MainZoneEvent::Input(v) => ("input"@, v@),
        MainZoneEvent::Volume(v) => ("volume"@, v@),
        MainZoneEvent::Mute(v) => ("mute"@, v@),
        MainZoneEvent::Surround(v) => ("surround"@, v@),
        MainZoneEvent::Unknown(v) => ("unknown"@, v@),
    }
}

pub fn parse_event(line: &str) -> (e: MainZoneEvent)
    ensures
        event_parts(e) == event_of(line@),
{
    if str_eq(line, "PWON") {
        MainZoneEvent::Power(owned("on"))
    } else if str_eq(line, "PWSTANDBY") {
        MainZoneEvent::Power(owned("standby"))
    } else if let Ok(v) = parse_input(line) {
        MainZoneEvent::Input(v)
    } else if let Ok(v) = parse_volume(line) {
        MainZoneEvent::Volume(v)
    } else if let Ok(v) = parse_mute(line) {
        MainZoneEvent::Mute(v)
    } else if let Ok(v) = parse_surround(line) {
        MainZoneEvent::Surround(v)
    } else {
        MainZoneEvent::Unknown(owned(line))
    }
}

} // verus!
