//! Translation of X3800H AppCommand replies into presentation-safe facts.
use crate::domain::information::{
    AudioInformation, AudysseyInformation, ChannelSlot, ChannelSlotState, HttpInformationSnapshot,
    VideoInformation,
};
use crate::domain::{FieldError, FieldErrorKind, FieldStatus, Freshness};
use crate::protocol::app_command::{
    control_code_of, first_named, lemma_first_named, first_value, parameter_names, parameters_view, result_names,
    results_view, AppCommandParameter, AppCommandResponse, ParameterView, ResultView,
};
use crate::text::{chars_of, owned, string_of, trim, upper_seq, upper_vec};
use vstd::prelude::*;

verus! {

/// The five information commands, in the order they are asked.
pub open spec fn information_names() -> Seq<Seq<char>> {
    seq!["GetInputSignal"@, "GetActiveSpeaker"@, "GetVideoInfo"@, "GetAudioInfo"@, "GetAudyssyInfo"@]
}

pub fn information_commands() -> (r: Vec<&'static str>)
    ensures
        r@.map_values(|s: &str| s@) == information_names(),
{
    let r = vec!["GetInputSignal", "GetActiveSpeaker", "GetVideoInfo", "GetAudioInfo", "GetAudyssyInfo"];
    assert(r@.map_values(|s: &str| s@) =~= information_names());
    r
}

pub open spec fn command_index(commands: Seq<ResultView>, name: Seq<char>) -> int {
    first_named(result_names(commands), name)
}

/// The information commands a response lacks, in asking order.
pub open spec fn missing_of(commands: Seq<ResultView>) -> Seq<Seq<char>> {
    information_names().filter(|name: Seq<char>| command_index(commands, name) < 0)
}

pub fn missing_information_commands(response: &AppCommandResponse) -> (r: Vec<&'static str>)
    ensures
        r@.map_values(|s: &str| s@) == missing_of(results_view(response.commands@)),
{
    let names = information_commands();
    let ghost all = names@.map_values(|s: &str| s@);
    let ghost keep = |name: Seq<char>| command_index(results_view(response.commands@), name) < 0;
    let mut r: Vec<&'static str> = Vec::new();
    let mut i: usize = 0;
    while i < names.len()
        invariant
            i <= names@.len(),
            all == names@.map_values(|s: &str| s@),
            all == information_names(),
            keep == (|name: Seq<char>| command_index(results_view(response.commands@), name) < 0),
            r@.map_values(|s: &str| s@) == all.take(i as int).filter(keep),
        decreases names@.len() - i,
    {
        let ghost before = r@.map_values(|s: &str| s@);
        assert(all.take(i + 1).drop_last() =~= all.take(i as int));
        reveal(Seq::filter);
        let name = names[i];
        if response.command(name).is_none() {
            r.push(name);
            assert(r@.map_values(|s: &str| s@) =~= before.push(name@));
        }
        i += 1;
    }
    assert(all.take(i as int) =~= all);
    r
}

/// A field's text, or why it is missing.
pub open spec fn text_of(commands: Seq<ResultView>, command: Seq<char>, parameter: Seq<char>) -> Result<Seq<char>, Seq<char>> {
    let i = command_index(commands, command);
    if i < 0 {
        Err("receiver did not return this information"@)
    } else {
        let ps = commands[i].parameters;
        let j = first_named(parameter_names(ps), parameter);
        if j < 0 {
            Err("receiver did not return this value"@)
        } else if trim(ps[j].value).len() == 0 {
            Err("receiver returned an empty value"@)
        } else {
            Ok(trim(ps[j].value))
        }
    }
}

/// A text field by its view: the value, or the message of an `Unavailable` error.
pub open spec fn text_status(s: FieldStatus<String>) -> Result<Seq<char>, Seq<char>> {
    match s {
        FieldStatus::Value(v) => Ok(v@),
        FieldStatus::Unavailable(e) => Err(e.message@),
    }
}

pub open spec fn unavailable_kind<T>(s: FieldStatus<T>) -> bool {
    s matches FieldStatus::Unavailable(e) ==> e.kind == FieldErrorKind::Unavailable
}

fn unavailable<T>(message: &str) -> (r: FieldStatus<T>)
    ensures
        r matches FieldStatus::Unavailable(e) && e.kind == FieldErrorKind::Unavailable && e.message@ == message@,
{
    FieldStatus::Unavailable(FieldError { kind: FieldErrorKind::Unavailable, message: owned(message) })
}

fn text(response: &AppCommandResponse, command: &str, parameter: &str) -> (r: FieldStatus<String>)
    ensures
        text_status(r) == text_of(results_view(response.commands@), command@, parameter@),
        unavailable_kind(r),
{
    let ghost cs = results_view(response.commands@);
    let result = match response.command(command) {
        None => return unavailable("receiver did not return this information"),
        Some(c) => c,
    };
    let ghost i = command_index(cs, command@);
    proof {
        lemma_first_named(result_names(cs), command@);
    }
    assert(cs[i] == result@);
    let found = match result.parameter(parameter) {
        None => return unavailable("receiver did not return this value"),
        Some(p) => p,
    };
    let ghost j = first_named(parameter_names(cs[i].parameters), parameter@);
    proof {
        lemma_first_named(parameter_names(cs[i].parameters), parameter@);
    }
    assert(cs[i].parameters[j] == found@);
    let value = found.trimmed_value();
    if value.as_str().is_empty() {
        unavailable("receiver returned an empty value")
    } else {
        FieldStatus::Value(value)
    }
}

/// The state a control code gives a channel.
pub open spec fn slot_state(code: Option<u8>) -> ChannelSlotState {
    match code {
        Some(2) => ChannelSlotState::Active,
        Some(1) => ChannelSlotState::Available,
        Some(0) => ChannelSlotState::Absent,
        _ => ChannelSlotState::Unknown,
    }
}

/// Control code 2 is the active channel, 1 an available one, 0 an absent
/// one; no other code, and no missing one, says anything of the channel.
pub proof fn lemma_slot_codes(code: Option<u8>)
    ensures
        slot_state(code) == ChannelSlotState::Active <==> code == Some(2u8),
        slot_state(code) == ChannelSlotState::Available <==> code == Some(1u8),
        slot_state(code) == ChannelSlotState::Absent <==> code == Some(0u8),
        slot_state(code) == ChannelSlotState::Unknown <==> !(code == Some(0u8) || code == Some(1u8) || code == Some(2u8)),
{
}

/// A parameter as a channel: its upper-case label and state; none for an empty label.
pub open spec fn slot_of(p: ParameterView) -> Option<(Seq<char>, ChannelSlotState)> {
    if trim(p.value).len() == 0 {
        None
    } else {
        Some((upper_seq(trim(p.value)), slot_state(control_code_of(first_value(p.attributes, "control"@)))))
    }
}

pub open spec fn slots_from(ps: Seq<ParameterView>) -> Seq<(Seq<char>, ChannelSlotState)>
    decreases ps.len(),
{
    if ps.len() == 0 {
        seq![]
    } else {
        match slot_of(ps.last()) {
            Some(s) => slots_from(ps.drop_last()).push(s),
            None => slots_from(ps.drop_last()),
        }
    }
}

pub open spec fn slots_of(commands: Seq<ResultView>, name: Seq<char>) -> Result<Seq<(Seq<char>, ChannelSlotState)>, Seq<char>> {
    let i = command_index(commands, name);
    if i < 0 {
        Err("receiver did not return channel layout"@)
    } else if slots_from(commands[i].parameters).len() == 0 {
        Err("receiver returned no channel slots"@)
    } else {
        Ok(slots_from(commands[i].parameters))
    }
}

pub open spec fn slot_view(s: ChannelSlot) -> (Seq<char>, ChannelSlotState) {
    (s.label@, s.state)
}

pub open spec fn slots_status(s: FieldStatus<Vec<ChannelSlot>>) -> Result<Seq<(Seq<char>, ChannelSlotState)>, Seq<char>> {
    match s {
        FieldStatus::Value(v) => Ok(v@.map_values(|c: ChannelSlot| slot_view(c))),
        FieldStatus::Unavailable(e) => Err(e.message@),
    }
}

fn slot(parameter: &AppCommandParameter) -> (r: Option<ChannelSlot>)
    ensures
        match slot_of(parameter@) {
            Some(s) => r matches Some(c) && slot_view(c) == s,
            None => r is None,
        },
{
    let label = parameter.trimmed_value();
    if label.as_str().is_empty() {
        return None;
    }
    let upper = upper_vec(&chars_of(label.as_str()));
    let state = match parameter.control_code() {
        Some(2) => ChannelSlotState::Active,
        Some(1) => ChannelSlotState::Available,
        Some(0) => ChannelSlotState::Absent,
        _ => ChannelSlotState::Unknown,
    };
    Some(ChannelSlot { label: string_of(&upper), state })
}

fn slots(response: &AppCommandResponse, name: &str) -> (r: FieldStatus<Vec<ChannelSlot>>)
    ensures
        slots_status(r) == slots_of(results_view(response.commands@), name@),
        unavailable_kind(r),
{
    let ghost cs = results_view(response.commands@);
    let command = match response.command(name) {
        None => return unavailable("receiver did not return channel layout"),
        Some(c) => c,
    };
    let ghost k = command_index(cs, name@);
    proof {
        lemma_first_named(result_names(cs), name@);
    }
    assert(cs[k] == command@);
    let ghost ps = parameters_view(command.parameters@);
    let mut found: Vec<ChannelSlot> = Vec::new();
    let mut i: usize = 0;
    while i < command.parameters.len()
        invariant
            i <= command.parameters@.len(),
            ps == parameters_view(command.parameters@),
            found@.map_values(|c: ChannelSlot| slot_view(c)) == slots_from(ps.take(i as int)),
        decreases command.parameters@.len() - i,
    {
        let ghost before = found@.map_values(|c: ChannelSlot| slot_view(c));
        assert(ps.take(i + 1).drop_last() =~= ps.take(i as int));
        assert(ps[i as int] == command.parameters@[i as int]@);
        match slot(&command.parameters[i]) {
            Some(s) => {
                found.push(s);
                assert(found@.map_values(|c: ChannelSlot| slot_view(c)) =~= before.push(slot_view(s)));
            },
            None => {},
        }
        i += 1;
    }
    assert(ps.take(i as int) =~= ps);
    if found.len() == 0 {
        unavailable("receiver returned no channel slots")
    } else {
        FieldStatus::Value(found)
    }
}

/// The information a reply holds, as read at `observed_at` (milliseconds since
/// the Unix epoch): `Partial` when one of the information commands is missing.
pub fn parse_http_information(response: &AppCommandResponse, generation: u64, observed_at: u64) -> (r: HttpInformationSnapshot)
    ensures
        ({
            let cs = results_view(response.commands@);
            &&& r.generation == generation
            &&& r.observed_at == Some(observed_at)
            &&& r.freshness == (if missing_of(cs).len() == 0 { Freshness::Live } else { Freshness::Partial })
            &&& slots_status(r.input_slots) == slots_of(cs, "GetInputSignal"@)
            &&& slots_status(r.output_slots) == slots_of(cs, "GetActiveSpeaker"@)
            &&& text_status(r.audio.input_mode) == text_of(cs, "GetAudioInfo"@, "inputmode"@)
            &&& text_status(r.audio.output) == text_of(cs, "GetAudioInfo"@, "output"@)
            &&& text_status(r.audio.signal) == text_of(cs, "GetAudioInfo"@, "signal"@)
            &&& text_status(r.audio.sound) == text_of(cs, "GetAudioInfo"@, "sound"@)
            &&& text_status(r.audio.sample_rate) == text_of(cs, "GetAudioInfo"@, "fs"@)
            &&& text_status(r.video.monitor) == text_of(cs, "GetVideoInfo"@, "videooutput"@)
            &&& text_status(r.video.hdmi_input) == text_of(cs, "GetVideoInfo"@, "hdmisigin"@)
            &&& text_status(r.video.hdmi_output) == text_of(cs, "GetVideoInfo"@, "hdmisigout"@)
            &&& text_status(r.audyssey.multeq) == text_of(cs, "GetAudyssyInfo"@, "eqvalue"@)
            &&& text_status(r.audyssey.dynamic_eq) == text_of(cs, "GetAudyssyInfo"@, "dynamiceq"@)
            &&& text_status(r.audyssey.dynamic_volume) == text_of(cs, "GetAudyssyInfo"@, "dynamicvol"@)
        }),
{
    let audio = AudioInformation {
        input_mode: text(response, "GetAudioInfo", "inputmode"),
        output: text(response, "GetAudioInfo", "output"),
        signal: text(response, "GetAudioInfo", "signal"),
        sound: text(response, "GetAudioInfo", "sound"),
        sample_rate: text(response, "GetAudioInfo", "fs"),
    };
    let video = VideoInformation {
        monitor: text(response, "GetVideoInfo", "videooutput"),
        hdmi_input: text(response, "GetVideoInfo", "hdmisigin"),
        hdmi_output: text(response, "GetVideoInfo", "hdmisigout"),
    };
    let audyssey = AudysseyInformation {
        multeq: text(response, "GetAudyssyInfo", "eqvalue"),
        dynamic_eq: text(response, "GetAudyssyInfo", "dynamiceq"),
        dynamic_volume: text(response, "GetAudyssyInfo", "dynamicvol"),
    };
    let missing = missing_information_commands(response);
    let freshness = if missing.len() == 0 { Freshness::Live } else { Freshness::Partial };
    HttpInformationSnapshot {
        generation,
        observed_at: Some(observed_at),
        freshness,
        input_slots: slots(response, "GetInputSignal"),
        output_slots: slots(response, "GetActiveSpeaker"),
        audio,
        video,
        audyssey,
    }
}

} // verus!
