//! Text the desktop client shows for Quick Select presets and EQ status.
use crate::domain::eq_status::{explanation_text, feature_label, state_of, EqFeature, EqStatus};
use crate::domain::quick_select::{QuickSelectPreset, QuickSelectSlot, QuickSelectSnapshot, QuickSelectSummary, Registered};
use crate::text::{chars_of, decimal, decimal_exec, push_chars, push_str, string_of};
use vstd::prelude::*;

verus! {

/// The items joined with `sep` between neighbours.
pub open spec fn join(items: Seq<Seq<char>>, sep: Seq<char>) -> Seq<char>
    decreases items.len(),
{
    if items.len() == 0 {
        Seq::empty()
    } else if items.len() == 1 {
        items[0]
    } else {
        join(items.drop_last(), sep) + sep + items.last()
    }
}

fn join_exec(items: &Vec<Vec<char>>, sep: &str) -> (r: String)
    ensures
        r@ == join(items@.map_values(|v: Vec<char>| v@), sep@),
{
    let ghost all = items@.map_values(|v: Vec<char>| v@);
    let mut out: Vec<char> = Vec::new();
    let mut i: usize = 0;
    while i < items.len()
        invariant
            i <= items@.len(),
            all == items@.map_values(|v: Vec<char>| v@),
            out@ == join(all.take(i as int), sep@),
        decreases items@.len() - i,
    {
        assert(all.take(i + 1).drop_last() =~= all.take(i as int));
        if i > 0 {
            push_str(&mut out, sep);
        }
        push_chars(&mut out, &items[i]);
        i += 1;
    }
    assert(all.take(i as int) =~= all);
    string_of(&out)
}

/// How a preset reports one of its registered fields.
pub open spec fn registered_text<T>(field: Registered<T>) -> Seq<char> {
    match field {
        Registered::Included(_) => "included"@,
        Registered::Omitted => "not included"@,
        Registered::Unknown => "unknown"@,
    }
}

pub fn registered_label<T>(field: &Registered<T>) -> (r: &'static str)
    ensures
        r@ == registered_text(*field),
{
    match field {
        Registered::Included(_) => "included",
        Registered::Omitted => "not included",
        Registered::Unknown => "unknown",
    }
}

/// The shown fields of a preset's summary, each as `label=state`, in display order.
pub open spec fn summary_fields(s: QuickSelectSummary) -> Seq<Seq<char>> {
    seq![
        "source="@ + registered_text(s.input),
        "volume="@ + registered_text(s.volume),
        "mode="@ + registered_text(s.sound_mode),
        "channel levels="@ + registered_text(s.channel_levels),
        "Audyssey="@ + registered_text(s.audyssey),
        "Restorer="@ + registered_text(s.restorer),
        "Dialog Enhancer="@ + registered_text(s.dialog_enhancer),
        "HDMI output="@ + registered_text(s.hdmi_video_output),
        "speaker preset="@ + registered_text(s.speaker_preset),
        "Dirac Live="@ + registered_text(s.dirac_live),
    ]
}

/// The line shown for one Quick Select slot.
pub open spec fn quick_select_text(preset: Option<QuickSelectPreset>, number: u8) -> Seq<char> {
    match preset {
        None => "Quick Select "@ + decimal(number as nat) + ": Unknown (slot details are not queryable)"@,
        Some(p) => "Quick Select "@ + decimal(number as nat) + " — "@ + match p.name {
            Some(n) => n.text(),
            None => "Unnamed"@,
        } + " · registered fields: "@ + join(summary_fields(p.summary), ", "@),
    }
}

fn field_text(label: &str, state: &str) -> (r: Vec<char>)
    ensures
        r@ == label@ + state@,
{
    let mut v = chars_of(label);
    push_str(&mut v, state);
    v
}

fn summary_items(s: &QuickSelectSummary) -> (r: Vec<Vec<char>>)
    ensures
        r@.map_values(|v: Vec<char>| v@) == summary_fields(*s),
{
    let mut items: Vec<Vec<char>> = Vec::new();
    items.push(field_text("source=", registered_label(&s.input)));
    items.push(field_text("volume=", registered_label(&s.volume)));
    items.push(field_text("mode=", registered_label(&s.sound_mode)));
    items.push(field_text("channel levels=", registered_label(&s.channel_levels)));
    items.push(field_text("Audyssey=", registered_label(&s.audyssey)));
    items.push(field_text("Restorer=", registered_label(&s.restorer)));
    items.push(field_text("Dialog Enhancer=", registered_label(&s.dialog_enhancer)));
    items.push(field_text("HDMI output=", registered_label(&s.hdmi_video_output)));
    items.push(field_text("speaker preset=", registered_label(&s.speaker_preset)));
    items.push(field_text("Dirac Live=", registered_label(&s.dirac_live)));
    assert(items@.map_values(|v: Vec<char>| v@) =~= summary_fields(*s));
    items
}

/// The line shown for a Quick Select slot: its name and which fields the
/// preset registers, or that the slot was not reported.
pub fn quick_select_line(snapshot: &QuickSelectSnapshot, slot: QuickSelectSlot) -> (r: String)
    requires
        1 <= slot.number_spec() <= 4,
    ensures
        r@ == quick_select_text(snapshot.preset_at(slot), slot.number_spec()),
{
    let mut v = chars_of("Quick Select ");
    let n = decimal_exec(slot.number() as u64);
    push_chars(&mut v, &n);
    match snapshot.preset(slot) {
        None => {
            push_str(&mut v, ": Unknown (slot details are not queryable)");
            string_of(&v)
        },
        Some(preset) => {
            push_str(&mut v, " — ");
            match &preset.name {
                Some(name) => push_str(&mut v, name.as_str()),
                None => push_str(&mut v, "Unnamed"),
            }
            push_str(&mut v, " · registered fields: ");
            let items = summary_items(&preset.summary);
            let joined = join_exec(&items, ", ");
            push_str(&mut v, joined.as_str());
            string_of(&v)
        },
    }
}

/// Every EQ feature as `label: explanation`, in display order.
pub open spec fn eq_fields(status: EqStatus) -> Seq<Seq<char>> {
    Seq::new(6, |i: int| {
        let f = feature_at(i);
        feature_label(f) + ": "@ + explanation_text(state_of(status, f))
    })
}

pub open spec fn feature_at(i: int) -> EqFeature {
    if i == 0 {
        EqFeature::MultEqXt32
    } else if i == 1 {
        EqFeature::DynamicEq
    } else if i == 2 {
        EqFeature::DynamicEqReferenceLevel
    } else if i == 3 {
        EqFeature::DynamicVolume
    } else if i == 4 {
        EqFeature::AudysseyLfc
    } else {
        EqFeature::DiracLive
    }
}

/// The EQ status in one line: every feature with its explanation.
pub fn eq_summary(status: &EqStatus) -> (r: String)
    ensures
        r@ == join(eq_fields(*status), " · "@),
{
    let features = EqFeature::all();
    let mut items: Vec<Vec<char>> = Vec::new();
    let mut i: usize = 0;
    while i < 6
        invariant
            i <= 6,
            features@ == seq![
                EqFeature::MultEqXt32,
                EqFeature::DynamicEq,
                EqFeature::DynamicEqReferenceLevel,
                EqFeature::DynamicVolume,
                EqFeature::AudysseyLfc,
                EqFeature::DiracLive,
            ],
            items@.len() == i,
            forall|k: int| 0 <= k < i ==> #[trigger] items@[k]@ == eq_fields(*status)[k],
        decreases 6 - i,
    {
        let f = features[i];
        assert(f == feature_at(i as int));
        let mut item = chars_of(f.label());
        push_str(&mut item, ": ");
        push_str(&mut item, status.state(f).explanation());
        items.push(item);
        i += 1;
    }
    assert(items@.map_values(|v: Vec<char>| v@) =~= eq_fields(*status));
    join_exec(&items, " · ")
}

} // verus!
