//! Quick Select and EQ command primitives. A preset is recalled by one
//! command, so callers cannot replay it as several independent controls.
use super::command::{AvrCommand, AvrProtocolError};
use crate::avr::has_line_break;
use crate::domain::eq_status::{state_view, EqFeature, EqState, StateView};
use crate::domain::quick_select::QuickSelectSlot;
use crate::text::{
    chars_of, decimal, decimal_exec, has_char, has_prefix, lemma_decimal_digits, owned, push_chars,
    string_of, sub_vec, trim, trim_vec, upper_seq, upper_vec,
};
use vstd::prelude::*;

verus! {

/// The Quick Select recall of the main zone: `MSQUICK` and the slot number.
/// There is no per-slot query, so a recall is execute-only.
pub fn quick_select_command(slot: QuickSelectSlot) -> (c: AvrCommand)
    ensures
        c.text() == "MSQUICK"@ + decimal(slot.number_spec() as nat),
{
    let mut v = chars_of("MSQUICK");
    let d = decimal_exec(slot.number() as u64);
    push_chars(&mut v, &d);
    let s = string_of(&v);
    proof {
        reveal_strlit("MSQUICK");
        lemma_decimal_digits(slot.number_spec() as nat);
        let t = "MSQUICK"@ + decimal(slot.number_spec() as nat);
        assert(t =~= s@);
        assert(forall|i: int| 0 <= i < t.len() ==> t[i] != '\r' && t[i] != '\n');
        assert(!has_char(t, '\r'));
        assert(!has_char(t, '\n'));
    }
    AvrCommand::valid(s.as_str())
}

/// The status query of an EQ feature, spaced as the protocol documents it.
pub open spec fn eq_query_text(feature: EqFeature) -> Seq<char> {
    match feature {
        EqFeature::MultEqXt32 => "PSMULTEQ: ?"@,
        EqFeature::DynamicEq => "PSDYNEQ ?"@,
        EqFeature::DynamicEqReferenceLevel => "PSREFLEV ?"@,
        EqFeature::DynamicVolume => "PSDYNVOL ?"@,
        EqFeature::AudysseyLfc => "PSLFC ?"@,
        EqFeature::DiracLive => "PSDIRAC ?"@,
    }
}

/// The response family of an EQ feature.
pub open spec fn eq_family(feature: EqFeature) -> Seq<char> {
    match feature {
        EqFeature::MultEqXt32 => "PSMULTEQ"@,
        EqFeature::DynamicEq => "PSDYNEQ"@,
        EqFeature::DynamicEqReferenceLevel => "PSREFLEV"@,
        EqFeature::DynamicVolume => "PSDYNVOL"@,
        EqFeature::AudysseyLfc => "PSLFC"@,
        EqFeature::DiracLive => "PSDIRAC"@,
    }
}

fn no_line_break(s: &str) -> (r: bool)
    ensures
        r == !has_line_break(s@),
{
    let v = chars_of(s);
    !(crate::text::has_char_exec(&v, '\r') || crate::text::has_char_exec(&v, '\n'))
}

pub fn eq_status_query(feature: EqFeature) -> (c: AvrCommand)
    ensures
        c.text() == eq_query_text(feature),
{
    let text: &str = match feature {
        EqFeature::MultEqXt32 => "PSMULTEQ: ?",
        EqFeature::DynamicEq => "PSDYNEQ ?",
        EqFeature::DynamicEqReferenceLevel => "PSREFLEV ?",
        EqFeature::DynamicVolume => "PSDYNVOL ?",
        EqFeature::AudysseyLfc => "PSLFC ?",
        EqFeature::DiracLive => "PSDIRAC ?",
    };
    proof {
        reveal_strlit("PSMULTEQ: ?");
        reveal_strlit("PSDYNEQ ?");
        reveal_strlit("PSREFLEV ?");
        reveal_strlit("PSDYNVOL ?");
        reveal_strlit("PSLFC ?");
        reveal_strlit("PSDIRAC ?");
        assert(forall|i: int| 0 <= i < text@.len() ==> text@[i] != '\r' && text@[i] != '\n');
        assert(!has_char(text@, '\r'));
        assert(!has_char(text@, '\n'));
    }
    AvrCommand::valid(text)
}

fn eq_family_text(feature: EqFeature) -> (r: &'static str)
    ensures
        r@ == eq_family(feature),
{
    match feature {
        EqFeature::MultEqXt32 => "PSMULTEQ",
        EqFeature::DynamicEq => "PSDYNEQ",
        EqFeature::DynamicEqReferenceLevel => "PSREFLEV",
        EqFeature::DynamicVolume => "PSDYNVOL",
        EqFeature::AudysseyLfc => "PSLFC",
        EqFeature::DiracLive => "PSDIRAC",
    }
}

/// The state a reported EQ value stands for; the comparison ignores ASCII case,
/// a value of no known form stays as reported.
pub open spec fn eq_value_state(value: Seq<char>) -> StateView {
    let u = upper_seq(value);
    if u == "ON"@ || u == "1"@ {
        StateView::On
    } else if u == "OFF"@ || u == "0"@ {
        StateView::Off
    } else if u == "N/A"@ || u == "NA"@ || u == "NOT APPLICABLE"@ || u == "NOT_APPLICABLE"@ {
        StateView::NotApplicable("not applicable for the current setup"@)
    } else if u == "UNAVAILABLE"@ {
        StateView::Unavailable("not available for the current setup"@)
    } else if u == "UNSUPPORTED"@ {
        StateView::Unsupported
    } else if u == "UNKNOWN"@ {
        StateView::Unknown
    } else {
        StateView::Configured(value)
    }
}

/// An EQ value is on exactly when it reads, ignoring ASCII case, as `ON` or
/// `1`, and off exactly when it reads as `OFF` or `0`.
pub proof fn lemma_eq_on_off_values(value: Seq<char>)
    ensures
        eq_value_state(value) == StateView::On <==> (upper_seq(value) == "ON"@ || upper_seq(value) == "1"@),
        eq_value_state(value) == StateView::Off <==> (upper_seq(value) == "OFF"@ || upper_seq(value) == "0"@),
{
    reveal_strlit("ON");
    reveal_strlit("1");
    reveal_strlit("OFF");
    reveal_strlit("0");
    reveal_strlit("N/A");
    reveal_strlit("NA");
    reveal_strlit("NOT APPLICABLE");
    reveal_strlit("NOT_APPLICABLE");
    reveal_strlit("UNAVAILABLE");
    reveal_strlit("UNSUPPORTED");
    reveal_strlit("UNKNOWN");
    let u = upper_seq(value);
    assert("ON"@ != "OFF"@) by {
        assert("ON"@.len() != "OFF"@.len());
    }
    assert("ON"@ != "0"@) by {
        assert("ON"@.len() != "0"@.len());
    }
    assert("1"@ != "OFF"@) by {
        assert("1"@.len() != "OFF"@.len());
    }
    assert("1"@ != "0"@) by {
        assert("1"@[0] != "0"@[0]);
    }
}

/// What an EQ status response reads as: the feature's family, a `:` or a
/// space, then a value that is not blank; or the reason it does not.
pub open spec fn eq_outcome(feature: EqFeature, response: Seq<char>) -> Result<StateView, Seq<char>> {
    let family = eq_family(feature);
    if !has_prefix(response, family) {
        Err("EQ response has wrong family"@)
    } else {
        let suffix = response.skip(family.len() as int);
        if suffix.len() == 0 || (suffix[0] != ':' && suffix[0] != ' ') {
            Err("EQ response has no parameter separator"@)
        } else {
            let value = trim(suffix.skip(1));
            if value.len() == 0 {
                Err("EQ response has no value"@)
            } else {
                Ok(eq_value_state(value))
            }
        }
    }
}

fn eq_value(value: &[char]) -> (r: EqState)
    ensures
        state_view(r) == eq_value_state(value@),
{
    let u = upper_vec(value);
    let s = string_of(&u);
    proof {
        reveal_strlit("ON");
        reveal_strlit("1");
        reveal_strlit("OFF");
        reveal_strlit("0");
        reveal_strlit("N/A");
        reveal_strlit("NA");
        reveal_strlit("NOT APPLICABLE");
        reveal_strlit("NOT_APPLICABLE");
        reveal_strlit("UNAVAILABLE");
        reveal_strlit("UNSUPPORTED");
        reveal_strlit("UNKNOWN");
    }
    let t = s.as_str();
    if crate::text::str_eq(t, "ON") || crate::text::str_eq(t, "1") {
        EqState::On
    } else if crate::text::str_eq(t, "OFF") || crate::text::str_eq(t, "0") {
        EqState::Off
    } else if crate::text::str_eq(t, "N/A") || crate::text::str_eq(t, "NA") || crate::text::str_eq(t, "NOT APPLICABLE")
        || crate::text::str_eq(t, "NOT_APPLICABLE") {
        EqState::NotApplicable(owned("not applicable for the current setup"))
    } else if crate::text::str_eq(t, "UNAVAILABLE") {
        EqState::Unavailable(owned("not available for the current setup"))
    } else if crate::text::str_eq(t, "UNSUPPORTED") {
        EqState::Unsupported
    } else if crate::text::str_eq(t, "UNKNOWN") {
        EqState::Unknown
    } else {
        let copy = sub_vec(value, 0, value.len());
        assert(copy@ =~= value@);
        EqState::Configured(string_of(&copy))
    }
}

/// Reads an EQ status response for `feature`.
pub fn parse_eq_status(feature: EqFeature, response: &str) -> (r: Result<EqState, AvrProtocolError>)
    ensures
        eq_outcome(feature, response@) matches Ok(s) ==> (r matches Ok(x) && state_view(x) == s),
        eq_outcome(feature, response@) matches Err(m) ==> (r matches Err(
            AvrProtocolError::MalformedResponse(e)) && e@ == m),
{
    let family = chars_of(eq_family_text(feature));
    let v = chars_of(response);
    if !(family.len() <= v.len() && crate::text::eq_chars(&sub_vec(&v, 0, family.len()), &family)) {
        proof {
            if has_prefix(response@, family@) {
                assert(v@.subrange(0, family@.len() as int) =~= response@.take(family@.len() as int));
            }
        }
        return Err(AvrProtocolError::MalformedResponse("EQ response has wrong family"));
    }
    assert(v@.subrange(0, family@.len() as int) =~= response@.take(family@.len() as int));
    let suffix = sub_vec(&v, family.len(), v.len());
    assert(suffix@ =~= response@.skip(family@.len() as int));
    if suffix.len() == 0 || (suffix[0] != ':' && suffix[0] != ' ') {
        return Err(AvrProtocolError::MalformedResponse("EQ response has no parameter separator"));
    }
    let rest = sub_vec(&suffix, 1, suffix.len());
    assert(rest@ =~= suffix@.skip(1));
    let value = trim_vec(&rest);
    if value.len() == 0 {
        return Err(AvrProtocolError::MalformedResponse("EQ response has no value"));
    }
    Ok(eq_value(&value))
}

} // verus!
