//! `typenetwork/name/mandatory_entries`: the font has the name table
//! entries that it needs, and those that are desirable.
use vstd::prelude::*;

use crate::checks::common::SUBFAMILY_NAME;
use crate::fontdata::{
    english_or_first_name, name_id_debug, name_id_debug_text, name_strings, read_english_or_first,
    read_name_strings, string_views,
};
use crate::status::{lemma_no_pass_concat, law_result_well_formed, no_pass, pass_view, well_formed_report, result_view, status_view, statuses_view, return_result, Status, StatusCode, StatusView};
use crate::text::{chars_of, eq_str, push_str, string_of};

verus! {

/// What the check expects of a name ID.
#[derive(PartialEq, Eq, Structural, Clone, Copy)]
pub enum EntryRule {
    /// The entry must be present, and no string of it empty.
    Required,
    /// The entry should be present.
    Optional,
    /// The entry should be absent.
    Unnecessary,
}

/// The style name that the check reads: the font's subfamily name (name ID
/// 2), else "Regular".
pub open spec fn entries_style(font: Seq<u8>) -> Seq<char> {
    match english_or_first_name(font, SUBFAMILY_NAME) {
        Some(n) => n,
        None => "Regular"@,
    }
}

/// Whether a style name is one of the RIBBI styles.
pub open spec fn is_ribbi(style: Seq<char>) -> bool {
    style == "Regular"@ || style == "Italic"@ || style == "Bold"@ || style == "Bold Italic"@
}

/// The required name IDs: family, subfamily, full and PostScript names, and
/// for a style that is not RIBBI the typographic family and subfamily names.
pub open spec fn required_ids(ribbi: bool) -> Seq<u16> {
    if ribbi {
        seq![1u16, 2, 4, 6]
    } else {
        seq![1u16, 2, 4, 6, 16, 17]
    }
}

/// The desirable name IDs.
pub open spec fn optional_ids() -> Seq<u16> {
    seq![0u16, 3, 5, 7, 8, 9, 10, 11, 12, 13, 14]
}

/// The name IDs that a RIBBI style does not need: the typographic family
/// and subfamily names.
pub open spec fn unnecessary_ids(ribbi: bool) -> Seq<u16> {
    if ribbi {
        seq![16u16, 17]
    } else {
        Seq::<u16>::empty()
    }
}

/// Whether the strings of an entry break the rule.
pub open spec fn breaks_rule(rule: EntryRule, entries: Seq<Seq<char>>) -> bool {
    match rule {
        EntryRule::Required => entries.len() == 0 || exists|i: int|
            0 <= i < entries.len() && #[trigger] entries[i].len() == 0,
        EntryRule::Optional => entries.len() == 0,
        EntryRule::Unnecessary => entries.len() != 0,
    }
}

/// The status for a name ID that breaks its rule.
pub open spec fn rule_status(rule: EntryRule, id: u16) -> StatusView {
    match rule {
        EntryRule::Required => status_view(
            StatusCode::Fail,
            "missing-required-entry"@,
            "Font lacks entry with nameId="@ + name_id_debug_text(id),
        ),
        EntryRule::Optional => status_view(
            StatusCode::Warn,
            "missing-optional-entry"@,
            "Font lacks entry with nameId="@ + name_id_debug_text(id),
        ),
        EntryRule::Unnecessary => status_view(
            StatusCode::Warn,
            "unnecessary-entry"@,
            "Font has unnecessary name entry with nameId="@ + name_id_debug_text(id),
        ),
    }
}

/// The statuses for the name IDs, in order, that break the rule.
pub open spec fn rule_problems(font: Seq<u8>, ids: Seq<u16>, rule: EntryRule) -> Seq<StatusView>
    decreases ids.len(),
{
    if ids.len() == 0 {
        Seq::<StatusView>::empty()
    } else {
        let prev = rule_problems(font, ids.drop_last(), rule);
        if breaks_rule(rule, name_strings(font, ids.last())) {
            prev.push(rule_status(rule, ids.last()))
        } else {
            prev
        }
    }
}

/// What the check reports for a font: the required entries that are
/// missing or hold an empty string, then the desirable ones that are
/// missing, then the unnecessary ones that are present; a pass where there
/// is none.
pub open spec fn mandatory_entries_statuses(font: Seq<u8>) -> Seq<StatusView> {
    let ribbi = is_ribbi(entries_style(font));
    result_view(
        rule_problems(font, required_ids(ribbi), EntryRule::Required) + rule_problems(
            font,
            optional_ids(),
            EntryRule::Optional,
        ) + rule_problems(font, unnecessary_ids(ribbi), EntryRule::Unnecessary),
    )
}

/// Which name IDs the check asks for: for a font whose subfamily name (ID
/// 2) is a RIBBI style ("Regular", "Italic", "Bold" or "Bold Italic"), or
/// that has none, IDs 1, 2, 4 and 6 are required and the typographic names
/// (16, 17) are unnecessary; for any other style 16 and 17 are required
/// too and nothing is unnecessary. IDs 0, 3, 5 and 7 to 14 are desirable
/// either way.
pub proof fn law_mandatory_entries_ids(font: Seq<u8>)
    ensures
        ({
            let s = english_or_first_name(font, 2u16);
            s is None || s == Some("Regular"@) || s == Some("Italic"@) || s == Some("Bold"@) || s
                == Some("Bold Italic"@)
        }) ==> mandatory_entries_statuses(font) == result_view(
            rule_problems(font, seq![1u16, 2, 4, 6], EntryRule::Required) + rule_problems(
                font,
                seq![0u16, 3, 5, 7, 8, 9, 10, 11, 12, 13, 14],
                EntryRule::Optional,
            ) + rule_problems(font, seq![16u16, 17], EntryRule::Unnecessary),
        ),
        !({
            let s = english_or_first_name(font, 2u16);
            s is None || s == Some("Regular"@) || s == Some("Italic"@) || s == Some("Bold"@) || s
                == Some("Bold Italic"@)
        }) ==> mandatory_entries_statuses(font) == result_view(
            rule_problems(font, seq![1u16, 2, 4, 6, 16, 17], EntryRule::Required) + rule_problems(
                font,
                seq![0u16, 3, 5, 7, 8, 9, 10, 11, 12, 13, 14],
                EntryRule::Optional,
            ) + rule_problems(font, Seq::<u16>::empty(), EntryRule::Unnecessary),
        ),
{
}

/// The rule's statuses hold no pass, and there is none exactly where no
/// name ID breaks the rule.
pub proof fn lemma_rule_problems(font: Seq<u8>, ids: Seq<u16>, rule: EntryRule)
    ensures
        no_pass(rule_problems(font, ids, rule)),
        rule_problems(font, ids, rule).len() == 0 <==> forall|k: int|
            0 <= k < ids.len() ==> !breaks_rule(rule, name_strings(font, #[trigger] ids[k])),
    decreases ids.len(),
{
    if ids.len() > 0 {
        let p = ids.drop_last();
        lemma_rule_problems(font, p, rule);
        let prev = rule_problems(font, p, rule);
        if breaks_rule(rule, name_strings(font, ids.last())) {
            let r = prev.push(rule_status(rule, ids.last()));
            assert forall|i: int| 0 <= i < r.len() implies (#[trigger] r[i]).severity
                != StatusCode::Pass by {
                if i < prev.len() {
                    assert(r[i] == prev[i]);
                }
            }
            assert(ids[ids.len() - 1] == ids.last());
        } else {
            assert forall|k: int| 0 <= k < p.len() implies #[trigger] p[k] == ids[k] by {}
            if prev.len() == 0 {
                assert forall|k: int| 0 <= k < ids.len() implies !breaks_rule(
                    rule,
                    name_strings(font, #[trigger] ids[k]),
                ) by {
                    if k < p.len() {
                        assert(ids[k] == p[k]);
                    }
                }
            } else {
                let k0 = choose|k: int|
                    0 <= k < p.len() && breaks_rule(rule, name_strings(font, #[trigger] p[k]));
                assert(ids[k0] == p[k0]);
            }
        }
    }
}

/// The check's report is well formed, and it is a single pass exactly
/// where every required name entry is present without an empty string,
/// every desirable one is present, and every unnecessary one is absent.
pub proof fn law_mandatory_entries(font: Seq<u8>)
    ensures
        well_formed_report(mandatory_entries_statuses(font)),
        mandatory_entries_statuses(font) == seq![pass_view()] <==> {
            let ribbi = is_ribbi(entries_style(font));
            &&& forall|k: int|
                0 <= k < required_ids(ribbi).len() ==> !breaks_rule(
                    EntryRule::Required,
                    name_strings(font, #[trigger] required_ids(ribbi)[k]),
                )
            &&& forall|k: int|
                0 <= k < optional_ids().len() ==> !breaks_rule(
                    EntryRule::Optional,
                    name_strings(font, #[trigger] optional_ids()[k]),
                )
            &&& forall|k: int|
                0 <= k < unnecessary_ids(ribbi).len() ==> !breaks_rule(
                    EntryRule::Unnecessary,
                    name_strings(font, #[trigger] unnecessary_ids(ribbi)[k]),
                )
        },
{
    let ribbi = is_ribbi(entries_style(font));
    let a = rule_problems(font, required_ids(ribbi), EntryRule::Required);
    let b = rule_problems(font, optional_ids(), EntryRule::Optional);
    let c = rule_problems(font, unnecessary_ids(ribbi), EntryRule::Unnecessary);
    lemma_rule_problems(font, required_ids(ribbi), EntryRule::Required);
    lemma_rule_problems(font, optional_ids(), EntryRule::Optional);
    lemma_rule_problems(font, unnecessary_ids(ribbi), EntryRule::Unnecessary);
    lemma_no_pass_concat(a, b);
    lemma_no_pass_concat(a + b, c);
    law_result_well_formed(a + b + c);
    if a + b + c == seq![pass_view()] {
        assert((a + b + c)[0].severity == StatusCode::Pass);
    }
    if a.len() != 0 || b.len() != 0 || c.len() != 0 {
        assert((a + b + c).len() != 0);
        if result_view(a + b + c) == seq![pass_view()] {
            assert((a + b + c)[0].severity == StatusCode::Pass);
        }
    }
}

/// Whether the strings break the rule.
fn check_rule(rule: EntryRule, entries: &Vec<String>) -> (b: bool)
    ensures
        b == breaks_rule(rule, string_views(entries@)),
{
    match rule {
        EntryRule::Required => {
            let mut i: usize = 0;
            while i < entries.len()
                invariant
                    rule == EntryRule::Required,
                    i <= entries.len(),
                    forall|j: int| 0 <= j < i ==> string_views(entries@)[j].len() != 0,
                decreases entries.len() - i,
            {
                if entries[i].as_str().unicode_len() == 0 {
                    proof {
                        let sv = string_views(entries@);
                        assert(sv[i as int] == entries@[i as int]@);
                        assert(sv[i as int].len() == 0);
                        assert(0 <= i < sv.len());
                        assert(exists|j: int| 0 <= j < sv.len() && #[trigger] sv[j].len() == 0);
                    }
                    return true;
                }
                i = i + 1;
            }
            entries.len() == 0
        },
        EntryRule::Optional => entries.len() == 0,
        EntryRule::Unnecessary => entries.len() != 0,
    }
}

/// The status for a name ID that breaks its rule.
fn make_rule_status(rule: EntryRule, id: u16) -> (s: Status)
    ensures
        s@ == rule_status(rule, id),
{
    let mut msg: Vec<char> = Vec::new();
    let label = name_id_debug(id);
    match rule {
        EntryRule::Required => {
            push_str(&mut msg, "Font lacks entry with nameId=");
            push_str(&mut msg, label.as_str());
            Status::new(StatusCode::Fail, "missing-required-entry", string_of(&msg))
        },
        EntryRule::Optional => {
            push_str(&mut msg, "Font lacks entry with nameId=");
            push_str(&mut msg, label.as_str());
            Status::new(StatusCode::Warn, "missing-optional-entry", string_of(&msg))
        },
        EntryRule::Unnecessary => {
            push_str(&mut msg, "Font has unnecessary name entry with nameId=");
            push_str(&mut msg, label.as_str());
            Status::new(StatusCode::Warn, "unnecessary-entry", string_of(&msg))
        },
    }
}

/// Appends the statuses for the name IDs that break the rule.
fn push_rule_problems(font: &[u8], ids: &Vec<u16>, rule: EntryRule, out: &mut Vec<Status>)
    ensures
        statuses_view(final(out)@) == statuses_view(old(out)@) + rule_problems(font@, ids@, rule),
{
    let ghost start = statuses_view(out@);
    let mut i: usize = 0;
    while i < ids.len()
        invariant
            i <= ids.len(),
            statuses_view(out@) == start + rule_problems(font@, ids@.take(i as int), rule),
        decreases ids.len() - i,
    {
        let id = ids[i];
        let entries = read_name_strings(font, id);
        proof {
            assert(ids@.take(i + 1).drop_last() =~= ids@.take(i as int));
            assert(ids@.take(i + 1).last() == id);
        }
        if check_rule(rule, &entries) {
            let ghost before = out@;
            out.push(make_rule_status(rule, id));
            proof {
                assert(statuses_view(out@) =~= statuses_view(before).push(rule_status(rule, id)));
            }
        }
        i = i + 1;
        proof {
            assert(statuses_view(out@) =~= start + rule_problems(font@, ids@.take(i as int), rule));
        }
    }
    proof {
        assert(ids@.take(ids@.len() as int) =~= ids@);
    }
}

/// The check `typenetwork/name/mandatory_entries` on a font binary.
pub fn mandatory_entries(font: &[u8]) -> (r: Vec<Status>)
    ensures
        statuses_view(r@) == mandatory_entries_statuses(font@),
{
    let style: Vec<char> = match read_english_or_first(font, SUBFAMILY_NAME) {
        Some(n) => chars_of(n.as_str()),
        None => chars_of("Regular"),
    };
    let ribbi = eq_str(&style, "Regular") || eq_str(&style, "Italic") || eq_str(&style, "Bold")
        || eq_str(&style, "Bold Italic");
    let required: Vec<u16> = if ribbi {
        vec![1u16, 2, 4, 6]
    } else {
        vec![1u16, 2, 4, 6, 16, 17]
    };
    let optional: Vec<u16> = vec![0u16, 3, 5, 7, 8, 9, 10, 11, 12, 13, 14];
    let unnecessary: Vec<u16> = if ribbi {
        vec![16u16, 17]
    } else {
        Vec::new()
    };
    proof {
        assert(style@ == entries_style(font@));
        assert(required@ =~= required_ids(ribbi));
        assert(optional@ =~= optional_ids());
        assert(unnecessary@ =~= unnecessary_ids(ribbi));
    }
    let mut problems: Vec<Status> = Vec::new();
    push_rule_problems(font, &required, EntryRule::Required, &mut problems);
    push_rule_problems(font, &optional, EntryRule::Optional, &mut problems);
    push_rule_problems(font, &unnecessary, EntryRule::Unnecessary, &mut problems);
    proof {
        assert(statuses_view(problems@) =~= rule_problems(font@, required_ids(ribbi), EntryRule::Required)
            + rule_problems(font@, optional_ids(), EntryRule::Optional)
            + rule_problems(font@, unnecessary_ids(ribbi), EntryRule::Unnecessary));
    }
    return_result(problems)
}

} // verus!
