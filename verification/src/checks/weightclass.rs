//! `typenetwork/weightclass`: the OS/2 usWeightClass suits the font's best
//! subfamily name.
//!
//! Type Network expects these usWeightClass values: Thin 100, XLight 200,
//! Light 300, Regular 400, Medium 500, SemiBold 600, Bold 700, XBold 800,
//! Black 900.
use vstd::prelude::*;

use crate::checks::common::{best_subfamily, best_subfamily_name};
use crate::fontdata::{os2_weight_class, read_os2_weight_class};
use crate::status::{
    well_formed_report, just_one, just_one_pass, pass_view, status_view, statuses_view, CheckError, Status,
    StatusCode, StatusView,
};
use crate::text::{
    ascii_lower, ascii_lowercase, chars_of, debug_ascii, decimal, eq_chars, eq_str, join,
    join_chars, lowercase, push_chars, push_debug_ascii, push_decimal, push_str, replace,
    replace_all, split, split_on, string_of, to_lowercase, views,
};

verus! {

/// The weight names that a usWeightClass value calls for, spelled as Type
/// Network's table spells them.
pub open spec fn weight_labels(weight_class: u16) -> Option<Seq<Seq<char>>> {
    if weight_class == 100 || weight_class == 250 {
        Some(seq!["Thin"@])
    } else if weight_class == 200 || weight_class == 275 {
        Some(seq!["XLight"@, "ExtraLight"@])
    } else if weight_class == 300 {
        Some(seq!["Light"@])
    } else if weight_class == 400 {
        Some(seq!["Regular"@])
    } else if weight_class == 500 {
        Some(seq!["Medium"@])
    } else if weight_class == 600 {
        Some(seq!["SemiBold"@])
    } else if weight_class == 700 {
        Some(seq!["Bold"@])
    } else if weight_class == 800 {
        Some(seq!["XBold"@, "ExtraBold"@])
    } else if weight_class == 900 {
        Some(seq!["Black"@])
    } else {
        None
    }
}

/// The weight names that a usWeightClass value calls for, lowercase: the
/// words that the lowercase style name is searched for.
pub open spec fn expected_weight_names(weight_class: u16) -> Option<Seq<Seq<char>>> {
    match weight_labels(weight_class) {
        Some(labels) => Some(labels.map_values(|n: Seq<char>| ascii_lower(n))),
        None => None,
    }
}

/// The views of a list of string slices.
pub open spec fn str_views(v: Seq<&str>) -> Seq<Seq<char>> {
    v.map_values(|s: &str| s@)
}

/// The weight names that a usWeightClass value calls for, as the table
/// spells them.
fn get_expected_weight_name(weight_class: u16) -> (r: Option<Vec<&'static str>>)
    ensures
        r matches Some(v) ==> weight_labels(weight_class) == Some(str_views(v@)),
        r is None <==> weight_labels(weight_class) is None,
{
    let r: Option<Vec<&'static str>> = if weight_class == 100 || weight_class == 250 {
        Some(vec!["Thin"])
    } else if weight_class == 200 || weight_class == 275 {
        Some(vec!["XLight", "ExtraLight"])
    } else if weight_class == 300 {
        Some(vec!["Light"])
    } else if weight_class == 400 {
        Some(vec!["Regular"])
    } else if weight_class == 500 {
        Some(vec!["Medium"])
    } else if weight_class == 600 {
        Some(vec!["SemiBold"])
    } else if weight_class == 700 {
        Some(vec!["Bold"])
    } else if weight_class == 800 {
        Some(vec!["XBold", "ExtraBold"])
    } else if weight_class == 900 {
        Some(vec!["Black"])
    } else {
        None
    };
    proof {
        if r is Some {
            assert(str_views(r.unwrap()@) =~= weight_labels(weight_class).unwrap());
        }
    }
    r
}

/// The style name that the check reads: the best subfamily name, else
/// "Regular".
pub open spec fn style_or_regular(best: Option<Seq<char>>) -> Seq<char> {
    match best {
        Some(n) => n,
        None => "Regular"@,
    }
}

/// The style name with "semi ", "ultra ", "extra " and "demi " joined to the
/// word that follows, in that order.
pub open spec fn joined_prefixes(style: Seq<char>) -> Seq<char> {
    replace_all(
        replace_all(
            replace_all(replace_all(style, "semi "@, "semi"@), "ultra "@, "ultra"@),
            "extra "@,
            "extra"@,
        ),
        "demi "@,
        "demi"@,
    )
}

/// The `Debug` form of the list of expected names.
pub open spec fn names_debug(names: Seq<Seq<char>>) -> Seq<char> {
    seq!['['] + join(names.map_values(|n: Seq<char>| debug_ascii(n)), ", "@) + seq![']']
}

/// The message for a style name that lacks the expected weight name.
pub open spec fn bad_weight_message(
    value: u16,
    names: Seq<Seq<char>>,
    style: Seq<char>,
) -> Seq<char> {
    "For OS/2 usWeightClass "@ + decimal(value as nat) + " we expect "@ + names_debug(names)
        + ", but got '"@ + style
        + "'. Either usWeightClass is wrong or style name. Please investigate."@
}

/// The message for a usWeightClass value outside the table.
pub open spec fn missing_weight_message(value: u16) -> Seq<char> {
    "OS/2 usWeightClass "@ + decimal(value as nat)
        + " does not match specifications. We expect: Thin 100, XLight 200, Light 300, Regular 400, Medium 500, SemiBold 600, Bold 700, XBold 800, Black 900"@
}

/// What the check reports for a usWeightClass value, given the words it
/// searches (`words`: the style name lowercase, with its prefixes joined)
/// and the style name as written (`style`): a pass where the words (split
/// at spaces) hold one of the expected names, or where the value is 400
/// and the words are just "italic"; else a failure, whose message gives the
/// expected names as the table spells them and the style as written.
pub open spec fn weightclass_outcome(value: u16, words: Seq<char>, style: Seq<char>) -> Seq<
    StatusView,
> {
    if value == 400 && words == "italic"@ {
        seq![pass_view()]
    } else {
        match weight_labels(value) {
            Some(labels) => if exists|k: int|
                0 <= k < labels.len() && split_on(words, ' ').contains(
                    ascii_lower(#[trigger] labels[k]),
                ) {
                seq![pass_view()]
            } else {
                seq![
                    status_view(
                        StatusCode::Fail,
                        "bad-weight-class-value"@,
                        bad_weight_message(value, labels, style),
                    ),
                ]
            },
            None => seq![
                status_view(
                    StatusCode::Fail,
                    "missing-weight-class-value"@,
                    missing_weight_message(value),
                ),
            ],
        }
    }
}

/// The words that the check searches in a style name: the name lowercase,
/// with its prefixes joined.
pub open spec fn style_words(style: Seq<char>) -> Seq<char> {
    joined_prefixes(lowercase(style))
}

/// What the check reports for a usWeightClass value and a style name, as
/// written.
pub open spec fn weightclass_statuses(value: u16, style: Seq<char>) -> Seq<StatusView> {
    weightclass_outcome(value, style_words(style), style)
}

/// The check reports a single status, a pass or a failure.
pub proof fn law_weightclass_single_status(value: u16, style: Seq<char>)
    ensures
        weightclass_statuses(value, style).len() == 1,
        well_formed_report(weightclass_statuses(value, style)),
        weightclass_statuses(value, style)[0].severity == StatusCode::Pass
            || weightclass_statuses(value, style)[0].severity == StatusCode::Fail,
{
}

/// A usWeightClass value outside Type Network's table (Thin 100, XLight
/// 200, Light 300, Regular 400, Medium 500, SemiBold 600, Bold 700, XBold
/// 800, Black 900, with 250 and 275 for Thin and XLight) fails, whatever
/// the style name.
pub proof fn law_weightclass_outside_table(value: u16, style: Seq<char>)
    requires
        !(value == 100 || value == 200 || value == 250 || value == 275 || value == 300 || value
            == 400 || value == 500 || value == 600 || value == 700 || value == 800 || value == 900),
    ensures
        weightclass_statuses(value, style) == seq![
            status_view(
                StatusCode::Fail,
                "missing-weight-class-value"@,
                missing_weight_message(value),
            ),
        ],
{
}

/// A style name that holds, as a word of its own and in any case, a weight
/// name that the usWeightClass value calls for passes.
pub proof fn law_weightclass_expected_word(value: u16, style: Seq<char>, k: int)
    requires
        expected_weight_names(value) is Some,
        0 <= k < expected_weight_names(value).unwrap().len(),
        split_on(style_words(style), ' ').contains(expected_weight_names(value).unwrap()[k]),
    ensures
        weightclass_statuses(value, style) == seq![pass_view()],
{
    let labels = weight_labels(value).unwrap();
    assert(expected_weight_names(value).unwrap()[k] == ascii_lower(labels[k]));
}

/// Regular's usWeightClass 400 suits an "Italic" style (in any case),
/// though the name lacks the word "Regular".
pub proof fn law_weightclass_regular_italic(style: Seq<char>)
    requires
        style_words(style) == "italic"@,
    ensures
        weightclass_statuses(400, style) == seq![pass_view()],
{
}

/// A style name with none of the weight names that the value calls for as
/// a word of its own fails, unless the value is 400 and the style is just
/// "Italic" (in any case); the message gives the expected names as the table
/// spells them and the style as written.
pub proof fn law_weightclass_missing_word(value: u16, style: Seq<char>)
    requires
        expected_weight_names(value) is Some,
        forall|k: int|
            0 <= k < expected_weight_names(value).unwrap().len() ==> !split_on(
                style_words(style),
                ' ',
            ).contains(#[trigger] expected_weight_names(value).unwrap()[k]),
        !(value == 400 && style_words(style) == "italic"@),
    ensures
        weightclass_statuses(value, style) == seq![
            status_view(
                StatusCode::Fail,
                "bad-weight-class-value"@,
                bad_weight_message(value, weight_labels(value).unwrap(), style),
            ),
        ],
{
    let labels = weight_labels(value).unwrap();
    assert forall|k: int| 0 <= k < labels.len() implies !split_on(style_words(style), ' ').contains(
        ascii_lower(#[trigger] labels[k]),
    ) by {
        assert(expected_weight_names(value).unwrap()[k] == ascii_lower(labels[k]));
    }
}

/// Whether one of the parts is one of the names.
fn any_part_is(parts: &Vec<Vec<char>>, names: &Vec<Vec<char>>) -> (b: bool)
    ensures
        b == exists|k: int| 0 <= k < names@.len() && views(parts@).contains(#[trigger] views(names@)[k]),
{
    let mut k: usize = 0;
    while k < names.len()
        invariant
            k <= names.len(),
            forall|j: int| 0 <= j < k ==> !views(parts@).contains(#[trigger] views(names@)[j]),
        decreases names.len() - k,
    {
        let mut i: usize = 0;
        while i < parts.len()
            invariant
                k < names.len(),
                i <= parts.len(),
                forall|m: int| 0 <= m < i ==> views(parts@)[m] != names@[k as int]@,
            decreases parts.len() - i,
        {
            if eq_chars(&parts[i], &names[k]) {
                proof {
                    assert(views(parts@)[i as int] == views(names@)[k as int]);
                    assert(views(parts@).contains(views(names@)[k as int]));
                }
                return true;
            }
            i = i + 1;
        }
        proof {
            assert(!views(parts@).contains(views(names@)[k as int]));
        }
        k = k + 1;
    }
    false
}

/// The names, each with its ASCII letters made lowercase.
fn lowered_names(labels: &Vec<&'static str>) -> (r: Vec<Vec<char>>)
    ensures
        views(r@) == str_views(labels@).map_values(|n: Seq<char>| ascii_lower(n)),
{
    let mut r: Vec<Vec<char>> = Vec::new();
    let mut k: usize = 0;
    while k < labels.len()
        invariant
            k <= labels.len(),
            views(r@) == str_views(labels@).take(k as int).map_values(|n: Seq<char>| ascii_lower(n)),
        decreases labels.len() - k,
    {
        let w = ascii_lowercase(labels[k]);
        let ghost before = r@;
        r.push(w);
        proof {
            assert(views(r@) =~= views(before).push(w@));
            assert(views(r@) =~= str_views(labels@).take(k + 1).map_values(
                |n: Seq<char>| ascii_lower(n),
            ));
        }
        k = k + 1;
    }
    proof {
        assert(str_views(labels@).take(labels@.len() as int) =~= str_views(labels@));
    }
    r
}

/// The `Debug` forms of the names.
fn quoted_names(names: &Vec<&'static str>) -> (r: Vec<Vec<char>>)
    ensures
        views(r@) == str_views(names@).map_values(|n: Seq<char>| debug_ascii(n)),
{
    let mut quoted: Vec<Vec<char>> = Vec::new();
    let mut k: usize = 0;
    while k < names.len()
        invariant
            k <= names.len(),
            views(quoted@) == str_views(names@).take(k as int).map_values(
                |n: Seq<char>| debug_ascii(n),
            ),
        decreases names.len() - k,
    {
        let name = chars_of(names[k]);
        let mut q: Vec<char> = Vec::new();
        push_debug_ascii(&mut q, &name);
        let ghost before = quoted@;
        quoted.push(q);
        proof {
            assert(views(quoted@) =~= views(before).push(q@));
            assert(views(quoted@) =~= str_views(names@).take(k + 1).map_values(
                |n: Seq<char>| debug_ascii(n),
            ));
        }
        k = k + 1;
    }
    proof {
        assert(str_views(names@).take(names@.len() as int) =~= str_views(names@));
    }
    quoted
}

/// What the check reports for a usWeightClass value and a style name as
/// written, with its message.
pub fn weightclass_verdict(value: u16, style: &Vec<char>) -> (r: Vec<Status>)
    ensures
        statuses_view(r@) == weightclass_statuses(value, style@),
{
    proof {
        reveal_strlit("semi ");
        reveal_strlit("ultra ");
        reveal_strlit("extra ");
        reveal_strlit("demi ");
    }
    let lower = to_lowercase(string_of(style).as_str());
    let s0 = chars_of(lower.as_str());
    let s1 = replace(&s0, "semi ", "semi");
    let s2 = replace(&s1, "ultra ", "ultra");
    let s3 = replace(&s2, "extra ", "extra");
    let words = replace(&s3, "demi ", "demi");
    let parts = split(&words, ' ');
    let expected = get_expected_weight_name(value);
    if value == 400 && eq_str(&words, "italic") {
        return just_one_pass();
    }
    match expected {
        Some(labels) => {
            let names = lowered_names(&labels);
            proof {
                let l = weight_labels(value).unwrap();
                assert(l == str_views(labels@));
                assert(views(names@).len() == l.len());
                assert forall|k: int| 0 <= k < l.len() implies #[trigger] views(names@)[k]
                    == ascii_lower(l[k]) by {}
            }
            if any_part_is(&parts, &names) {
                proof {
                    let k = choose|k: int|
                        0 <= k < names@.len() && views(parts@).contains(#[trigger] views(names@)[k]);
                    assert(views(names@)[k] == ascii_lower(weight_labels(value).unwrap()[k]));
                }
                just_one_pass()
            } else {
                proof {
                    let l = weight_labels(value).unwrap();
                    assert forall|k: int| 0 <= k < l.len() implies !split_on(words@, ' ').contains(
                        ascii_lower(#[trigger] l[k]),
                    ) by {
                        assert(views(names@)[k] == ascii_lower(l[k]));
                    }
                }
                let mut msg: Vec<char> = Vec::new();
                push_str(&mut msg, "For OS/2 usWeightClass ");
                push_decimal(&mut msg, value as u64);
                push_str(&mut msg, " we expect ");
                let quoted = quoted_names(&labels);
                msg.push('[');
                let inner = join_chars(&quoted, ", ");
                push_chars(&mut msg, &inner);
                msg.push(']');
                push_str(&mut msg, ", but got '");
                push_chars(&mut msg, style);
                push_str(
                    &mut msg,
                    "'. Either usWeightClass is wrong or style name. Please investigate.",
                );
                proof {
                    let l = weight_labels(value).unwrap();
                    assert(msg@ =~= bad_weight_message(value, l, style@));
                }
                just_one(StatusCode::Fail, "bad-weight-class-value", string_of(&msg))
            }
        },
        None => {
            let mut msg: Vec<char> = Vec::new();
            push_str(&mut msg, "OS/2 usWeightClass ");
            push_decimal(&mut msg, value as u64);
            push_str(
                &mut msg,
                " does not match specifications. We expect: Thin 100, XLight 200, Light 300, Regular 400, Medium 500, SemiBold 600, Bold 700, XBold 800, Black 900",
            );
            proof {
                assert(msg@ =~= missing_weight_message(value));
            }
            just_one(StatusCode::Fail, "missing-weight-class-value", string_of(&msg))
        },
    }
}

/// The check `typenetwork/weightclass` on a font binary: the font's OS/2
/// usWeightClass against its best subfamily name (else "Regular"). It fails
/// to run where the OS/2 table cannot be read.
pub fn weightclass(font: &[u8]) -> (r: Result<Vec<Status>, CheckError>)
    ensures
        r is Err <==> os2_weight_class(font@) is None,
        r matches Ok(v) ==> statuses_view(v@) == weightclass_statuses(
            os2_weight_class(font@).unwrap(),
            style_or_regular(best_subfamily(font@)),
        ),
{
    let value = match read_os2_weight_class(font) {
        Ok(v) => v,
        Err(e) => {
            return Err(CheckError::FontRead(e));
        },
    };
    let style = match best_subfamily_name(font) {
        Some(n) => chars_of(n.as_str()),
        None => chars_of("Regular"),
    };
    Ok(weightclass_verdict(value, &style))
}

} // verus!
