//! `typenetwork/varfont/axes_have_variation`: each axis of a variable font
//! varies, that is its minimum and maximum differ. Fonts often carry
//! needless axes, such as `ital`.
use vstd::prelude::*;

use crate::checks::common::{f32_bits_eq, f32_eq, push_tag, tag_text};
use crate::fontdata::{axis_view, has_table, read_has_table, read_variation_axes, variation_axes, AxisInfo};
use crate::status::{
    law_result_well_formed, no_pass, pass_view, well_formed_report, just_one, result_view, return_result, status_view, statuses_view, Status, StatusCode,
    StatusView,
};
use crate::text::{push_str, string_of};

verus! {

/// The tag of the fvar table, as big-endian bytes.
pub const FVAR_TAG: u32 = 0x6676_6172;

/// The message for an axis without variation.
pub open spec fn no_variation_message(axis: (u32, u32, u32, Seq<char>, Seq<char>)) -> Seq<char> {
    seq!['\''] + tag_text(axis.0) + "' axis has no variation its min and max values are "@
        + axis.3 + ", "@ + axis.4
}

/// The failures for the axes, in order, whose minimum equals their maximum.
pub open spec fn no_variation_problems(axes: Seq<(u32, u32, u32, Seq<char>, Seq<char>)>) -> Seq<
    StatusView,
>
    decreases axes.len(),
{
    if axes.len() == 0 {
        Seq::empty()
    } else {
        let prev = no_variation_problems(axes.drop_last());
        let a = axes.last();
        if f32_bits_eq(a.1, a.2) {
            prev.push(
                status_view(StatusCode::Fail, "axis-has-no-variation"@, no_variation_message(a)),
            )
        } else {
            prev
        }
    }
}

/// What the check reports for a font: a skip where it has no fvar table;
/// else a failure for each axis whose minimum equals its maximum, or a pass
/// where there is none.
pub open spec fn axes_have_variation_statuses(font: Seq<u8>) -> Seq<StatusView> {
    if !has_table(font, FVAR_TAG) {
        seq![status_view(StatusCode::Skip, "not-variable"@, "Not a variable font"@)]
    } else {
        result_view(no_variation_problems(variation_axes(font)))
    }
}

/// The failures hold no pass, and there is none exactly where no axis has
/// its minimum equal to its maximum.
pub proof fn lemma_no_variation_problems(axes: Seq<(u32, u32, u32, Seq<char>, Seq<char>)>)
    ensures
        no_pass(no_variation_problems(axes)),
        no_variation_problems(axes).len() == 0 <==> forall|k: int|
            0 <= k < axes.len() ==> !f32_bits_eq((#[trigger] axes[k]).1, axes[k].2),
    decreases axes.len(),
{
    if axes.len() > 0 {
        let p = axes.drop_last();
        lemma_no_variation_problems(p);
        let prev = no_variation_problems(p);
        let r = no_variation_problems(axes);
        assert forall|i: int| 0 <= i < r.len() implies (#[trigger] r[i]).severity
            != StatusCode::Pass by {
            if i < prev.len() {
                assert(r[i] == prev[i]);
            }
        }
        assert forall|k: int| 0 <= k < p.len() implies #[trigger] p[k] == axes[k] by {}
        if prev.len() != 0 {
            let k = choose|k: int| 0 <= k < p.len() && f32_bits_eq((#[trigger] p[k]).1, p[k].2);
            assert(axes[k] == p[k]);
        }
        if f32_bits_eq(axes.last().1, axes.last().2) {
            assert(axes[axes.len() - 1] == axes.last());
        }
        if forall|k: int| 0 <= k < axes.len() ==> !f32_bits_eq((#[trigger] axes[k]).1, axes[k].2) {
            assert(!f32_bits_eq(axes[axes.len() - 1].1, axes[axes.len() - 1].2));
            assert forall|k: int| 0 <= k < p.len() implies !f32_bits_eq((#[trigger] p[k]).1, p[k].2) by {
                assert(axes[k] == p[k]);
            }
        }
        if r.len() == 0 {
            assert(!f32_bits_eq(axes.last().1, axes.last().2));
            assert(prev.len() == 0);
            assert forall|k: int| 0 <= k < axes.len() implies !f32_bits_eq(
                (#[trigger] axes[k]).1,
                axes[k].2,
            ) by {
                if k < p.len() {
                    assert(p[k] == axes[k]);
                }
            }
        }
    }
}

/// The check's report is well formed; a font without an fvar table is
/// skipped, and a variable font passes exactly where each of its axes has
/// a minimum that differs from its maximum.
pub proof fn law_axes_have_variation(font: Seq<u8>)
    ensures
        well_formed_report(axes_have_variation_statuses(font)),
        !has_table(font, FVAR_TAG) ==> axes_have_variation_statuses(font)[0].severity
            == StatusCode::Skip,
        has_table(font, FVAR_TAG) ==> (axes_have_variation_statuses(font) == seq![pass_view()]
            <==> forall|k: int|
            0 <= k < variation_axes(font).len() ==> !f32_bits_eq(
                (#[trigger] variation_axes(font)[k]).1,
                variation_axes(font)[k].2,
            )),
{
    let p = no_variation_problems(variation_axes(font));
    lemma_no_variation_problems(variation_axes(font));
    law_result_well_formed(p);
    if p.len() != 0 && result_view(p) == seq![pass_view()] {
        assert(p[0].severity == StatusCode::Pass);
    }
}

/// The failures for the axes whose minimum equals their maximum.
pub fn axes_verdict(axes: &Vec<AxisInfo>) -> (r: Vec<Status>)
    ensures
        statuses_view(r@) == result_view(
            no_variation_problems(axes@.map_values(|a: AxisInfo| axis_view(a))),
        ),
{
    let ghost av = axes@.map_values(|a: AxisInfo| axis_view(a));
    let mut problems: Vec<Status> = Vec::new();
    let mut i: usize = 0;
    while i < axes.len()
        invariant
            av == axes@.map_values(|a: AxisInfo| axis_view(a)),
            i <= axes.len(),
            statuses_view(problems@) == no_variation_problems(av.take(i as int)),
        decreases axes.len() - i,
    {
        proof {
            let s = av.take(i + 1);
            assert(s.drop_last() =~= av.take(i as int));
            assert(s.last() == axis_view(axes@[i as int]));
        }
        let a = &axes[i];
        if f32_eq(a.min_bits, a.max_bits) {
            let mut msg: Vec<char> = Vec::new();
            msg.push('\'');
            push_tag(&mut msg, a.tag);
            push_str(&mut msg, "' axis has no variation its min and max values are ");
            push_str(&mut msg, a.min_text.as_str());
            push_str(&mut msg, ", ");
            push_str(&mut msg, a.max_text.as_str());
            proof {
                assert(msg@ =~= no_variation_message(axis_view(axes@[i as int])));
            }
            let ghost before = problems@;
            problems.push(Status::new(StatusCode::Fail, "axis-has-no-variation", string_of(&msg)));
            proof {
                assert(statuses_view(problems@) =~= statuses_view(before).push(
                    status_view(
                        StatusCode::Fail,
                        "axis-has-no-variation"@,
                        no_variation_message(axis_view(axes@[i as int])),
                    ),
                ));
            }
        }
        i = i + 1;
    }
    proof {
        assert(av.take(axes@.len() as int) =~= av);
    }
    return_result(problems)
}

/// The check `typenetwork/varfont/axes_have_variation` on a font binary.
pub fn axes_have_variation(font: &[u8]) -> (r: Vec<Status>)
    ensures
        statuses_view(r@) == axes_have_variation_statuses(font@),
{
    if !read_has_table(font, FVAR_TAG) {
        let mut msg: Vec<char> = Vec::new();
        push_str(&mut msg, "Not a variable font");
        return just_one(StatusCode::Skip, "not-variable", string_of(&msg));
    }
    let axes = read_variation_axes(font);
    axes_verdict(&axes)
}

} // verus!
