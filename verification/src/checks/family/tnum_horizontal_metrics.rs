//! `typenetwork/family/tnum_horizontal_metrics`: the tabular figures of a
//! family all have the same width.
use vstd::prelude::*;

use crate::checks::common::{
    bullet_list, bullet_list_text, font_glyph_name, glyph_count, glyph_name_for_id,
    read_glyph_count,
};
use crate::checks::family::duplicated_names::font_views;
use crate::fontdata::{glyph_name_entry, hmtx_advance, hmtx_readable, read_hmtx, read_hmtx_advance};
use crate::status::{
    law_result_well_formed, no_pass, pass_view, well_formed_report, just_one, result_view, return_result, status_view, statuses_view, CheckError, Status,
    StatusCode, StatusView,
};
use crate::text::{
    chars_of, decimal, ends_with_seq, ends_with_str, eq_chars, join, join_chars, push_chars,
    push_decimal, push_str, string_of, views,
};

verus! {

/// Whether a glyph name marks a tabular figure: it ends in `.tnum`, `.tf`,
/// `.tosf`, `.tsc`, `.tab` or `.tabular`.
pub open spec fn is_tabular_name(n: Seq<char>) -> bool {
    ends_with_seq(n, ".tnum"@) || ends_with_seq(n, ".tf"@) || ends_with_seq(n, ".tosf"@)
        || ends_with_seq(n, ".tsc"@) || ends_with_seq(n, ".tab"@) || ends_with_seq(
        n,
        ".tabular"@,
    )
}

/// Whether a glyph name marks a tabular figure.
fn is_tabular(n: &Vec<char>) -> (b: bool)
    ensures
        b == is_tabular_name(n@),
{
    ends_with_str(n, ".tnum") || ends_with_str(n, ".tf") || ends_with_str(n, ".tosf")
        || ends_with_str(n, ".tsc") || ends_with_str(n, ".tab") || ends_with_str(n, ".tabular")
}

/// The tabular glyphs among the first `upto` glyphs of a font, in glyph
/// order, each with its advance width: those whose name (given by the font)
/// marks a tabular figure and that have an advance width.
pub open spec fn font_observations(font: Seq<u8>, upto: nat) -> Seq<(u16, Seq<char>)>
    decreases upto,
{
    if upto == 0 {
        Seq::empty()
    } else {
        let prev = font_observations(font, (upto - 1) as nat);
        let gid = (upto - 1) as u32;
        match font_glyph_name(font, gid) {
            Some(n) => if is_tabular_name(n) {
                match hmtx_advance(font, gid) {
                    Some(w) => prev.push((w, n)),
                    None => prev,
                }
            } else {
                prev
            },
            None => prev,
        }
    }
}

/// The tabular glyphs of the fonts, font after font.
pub open spec fn family_observations(fonts: Seq<Seq<u8>>) -> Seq<(u16, Seq<char>)>
    decreases fonts.len(),
{
    if fonts.len() == 0 {
        Seq::empty()
    } else {
        family_observations(fonts.drop_last()) + font_observations(
            fonts.last(),
            glyph_count(fonts.last()) as nat,
        )
    }
}

/// For each width, the names of the glyphs that have it: the widths in the
/// order in which they first come, each name once.
pub type WidthGroups = Seq<(u16, Seq<Seq<char>>)>;

/// Where a width stands among the groups, if it does.
pub open spec fn width_index(g: WidthGroups, w: u16) -> Option<int>
    decreases g.len(),
{
    if g.len() == 0 {
        None
    } else if g.last().0 == w {
        Some(g.len() - 1)
    } else {
        width_index(g.drop_last(), w)
    }
}

/// The groups with a glyph name added to the group of its width.
pub open spec fn group_add(g: WidthGroups, w: u16, n: Seq<char>) -> WidthGroups {
    match width_index(g, w) {
        Some(j) => if g[j].1.contains(n) {
            g
        } else {
            g.update(j, (w, g[j].1.push(n)))
        },
        None => g.push((w, seq![n])),
    }
}

/// The groups with each observation added, in order.
pub open spec fn add_all(g: WidthGroups, obs: Seq<(u16, Seq<char>)>) -> WidthGroups
    decreases obs.len(),
{
    if obs.len() == 0 {
        g
    } else {
        let prev = add_all(g, obs.drop_last());
        group_add(prev, obs.last().0, obs.last().1)
    }
}

/// The width groups of the tabular glyphs of a family.
pub open spec fn family_groups(fonts: Seq<Seq<u8>>) -> WidthGroups {
    add_all(Seq::empty(), family_observations(fonts))
}

/// Where the most common width stands: the first of the groups with the
/// most names.
pub open spec fn most_common_index(g: WidthGroups) -> int
    decreases g.len(),
{
    if g.len() <= 1 {
        0
    } else {
        let p = most_common_index(g.drop_last());
        if g.last().1.len() > g[p].1.len() {
            g.len() - 1
        } else {
            p
        }
    }
}

/// Half a width, rounded half away from zero, as `(w as f32 / 2.0).round()`
/// gives it.
pub open spec fn half_of(w: u16) -> u16 {
    ((w as int + 1) / 2) as u16
}

/// The groups whose width is neither of the two given ones.
pub open spec fn other_groups(g: WidthGroups, a: u16, b: u16) -> WidthGroups
    decreases g.len(),
{
    if g.len() == 0 {
        Seq::empty()
    } else {
        let prev = other_groups(g.drop_last(), a, b);
        if g.last().0 != a && g.last().0 != b {
            prev.push(g.last())
        } else {
            prev
        }
    }
}

/// A glyph name in single quotes.
pub open spec fn single_quoted(n: Seq<char>) -> Seq<char> {
    seq!['\''] + n + seq!['\'']
}

/// The line of a width and its glyphs.
pub open spec fn group_line(grp: (u16, Seq<Seq<char>>)) -> Seq<char> {
    "Width: "@ + decimal(grp.0 as nat) + " - Glyphs: "@ + join(
        grp.1.map_values(|n: Seq<char>| single_quoted(n)),
        ", "@,
    )
}

/// The message about the glyphs of half the most common width.
pub open spec fn half_width_message(hw: u16, names: Seq<Seq<char>>, full_lists: bool) -> Seq<char> {
    "There are other glyphs with half of the width ("@ + decimal(hw as nat)
        + ") of the most common width such as the following ones:\n\n"@ + bullet_list_text(
        names,
        full_lists,
    )
}

/// The message about the widths that are neither the most common one nor
/// its half.
pub open spec fn inconsistent_message(mc: u16, others: WidthGroups) -> Seq<char> {
    "The most common tabular glyph width is "@ + decimal(mc as nat)
        + ". But there are other tabular glyphs with different widths such as the following ones:\n\n"@
        + join(others.map_values(|grp: (u16, Seq<Seq<char>>)| group_line(grp)), seq!['\n'])
}

/// The problems of a family's width groups: where there is more than one
/// width, a note that lists the glyphs of half the most common width (if
/// any has it), then a warning that lists the widths that are neither.
pub open spec fn tnum_problems(g: WidthGroups, full_lists: bool) -> Seq<StatusView> {
    if g.len() <= 1 {
        Seq::empty()
    } else {
        let mc = g[most_common_index(g)].0;
        let hv = half_of(mc);
        let info = match width_index(g, hv) {
            Some(j) => seq![
                status_view(
                    StatusCode::Info,
                    "half-widths"@,
                    half_width_message(hv, g[j].1, full_lists),
                ),
            ],
            None => Seq::empty(),
        };
        let others = other_groups(g, mc, hv);
        let warn = if others.len() > 0 {
            seq![
                status_view(
                    StatusCode::Warn,
                    "inconsistent-widths"@,
                    inconsistent_message(mc, others),
                ),
            ]
        } else {
            Seq::empty()
        };
        info + warn
    }
}

/// The skip for a family of fewer than two fonts.
pub open spec fn no_siblings_view() -> StatusView {
    status_view(
        StatusCode::Skip,
        "no-siblings"@,
        "This check requires at least two sibling fonts to compare metrics."@,
    )
}

/// Whether no two groups have the same width.
pub open spec fn distinct_widths(g: WidthGroups) -> bool {
    forall|i: int, j: int|
        0 <= i < g.len() && 0 <= j < g.len() && i != j ==> (#[trigger] g[i]).0 != (#[trigger] g[j]).0
}

/// Whether some group has the width.
pub open spec fn has_width(g: WidthGroups, w: u16) -> bool {
    exists|k: int| 0 <= k < g.len() && (#[trigger] g[k]).0 == w
}

/// Whether some observation has the width.
pub open spec fn observed_width(obs: Seq<(u16, Seq<char>)>, w: u16) -> bool {
    exists|k: int| 0 <= k < obs.len() && (#[trigger] obs[k]).0 == w
}

/// Where a width is found, the group there has it; where it is not found,
/// no group has it.
pub proof fn lemma_width_index(g: WidthGroups, w: u16)
    ensures
        width_index(g, w) matches Some(j) ==> 0 <= j < g.len() && g[j].0 == w,
        width_index(g, w) is None <==> !has_width(g, w),
    decreases g.len(),
{
    if g.len() > 0 {
        let p = g.drop_last();
        lemma_width_index(p, w);
        if g.last().0 != w {
            if has_width(g, w) {
                let k = choose|k: int| 0 <= k < g.len() && (#[trigger] g[k]).0 == w;
                assert(k < p.len());
                assert(p[k] == g[k]);
            }
            if has_width(p, w) {
                let k = choose|k: int| 0 <= k < p.len() && (#[trigger] p[k]).0 == w;
                assert(g[k] == p[k]);
            }
        } else {
            assert(g[g.len() - 1].0 == w);
        }
    }
}

/// Adding a glyph keeps the widths distinct, and the widths that the groups
/// have are the old ones and the new glyph's.
pub proof fn lemma_group_add(g: WidthGroups, w: u16, n: Seq<char>, v: u16)
    requires
        distinct_widths(g),
    ensures
        distinct_widths(group_add(g, w, n)),
        has_width(group_add(g, w, n), v) <==> has_width(g, v) || v == w,
{
    lemma_width_index(g, w);
    let r = group_add(g, w, n);
    match width_index(g, w) {
        Some(j) => {
            assert forall|k: int| 0 <= k < g.len() implies (#[trigger] r[k]).0 == g[k].0 by {}
            assert(r.len() == g.len());
            if has_width(r, v) {
                let k = choose|k: int| 0 <= k < r.len() && (#[trigger] r[k]).0 == v;
                assert(g[k].0 == v);
            }
            if has_width(g, v) {
                let k = choose|k: int| 0 <= k < g.len() && (#[trigger] g[k]).0 == v;
                assert(r[k].0 == v);
            }
            if v == w {
                assert(r[j].0 == v);
            }
        },
        None => {
            assert(r == g.push((w, seq![n])));
            assert forall|i: int, j: int|
                0 <= i < r.len() && 0 <= j < r.len() && i != j implies (#[trigger] r[i]).0 != (
                #[trigger] r[j]).0 by {
                if i < g.len() && j < g.len() {
                    assert(r[i] == g[i] && r[j] == g[j]);
                } else if i < g.len() {
                    assert(r[i] == g[i]);
                } else {
                    assert(r[j] == g[j]);
                }
            }
            if has_width(r, v) {
                let k = choose|k: int| 0 <= k < r.len() && (#[trigger] r[k]).0 == v;
                if k < g.len() {
                    assert(g[k] == r[k]);
                }
            }
            if has_width(g, v) {
                let k = choose|k: int| 0 <= k < g.len() && (#[trigger] g[k]).0 == v;
                assert(r[k] == g[k]);
            }
            if v == w {
                assert(r[g.len() as int].0 == v);
            }
        },
    }
}

/// Adding observations keeps the widths distinct, and the widths that the
/// groups have are the old ones and the observed ones.
pub proof fn lemma_add_all(g: WidthGroups, obs: Seq<(u16, Seq<char>)>, v: u16)
    requires
        distinct_widths(g),
    ensures
        distinct_widths(add_all(g, obs)),
        has_width(add_all(g, obs), v) <==> has_width(g, v) || observed_width(obs, v),
    decreases obs.len(),
{
    if obs.len() > 0 {
        let p = obs.drop_last();
        lemma_add_all(g, p, v);
        lemma_group_add(add_all(g, p), obs.last().0, obs.last().1, v);
        if observed_width(p, v) {
            let k = choose|k: int| 0 <= k < p.len() && (#[trigger] p[k]).0 == v;
            assert(obs[k] == p[k]);
        }
        if observed_width(obs, v) {
            let k = choose|k: int| 0 <= k < obs.len() && (#[trigger] obs[k]).0 == v;
            if k < p.len() {
                assert(p[k] == obs[k]);
            }
        }
        if obs.last().0 == v {
            assert(obs[obs.len() - 1].0 == v);
        }
    }
}

/// The most common width's group has at least as many names as any other.
pub proof fn law_most_common_is_largest(g: WidthGroups)
    requires
        g.len() > 0,
    ensures
        0 <= most_common_index(g) < g.len(),
        forall|k: int| 0 <= k < g.len() ==> (#[trigger] g[k]).1.len() <= g[most_common_index(
            g,
        )].1.len(),
    decreases g.len(),
{
    if g.len() > 1 {
        let p = g.drop_last();
        law_most_common_is_largest(p);
        let m = most_common_index(p);
        assert(g[m] == p[m]);
        assert forall|k: int| 0 <= k < g.len() implies (#[trigger] g[k]).1.len() <= g[most_common_index(
            g,
        )].1.len() by {
            if k < p.len() {
                assert(g[k] == p[k]);
            }
        }
    }
}

/// The groups other than two widths are empty exactly where every group has
/// one of the two widths.
pub proof fn lemma_other_groups(g: WidthGroups, a: u16, b: u16)
    ensures
        other_groups(g, a, b).len() == 0 <==> forall|k: int|
            0 <= k < g.len() ==> (#[trigger] g[k]).0 == a || g[k].0 == b,
    decreases g.len(),
{
    if g.len() > 0 {
        let p = g.drop_last();
        lemma_other_groups(p, a, b);
        assert forall|k: int| 0 <= k < p.len() implies #[trigger] p[k] == g[k] by {}
        if other_groups(g, a, b).len() == 0 {
            assert(g.last().0 == a || g.last().0 == b);
            assert forall|k: int| 0 <= k < g.len() implies (#[trigger] g[k]).0 == a || g[k].0 == b by {
                if k < p.len() {
                    assert(p[k] == g[k]);
                }
            }
        }
        if forall|k: int| 0 <= k < g.len() ==> (#[trigger] g[k]).0 == a || g[k].0 == b {
            assert forall|k: int| 0 <= k < p.len() implies (#[trigger] p[k]).0 == a || p[k].0
                == b by {
                assert(p[k] == g[k]);
            }
            assert(g[g.len() - 1].0 == a || g[g.len() - 1].0 == b);
        }
    }
}

/// For width groups with distinct widths, the check's report is well
/// formed, and it is a single pass exactly where there is at most one width.
pub proof fn law_tnum_pass_iff_one_width(g: WidthGroups, full_lists: bool)
    requires
        distinct_widths(g),
    ensures
        well_formed_report(result_view(tnum_problems(g, full_lists))),
        result_view(tnum_problems(g, full_lists)) == seq![pass_view()] <==> g.len() <= 1,
{
    let p = tnum_problems(g, full_lists);
    assert(no_pass(p));
    law_result_well_formed(p);
    if g.len() > 1 {
        law_most_common_is_largest(g);
        let m = most_common_index(g);
        let mc = g[m].0;
        let hv = half_of(mc);
        let k = if m == 0 {
            1int
        } else {
            0int
        };
        assert(g[k].0 != mc);
        lemma_width_index(g, hv);
        lemma_other_groups(g, mc, hv);
        if g[k].0 == hv {
            assert(has_width(g, hv));
            assert(p.len() >= 1);
        } else {
            assert(other_groups(g, mc, hv).len() != 0);
            assert(p.len() >= 1);
        }
        if result_view(p) == seq![pass_view()] {
            assert(p[0].severity == StatusCode::Pass);
        }
    }
}

/// Whether all the observations have the same width.
pub open spec fn one_width(obs: Seq<(u16, Seq<char>)>) -> bool {
    forall|i: int, j: int| 0 <= i < obs.len() && 0 <= j < obs.len() ==> (#[trigger] obs[i]).0 == (
    #[trigger] obs[j]).0
}

/// All tabular figures must have the same width across the family: for a
/// family of fonts whose hmtx tables can be read, the check's report is
/// well formed, and it is a single pass exactly where all the tabular glyphs
/// of all the fonts have the same advance width.
pub proof fn law_tnum_family(fonts: Seq<Seq<u8>>, full_lists: bool)
    ensures
        well_formed_report(result_view(tnum_problems(family_groups(fonts), full_lists))),
        result_view(tnum_problems(family_groups(fonts), full_lists)) == seq![pass_view()]
            <==> one_width(family_observations(fonts)),
{
    let obs = family_observations(fonts);
    let g = family_groups(fonts);
    let e = Seq::<(u16, Seq<Seq<char>>)>::empty();
    lemma_add_all(e, obs, 0);
    law_tnum_pass_iff_one_width(g, full_lists);
    if g.len() > 1 {
        assert(g[0].0 != g[1].0);
        lemma_add_all(e, obs, g[0].0);
        lemma_add_all(e, obs, g[1].0);
        assert(has_width(g, g[0].0));
        assert(has_width(g, g[1].0));
        let i = choose|k: int| 0 <= k < obs.len() && (#[trigger] obs[k]).0 == g[0].0;
        let j = choose|k: int| 0 <= k < obs.len() && (#[trigger] obs[k]).0 == g[1].0;
        assert(!one_width(obs));
    } else {
        if !one_width(obs) {
            let (i, j) = choose|i: int, j: int|
                0 <= i < obs.len() && 0 <= j < obs.len() && (#[trigger] obs[i]).0 != (
                #[trigger] obs[j]).0;
            lemma_add_all(e, obs, obs[i].0);
            lemma_add_all(e, obs, obs[j].0);
            assert(observed_width(obs, obs[i].0));
            assert(observed_width(obs, obs[j].0));
            let a = choose|k: int| 0 <= k < g.len() && (#[trigger] g[k]).0 == obs[i].0;
            let b = choose|k: int| 0 <= k < g.len() && (#[trigger] g[k]).0 == obs[j].0;
            assert(a != b);
        }
    }
}

/// The glyph names that mark tabular figures are exactly those that end in
/// `.tnum`, `.tf`, `.tosf`, `.tsc`, `.tab` or `.tabular`.
pub proof fn law_tabular_names(n: Seq<char>)
    ensures
        is_tabular_name(n) <==> {
            ||| n.len() >= ".tnum"@.len() && n.subrange(n.len() - ".tnum"@.len(), n.len() as int)
                == ".tnum"@
            ||| n.len() >= ".tf"@.len() && n.subrange(n.len() - ".tf"@.len(), n.len() as int)
                == ".tf"@
            ||| n.len() >= ".tosf"@.len() && n.subrange(n.len() - ".tosf"@.len(), n.len() as int)
                == ".tosf"@
            ||| n.len() >= ".tsc"@.len() && n.subrange(n.len() - ".tsc"@.len(), n.len() as int)
                == ".tsc"@
            ||| n.len() >= ".tab"@.len() && n.subrange(n.len() - ".tab"@.len(), n.len() as int)
                == ".tab"@
            ||| n.len() >= ".tabular"@.len() && n.subrange(
                n.len() - ".tabular"@.len(),
                n.len() as int,
            ) == ".tabular"@
        },
{
}

/// A font's tabular observations among its first `upto` glyphs: each is a
/// glyph with a tabular name, given by the font itself, and its advance
/// width; and every glyph there whose own name is tabular and that has an
/// advance width is among them.
pub proof fn law_font_observations(font: Seq<u8>, upto: nat)
    requires
        upto <= 0x1_0000_0000,
    ensures
        forall|k: int|
            0 <= k < font_observations(font, upto).len() ==> is_tabular_name(
                (#[trigger] font_observations(font, upto)[k]).1,
            ),
        forall|gid: u32|
            gid < upto && (#[trigger] glyph_name_entry(font, gid)) is Some && !glyph_name_entry(
                font,
                gid,
            ).unwrap().1 && is_tabular_name(glyph_name_entry(font, gid).unwrap().0) && hmtx_advance(
                font,
                gid,
            ) is Some ==> font_observations(font, upto).contains(
                (hmtx_advance(font, gid).unwrap(), glyph_name_entry(font, gid).unwrap().0),
            ),
    decreases upto,
{
    if upto > 0 {
        let prev = font_observations(font, (upto - 1) as nat);
        let obs = font_observations(font, upto);
        law_font_observations(font, (upto - 1) as nat);
        let g = (upto - 1) as u32;
        assert forall|k: int| 0 <= k < obs.len() implies is_tabular_name((#[trigger] obs[k]).1) by {
            if k < prev.len() {
                assert(obs[k] == prev[k] || obs == prev);
            }
        }
        assert forall|gid: u32|
            gid < upto && (#[trigger] glyph_name_entry(font, gid)) is Some && !glyph_name_entry(
                font,
                gid,
            ).unwrap().1 && is_tabular_name(glyph_name_entry(font, gid).unwrap().0) && hmtx_advance(
                font,
                gid,
            ) is Some implies obs.contains(
            (hmtx_advance(font, gid).unwrap(), glyph_name_entry(font, gid).unwrap().0),
        ) by {
            let n = glyph_name_entry(font, gid).unwrap().0;
            let w = hmtx_advance(font, gid).unwrap();
            if gid < upto - 1 {
                let k = choose|k: int| 0 <= k < prev.len() && prev[k] == (w, n);
                assert(obs[k] == prev[k]);
            } else {
                assert(gid == g);
                assert(font_glyph_name(font, g) == Some(n));
                assert(obs[obs.len() - 1] == (w, n));
            }
        }
    }
}

/// The observations of each font are among those of the family.
proof fn lemma_family_contains(fonts: Seq<Seq<u8>>, i: int, x: (u16, Seq<char>))
    requires
        0 <= i < fonts.len(),
        font_observations(fonts[i], glyph_count(fonts[i]) as nat).contains(x),
    ensures
        family_observations(fonts).contains(x),
    decreases fonts.len(),
{
    let p = fonts.drop_last();
    let a = family_observations(p);
    let b = font_observations(fonts.last(), glyph_count(fonts.last()) as nat);
    if i == fonts.len() - 1 {
        let k = choose|k: int| 0 <= k < b.len() && b[k] == x;
        assert((a + b)[a.len() + k] == x);
    } else {
        assert(p[i] == fonts[i]);
        lemma_family_contains(p, i, x);
        let k = choose|k: int| 0 <= k < a.len() && a[k] == x;
        assert((a + b)[k] == x);
    }
}

/// Two tabular glyphs of the family, each named by its font, with different
/// advance widths keep the check from passing, whichever fonts they are in.
pub proof fn law_tabular_widths_compared(
    fonts: Seq<Seq<u8>>,
    i: int,
    j: int,
    gi: u32,
    gj: u32,
    ni: Seq<char>,
    nj: Seq<char>,
    wi: u16,
    wj: u16,
    full_lists: bool,
)
    requires
        0 <= i < fonts.len(),
        0 <= j < fonts.len(),
        gi < glyph_count(fonts[i]),
        gj < glyph_count(fonts[j]),
        glyph_name_entry(fonts[i], gi) == Some((ni, false)),
        glyph_name_entry(fonts[j], gj) == Some((nj, false)),
        is_tabular_name(ni),
        is_tabular_name(nj),
        hmtx_advance(fonts[i], gi) == Some(wi),
        hmtx_advance(fonts[j], gj) == Some(wj),
        wi != wj,
    ensures
        result_view(tnum_problems(family_groups(fonts), full_lists)) != seq![pass_view()],
{
    law_font_observations(fonts[i], glyph_count(fonts[i]) as nat);
    law_font_observations(fonts[j], glyph_count(fonts[j]) as nat);
    lemma_family_contains(fonts, i, (wi, ni));
    lemma_family_contains(fonts, j, (wj, nj));
    let obs = family_observations(fonts);
    let a = choose|k: int| 0 <= k < obs.len() && obs[k] == (wi, ni);
    let b = choose|k: int| 0 <= k < obs.len() && obs[k] == (wj, nj);
    assert(obs[a].0 != obs[b].0);
    assert(!one_width(obs));
    law_tnum_family(fonts, full_lists);
}

/// Width groups held as vectors: the widths, and for each the glyph names.
pub struct WidthTable {
    pub widths: Vec<u16>,
    pub names: Vec<Vec<Vec<char>>>,
}

/// The groups that a width table holds.
pub open spec fn width_groups(t: &WidthTable) -> WidthGroups {
    Seq::new(t.widths@.len(), |i: int| (t.widths@[i], views(t.names@[i]@)))
}

/// Whether a width table is well formed: one list of names per width.
pub open spec fn width_table_wf(t: &WidthTable) -> bool {
    t.widths@.len() == t.names@.len()
}

/// Whether `x` is among `v`.
fn has_name(v: &Vec<Vec<char>>, x: &Vec<char>) -> (b: bool)
    ensures
        b == views(v@).contains(x@),
{
    let mut i: usize = 0;
    while i < v.len()
        invariant
            i <= v.len(),
            forall|j: int| 0 <= j < i ==> views(v@)[j] != x@,
        decreases v.len() - i,
    {
        if eq_chars(&v[i], x) {
            proof {
                assert(views(v@)[i as int] == x@);
            }
            return true;
        }
        i = i + 1;
    }
    false
}

/// Where a width stands in the table, if it does.
fn find_width(t: &WidthTable, w: u16) -> (r: Option<usize>)
    requires
        width_table_wf(t),
    ensures
        r matches Some(j) ==> width_index(width_groups(t), w) == Some(j as int) && j
            < t.widths@.len() && t.widths@[j as int] == w,
        r is None ==> width_index(width_groups(t), w) is None,
{
    let ghost g = width_groups(t);
    let mut j: usize = t.widths.len();
    proof {
        assert(g.take(g.len() as int) =~= g);
    }
    while j > 0
        invariant
            width_table_wf(t),
            g == width_groups(t),
            j <= t.widths.len(),
            width_index(g, w) == width_index(g.take(j as int), w),
        decreases j,
    {
        proof {
            assert(g.take(j as int).drop_last() =~= g.take(j - 1));
            assert(g.take(j as int).last() == g[j - 1]);
        }
        if t.widths[j - 1] == w {
            return Some(j - 1);
        }
        j = j - 1;
    }
    None
}

/// Adds a glyph name to the group of its width.
fn add_glyph(t: &mut WidthTable, w: u16, n: Vec<char>)
    requires
        width_table_wf(old(t)),
    ensures
        width_table_wf(final(t)),
        width_groups(final(t)) == group_add(width_groups(old(t)), w, n@),
{
    let ghost g = width_groups(t);
    match find_width(t, w) {
        Some(j) => {
            if has_name(&t.names[j], &n) {
                return ;
            }
            let mut group = t.names[j].clone();
            proof {
                assert(views(group@) =~= views(t.names@[j as int]@));
            }
            let ghost before = group@;
            group.push(n);
            proof {
                assert(views(group@) =~= views(before).push(n@));
            }
            t.names.set(j, group);
            proof {
                assert(width_groups(t) =~= g.update(j as int, (w, g[j as int].1.push(n@))));
            }
        },
        None => {
            let mut group: Vec<Vec<char>> = Vec::new();
            group.push(n);
            proof {
                assert(views(group@) =~= seq![n@]);
            }
            t.widths.push(w);
            t.names.push(group);
            proof {
                assert(width_groups(t) =~= g.push((w, seq![n@])));
            }
        },
    }
}

/// Adds the tabular glyphs of a font to the table.
fn add_font(t: &mut WidthTable, font: &Vec<u8>)
    requires
        width_table_wf(old(t)),
    ensures
        width_table_wf(final(t)),
        width_groups(final(t)) == add_all(
            width_groups(old(t)),
            font_observations(font@, glyph_count(font@) as nat),
        ),
{
    let count = read_glyph_count(font);
    let ghost g0 = width_groups(t);
    let mut gid: u32 = 0;
    while gid < count as u32
        invariant
            width_table_wf(t),
            count == glyph_count(font@),
            gid <= count,
            width_groups(t) == add_all(g0, font_observations(font@, gid as nat)),
        decreases count - gid,
    {
        let name = glyph_name_for_id(font.as_slice(), gid);
        proof {
            assert(font_observations(font@, (gid + 1) as nat) == {
                let prev = font_observations(font@, gid as nat);
                match font_glyph_name(font@, gid) {
                    Some(n) => if is_tabular_name(n) {
                        match hmtx_advance(font@, gid) {
                            Some(w) => prev.push((w, n)),
                            None => prev,
                        }
                    } else {
                        prev
                    },
                    None => prev,
                }
            });
        }
        match name {
            Some(s) => {
                let chars = chars_of(s.as_str());
                if is_tabular(&chars) {
                    match read_hmtx_advance(font.as_slice(), gid) {
                        Some(w) => {
                            proof {
                                let obs = font_observations(font@, (gid + 1) as nat);
                                assert(obs.drop_last() =~= font_observations(font@, gid as nat));
                                assert(obs.last() == (w, chars@));
                            }
                            add_glyph(t, w, chars);
                        },
                        None => {},
                    }
                }
            },
            None => {},
        }
        gid = gid + 1;
    }
}

/// Where the most common width stands in the table.
fn most_common(t: &WidthTable) -> (r: usize)
    requires
        width_table_wf(t),
        t.widths@.len() > 0,
    ensures
        r as int == most_common_index(width_groups(t)),
        r < t.widths@.len(),
{
    let ghost g = width_groups(t);
    let mut best: usize = 0;
    let mut i: usize = 1;
    while i < t.widths.len()
        invariant
            width_table_wf(t),
            g == width_groups(t),
            1 <= i <= t.widths.len(),
            best < i,
            best as int == most_common_index(g.take(i as int)),
        decreases t.widths.len() - i,
    {
        proof {
            let s = g.take(i + 1);
            assert(s.drop_last() =~= g.take(i as int));
            assert(s.last() == g[i as int]);
            assert(s[best as int] == g[best as int]);
            assert(g.take(i as int)[best as int] == g[best as int]);
        }
        if t.names[i].len() > t.names[best].len() {
            best = i;
        }
        i = i + 1;
    }
    proof {
        assert(g.take(t.widths.len() as int) =~= g);
    }
    best
}

/// The line of a width and its glyphs.
fn make_group_line(w: u16, names: &Vec<Vec<char>>) -> (r: Vec<char>)
    ensures
        r@ == group_line((w, views(names@))),
{
    let mut quoted: Vec<Vec<char>> = Vec::new();
    let mut k: usize = 0;
    while k < names.len()
        invariant
            k <= names.len(),
            views(quoted@) == views(names@).take(k as int).map_values(
                |n: Seq<char>| single_quoted(n),
            ),
        decreases names.len() - k,
    {
        let mut q: Vec<char> = Vec::new();
        q.push('\'');
        push_chars(&mut q, &names[k]);
        q.push('\'');
        let ghost before = quoted@;
        quoted.push(q);
        proof {
            assert(views(quoted@) =~= views(before).push(q@));
            let target = views(names@).take(k + 1).map_values(|n: Seq<char>| single_quoted(n));
            assert forall|j: int| 0 <= j < k + 1 implies views(quoted@)[j] == target[j] by {
                if j < k {
                    assert(views(before)[j] == views(names@).take(k as int).map_values(
                        |n: Seq<char>| single_quoted(n),
                    )[j]);
                } else {
                    assert(q@ =~= single_quoted(views(names@)[k as int]));
                }
            }
            assert(views(quoted@) =~= target);
        }
        k = k + 1;
    }
    proof {
        assert(views(names@).take(names@.len() as int) =~= views(names@));
    }
    let mut r: Vec<char> = Vec::new();
    push_str(&mut r, "Width: ");
    push_decimal(&mut r, w as u64);
    push_str(&mut r, " - Glyphs: ");
    let inner = join_chars(&quoted, ", ");
    push_chars(&mut r, &inner);
    proof {
        assert(r@ =~= group_line((w, views(names@))));
    }
    r
}

/// What the check reports for the width groups of a family with at least
/// two fonts.
pub fn tnum_verdict(t: &WidthTable, full_lists: bool) -> (r: Vec<Status>)
    requires
        width_table_wf(t),
    ensures
        statuses_view(r@) == result_view(tnum_problems(width_groups(t), full_lists)),
{
    let ghost g = width_groups(t);
    let mut problems: Vec<Status> = Vec::new();
    if t.widths.len() > 1 {
        let m = most_common(t);
        let mc = t.widths[m];
        let hv: u16 = ((mc as u32 + 1) / 2) as u16;
        proof {
            assert(mc == g[most_common_index(g)].0);
            assert(hv == half_of(mc));
        }
        match find_width(t, hv) {
            Some(j) => {
                let mut msg: Vec<char> = Vec::new();
                push_str(&mut msg, "There are other glyphs with half of the width (");
                push_decimal(&mut msg, hv as u64);
                push_str(
                    &mut msg,
                    ") of the most common width such as the following ones:\n\n",
                );
                let list = bullet_list(full_lists, &t.names[j]);
                push_chars(&mut msg, &list);
                proof {
                    assert(msg@ =~= half_width_message(hv, g[j as int].1, full_lists));
                }
                problems.push(Status::new(StatusCode::Info, "half-widths", string_of(&msg)));
            },
            None => {},
        }
        let ghost info = statuses_view(problems@);
        let mut lines: Vec<Vec<char>> = Vec::new();
        let ghost mut others: WidthGroups = Seq::empty();
        let mut i: usize = 0;
        while i < t.widths.len()
            invariant
                width_table_wf(t),
                g == width_groups(t),
                i <= t.widths.len(),
                others == other_groups(g.take(i as int), mc, hv),
                views(lines@) == others.map_values(|grp: (u16, Seq<Seq<char>>)| group_line(grp)),
            decreases t.widths.len() - i,
        {
            proof {
                let s = g.take(i + 1);
                assert(s.drop_last() =~= g.take(i as int));
                assert(s.last() == g[i as int]);
            }
            let w = t.widths[i];
            if w != mc && w != hv {
                let line = make_group_line(w, &t.names[i]);
                let ghost before = lines@;
                lines.push(line);
                proof {
                    others = others.push(g[i as int]);
                    assert(views(lines@) =~= views(before).push(line@));
                    assert(views(lines@) =~= others.map_values(
                        |grp: (u16, Seq<Seq<char>>)| group_line(grp),
                    ));
                }
            }
            i = i + 1;
        }
        proof {
            assert(g.take(t.widths.len() as int) =~= g);
        }
        if lines.len() > 0 {
            let mut msg: Vec<char> = Vec::new();
            push_str(&mut msg, "The most common tabular glyph width is ");
            push_decimal(&mut msg, mc as u64);
            push_str(
                &mut msg,
                ". But there are other tabular glyphs with different widths such as the following ones:\n\n",
            );
            let detail = join_chars(&lines, "\n");
            push_chars(&mut msg, &detail);
            proof {
                reveal_strlit("\n");
                assert("\n"@ =~= seq!['\n']);
                assert(msg@ =~= inconsistent_message(mc, others));
            }
            let ghost before = problems@;
            problems.push(Status::new(StatusCode::Warn, "inconsistent-widths", string_of(&msg)));
            proof {
                assert(statuses_view(problems@) =~= statuses_view(before).push(
                    status_view(
                        StatusCode::Warn,
                        "inconsistent-widths"@,
                        inconsistent_message(mc, others),
                    ),
                ));
            }
        }
        proof {
            assert(statuses_view(problems@) =~= tnum_problems(g, full_lists));
        }
    } else {
        proof {
            assert(statuses_view(problems@) =~= tnum_problems(g, full_lists));
        }
    }
    return_result(problems)
}

/// Whether every font's hmtx table can be read.
pub open spec fn all_hmtx_readable(fonts: Seq<Seq<u8>>) -> bool {
    forall|i: int| 0 <= i < fonts.len() ==> hmtx_readable(#[trigger] fonts[i])
}

/// The check `typenetwork/family/tnum_horizontal_metrics` on the fonts of a
/// family; `full_lists` asks for complete lists in the messages. It skips a
/// family of fewer than two fonts, and fails to run where a font's hmtx
/// table cannot be read.
pub fn tnum_horizontal_metrics(fonts: &Vec<Vec<u8>>, full_lists: bool) -> (r: Result<
    Vec<Status>,
    CheckError,
>)
    ensures
        fonts@.len() < 2 ==> (r matches Ok(v) && statuses_view(v@) == seq![no_siblings_view()]),
        fonts@.len() >= 2 ==> (r is Err <==> !all_hmtx_readable(font_views(fonts@))),
        fonts@.len() >= 2 && r is Ok ==> statuses_view(r->Ok_0@) == result_view(
            tnum_problems(family_groups(font_views(fonts@)), full_lists),
        ),
{
    if fonts.len() < 2 {
        let mut msg: Vec<char> = Vec::new();
        push_str(&mut msg, "This check requires at least two sibling fonts to compare metrics.");
        return Ok(just_one(StatusCode::Skip, "no-siblings", string_of(&msg)));
    }
    let ghost fv = font_views(fonts@);
    let mut t = WidthTable { widths: Vec::new(), names: Vec::new() };
    let mut i: usize = 0;
    proof {
        assert(width_groups(&t) =~= Seq::empty());
        assert(fv.take(0) =~= Seq::<Seq<u8>>::empty());
    }
    while i < fonts.len()
        invariant
            fonts@.len() >= 2,
            fv == font_views(fonts@),
            i <= fonts.len(),
            width_table_wf(&t),
            all_hmtx_readable(fv.take(i as int)),
            width_groups(&t) == add_all(Seq::empty(), family_observations(fv.take(i as int))),
        decreases fonts.len() - i,
    {
        proof {
            let s = fv.take(i + 1);
            assert(s.drop_last() =~= fv.take(i as int));
            assert(s.last() == fonts@[i as int]@);
        }
        match read_hmtx(fonts[i].as_slice()) {
            Ok(()) => {},
            Err(e) => {
                proof {
                    assert(!hmtx_readable(fv[i as int]));
                }
                return Err(CheckError::FontRead(e));
            },
        }
        proof {
            lemma_add_all_concat(
                Seq::empty(),
                family_observations(fv.take(i as int)),
                font_observations(fonts@[i as int]@, glyph_count(fonts@[i as int]@) as nat),
            );
        }
        add_font(&mut t, &fonts[i]);
        i = i + 1;
        proof {
            assert forall|k: int| 0 <= k < i implies hmtx_readable(#[trigger] fv.take(i as int)[k]) by {
                if k < i - 1 {
                    assert(fv.take(i as int)[k] == fv.take(i - 1)[k]);
                }
            }
        }
    }
    proof {
        assert(fv.take(fonts.len() as int) =~= fv);
    }
    Ok(tnum_verdict(&t, full_lists))
}

/// Adding two lists of observations one after the other adds their
/// concatenation.
proof fn lemma_add_all_concat(g: WidthGroups, a: Seq<(u16, Seq<char>)>, b: Seq<(u16, Seq<char>)>)
    ensures
        add_all(g, a + b) == add_all(add_all(g, a), b),
    decreases b.len(),
{
    if b.len() == 0 {
        assert(a + b =~= a);
    } else {
        lemma_add_all_concat(g, a, b.drop_last());
        assert((a + b).drop_last() =~= a + b.drop_last());
        assert((a + b).last() == b.last());
    }
}

} // verus!
