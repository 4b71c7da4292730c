//! `typenetwork/family/duplicated_names`: no two fonts of a family share a
//! full name or a PostScript name. Duplicated names can keep fonts out of
//! the lists of design apps, or break the CSS classes and `@font-face` rules
//! made from them.
use vstd::prelude::*;

use crate::fontdata::{name_strings, read_name_strings, string_views};
use crate::status::{
    law_result_well_formed, no_pass, pass_view, well_formed_report, result_view, return_result, status_view, statuses_view, Status, StatusCode, StatusView,
};
use crate::text::{chars_of, eq_chars, push_chars, push_str, string_of, views};

verus! {

/// Name ID 4, the full name.
pub const FULL_NAME: u16 = 4;

/// Name ID 6, the PostScript name.
pub const POSTSCRIPT_NAME: u16 = 6;

/// The first string of a list, or the empty string.
pub open spec fn first_or_empty(s: Seq<Seq<char>>) -> Seq<char> {
    if s.len() > 0 {
        s[0]
    } else {
        Seq::<char>::empty()
    }
}

/// For each font, the first string of its name entry with the given ID, or
/// the empty string.
pub open spec fn first_names(fonts: Seq<Seq<u8>>, name_id: u16) -> Seq<Seq<char>> {
    fonts.map_values(|f: Seq<u8>| first_or_empty(name_strings(f, name_id)))
}

/// The names that occur more than once, each once, in the order in which
/// their second occurrence comes.
pub open spec fn duplicates(names: Seq<Seq<char>>) -> Seq<Seq<char>>
    decreases names.len(),
{
    if names.len() == 0 {
        Seq::<Seq<char>>::empty()
    } else {
        let prev = duplicates(names.drop_last());
        let x = names.last();
        if names.drop_last().contains(x) && !prev.contains(x) {
            prev.push(x)
        } else {
            prev
        }
    }
}

/// One line per name: `* `, the name and a line break.
pub open spec fn star_lines(names: Seq<Seq<char>>) -> Seq<char>
    decreases names.len(),
{
    if names.len() == 0 {
        Seq::<char>::empty()
    } else {
        star_lines(names.drop_last()) + seq!['*', ' '] + names.last() + seq!['\n']
    }
}

/// The problems that one kind of duplicated name gives.
pub open spec fn duplicate_problems(
    dups: Seq<Seq<char>>,
    code: Seq<char>,
    heading: Seq<char>,
) -> Seq<StatusView> {
    if dups.len() == 0 {
        Seq::<StatusView>::empty()
    } else {
        seq![status_view(StatusCode::Fail, code, heading + star_lines(dups))]
    }
}

/// What the check reports for the full names and PostScript names of the
/// fonts: a failure that lists the duplicated full names, where there are
/// any, then one that lists the duplicated PostScript names; a pass where
/// there is neither.
pub open spec fn duplicated_names_outcome(
    full: Seq<Seq<char>>,
    postscript: Seq<Seq<char>>,
) -> Seq<StatusView> {
    result_view(
        duplicate_problems(
            duplicates(full),
            "duplicate-full-names"@,
            "Following full names are duplicate:\n\n"@,
        ) + duplicate_problems(
            duplicates(postscript),
            "duplicate-postscript-names"@,
            "Following postscript names are duplicate:\n\n"@,
        ),
    )
}

/// Whether `x` occurs at two places of `names`.
pub open spec fn occurs_twice(names: Seq<Seq<char>>, x: Seq<char>) -> bool {
    exists|i: int, j: int|
        0 <= i < j < names.len() && #[trigger] names[i] == x && #[trigger] names[j] == x
}

/// A name is reported as duplicated exactly where it occurs at least twice,
/// and each such name is reported once.
pub proof fn law_duplicates_exact(names: Seq<Seq<char>>, x: Seq<char>)
    ensures
        duplicates(names).contains(x) <==> occurs_twice(names, x),
        duplicates(names).no_duplicates(),
    decreases names.len(),
{
    if names.len() > 0 {
        let p = names.drop_last();
        let l = names.last();
        law_duplicates_exact(p, x);
        law_duplicates_exact(p, l);
        let prev = duplicates(p);
        assert forall|k: int| 0 <= k < p.len() implies #[trigger] p[k] == names[k] by {}
        if occurs_twice(p, x) {
            let (i, j) = choose|i: int, j: int|
                0 <= i < j < p.len() && #[trigger] p[i] == x && #[trigger] p[j] == x;
            assert(names[i] == x && names[j] == x);
        }
        if occurs_twice(p, l) {
            let (i, j) = choose|i: int, j: int|
                0 <= i < j < p.len() && #[trigger] p[i] == l && #[trigger] p[j] == l;
            assert(p.contains(l));
        }
        let pushed = p.contains(l) && !prev.contains(l);
        if pushed {
            assert(duplicates(names) == prev.push(l));
            assert(duplicates(names)[prev.len() as int] == l);
        } else {
            assert(duplicates(names) == prev);
        }
        if x == l {
            if p.contains(l) {
                let i = choose|i: int| 0 <= i < p.len() && p[i] == l;
                assert(names[i] == x && names[names.len() - 1] == x);
                assert(occurs_twice(names, x));
            } else {
                if occurs_twice(names, x) {
                    let (i, j) = choose|i: int, j: int|
                        0 <= i < j < names.len() && #[trigger] names[i] == x && #[trigger] names[j]
                            == x;
                    assert(p[i] == x);
                    assert(p.contains(l));
                }
                assert(!prev.contains(l));
            }
        } else {
            if occurs_twice(names, x) {
                let (i, j) = choose|i: int, j: int|
                    0 <= i < j < names.len() && #[trigger] names[i] == x && #[trigger] names[j]
                        == x;
                assert(j < names.len() - 1);
                assert(p[i] == x && p[j] == x);
            }
            if pushed {
                if duplicates(names).contains(x) {
                    let k = choose|k: int|
                        0 <= k < duplicates(names).len() && duplicates(names)[k] == x;
                    assert(k < prev.len());
                    assert(prev[k] == x);
                }
                if prev.contains(x) {
                    let k = choose|k: int| 0 <= k < prev.len() && prev[k] == x;
                    assert(duplicates(names)[k] == x);
                }
            }
        }
        if p.contains(l) && !prev.contains(l) {
            let d = prev.push(l);
            assert forall|a: int, b: int|
                0 <= a < d.len() && 0 <= b < d.len() && a != b implies d[a] != d[b] by {
                if a == prev.len() {
                    assert(d[b] == prev[b]);
                } else if b == prev.len() {
                    assert(d[a] == prev[a]);
                } else {
                    assert(d[a] == prev[a] && d[b] == prev[b]);
                }
            }
        }
    }
}

/// No duplicate is reported exactly where no name occurs twice.
pub proof fn lemma_no_duplicates(names: Seq<Seq<char>>)
    ensures
        duplicates(names).len() == 0 <==> names.no_duplicates(),
{
    if duplicates(names).len() != 0 {
        let x = duplicates(names)[0];
        law_duplicates_exact(names, x);
        assert(duplicates(names).contains(x));
        let (i, j) = choose|i: int, j: int|
            0 <= i < j < names.len() && #[trigger] names[i] == x && #[trigger] names[j] == x;
        assert(!names.no_duplicates());
    }
    if !names.no_duplicates() {
        let (i, j) = choose|i: int, j: int|
            0 <= i < names.len() && 0 <= j < names.len() && i != j && names[i] == names[j];
        let x = names[i];
        law_duplicates_exact(names, x);
        if i < j {
            assert(occurs_twice(names, x));
        } else {
            assert(names[j] == x && names[i] == x);
            assert(occurs_twice(names, x));
        }
        assert(duplicates(names).contains(x));
    }
}

/// The check's report is well formed, and it is a single pass exactly
/// where no two fonts share a full name and no two share a PostScript name.
pub proof fn law_duplicated_names_pass(full: Seq<Seq<char>>, postscript: Seq<Seq<char>>)
    ensures
        well_formed_report(duplicated_names_outcome(full, postscript)),
        duplicated_names_outcome(full, postscript) == seq![pass_view()] <==> full.no_duplicates()
            && postscript.no_duplicates(),
{
    lemma_no_duplicates(full);
    lemma_no_duplicates(postscript);
    let a = duplicate_problems(
        duplicates(full),
        "duplicate-full-names"@,
        "Following full names are duplicate:\n\n"@,
    );
    let b = duplicate_problems(
        duplicates(postscript),
        "duplicate-postscript-names"@,
        "Following postscript names are duplicate:\n\n"@,
    );
    assert(no_pass(a + b));
    law_result_well_formed(a + b);
    if (a + b).len() != 0 {
        if result_view(a + b) == seq![pass_view()] {
            assert((a + b)[0].severity == StatusCode::Pass);
        }
    }
}

/// Whether one of the first `n` entries of `p` is `k`.
pub open spec fn lists_index(p: Seq<int>, n: int, k: int) -> bool {
    exists|i: int| 0 <= i < n && #[trigger] p[i] == k
}

/// Whether `p` lists the indices `0..n`, each once: a reordering of `n`
/// items.
pub open spec fn is_permutation(p: Seq<int>, n: int) -> bool {
    &&& p.len() == n
    &&& forall|i: int| 0 <= i < n ==> 0 <= #[trigger] p[i] < n
    &&& forall|i: int, j: int|
        0 <= i < n && 0 <= j < n && i != j ==> #[trigger] p[i] != #[trigger] p[j]
    &&& forall|k: int| 0 <= k < n ==> #[trigger] lists_index(p, n, k)
}

/// The severity and code of each status of a report.
pub open spec fn severities_and_codes(r: Seq<StatusView>) -> Seq<(StatusCode, Option<Seq<char>>)> {
    r.map_values(|v: StatusView| (v.severity, v.code))
}

/// Reordering a list of names keeps it free of repeats, or not.
proof fn lemma_reordered_no_duplicates(a: Seq<Seq<char>>, b: Seq<Seq<char>>, p: Seq<int>)
    requires
        is_permutation(p, a.len() as int),
        b.len() == a.len(),
        forall|i: int| 0 <= i < b.len() ==> #[trigger] b[i] == a[p[i]],
    ensures
        a.no_duplicates() <==> b.no_duplicates(),
{
    if !b.no_duplicates() {
        let (i, j) = choose|i: int, j: int|
            0 <= i < b.len() && 0 <= j < b.len() && i != j && b[i] == b[j];
        assert(b[i] == a[p[i]] && b[j] == a[p[j]]);
        assert(p[i] != p[j]);
        assert(0 <= p[i] < a.len() && 0 <= p[j] < a.len());
        assert(!a.no_duplicates());
    }
    if !a.no_duplicates() {
        let (k, l) = choose|k: int, l: int|
            0 <= k < a.len() && 0 <= l < a.len() && k != l && a[k] == a[l];
        assert(lists_index(p, a.len() as int, k));
        assert(lists_index(p, a.len() as int, l));
        let i = choose|i: int| 0 <= i < a.len() && #[trigger] p[i] == k;
        let j = choose|j: int| 0 <= j < a.len() && #[trigger] p[j] == l;
        assert(b[i] == a[k] && b[j] == a[l]);
        assert(!b.no_duplicates());
    }
}

/// The severities and codes of the report on names depend only on whether
/// the full names, and the PostScript names, repeat.
proof fn lemma_outcome_codes(full: Seq<Seq<char>>, postscript: Seq<Seq<char>>)
    ensures
        severities_and_codes(duplicated_names_outcome(full, postscript)) == if full.no_duplicates()
            && postscript.no_duplicates() {
            seq![(StatusCode::Pass, None::<Seq<char>>)]
        } else if postscript.no_duplicates() {
            seq![(StatusCode::Fail, Some("duplicate-full-names"@))]
        } else if full.no_duplicates() {
            seq![(StatusCode::Fail, Some("duplicate-postscript-names"@))]
        } else {
            seq![
                (StatusCode::Fail, Some("duplicate-full-names"@)),
                (StatusCode::Fail, Some("duplicate-postscript-names"@)),
            ]
        },
{
    lemma_no_duplicates(full);
    lemma_no_duplicates(postscript);
    let r = duplicated_names_outcome(full, postscript);
    assert(severities_and_codes(r) =~= if full.no_duplicates() && postscript.no_duplicates() {
        seq![(StatusCode::Pass, None::<Seq<char>>)]
    } else if postscript.no_duplicates() {
        seq![(StatusCode::Fail, Some("duplicate-full-names"@))]
    } else if full.no_duplicates() {
        seq![(StatusCode::Fail, Some("duplicate-postscript-names"@))]
    } else {
        seq![
            (StatusCode::Fail, Some("duplicate-full-names"@)),
            (StatusCode::Fail, Some("duplicate-postscript-names"@)),
        ]
    });
}

/// The order of the fonts does not change what the check reports, but for
/// the order of the names in its messages: a family and the same family
/// reordered (`reordered[i]` is `fonts[p[i]]`) give the same severities and
/// codes.
pub proof fn law_duplicated_names_order_free(
    fonts: Seq<Seq<u8>>,
    reordered: Seq<Seq<u8>>,
    p: Seq<int>,
)
    requires
        is_permutation(p, fonts.len() as int),
        reordered.len() == fonts.len(),
        forall|i: int| 0 <= i < reordered.len() ==> #[trigger] reordered[i] == fonts[p[i]],
    ensures
        severities_and_codes(
            duplicated_names_outcome(
                first_names(reordered, FULL_NAME),
                first_names(reordered, POSTSCRIPT_NAME),
            ),
        ) == severities_and_codes(
            duplicated_names_outcome(
                first_names(fonts, FULL_NAME),
                first_names(fonts, POSTSCRIPT_NAME),
            ),
        ),
{
    let fa = first_names(fonts, FULL_NAME);
    let fb = first_names(reordered, FULL_NAME);
    let pa = first_names(fonts, POSTSCRIPT_NAME);
    let pb = first_names(reordered, POSTSCRIPT_NAME);
    assert forall|i: int| 0 <= i < fb.len() implies #[trigger] fb[i] == fa[p[i]] by {
        assert(reordered[i] == fonts[p[i]]);
        assert(0 <= p[i] < fonts.len());
    }
    assert forall|i: int| 0 <= i < pb.len() implies #[trigger] pb[i] == pa[p[i]] by {
        assert(reordered[i] == fonts[p[i]]);
        assert(0 <= p[i] < fonts.len());
    }
    lemma_reordered_no_duplicates(fa, fb, p);
    lemma_reordered_no_duplicates(pa, pb, p);
    lemma_outcome_codes(fa, pa);
    lemma_outcome_codes(fb, pb);
}

/// Whether `x` is among `v`.
pub fn contains_chars(v: &Vec<Vec<char>>, x: &Vec<char>) -> (b: bool)
    ensures
        b == views(v@).contains(x@),
{
    let mut i: usize = 0;
    while i < v.len()
        invariant
            i <= v.len(),
            forall|j: int| 0 <= j < i ==> views(v@)[j] != x@,
        decreases v.len() - i,
    {
        if eq_chars(&v[i], x) {
            proof {
                assert(views(v@)[i as int] == x@);
            }
            return true;
        }
        i = i + 1;
    }
    false
}

/// The names that occur more than once.
pub fn find_duplicates(names: &Vec<Vec<char>>) -> (dups: Vec<Vec<char>>)
    ensures
        views(dups@) == duplicates(views(names@)),
{
    let mut seen: Vec<Vec<char>> = Vec::new();
    let mut dups: Vec<Vec<char>> = Vec::new();
    let mut i: usize = 0;
    while i < names.len()
        invariant
            i <= names.len(),
            views(seen@) == views(names@).take(i as int),
            views(dups@) == duplicates(views(names@).take(i as int)),
        decreases names.len() - i,
    {
        let name = names[i].clone();
        proof {
            let t = views(names@).take(i + 1);
            assert(t.drop_last() =~= views(names@).take(i as int));
            assert(t.last() == names@[i as int]@);
        }
        let seen_before = contains_chars(&seen, &name);
        let reported = contains_chars(&dups, &name);
        if seen_before && !reported {
            let ghost before = dups@;
            dups.push(name.clone());
            proof {
                assert(views(dups@) =~= views(before).push(name@));
            }
        }
        let ghost before_seen = seen@;
        seen.push(name);
        proof {
            assert(views(seen@) =~= views(before_seen).push(names@[i as int]@));
        }
        i = i + 1;
        proof {
            assert(views(seen@) =~= views(names@).take(i as int));
        }
    }
    proof {
        assert(views(names@).take(names@.len() as int) =~= views(names@));
    }
    dups
}

/// The failure that lists duplicated names, if there are any.
fn push_duplicate_problem(
    out: &mut Vec<Status>,
    dups: &Vec<Vec<char>>,
    code: &str,
    heading: &str,
)
    ensures
        statuses_view(final(out)@) == statuses_view(old(out)@) + duplicate_problems(
            views(dups@),
            code@,
            heading@,
        ),
{
    if dups.len() == 0 {
        proof {
            assert(statuses_view(final(out)@) =~= statuses_view(old(out)@) + duplicate_problems(
                views(dups@),
                code@,
                heading@,
            ));
        }
        return ;
    }
    let mut msg: Vec<char> = Vec::new();
    push_str(&mut msg, heading);
    let ghost head = msg@;
    let mut i: usize = 0;
    while i < dups.len()
        invariant
            i <= dups.len(),
            head == heading@,
            msg@ == head + star_lines(views(dups@).take(i as int)),
        decreases dups.len() - i,
    {
        proof {
            let t = views(dups@).take(i + 1);
            assert(t.drop_last() =~= views(dups@).take(i as int));
            assert(t.last() == dups@[i as int]@);
        }
        msg.push('*');
        msg.push(' ');
        push_chars(&mut msg, &dups[i]);
        msg.push('\n');
        i = i + 1;
        proof {
            assert(msg@ =~= head + star_lines(views(dups@).take(i as int)));
        }
    }
    proof {
        assert(views(dups@).take(dups@.len() as int) =~= views(dups@));
    }
    let ghost before = out@;
    out.push(Status::new(StatusCode::Fail, code, string_of(&msg)));
    proof {
        assert(statuses_view(out@) =~= statuses_view(before) + duplicate_problems(
            views(dups@),
            code@,
            heading@,
        ));
    }
}

/// What the check reports for the full names and PostScript names of the
/// fonts.
pub fn duplicated_names_verdict(full: &Vec<Vec<char>>, postscript: &Vec<Vec<char>>) -> (r: Vec<
    Status,
>)
    ensures
        statuses_view(r@) == duplicated_names_outcome(views(full@), views(postscript@)),
{
    let full_dups = find_duplicates(full);
    let ps_dups = find_duplicates(postscript);
    let mut problems: Vec<Status> = Vec::new();
    push_duplicate_problem(
        &mut problems,
        &full_dups,
        "duplicate-full-names",
        "Following full names are duplicate:\n\n",
    );
    push_duplicate_problem(
        &mut problems,
        &ps_dups,
        "duplicate-postscript-names",
        "Following postscript names are duplicate:\n\n",
    );
    proof {
        assert(statuses_view(problems@) =~= duplicate_problems(
            duplicates(views(full@)),
            "duplicate-full-names"@,
            "Following full names are duplicate:\n\n"@,
        ) + duplicate_problems(
            duplicates(views(postscript@)),
            "duplicate-postscript-names"@,
            "Following postscript names are duplicate:\n\n"@,
        ));
    }
    return_result(problems)
}

/// The first string of a font's name entry, or the empty string.
fn first_name(font: &Vec<u8>, name_id: u16) -> (r: Vec<char>)
    ensures
        r@ == first_or_empty(name_strings(font@, name_id)),
{
    let entries = read_name_strings(font.as_slice(), name_id);
    if entries.len() > 0 {
        proof {
            assert(string_views(entries@)[0] == entries@[0]@);
        }
        chars_of(entries[0].as_str())
    } else {
        Vec::new()
    }
}

/// The views of a list of font binaries.
pub open spec fn font_views(fonts: Seq<Vec<u8>>) -> Seq<Seq<u8>> {
    fonts.map_values(|f: Vec<u8>| f@)
}

/// The check `typenetwork/family/duplicated_names` on the fonts of a family.
pub fn duplicated_names(fonts: &Vec<Vec<u8>>) -> (r: Vec<Status>)
    ensures
        statuses_view(r@) == duplicated_names_outcome(
            first_names(font_views(fonts@), FULL_NAME),
            first_names(font_views(fonts@), POSTSCRIPT_NAME),
        ),
{
    let mut full: Vec<Vec<char>> = Vec::new();
    let mut postscript: Vec<Vec<char>> = Vec::new();
    let mut i: usize = 0;
    while i < fonts.len()
        invariant
            i <= fonts.len(),
            views(full@) == first_names(font_views(fonts@), FULL_NAME).take(i as int),
            views(postscript@) == first_names(font_views(fonts@), POSTSCRIPT_NAME).take(i as int),
        decreases fonts.len() - i,
    {
        let f = first_name(&fonts[i], FULL_NAME);
        let p = first_name(&fonts[i], POSTSCRIPT_NAME);
        let ghost bf = full@;
        let ghost bp = postscript@;
        full.push(f);
        postscript.push(p);
        proof {
            assert(font_views(fonts@)[i as int] == fonts@[i as int]@);
            assert(views(full@) =~= views(bf).push(f@));
            assert(views(postscript@) =~= views(bp).push(p@));
        }
        i = i + 1;
        proof {
            assert(views(full@) =~= first_names(font_views(fonts@), FULL_NAME).take(i as int));
            assert(views(postscript@) =~= first_names(font_views(fonts@), POSTSCRIPT_NAME).take(
                i as int,
            ));
        }
    }
    proof {
        assert(first_names(font_views(fonts@), FULL_NAME).take(fonts@.len() as int) =~= first_names(
            font_views(fonts@),
            FULL_NAME,
        ));
        assert(first_names(font_views(fonts@), POSTSCRIPT_NAME).take(fonts@.len() as int)
            =~= first_names(font_views(fonts@), POSTSCRIPT_NAME));
    }
    duplicated_names_verdict(&full, &postscript)
}

} // verus!
