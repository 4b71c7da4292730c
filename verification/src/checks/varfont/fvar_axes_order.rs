//! `typenetwork/varfont/fvar_axes_order`: where a font has no STAT table,
//! Adobe apps sort its instances better when the fvar axes come in the
//! order `opsz`, `wdth`, `wght`, `ital`, `slnt`.
use vstd::prelude::*;

use crate::checks::common::{push_tag, tag_text};
use crate::fontdata::{fvar_axis_tags, read_fvar_axis_tags, read_stat_readable, stat_readable};
use crate::status::{
    law_result_well_formed, no_pass, well_formed_report, just_one, result_view, return_result, status_view, statuses_view, CheckError, Status,
    StatusCode, StatusView,
};
use crate::text::{
    debug_ascii, decimal, eq_chars, join, join_chars, push_chars, push_debug_ascii, push_decimal,
    push_str, string_of, views,
};

verus! {

/// The registered axes in the preferred order.
pub open spec fn preferred_order() -> Seq<Seq<char>> {
    seq!["opsz"@, "wdth"@, "wght"@, "ital"@, "slnt"@]
}

/// The axis names, in order, that are registered (in the preferred order).
pub open spec fn registered_axes(names: Seq<Seq<char>>) -> Seq<Seq<char>>
    decreases names.len(),
{
    if names.len() == 0 {
        Seq::empty()
    } else {
        let prev = registered_axes(names.drop_last());
        if preferred_order().contains(names.last()) {
            prev.push(names.last())
        } else {
            prev
        }
    }
}

/// The axis names, in order, that are not registered, each with its place
/// among the axes.
pub open spec fn custom_axes(names: Seq<Seq<char>>) -> Seq<(Seq<char>, nat)>
    decreases names.len(),
{
    if names.len() == 0 {
        Seq::empty()
    } else {
        let prev = custom_axes(names.drop_last());
        if preferred_order().contains(names.last()) {
            prev
        } else {
            prev.push((names.last(), (names.len() - 1) as nat))
        }
    }
}

/// The registered axes are those of the preferred order, given by a
/// predicate.
proof fn lemma_registered_filter(names: Seq<Seq<char>>, registered: spec_fn(Seq<char>) -> bool)
    requires
        forall|n: Seq<char>| #[trigger] registered(n) <==> preferred_order().contains(n),
    ensures
        registered_axes(names) == names.filter(registered),
        custom_axes(names).map_values(|c: (Seq<char>, nat)| c.0) == names.filter(
            |n: Seq<char>| !registered(n),
        ),
        forall|k: int|
            0 <= k < custom_axes(names).len() ==> {
                let c = #[trigger] custom_axes(names)[k];
                c.1 < names.len() && names[c.1 as int] == c.0
            },
        forall|k: int, l: int|
            0 <= k < l < custom_axes(names).len() ==> (#[trigger] custom_axes(names)[k]).1 < (
            #[trigger] custom_axes(names)[l]).1,
    decreases names.len(),
{
    reveal(Seq::filter);
    if names.len() > 0 {
        let p = names.drop_last();
        lemma_registered_filter(p, registered);
        let cp = custom_axes(p);
        let c = custom_axes(names);
        assert(names.filter(registered) == {
            let sub = p.filter(registered);
            if registered(names.last()) {
                sub.push(names.last())
            } else {
                sub
            }
        });
        let unreg = |n: Seq<char>| !registered(n);
        assert(names.filter(unreg) == {
            let sub = p.filter(unreg);
            if unreg(names.last()) {
                sub.push(names.last())
            } else {
                sub
            }
        });
        assert(c.map_values(|x: (Seq<char>, nat)| x.0) =~= names.filter(unreg));
        assert forall|k: int| 0 <= k < c.len() implies {
            let x = #[trigger] c[k];
            x.1 < names.len() && names[x.1 as int] == x.0
        } by {
            if k < cp.len() {
                assert(c[k] == cp[k]);
                assert(names[cp[k].1 as int] == p[cp[k].1 as int]);
            }
        }
        assert forall|k: int, l: int| 0 <= k < l < c.len() implies (#[trigger] c[k]).1 < (
        #[trigger] c[l]).1 by {
            assert(c[k] == cp[k]);
            if l < cp.len() {
                assert(c[l] == cp[l]);
            }
        }
    }
}

/// Every axis named `opsz`, `wdth`, `wght`, `ital` or `slnt` is a
/// registered axis, and no other is: the registered axes are exactly those
/// names, in the order in which the font has them, and the custom axes are
/// all the other names, in order, each with its place among the axes.
pub proof fn law_registered_and_custom_axes(names: Seq<Seq<char>>)
    ensures
        registered_axes(names) == names.filter(
            |n: Seq<char>|
                n == "opsz"@ || n == "wdth"@ || n == "wght"@ || n == "ital"@ || n == "slnt"@,
        ),
        custom_axes(names).map_values(|c: (Seq<char>, nat)| c.0) == names.filter(
            |n: Seq<char>|
                !(n == "opsz"@ || n == "wdth"@ || n == "wght"@ || n == "ital"@ || n == "slnt"@),
        ),
        forall|k: int|
            0 <= k < custom_axes(names).len() ==> {
                let c = #[trigger] custom_axes(names)[k];
                c.1 < names.len() && names[c.1 as int] == c.0
            },
        forall|k: int, l: int|
            0 <= k < l < custom_axes(names).len() ==> (#[trigger] custom_axes(names)[k]).1 < (
            #[trigger] custom_axes(names)[l]).1,
{
    let registered = |n: Seq<char>|
        n == "opsz"@ || n == "wdth"@ || n == "wght"@ || n == "ital"@ || n == "slnt"@;
    assert forall|n: Seq<char>| #[trigger] registered(n) <==> preferred_order().contains(n) by {
        let o = preferred_order();
        if registered(n) {
            if n == "opsz"@ {
                assert(o[0] == n);
            } else if n == "wdth"@ {
                assert(o[1] == n);
            } else if n == "wght"@ {
                assert(o[2] == n);
            } else if n == "ital"@ {
                assert(o[3] == n);
            } else {
                assert(o[4] == n);
            }
        }
        if o.contains(n) {
            let i = choose|i: int| 0 <= i < o.len() && o[i] == n;
            assert(i == 0 || i == 1 || i == 2 || i == 3 || i == 4);
        }
    }
    lemma_registered_filter(names, registered);
    let unreg = |n: Seq<char>|
        !(n == "opsz"@ || n == "wdth"@ || n == "wght"@ || n == "ital"@ || n == "slnt"@);
    assert(unreg =~= (|n: Seq<char>| !registered(n)));
}

/// The names of `order`, in that order, that occur in `present`.
pub open spec fn keep_present(order: Seq<Seq<char>>, present: Seq<Seq<char>>) -> Seq<Seq<char>>
    decreases order.len(),
{
    if order.len() == 0 {
        Seq::empty()
    } else {
        let prev = keep_present(order.drop_last(), present);
        if present.contains(order.last()) {
            prev.push(order.last())
        } else {
            prev
        }
    }
}

/// The `Debug` form of a list of names.
pub open spec fn names_debug(names: Seq<Seq<char>>) -> Seq<char> {
    seq!['['] + join(names.map_values(|n: Seq<char>| debug_ascii(n)), ", "@) + seq![']']
}

/// The `Debug` form of a name with its place.
pub open spec fn custom_debug(c: (Seq<char>, nat)) -> Seq<char> {
    seq!['('] + debug_ascii(c.0) + ", "@ + decimal(c.1) + seq![')']
}

/// The `Debug` form of the list of custom axes.
pub open spec fn customs_debug(cs: Seq<(Seq<char>, nat)>) -> Seq<char> {
    seq!['['] + join(cs.map_values(|c: (Seq<char>, nat)| custom_debug(c)), ", "@) + seq![']']
}

/// The message for registered axes out of order.
pub open spec fn order_message(current: Seq<Seq<char>>, expected: Seq<Seq<char>>) -> Seq<char> {
    "Font's registered axes are not in a correct order to get good instances sorting on Adobe apps.\n\nCurrent order is "@
        + names_debug(current) + ", but it should be "@ + names_debug(expected)
}

/// The message that lists the custom axes.
pub open spec fn custom_message(cs: Seq<(Seq<char>, nat)>) -> Seq<char> {
    "The font has custom axes with the indicated order:\n\n"@ + customs_debug(cs)
        + "\n\nIts order can depend on the kind of variation and the subfamily"@
}

/// What the check reports for the axis names of a font without a STAT
/// table: a warning where the registered axes are not in the preferred
/// order, then a note that lists the custom axes, where there are any; a
/// pass where there is neither.
pub open spec fn axes_order_outcome(names: Seq<Seq<char>>) -> Seq<StatusView> {
    let registered = registered_axes(names);
    let expected = keep_present(preferred_order(), registered);
    let customs = custom_axes(names);
    let warn = if expected != registered {
        seq![
            status_view(
                StatusCode::Warn,
                "axes-incorrect-order"@,
                order_message(registered, expected),
            ),
        ]
    } else {
        Seq::empty()
    };
    let info = if customs.len() > 0 {
        seq![status_view(StatusCode::Info, "custom-axes"@, custom_message(customs))]
    } else {
        Seq::empty()
    };
    result_view(warn + info)
}

/// The skip for a font with a STAT table.
pub open spec fn has_stat_view() -> StatusView {
    status_view(
        StatusCode::Skip,
        "has-stat"@,
        "The font has a STAT table. This will control instances order."@,
    )
}

/// The names of the axis tags, as `Display` writes them.
pub open spec fn tag_names(tags: Seq<u32>) -> Seq<Seq<char>> {
    tags.map_values(|t: u32| tag_text(t))
}

/// Where a registered axis stands in the preferred order (5 for any other
/// name).
pub open spec fn rank(n: Seq<char>) -> int {
    if n == "opsz"@ {
        0
    } else if n == "wdth"@ {
        1
    } else if n == "wght"@ {
        2
    } else if n == "ital"@ {
        3
    } else if n == "slnt"@ {
        4
    } else {
        5
    }
}

/// Whether the names come in strictly increasing preferred rank.
pub open spec fn increasing_rank(r: Seq<Seq<char>>) -> bool {
    forall|i: int, j: int| 0 <= i < j < r.len() ==> rank(#[trigger] r[i]) < rank(#[trigger] r[j])
}

/// Each registered axis stands in the preferred order at its rank.
proof fn lemma_rank()
    ensures
        forall|t: int| 0 <= t < 5 ==> rank(#[trigger] preferred_order()[t]) == t,
        forall|n: Seq<char>| #[trigger] preferred_order().contains(n) ==> 0 <= rank(n) < 5
            && preferred_order()[rank(n)] == n,
        forall|n: Seq<char>| !(#[trigger] preferred_order().contains(n)) ==> rank(n) == 5,
{
    reveal_strlit("opsz");
    reveal_strlit("wdth");
    reveal_strlit("wght");
    reveal_strlit("ital");
    reveal_strlit("slnt");
    let p = preferred_order();
    assert("opsz"@[0] != "wdth"@[0]);
    assert("opsz"@[0] != "wght"@[0]);
    assert("opsz"@[0] != "ital"@[0]);
    assert("opsz"@[0] != "slnt"@[0]);
    assert("wdth"@[1] != "wght"@[1]);
    assert("wdth"@[0] != "ital"@[0]);
    assert("wdth"@[0] != "slnt"@[0]);
    assert("wght"@[0] != "ital"@[0]);
    assert("wght"@[0] != "slnt"@[0]);
    assert("ital"@[0] != "slnt"@[0]);
    assert forall|n: Seq<char>| #[trigger] p.contains(n) implies 0 <= rank(n) < 5 && p[rank(n)]
        == n by {
        let k = choose|k: int| 0 <= k < p.len() && p[k] == n;
        assert(k == 0 || k == 1 || k == 2 || k == 3 || k == 4);
    }
    assert forall|n: Seq<char>| !(#[trigger] p.contains(n)) implies rank(n) == 5 by {
        if n == "opsz"@ {
            assert(p[0] == n);
        } else if n == "wdth"@ {
            assert(p[1] == n);
        } else if n == "wght"@ {
            assert(p[2] == n);
        } else if n == "ital"@ {
            assert(p[3] == n);
        } else if n == "slnt"@ {
            assert(p[4] == n);
        }
    }
}

/// The registered axes are all in the preferred order.
proof fn lemma_registered_preferred(names: Seq<Seq<char>>)
    ensures
        forall|i: int|
            0 <= i < registered_axes(names).len() ==> preferred_order().contains(
                #[trigger] registered_axes(names)[i],
            ),
    decreases names.len(),
{
    if names.len() > 0 {
        lemma_registered_preferred(names.drop_last());
        let prev = registered_axes(names.drop_last());
        let r = registered_axes(names);
        assert forall|i: int| 0 <= i < r.len() implies preferred_order().contains(
            #[trigger] r[i],
        ) by {
            if i < prev.len() {
                assert(r[i] == prev[i]);
            }
        }
    }
}

/// The names that `keep_present` keeps from the first `k` of the preferred
/// order come in strictly increasing rank, each below `k`.
proof fn lemma_keep_present_increasing(k: int, present: Seq<Seq<char>>)
    requires
        0 <= k <= 5,
    ensures
        increasing_rank(keep_present(preferred_order().take(k), present)),
        forall|i: int|
            0 <= i < keep_present(preferred_order().take(k), present).len() ==> 0 <= rank(
                #[trigger] keep_present(preferred_order().take(k), present)[i],
            ) < k,
    decreases k,
{
    lemma_rank();
    if k > 0 {
        let t = preferred_order().take(k);
        assert(t.drop_last() =~= preferred_order().take(k - 1));
        lemma_keep_present_increasing(k - 1, present);
        let prev = keep_present(preferred_order().take(k - 1), present);
        let e = keep_present(t, present);
        assert(t.last() == preferred_order()[k - 1]);
        assert(rank(t.last()) == k - 1);
        assert forall|i: int| 0 <= i < e.len() implies 0 <= rank(#[trigger] e[i]) < k by {
            if i < prev.len() {
                assert(e[i] == prev[i]);
            }
        }
        assert forall|i: int, j: int| 0 <= i < j < e.len() implies rank(#[trigger] e[i]) < rank(
            #[trigger] e[j],
        ) by {
            if j < prev.len() {
                assert(e[i] == prev[i] && e[j] == prev[j]);
            } else {
                assert(e[i] == prev[i]);
            }
        }
    }
}

/// For registered names in strictly increasing rank, `keep_present` keeps
/// from the first `k` of the preferred order just those names whose rank is
/// below `k`: a prefix of them.
proof fn lemma_keep_present_prefix(k: int, r: Seq<Seq<char>>)
    requires
        0 <= k <= 5,
        increasing_rank(r),
        forall|i: int| 0 <= i < r.len() ==> preferred_order().contains(#[trigger] r[i]),
    ensures
        exists|c: int|
            0 <= c <= r.len() && keep_present(preferred_order().take(k), r) == r.take(c) && (
            forall|i: int| 0 <= i < c ==> rank(#[trigger] r[i]) < k) && (forall|i: int|
                c <= i < r.len() ==> rank(#[trigger] r[i]) >= k),
    decreases k,
{
    lemma_rank();
    if k == 0 {
        assert(keep_present(preferred_order().take(0), r) =~= r.take(0));
        assert forall|i: int| 0 <= i < r.len() implies rank(#[trigger] r[i]) >= 0 by {
            assert(preferred_order().contains(r[i]));
        }
    } else {
        lemma_keep_present_prefix(k - 1, r);
        let c = choose|c: int|
            0 <= c <= r.len() && keep_present(preferred_order().take(k - 1), r) == r.take(c) && (
            forall|i: int| 0 <= i < c ==> rank(#[trigger] r[i]) < k - 1) && (forall|i: int|
                c <= i < r.len() ==> rank(#[trigger] r[i]) >= k - 1);
        let t = preferred_order().take(k);
        assert(t.drop_last() =~= preferred_order().take(k - 1));
        let pk = preferred_order()[k - 1];
        assert(t.last() == pk);
        assert(rank(pk) == k - 1);
        if r.contains(pk) {
            let q = choose|q: int| 0 <= q < r.len() && r[q] == pk;
            assert(q >= c) by {
                if q < c {
                    assert(rank(r[q]) < k - 1);
                }
            }
            assert(q == c) by {
                if q > c {
                    assert(rank(r[c]) < rank(r[q]));
                    assert(rank(r[c]) >= k - 1);
                }
            }
            assert(keep_present(t, r) == r.take(c).push(pk));
            assert(r.take(c).push(pk) =~= r.take(c + 1));
            assert forall|i: int| 0 <= i < c + 1 implies rank(#[trigger] r[i]) < k by {
                if i == c {
                    assert(r[i] == pk);
                }
            }
            assert forall|i: int| c + 1 <= i < r.len() implies rank(#[trigger] r[i]) >= k by {
                assert(rank(r[c]) < rank(r[i]));
                assert(r[c] == pk);
            }
        } else {
            assert(keep_present(t, r) == r.take(c));
            assert forall|i: int| c <= i < r.len() implies rank(#[trigger] r[i]) >= k by {
                assert(preferred_order().contains(r[i]));
                assert(preferred_order()[rank(r[i])] == r[i]);
                if rank(r[i]) == k - 1 {
                    assert(r[i] == pk);
                    assert(r.contains(pk));
                }
            }
            assert forall|i: int| 0 <= i < c implies rank(#[trigger] r[i]) < k by {}
        }
    }
}

/// Registered axes are in a correct order exactly where they come in
/// strictly increasing preferred rank (`opsz`, `wdth`, `wght`, `ital`,
/// `slnt`), without repeats: the check warns about the order exactly where
/// they do not.
pub proof fn law_axes_order(names: Seq<Seq<char>>)
    ensures
        (keep_present(preferred_order(), registered_axes(names)) == registered_axes(names))
            <==> increasing_rank(registered_axes(names)),
{
    let r = registered_axes(names);
    lemma_registered_preferred(names);
    assert(preferred_order().take(5) =~= preferred_order());
    lemma_keep_present_increasing(5, r);
    if increasing_rank(r) {
        lemma_keep_present_prefix(5, r);
        lemma_rank();
        let c = choose|c: int|
            0 <= c <= r.len() && keep_present(preferred_order().take(5), r) == r.take(c) && (
            forall|i: int| 0 <= i < c ==> rank(#[trigger] r[i]) < 5) && (forall|i: int|
                c <= i < r.len() ==> rank(#[trigger] r[i]) >= 5);
        if c < r.len() {
            assert(preferred_order().contains(r[c]));
            assert(rank(r[c]) < 5);
        }
        assert(r.take(c) =~= r);
    }
}

/// The check's report on the axis names is well formed, and it warns about
/// the order exactly where the registered axes do not come in strictly
/// increasing preferred rank.
pub proof fn law_axes_order_report(names: Seq<Seq<char>>)
    ensures
        well_formed_report(axes_order_outcome(names)),
        (exists|i: int|
            0 <= i < axes_order_outcome(names).len() && (#[trigger] axes_order_outcome(
                names,
            )[i]).code == Some("axes-incorrect-order"@)) <==> !increasing_rank(
            registered_axes(names),
        ),
{
    law_axes_order(names);
    let registered = registered_axes(names);
    let expected = keep_present(preferred_order(), registered);
    let customs = custom_axes(names);
    let warn = if expected != registered {
        seq![
            status_view(
                StatusCode::Warn,
                "axes-incorrect-order"@,
                order_message(registered, expected),
            ),
        ]
    } else {
        Seq::<StatusView>::empty()
    };
    let info = if customs.len() > 0 {
        seq![status_view(StatusCode::Info, "custom-axes"@, custom_message(customs))]
    } else {
        Seq::<StatusView>::empty()
    };
    let p = warn + info;
    assert(no_pass(p));
    law_result_well_formed(p);
    let out = axes_order_outcome(names);
    reveal_strlit("custom-axes");
    reveal_strlit("axes-incorrect-order");
    assert("custom-axes"@[0] != "axes-incorrect-order"@[0]);
    if expected != registered {
        assert(out[0] == warn[0]);
        assert(out[0].code == Some("axes-incorrect-order"@));
    } else {
        assert forall|i: int| 0 <= i < out.len() implies (#[trigger] out[i]).code != Some(
            "axes-incorrect-order"@,
        ) by {
            if p.len() > 0 {
                assert(out[i] == info[i]);
            }
        }
    }
}

/// Whether a name is one of the registered axes.
fn is_preferred(name: &Vec<char>, preferred: &Vec<Vec<char>>) -> (b: bool)
    requires
        views(preferred@) == preferred_order(),
    ensures
        b == preferred_order().contains(name@),
{
    let mut i: usize = 0;
    while i < preferred.len()
        invariant
            views(preferred@) == preferred_order(),
            i <= preferred.len(),
            forall|j: int| 0 <= j < i ==> views(preferred@)[j] != name@,
        decreases preferred.len() - i,
    {
        if eq_chars(&preferred[i], name) {
            proof {
                assert(views(preferred@)[i as int] == name@);
            }
            return true;
        }
        i = i + 1;
    }
    false
}

/// Whether `x` is among `v`.
fn contains_name(v: &Vec<Vec<char>>, x: &Vec<char>) -> (b: bool)
    ensures
        b == views(v@).contains(x@),
{
    let mut i: usize = 0;
    while i < v.len()
        invariant
            i <= v.len(),
            forall|j: int| 0 <= j < i ==> views(v@)[j] != x@,
        decreases v.len() - i,
    {
        if eq_chars(&v[i], x) {
            proof {
                assert(views(v@)[i as int] == x@);
            }
            return true;
        }
        i = i + 1;
    }
    false
}

/// Whether two lists hold the same names.
fn same_names(a: &Vec<Vec<char>>, b: &Vec<Vec<char>>) -> (r: bool)
    ensures
        r == (views(a@) == views(b@)),
{
    if a.len() != b.len() {
        proof {
            assert(views(a@).len() != views(b@).len());
        }
        return false;
    }
    let mut j: usize = 0;
    while j < a.len()
        invariant
            a@.len() == b@.len(),
            j <= a.len(),
            forall|m: int| 0 <= m < j ==> views(a@)[m] == views(b@)[m],
        decreases a.len() - j,
    {
        if !eq_chars(&a[j], &b[j]) {
            proof {
                assert(views(a@)[j as int] != views(b@)[j as int]);
            }
            return false;
        }
        j = j + 1;
    }
    proof {
        assert(views(a@) =~= views(b@));
    }
    true
}

/// Appends the `Debug` form of a list of names.
fn push_names_debug(msg: &mut Vec<char>, names: &Vec<Vec<char>>)
    ensures
        final(msg)@ == old(msg)@ + names_debug(views(names@)),
{
    let mut quoted: Vec<Vec<char>> = Vec::new();
    let mut k: usize = 0;
    while k < names.len()
        invariant
            k <= names.len(),
            views(quoted@) == views(names@).take(k as int).map_values(
                |n: Seq<char>| debug_ascii(n),
            ),
        decreases names.len() - k,
    {
        let mut q: Vec<char> = Vec::new();
        push_debug_ascii(&mut q, &names[k]);
        let ghost before = quoted@;
        quoted.push(q);
        proof {
            assert(views(quoted@) =~= views(before).push(q@));
            let target = views(names@).take(k + 1).map_values(|n: Seq<char>| debug_ascii(n));
            assert forall|j: int| 0 <= j < k + 1 implies views(quoted@)[j] == target[j] by {
                if j < k {
                    assert(views(before)[j] == views(names@).take(k as int).map_values(
                        |n: Seq<char>| debug_ascii(n),
                    )[j]);
                }
            }
            assert(views(quoted@) =~= target);
        }
        k = k + 1;
    }
    proof {
        assert(views(names@).take(names@.len() as int) =~= views(names@));
    }
    msg.push('[');
    let inner = join_chars(&quoted, ", ");
    push_chars(msg, &inner);
    msg.push(']');
    proof {
        assert(final(msg)@ =~= old(msg)@ + names_debug(views(names@)));
    }
}

/// The custom axes as plain values.
pub open spec fn custom_views(names: Seq<Vec<char>>, places: Seq<usize>) -> Seq<(Seq<char>, nat)> {
    Seq::new(places.len(), |i: int| (names[i]@, places[i] as nat))
}

/// What the check reports for the axis names of a font without a STAT
/// table.
pub fn axes_order_verdict(names: &Vec<Vec<char>>) -> (r: Vec<Status>)
    ensures
        statuses_view(r@) == axes_order_outcome(views(names@)),
{
    let ghost nv = views(names@);
    let preferred: Vec<Vec<char>> = vec![
        crate::text::chars_of("opsz"),
        crate::text::chars_of("wdth"),
        crate::text::chars_of("wght"),
        crate::text::chars_of("ital"),
        crate::text::chars_of("slnt"),
    ];
    proof {
        assert(views(preferred@) =~= preferred_order());
    }
    let mut registered: Vec<Vec<char>> = Vec::new();
    let mut custom_names: Vec<Vec<char>> = Vec::new();
    let mut custom_places: Vec<usize> = Vec::new();
    let mut i: usize = 0;
    while i < names.len()
        invariant
            nv == views(names@),
            views(preferred@) == preferred_order(),
            i <= names.len(),
            views(registered@) == registered_axes(nv.take(i as int)),
            custom_names@.len() == custom_places@.len(),
            custom_views(custom_names@, custom_places@) == custom_axes(nv.take(i as int)),
        decreases names.len() - i,
    {
        proof {
            let s = nv.take(i + 1);
            assert(s.drop_last() =~= nv.take(i as int));
            assert(s.last() == names@[i as int]@);
        }
        let name = names[i].clone();
        if is_preferred(&name, &preferred) {
            let ghost before = registered@;
            registered.push(name);
            proof {
                assert(views(registered@) =~= views(before).push(names@[i as int]@));
            }
        } else {
            custom_names.push(name);
            custom_places.push(i);
            proof {
                assert(custom_views(custom_names@, custom_places@) =~= custom_axes(
                    nv.take(i + 1),
                ));
            }
        }
        i = i + 1;
    }
    proof {
        assert(nv.take(names@.len() as int) =~= nv);
    }
    let mut expected: Vec<Vec<char>> = Vec::new();
    let mut k: usize = 0;
    while k < preferred.len()
        invariant
            views(preferred@) == preferred_order(),
            k <= preferred.len(),
            views(expected@) == keep_present(preferred_order().take(k as int), views(registered@)),
        decreases preferred.len() - k,
    {
        proof {
            let s = preferred_order().take(k + 1);
            assert(s.drop_last() =~= preferred_order().take(k as int));
            assert(s.last() == preferred@[k as int]@);
        }
        if contains_name(&registered, &preferred[k]) {
            let p = preferred[k].clone();
            let ghost before = expected@;
            expected.push(p);
            proof {
                assert(views(expected@) =~= views(before).push(preferred@[k as int]@));
            }
        }
        k = k + 1;
    }
    proof {
        assert(preferred_order().take(5) =~= preferred_order());
    }
    let mut problems: Vec<Status> = Vec::new();
    let same = same_names(&expected, &registered);
    if !same {
        let mut msg: Vec<char> = Vec::new();
        push_str(
            &mut msg,
            "Font's registered axes are not in a correct order to get good instances sorting on Adobe apps.\n\nCurrent order is ",
        );
        push_names_debug(&mut msg, &registered);
        push_str(&mut msg, ", but it should be ");
        push_names_debug(&mut msg, &expected);
        proof {
            assert(msg@ =~= order_message(views(registered@), views(expected@)));
        }
        problems.push(Status::new(StatusCode::Warn, "axes-incorrect-order", string_of(&msg)));
    }
    let ghost warn = statuses_view(problems@);
    if custom_names.len() > 0 {
        let mut items: Vec<Vec<char>> = Vec::new();
        let mut c: usize = 0;
        while c < custom_names.len()
            invariant
                custom_names@.len() == custom_places@.len(),
                c <= custom_names.len(),
                views(items@) == custom_views(custom_names@, custom_places@).take(
                    c as int,
                ).map_values(|x: (Seq<char>, nat)| custom_debug(x)),
            decreases custom_names.len() - c,
        {
            let mut item: Vec<char> = Vec::new();
            item.push('(');
            push_debug_ascii(&mut item, &custom_names[c]);
            push_str(&mut item, ", ");
            push_decimal(&mut item, custom_places[c] as u64);
            item.push(')');
            let ghost before = items@;
            items.push(item);
            proof {
                assert(views(items@) =~= views(before).push(item@));
                let target = custom_views(custom_names@, custom_places@).take(c + 1).map_values(
                    |x: (Seq<char>, nat)| custom_debug(x),
                );
                assert forall|j: int| 0 <= j < c + 1 implies views(items@)[j] == target[j] by {
                    if j < c {
                        assert(views(before)[j] == custom_views(custom_names@, custom_places@).take(
                            c as int,
                        ).map_values(|x: (Seq<char>, nat)| custom_debug(x))[j]);
                    } else {
                        assert(item@ =~= custom_debug(
                            custom_views(custom_names@, custom_places@)[c as int],
                        ));
                    }
                }
                assert(views(items@) =~= target);
            }
            c = c + 1;
        }
        proof {
            assert(custom_views(custom_names@, custom_places@).take(custom_names@.len() as int)
                =~= custom_views(custom_names@, custom_places@));
        }
        let mut msg: Vec<char> = Vec::new();
        push_str(&mut msg, "The font has custom axes with the indicated order:\n\n");
        msg.push('[');
        let inner = join_chars(&items, ", ");
        push_chars(&mut msg, &inner);
        msg.push(']');
        push_str(&mut msg, "\n\nIts order can depend on the kind of variation and the subfamily");
        proof {
            assert(msg@ =~= custom_message(custom_axes(nv)));
        }
        let ghost before = problems@;
        problems.push(Status::new(StatusCode::Info, "custom-axes", string_of(&msg)));
        proof {
            assert(statuses_view(problems@) =~= statuses_view(before).push(
                status_view(StatusCode::Info, "custom-axes"@, custom_message(custom_axes(nv))),
            ));
        }
    }
    proof {
        let registered_s = registered_axes(nv);
        let expected_s = keep_present(preferred_order(), registered_s);
        assert(same == (expected_s == registered_s));
        assert(statuses_view(problems@) =~= (if expected_s != registered_s {
            seq![
                status_view(
                    StatusCode::Warn,
                    "axes-incorrect-order"@,
                    order_message(registered_s, expected_s),
                ),
            ]
        } else {
            Seq::empty()
        }) + (if custom_axes(nv).len() > 0 {
            seq![status_view(StatusCode::Info, "custom-axes"@, custom_message(custom_axes(nv)))]
        } else {
            Seq::empty()
        }));
    }
    return_result(problems)
}

/// What the check reports for a font: an error where its fvar axes cannot
/// be read; a skip where it has a STAT table; else the verdict on the names
/// of its axis tags.
pub open spec fn fvar_axes_order_outcome(font: Seq<u8>) -> Option<Seq<StatusView>> {
    match fvar_axis_tags(font) {
        None => None,
        Some(tags) => if stat_readable(font) {
            Some(seq![has_stat_view()])
        } else {
            Some(axes_order_outcome(tag_names(tags)))
        },
    }
}

/// The check `typenetwork/varfont/fvar_axes_order` on a font binary. It
/// fails to run where the fvar table's axes cannot be read.
pub fn fvar_axes_order(font: &[u8]) -> (r: Result<Vec<Status>, CheckError>)
    ensures
        r is Err <==> fvar_axes_order_outcome(font@) is None,
        r matches Ok(v) ==> Some(statuses_view(v@)) == fvar_axes_order_outcome(font@),
{
    let tags = match read_fvar_axis_tags(font) {
        Ok(t) => t,
        Err(e) => {
            return Err(CheckError::FontRead(e));
        },
    };
    if read_stat_readable(font) {
        let mut msg: Vec<char> = Vec::new();
        push_str(&mut msg, "The font has a STAT table. This will control instances order.");
        return Ok(just_one(StatusCode::Skip, "has-stat", string_of(&msg)));
    }
    let mut names: Vec<Vec<char>> = Vec::new();
    let mut i: usize = 0;
    while i < tags.len()
        invariant
            i <= tags.len(),
            views(names@) == tag_names(tags@).take(i as int),
        decreases tags.len() - i,
    {
        let mut n: Vec<char> = Vec::new();
        push_tag(&mut n, tags[i]);
        let ghost before = names@;
        names.push(n);
        proof {
            assert(views(names@) =~= views(before).push(n@));
            assert(views(names@) =~= tag_names(tags@).take(i + 1));
        }
        i = i + 1;
    }
    proof {
        assert(tag_names(tags@).take(tags@.len() as int) =~= tag_names(tags@));
    }
    Ok(axes_order_verdict(&names))
}

} // verus!
