//! `typenetwork/family/equal_numbers_of_glyphs`: the roman fonts of a family
//! have the same number of glyphs, and so do its italic fonts.
use vstd::prelude::*;

use crate::checks::common::{best_subfamily, best_subfamily_name, glyph_count, read_glyph_count};
use crate::checks::family::duplicated_names::font_views;
use crate::fontdata::string_views;
use crate::status::{
    law_result_well_formed, no_pass, pass_view, well_formed_report, result_view, return_result, status_view, statuses_view, Status, StatusCode, StatusView,
};
use crate::text::{
    chars_of, contains_seq, contains_str, decimal, eq_chars, join, join_chars, lowercase,
    push_chars, push_decimal, push_str, string_of, to_lowercase, views,
};

verus! {

/// Whether the check counts a font as italic: its best subfamily name
/// (else empty), lowercase, contains "italic" or "oblique".
pub open spec fn counts_as_italic(font: Seq<u8>) -> bool {
    let style = lowercase(
        match best_subfamily(font) {
            Some(n) => n,
            None => Seq::<char>::empty(),
        },
    );
    contains_seq(style, "italic"@) || contains_seq(style, "oblique"@)
}

/// A table from file names to glyph counts, in the order in which the names
/// first came.
pub type CountTable = Seq<(Seq<char>, u16)>;

/// Where a name stands in the table, if it does.
pub open spec fn key_index(m: CountTable, k: Seq<char>) -> Option<int>
    decreases m.len(),
{
    if m.len() == 0 {
        None
    } else if m.last().0 == k {
        Some(m.len() - 1)
    } else {
        key_index(m.drop_last(), k)
    }
}

/// The table with the name given the count: in its place where it stands
/// already, else at the end.
pub open spec fn table_insert(m: CountTable, k: Seq<char>, v: u16) -> CountTable {
    match key_index(m, k) {
        Some(j) => m.update(j, (k, v)),
        None => m.push((k, v)),
    }
}

/// The roman and italic tables for fonts paired one to one with names.
pub open spec fn paired_tables(fonts: Seq<Seq<u8>>, names: Seq<Seq<char>>) -> (CountTable, CountTable)
    decreases fonts.len(),
{
    if fonts.len() == 0 || names.len() == 0 {
        (Seq::empty(), Seq::empty())
    } else {
        let prev = paired_tables(fonts.drop_last(), names.drop_last());
        let f = fonts.last();
        if counts_as_italic(f) {
            (prev.0, table_insert(prev.1, names.last(), glyph_count(f)))
        } else {
            (table_insert(prev.0, names.last(), glyph_count(f)), prev.1)
        }
    }
}

/// The roman and italic tables that the check builds: the `i`-th font is
/// paired with the `i`-th file name of the collection, as far as both go.
pub open spec fn count_tables(fonts: Seq<Seq<u8>>, names: Seq<Seq<char>>) -> (CountTable, CountTable) {
    let n = if fonts.len() < names.len() {
        fonts.len()
    } else {
        names.len()
    };
    paired_tables(fonts.take(n as int), names.take(n as int))
}

/// The largest count of a table, or zero.
pub open spec fn max_count(m: CountTable) -> u16
    decreases m.len(),
{
    if m.len() == 0 {
        0
    } else {
        let prev = max_count(m.drop_last());
        if m.last().1 > prev {
            m.last().1
        } else {
            prev
        }
    }
}

/// The lines for the entries whose count differs from `expected`.
pub open spec fn mismatch_lines(m: CountTable, expected: u16) -> Seq<Seq<char>>
    decreases m.len(),
{
    if m.len() == 0 {
        Seq::empty()
    } else {
        let prev = mismatch_lines(m.drop_last(), expected);
        if m.last().1 != expected {
            prev.push(seq![' ', ' '] + m.last().0 + ": "@ + decimal(m.last().1 as nat) + " glyphs"@)
        } else {
            prev
        }
    }
}

/// The warning for one table, where its counts differ.
pub open spec fn table_problems(m: CountTable, code: Seq<char>, lead: Seq<char>) -> Seq<StatusView> {
    let lines = mismatch_lines(m, max_count(m));
    if m.len() == 0 || lines.len() == 0 {
        Seq::empty()
    } else {
        seq![
            status_view(
                StatusCode::Warn,
                code,
                lead + decimal(max_count(m) as nat) + ":\n"@ + join(lines, seq!['\n']),
            ),
        ]
    }
}

/// What the check reports for the two tables: a warning that lists the
/// romans whose count is not the largest one, then one for the italics; a
/// pass where there is neither.
pub open spec fn glyph_count_outcome(roman: CountTable, italic: CountTable) -> Seq<StatusView> {
    result_view(
        table_problems(
            roman,
            "roman-different-number-of-glyphs"@,
            "Romans don't have the same number of glyphs. Expected "@,
        ) + table_problems(
            italic,
            "italic-different-number-of-glyphs"@,
            "Italics don't have the same number of glyphs. Expected "@,
        ),
    )
}

/// The largest count is at least each count, and is one of them.
pub proof fn lemma_max_count(m: CountTable)
    ensures
        forall|k: int| 0 <= k < m.len() ==> (#[trigger] m[k]).1 <= max_count(m),
        m.len() > 0 ==> exists|k: int| 0 <= k < m.len() && (#[trigger] m[k]).1 == max_count(m),
    decreases m.len(),
{
    if m.len() > 0 {
        let p = m.drop_last();
        lemma_max_count(p);
        assert forall|k: int| 0 <= k < m.len() implies (#[trigger] m[k]).1 <= max_count(m) by {
            if k < p.len() {
                assert(m[k] == p[k]);
            }
        }
        if m.last().1 <= max_count(p) && p.len() > 0 {
            let k = choose|k: int| 0 <= k < p.len() && (#[trigger] p[k]).1 == max_count(p);
            assert(m[k] == p[k]);
        } else {
            assert(m[m.len() - 1].1 == max_count(m));
        }
    }
}

/// There is no mismatch line exactly where every count is the expected one.
pub proof fn lemma_mismatch_lines(m: CountTable, expected: u16)
    ensures
        mismatch_lines(m, expected).len() == 0 <==> forall|k: int|
            0 <= k < m.len() ==> (#[trigger] m[k]).1 == expected,
    decreases m.len(),
{
    if m.len() > 0 {
        let p = m.drop_last();
        lemma_mismatch_lines(p, expected);
        assert forall|k: int| 0 <= k < p.len() implies #[trigger] p[k] == m[k] by {}
        if mismatch_lines(p, expected).len() != 0 {
            let k = choose|k: int| 0 <= k < p.len() && (#[trigger] p[k]).1 != expected;
            assert(m[k].1 != expected);
        }
        if m.last().1 != expected {
            assert(m[m.len() - 1].1 != expected);
        }
        if forall|k: int| 0 <= k < m.len() ==> (#[trigger] m[k]).1 == expected {
            assert forall|k: int| 0 <= k < p.len() implies (#[trigger] p[k]).1 == expected by {
                assert(p[k] == m[k]);
            }
            assert(m[m.len() - 1].1 == expected);
        }
        if mismatch_lines(m, expected).len() == 0 {
            assert(m.last().1 == expected);
            assert(mismatch_lines(p, expected).len() == 0);
            assert forall|k: int| 0 <= k < m.len() implies (#[trigger] m[k]).1 == expected by {
                if k < p.len() {
                    assert(p[k] == m[k]);
                    assert(p[k].1 == expected);
                }
            }
        }
    }
}

/// Whether all counts of a table are equal.
pub open spec fn uniform(m: CountTable) -> bool {
    forall|i: int, j: int| 0 <= i < m.len() && 0 <= j < m.len() ==> (#[trigger] m[i]).1 == (
    #[trigger] m[j]).1
}

/// A table gives no warning exactly where all its counts are equal.
pub proof fn lemma_table_problems(m: CountTable, code: Seq<char>, lead: Seq<char>)
    ensures
        no_pass(table_problems(m, code, lead)),
        table_problems(m, code, lead).len() == 0 <==> uniform(m),
{
    lemma_max_count(m);
    lemma_mismatch_lines(m, max_count(m));
    if m.len() > 0 {
        if uniform(m) {
            let k = choose|k: int| 0 <= k < m.len() && (#[trigger] m[k]).1 == max_count(m);
            assert forall|i: int| 0 <= i < m.len() implies (#[trigger] m[i]).1 == max_count(m) by {
                assert(m[i].1 == m[k].1);
            }
        }
        if table_problems(m, code, lead).len() == 0 {
            assert forall|i: int, j: int| 0 <= i < m.len() && 0 <= j < m.len() implies (
            #[trigger] m[i]).1 == (#[trigger] m[j]).1 by {
                assert(m[i].1 == max_count(m));
                assert(m[j].1 == max_count(m));
            }
        }
    }
}

/// The check's report is well formed, and it is a single pass exactly
/// where all roman fonts have the same number of glyphs and so have all
/// italic fonts.
pub proof fn law_equal_numbers_pass(roman: CountTable, italic: CountTable)
    ensures
        well_formed_report(glyph_count_outcome(roman, italic)),
        glyph_count_outcome(roman, italic) == seq![pass_view()] <==> uniform(roman) && uniform(
            italic,
        ),
{
    let a = table_problems(
        roman,
        "roman-different-number-of-glyphs"@,
        "Romans don't have the same number of glyphs. Expected "@,
    );
    let b = table_problems(
        italic,
        "italic-different-number-of-glyphs"@,
        "Italics don't have the same number of glyphs. Expected "@,
    );
    lemma_table_problems(
        roman,
        "roman-different-number-of-glyphs"@,
        "Romans don't have the same number of glyphs. Expected "@,
    );
    lemma_table_problems(
        italic,
        "italic-different-number-of-glyphs"@,
        "Italics don't have the same number of glyphs. Expected "@,
    );
    crate::status::lemma_no_pass_concat(a, b);
    law_result_well_formed(a + b);
    if (a + b).len() != 0 {
        if result_view(a + b) == seq![pass_view()] {
            assert((a + b)[0].severity == StatusCode::Pass);
        }
    }
}

/// A table of counts, held as two vectors.
pub struct Counts {
    pub names: Vec<Vec<char>>,
    pub counts: Vec<u16>,
}

/// The table that the vectors hold.
pub open spec fn counts_table(c: &Counts) -> CountTable {
    Seq::new(c.counts@.len(), |i: int| (c.names@[i]@, c.counts@[i]))
}

/// Gives a name a count in the table.
fn insert_count(c: &mut Counts, name: Vec<char>, count: u16)
    requires
        old(c).names@.len() == old(c).counts@.len(),
    ensures
        final(c).names@.len() == final(c).counts@.len(),
        counts_table(final(c)) == table_insert(counts_table(old(c)), name@, count),
{
    let ghost m = counts_table(c);
    let mut j: usize = c.names.len();
    proof {
        assert(m.take(m.len() as int) =~= m);
    }
    while j > 0
        invariant
            c.names@.len() == c.counts@.len(),
            m == counts_table(c),
            m == counts_table(old(c)),
            j <= c.names.len(),
            key_index(m, name@) == key_index(m.take(j as int), name@),
        decreases j,
    {
        proof {
            assert(m.take(j as int).drop_last() =~= m.take(j - 1));
            assert(m.take(j as int).last() == m[j - 1]);
        }
        if eq_chars(&c.names[j - 1], &name) {
            proof {
                assert(key_index(m, name@) == Some((j - 1) as int));
            }
            c.counts.set(j - 1, count);
            proof {
                assert(counts_table(c) =~= m.update(j - 1, (name@, count)));
            }
            return ;
        }
        j = j - 1;
    }
    proof {
        assert(key_index(m, name@) is None);
    }
    c.names.push(name);
    c.counts.push(count);
    proof {
        assert(counts_table(c) =~= m.push((name@, count)));
    }
}

/// The warning for one table, where its counts differ.
fn push_table_problem(out: &mut Vec<Status>, c: &Counts, code: &str, lead: &str)
    requires
        c.names@.len() == c.counts@.len(),
    ensures
        statuses_view(final(out)@) == statuses_view(old(out)@) + table_problems(
            counts_table(c),
            code@,
            lead@,
        ),
{
    let ghost m = counts_table(c);
    let n = c.counts.len();
    let mut max: u16 = 0;
    let mut i: usize = 0;
    while i < n
        invariant
            n == c.counts@.len(),
            m == counts_table(c),
            i <= n,
            max == max_count(m.take(i as int)),
        decreases n - i,
    {
        proof {
            assert(m.take(i + 1).drop_last() =~= m.take(i as int));
        }
        if c.counts[i] > max {
            max = c.counts[i];
        }
        i = i + 1;
    }
    proof {
        assert(m.take(n as int) =~= m);
    }
    let mut lines: Vec<Vec<char>> = Vec::new();
    let mut k: usize = 0;
    while k < n
        invariant
            n == c.counts@.len(),
            c.names@.len() == n,
            m == counts_table(c),
            k <= n,
            max == max_count(m),
            views(lines@) == mismatch_lines(m.take(k as int), max),
        decreases n - k,
    {
        proof {
            assert(m.take(k + 1).drop_last() =~= m.take(k as int));
            assert(m.take(k + 1).last() == m[k as int]);
        }
        if c.counts[k] != max {
            let mut line: Vec<char> = Vec::new();
            line.push(' ');
            line.push(' ');
            push_chars(&mut line, &c.names[k]);
            push_str(&mut line, ": ");
            push_decimal(&mut line, c.counts[k] as u64);
            push_str(&mut line, " glyphs");
            let ghost before = lines@;
            lines.push(line);
            proof {
                assert(views(lines@) =~= views(before).push(line@));
                assert(line@ =~= seq![' ', ' '] + m[k as int].0 + ": "@ + decimal(
                    m[k as int].1 as nat,
                ) + " glyphs"@);
            }
        }
        k = k + 1;
    }
    proof {
        assert(m.take(n as int) =~= m);
    }
    if n == 0 || lines.len() == 0 {
        proof {
            assert(statuses_view(final(out)@) =~= statuses_view(old(out)@) + table_problems(
                m,
                code@,
                lead@,
            ));
        }
        return ;
    }
    let mut msg: Vec<char> = Vec::new();
    push_str(&mut msg, lead);
    push_decimal(&mut msg, max as u64);
    push_str(&mut msg, ":\n");
    let body = join_chars(&lines, "\n");
    push_chars(&mut msg, &body);
    proof {
        reveal_strlit("\n");
        assert("\n"@ =~= seq!['\n']);
        assert(msg@ =~= lead@ + decimal(max as nat) + ":\n"@ + join(views(lines@), seq!['\n']));
    }
    let ghost before = out@;
    out.push(Status::new(StatusCode::Warn, code, string_of(&msg)));
    proof {
        assert(statuses_view(out@) =~= statuses_view(before) + table_problems(m, code@, lead@));
    }
}

/// What the check reports for the roman and italic tables.
pub fn glyph_count_verdict(roman: &Counts, italic: &Counts) -> (r: Vec<Status>)
    requires
        roman.names@.len() == roman.counts@.len(),
        italic.names@.len() == italic.counts@.len(),
    ensures
        statuses_view(r@) == glyph_count_outcome(counts_table(roman), counts_table(italic)),
{
    let mut problems: Vec<Status> = Vec::new();
    push_table_problem(
        &mut problems,
        roman,
        "roman-different-number-of-glyphs",
        "Romans don't have the same number of glyphs. Expected ",
    );
    push_table_problem(
        &mut problems,
        italic,
        "italic-different-number-of-glyphs",
        "Italics don't have the same number of glyphs. Expected ",
    );
    proof {
        assert(statuses_view(problems@) =~= table_problems(
            counts_table(roman),
            "roman-different-number-of-glyphs"@,
            "Romans don't have the same number of glyphs. Expected "@,
        ) + table_problems(
            counts_table(italic),
            "italic-different-number-of-glyphs"@,
            "Italics don't have the same number of glyphs. Expected "@,
        ));
    }
    return_result(problems)
}

/// Whether the check counts a font as italic.
fn is_italic_font(font: &Vec<u8>) -> (b: bool)
    ensures
        b == counts_as_italic(font@),
{
    let style = match best_subfamily_name(font.as_slice()) {
        Some(n) => to_lowercase(n.as_str()),
        None => to_lowercase(""),
    };
    proof {
        reveal_strlit("");
        assert(""@ =~= Seq::<char>::empty());
    }
    let chars = chars_of(style.as_str());
    contains_str(&chars, "italic") || contains_str(&chars, "oblique")
}

/// The check `typenetwork/family/equal_numbers_of_glyphs` on the fonts of a
/// family, with the file names of the files of the collection (the `i`-th
/// font is reported under the `i`-th name).
pub fn equal_numbers_of_glyphs(fonts: &Vec<Vec<u8>>, filenames: &Vec<String>) -> (r: Vec<Status>)
    ensures
        statuses_view(r@) == glyph_count_outcome(
            count_tables(font_views(fonts@), string_views(filenames@)).0,
            count_tables(font_views(fonts@), string_views(filenames@)).1,
        ),
{
    let ghost fv = font_views(fonts@);
    let ghost nv = string_views(filenames@);
    let n: usize = if fonts.len() < filenames.len() {
        fonts.len()
    } else {
        filenames.len()
    };
    let mut roman = Counts { names: Vec::new(), counts: Vec::new() };
    let mut italic = Counts { names: Vec::new(), counts: Vec::new() };
    let mut i: usize = 0;
    proof {
        assert(paired_tables(fv.take(0), nv.take(0)) == (CountTable::empty(), CountTable::empty()));
        assert(counts_table(&roman) =~= CountTable::empty());
        assert(counts_table(&italic) =~= CountTable::empty());
    }
    while i < n
        invariant
            n <= fonts.len(),
            n <= filenames.len(),
            fv == font_views(fonts@),
            nv == string_views(filenames@),
            i <= n,
            roman.names@.len() == roman.counts@.len(),
            italic.names@.len() == italic.counts@.len(),
            (counts_table(&roman), counts_table(&italic)) == paired_tables(
                fv.take(i as int),
                nv.take(i as int),
            ),
        decreases n - i,
    {
        proof {
            assert(fv.take(i + 1).drop_last() =~= fv.take(i as int));
            assert(nv.take(i + 1).drop_last() =~= nv.take(i as int));
            assert(fv.take(i + 1).last() == fonts@[i as int]@);
            assert(nv.take(i + 1).last() == filenames@[i as int]@);
        }
        let name = chars_of(filenames[i].as_str());
        let count = read_glyph_count(&fonts[i]);
        if is_italic_font(&fonts[i]) {
            insert_count(&mut italic, name, count);
        } else {
            insert_count(&mut roman, name, count);
        }
        i = i + 1;
    }

    glyph_count_verdict(&roman, &italic)
}

} // verus!
