//! Readings and text forms that several checks share.
use vstd::prelude::*;

use crate::fontdata::{
    english_or_first_name, glyph_name_entry, maxp_num_glyphs, read_english_or_first, read_glyph_name,
    read_maxp_num_glyphs,
};
use crate::status::opt_string_view;
use crate::text::{decimal, digit_char, join, join_chars, push_chars, push_decimal, push_str, views};

verus! {

/// Name ID 2, the font subfamily name.
pub const SUBFAMILY_NAME: u16 = 2;

/// Name ID 17, the typographic subfamily name.
pub const TYPOGRAPHIC_SUBFAMILY_NAME: u16 = 17;

/// Name ID 22, the WWS subfamily name.
pub const WWS_SUBFAMILY_NAME: u16 = 22;

/// The preferred string of the first of `ids` that has one, as
/// fontspector's `TestFont::get_best_name` picks it.
pub open spec fn best_name(font: Seq<u8>, ids: Seq<u16>) -> Option<Seq<char>>
    decreases ids.len(),
{
    if ids.len() == 0 {
        None
    } else {
        match english_or_first_name(font, ids[0]) {
            Some(n) => Some(n),
            None => best_name(font, ids.drop_first()),
        }
    }
}

/// The font's best subfamily name, as fontspector's
/// `TestFont::best_subfamilyname` picks it: from name ID 22, else 17, else 2.
pub open spec fn best_subfamily(font: Seq<u8>) -> Option<Seq<char>> {
    best_name(font, seq![WWS_SUBFAMILY_NAME, TYPOGRAPHIC_SUBFAMILY_NAME, SUBFAMILY_NAME])
}

/// The font's best subfamily name.
pub fn best_subfamily_name(font: &[u8]) -> (r: Option<String>)
    ensures
        opt_string_view(r) == best_subfamily(font@),
{
    proof {
        let ids = seq![WWS_SUBFAMILY_NAME, TYPOGRAPHIC_SUBFAMILY_NAME, SUBFAMILY_NAME];
        assert(ids.drop_first() =~= seq![TYPOGRAPHIC_SUBFAMILY_NAME, SUBFAMILY_NAME]);
        assert(ids.drop_first().drop_first() =~= seq![SUBFAMILY_NAME]);
        assert(ids.drop_first().drop_first().drop_first() =~= Seq::<u16>::empty());
        reveal_with_fuel(best_name, 4);
    }
    let a = read_english_or_first(font, WWS_SUBFAMILY_NAME);
    if a.is_some() {
        return a;
    }
    let b = read_english_or_first(font, TYPOGRAPHIC_SUBFAMILY_NAME);
    if b.is_some() {
        return b;
    }
    read_english_or_first(font, SUBFAMILY_NAME)
}

/// The best subfamily name is the preferred string of the WWS subfamily
/// name (ID 22) where the font has one, else of the typographic subfamily
/// name (ID 17), else of the subfamily name (ID 2); nothing where it has
/// none of them.
pub proof fn law_best_subfamily(font: Seq<u8>)
    ensures
        english_or_first_name(font, 22u16) is Some ==> best_subfamily(font)
            == english_or_first_name(font, 22u16),
        english_or_first_name(font, 22u16) is None && english_or_first_name(font, 17u16) is Some
            ==> best_subfamily(font) == english_or_first_name(font, 17u16),
        english_or_first_name(font, 22u16) is None && english_or_first_name(font, 17u16) is None
            ==> best_subfamily(font) == english_or_first_name(font, 2u16),
{
    let ids = seq![WWS_SUBFAMILY_NAME, TYPOGRAPHIC_SUBFAMILY_NAME, SUBFAMILY_NAME];
    assert(ids.drop_first() =~= seq![TYPOGRAPHIC_SUBFAMILY_NAME, SUBFAMILY_NAME]);
    assert(ids.drop_first().drop_first() =~= seq![SUBFAMILY_NAME]);
    assert(ids.drop_first().drop_first().drop_first() =~= Seq::<u16>::empty());
    reveal_with_fuel(best_name, 4);
}

/// The number of glyphs that the checks read for a font: maxp's numGlyphs,
/// or zero where it cannot be read.
pub open spec fn glyph_count(font: Seq<u8>) -> u16 {
    match maxp_num_glyphs(font) {
        Some(n) => n,
        None => 0,
    }
}

/// The number of glyphs of a font.
pub fn read_glyph_count(font: &Vec<u8>) -> (n: u16)
    ensures
        n == glyph_count(font@),
{
    match read_maxp_num_glyphs(font.as_slice()) {
        Ok(n) => n,
        Err(_) => 0,
    }
}

/// The name that the font itself gives a glyph, leaving out synthesized
/// ones, as fontspector's `TestFont::glyph_name_for_id` answers.
pub open spec fn font_glyph_name(font: Seq<u8>, gid: u32) -> Option<Seq<char>> {
    match glyph_name_entry(font, gid) {
        Some((n, synthesized)) => if synthesized {
            None
        } else {
            Some(n)
        },
        None => None,
    }
}

/// The name that the font itself gives a glyph.
pub fn glyph_name_for_id(font: &[u8], gid: u32) -> (r: Option<String>)
    ensures
        opt_string_view(r) == font_glyph_name(font@, gid),
{
    match read_glyph_name(font, gid) {
        Some(p) => {
            let (name, synthesized) = p;
            if synthesized {
                None
            } else {
                Some(name)
            }
        },
        None => None,
    }
}

/// One item of a bullet list.
pub open spec fn bullet(item: Seq<char>) -> Seq<char> {
    seq!['*', ' '] + item
}

/// The lines of a bullet list: the first nine items, then either the rest
/// (for full lists) or a line that counts them.
pub open spec fn bullet_lines(items: Seq<Seq<char>>, full_lists: bool) -> Seq<Seq<char>> {
    let shown = if full_lists || items.len() <= 9 {
        items
    } else {
        items.take(9)
    };
    let lines = shown.map_values(|i: Seq<char>| bullet(i));
    if !full_lists && items.len() > 9 {
        lines.push("... and "@ + decimal((items.len() - 9) as nat) + " others"@)
    } else {
        lines
    }
}

/// A Markdown bullet list of `items`, as fontspector's `bullet_list` writes
/// it; `full_lists` is the context's wish for complete lists.
pub open spec fn bullet_list_text(items: Seq<Seq<char>>, full_lists: bool) -> Seq<char> {
    join(bullet_lines(items, full_lists), seq!['\n'])
}

/// A Markdown bullet list of `items`.
pub fn bullet_list(full_lists: bool, items: &Vec<Vec<char>>) -> (r: Vec<char>)
    ensures
        r@ == bullet_list_text(views(items@), full_lists),
{
    let n: usize = if full_lists || items.len() <= 9 {
        items.len()
    } else {
        9
    };
    let mut lines: Vec<Vec<char>> = Vec::new();
    let mut i: usize = 0;
    while i < n
        invariant
            n <= items.len(),
            i <= n,
            views(lines@) == views(items@).take(i as int).map_values(|x: Seq<char>| bullet(x)),
        decreases n - i,
    {
        let mut line: Vec<char> = Vec::new();
        line.push('*');
        line.push(' ');
        push_chars(&mut line, &items[i]);
        proof {
            assert(line@ =~= bullet(views(items@)[i as int]));
        }
        let ghost before = lines@;
        lines.push(line);
        proof {
            assert(views(lines@) =~= views(before).push(line@));
            let target = views(items@).take(i + 1).map_values(|x: Seq<char>| bullet(x));
            assert forall|k: int| 0 <= k < i + 1 implies views(lines@)[k] == target[k] by {
                if k < i {
                    assert(views(before)[k] == views(items@).take(i as int).map_values(
                        |x: Seq<char>| bullet(x),
                    )[k]);
                }
            }
            assert(views(lines@) =~= target);
        }
        i = i + 1;
    }
    if !full_lists && items.len() > 9 {
        let mut last: Vec<char> = Vec::new();
        push_str(&mut last, "... and ");
        push_decimal(&mut last, (items.len() - 9) as u64);
        push_str(&mut last, " others");
        lines.push(last);
    }
    proof {
        if full_lists || items.len() <= 9 {
            assert(views(items@).take(n as int) =~= views(items@));
        }
        assert(views(lines@) =~= bullet_lines(views(items@), full_lists));
    }
    let r = join_chars(&lines, "\n");
    proof {
        reveal_strlit("\n");
        assert("\n"@ =~= seq!['\n']);
    }
    r
}

/// Whether the bits of an `f32` hold a NaN.
pub open spec fn f32_bits_nan(b: u32) -> bool {
    b & 0x7f80_0000 == 0x7f80_0000 && b & 0x007f_ffff != 0
}

/// Whether two `f32`s, given by their bits, compare equal under IEEE 754:
/// neither is a NaN, and they are the same number or both zeros.
pub open spec fn f32_bits_eq(a: u32, b: u32) -> bool {
    !f32_bits_nan(a) && !f32_bits_nan(b) && (a == b || (a & 0x7fff_ffff == 0 && b & 0x7fff_ffff
        == 0))
}

/// IEEE 754 equality of two `f32`s given by their bits: a NaN (exponent
/// all ones, fraction not zero) equals nothing; otherwise two values are
/// equal exactly where their bits are, but that +0 and -0 are equal. In
/// particular a non-zero value never equals its negation.
pub proof fn law_f32_equality(a: u32, b: u32)
    ensures
        f32_bits_eq(a, b) <==> (!(a & 0x7f80_0000 == 0x7f80_0000 && a & 0x007f_ffff != 0) && !(b
            & 0x7f80_0000 == 0x7f80_0000 && b & 0x007f_ffff != 0) && (a == b || ((a == 0 || a
            == 0x8000_0000) && (b == 0 || b == 0x8000_0000)))),
        a ^ b == 0x8000_0000 && a & 0x7fff_ffff != 0 ==> !f32_bits_eq(a, b),
{
    assert(a & 0x7fff_ffff == 0 <==> (a == 0 || a == 0x8000_0000)) by (bit_vector);
    assert(b & 0x7fff_ffff == 0 <==> (b == 0 || b == 0x8000_0000)) by (bit_vector);
    assert(a ^ b == 0x8000_0000 && a & 0x7fff_ffff != 0 ==> a != b && b & 0x7fff_ffff != 0)
        by (bit_vector);
}

/// Whether two `f32`s, given by their bits, compare equal.
pub fn f32_eq(a: u32, b: u32) -> (r: bool)
    ensures
        r == f32_bits_eq(a, b),
{
    let a_nan = a & 0x7f80_0000 == 0x7f80_0000 && a & 0x007f_ffff != 0;
    let b_nan = b & 0x7f80_0000 == 0x7f80_0000 && b & 0x007f_ffff != 0;
    !a_nan && !b_nan && (a == b || (a & 0x7fff_ffff == 0 && b & 0x7fff_ffff == 0))
}

/// An uppercase hexadecimal digit.
pub open spec fn hex_digit(d: nat) -> char {
    if d < 10 {
        digit_char(d)
    } else if d == 10 {
        'A'
    } else if d == 11 {
        'B'
    } else if d == 12 {
        'C'
    } else if d == 13 {
        'D'
    } else if d == 14 {
        'E'
    } else {
        'F'
    }
}

/// How `Display` writes one byte of a tag: itself where it is printable
/// ASCII, else as two uppercase hexadecimal digits in `{0x..}`.
pub open spec fn tag_byte_text(b: nat) -> Seq<char> {
    if 0x20 <= b <= 0x7e {
        seq![b as char]
    } else {
        "{0x"@ + seq![hex_digit(b / 16), hex_digit(b % 16)] + "}"@
    }
}

/// How `Display` writes a tag, given as big-endian bytes.
pub open spec fn tag_text(t: u32) -> Seq<char> {
    tag_byte_text((t / 0x100_0000) as nat) + tag_byte_text(((t / 0x1_0000) % 0x100) as nat)
        + tag_byte_text(((t / 0x100) % 0x100) as nat) + tag_byte_text((t % 0x100) as nat)
}

fn hex(d: u32) -> (c: char)
    requires
        d < 16,
    ensures
        c == hex_digit(d as nat),
{
    if d == 0 {
        '0'
    } else if d == 1 {
        '1'
    } else if d == 2 {
        '2'
    } else if d == 3 {
        '3'
    } else if d == 4 {
        '4'
    } else if d == 5 {
        '5'
    } else if d == 6 {
        '6'
    } else if d == 7 {
        '7'
    } else if d == 8 {
        '8'
    } else if d == 9 {
        '9'
    } else if d == 10 {
        'A'
    } else if d == 11 {
        'B'
    } else if d == 12 {
        'C'
    } else if d == 13 {
        'D'
    } else if d == 14 {
        'E'
    } else {
        'F'
    }
}

fn push_tag_byte(v: &mut Vec<char>, b: u32)
    requires
        b < 256,
    ensures
        final(v)@ == old(v)@ + tag_byte_text(b as nat),
{
    if 0x20 <= b && b <= 0x7e {
        let byte: u8 = b as u8;
        v.push(byte as char);
    } else {
        push_str(v, "{0x");
        v.push(hex(b / 16));
        v.push(hex(b % 16));
        push_str(v, "}");
    }
    proof {
        assert(final(v)@ =~= old(v)@ + tag_byte_text(b as nat));
    }
}

/// Appends the `Display` form of a tag to `v`.
pub fn push_tag(v: &mut Vec<char>, t: u32)
    ensures
        final(v)@ == old(v)@ + tag_text(t),
{
    push_tag_byte(v, t / 0x100_0000);
    push_tag_byte(v, (t / 0x1_0000) % 0x100);
    push_tag_byte(v, (t / 0x100) % 0x100);
    push_tag_byte(v, t % 0x100);
    proof {
        assert(final(v)@ =~= old(v)@ + tag_text(t));
    }
}

} // verus!
