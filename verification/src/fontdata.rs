//! What the checks read out of a font binary, through `fontations`.
//!
//! Each reading is a function of the font's bytes alone; each is given a
//! name below, and the functions that read it state that their result is
//! that name applied to the bytes. Reading the OpenType tables is left to
//! `fontations`; nothing here restates its parsing.
use vstd::prelude::*;

use crate::text::decimal;

use fontations::read::types::{GlyphId, NameId, Tag};
use fontations::read::{FontRef, ReadError, TableProvider};
use fontations::skrifa::{GlyphNames, MetadataProvider};

verus! {

/// The error `fontations` reports when a font or one of its tables cannot
/// be read.
#[verifier::external_type_specification]
#[verifier::external_body]
pub struct ExReadError(ReadError);

/// `usWeightClass` of the font's OS/2 table; `None` where the font or the
/// table cannot be read.
pub uninterp spec fn os2_weight_class(font: Seq<u8>) -> Option<u16>;

/// `yStrikeoutSize` of the font's OS/2 table; `None` where the font or the
/// table cannot be read.
pub uninterp spec fn os2_strikeout_size(font: Seq<u8>) -> Option<i16>;

/// `underlineThickness` of the font's post table; `None` where the font or
/// the table cannot be read.
pub uninterp spec fn post_underline_thickness(font: Seq<u8>) -> Option<i16>;

/// `numGlyphs` of the font's maxp table; `None` where the font or the table
/// cannot be read.
pub uninterp spec fn maxp_num_glyphs(font: Seq<u8>) -> Option<u16>;

/// The strings of the font's name table with the given name ID, in the
/// order of the table's records; empty where the font cannot be read.
pub uninterp spec fn name_strings(font: Seq<u8>, name_id: u16) -> Seq<Seq<char>>;

/// The English string with the given name ID ("en-US" first, then "en",
/// then a string without language), else the first one; `None` where there
/// is none or the font cannot be read.
pub uninterp spec fn english_or_first_name(font: Seq<u8>, name_id: u16) -> Option<Seq<char>>;

/// The name that skrifa's `GlyphNames` gives a glyph, with whether skrifa
/// synthesized it (where the font itself gives none); `None` where the glyph
/// has no name at all or the font cannot be read.
pub uninterp spec fn glyph_name_entry(font: Seq<u8>, gid: u32) -> Option<(Seq<char>, bool)>;

/// Whether the font's hmtx table can be read.
pub uninterp spec fn hmtx_readable(font: Seq<u8>) -> bool;

/// The advance width that the font's hmtx table gives a glyph; `None` where
/// it gives none or the table cannot be read.
pub uninterp spec fn hmtx_advance(font: Seq<u8>, gid: u32) -> Option<u16>;

/// Whether the font holds a table with the given tag (big-endian bytes).
pub uninterp spec fn has_table(font: Seq<u8>, tag: u32) -> bool;

/// Whether the font's STAT table can be read.
pub uninterp spec fn stat_readable(font: Seq<u8>) -> bool;

/// The tags (big-endian bytes) of the axis records of the font's fvar
/// table, in order; `None` where the font, the table or its axis array
/// cannot be read.
pub uninterp spec fn fvar_axis_tags(font: Seq<u8>) -> Option<Seq<u32>>;

/// The variation axes of the font, in order: for each, its tag (big-endian
/// bytes), the bit patterns of its minimum and maximum as `f32`, and the
/// text with which `Display` writes that minimum and maximum.
pub uninterp spec fn variation_axes(font: Seq<u8>) -> Seq<(u32, u32, u32, Seq<char>, Seq<char>)>;

/// `usWeightClass` of the OS/2 table, read by read-fonts
/// (`FontRef::new`, `TableProvider::os2`). The contract claims that the
/// result is the named reading of the bytes; the error is left unsaid.
#[verifier::external_body]
pub(crate) fn read_os2_weight_class(font: &[u8]) -> (r: Result<u16, ReadError>)
    ensures
        r is Ok <==> os2_weight_class(font@) is Some,
        r matches Ok(v) ==> os2_weight_class(font@) == Some(v),
{
    FontRef::new(font)?.os2().map(|t| t.us_weight_class())
}

/// `yStrikeoutSize` of the OS/2 table, read by read-fonts
/// (`FontRef::new`, `TableProvider::os2`). The contract claims that the
/// result is the named reading of the bytes; the error is left unsaid.
#[verifier::external_body]
pub(crate) fn read_os2_strikeout_size(font: &[u8]) -> (r: Result<i16, ReadError>)
    ensures
        r is Ok <==> os2_strikeout_size(font@) is Some,
        r matches Ok(v) ==> os2_strikeout_size(font@) == Some(v),
{
    FontRef::new(font)?.os2().map(|t| t.y_strikeout_size())
}

/// `underlineThickness` of the post table, read by read-fonts
/// (`FontRef::new`, `TableProvider::post`), as the `i16` that the `FWord`
/// holds. The contract claims that the result is the named reading of the
/// bytes; the error is left unsaid.
#[verifier::external_body]
pub(crate) fn read_post_underline_thickness(font: &[u8]) -> (r: Result<i16, ReadError>)
    ensures
        r is Ok <==> post_underline_thickness(font@) is Some,
        r matches Ok(v) ==> post_underline_thickness(font@) == Some(v),
{
    FontRef::new(font)?.post().map(|t| t.underline_thickness().to_i16())
}

/// `numGlyphs` of the maxp table, read by read-fonts (`FontRef::new`,
/// `TableProvider::maxp`). The contract claims that the result is the named
/// reading of the bytes; the error is left unsaid.
#[verifier::external_body]
pub(crate) fn read_maxp_num_glyphs(font: &[u8]) -> (r: Result<u16, ReadError>)
    ensures
        r is Ok <==> maxp_num_glyphs(font@) is Some,
        r matches Ok(v) ==> maxp_num_glyphs(font@) == Some(v),
{
    FontRef::new(font)?.maxp().map(|t| t.num_glyphs())
}

/// How font-types' `Debug` writes a name ID: the name of one of the IDs
/// that the OpenType specification defines, else `NameId` and the number.
pub open spec fn name_id_debug_text(id: u16) -> Seq<char> {
    if id == 0 { "COPYRIGHT_NOTICE"@ }
    else if id == 1 { "FAMILY_NAME"@ }
    else if id == 2 { "SUBFAMILY_NAME"@ }
    else if id == 3 { "UNIQUE_ID"@ }
    else if id == 4 { "FULL_NAME"@ }
    else if id == 5 { "VERSION_STRING"@ }
    else if id == 6 { "POSTSCRIPT_NAME"@ }
    else if id == 7 { "TRADEMARK"@ }
    else if id == 8 { "MANUFACTURER"@ }
    else if id == 9 { "DESIGNER"@ }
    else if id == 10 { "DESCRIPTION"@ }
    else if id == 11 { "VENDOR_URL"@ }
    else if id == 12 { "DESIGNER_URL"@ }
    else if id == 13 { "LICENSE_DESCRIPTION"@ }
    else if id == 14 { "LICENSE_URL"@ }
    else if id == 16 { "TYPOGRAPHIC_FAMILY_NAME"@ }
    else if id == 17 { "TYPOGRAPHIC_SUBFAMILY_NAME"@ }
    else if id == 18 { "COMPATIBLE_FULL_NAME"@ }
    else if id == 19 { "SAMPLE_TEXT"@ }
    else if id == 20 { "POSTSCRIPT_CID_NAME"@ }
    else if id == 21 { "WWS_FAMILY_NAME"@ }
    else if id == 22 { "WWS_SUBFAMILY_NAME"@ }
    else if id == 23 { "LIGHT_BACKGROUND_PALETTE"@ }
    else if id == 24 { "DARK_BACKGROUND_PALETTE"@ }
    else if id == 25 { "VARIATIONS_POSTSCRIPT_NAME_PREFIX"@ }
    else { "NameId "@ + decimal(id as nat) }
}

/// font-types' `Debug` form of a name ID. The contract restates that
/// implementation: a fixed name for each ID it lists, else `NameId` and the
/// decimal number.
#[verifier::external_body]
pub(crate) fn name_id_debug(id: u16) -> (r: String)
    ensures
        r@ == name_id_debug_text(id),
{
    format!("{:?}", NameId::new(id))
}

/// The views of a vector of strings.
pub open spec fn string_views(v: Seq<String>) -> Seq<Seq<char>> {
    v.map_values(|s: String| s@)
}

/// The strings with a name ID, from skrifa's `localized_strings`, each
/// written out with `to_string`. The contract claims that they are the named
/// reading of the bytes.
#[verifier::external_body]
pub(crate) fn read_name_strings(font: &[u8], name_id: u16) -> (r: Vec<String>)
    ensures
        string_views(r@) == name_strings(font@, name_id),
{
    match FontRef::new(font) {
        Ok(f) => f.localized_strings(NameId::new(name_id)).map(|s| s.to_string()).collect(),
        Err(_) => Vec::new(),
    }
}

/// The preferred string with a name ID, from skrifa's
/// `LocalizedStrings::english_or_first`, with its characters collected. The
/// contract claims that it is the named reading of the bytes.
#[verifier::external_body]
pub(crate) fn read_english_or_first(font: &[u8], name_id: u16) -> (r: Option<String>)
    ensures
        r matches Some(s) ==> english_or_first_name(font@, name_id) == Some(s@),
        r is None <==> english_or_first_name(font@, name_id) is None,
{
    match FontRef::new(font) {
        Ok(f) => f.localized_strings(NameId::new(name_id)).english_or_first().map(|s| s.chars().collect()),
        Err(_) => None,
    }
}

/// A glyph's name from skrifa's `GlyphNames::get`, with
/// `GlyphName::is_synthesized`. The contract claims that they are the named
/// reading of the bytes.
#[verifier::external_body]
pub(crate) fn read_glyph_name(font: &[u8], gid: u32) -> (r: Option<(String, bool)>)
    ensures
        r matches Some(p) ==> glyph_name_entry(font@, gid) == Some((p.0@, p.1)),
        r is None <==> glyph_name_entry(font@, gid) is None,
{
    let f = FontRef::new(font).ok()?;
    let name = GlyphNames::new(&f).get(GlyphId::new(gid))?;
    Some((name.as_str().to_string(), name.is_synthesized()))
}

/// Whether read-fonts can read the hmtx table (`TableProvider::hmtx`). The
/// contract claims that the answer is the named reading of the bytes; the
/// error is left unsaid.
#[verifier::external_body]
pub(crate) fn read_hmtx(font: &[u8]) -> (r: Result<(), ReadError>)
    ensures
        r is Ok <==> hmtx_readable(font@),
{
    FontRef::new(font)?.hmtx().map(|_| ())
}

/// A glyph's advance width from read-fonts' `Hmtx::advance`. The contract
/// claims that it is the named reading of the bytes.
#[verifier::external_body]
pub(crate) fn read_hmtx_advance(font: &[u8], gid: u32) -> (r: Option<u16>)
    ensures
        r == hmtx_advance(font@, gid),
{
    FontRef::new(font).ok()?.hmtx().ok()?.advance(GlyphId::new(gid))
}

/// Whether read-fonts finds a table with the tag (`FontRef::table_data`).
/// The contract claims that the answer is the named reading of the bytes.
#[verifier::external_body]
pub(crate) fn read_has_table(font: &[u8], tag: u32) -> (r: bool)
    ensures
        r == has_table(font@, tag),
{
    match FontRef::new(font) {
        Ok(f) => f.table_data(Tag::new(&tag.to_be_bytes())).is_some(),
        Err(_) => false,
    }
}

/// Whether read-fonts can read the STAT table (`TableProvider::stat`). The
/// contract claims that the answer is the named reading of the bytes.
#[verifier::external_body]
pub(crate) fn read_stat_readable(font: &[u8]) -> (r: bool)
    ensures
        r == stat_readable(font@),
{
    match FontRef::new(font) {
        Ok(f) => f.stat().is_ok(),
        Err(_) => false,
    }
}

/// The tags of the fvar table's axis records (`TableProvider::fvar`,
/// `Fvar::axes`). The contract claims that they are the named reading of
/// the bytes; the error is left unsaid.
#[verifier::external_body]
pub(crate) fn read_fvar_axis_tags(font: &[u8]) -> (r: Result<Vec<u32>, ReadError>)
    ensures
        r is Ok <==> fvar_axis_tags(font@) is Some,
        r matches Ok(v) ==> fvar_axis_tags(font@) == Some(v@),
{
    let f = FontRef::new(font)?;
    let fvar = f.fvar()?;
    Ok(fvar.axes()?.iter().map(|a| u32::from_be_bytes(a.axis_tag().to_be_bytes())).collect())
}

/// One variation axis, as plain values.
pub struct AxisInfo {
    /// The axis tag, as big-endian bytes.
    pub tag: u32,
    /// The bit pattern of the minimum, an `f32`.
    pub min_bits: u32,
    /// The bit pattern of the maximum, an `f32`.
    pub max_bits: u32,
    /// The minimum as `Display` writes it.
    pub min_text: String,
    /// The maximum as `Display` writes it.
    pub max_text: String,
}

/// An axis as plain values.
pub open spec fn axis_view(a: AxisInfo) -> (u32, u32, u32, Seq<char>, Seq<char>) {
    (a.tag, a.min_bits, a.max_bits, a.min_text@, a.max_text@)
}

/// The variation axes that skrifa's `MetadataProvider::axes` yields, each
/// converted to plain values. The contract claims that they are the named
/// reading of the bytes.
#[verifier::external_body]
pub(crate) fn read_variation_axes(font: &[u8]) -> (r: Vec<AxisInfo>)
    ensures
        r@.map_values(|a: AxisInfo| axis_view(a)) == variation_axes(font@),
{
    match FontRef::new(font) {
        Ok(f) => f.axes().iter().map(|a| AxisInfo {
            tag: u32::from_be_bytes(a.tag().to_be_bytes()),
            min_bits: a.min_value().to_bits(),
            max_bits: a.max_value().to_bits(),
            min_text: a.min_value().to_string(),
            max_text: a.max_value().to_string(),
        }).collect(),
        Err(_) => Vec::new(),
    }
}

} // verus!
