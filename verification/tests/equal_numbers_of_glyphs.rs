use fontations::write::{
    tables::maxp::Maxp,
    tables::name::{Name, NameRecord},
    types::NameId,
    FontBuilder,
};
use profile_typenetwork::checks::family::equal_numbers_of_glyphs::equal_numbers_of_glyphs;
use profile_typenetwork::status::StatusCode;

fn font_with(num_glyphs: u16, subfamily: &str) -> Vec<u8> {
    let mut font_builder = FontBuilder::new();
    let mut maxp = Maxp::default();
    maxp.num_glyphs = num_glyphs;
    font_builder.add_table(&maxp).unwrap();
    let mut name = Name::default();
    let mut records = Vec::new();
    records.push(NameRecord::new(
        3,
        1,
        1033,
        NameId::SUBFAMILY_NAME,
        subfamily.to_string().into(),
    ));
    records.sort();
    name.name_record = records;
    font_builder.add_table(&name).unwrap();
    font_builder.build()
}

fn names(files: &[&str]) -> Vec<String> {
    files.iter().map(|s| s.to_string()).collect()
}

#[test]
fn test_equal_glyphs_pass() {
    let fonts = vec![font_with(1000, "Regular"), font_with(1000, "Bold")];
    let statuses = equal_numbers_of_glyphs(&fonts, &names(&["font1.ttf", "font2.ttf"]));
    assert!(statuses.iter().all(|s| s.severity == StatusCode::Pass));
}

#[test]
fn test_equal_glyphs_fail() {
    let fonts = vec![font_with(1000, "Regular"), font_with(950, "Bold")];
    let statuses = equal_numbers_of_glyphs(&fonts, &names(&["font1.ttf", "font2.ttf"]));
    assert!(statuses.iter().any(|s| s.severity == StatusCode::Warn));
}

#[test]
fn romans_and_italics_are_compared_apart() {
    let fonts = vec![
        font_with(1000, "Regular"),
        font_with(950, "Bold"),
        font_with(800, "Italic"),
        font_with(800, "Bold Oblique"),
    ];
    let statuses = equal_numbers_of_glyphs(
        &fonts,
        &names(&["font1.ttf", "font2.ttf", "font3.ttf", "font4.ttf"]),
    );
    assert_eq!(statuses.len(), 1);
    assert_eq!(statuses[0].severity, StatusCode::Warn);
    assert_eq!(statuses[0].code, Some("roman-different-number-of-glyphs".to_string()));
    assert_eq!(
        statuses[0].message,
        Some("Romans don't have the same number of glyphs. Expected 1000:\n  font2.ttf: 950 glyphs".to_string())
    );
}

#[test]
fn italic_mismatches_are_listed() {
    let fonts = vec![
        font_with(10, "Italic"),
        font_with(12, "Bold Italic"),
        font_with(11, "Light Italic"),
    ];
    let statuses = equal_numbers_of_glyphs(&fonts, &names(&["a.ttf", "b.ttf", "c.ttf"]));
    assert_eq!(statuses.len(), 1);
    assert_eq!(statuses[0].code, Some("italic-different-number-of-glyphs".to_string()));
    assert_eq!(
        statuses[0].message,
        Some("Italics don't have the same number of glyphs. Expected 12:\n  a.ttf: 10 glyphs\n  c.ttf: 11 glyphs".to_string())
    );
}

#[test]
fn fonts_are_paired_with_file_names_in_order() {
    let fonts = vec![font_with(5, "Regular"), font_with(6, "Regular")];
    let statuses = equal_numbers_of_glyphs(&fonts, &names(&["same.ttf", "same.ttf"]));
    assert_eq!(statuses[0].severity, StatusCode::Pass);
    let statuses = equal_numbers_of_glyphs(&fonts, &names(&["only.ttf"]));
    assert_eq!(statuses[0].severity, StatusCode::Pass);
}
