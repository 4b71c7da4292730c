use fontations::write::{
    tables::hhea::Hhea,
    tables::hmtx::{Hmtx, LongMetric},
    tables::maxp::Maxp,
    tables::name::{Name, NameRecord},
    tables::post::Post,
    types::NameId,
    FontBuilder,
};
use profile_typenetwork::checks::family::tnum_horizontal_metrics::{
    tnum_horizontal_metrics, tnum_verdict, WidthTable,
};
use profile_typenetwork::status::StatusCode;

fn make_font_with_tnum(name: &str, glyphs: &[(&str, u16)]) -> Vec<u8> {
    let mut fb = FontBuilder::new();
    let mut name_table = Name::default();
    let record = NameRecord::new(3, 1, 1033, NameId::SUBFAMILY_NAME, name.to_string().into());
    name_table.name_record = vec![record];
    fb.add_table(&name_table).unwrap();
    let mut maxp = Maxp::default();
    maxp.num_glyphs = glyphs.len() as u16;
    fb.add_table(&maxp).unwrap();
    let mut hhea = Hhea::default();
    hhea.number_of_h_metrics = glyphs.len() as u16;
    fb.add_table(&hhea).unwrap();
    let mut hmtx = Hmtx::default();
    for &(_, adv) in glyphs {
        hmtx.h_metrics.push(LongMetric { advance: adv, side_bearing: 0 });
    }
    fb.add_table(&hmtx).unwrap();
    fb.add_table(&Post::new_v2(glyphs.iter().map(|(n, _)| *n))).unwrap();
    fb.build()
}

#[test]
fn warn_for_different_widths() {
    let f1 = make_font_with_tnum("Regular", &[("one.tnum", 500), ("two.tnum", 500)]);
    let f2 = make_font_with_tnum("Bold", &[("one.tnum", 600), ("two.tnum", 600)]);
    let statuses = tnum_horizontal_metrics(&vec![f1, f2], false).unwrap();
    assert!(statuses.iter().any(|s| s.severity == StatusCode::Warn));
}

#[test]
fn info_for_half_width() {
    let f1 = make_font_with_tnum("Regular", &[("one.tnum", 600)]);
    // second font adds a half-width glyph
    let f2 = make_font_with_tnum("Bold", &[("one.tnum", 600), ("half.tnum", 300)]);
    let statuses = tnum_horizontal_metrics(&vec![f1, f2], false).unwrap();
    assert!(statuses.iter().any(|s| s.severity == StatusCode::Info));
}

#[test]
fn widths_that_differ_are_warned_about() {
    let f1 = make_font_with_tnum("Regular", &[("one.tnum", 500), ("two.tnum", 500), ("a", 300)]);
    let f2 = make_font_with_tnum("Bold", &[("one.tf", 500), ("two.tnum", 600)]);
    let statuses = tnum_horizontal_metrics(&vec![f1, f2], false).unwrap();
    assert_eq!(statuses.len(), 1);
    assert_eq!(statuses[0].severity, StatusCode::Warn);
    assert_eq!(statuses[0].code, Some("inconsistent-widths".to_string()));
    assert_eq!(
        statuses[0].message,
        Some("The most common tabular glyph width is 500. But there are other tabular glyphs with different widths such as the following ones:\n\nWidth: 600 - Glyphs: 'two.tnum'".to_string())
    );
}

#[test]
fn half_widths_are_noted() {
    let f1 = make_font_with_tnum("Regular", &[("one.tnum", 600), ("two.tnum", 600)]);
    let f2 = make_font_with_tnum("Bold", &[("one.tnum", 600), ("half.tnum", 300)]);
    let statuses = tnum_horizontal_metrics(&vec![f1, f2], false).unwrap();
    assert_eq!(statuses.len(), 1);
    assert_eq!(statuses[0].severity, StatusCode::Info);
    assert_eq!(statuses[0].code, Some("half-widths".to_string()));
    assert_eq!(
        statuses[0].message,
        Some("There are other glyphs with half of the width (300) of the most common width such as the following ones:\n\n* half.tnum".to_string())
    );
}

#[test]
fn one_width_passes() {
    let f1 = make_font_with_tnum("Regular", &[("one.tnum", 500), ("two.tosf", 500)]);
    let f2 = make_font_with_tnum("Bold", &[("one.tabular", 500), ("space", 250)]);
    let statuses = tnum_horizontal_metrics(&vec![f1, f2], false).unwrap();
    assert_eq!(statuses.len(), 1);
    assert_eq!(statuses[0].severity, StatusCode::Pass);
}

#[test]
fn a_single_font_is_skipped() {
    let f1 = make_font_with_tnum("Regular", &[("one.tnum", 500)]);
    let statuses = tnum_horizontal_metrics(&vec![f1], false).unwrap();
    assert_eq!(statuses.len(), 1);
    assert_eq!(statuses[0].severity, StatusCode::Skip);
    assert_eq!(statuses[0].code, Some("no-siblings".to_string()));
}

#[test]
fn fonts_without_hmtx_cannot_be_checked() {
    let f1 = make_font_with_tnum("Regular", &[("one.tnum", 500)]);
    let mut fb = FontBuilder::new();
    fb.add_table(&Maxp::default()).unwrap();
    let f2 = fb.build();
    assert!(tnum_horizontal_metrics(&vec![f1, f2], false).is_err());
}

fn chars(s: &str) -> Vec<char> {
    s.chars().collect()
}

#[test]
fn verdict_on_width_groups() {
    let half: Vec<Vec<char>> = (0..12).map(|i| chars(&format!("h{i}.tnum"))).collect();
    let common: Vec<Vec<char>> = (0..13).map(|i| chars(&format!("c{i}.tnum"))).collect();
    let table = WidthTable {
        widths: vec![3, 6, 9],
        names: vec![half, common, vec![chars("d.tnum"), chars("e.tnum")]],
    };
    let statuses = tnum_verdict(&table, false);
    assert_eq!(statuses.len(), 2);
    assert_eq!(statuses[0].code, Some("half-widths".to_string()));
    let listed: String = (0..9).map(|i| format!("* h{i}.tnum\n")).collect();
    assert_eq!(
        statuses[0].message,
        Some(format!("There are other glyphs with half of the width (3) of the most common width such as the following ones:\n\n{listed}... and 3 others"))
    );
    assert_eq!(statuses[1].code, Some("inconsistent-widths".to_string()));
    assert_eq!(
        statuses[1].message,
        Some("The most common tabular glyph width is 6. But there are other tabular glyphs with different widths such as the following ones:\n\nWidth: 9 - Glyphs: 'd.tnum', 'e.tnum'".to_string())
    );
    let statuses_full = tnum_verdict(&table, true);
    let listed_full: Vec<String> = (0..12).map(|i| format!("* h{i}.tnum")).collect();
    assert_eq!(
        statuses_full[0].message,
        Some(format!("There are other glyphs with half of the width (3) of the most common width such as the following ones:\n\n{}", listed_full.join("\n")))
    );
}

#[test]
fn ties_go_to_the_first_width() {
    let table = WidthTable {
        widths: vec![5, 8],
        names: vec![vec![chars("a.tnum")], vec![chars("b.tnum")]],
    };
    let statuses = tnum_verdict(&table, false);
    assert_eq!(statuses.len(), 1);
    assert_eq!(
        statuses[0].message,
        Some("The most common tabular glyph width is 5. But there are other tabular glyphs with different widths such as the following ones:\n\nWidth: 8 - Glyphs: 'b.tnum'".to_string())
    );
    let table = WidthTable {
        widths: vec![1, 4],
        names: vec![vec![chars("a.tnum")], vec![chars("b.tnum")]],
    };
    let statuses = tnum_verdict(&table, false);
    assert_eq!(statuses[0].code, Some("half-widths".to_string()));
    assert_eq!(statuses[1].code, Some("inconsistent-widths".to_string()));
}
