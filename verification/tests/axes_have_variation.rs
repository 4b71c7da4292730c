use fontations::write::{
    tables::fvar::{AxisInstanceArrays, Fvar, VariationAxisRecord},
    tables::head::Head,
    tables::hhea::Hhea,
    tables::maxp::Maxp,
    tables::name::{Name, NameRecord},
    tables::os2::Os2,
    types::{Fixed, NameId, Tag},
    FontBuilder,
};
use profile_typenetwork::checks::varfont::axes_have_variation::axes_have_variation;
use profile_typenetwork::status::StatusCode;

fn make_var_font_with_axes(axes: Vec<(&[u8; 4], f64, f64)>) -> Vec<u8> {
    let mut fb = FontBuilder::new();
    fb.add_table(&Head::default()).unwrap();
    fb.add_table(&Hhea::default()).unwrap();
    fb.add_table(&Maxp::default()).unwrap();
    fb.add_table(&Os2::default()).unwrap();
    let mut name = Name::default();
    let record = NameRecord::new(3, 1, 1033, NameId::FAMILY_NAME, "Test VF".to_string().into());
    name.name_record = vec![record];
    fb.add_table(&name).unwrap();
    let mut records = Vec::new();
    for (tag, min, max) in axes {
        let mut axis = VariationAxisRecord::default();
        axis.axis_tag = Tag::new(tag);
        axis.min_value = Fixed::from_f64(min);
        axis.default_value = Fixed::from_f64(min);
        axis.max_value = Fixed::from_f64(max);
        records.push(axis);
    }
    let fvar = Fvar::new(AxisInstanceArrays::new(records, Vec::new()));
    fb.add_table(&fvar).unwrap();
    fb.build()
}

#[test]
fn pass_when_axes_have_variation() {
    let f = make_var_font_with_axes(vec![(b"wdth", 50.0, 200.0), (b"wght", 100.0, 900.0)]);
    let statuses = axes_have_variation(&f);
    assert!(statuses.iter().all(|s| s.severity == StatusCode::Pass));
}

#[test]
fn fail_when_axis_has_no_variation() {
    let f = make_var_font_with_axes(vec![(b"wght", 100.0, 100.0)]);
    let statuses = axes_have_variation(&f);
    assert!(statuses.iter().any(|s| s.severity == StatusCode::Fail));
}

#[test]
fn each_axis_without_variation_is_reported() {
    let f = make_var_font_with_axes(vec![
        (b"wght", 100.0, 100.0),
        (b"wdth", 75.0, 100.0),
        (b"ital", 0.0, 0.0),
    ]);
    let statuses = axes_have_variation(&f);
    assert_eq!(statuses.len(), 2);
    assert_eq!(statuses[0].code, Some("axis-has-no-variation".to_string()));
    assert_eq!(
        statuses[0].message,
        Some("'wght' axis has no variation its min and max values are 100, 100".to_string())
    );
    assert_eq!(
        statuses[1].message,
        Some("'ital' axis has no variation its min and max values are 0, 0".to_string())
    );
}

#[test]
fn static_fonts_are_skipped() {
    let mut fb = FontBuilder::new();
    fb.add_table(&Maxp::default()).unwrap();
    let font = fb.build();
    let statuses = axes_have_variation(&font);
    assert_eq!(statuses.len(), 1);
    assert_eq!(statuses[0].severity, StatusCode::Skip);
    assert_eq!(statuses[0].code, Some("not-variable".to_string()));
    assert_eq!(statuses[0].message, Some("Not a variable font".to_string()));
}
