use fontations::write::{
    tables::fvar::{AxisInstanceArrays, Fvar, VariationAxisRecord},
    tables::name::{Name, NameRecord},
    tables::stat::Stat,
    types::{Fixed, NameId, Tag},
    FontBuilder,
};
use profile_typenetwork::checks::varfont::fvar_axes_order::{axes_order_verdict, fvar_axes_order};
use profile_typenetwork::status::{Status, StatusCode};

fn make_var_font_with_axes_and_stat(axes: Vec<(u32, f32, f32)>, has_stat: bool) -> Vec<u8> {
    let mut fb = FontBuilder::new();
    let mut name = Name::default();
    let record = NameRecord::new(3, 1, 1033, NameId::FAMILY_NAME, "Test".to_string().into());
    name.name_record = vec![record];
    fb.add_table(&name).unwrap();
    let mut records = Vec::new();
    for (tag, min, max) in axes {
        let mut axis = VariationAxisRecord::default();
        axis.axis_tag = Tag::new(&tag.to_be_bytes());
        axis.min_value = Fixed::from_f64(min as f64);
        axis.default_value = Fixed::from_f64(min as f64);
        axis.max_value = Fixed::from_f64(max as f64);
        records.push(axis);
    }
    let fvar = Fvar::new(AxisInstanceArrays::new(records, Vec::new()));
    fb.add_table(&fvar).unwrap();
    if has_stat {
        let stat = Stat {
            elided_fallback_name_id: Some(NameId::new(2)),
            ..Default::default()
        };
        fb.add_table(&stat).unwrap();
    }
    fb.build()
}

fn only_code(statuses: &[Status]) -> StatusCode {
    assert_eq!(statuses.len(), 1);
    statuses[0].severity
}

#[test]
fn skip_when_has_stat() {
    let f = make_var_font_with_axes_and_stat(vec![(0x77647468, 50.0, 200.0)], true);
    let statuses = fvar_axes_order(&f).unwrap();
    assert_eq!(only_code(&statuses), StatusCode::Skip);
}

#[test]
fn pass_when_correct_order() {
    let f = make_var_font_with_axes_and_stat(
        vec![
            (0x6f70737a, 8.0, 144.0),
            (0x77647468, 50.0, 200.0),
            (0x77676874, 100.0, 900.0),
        ],
        false,
    );
    let statuses = fvar_axes_order(&f).unwrap();
    assert_eq!(only_code(&statuses), StatusCode::Pass);
}

#[test]
fn warn_when_incorrect_order() {
    let f = make_var_font_with_axes_and_stat(
        vec![(0x77647468, 50.0, 200.0), (0x6f70737a, 8.0, 144.0)],
        false,
    );
    let statuses = fvar_axes_order(&f).unwrap();
    assert_eq!(only_code(&statuses), StatusCode::Warn);
}

#[test]
fn info_for_custom_axes() {
    let f = make_var_font_with_axes_and_stat(
        vec![(0x6f70737a, 8.0, 144.0), (0x12345678, 0.0, 1.0)],
        false,
    );
    let statuses = fvar_axes_order(&f).unwrap();
    assert_eq!(only_code(&statuses), StatusCode::Info);
}

#[test]
fn axes_order_messages() {
    let f = make_var_font_with_axes_and_stat(
        vec![
            (0x77676874, 100.0, 900.0),
            (0x12345678, 0.0, 1.0),
            (0x6f70737a, 8.0, 144.0),
        ],
        false,
    );
    let statuses = fvar_axes_order(&f).unwrap();
    assert_eq!(statuses.len(), 2);
    assert_eq!(statuses[0].code, Some("axes-incorrect-order".to_string()));
    assert_eq!(
        statuses[0].message,
        Some("Font's registered axes are not in a correct order to get good instances sorting on Adobe apps.\n\nCurrent order is [\"wght\", \"opsz\"], but it should be [\"opsz\", \"wght\"]".to_string())
    );
    assert_eq!(statuses[1].code, Some("custom-axes".to_string()));
    assert_eq!(
        statuses[1].message,
        Some("The font has custom axes with the indicated order:\n\n[(\"{0x12}4Vx\", 1)]\n\nIts order can depend on the kind of variation and the subfamily".to_string())
    );
}

#[test]
fn a_repeated_axis_is_out_of_order() {
    let names: Vec<Vec<char>> = ["wdth", "wdth"].iter().map(|s| s.chars().collect()).collect();
    let statuses = axes_order_verdict(&names);
    assert_eq!(statuses[0].severity, StatusCode::Warn);
}

#[test]
fn fonts_without_fvar_cannot_be_checked() {
    let mut fb = FontBuilder::new();
    let mut name = Name::default();
    name.name_record = vec![NameRecord::new(3, 1, 1033, NameId::FAMILY_NAME, "Test".to_string().into())];
    fb.add_table(&name).unwrap();
    let font = fb.build();
    assert!(fvar_axes_order(&font).is_err());
}
