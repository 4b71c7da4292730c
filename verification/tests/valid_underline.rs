use fontations::write::{tables::maxp::Maxp, tables::post::Post, FontBuilder};
use profile_typenetwork::checks::valid_underline::{underline_verdict, valid_underline};
use profile_typenetwork::status::StatusCode;

fn font_with_underline(thickness: i16) -> Vec<u8> {
    let mut font_builder = FontBuilder::new();
    let maxp = Maxp::default();
    font_builder.add_table(&maxp).unwrap();
    let post = Post {
        underline_thickness: thickness.into(),
        ..Default::default()
    };
    font_builder.add_table(&post).unwrap();
    font_builder.build()
}

#[test]
fn test_valid_underline_pass() {
    let font = font_with_underline(100);
    let statuses = valid_underline(&font).unwrap();
    assert_eq!(statuses.len(), 1);
    assert_eq!(statuses[0].severity, StatusCode::Pass);
}

#[test]
fn test_valid_underline_fail_zero() {
    let font = font_with_underline(0);
    let statuses = valid_underline(&font).unwrap();
    assert_eq!(statuses.len(), 1);
    assert_eq!(statuses[0].severity, StatusCode::Fail);
    assert_eq!(statuses[0].code, Some("invalid-underline-thickness".to_string()));
}

#[test]
fn underline_message() {
    let statuses = underline_verdict(0);
    assert_eq!(
        statuses[0].message,
        Some("Thickness of the underline is 0 which is not valid.".to_string())
    );
    assert_eq!(underline_verdict(1)[0].severity, StatusCode::Pass);
}

#[test]
fn underline_needs_a_post_table() {
    let mut font_builder = FontBuilder::new();
    font_builder.add_table(&Maxp::default()).unwrap();
    let font = font_builder.build();
    assert!(valid_underline(&font).is_err());
}
