use fontations::write::{tables::maxp::Maxp, tables::os2::Os2, FontBuilder};
use profile_typenetwork::checks::valid_strikeout::{strikeout_verdict, valid_strikeout};
use profile_typenetwork::status::StatusCode;

fn font_with_strikeout(size: i16) -> Vec<u8> {
    let mut font_builder = FontBuilder::new();
    let maxp = Maxp::default();
    font_builder.add_table(&maxp).unwrap();
    let os2 = Os2 {
        y_strikeout_size: size,
        ..Default::default()
    };
    font_builder.add_table(&os2).unwrap();
    font_builder.build()
}

#[test]
fn test_valid_strikeout_pass() {
    let font = font_with_strikeout(100);
    let statuses = valid_strikeout(&font).unwrap();
    assert_eq!(statuses.len(), 1);
    assert_eq!(statuses[0].severity, StatusCode::Pass);
}

#[test]
fn test_valid_strikeout_fail_zero() {
    let font = font_with_strikeout(0);
    let statuses = valid_strikeout(&font).unwrap();
    assert_eq!(statuses.len(), 1);
    assert_eq!(statuses[0].severity, StatusCode::Fail);
    assert_eq!(statuses[0].code, Some("invalid-strikeout-size".to_string()));
}

#[test]
fn strikeout_message_and_negative_sizes() {
    let statuses = strikeout_verdict(0);
    assert_eq!(
        statuses[0].message,
        Some("Size of the strikeout is 0 which is not valid.".to_string())
    );
    let statuses = strikeout_verdict(-5);
    assert_eq!(statuses[0].severity, StatusCode::Pass);
    let font = font_with_strikeout(-5);
    assert_eq!(valid_strikeout(&font).unwrap()[0].severity, StatusCode::Pass);
}

#[test]
fn strikeout_needs_an_os2_table() {
    let mut font_builder = FontBuilder::new();
    font_builder.add_table(&Maxp::default()).unwrap();
    let font = font_builder.build();
    assert!(valid_strikeout(&font).is_err());
}
