use fontations::write::{
    tables::maxp::Maxp,
    tables::name::{Name, NameRecord},
    tables::os2::Os2,
    types::NameId,
    FontBuilder,
};
use profile_typenetwork::checks::weightclass::{weightclass, weightclass_verdict};
use profile_typenetwork::status::StatusCode;

fn font_with(weight_class: u16, style_name: &str) -> Vec<u8> {
    let mut font_builder = FontBuilder::new();
    font_builder.add_table(&Maxp::default()).unwrap();
    let os2 = Os2 {
        us_weight_class: weight_class,
        ..Default::default()
    };
    font_builder.add_table(&os2).unwrap();
    let mut name = Name::default();
    let mut records = vec![
        NameRecord::new(3, 1, 1033, NameId::new(16), "A Family Name".to_string().into()),
        NameRecord::new(3, 1, 1033, NameId::new(17), style_name.to_string().into()),
    ];
    records.sort();
    name.name_record = records;
    font_builder.add_table(&name).unwrap();
    font_builder.build()
}

fn message_for(weight_class: u16, style_name: &str) -> Option<String> {
    let font = font_with(weight_class, style_name);
    let statuses = weightclass(&font).unwrap();
    assert_eq!(statuses.len(), 1);
    statuses[0].message.clone()
}

#[test]
fn weightclass_accepts_the_typenetwork_names() {
    let passing = [
        (100, "Thin"),
        (100, "Whatever Thin"),
        (200, "extralight"),
        (200, "ExtraLight"),
        (200, "XLight"),
        (250, "Thin"),
        (275, "Extra Light"),
        (300, "Light"),
        (400, "Regular"),
        (500, "Medium Italic"),
        (600, "SemiBold"),
        (600, "Semi Bold"),
        (600, "XXCond SemiBold Italic"),
        (700, "Bold"),
        (800, "XBold"),
        (800, "Extra Bold"),
        (900, "Black"),
        (900, "Condensed Black"),
    ];
    for (value, style) in passing {
        let font = font_with(value, style);
        let statuses = weightclass(&font).unwrap();
        assert_eq!(statuses.len(), 1, "{value} {style}");
        assert_eq!(statuses[0].severity, StatusCode::Pass, "{value} {style}");
        assert_eq!(statuses[0].message, None);
        assert_eq!(statuses[0].code, None);
    }
}

#[test]
fn weightclass_rejects_other_names() {
    assert_eq!(
        message_for(400, "Hairline"),
        Some("For OS/2 usWeightClass 400 we expect [\"Regular\"], but got 'Hairline'. Either usWeightClass is wrong or style name. Please investigate.".to_string())
    );
    assert_eq!(
        message_for(300, "XLight"),
        Some("For OS/2 usWeightClass 300 we expect [\"Light\"], but got 'XLight'. Either usWeightClass is wrong or style name. Please investigate.".to_string())
    );
    assert_eq!(
        message_for(200, "Light"),
        Some("For OS/2 usWeightClass 200 we expect [\"XLight\", \"ExtraLight\"], but got 'Light'. Either usWeightClass is wrong or style name. Please investigate.".to_string())
    );
    assert_eq!(
        message_for(400, "Bold Italic"),
        Some("For OS/2 usWeightClass 400 we expect [\"Regular\"], but got 'Bold Italic'. Either usWeightClass is wrong or style name. Please investigate.".to_string())
    );
    let font = font_with(700, "XBold");
    let statuses = weightclass(&font).unwrap();
    assert_eq!(statuses[0].severity, StatusCode::Fail);
    assert_eq!(statuses[0].code, Some("bad-weight-class-value".to_string()));
}

#[test]
fn test_weightclass() {
    // The table's values; those outside it (50, 333, 350, 950, 1000) fail
    // with missing-weight-class-value, see the test below.
    let weight_tests = [
        (200, "extralight", None),
        (400, "Hairline", Some("For OS/2 usWeightClass 400 we expect [\"Regular\"], but got 'Hairline'. Either usWeightClass is wrong or style name. Please investigate.".to_string())),
        (400, "XBlack", Some("For OS/2 usWeightClass 400 we expect [\"Regular\"], but got 'XBlack'. Either usWeightClass is wrong or style name. Please investigate.".to_string())),
        (400, "Regular", None),
        (900, "Condensed Black", None),
        (600, "XXCond SemiBold Italic", None),
        (500, "XXCond SemiBold Italic", Some("For OS/2 usWeightClass 500 we expect [\"Medium\"], but got 'XXCond SemiBold Italic'. Either usWeightClass is wrong or style name. Please investigate.".to_string())),
        (100, "Whatever Thin", None),
        (200, "ExtraLight", None),
        (200, "extralight", None),
        (200, "XLight", None),
        (300, "Light", None),
        (300, "XLight", Some("For OS/2 usWeightClass 300 we expect [\"Light\"], but got 'XLight'. Either usWeightClass is wrong or style name. Please investigate.".to_string())),
        (600, "SemiBold", None),
        (600, "DemiBold", Some("For OS/2 usWeightClass 600 we expect [\"SemiBold\"], but got 'DemiBold'. Either usWeightClass is wrong or style name. Please investigate.".to_string())),
        (700, "Bold", None),
        (700, "XBold", Some("For OS/2 usWeightClass 700 we expect [\"Bold\"], but got 'XBold'. Either usWeightClass is wrong or style name. Please investigate.".to_string())),
        (800, "XBold", None),
        (800, "Black", Some("For OS/2 usWeightClass 800 we expect [\"XBold\", \"ExtraBold\"], but got 'Black'. Either usWeightClass is wrong or style name. Please investigate.".to_string())),
        (900, "Black", None),
        (400, "Italic", None),
    ];
    for (weight_class_value, style_name, expected_result) in weight_tests {
        let font = font_with(weight_class_value, style_name);
        let statuses = weightclass(&font).unwrap();
        assert_eq!(statuses[0].message, expected_result, "{weight_class_value} {style_name}");
    }
}

#[test]
fn weightclass_rejects_values_outside_the_table() {
    for value in [50u16, 333, 350, 950, 1000] {
        let font = font_with(value, "Regular");
        let statuses = weightclass(&font).unwrap();
        assert_eq!(statuses.len(), 1);
        assert_eq!(statuses[0].severity, StatusCode::Fail);
        assert_eq!(statuses[0].code, Some("missing-weight-class-value".to_string()));
        assert_eq!(
            statuses[0].message,
            Some(format!("OS/2 usWeightClass {value} does not match specifications. We expect: Thin 100, XLight 200, Light 300, Regular 400, Medium 500, SemiBold 600, Bold 700, XBold 800, Black 900"))
        );
    }
}

#[test]
fn weightclass_reads_regular_without_a_subfamily_name() {
    let mut font_builder = FontBuilder::new();
    font_builder.add_table(&Maxp::default()).unwrap();
    let os2 = Os2 {
        us_weight_class: 400,
        ..Default::default()
    };
    font_builder.add_table(&os2).unwrap();
    let font = font_builder.build();
    let statuses = weightclass(&font).unwrap();
    assert_eq!(statuses[0].severity, StatusCode::Pass);
}

#[test]
fn weightclass_needs_an_os2_table() {
    let mut font_builder = FontBuilder::new();
    font_builder.add_table(&Maxp::default()).unwrap();
    let font = font_builder.build();
    assert!(weightclass(&font).is_err());
}

#[test]
fn weightclass_verdict_joins_prefixes_and_splits_words() {
    let style: Vec<char> = "Condensed Semi Bold".chars().collect();
    let statuses = weightclass_verdict(600, &style);
    assert_eq!(statuses[0].severity, StatusCode::Pass);
    let style: Vec<char> = "Ultra Light".chars().collect();
    let statuses = weightclass_verdict(300, &style);
    assert_eq!(
        statuses[0].message,
        Some("For OS/2 usWeightClass 300 we expect [\"Light\"], but got 'Ultra Light'. Either usWeightClass is wrong or style name. Please investigate.".to_string())
    );
    for italic in ["Italic", "italic", "ITALIC"] {
        let style: Vec<char> = italic.chars().collect();
        let statuses = weightclass_verdict(400, &style);
        assert_eq!(statuses.len(), 1);
        assert_eq!(statuses[0].severity, StatusCode::Pass, "{italic}");
    }
    let style: Vec<char> = "Italic".chars().collect();
    let statuses = weightclass_verdict(700, &style);
    assert_eq!(statuses[0].severity, StatusCode::Fail);
}
