use fontations::write::{
    tables::maxp::Maxp,
    tables::name::{Name, NameRecord},
    types::NameId as WriteNameId,
    FontBuilder,
};
use profile_typenetwork::checks::name::mandatory_entries::mandatory_entries;
use profile_typenetwork::status::StatusCode;

fn create_test_font_with_names(name_entries: Vec<(WriteNameId, &str)>) -> Vec<u8> {
    let mut font_builder = FontBuilder::new();
    let maxp = Maxp::default();
    font_builder.add_table(&maxp).unwrap();
    let mut name_table: Name = Name::default();
    let mut records = Vec::new();
    for (name_id, value) in name_entries {
        records.push(NameRecord::new(3, 1, 1033, name_id, value.to_string().into()));
    }
    records.sort();
    name_table.name_record = records;
    font_builder.add_table(&name_table).unwrap();
    font_builder.build()
}

#[test]
fn test_all_required_entries_present() {
    let font_data = create_test_font_with_names(vec![
        (WriteNameId::FAMILY_NAME, "Test Family"),
        (WriteNameId::SUBFAMILY_NAME, "Regular"),
        (WriteNameId::FULL_NAME, "Test Family Regular"),
        (WriteNameId::POSTSCRIPT_NAME, "TestFamily-Regular"),
        (WriteNameId::COPYRIGHT_NOTICE, "© 2024"),
        (WriteNameId::UNIQUE_ID, "TestFamily-Regular-1.0"),
        (WriteNameId::VERSION_STRING, "Version 1.0"),
        (WriteNameId::TRADEMARK, "Test is a trademark"),
        (WriteNameId::MANUFACTURER, "Test Foundry"),
        (WriteNameId::DESIGNER, "Designer Name"),
        (WriteNameId::DESCRIPTION, "A test font"),
        (WriteNameId::VENDOR_URL, "https://example.com"),
        (WriteNameId::DESIGNER_URL, "https://example.com/designer"),
        (WriteNameId::LICENSE_DESCRIPTION, "Licensed under MIT"),
        (WriteNameId::LICENSE_URL, "https://example.com/license"),
    ]);
    let statuses = mandatory_entries(&font_data);
    assert_eq!(statuses.len(), 1, "Should have exactly one status when all entries present");
    assert!(matches!(statuses[0].severity, StatusCode::Pass), "Should pass when all entries present");
}

#[test]
fn test_missing_required_entry() {
    let font_data = create_test_font_with_names(vec![
        (WriteNameId::FAMILY_NAME, "Test Family"),
        (WriteNameId::SUBFAMILY_NAME, "Regular"),
        (WriteNameId::FULL_NAME, "Test Family Regular"),
    ]);
    let statuses = mandatory_entries(&font_data);
    assert!(!statuses.is_empty(), "Should have at least one status");
    assert!(
        statuses.iter().any(|s| s.severity == StatusCode::Fail),
        "Should have a Fail status for missing required entry"
    );
}

#[test]
fn test_missing_optional_entries() {
    let font_data = create_test_font_with_names(vec![
        (WriteNameId::FAMILY_NAME, "Test Family"),
        (WriteNameId::SUBFAMILY_NAME, "Regular"),
        (WriteNameId::FULL_NAME, "Test Family Regular"),
        (WriteNameId::POSTSCRIPT_NAME, "TestFamily-Regular"),
    ]);
    let statuses = mandatory_entries(&font_data);
    assert!(!statuses.is_empty(), "Should have warning entries for missing optional entries");
    let warn_count = statuses
        .iter()
        .filter(|s| s.severity == StatusCode::Warn)
        .count();
    assert!(warn_count > 0, "Should have at least one warning for missing optional entries");
}

#[test]
fn test_ribbi_with_typographic_names() {
    let font_data = create_test_font_with_names(vec![
        (WriteNameId::FAMILY_NAME, "Test Family"),
        (WriteNameId::SUBFAMILY_NAME, "Regular"),
        (WriteNameId::FULL_NAME, "Test Family Regular"),
        (WriteNameId::POSTSCRIPT_NAME, "TestFamily-Regular"),
        (WriteNameId::TYPOGRAPHIC_FAMILY_NAME, "Test Family Variable"),
        (WriteNameId::TYPOGRAPHIC_SUBFAMILY_NAME, "Regular Variable"),
    ]);
    let statuses = mandatory_entries(&font_data);
    assert!(
        statuses.iter().any(|s| {
            s.severity == StatusCode::Warn
                && s.message.as_ref().map_or(false, |msg| msg.contains("unnecessary"))
        }),
        "Should have a Warn status for unnecessary entries"
    );
}

#[test]
fn mandatory_entries_messages_in_order() {
    let font_data = create_test_font_with_names(vec![
        (WriteNameId::FAMILY_NAME, "Test Family"),
        (WriteNameId::SUBFAMILY_NAME, "Condensed"),
        (WriteNameId::FULL_NAME, ""),
        (WriteNameId::POSTSCRIPT_NAME, "TestFamily-Condensed"),
        (WriteNameId::TYPOGRAPHIC_FAMILY_NAME, "Test Family"),
    ]);
    let statuses = mandatory_entries(&font_data);
    let codes: Vec<String> = statuses.iter().map(|s| s.code.clone().unwrap()).collect();
    assert_eq!(codes[0], "missing-required-entry");
    assert_eq!(statuses[0].message, Some("Font lacks entry with nameId=FULL_NAME".to_string()));
    assert_eq!(statuses[1].message, Some("Font lacks entry with nameId=TYPOGRAPHIC_SUBFAMILY_NAME".to_string()));
    assert_eq!(statuses[1].severity, StatusCode::Fail);
    assert_eq!(statuses[2].code, Some("missing-optional-entry".to_string()));
    assert_eq!(statuses[2].severity, StatusCode::Warn);
    assert_eq!(statuses[2].message, Some("Font lacks entry with nameId=COPYRIGHT_NOTICE".to_string()));
    assert_eq!(statuses.len(), 2 + 11);
}

#[test]
fn ribbi_font_with_unnecessary_entries_is_told_so() {
    let font_data = create_test_font_with_names(vec![
        (WriteNameId::SUBFAMILY_NAME, "Bold Italic"),
        (WriteNameId::TYPOGRAPHIC_SUBFAMILY_NAME, "Bold Italic"),
    ]);
    let statuses = mandatory_entries(&font_data);
    let last = statuses.last().unwrap();
    assert_eq!(last.code, Some("unnecessary-entry".to_string()));
    assert_eq!(
        last.message,
        Some("Font has unnecessary name entry with nameId=TYPOGRAPHIC_SUBFAMILY_NAME".to_string())
    );
}
