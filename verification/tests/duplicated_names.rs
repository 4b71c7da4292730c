use fontations::write::{
    tables::maxp::Maxp,
    tables::name::{Name, NameRecord},
    types::NameId,
    FontBuilder,
};
use profile_typenetwork::checks::family::duplicated_names::{duplicated_names, find_duplicates};
use profile_typenetwork::status::StatusCode;

fn font_named(full_name: &str, postscript_name: &str) -> Vec<u8> {
    let mut font_builder = FontBuilder::new();
    let maxp = Maxp::default();
    font_builder.add_table(&maxp).unwrap();
    let mut name: Name = Name::default();
    let mut records = Vec::new();
    records.push(NameRecord::new(3, 1, 1033, NameId::FULL_NAME, full_name.to_string().into()));
    records.push(NameRecord::new(
        3,
        1,
        1033,
        NameId::POSTSCRIPT_NAME,
        postscript_name.to_string().into(),
    ));
    records.sort();
    name.name_record = records;
    font_builder.add_table(&name).unwrap();
    font_builder.build()
}

#[test]
fn test_duplicated_names() {
    let fonts = vec![font_named("Test Font", "TestFont"), font_named("Test Font", "TestFont")];
    let statuses = duplicated_names(&fonts);
    assert!(!statuses.is_empty());
    assert!(statuses.iter().any(|s| s.severity == StatusCode::Fail));
}

#[test]
fn test_no_duplicated_names() {
    let fonts = vec![font_named("Test Font 1", "TestFont1"), font_named("Test Font 2", "TestFont2")];
    let statuses = duplicated_names(&fonts);
    assert_eq!(statuses.len(), 1);
    assert!(matches!(statuses[0].severity, StatusCode::Pass));
}

#[test]
fn duplicated_names_messages() {
    let fonts = vec![
        font_named("Test Font", "TestFont-A"),
        font_named("Test Font", "TestFont-B"),
        font_named("Other", "TestFont-B"),
        font_named("Test Font", "TestFont-C"),
    ];
    let statuses = duplicated_names(&fonts);
    assert_eq!(statuses.len(), 2);
    assert_eq!(statuses[0].code, Some("duplicate-full-names".to_string()));
    assert_eq!(
        statuses[0].message,
        Some("Following full names are duplicate:\n\n* Test Font\n".to_string())
    );
    assert_eq!(statuses[1].code, Some("duplicate-postscript-names".to_string()));
    assert_eq!(
        statuses[1].message,
        Some("Following postscript names are duplicate:\n\n* TestFont-B\n".to_string())
    );
}

#[test]
fn fonts_without_names_share_the_empty_name() {
    let mut font_builder = FontBuilder::new();
    font_builder.add_table(&Maxp::default()).unwrap();
    let bare = font_builder.build();
    let fonts = vec![bare.clone(), bare];
    let statuses = duplicated_names(&fonts);
    assert_eq!(statuses.len(), 2);
    assert_eq!(
        statuses[0].message,
        Some("Following full names are duplicate:\n\n* \n".to_string())
    );
}

#[test]
fn find_duplicates_reports_each_once() {
    let names: Vec<Vec<char>> = ["a", "b", "a", "c", "a", "b"]
        .iter()
        .map(|s| s.chars().collect())
        .collect();
    let dups = find_duplicates(&names);
    let dups: Vec<String> = dups.iter().map(|d| d.iter().collect()).collect();
    assert_eq!(dups, vec!["a".to_string(), "b".to_string()]);
}

#[test]
fn reordering_the_family_keeps_the_codes() {
    let family = [
        ("A Full", "A-PS"),
        ("B Full", "Shared-PS"),
        ("A Full", "C-PS"),
        ("D Full", "Shared-PS"),
    ];
    let codes = |order: &[usize]| -> Vec<(StatusCode, Option<String>)> {
        let fonts: Vec<Vec<u8>> = order.iter().map(|&i| font_named(family[i].0, family[i].1)).collect();
        duplicated_names(&fonts).into_iter().map(|s| (s.severity, s.code)).collect()
    };
    let expected = codes(&[0, 1, 2, 3]);
    assert_eq!(
        expected,
        vec![
            (StatusCode::Fail, Some("duplicate-full-names".to_string())),
            (StatusCode::Fail, Some("duplicate-postscript-names".to_string())),
        ]
    );
    assert_eq!(codes(&[3, 2, 1, 0]), expected);
    assert_eq!(codes(&[2, 0, 3, 1]), expected);
}
