use profile_typenetwork::profile::ProfileStep;
use profile_typenetwork::TypeNetwork;

#[test]
fn profile_adds_its_checks_in_order() {
    let steps = TypeNetwork::steps();
    let added: Vec<String> = steps
        .iter()
        .filter_map(|s| match s {
            ProfileStep::AddCheck(id) => Some(id.clone()),
            _ => None,
        })
        .collect();
    assert_eq!(
        added,
        vec![
            "typenetwork/weightclass",
            "typenetwork/family/duplicated_names",
            "typenetwork/valid_strikeout",
            "typenetwork/family/equal_numbers_of_glyphs",
            "typenetwork/valid_underline",
            "typenetwork/varfont/axes_have_variation",
        ]
    );
    assert_eq!(TypeNetwork::name(), "typenetwork");
}

#[test]
fn profile_configures_the_universal_profile() {
    let steps = TypeNetwork::steps();
    assert!(matches!(&steps[0], ProfileStep::IncludeProfile(p) if p == "universal"));
    match &steps[1] {
        ProfileStep::ConfigurationDefault { check_id, key, values } => {
            assert_eq!(check_id, "universal/required_name_ids");
            assert_eq!(key, "required_name_ids");
            assert_eq!(values, &vec![0, 1, 2, 3, 4, 5, 6, 7, 8, 9, 10, 11, 12, 13, 14, 16, 17, 25]);
        }
        _ => panic!("expected the configuration default"),
    }
    let excluded: Vec<&String> = steps
        .iter()
        .filter_map(|s| match s {
            ProfileStep::ExcludeCheck(id) => Some(id),
            _ => None,
        })
        .collect();
    assert_eq!(excluded.len(), 8);
    assert!(excluded.iter().any(|id| id.as_str() == "math_signs_width"));
    assert!(matches!(&steps[12], ProfileStep::AddSection(s) if s == "Type Network"));
}
