//! The profile: which checks it runs, and how it sets up the checks that it
//! takes from other profiles.
use vstd::prelude::*;

use crate::status::StatusCode;

verus! {

/// The Type Network profile.
pub struct TypeNetwork;

/// One step of building a profile.
pub enum ProfileStep {
    /// Take in all the checks of another profile.
    IncludeProfile(String),
    /// Give a check a default configuration value: a list of integers under
    /// a key.
    ConfigurationDefault { check_id: String, key: String, values: Vec<u16> },
    /// Leave a check out.
    ExcludeCheck(String),
    /// Report a status code of a check with another severity, and why.
    Override { check_id: String, code: String, severity: StatusCode, reason: String },
    /// Start a new section.
    AddSection(String),
    /// Add one of this library's checks, by its ID.
    AddCheck(String),
}

/// A profile step as plain values.
pub enum StepView {
    IncludeProfile(Seq<char>),
    ConfigurationDefault { check_id: Seq<char>, key: Seq<char>, values: Seq<u16> },
    ExcludeCheck(Seq<char>),
    Override { check_id: Seq<char>, code: Seq<char>, severity: StatusCode, reason: Seq<char> },
    AddSection(Seq<char>),
    AddCheck(Seq<char>),
}

impl View for ProfileStep {
    type V = StepView;

    open spec fn view(&self) -> StepView {
        match self {
            ProfileStep::IncludeProfile(p) => StepView::IncludeProfile(p@),
            ProfileStep::ConfigurationDefault { check_id, key, values } => StepView::ConfigurationDefault {
                check_id: check_id@,
                key: key@,
                values: values@,
            },
            ProfileStep::ExcludeCheck(c) => StepView::ExcludeCheck(c@),
            ProfileStep::Override { check_id, code, severity, reason } => StepView::Override {
                check_id: check_id@,
                code: code@,
                severity: *severity,
                reason: reason@,
            },
            ProfileStep::AddSection(s) => StepView::AddSection(s@),
            ProfileStep::AddCheck(c) => StepView::AddCheck(c@),
        }
    }
}

/// The IDs of the checks that this library implements and the profile adds.
pub open spec fn own_check_ids() -> Seq<Seq<char>> {
    seq![
        "typenetwork/weightclass"@,
        "typenetwork/family/duplicated_names"@,
        "typenetwork/valid_strikeout"@,
        "typenetwork/family/equal_numbers_of_glyphs"@,
        "typenetwork/valid_underline"@,
        "typenetwork/varfont/axes_have_variation"@,
    ]
}

/// The name IDs that the profile asks the universal profile to require.
pub open spec fn required_name_ids() -> Seq<u16> {
    seq![0u16, 1, 2, 3, 4, 5, 6, 7, 8, 9, 10, 11, 12, 13, 14, 16, 17, 25]
}

/// The steps that build the Type Network profile, in order.
pub open spec fn typenetwork_steps() -> Seq<StepView> {
    seq![
        StepView::IncludeProfile("universal"@),
        StepView::ConfigurationDefault {
            check_id: "universal/required_name_ids"@,
            key: "required_name_ids"@,
            values: required_name_ids(),
        },
        StepView::ExcludeCheck("opentype/family/panose_familytype"@),
        StepView::ExcludeCheck("opentype/family/opentype/vendor_id"@),
        StepView::ExcludeCheck("alt_caron"@),
        StepView::ExcludeCheck("opentype/family/opentype/file_size"@),
        StepView::ExcludeCheck("hinting_impact"@),
        StepView::ExcludeCheck("hinting_impact"@),
        StepView::ExcludeCheck("math_signs_width"@),
        StepView::ExcludeCheck("name/no_copyright_on_description"@),
        StepView::Override {
            check_id: "varfont/unsupported_axes"@,
            code: "unsupported-ital"@,
            severity: StatusCode::Warn,
            reason: "The 'ital' axis is not supported well supported, is recommended to use 'slnt' instead."@,
        },
        StepView::IncludeProfile("adobefonts"@),
        StepView::AddSection("Type Network"@),
        StepView::AddCheck(own_check_ids()[0]),
        StepView::AddCheck(own_check_ids()[1]),
        StepView::AddCheck(own_check_ids()[2]),
        StepView::AddCheck(own_check_ids()[3]),
        StepView::AddCheck(own_check_ids()[4]),
        StepView::AddCheck(own_check_ids()[5]),
    ]
}

/// The steps as plain values.
pub open spec fn steps_view(v: Seq<ProfileStep>) -> Seq<StepView> {
    v.map_values(|s: ProfileStep| s@)
}

fn owned(s: &str) -> (r: String)
    ensures
        r@ == s@,
{
    String::from_str(s)
}

impl TypeNetwork {
    /// The name under which the profile is registered.
    pub fn name() -> (r: String)
        ensures
            r@ == "typenetwork"@,
    {
        owned("typenetwork")
    }

    /// The steps that build the profile, in order.
    pub fn steps() -> (r: Vec<ProfileStep>)
        ensures
            steps_view(r@) == typenetwork_steps(),
    {
        let mut r: Vec<ProfileStep> = Vec::new();
        r.push(ProfileStep::IncludeProfile(owned("universal")));
        let ids: Vec<u16> = vec![0u16, 1, 2, 3, 4, 5, 6, 7, 8, 9, 10, 11, 12, 13, 14, 16, 17, 25];
        r.push(
            ProfileStep::ConfigurationDefault {
                check_id: owned("universal/required_name_ids"),
                key: owned("required_name_ids"),
                values: ids,
            },
        );
        r.push(ProfileStep::ExcludeCheck(owned("opentype/family/panose_familytype")));
        r.push(ProfileStep::ExcludeCheck(owned("opentype/family/opentype/vendor_id")));
        r.push(ProfileStep::ExcludeCheck(owned("alt_caron")));
        r.push(ProfileStep::ExcludeCheck(owned("opentype/family/opentype/file_size")));
        r.push(ProfileStep::ExcludeCheck(owned("hinting_impact")));
        r.push(ProfileStep::ExcludeCheck(owned("hinting_impact")));
        r.push(ProfileStep::ExcludeCheck(owned("math_signs_width")));
        r.push(ProfileStep::ExcludeCheck(owned("name/no_copyright_on_description")));
        r.push(
            ProfileStep::Override {
                check_id: owned("varfont/unsupported_axes"),
                code: owned("unsupported-ital"),
                severity: StatusCode::Warn,
                reason: owned(
                    "The 'ital' axis is not supported well supported, is recommended to use 'slnt' instead.",
                ),
            },
        );
        r.push(ProfileStep::IncludeProfile(owned("adobefonts")));
        r.push(ProfileStep::AddSection(owned("Type Network")));
        r.push(ProfileStep::AddCheck(owned("typenetwork/weightclass")));
        r.push(ProfileStep::AddCheck(owned("typenetwork/family/duplicated_names")));
        r.push(ProfileStep::AddCheck(owned("typenetwork/valid_strikeout")));
        r.push(ProfileStep::AddCheck(owned("typenetwork/family/equal_numbers_of_glyphs")));
        r.push(ProfileStep::AddCheck(owned("typenetwork/valid_underline")));
        r.push(ProfileStep::AddCheck(owned("typenetwork/varfont/axes_have_variation")));
        proof {
            assert(steps_view(r@) =~= typenetwork_steps());
        }
        r
    }
}

} // verus!
