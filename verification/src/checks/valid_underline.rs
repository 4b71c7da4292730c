//! `typenetwork/valid_underline`: the font has an underline thickness. Where it
//! is not set, nothing gets rendered in Figma.
use vstd::prelude::*;

use crate::fontdata::{post_underline_thickness, read_post_underline_thickness};
use crate::status::{
    well_formed_report, just_one, just_one_pass, pass_view, status_view, statuses_view, CheckError, Status,
    StatusCode, StatusView,
};
use crate::text::{push_signed_decimal, push_str, signed_decimal, string_of};

verus! {

/// The message for an invalid underline thickness.
pub open spec fn underline_message(thickness: i16) -> Seq<char> {
    "Thickness of the underline is "@ + signed_decimal(thickness as int) + " which is not valid."@
}

/// What the check reports for an underline thickness: a failure where it is zero,
/// else a pass.
pub open spec fn underline_statuses(thickness: i16) -> Seq<StatusView> {
    if thickness == 0 {
        seq![status_view(StatusCode::Fail, "invalid-underline-thickness"@, underline_message(thickness))]
    } else {
        seq![pass_view()]
    }
}

/// The check reports a single status, which is a pass exactly where the
/// underline thickness is not zero.
pub proof fn law_underline_nonzero(thickness: i16)
    ensures
        well_formed_report(underline_statuses(thickness)),
        underline_statuses(thickness).len() == 1,
        (underline_statuses(thickness) == seq![pass_view()]) <==> thickness != 0,
{
    if thickness == 0 {
        assert(underline_statuses(thickness)[0].severity != pass_view().severity);
    }
}

/// What the check reports for an underline thickness.
pub fn underline_verdict(thickness: i16) -> (r: Vec<Status>)
    ensures
        statuses_view(r@) == underline_statuses(thickness),
{
    if thickness == 0 {
        let mut msg: Vec<char> = Vec::new();
        push_str(&mut msg, "Thickness of the underline is ");
        push_signed_decimal(&mut msg, thickness as i64);
        push_str(&mut msg, " which is not valid.");
        proof {
            assert(msg@ =~= underline_message(thickness));
        }
        just_one(StatusCode::Fail, "invalid-underline-thickness", string_of(&msg))
    } else {
        just_one_pass()
    }
}

/// The check `typenetwork/valid_underline` on a font binary: the post
/// underlineThickness must not be zero. It fails to run where the post table
/// cannot be read.
pub fn valid_underline(font: &[u8]) -> (r: Result<Vec<Status>, CheckError>)
    ensures
        r is Err <==> post_underline_thickness(font@) is None,
        r matches Ok(v) ==> statuses_view(v@) == underline_statuses(
            post_underline_thickness(font@).unwrap(),
        ),
{
    match read_post_underline_thickness(font) {
        Ok(thickness) => Ok(underline_verdict(thickness)),
        Err(e) => Err(CheckError::FontRead(e)),
    }
}

} // verus!
