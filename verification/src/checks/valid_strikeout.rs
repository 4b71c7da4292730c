//! `typenetwork/valid_strikeout`: the font has a strikeout size. Where it is
//! not set, nothing gets rendered in Figma.
use vstd::prelude::*;

use crate::fontdata::{os2_strikeout_size, read_os2_strikeout_size};
use crate::status::{
    well_formed_report, just_one, just_one_pass, pass_view, status_view, statuses_view, CheckError, Status,
    StatusCode, StatusView,
};
use crate::text::{push_signed_decimal, push_str, signed_decimal, string_of};

verus! {

/// The message for an invalid strikeout size.
pub open spec fn strikeout_message(size: i16) -> Seq<char> {
    "Size of the strikeout is "@ + signed_decimal(size as int) + " which is not valid."@
}

/// What the check reports for a strikeout size: a failure where it is zero,
/// else a pass.
pub open spec fn strikeout_statuses(size: i16) -> Seq<StatusView> {
    if size == 0 {
        seq![status_view(StatusCode::Fail, "invalid-strikeout-size"@, strikeout_message(size))]
    } else {
        seq![pass_view()]
    }
}

/// The check reports a single status, which is a pass exactly where the
/// strikeout size is not zero.
pub proof fn law_strikeout_nonzero(size: i16)
    ensures
        well_formed_report(strikeout_statuses(size)),
        strikeout_statuses(size).len() == 1,
        (strikeout_statuses(size) == seq![pass_view()]) <==> size != 0,
{
    if size == 0 {
        assert(strikeout_statuses(size)[0].severity != pass_view().severity);
    }
}

/// What the check reports for a strikeout size.
pub fn strikeout_verdict(size: i16) -> (r: Vec<Status>)
    ensures
        statuses_view(r@) == strikeout_statuses(size),
{
    if size == 0 {
        let mut msg: Vec<char> = Vec::new();
        push_str(&mut msg, "Size of the strikeout is ");
        push_signed_decimal(&mut msg, size as i64);
        push_str(&mut msg, " which is not valid.");
        proof {
            assert(msg@ =~= strikeout_message(size));
        }
        just_one(StatusCode::Fail, "invalid-strikeout-size", string_of(&msg))
    } else {
        just_one_pass()
    }
}

/// The check `typenetwork/valid_strikeout` on a font binary: the OS/2
/// yStrikeoutSize must not be zero. It fails to run where the OS/2 table
/// cannot be read.
pub fn valid_strikeout(font: &[u8]) -> (r: Result<Vec<Status>, CheckError>)
    ensures
        r is Err <==> os2_strikeout_size(font@) is None,
        r matches Ok(v) ==> statuses_view(v@) == strikeout_statuses(
            os2_strikeout_size(font@).unwrap(),
        ),
{
    match read_os2_strikeout_size(font) {
        Ok(size) => Ok(strikeout_verdict(size)),
        Err(e) => Err(CheckError::FontRead(e)),
    }
}

} // verus!
