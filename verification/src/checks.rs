//! The checks of the profile.
pub mod common;
pub mod weightclass;
pub mod valid_strikeout;
pub mod valid_underline;
pub mod name;
pub mod family;
pub mod varfont;
