//! The Type Network profile of font checks.
//!
//! Each check reads a few facts out of a font binary through `fontations`
//! and decides, in verified code, which statuses to report.
pub mod checks;
pub mod fontdata;
pub mod profile;
pub mod status;
pub mod text;

pub use profile::TypeNetwork;
