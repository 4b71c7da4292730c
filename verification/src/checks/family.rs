//! Checks that compare the fonts of a family.
pub mod duplicated_names;
pub mod equal_numbers_of_glyphs;
pub mod tnum_horizontal_metrics;
