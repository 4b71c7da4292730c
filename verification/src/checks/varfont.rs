pub mod axes_have_variation;
pub mod fvar_axes_order;
