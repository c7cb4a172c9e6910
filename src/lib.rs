//! Generation of pseudo-array record declarations: records with many
//! structurally identical fields, each named after the base62 numeral of its
//! index and carrying that numeral as its serialization key.
pub mod base62;
pub mod text;
pub mod arguments;
pub mod fields;
pub mod skeleton;
pub mod render;

pub use skeleton::faux_array;
