pub mod generic;
pub mod no_generic;
