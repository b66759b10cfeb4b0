pub mod common;
pub mod constraint;
