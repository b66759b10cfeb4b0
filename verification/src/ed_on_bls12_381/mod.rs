pub mod circuit;
pub mod common;
