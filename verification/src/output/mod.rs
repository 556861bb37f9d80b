//! How results are presented.
pub mod human;
