//! The decisions of each command, apart from the I/O that feeds them.
pub mod add;
pub mod list;
pub mod prune;
pub mod remove;
