//! Reading git's output and deciding what to ask git next.
pub mod command;
pub mod ops;
pub mod parse;
pub mod probe;
pub mod resolve;
