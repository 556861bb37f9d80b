//! Worktree management logic: parsing of git's porcelain output, path
//! inference, worktree resolution and the safety rules of each command.
pub mod cli;
pub mod cmd;
pub mod error;
pub mod git;
pub mod laws;
pub mod models;
pub mod output;
pub mod paths;
pub mod text;
