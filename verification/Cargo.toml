[package]
name = "git_worktree_smart"
version = "0.1.0"
edition = "2021"
publish = false

[dependencies]
clap = { version = "4", features = ["derive"] }
comfy-table = "7"
dirs = "5"
dunce = "1"
fuzzy-matcher = "0.3"
owo-colors = "4"
serde = { version = "1", features = ["derive"] }
serde_json = "1"
thiserror = "1"
