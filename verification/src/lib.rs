//! Decision logic of a file-backup agent that mirrors local files into a
//! remote repository: which discovered files are eligible, where they land in
//! the working copy, and which version-control operation follows which.

pub mod cli;
pub mod clock;
pub mod config;
pub mod git;
pub mod locations;
pub mod logger;
pub mod orchestrator;
pub mod path;
pub mod scanner;
pub mod scheduler;
pub mod text;
pub mod trust;
