//! Popcorn: the rules behind a small package manager for command-line
//! "kernels" — how its config is checked, how its build and husk commands
//! are formed, how shell start-up files and the versions cache are edited,
//! and how a theatre link is read.

pub mod text;
pub mod checksum;
pub mod versions;
pub mod shellrc;
pub mod paths;
pub mod config;
pub mod kernel;
pub mod theatre;
pub mod print;
pub mod cli;
pub mod watch;
pub mod util;
