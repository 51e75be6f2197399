//! A research bridge that hands web research to a dedicated Hermes agent
//! profile over MCP, and the installer that wires it into DSH.
//!
//! The functions here carry contracts that Verus proves, apart from a few
//! small wrappers around `String::push`, the clock, `uuid`, `sha2`
//! and `semver` whose contracts are trusted.  File, process and network I/O
//! happen in the application around this library.
use vstd::prelude::*;

pub mod config;
pub mod doctor;
pub mod error;
pub mod fsutil;
pub mod hermes;
pub mod install;
pub mod json;
pub mod paths;
pub mod process;
pub mod prompts;
pub mod research;
pub mod text;
pub mod tools;
pub mod transaction;
pub mod update;
pub mod yaml;

verus! {
}
