//! A registry of compiled guest modules and the pipeline that runs one of them
//! with captured standard output.
//!
//! A host scans a directory into [`DirectoryEntry`] values and hands them to
//! [`WASMEngine::load`], which compiles the guest binaries among them and
//! registers each under the stem of its file name. [`WASMEngine::call`] runs a
//! registered module in a context of its own and returns what it wrote to its
//! standard output.

pub mod engine;
pub mod laws;
pub mod outcome;
pub mod path;
pub mod runtime;
pub mod source;

pub use crate::engine::WASMEngine;
pub use crate::outcome::{CallError, RunOutcome};
pub use crate::source::{DirectoryEntry, LoadStatus};
