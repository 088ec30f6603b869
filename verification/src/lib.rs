//! Bundles the text files of a directory tree into one output, each file
//! under a header of its own.
//!
//! The library works on plain values: the configuration, the rule set of the
//! root directory and the entries that a walk met. It decides which entries
//! are traversed and rendered, formats their blocks, and names the output
//! file. Walking the file system, reading files and writing the output is
//! left to the caller.
pub mod config;
pub mod decorate;
pub mod driver;
pub mod entry;
pub mod laws;
pub mod paths;
pub mod pipeline;
pub mod render;
pub mod rules;
pub mod text;

pub use config::{Config, Format};
pub use decorate::{HeadLookup, RunError};
pub use driver::{run, Bundle};
pub use entry::Entry;
