//! Incremental, rule-driven content build pipeline.
//!
//! The library walks a tree of source documents, matches each against an
//! ordered set of rules, and produces derived output files by running each
//! matched document through a chain of external filter programs and text
//! templates, skipping work for files unchanged since the last run.

use vstd::prelude::*;

mod chars;
pub mod builder;
pub mod cache;
pub mod command;
pub mod filepath;
pub mod filter;
pub mod hashing;
pub mod meta;
pub mod num;
pub mod rule;
pub mod tempfile;
pub mod template;
pub mod text;

pub use chars::to_chars;
pub use chars::from_chars;

verus! {

} // verus!
