//! Streaming filter for SQL dump files: classifies each line, tracks which
//! table the dump is currently emitting, decides which lines are forwarded,
//! and reports how long each table-definition and row-insertion phase took.
use vstd::prelude::*;

pub mod classify;
pub mod exclusions;
pub mod pass;
pub mod report;
pub mod text;
pub mod tracker;

verus! {

} // verus!
