//! Line-by-line comparison of two sorted inputs: every line is classified as
//! found only in the first input, only in the second, or in both.
//!
//! - `config`: how lines are compared and which columns are shown;
//! - `order`: the order of texts that the comparison uses;
//! - `row`: a classified line and how it is written out;
//! - `merge`: the merge itself, as a model, as a state machine that is fed
//!   line by line, and as an engine over lines held in memory;
//! - `laws`: what holds of every merge.

pub mod config;
pub mod laws;
pub mod merge;
pub mod order;
pub mod row;

pub use crate::config::{Config, CreateConfig};
pub use crate::merge::{
    Fetched, FileLines, FilePair, FilePairLinesIterator, LineReadError, MergeState,
};
pub use crate::row::ResultRow;
