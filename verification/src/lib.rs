//! Longest-common-subsequence diff between two sequences.
//!
//! `diff` compares an `old` and a `new` sequence of elements and returns an
//! ordered edit script of `Removed`, `Common` and `Added` records that turns
//! the old sequence into the new one.  The exact script — including which of
//! several minimal scripts is produced — is pinned down by the specification
//! function `model::diff_spec`.

use vstd::prelude::*;

pub mod engine;
pub mod laws;
pub mod lcs_facts;
pub mod model;
pub mod run_facts;
pub mod table;

pub use engine::diff;
pub use table::create_table;

verus! {

/// One unit of a diff result: the position of the element in the old
/// sequence (absent when the element was purely inserted), its position in
/// the new sequence (absent when it was purely removed), and a copy of the
/// element itself.
#[derive(Debug, PartialEq)]
pub struct DiffElement<T: PartialEq + Clone> {
    pub old_index: Option<usize>,
    pub new_index: Option<usize>,
    pub data: T,
}

/// A tagged diff record: the element was removed from the old sequence,
/// is common to both, or was added by the new sequence.
#[derive(Debug, PartialEq)]
pub enum DiffResult<T: PartialEq + Clone> {
    Removed(DiffElement<T>),
    Common(DiffElement<T>),
    Added(DiffElement<T>),
}

} // verus!
