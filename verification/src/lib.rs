//! Directory fan-out command runner.
//!
//! Given the immediate subdirectories of a base directory, the library
//! decides which of them are runnable project roots, orders them
//! deterministically, and drives one command dispatch per qualifying
//! directory, producing the exact report lines and exit codes along the way.
//! All filesystem probing, process spawning and printing is left to the
//! binary around it; the library works on plain values and is verified.

use vstd::prelude::*;

pub mod order;
pub mod report;
pub mod run;
pub mod scan;

verus! {

/// The skip decision for one candidate directory: it is excluded when a
/// marker file sits inside it or a sibling marker file stands next to it
/// in the base directory. Either signal alone suffices.
pub fn should_skip(internal_marker: bool, sibling_marker: bool) -> (skip: bool)
    ensures
        skip == (internal_marker || sibling_marker),
{
    internal_marker || sibling_marker
}

} // verus!
