//! A validity-constraint compiler for generalized Sudoku: given a puzzle
//! (a partially filled grid, zero meaning blank) and a claimed solution (a
//! fully filled grid), it records one boolean constraint per comparison in
//! an arkworks constraint system and reports whether the whole system is
//! satisfiable — which holds exactly when the solution is a valid
//! completion of the puzzle on an `n × n` grid cut into `sg_n × sg_n`
//! subgrids, `n == sg_n * sg_n`.
//!
//! The puzzle is allocated as a public input, the solution as a private
//! witness, so the verdict never reveals which constraint failed. The
//! checkers and the aggregate verdict are verified against the grid model
//! in [`grid`]; only the thin substrate boundary in [`ledger`] is trusted.

#![verifier::loop_isolation(false)]

pub mod checkers;
pub mod config;
pub mod grid;
pub mod laws;
pub mod ledger;
pub mod validate;

use vstd::prelude::*;

verus! {

/// Verdict of a whole validation run: either every recorded constraint is
/// satisfied, or at least one is violated.
#[derive(Clone, Copy, Debug, PartialEq, Eq, Structural)]
pub enum Verdict {
    Valid,
    Invalid,
}

} // verus!
