//! The constraint aggregator: one validation run over a puzzle/solution
//! pair.
//!
//! [`validate`] runs the four checkers against a fresh ledger and asks the
//! substrate for the single aggregate verdict; it never reports which
//! constraint failed. [`check_helper`] wraps it with the configuration and
//! dimension checks that must abort before any constraint is recorded.

use vstd::prelude::*;

use crate::checkers::{check_cols, check_consistency, check_rows, check_subgrids};
use crate::config::{Config, ConfigError};
use crate::grid::{grid_wf, valid_solution};
use crate::ledger::Ledger;
use crate::Verdict;

verus! {

/// A puzzle grid: each cell either blank (zero) or a fixed clue. A public
/// input of the run — its contents are visible to whoever checks the
/// constraints.
pub struct Puzzle {
    cells: Vec<Vec<u8>>,
}

/// A claimed solution grid. A witness of the run — only constraints derived
/// from it are exposed, never the contents themselves.
pub struct Solution {
    cells: Vec<Vec<u8>>,
}

impl View for Puzzle {
    type V = Seq<Seq<u8>>;

    closed spec fn view(&self) -> Seq<Seq<u8>> {
        self.cells.deep_view()
    }
}

impl View for Solution {
    type V = Seq<Seq<u8>>;

    closed spec fn view(&self) -> Seq<Seq<u8>> {
        self.cells.deep_view()
    }
}

/// Whether the rows of `g` form an `n × n` grid.
fn rows_are_square(g: &Vec<Vec<u8>>, n: usize) -> (b: bool)
    ensures
        b == grid_wf(g.deep_view(), n as nat),
{
    if g.len() != n {
        return false;
    }
    for i in 0..n
        invariant
            g@.len() == n,
            forall|k: int| 0 <= k < i ==> (#[trigger] g.deep_view()[k]).len() == n,
    {
        if g[i].len() != n {
            assert(g.deep_view()[i as int].len() != n);
            return false;
        }
        assert(g.deep_view()[i as int].len() == n);
    }
    true
}

impl Puzzle {
    /// Wrap a grid of raw clue values; zero means blank.
    pub fn new(cells: Vec<Vec<u8>>) -> (p: Puzzle)
        ensures
            p@ == cells.deep_view(),
    {
        Puzzle { cells }
    }

    /// Whether the puzzle is an `n × n` grid.
    pub fn is_square(&self, n: usize) -> (b: bool)
        ensures
            b == grid_wf(self@, n as nat),
    {
        rows_are_square(&self.cells, n)
    }
}

impl Solution {
    /// Wrap a grid of raw claimed values.
    pub fn new(cells: Vec<Vec<u8>>) -> (s: Solution)
        ensures
            s@ == cells.deep_view(),
    {
        Solution { cells }
    }

    /// Whether the solution is an `n × n` grid.
    pub fn is_square(&self, n: usize) -> (b: bool)
        ensures
            b == grid_wf(self@, n as nat),
    {
        rows_are_square(&self.cells, n)
    }
}

/// Run all four checkers against one puzzle/solution pair, with every
/// comparison recorded in one ledger; the overall answer is
/// `Valid` exactly when the solution is a valid completion of the puzzle.
pub fn validate(cfg: &Config, puzzle: &Puzzle, solution: &Solution) -> (v: Verdict)
    requires
        cfg.wf(),
        grid_wf(puzzle@, cfg.n as nat),
        grid_wf(solution@, cfg.n as nat),
    ensures
        v == Verdict::Valid <==> valid_solution(puzzle@, solution@, cfg.n as nat, cfg.sg_n as int),
{
    let mut l = Ledger::new();
    l.alloc_puzzle(&puzzle.cells);
    l.alloc_solution(&solution.cells);
    check_consistency(&mut l, cfg);
    check_rows(&mut l, cfg);
    check_cols(&mut l, cfg);
    check_subgrids(&mut l, cfg);
    if l.is_satisfiable() {
        Verdict::Valid
    } else {
        Verdict::Invalid
    }
}

/// Validate the configuration and the grid dimensions, then run
/// [`validate`]. Configuration and dimension errors abort before any
/// constraint is recorded; an invalid solution is the `Invalid` verdict,
/// never an error.
pub fn check_helper(n: usize, sg_n: usize, puzzle: &Puzzle, solution: &Solution) -> (r: Result<
    Verdict,
    ConfigError,
>)
    ensures
        r is Ok <==> (sg_n <= 15 && n == sg_n * sg_n && grid_wf(puzzle@, n as nat) && grid_wf(
            solution@,
            n as nat,
        )),
        r matches Ok(v) ==> (v == Verdict::Valid <==> valid_solution(
            puzzle@,
            solution@,
            n as nat,
            sg_n as int,
        )),
        r == Result::<Verdict, ConfigError>::Err(ConfigError::ValueDomainExceeded) <==> (sg_n > 15
            && n == sg_n * sg_n),
        r == Result::<Verdict, ConfigError>::Err(ConfigError::NotSubgridSquare) <==> n != sg_n
            * sg_n,
        r == Result::<Verdict, ConfigError>::Err(ConfigError::DimensionMismatch) <==> (sg_n <= 15
            && n == sg_n * sg_n && !(grid_wf(puzzle@, n as nat) && grid_wf(solution@, n as nat))),
{
    let cfg = match Config::new(n, sg_n) {
        Ok(cfg) => cfg,
        Err(e) => {
            return Err(e);
        },
    };
    if !puzzle.is_square(n) || !solution.is_square(n) {
        return Err(ConfigError::DimensionMismatch);
    }
    Ok(validate(&cfg, puzzle, solution))
}

} // verus!
