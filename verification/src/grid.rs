//! Mathematical model of generalized Sudoku grids and of what it means for a
//! claimed solution to be a valid completion of a puzzle.
//!
//! A grid is modelled as a sequence of rows, each a sequence of `u8` cell
//! values. Zero marks a blank puzzle cell; solution values are expected to
//! lie in `[1, n]`.

use vstd::prelude::*;

verus! {

/// The grid is square with side `n`.
pub open spec fn grid_wf(g: Seq<Seq<u8>>, n: nat) -> bool {
    &&& g.len() == n
    &&& forall|i: int| 0 <= i < n ==> (#[trigger] g[i]).len() == n
}

/// A solution value must lie in `[1, n]`.
pub open spec fn in_range(v: u8, n: nat) -> bool {
    1 <= v && v <= n
}

/// Every cell of the solution lies in `[1, n]`.
pub open spec fn range_ok(s: Seq<Seq<u8>>, n: nat) -> bool {
    forall|i: int, j: int| 0 <= i < n && 0 <= j < n ==> in_range(#[trigger] s[i][j], n)
}

/// Every puzzle cell is either blank (zero) or agrees with the solution.
pub open spec fn consistency_ok(p: Seq<Seq<u8>>, s: Seq<Seq<u8>>, n: nat) -> bool {
    forall|i: int, j: int|
        0 <= i < n && 0 <= j < n ==> (#[trigger] p[i][j] == s[i][j] || p[i][j] == 0)
}

/// Within each row, all values are pairwise distinct.
pub open spec fn rows_ok(s: Seq<Seq<u8>>, n: nat) -> bool {
    forall|r: int, j: int, k: int|
        0 <= r < n && 0 <= k < j < n ==> #[trigger] s[r][j] != #[trigger] s[r][k]
}

/// Within each column, all values are pairwise distinct.
pub open spec fn cols_ok(s: Seq<Seq<u8>>, n: nat) -> bool {
    forall|c: int, i: int, k: int|
        0 <= c < n && 0 <= k < i < n ==> #[trigger] s[i][c] != #[trigger] s[k][c]
}

/// The cell of the subgrid (block) at block row `br`, block column `bc`,
/// offset `(i, j)` within the block, for blocks of side `sg`.
pub open spec fn block_cell(s: Seq<Seq<u8>>, sg: int, br: int, bc: int, i: int, j: int) -> u8 {
    s[br * sg + i][bc * sg + j]
}

/// Within the block at `(br, bc)`, all values are pairwise distinct.
pub open spec fn subgrid_ok(s: Seq<Seq<u8>>, sg: int, br: int, bc: int) -> bool {
    forall|i1: int, j1: int, i2: int, j2: int|
        0 <= i1 < sg && 0 <= j1 < sg && 0 <= i2 < sg && 0 <= j2 < sg && (i1 != i2 || j1 != j2)
            ==> #[trigger] block_cell(s, sg, br, bc, i1, j1)
                != #[trigger] block_cell(s, sg, br, bc, i2, j2)
}

/// Every one of the `sg × sg` blocks holds pairwise distinct values.
pub open spec fn subgrids_ok(s: Seq<Seq<u8>>, sg: int) -> bool {
    forall|br: int, bc: int| 0 <= br < sg && 0 <= bc < sg ==> #[trigger] subgrid_ok(s, sg, br, bc)
}

/// The solution `s` is a valid completion of the puzzle `p` on an `n × n`
/// grid with blocks of side `sg`: every cell is in range, every non-blank
/// clue is respected, and rows, columns and subgrids hold no duplicate.
pub open spec fn valid_solution(p: Seq<Seq<u8>>, s: Seq<Seq<u8>>, n: nat, sg: int) -> bool {
    &&& range_ok(s, n)
    &&& consistency_ok(p, s, n)
    &&& rows_ok(s, n)
    &&& cols_ok(s, n)
    &&& subgrids_ok(s, sg)
}

/// Every cell of the puzzle is blank.
pub open spec fn blank_puzzle(p: Seq<Seq<u8>>, n: nat) -> bool {
    forall|i: int, j: int| 0 <= i < n && 0 <= j < n ==> #[trigger] p[i][j] == 0
}

} // verus!
