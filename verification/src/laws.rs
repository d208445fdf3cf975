//! The guarantees of the validity predicate, stated and proved once, so
//! that every verdict of [`crate::validate::validate`] — whose contract is
//! exactly the predicate — inherits them.

use vstd::prelude::*;

use crate::grid::{
    blank_puzzle, block_cell, cols_ok, consistency_ok, in_range, range_ok, rows_ok, subgrid_ok,
    subgrids_ok, valid_solution,
};
use crate::Verdict;

verus! {

/// A valid completed grid is accepted against a blank puzzle: blank clues
/// constrain nothing.
pub proof fn lemma_blank_puzzle_accepts(p: Seq<Seq<u8>>, s: Seq<Seq<u8>>, n: nat, sg: int)
    requires
        blank_puzzle(p, n),
        range_ok(s, n),
        rows_ok(s, n),
        cols_ok(s, n),
        subgrids_ok(s, sg),
    ensures
        valid_solution(p, s, n, sg),
{
    assert forall|i: int, j: int| 0 <= i < n && 0 <= j < n implies (#[trigger] p[i][j] == s[i][j]
        || p[i][j] == 0) by {
        assert(p[i][j] == 0);
    }
}

/// A valid completed grid that agrees with every non-blank clue is
/// accepted.
pub proof fn lemma_matching_clues_accepts(p: Seq<Seq<u8>>, s: Seq<Seq<u8>>, n: nat, sg: int)
    requires
        consistency_ok(p, s, n),
        range_ok(s, n),
        rows_ok(s, n),
        cols_ok(s, n),
        subgrids_ok(s, sg),
    ensures
        valid_solution(p, s, n, sg),
{
}

/// A duplicated value within a row is rejected, whatever the puzzle.
pub proof fn lemma_row_duplicate_rejects(
    p: Seq<Seq<u8>>,
    s: Seq<Seq<u8>>,
    n: nat,
    sg: int,
    r: int,
    j: int,
    k: int,
)
    requires
        0 <= r < n,
        0 <= k < j < n,
        s[r][j] == s[r][k],
    ensures
        !valid_solution(p, s, n, sg),
{
    if rows_ok(s, n) {
        assert(s[r][j] != s[r][k]);
    }
}

/// A duplicated value within a column is rejected, whatever the puzzle.
pub proof fn lemma_col_duplicate_rejects(
    p: Seq<Seq<u8>>,
    s: Seq<Seq<u8>>,
    n: nat,
    sg: int,
    c: int,
    i: int,
    k: int,
)
    requires
        0 <= c < n,
        0 <= k < i < n,
        s[i][c] == s[k][c],
    ensures
        !valid_solution(p, s, n, sg),
{
    if cols_ok(s, n) {
        assert(s[i][c] != s[k][c]);
    }
}

/// A duplicated value within a subgrid is rejected, whatever the puzzle:
/// the cells at offsets `(i1, j1)` and `(i2, j2)` of the block at
/// `(br, bc)` are distinct cells holding the same value.
pub proof fn lemma_subgrid_duplicate_rejects(
    p: Seq<Seq<u8>>,
    s: Seq<Seq<u8>>,
    n: nat,
    sg: int,
    br: int,
    bc: int,
    i1: int,
    j1: int,
    i2: int,
    j2: int,
)
    requires
        0 <= br < sg,
        0 <= bc < sg,
        0 <= i1 < sg,
        0 <= j1 < sg,
        0 <= i2 < sg,
        0 <= j2 < sg,
        i1 != i2 || j1 != j2,
        block_cell(s, sg, br, bc, i1, j1) == block_cell(s, sg, br, bc, i2, j2),
    ensures
        !valid_solution(p, s, n, sg),
{
    if subgrids_ok(s, sg) {
        assert(subgrid_ok(s, sg, br, bc));
        assert(block_cell(s, sg, br, bc, i1, j1) != block_cell(s, sg, br, bc, i2, j2));
    }
}

/// A solution cell outside `[1, n]` is rejected, whatever the puzzle.
pub proof fn lemma_out_of_range_rejects(
    p: Seq<Seq<u8>>,
    s: Seq<Seq<u8>>,
    n: nat,
    sg: int,
    i: int,
    j: int,
)
    requires
        0 <= i < n,
        0 <= j < n,
        !in_range(s[i][j], n),
    ensures
        !valid_solution(p, s, n, sg),
{
    if range_ok(s, n) {
        assert(in_range(s[i][j], n));
    }
}

/// A non-blank clue that disagrees with the solution at the same position
/// is rejected.
pub proof fn lemma_clue_mismatch_rejects(
    p: Seq<Seq<u8>>,
    s: Seq<Seq<u8>>,
    n: nat,
    sg: int,
    i: int,
    j: int,
)
    requires
        0 <= i < n,
        0 <= j < n,
        p[i][j] != 0,
        p[i][j] != s[i][j],
    ensures
        !valid_solution(p, s, n, sg),
{
    if consistency_ok(p, s, n) {
        assert(p[i][j] == s[i][j] || p[i][j] == 0);
    }
}

/// Validation is deterministic: any two verdicts whose value is pinned to
/// the validity of the same pair — as the contract of
/// [`crate::validate::validate`] pins every verdict it returns — agree, so
/// running validation twice yields the same verdict.
pub proof fn lemma_verdict_deterministic(
    p: Seq<Seq<u8>>,
    s: Seq<Seq<u8>>,
    n: nat,
    sg: int,
    v1: Verdict,
    v2: Verdict,
)
    requires
        v1 == Verdict::Valid <==> valid_solution(p, s, n, sg),
        v2 == Verdict::Valid <==> valid_solution(p, s, n, sg),
    ensures
        v1 == v2,
{
    match v1 {
        Verdict::Valid => {},
        Verdict::Invalid => {
            match v2 {
                Verdict::Valid => {},
                Verdict::Invalid => {},
            }
        },
    }
}

} // verus!
