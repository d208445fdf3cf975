//! The four constraint-emitting passes over a puzzle/solution pair.
//!
//! Each checker walks the grids held by the ledger and records one boolean
//! assertion per comparison; none of them decides anything itself. The
//! contracts state exactly which conjunction of facts the recorded
//! assertions add to the ledger's satisfiability.

use vstd::prelude::*;

use crate::config::Config;
use crate::grid::{
    block_cell, cols_ok, consistency_ok, grid_wf, in_range, range_ok, rows_ok, subgrid_ok,
    subgrids_ok,
};
use crate::ledger::{ledger_sat, ledger_wf, puzzle_values, solution_values, Ledger};

verus! {

/// The range and consistency facts of one cell: the solution value is in
/// `[1, n]`, and the puzzle cell is blank or agrees with the solution.
spec fn cell_ok(p: Seq<Seq<u8>>, s: Seq<Seq<u8>>, n: nat, i: int, j: int) -> bool {
    &&& in_range(s[i][j], n)
    &&& (p[i][j] == s[i][j] || p[i][j] == 0)
}

/// `cell_ok` holds for every cell before `(i_hi, j_hi)` in row-major order.
spec fn cells_ok_before(
    p: Seq<Seq<u8>>,
    s: Seq<Seq<u8>>,
    n: nat,
    i_hi: int,
    j_hi: int,
) -> bool {
    forall|i: int, j: int|
        0 <= i && 0 <= j < n && (i < i_hi || (i == i_hi && j < j_hi)) ==> #[trigger] cell_ok(
            p,
            s,
            n,
            i,
            j,
        )
}

proof fn lemma_cells_ok_full(p: Seq<Seq<u8>>, s: Seq<Seq<u8>>, n: nat)
    ensures
        cells_ok_before(p, s, n, n as int, 0) == (range_ok(s, n) && consistency_ok(p, s, n)),
{
    if cells_ok_before(p, s, n, n as int, 0) {
        assert forall|i: int, j: int| 0 <= i < n && 0 <= j < n implies in_range(
            #[trigger] s[i][j],
            n,
        ) by {
            assert(cell_ok(p, s, n, i, j));
        }
        assert forall|i: int, j: int| 0 <= i < n && 0 <= j < n implies (#[trigger] p[i][j]
            == s[i][j] || p[i][j] == 0) by {
            assert(cell_ok(p, s, n, i, j));
        }
    }
    if range_ok(s, n) && consistency_ok(p, s, n) {
        assert forall|i: int, j: int|
            0 <= i && 0 <= j < n && (i < n || (i == n && j < 0)) implies #[trigger] cell_ok(
            p,
            s,
            n,
            i,
            j,
        ) by {
            assert(in_range(s[i][j], n));
            assert(p[i][j] == s[i][j] || p[i][j] == 0);
        }
    }
}

/// Range and consistency checker: for every cell, enforce that the solution
/// value lies in `[1, n]` and that the puzzle cell is blank or agrees with
/// the solution cell.
pub fn check_consistency(l: &mut Ledger, cfg: &Config)
    requires
        ledger_wf(*old(l)),
        cfg.wf(),
        grid_wf(puzzle_values(*old(l)), cfg.n as nat),
        grid_wf(solution_values(*old(l)), cfg.n as nat),
    ensures
        ledger_wf(*final(l)),
        puzzle_values(*final(l)) == puzzle_values(*old(l)),
        solution_values(*final(l)) == solution_values(*old(l)),
        ledger_sat(*final(l)) == (ledger_sat(*old(l)) && range_ok(
            solution_values(*old(l)),
            cfg.n as nat,
        ) && consistency_ok(puzzle_values(*old(l)), solution_values(*old(l)), cfg.n as nat)),
{
    let ghost l0 = *l;
    let ghost pv = puzzle_values(*old(l));
    let ghost sv = solution_values(*old(l));
    let ghost n_spec = cfg.n as nat;
    let n = cfg.n;
    let bound: u8 = n as u8;
    for i in 0..n
        invariant
            ledger_wf(*l),
            puzzle_values(*l) == pv,
            solution_values(*l) == sv,
            ledger_sat(*l) == (ledger_sat(l0) && cells_ok_before(pv, sv, n_spec, i as int, 0)),
    {
        for j in 0..n
            invariant
                ledger_wf(*l),
                puzzle_values(*l) == pv,
                solution_values(*l) == sv,
                ledger_sat(*l) == (ledger_sat(l0) && cells_ok_before(
                    pv,
                    sv,
                    n_spec,
                    i as int,
                    j as int,
                )),
        {
            l.enforce_solution_cell_in_range(i, j, bound);
            l.enforce_clue_consistent(i, j);
            proof {
                assert(cells_ok_before(pv, sv, n_spec, i as int, j + 1) == (cells_ok_before(
                    pv,
                    sv,
                    n_spec,
                    i as int,
                    j as int,
                ) && cell_ok(pv, sv, n_spec, i as int, j as int))) by {
                    if cells_ok_before(pv, sv, n_spec, i as int, j as int) && cell_ok(
                        pv,
                        sv,
                        n_spec,
                        i as int,
                        j as int,
                    ) {
                        assert forall|i2: int, j2: int|
                            0 <= i2 && 0 <= j2 < n_spec && (i2 < i || (i2 == i && j2 < j
                                + 1)) implies #[trigger] cell_ok(pv, sv, n_spec, i2, j2) by {
                            if i2 == i && j2 == j {
                            } else {
                                assert(cell_ok(pv, sv, n_spec, i2, j2));
                            }
                        }
                    }
                }
            }
        }
        proof {
            assert(cells_ok_before(pv, sv, n_spec, i + 1, 0) == cells_ok_before(
                pv,
                sv,
                n_spec,
                i as int,
                n as int,
            )) by {
                if cells_ok_before(pv, sv, n_spec, i as int, n as int) {
                    assert forall|i2: int, j2: int|
                        0 <= i2 && 0 <= j2 < n_spec && (i2 < i + 1 || (i2 == i + 1 && j2
                            < 0)) implies #[trigger] cell_ok(pv, sv, n_spec, i2, j2) by {
                        assert(cell_ok(pv, sv, n_spec, i2, j2));
                    }
                }
            }
        }
    }
    proof {
        lemma_cells_ok_full(pv, sv, n_spec);
    }
}

/// The pairs of columns `(j, k)` with `k < j` that come before `(j_hi, k_hi)`
/// in the checker's iteration order all hold distinct values in row `r`.
spec fn row_pairs_before(s: Seq<Seq<u8>>, r: int, j_hi: int, k_hi: int) -> bool {
    forall|j: int, k: int|
        0 <= k < j && (j < j_hi || (j == j_hi && k < k_hi)) ==> #[trigger] s[r][j]
            != #[trigger] s[r][k]
}

/// Every row before `r_hi` holds pairwise distinct values.
spec fn rows_done(s: Seq<Seq<u8>>, n: nat, r_hi: int) -> bool {
    forall|r: int, j: int, k: int|
        0 <= r < r_hi && 0 <= k < j < n ==> #[trigger] s[r][j] != #[trigger] s[r][k]
}

/// Row uniqueness checker: for each row, enforce pairwise distinctness of
/// all its values, comparing each cell against every earlier cell of the
/// same row.
pub fn check_rows(l: &mut Ledger, cfg: &Config)
    requires
        ledger_wf(*old(l)),
        cfg.wf(),
        grid_wf(solution_values(*old(l)), cfg.n as nat),
    ensures
        ledger_wf(*final(l)),
        puzzle_values(*final(l)) == puzzle_values(*old(l)),
        solution_values(*final(l)) == solution_values(*old(l)),
        ledger_sat(*final(l)) == (ledger_sat(*old(l)) && rows_ok(
            solution_values(*old(l)),
            cfg.n as nat,
        )),
{
    let ghost l0 = *l;
    let ghost pv = puzzle_values(*l);
    let ghost sv = solution_values(*l);
    let ghost nn = cfg.n as nat;
    let n = cfg.n;
    for r in 0..n
        invariant
            ledger_wf(*l),
            puzzle_values(*l) == pv,
            solution_values(*l) == sv,
            ledger_sat(*l) == (ledger_sat(l0) && rows_done(sv, nn, r as int)),
    {
        for j in 0..n
            invariant
                ledger_wf(*l),
                puzzle_values(*l) == pv,
                solution_values(*l) == sv,
                ledger_sat(*l) == (ledger_sat(l0) && rows_done(sv, nn, r as int)
                    && row_pairs_before(sv, r as int, j as int, 0)),
        {
            for k in 0..j
                invariant
                    ledger_wf(*l),
                    puzzle_values(*l) == pv,
                    solution_values(*l) == sv,
                    ledger_sat(*l) == (ledger_sat(l0) && rows_done(sv, nn, r as int)
                        && row_pairs_before(sv, r as int, j as int, k as int)),
            {
                l.enforce_solution_cells_differ(r, j, r, k);
                proof {
                    assert(row_pairs_before(sv, r as int, j as int, k + 1) == (row_pairs_before(
                        sv,
                        r as int,
                        j as int,
                        k as int,
                    ) && sv[r as int][j as int] != sv[r as int][k as int])) by {
                        if row_pairs_before(sv, r as int, j as int, k as int) && sv[r as int][j as int]
                            != sv[r as int][k as int] {
                            assert forall|j2: int, k2: int|
                                0 <= k2 < j2 && (j2 < j || (j2 == j && k2 < k
                                    + 1)) implies #[trigger] sv[r as int][j2]
                                != #[trigger] sv[r as int][k2] by {
                                if j2 == j && k2 == k {
                                } else {
                                    assert(row_pairs_before(sv, r as int, j as int, k as int));
                                }
                            }
                        }
                    }
                }
            }
            proof {
                assert(row_pairs_before(sv, r as int, j + 1, 0) == row_pairs_before(
                    sv,
                    r as int,
                    j as int,
                    j as int,
                )) by {
                    if row_pairs_before(sv, r as int, j as int, j as int) {
                        assert forall|j2: int, k2: int|
                            0 <= k2 < j2 && (j2 < j + 1 || (j2 == j + 1 && k2
                                < 0)) implies #[trigger] sv[r as int][j2]
                            != #[trigger] sv[r as int][k2] by {}
                    }
                }
            }
        }
        proof {
            assert(rows_done(sv, nn, r + 1) == (rows_done(sv, nn, r as int) && row_pairs_before(
                sv,
                r as int,
                n as int,
                0,
            ))) by {
                if rows_done(sv, nn, r as int) && row_pairs_before(sv, r as int, n as int, 0) {
                    assert forall|r2: int, j2: int, k2: int|
                        0 <= r2 < r + 1 && 0 <= k2 < j2 < nn implies #[trigger] sv[r2][j2]
                        != #[trigger] sv[r2][k2] by {}
                }
            }
        }
    }
}

/// The pairs of rows `(i, k)` with `k < i` that come before `(i_hi, k_hi)`
/// in the checker's iteration order all hold distinct values in column `c`.
spec fn col_pairs_before(s: Seq<Seq<u8>>, c: int, i_hi: int, k_hi: int) -> bool {
    forall|i: int, k: int|
        0 <= k < i && (i < i_hi || (i == i_hi && k < k_hi)) ==> #[trigger] s[i][c]
            != #[trigger] s[k][c]
}

/// Every column before `c_hi` holds pairwise distinct values.
spec fn cols_done(s: Seq<Seq<u8>>, n: nat, c_hi: int) -> bool {
    forall|c: int, i: int, k: int|
        0 <= c < c_hi && 0 <= k < i < n ==> #[trigger] s[i][c] != #[trigger] s[k][c]
}

/// Column uniqueness checker: the symmetric pass to [`check_rows`], with
/// rows and columns swapped.
pub fn check_cols(l: &mut Ledger, cfg: &Config)
    requires
        ledger_wf(*old(l)),
        cfg.wf(),
        grid_wf(solution_values(*old(l)), cfg.n as nat),
    ensures
        ledger_wf(*final(l)),
        puzzle_values(*final(l)) == puzzle_values(*old(l)),
        solution_values(*final(l)) == solution_values(*old(l)),
        ledger_sat(*final(l)) == (ledger_sat(*old(l)) && cols_ok(
            solution_values(*old(l)),
            cfg.n as nat,
        )),
{
    let ghost l0 = *l;
    let ghost pv = puzzle_values(*l);
    let ghost sv = solution_values(*l);
    let ghost nn = cfg.n as nat;
    let n = cfg.n;
    for c in 0..n
        invariant
            ledger_wf(*l),
            puzzle_values(*l) == pv,
            solution_values(*l) == sv,
            ledger_sat(*l) == (ledger_sat(l0) && cols_done(sv, nn, c as int)),
    {
        for i in 0..n
            invariant
                ledger_wf(*l),
                puzzle_values(*l) == pv,
                solution_values(*l) == sv,
                ledger_sat(*l) == (ledger_sat(l0) && cols_done(sv, nn, c as int)
                    && col_pairs_before(sv, c as int, i as int, 0)),
        {
            for k in 0..i
                invariant
                    ledger_wf(*l),
                    puzzle_values(*l) == pv,
                    solution_values(*l) == sv,
                    ledger_sat(*l) == (ledger_sat(l0) && cols_done(sv, nn, c as int)
                        && col_pairs_before(sv, c as int, i as int, k as int)),
            {
                l.enforce_solution_cells_differ(i, c, k, c);
                proof {
                    assert(col_pairs_before(sv, c as int, i as int, k + 1) == (col_pairs_before(
                        sv,
                        c as int,
                        i as int,
                        k as int,
                    ) && sv[i as int][c as int] != sv[k as int][c as int])) by {
                        if col_pairs_before(sv, c as int, i as int, k as int) && sv[i as int][c as int]
                            != sv[k as int][c as int] {
                            assert forall|i2: int, k2: int|
                                0 <= k2 < i2 && (i2 < i || (i2 == i && k2 < k
                                    + 1)) implies #[trigger] sv[i2][c as int]
                                != #[trigger] sv[k2][c as int] by {
                                if i2 == i && k2 == k {
                                } else {
                                    assert(col_pairs_before(sv, c as int, i as int, k as int));
                                }
                            }
                        }
                    }
                }
            }
            proof {
                assert(col_pairs_before(sv, c as int, i + 1, 0) == col_pairs_before(
                    sv,
                    c as int,
                    i as int,
                    i as int,
                )) by {
                    if col_pairs_before(sv, c as int, i as int, i as int) {
                        assert forall|i2: int, k2: int|
                            0 <= k2 < i2 && (i2 < i + 1 || (i2 == i + 1 && k2
                                < 0)) implies #[trigger] sv[i2][c as int]
                            != #[trigger] sv[k2][c as int] by {}
                    }
                }
            }
        }
        proof {
            assert(cols_done(sv, nn, c + 1) == (cols_done(sv, nn, c as int) && col_pairs_before(
                sv,
                c as int,
                n as int,
                0,
            ))) by {
                if cols_done(sv, nn, c as int) && col_pairs_before(sv, c as int, n as int, 0) {
                    assert forall|c2: int, i2: int, k2: int|
                        0 <= c2 < c + 1 && 0 <= k2 < i2 < nn implies #[trigger] sv[i2][c2]
                        != #[trigger] sv[k2][c2] by {}
                }
            }
        }
    }
}

/// The block cell at offset `(i, j)` differs from every block cell visited
/// before `(pi_hi, pj_hi)` in the row-major traversal of the block.
spec fn cell_vs_prior_upto(
    s: Seq<Seq<u8>>,
    sg: int,
    br: int,
    bc: int,
    i: int,
    j: int,
    pi_hi: int,
    pj_hi: int,
) -> bool {
    forall|pi: int, pj: int|
        0 <= pi < sg && 0 <= pj < sg && (pi < pi_hi || (pi == pi_hi && pj < pj_hi))
            ==> #[trigger] block_cell(s, sg, br, bc, pi, pj) != block_cell(s, sg, br, bc, i, j)
}

/// The block cell at offset `(i, j)` differs from every block cell visited
/// before it.
spec fn cell_vs_prior(s: Seq<Seq<u8>>, sg: int, br: int, bc: int, i: int, j: int) -> bool {
    cell_vs_prior_upto(s, sg, br, bc, i, j, i, j)
}

/// [`cell_vs_prior`] holds for every block cell visited before `(i_hi, j_hi)`
/// in the row-major traversal of the block.
spec fn block_cells_done(s: Seq<Seq<u8>>, sg: int, br: int, bc: int, i_hi: int, j_hi: int) -> bool {
    forall|i: int, j: int|
        0 <= i < sg && 0 <= j < sg && (i < i_hi || (i == i_hi && j < j_hi))
            ==> #[trigger] cell_vs_prior(s, sg, br, bc, i, j)
}

/// Comparing each newly visited block cell against all earlier ones yields
/// exactly pairwise distinctness within the block.
proof fn lemma_block_done_subgrid_ok(s: Seq<Seq<u8>>, sg: int, br: int, bc: int)
    ensures
        block_cells_done(s, sg, br, bc, sg, 0) == subgrid_ok(s, sg, br, bc),
{
    if block_cells_done(s, sg, br, bc, sg, 0) {
        assert forall|i1: int, j1: int, i2: int, j2: int|
            0 <= i1 < sg && 0 <= j1 < sg && 0 <= i2 < sg && 0 <= j2 < sg && (i1 != i2 || j1
                != j2) implies #[trigger] block_cell(s, sg, br, bc, i1, j1) != #[trigger] block_cell(
            s,
            sg,
            br,
            bc,
            i2,
            j2,
        ) by {
            if i1 < i2 || (i1 == i2 && j1 < j2) {
                assert(cell_vs_prior(s, sg, br, bc, i2, j2));
                assert(block_cell(s, sg, br, bc, i1, j1) != block_cell(s, sg, br, bc, i2, j2));
            } else {
                assert(cell_vs_prior(s, sg, br, bc, i1, j1));
                assert(block_cell(s, sg, br, bc, i2, j2) != block_cell(s, sg, br, bc, i1, j1));
            }
        }
    }
    if subgrid_ok(s, sg, br, bc) {
        assert forall|i: int, j: int|
            0 <= i < sg && 0 <= j < sg && (i < sg || (i == sg && j < 0)) implies #[trigger] cell_vs_prior(
            s,
            sg,
            br,
            bc,
            i,
            j,
        ) by {
            assert forall|pi: int, pj: int|
                0 <= pi < sg && 0 <= pj < sg && (pi < i || (pi == i && pj
                    < j)) implies #[trigger] block_cell(s, sg, br, bc, pi, pj) != block_cell(
                s,
                sg,
                br,
                bc,
                i,
                j,
            ) by {
                assert(pi != i || pj != j);
            }
        }
    }
}

/// Offsets within a block stay inside the grid: `b * sg + o < sg * sg`.
proof fn lemma_block_index(sg: int, b: int, o: int)
    requires
        0 <= b < sg,
        0 <= o < sg,
    ensures
        0 <= b * sg + o < sg * sg,
{
    assert(0 <= b * sg + o < sg * sg) by (nonlinear_arith)
        requires
            0 <= b < sg,
            0 <= o < sg,
    ;
}

/// Enforce that the block cell at offset `(i, j)` of the block at
/// `(br, bc)` differs from every block cell visited before it in the
/// row-major traversal of the block.
fn enforce_block_cell_against_prior(l: &mut Ledger, cfg: &Config, br: usize, bc: usize, i: usize, j: usize)
    requires
        ledger_wf(*old(l)),
        cfg.wf(),
        grid_wf(solution_values(*old(l)), cfg.n as nat),
        br < cfg.sg_n,
        bc < cfg.sg_n,
        i < cfg.sg_n,
        j < cfg.sg_n,
    ensures
        ledger_wf(*final(l)),
        puzzle_values(*final(l)) == puzzle_values(*old(l)),
        solution_values(*final(l)) == solution_values(*old(l)),
        ledger_sat(*final(l)) == (ledger_sat(*old(l)) && cell_vs_prior(
            solution_values(*old(l)),
            cfg.sg_n as int,
            br as int,
            bc as int,
            i as int,
            j as int,
        )),
{
    let ghost l0 = *l;
    let ghost pv = puzzle_values(*l);
    let ghost sv = solution_values(*l);
    let ghost sg = cfg.sg_n as int;
    proof {
        lemma_block_index(sg, br as int, i as int);
        lemma_block_index(sg, bc as int, j as int);
    }
    let row = br * cfg.sg_n + i;
    let col = bc * cfg.sg_n + j;
    for pi in 0..i
        invariant
            ledger_wf(*l),
            puzzle_values(*l) == pv,
            solution_values(*l) == sv,
            ledger_sat(*l) == (ledger_sat(l0) && cell_vs_prior_upto(
                sv,
                sg,
                br as int,
                bc as int,
                i as int,
                j as int,
                pi as int,
                0,
            )),
    {
        for pj in 0..cfg.sg_n
            invariant
                ledger_wf(*l),
                puzzle_values(*l) == pv,
                solution_values(*l) == sv,
                ledger_sat(*l) == (ledger_sat(l0) && cell_vs_prior_upto(
                    sv,
                    sg,
                    br as int,
                    bc as int,
                    i as int,
                    j as int,
                    pi as int,
                    pj as int,
                )),
        {
            proof {
                lemma_block_index(sg, br as int, pi as int);
                lemma_block_index(sg, bc as int, pj as int);
            }
            let prow = br * cfg.sg_n + pi;
            let pcol = bc * cfg.sg_n + pj;
            l.enforce_solution_cells_differ(prow, pcol, row, col);
            proof {
                lemma_prior_step(sv, sg, br as int, bc as int, i as int, j as int, pi as int, pj as int);
            }
        }
        proof {
            lemma_prior_row_step(sv, sg, br as int, bc as int, i as int, j as int, pi as int);
        }
    }
    for pj in 0..j
        invariant
            ledger_wf(*l),
            puzzle_values(*l) == pv,
            solution_values(*l) == sv,
            ledger_sat(*l) == (ledger_sat(l0) && cell_vs_prior_upto(
                sv,
                sg,
                br as int,
                bc as int,
                i as int,
                j as int,
                i as int,
                pj as int,
            )),
    {
        proof {
            lemma_block_index(sg, bc as int, pj as int);
        }
        let pcol = bc * cfg.sg_n + pj;
        l.enforce_solution_cells_differ(row, pcol, row, col);
        proof {
            lemma_prior_step(sv, sg, br as int, bc as int, i as int, j as int, i as int, pj as int);
        }
    }
}

/// Adding the fact for the prior cell `(pi, pj)` extends the visited prefix
/// by one cell.
proof fn lemma_prior_step(
    s: Seq<Seq<u8>>,
    sg: int,
    br: int,
    bc: int,
    i: int,
    j: int,
    pi: int,
    pj: int,
)
    requires
        0 <= pi < sg,
        0 <= pj < sg,
    ensures
        cell_vs_prior_upto(s, sg, br, bc, i, j, pi, pj + 1) == (cell_vs_prior_upto(
            s,
            sg,
            br,
            bc,
            i,
            j,
            pi,
            pj,
        ) && block_cell(s, sg, br, bc, pi, pj) != block_cell(s, sg, br, bc, i, j)),
{
    if cell_vs_prior_upto(s, sg, br, bc, i, j, pi, pj) && block_cell(s, sg, br, bc, pi, pj)
        != block_cell(s, sg, br, bc, i, j) {
        assert forall|pi2: int, pj2: int|
            0 <= pi2 < sg && 0 <= pj2 < sg && (pi2 < pi || (pi2 == pi && pj2 < pj
                + 1)) implies #[trigger] block_cell(s, sg, br, bc, pi2, pj2) != block_cell(
            s,
            sg,
            br,
            bc,
            i,
            j,
        ) by {
            if pi2 == pi && pj2 == pj {
            } else {
                assert(cell_vs_prior_upto(s, sg, br, bc, i, j, pi, pj));
            }
        }
    }
}

/// Finishing the prior row `pi` moves the visited prefix to the start of
/// the next prior row.
proof fn lemma_prior_row_step(s: Seq<Seq<u8>>, sg: int, br: int, bc: int, i: int, j: int, pi: int)
    ensures
        cell_vs_prior_upto(s, sg, br, bc, i, j, pi + 1, 0) == cell_vs_prior_upto(
            s,
            sg,
            br,
            bc,
            i,
            j,
            pi,
            sg,
        ),
{
    if cell_vs_prior_upto(s, sg, br, bc, i, j, pi, sg) {
        assert forall|pi2: int, pj2: int|
            0 <= pi2 < sg && 0 <= pj2 < sg && (pi2 < pi + 1 || (pi2 == pi + 1 && pj2
                < 0)) implies #[trigger] block_cell(s, sg, br, bc, pi2, pj2) != block_cell(
            s,
            sg,
            br,
            bc,
            i,
            j,
        ) by {}
    }
}

/// The blocks visited before `(br_hi, bc_hi)` in block-row-major order each
/// hold pairwise distinct values.
spec fn subgrids_done(s: Seq<Seq<u8>>, sg: int, br_hi: int, bc_hi: int) -> bool {
    forall|br: int, bc: int|
        0 <= br < sg && 0 <= bc < sg && (br < br_hi || (br == br_hi && bc < bc_hi))
            ==> #[trigger] subgrid_ok(s, sg, br, bc)
}

/// Subgrid uniqueness checker: traverse the blocks in block-row-major
/// order; within each block, visit the cells in row-major order and enforce
/// inequality of each newly visited cell against every cell visited before
/// it in the same block.
pub fn check_subgrids(l: &mut Ledger, cfg: &Config)
    requires
        ledger_wf(*old(l)),
        cfg.wf(),
        grid_wf(solution_values(*old(l)), cfg.n as nat),
    ensures
        ledger_wf(*final(l)),
        puzzle_values(*final(l)) == puzzle_values(*old(l)),
        solution_values(*final(l)) == solution_values(*old(l)),
        ledger_sat(*final(l)) == (ledger_sat(*old(l)) && subgrids_ok(
            solution_values(*old(l)),
            cfg.sg_n as int,
        )),
{
    let ghost l0 = *l;
    let ghost pv = puzzle_values(*l);
    let ghost sv = solution_values(*l);
    let ghost sg = cfg.sg_n as int;
    let sg_n = cfg.sg_n;
    for br in 0..sg_n
        invariant
            ledger_wf(*l),
            puzzle_values(*l) == pv,
            solution_values(*l) == sv,
            ledger_sat(*l) == (ledger_sat(l0) && subgrids_done(sv, sg, br as int, 0)),
    {
        for bc in 0..sg_n
            invariant
                ledger_wf(*l),
                puzzle_values(*l) == pv,
                solution_values(*l) == sv,
                ledger_sat(*l) == (ledger_sat(l0) && subgrids_done(sv, sg, br as int, bc as int)),
        {
            let ghost sat_enter = ledger_sat(*l);
            for i in 0..sg_n
                invariant
                    ledger_wf(*l),
                    puzzle_values(*l) == pv,
                    solution_values(*l) == sv,
                    ledger_sat(*l) == (sat_enter && block_cells_done(
                        sv,
                        sg,
                        br as int,
                        bc as int,
                        i as int,
                        0,
                    )),
            {
                for j in 0..sg_n
                    invariant
                        ledger_wf(*l),
                        puzzle_values(*l) == pv,
                        solution_values(*l) == sv,
                        ledger_sat(*l) == (sat_enter && block_cells_done(
                            sv,
                            sg,
                            br as int,
                            bc as int,
                            i as int,
                            j as int,
                        )),
                {
                    enforce_block_cell_against_prior(l, cfg, br, bc, i, j);
                    proof {
                        lemma_block_cell_step(sv, sg, br as int, bc as int, i as int, j as int);
                    }
                }
                proof {
                    lemma_block_row_step(sv, sg, br as int, bc as int, i as int);
                }
            }
            proof {
                lemma_block_done_subgrid_ok(sv, sg, br as int, bc as int);
                lemma_subgrid_step(sv, sg, br as int, bc as int);
            }
        }
        proof {
            lemma_subgrid_row_step(sv, sg, br as int);
        }
    }
}

/// Adding the fact for the block cell `(i, j)` extends the visited prefix
/// of the block by one cell.
proof fn lemma_block_cell_step(s: Seq<Seq<u8>>, sg: int, br: int, bc: int, i: int, j: int)
    requires
        0 <= i < sg,
        0 <= j < sg,
    ensures
        block_cells_done(s, sg, br, bc, i, j + 1) == (block_cells_done(s, sg, br, bc, i, j)
            && cell_vs_prior(s, sg, br, bc, i, j)),
{
    if block_cells_done(s, sg, br, bc, i, j) && cell_vs_prior(s, sg, br, bc, i, j) {
        assert forall|i2: int, j2: int|
            0 <= i2 < sg && 0 <= j2 < sg && (i2 < i || (i2 == i && j2 < j
                + 1)) implies #[trigger] cell_vs_prior(s, sg, br, bc, i2, j2) by {
            if i2 == i && j2 == j {
            } else {
                assert(block_cells_done(s, sg, br, bc, i, j));
            }
        }
    }
}

/// Finishing block row `i` moves the visited prefix of the block to the
/// start of the next block row.
proof fn lemma_block_row_step(s: Seq<Seq<u8>>, sg: int, br: int, bc: int, i: int)
    ensures
        block_cells_done(s, sg, br, bc, i + 1, 0) == block_cells_done(s, sg, br, bc, i, sg),
{
    if block_cells_done(s, sg, br, bc, i, sg) {
        assert forall|i2: int, j2: int|
            0 <= i2 < sg && 0 <= j2 < sg && (i2 < i + 1 || (i2 == i + 1 && j2
                < 0)) implies #[trigger] cell_vs_prior(s, sg, br, bc, i2, j2) by {}
    }
}

/// Finishing the block at `(br, bc)` extends the visited prefix of blocks
/// by one block.
proof fn lemma_subgrid_step(s: Seq<Seq<u8>>, sg: int, br: int, bc: int)
    requires
        0 <= br < sg,
        0 <= bc < sg,
    ensures
        subgrids_done(s, sg, br, bc + 1) == (subgrids_done(s, sg, br, bc) && subgrid_ok(
            s,
            sg,
            br,
            bc,
        )),
{
    if subgrids_done(s, sg, br, bc) && subgrid_ok(s, sg, br, bc) {
        assert forall|br2: int, bc2: int|
            0 <= br2 < sg && 0 <= bc2 < sg && (br2 < br || (br2 == br && bc2 < bc
                + 1)) implies #[trigger] subgrid_ok(s, sg, br2, bc2) by {
            if br2 == br && bc2 == bc {
            } else {
                assert(subgrids_done(s, sg, br, bc));
            }
        }
    }
}

/// Finishing block row `br` moves the visited prefix of blocks to the start
/// of the next block row.
proof fn lemma_subgrid_row_step(s: Seq<Seq<u8>>, sg: int, br: int)
    ensures
        subgrids_done(s, sg, br + 1, 0) == subgrids_done(s, sg, br, sg),
{
    if subgrids_done(s, sg, br, sg) {
        assert forall|br2: int, bc2: int|
            0 <= br2 < sg && 0 <= bc2 < sg && (br2 < br + 1 || (br2 == br + 1 && bc2
                < 0)) implies #[trigger] subgrid_ok(s, sg, br2, bc2) by {}
    }
}

} // verus!
