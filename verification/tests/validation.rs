use sudoku_constraints::config::{Config, ConfigError};
use sudoku_constraints::validate::{check_helper, validate, Puzzle, Solution};
use sudoku_constraints::Verdict;

fn grid(rows: &[&[u8]]) -> Vec<Vec<u8>> {
    rows.iter().map(|r| r.to_vec()).collect()
}

fn blank(n: usize) -> Vec<Vec<u8>> {
    vec![vec![0u8; n]; n]
}

fn solution_4x4() -> Vec<Vec<u8>> {
    grid(&[&[1, 4, 2, 3], &[2, 3, 1, 4], &[3, 1, 4, 2], &[4, 2, 3, 1]])
}

fn puzzle_4x4() -> Vec<Vec<u8>> {
    grid(&[&[0, 0, 0, 0], &[2, 3, 0, 0], &[0, 0, 4, 0], &[0, 2, 0, 0]])
}

#[test]
fn blank_puzzle_accepts_valid_grid() {
    let r = check_helper(4, 2, &Puzzle::new(blank(4)), &Solution::new(solution_4x4()));
    assert_eq!(r, Ok(Verdict::Valid));
}

#[test]
fn clued_puzzle_accepts_matching_grid() {
    let r = check_helper(4, 2, &Puzzle::new(puzzle_4x4()), &Solution::new(solution_4x4()));
    assert_eq!(r, Ok(Verdict::Valid));
}

#[test]
fn mismatched_clue_rejected() {
    let mut p = puzzle_4x4();
    p[0][0] = 2;
    let r = check_helper(4, 2, &Puzzle::new(p), &Solution::new(solution_4x4()));
    assert_eq!(r, Ok(Verdict::Invalid));
}

#[test]
fn row_duplicate_rejected() {
    let mut s = solution_4x4();
    s[0] = vec![1, 1, 2, 3];
    let r = check_helper(4, 2, &Puzzle::new(blank(4)), &Solution::new(s));
    assert_eq!(r, Ok(Verdict::Invalid));
}

#[test]
fn column_duplicate_rejected() {
    // Every row holds distinct values, but column 0 repeats 1.
    let s = grid(&[&[1, 2, 3, 4], &[2, 1, 4, 3], &[1, 2, 3, 4], &[3, 4, 1, 2]]);
    let r = check_helper(4, 2, &Puzzle::new(blank(4)), &Solution::new(s));
    assert_eq!(r, Ok(Verdict::Invalid));
}

#[test]
fn subgrid_duplicate_rejected() {
    // A latin square: rows and columns are fine, but the top-left block
    // holds 1 and 2 twice each.
    let s = grid(&[&[1, 2, 3, 4], &[2, 1, 4, 3], &[3, 4, 1, 2], &[4, 3, 2, 1]]);
    let r = check_helper(4, 2, &Puzzle::new(blank(4)), &Solution::new(s));
    assert_eq!(r, Ok(Verdict::Invalid));
}

#[test]
fn zero_solution_cell_rejected() {
    let mut s = solution_4x4();
    s[2][2] = 0;
    let r = check_helper(4, 2, &Puzzle::new(blank(4)), &Solution::new(s));
    assert_eq!(r, Ok(Verdict::Invalid));
}

#[test]
fn over_range_solution_cell_rejected() {
    let mut s = solution_4x4();
    s[3][1] = 5;
    let r = check_helper(4, 2, &Puzzle::new(blank(4)), &Solution::new(s));
    assert_eq!(r, Ok(Verdict::Invalid));
}

#[test]
fn over_range_clue_rejected() {
    let mut p = puzzle_4x4();
    p[0][0] = 7;
    let r = check_helper(4, 2, &Puzzle::new(p), &Solution::new(solution_4x4()));
    assert_eq!(r, Ok(Verdict::Invalid));
}

#[test]
fn trivial_grid_accepted() {
    let r = check_helper(1, 1, &Puzzle::new(blank(1)), &Solution::new(vec![vec![1]]));
    assert_eq!(r, Ok(Verdict::Valid));
    let r = check_helper(1, 1, &Puzzle::new(vec![vec![1]]), &Solution::new(vec![vec![1]]));
    assert_eq!(r, Ok(Verdict::Valid));
}

#[test]
fn trivial_grid_rejects_out_of_range() {
    let r = check_helper(1, 1, &Puzzle::new(blank(1)), &Solution::new(vec![vec![2]]));
    assert_eq!(r, Ok(Verdict::Invalid));
}

#[test]
fn validation_is_idempotent() {
    let cfg = Config::new(4, 2).unwrap();
    let p = Puzzle::new(puzzle_4x4());
    let s = Solution::new(solution_4x4());
    let first = validate(&cfg, &p, &s);
    let second = validate(&cfg, &p, &s);
    assert_eq!(first, second);
    assert_eq!(first, Verdict::Valid);

    let bad = Solution::new(grid(&[&[1, 1, 2, 3], &[2, 3, 1, 4], &[3, 1, 4, 2], &[4, 2, 3, 1]]));
    let first = validate(&cfg, &p, &bad);
    let second = validate(&cfg, &p, &bad);
    assert_eq!(first, second);
    assert_eq!(first, Verdict::Invalid);
}

#[test]
fn nine_by_nine_accepted() {
    let s = grid(&[
        &[1, 9, 4, 8, 6, 5, 2, 3, 7],
        &[7, 3, 5, 4, 1, 2, 9, 6, 8],
        &[8, 6, 2, 3, 9, 7, 1, 4, 5],
        &[9, 2, 1, 7, 4, 8, 3, 5, 6],
        &[6, 7, 8, 5, 3, 1, 4, 2, 9],
        &[4, 5, 3, 9, 2, 6, 8, 7, 1],
        &[3, 8, 9, 6, 5, 4, 7, 1, 2],
        &[2, 4, 6, 1, 7, 9, 5, 8, 3],
        &[5, 1, 7, 2, 8, 3, 6, 9, 4],
    ]);
    let p = grid(&[
        &[0, 0, 0, 8, 6, 0, 2, 3, 0],
        &[7, 0, 5, 0, 0, 0, 9, 0, 8],
        &[0, 6, 0, 3, 0, 7, 0, 4, 0],
        &[0, 2, 0, 7, 0, 8, 0, 5, 0],
        &[0, 7, 8, 5, 0, 0, 0, 0, 0],
        &[4, 0, 0, 9, 0, 6, 0, 7, 0],
        &[3, 0, 9, 0, 5, 0, 7, 0, 2],
        &[0, 4, 0, 1, 0, 9, 0, 8, 0],
        &[5, 0, 7, 0, 8, 0, 0, 9, 4],
    ]);
    let r = check_helper(9, 3, &Puzzle::new(p), &Solution::new(s));
    assert_eq!(r, Ok(Verdict::Valid));
}

#[test]
fn config_rejects_non_square_side() {
    assert_eq!(Config::new(10, 3), Err(ConfigError::NotSubgridSquare));
    assert_eq!(Config::new(8, 2), Err(ConfigError::NotSubgridSquare));
}

#[test]
fn config_rejects_overlarge_domain() {
    assert_eq!(Config::new(256, 16), Err(ConfigError::ValueDomainExceeded));
}

#[test]
fn config_accepts_classic_sides() {
    let cfg = Config::new(9, 3).unwrap();
    assert_eq!(cfg.n, 9);
    assert_eq!(cfg.sg_n, 3);
}

#[test]
fn dimension_mismatch_rejected() {
    let p = Puzzle::new(vec![vec![0u8; 4]; 3]);
    let s = Solution::new(solution_4x4());
    let r = check_helper(4, 2, &p, &s);
    assert_eq!(r, Err(ConfigError::DimensionMismatch));

    let p = Puzzle::new(blank(4));
    let s = Solution::new(vec![vec![1u8; 5]; 4]);
    let r = check_helper(4, 2, &p, &s);
    assert_eq!(r, Err(ConfigError::DimensionMismatch));
}
