//! The constraint ledger: the arithmetization substrate behind every
//! comparison the checkers make.
//!
//! A [`Ledger`] owns one arkworks constraint system over the BLS12-381 base
//! field together with the eight-bit gadget variables allocated for the
//! puzzle (as public inputs) and for the solution (as private witnesses).
//! Each `enforce_*` method records one boolean assertion in the system; the
//! final [`Ledger::is_satisfiable`] call asks the substrate whether every
//! recorded assertion holds under the allocated values.
//!
//! The whole module is trusted: Verus sees the ledger only through the four
//! names below and the contracts of the methods. Nothing is assumed about
//! which constraints the arkworks gadgets emit internally, only that the
//! definitional constraints of a gadget are satisfied by the values it was
//! built from, so that satisfiability of the whole system changes exactly by
//! the recorded assertion.

use vstd::prelude::*;

use ark_bls12_381::Fq;
use ark_r1cs_std::boolean::Boolean;
use ark_r1cs_std::cmp::CmpGadget;
use ark_r1cs_std::eq::EqGadget;
use ark_r1cs_std::uint8::UInt8;
use ark_relations::gr1cs::{ConstraintSystem, ConstraintSystemRef};

verus! {

/// One validation run's constraint system, with the gadget variables of the
/// two grids. Created fresh per run, filled by the checkers, consumed once
/// by the satisfiability check.
#[verifier::external_body]
pub struct Ledger {
    cs: ConstraintSystemRef<Fq>,
    puzzle: Vec<Vec<UInt8<Fq>>>,
    solution: Vec<Vec<UInt8<Fq>>>,
}

/// The ledger can decide satisfiability: its constraint system was created
/// by [`Ledger::new`], so it is in proving mode and holds an assignment for
/// every variable. Every method of [`Ledger`] preserves this.
pub uninterp spec fn ledger_wf(l: Ledger) -> bool;

/// Whether every assertion recorded in the ledger so far is satisfied by
/// the values the variables were allocated with.
pub uninterp spec fn ledger_sat(l: Ledger) -> bool;

/// The puzzle values whose gadget variables the ledger holds, row by row.
pub uninterp spec fn puzzle_values(l: Ledger) -> Seq<Seq<u8>>;

/// The solution values whose gadget variables the ledger holds, row by row.
pub uninterp spec fn solution_values(l: Ledger) -> Seq<Seq<u8>>;

impl Ledger {
    /// Relies on `ark_relations::gr1cs::ConstraintSystem::new_ref`: a fresh
    /// constraint system is in proving mode, and with no recorded assertion
    /// it is satisfied.
    #[verifier::external_body]
    pub fn new() -> (l: Ledger)
        ensures
            ledger_wf(l),
            ledger_sat(l),
            puzzle_values(l).len() == 0,
            solution_values(l).len() == 0,
    {
        Ledger { cs: ConstraintSystem::<Fq>::new_ref(), puzzle: Vec::new(), solution: Vec::new() }
    }

    /// Relies on `ark_r1cs_std::uint::UInt::new_input_vec`: each byte is
    /// allocated as a public input holding exactly the given value, and the
    /// packing constraints it emits are satisfied by those values.
    #[verifier::external_body]
    pub fn alloc_puzzle(&mut self, g: &Vec<Vec<u8>>)
        requires
            ledger_wf(*old(self)),
        ensures
            ledger_wf(*final(self)),
            ledger_sat(*final(self)) == ledger_sat(*old(self)),
            puzzle_values(*final(self)) == g.deep_view(),
            solution_values(*final(self)) == solution_values(*old(self)),
    {
        let mut vars = Vec::new();
        for row in g.iter() {
            vars.push(UInt8::new_input_vec(self.cs.clone(), row).unwrap());
        }
        self.puzzle = vars;
    }

    /// Relies on `ark_r1cs_std::uint::UInt::new_witness_vec`: each byte is
    /// allocated as a private witness holding exactly the given value, and
    /// the booleanity constraints it emits are satisfied by those values.
    #[verifier::external_body]
    pub fn alloc_solution(&mut self, g: &Vec<Vec<u8>>)
        requires
            ledger_wf(*old(self)),
        ensures
            ledger_wf(*final(self)),
            ledger_sat(*final(self)) == ledger_sat(*old(self)),
            puzzle_values(*final(self)) == puzzle_values(*old(self)),
            solution_values(*final(self)) == g.deep_view(),
    {
        let mut vars = Vec::new();
        for row in g.iter() {
            vars.push(UInt8::new_witness_vec(self.cs.clone(), row).unwrap());
        }
        self.solution = vars;
    }

    /// Relies on `ark_r1cs_std::eq::EqGadget::is_neq` (the value of the
    /// returned boolean gadget is whether the two cell values differ) and on
    /// `Boolean::enforce_equal` against `Boolean::TRUE` (the recorded
    /// constraint is satisfied exactly when that boolean's value is true).
    #[verifier::external_body]
    pub fn enforce_solution_cells_differ(&mut self, r1: usize, c1: usize, r2: usize, c2: usize)
        requires
            ledger_wf(*old(self)),
            r1 < solution_values(*old(self)).len(),
            c1 < solution_values(*old(self))[r1 as int].len(),
            r2 < solution_values(*old(self)).len(),
            c2 < solution_values(*old(self))[r2 as int].len(),
        ensures
            ledger_wf(*final(self)),
            puzzle_values(*final(self)) == puzzle_values(*old(self)),
            solution_values(*final(self)) == solution_values(*old(self)),
            ledger_sat(*final(self)) == (ledger_sat(*old(self))
                && solution_values(*old(self))[r1 as int][c1 as int] != solution_values(
                *old(self),
            )[r2 as int][c2 as int]),
    {
        let a = &self.solution[r1][c1];
        let b = &self.solution[r2][c2];
        a.is_neq(b).unwrap().enforce_equal(&Boolean::TRUE).unwrap();
    }

    /// Relies on `ark_r1cs_std::cmp::CmpGadget::{is_le, is_ge}` for
    /// `UInt<8, u8, _>` (the value of the returned boolean gadget is the
    /// eight-bit comparison of the cell value against the constant bound),
    /// on `Boolean`'s conjunction, and on `Boolean::enforce_equal` against
    /// `Boolean::TRUE`.
    #[verifier::external_body]
    pub fn enforce_solution_cell_in_range(&mut self, r: usize, c: usize, n: u8)
        requires
            ledger_wf(*old(self)),
            r < solution_values(*old(self)).len(),
            c < solution_values(*old(self))[r as int].len(),
        ensures
            ledger_wf(*final(self)),
            puzzle_values(*final(self)) == puzzle_values(*old(self)),
            solution_values(*final(self)) == solution_values(*old(self)),
            ledger_sat(*final(self)) == (ledger_sat(*old(self)) && crate::grid::in_range(
                solution_values(*old(self))[r as int][c as int],
                n as nat,
            )),
    {
        let cell = &self.solution[r][c];
        let le = cell.is_le(&UInt8::constant(n)).unwrap();
        let ge = cell.is_ge(&UInt8::constant(1)).unwrap();
        (le & ge).enforce_equal(&Boolean::TRUE).unwrap();
    }

    /// Relies on `ark_r1cs_std::eq::EqGadget::is_eq` for `UInt<8, u8, _>`
    /// (the value of the returned boolean gadget is whether the two cell
    /// values are equal, here the puzzle cell against the solution cell and
    /// against the constant zero), on `Boolean`'s disjunction, and on
    /// `Boolean::enforce_equal` against `Boolean::TRUE`.
    #[verifier::external_body]
    pub fn enforce_clue_consistent(&mut self, r: usize, c: usize)
        requires
            ledger_wf(*old(self)),
            r < puzzle_values(*old(self)).len(),
            c < puzzle_values(*old(self))[r as int].len(),
            r < solution_values(*old(self)).len(),
            c < solution_values(*old(self))[r as int].len(),
        ensures
            ledger_wf(*final(self)),
            puzzle_values(*final(self)) == puzzle_values(*old(self)),
            solution_values(*final(self)) == solution_values(*old(self)),
            ledger_sat(*final(self)) == (ledger_sat(*old(self)) && (puzzle_values(
                *old(self),
            )[r as int][c as int] == solution_values(*old(self))[r as int][c as int]
                || puzzle_values(*old(self))[r as int][c as int] == 0)),
    {
        let p = &self.puzzle[r][c];
        let s = &self.solution[r][c];
        let same = p.is_eq(s).unwrap();
        let blank = p.is_eq(&UInt8::constant(0)).unwrap();
        (same | blank).enforce_equal(&Boolean::TRUE).unwrap();
    }

    /// Relies on `ark_relations::gr1cs::ConstraintSystemRef::is_satisfied`:
    /// on a constraint system in proving mode it returns `Ok(true)` exactly
    /// when every recorded constraint is satisfied by the assignment.
    #[verifier::external_body]
    pub fn is_satisfiable(&self) -> (r: bool)
        requires
            ledger_wf(*self),
        ensures
            r == ledger_sat(*self),
    {
        match self.cs.is_satisfied() {
            Ok(b) => b,
            Err(_) => false,
        }
    }
}

} // verus!
