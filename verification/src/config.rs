//! Validation configuration: the grid side `n` and the subgrid side `sg_n`,
//! checked once at construction so that the subgrids tile the grid exactly
//! and every value in `[0, n]` fits the eight-bit cell encoding.

use vstd::prelude::*;

verus! {

/// A configuration error: the grid and subgrid sides cannot describe a
/// well-formed validation run. These are caller mistakes, surfaced before
/// any constraint is recorded; they never mean "invalid solution".
#[derive(Clone, Copy, Debug, PartialEq, Eq, Structural)]
pub enum ConfigError {
    /// The grid side is not the square of the subgrid side, so the subgrids
    /// would not tile the grid exactly.
    NotSubgridSquare,
    /// The grid side calls for values beyond the eight-bit cell encoding.
    ValueDomainExceeded,
    /// A supplied grid is not `n × n`.
    DimensionMismatch,
}

/// The dimensions of one validation run: an `n × n` grid cut into subgrids
/// of side `sg_n`, with `n == sg_n * sg_n`.
#[derive(Clone, Copy, Debug, PartialEq, Eq, Structural)]
pub struct Config {
    pub n: usize,
    pub sg_n: usize,
}

impl Config {
    /// The invariant every constructed configuration satisfies: the subgrids
    /// tile the grid exactly and all values in `[0, n]` fit in a `u8`.
    pub open spec fn wf(self) -> bool {
        &&& self.sg_n <= 15
        &&& self.n == self.sg_n * self.sg_n
        &&& self.n <= 225
    }

    /// Validate the pair `(n, sg_n)` once, before any constraint is recorded.
    ///
    /// Succeeds exactly when `n == sg_n * sg_n` and the value domain `[0, n]`
    /// fits the eight-bit cell encoding; each failure mode is reported as its
    /// own error.
    pub fn new(n: usize, sg_n: usize) -> (r: Result<Config, ConfigError>)
        ensures
            r is Ok <==> (sg_n <= 15 && n == sg_n * sg_n),
            r matches Ok(c) ==> c.n == n && c.sg_n == sg_n && c.wf(),
            r == Result::<Config, ConfigError>::Err(ConfigError::ValueDomainExceeded) <==> (
            sg_n > 15 && n == sg_n * sg_n),
            r == Result::<Config, ConfigError>::Err(ConfigError::NotSubgridSquare) <==> n != sg_n
                * sg_n,
    {
        if sg_n <= 15 {
            proof {
                assert(sg_n * sg_n <= 225) by (nonlinear_arith)
                    requires
                        sg_n <= 15,
                ;
            }
            let sq: usize = sg_n * sg_n;
            if n == sq {
                Ok(Config { n, sg_n })
            } else {
                Err(ConfigError::NotSubgridSquare)
            }
        } else {
            // `sg_n * sg_n` could overflow here, so decide `n == sg_n * sg_n`
            // through division instead.
            if sg_n <= n && n / sg_n == sg_n && n % sg_n == 0 {
                proof {
                    vstd::arithmetic::div_mod::lemma_fundamental_div_mod(n as int, sg_n as int);
                }
                Err(ConfigError::ValueDomainExceeded)
            } else {
                proof {
                    if n == sg_n * sg_n {
                        vstd::arithmetic::div_mod::lemma_div_multiples_vanish(
                            sg_n as int,
                            sg_n as int,
                        );
                        vstd::arithmetic::div_mod::lemma_mod_multiples_basic(
                            sg_n as int,
                            sg_n as int,
                        );
                    }
                }
                Err(ConfigError::NotSubgridSquare)
            }
        }
    }
}

} // verus!
