//! Running surfaces and their friction.
//!
//! A surface carries its rolling coefficient in millionths (a coefficient
//! of 0.002 is stored as 2000); the friction force it offers a train is
//! weight times that coefficient, in millinewtons.

use vstd::prelude::*;

verus! {

/// A running surface: rolling and (reserved) friction coefficients, in
/// millionths.
#[derive(Debug, Clone, Copy, PartialEq, Eq, Structural)]
pub struct Surface {
    pub rolling_coefficient: u32,
    pub friction_coefficient: u32,
}

impl Surface {
    /// A surface with the given rolling coefficient (millionths, at most
    /// one whole) and no sliding friction recorded yet.
    pub fn new(rolling_coefficient: u32) -> (r: Surface)
        requires
            rolling_coefficient <= 1_000_000,
        ensures
            r.rolling_coefficient == rolling_coefficient,
            r.friction_coefficient == 0,
    {
        Surface { rolling_coefficient, friction_coefficient: 0 }
    }

    /// The rolling friction force in millinewtons for a mass in kilograms
    /// under the given gravity (mm/s^2): weight times the rolling
    /// coefficient.
    pub fn calculate_friction(&self, mass: u64, gravity: u64) -> (r: u64)
        requires
            self.rolling_coefficient <= 1_000_000,
            mass <= 10_000_000,
            gravity <= 100_000,
        ensures
            r == mass * gravity * self.rolling_coefficient / 1_000_000,
    {
        proof {
            assert(mass * gravity <= 1_000_000_000_000) by (nonlinear_arith)
                requires
                    mass <= 10_000_000,
                    gravity <= 100_000,
            ;
            assert(mass * gravity >= 0) by (nonlinear_arith);
            assert(mass * gravity * self.rolling_coefficient <= 1_000_000_000_000 * 1_000_000)
                by (nonlinear_arith)
                requires
                    0 <= mass * gravity <= 1_000_000_000_000,
                    self.rolling_coefficient <= 1_000_000,
            ;
            assert(mass * gravity * self.rolling_coefficient >= 0) by (nonlinear_arith)
                requires
                    0 <= mass * gravity,
            ;
        }
        mass * gravity * (self.rolling_coefficient as u64) / 1_000_000
    }
}

} // verus!
