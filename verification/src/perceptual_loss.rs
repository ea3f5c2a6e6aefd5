//! Colour-difference formulas of the perceptual loss.
use vstd::prelude::*;

verus! {

/// Delta E formula selection
#[derive(Debug, Clone, Copy, PartialEq)]
pub enum DeltaEFormula {
    /// CIE76 - Classic Euclidean distance
    CIE76,
    /// CIE94 - Perceptual weighting for graphics
    CIE94,
    /// CIEDE2000 - Industry standard, most accurate
    CIEDE2000,
}

impl Default for DeltaEFormula {
    /// CIEDE2000, the industry standard.
    fn default() -> (r: Self)
        ensures
            r == DeltaEFormula::CIEDE2000,
    {
        DeltaEFormula::CIEDE2000
    }
}

/// Total memory of the perceptual loss module's global tables: there are
/// none.
pub fn total_perceptual_memory() -> (r: usize)
    ensures
        r == 0,
{
    0
}

} // verus!
