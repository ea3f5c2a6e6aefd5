//! Error-source categories and certification tiers of tolerance budgets.
use vstd::prelude::*;

verus! {

/// Categories of error sources in tolerance budget.
#[derive(Debug, Clone, Copy, PartialEq, Eq, Hash)]
pub enum ToleranceCategory {
    /// Instrumental errors (noise, resolution, calibration).
    Instrumental,
    /// Physical model errors (approximations, assumptions).
    Model,
    /// Neural network correction errors.
    Neural,
    /// Numerical computation errors (rounding, discretization).
    Numerical,
    /// Environmental factors (temperature, humidity).
    Environmental,
    /// User input and operator errors.
    Operator,
    /// Unclassified or unknown sources.
    Unknown,
}

/// Display name of each category.
pub open spec fn category_name(c: ToleranceCategory) -> Seq<char> {
    match c {
        ToleranceCategory::Instrumental => "Instrumental"@,
        ToleranceCategory::Model => "Model"@,
        ToleranceCategory::Neural => "Neural"@,
        ToleranceCategory::Numerical => "Numerical"@,
        ToleranceCategory::Environmental => "Environmental"@,
        ToleranceCategory::Operator => "Operator"@,
        ToleranceCategory::Unknown => "Unknown"@,
    }
}

impl ToleranceCategory {
    /// Get display name.
    pub fn name(&self) -> (r: &'static str)
        ensures
            r@ == category_name(*self),
    {
        match self {
            ToleranceCategory::Instrumental => "Instrumental",
            ToleranceCategory::Model => "Model",
            ToleranceCategory::Neural => "Neural",
            ToleranceCategory::Numerical => "Numerical",
            ToleranceCategory::Environmental => "Environmental",
            ToleranceCategory::Operator => "Operator",
            ToleranceCategory::Unknown => "Unknown",
        }
    }

    /// Display form: the category's name.
    pub fn to_display_string(&self) -> (r: String)
        ensures
            r@ == category_name(*self),
    {
        self.name().to_owned()
    }
}

/// Tolerance levels corresponding to certification tiers, loosest first.
#[derive(Debug, Clone, Copy, PartialEq, Eq)]
pub enum CertificationTolerance {
    /// Experimental: ΔE2000 < 5.0
    Experimental,
    /// Research: ΔE2000 < 2.0
    Research,
    /// Industrial: ΔE2000 < 1.0
    Industrial,
    /// Reference: ΔE2000 < 0.5
    Reference,
}

/// Minimum number of observations each tier requires.
pub open spec fn tier_min_observations(t: CertificationTolerance) -> nat {
    match t {
        CertificationTolerance::Experimental => 10,
        CertificationTolerance::Research => 100,
        CertificationTolerance::Industrial => 1000,
        CertificationTolerance::Reference => 10000,
    }
}

impl CertificationTolerance {
    /// Get minimum required observations.
    pub fn min_observations(&self) -> (r: usize)
        ensures
            r == tier_min_observations(*self),
    {
        match self {
            CertificationTolerance::Experimental => 10,
            CertificationTolerance::Research => 100,
            CertificationTolerance::Industrial => 1000,
            CertificationTolerance::Reference => 10000,
        }
    }
}

} // verus!
