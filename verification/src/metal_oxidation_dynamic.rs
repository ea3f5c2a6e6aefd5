//! Oxidisable elements and the kinetic regimes of oxide growth.
use vstd::prelude::*;

verus! {

/// Chemical elements that can oxidize
#[derive(Debug, Clone, Copy, PartialEq, Eq, Hash)]
pub enum Element {
    Cu,
    Fe,
    Al,
    Zn,
    Ag,
    Au,
    Ni,
    Cr,
    Ti,
}

/// The English name of each element.
pub open spec fn element_name(e: Element) -> Seq<char> {
    match e {
        Element::Cu => "Copper"@,
        Element::Fe => "Iron"@,
        Element::Al => "Aluminum"@,
        Element::Zn => "Zinc"@,
        Element::Ag => "Silver"@,
        Element::Au => "Gold"@,
        Element::Ni => "Nickel"@,
        Element::Cr => "Chromium"@,
        Element::Ti => "Titanium"@,
    }
}

/// The formula of the layer each element grows: silver tarnishes to a
/// sulfide, and gold grows none (its own symbol).
pub open spec fn element_oxide(e: Element) -> Seq<char> {
    match e {
        Element::Cu => "Cu2O"@,
        Element::Fe => "Fe2O3"@,
        Element::Al => "Al2O3"@,
        Element::Zn => "ZnO"@,
        Element::Ag => "Ag2S"@,
        Element::Au => "Au"@,
        Element::Ni => "NiO"@,
        Element::Cr => "Cr2O3"@,
        Element::Ti => "TiO2"@,
    }
}

impl Element {
    /// Get element name
    pub fn name(&self) -> (r: &'static str)
        ensures
            r@ == element_name(*self),
    {
        match self {
            Element::Cu => "Copper",
            Element::Fe => "Iron",
            Element::Al => "Aluminum",
            Element::Zn => "Zinc",
            Element::Ag => "Silver",
            Element::Au => "Gold",
            Element::Ni => "Nickel",
            Element::Cr => "Chromium",
            Element::Ti => "Titanium",
        }
    }

    /// Get primary oxide formula
    pub fn primary_oxide(&self) -> (r: &'static str)
        ensures
            r@ == element_oxide(*self),
    {
        match self {
            Element::Cu => "Cu2O",
            Element::Fe => "Fe2O3",
            Element::Al => "Al2O3",
            Element::Zn => "ZnO",
            Element::Ag => "Ag2S",
            Element::Au => "Au",
            Element::Ni => "NiO",
            Element::Cr => "Cr2O3",
            Element::Ti => "TiO2",
        }
    }
}

/// Oxidation rate law type
#[derive(Debug, Clone, Copy)]
pub enum RateLaw {
    /// x² = k_p × t (thick oxides, diffusion-limited)
    Parabolic,
    /// x = k_l × t (initial oxidation, reaction-limited)
    Linear,
    /// x = k_log × ln(1 + t/τ) (thin films, <100nm)
    Logarithmic,
}

} // verus!
