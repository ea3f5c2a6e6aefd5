//! Photonic-crystal lattices and the catalogue of structural-colour presets.
use vstd::prelude::*;

verus! {

/// Lattice type for photonic crystals.
#[derive(Debug, Clone, Copy, PartialEq, Eq)]
pub enum LatticeType {
    /// Triangular 2D lattice
    Triangular,
    /// Square 2D lattice
    Square,
    /// Hexagonal 2D lattice
    Hexagonal,
    /// 3D woodpile structure
    Woodpile3D,
    /// Face-centered cubic
    FCC,
    /// Diamond lattice
    Diamond,
}

/// Number of nearest neighbours of a site in each lattice.
pub open spec fn spec_coordination_number(l: LatticeType) -> nat {
    match l {
        LatticeType::Square => 4,
        LatticeType::Triangular | LatticeType::Hexagonal => 6,
        LatticeType::Woodpile3D => 4,
        LatticeType::FCC => 12,
        LatticeType::Diamond => 4,
    }
}

impl LatticeType {
    /// Get the number of nearest neighbors.
    pub fn coordination_number(&self) -> (r: usize)
        ensures
            r == spec_coordination_number(*self),
    {
        match self {
            LatticeType::Square => 4,
            LatticeType::Triangular | LatticeType::Hexagonal => 6,
            LatticeType::Woodpile3D => 4,
            LatticeType::FCC => 12,
            LatticeType::Diamond => 4,
        }
    }
}

/// The names of the structural-colour presets, in catalogue order.
pub open spec fn preset_names() -> Seq<Seq<char>> {
    seq![
        "morpho_butterfly"@,
        "peacock_feather"@,
        "beetle_shell"@,
        "opal"@,
        "mother_of_pearl"@,
        "soap_bubble"@,
        "oil_on_water"@,
        "holographic"@,
        "cd_surface"@,
        "photonic_opal"@,
        "inverse_opal"@,
    ]
}

/// List all available preset names.
pub fn list_presets() -> (r: Vec<&'static str>)
    ensures
        r@.len() == preset_names().len(),
        forall|i: int| 0 <= i < r@.len() ==> #[trigger] r@[i]@ == preset_names()[i],
{
    let mut v: Vec<&'static str> = Vec::new();
    v.push("morpho_butterfly");
    v.push("peacock_feather");
    v.push("beetle_shell");
    v.push("opal");
    v.push("mother_of_pearl");
    v.push("soap_bubble");
    v.push("oil_on_water");
    v.push("holographic");
    v.push("cd_surface");
    v.push("photonic_opal");
    v.push("inverse_opal");
    v
}

} // verus!
