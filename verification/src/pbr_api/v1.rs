//! Version 1 of the PBR API: its version number, the compatibility rule for
//! callers that require a version, and the catalogue of material presets.
use vstd::prelude::*;

verus! {

/// Major part of the API version.
pub const API_VERSION_MAJOR: u32 = 1;

/// Minor part of the API version.
pub const API_VERSION_MINOR: u32 = 0;

/// Patch part of the API version.
pub const API_VERSION_PATCH: u32 = 0;

/// API version as tuple (major, minor, patch).
pub const API_VERSION: (u32, u32, u32) = (API_VERSION_MAJOR, API_VERSION_MINOR, API_VERSION_PATCH);

/// API version as string.
pub const API_VERSION_STRING: &'static str = "1.0.0";

/// A required version is served when its major part is this API's and its
/// minor part is no later than this API's; the patch part is not compared.
pub open spec fn compatible_with(required: (u32, u32, u32)) -> bool {
    required.0 == API_VERSION_MAJOR && required.1 <= API_VERSION_MINOR
}

/// Check if the API version is compatible with a required version.
pub fn is_compatible(required: (u32, u32, u32)) -> (r: bool)
    ensures
        r == compatible_with(required),
{
    if API_VERSION.0 != required.0 {
        return false;
    }
    if API_VERSION.1 < required.1 {
        return false;
    }
    true
}

/// Material presets.
#[derive(Debug, Clone, Copy, PartialEq, Eq)]
pub enum MaterialPreset {
    /// Clear glass.
    Glass,
    /// Frosted glass.
    FrostedGlass,
    /// Water.
    Water,
    /// Diamond.
    Diamond,
    /// Gold metal.
    Gold,
    /// Silver metal.
    Silver,
    /// Copper metal.
    Copper,
    /// Soap bubble (thin-film).
    SoapBubble,
    /// Oil slick (thin-film).
    OilSlick,
}

/// Every preset, in declaration order.
pub open spec fn all_presets() -> Seq<MaterialPreset> {
    seq![
        MaterialPreset::Glass,
        MaterialPreset::FrostedGlass,
        MaterialPreset::Water,
        MaterialPreset::Diamond,
        MaterialPreset::Gold,
        MaterialPreset::Silver,
        MaterialPreset::Copper,
        MaterialPreset::SoapBubble,
        MaterialPreset::OilSlick,
    ]
}

impl MaterialPreset {
    /// Get all available presets.
    pub fn all() -> (r: Vec<MaterialPreset>)
        ensures
            r@ == all_presets(),
    {
        let mut v: Vec<MaterialPreset> = Vec::new();
        v.push(MaterialPreset::Glass);
        v.push(MaterialPreset::FrostedGlass);
        v.push(MaterialPreset::Water);
        v.push(MaterialPreset::Diamond);
        v.push(MaterialPreset::Gold);
        v.push(MaterialPreset::Silver);
        v.push(MaterialPreset::Copper);
        v.push(MaterialPreset::SoapBubble);
        v.push(MaterialPreset::OilSlick);
        proof {
            assert(v@ =~= all_presets());
        }
        v
    }
}

/// Every preset is listed exactly once.
pub proof fn lemma_all_presets_complete(p: MaterialPreset)
    ensures
        all_presets().contains(p),
        all_presets().no_duplicates(),
{
    let s = all_presets();
    match p {
        MaterialPreset::Glass => assert(s[0] == p),
        MaterialPreset::FrostedGlass => assert(s[1] == p),
        MaterialPreset::Water => assert(s[2] == p),
        MaterialPreset::Diamond => assert(s[3] == p),
        MaterialPreset::Gold => assert(s[4] == p),
        MaterialPreset::Silver => assert(s[5] == p),
        MaterialPreset::Copper => assert(s[6] == p),
        MaterialPreset::SoapBubble => assert(s[7] == p),
        MaterialPreset::OilSlick => assert(s[8] == p),
    }
}

} // verus!
