//! The stable, versioned PBR API.
pub mod v1;
