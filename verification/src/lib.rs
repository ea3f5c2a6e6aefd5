//! Material physics support with verified contracts: deterministic material
//! fingerprints and versions, calibration logs, material import from
//! MaterialX, glTF and JSON text, digital-twin identities, metrological
//! traceability, and the catalogues and small utilities around them.
//! Floating-point values appear as their IEEE-754 bit patterns.
pub mod bit_exact;
pub mod calibration_log;
pub mod decimal;
pub mod fingerprint_hash;
pub mod hex;
pub mod material_fingerprint;
pub mod material_import;
pub mod material_twin;
pub mod meta_materials;
pub mod metal_oxidation_dynamic;
pub mod metrology;
pub mod named_params;
pub mod neural_correction;
pub mod param_fingerprint;
pub mod pbr_api;
pub mod perceptual_loop;
pub mod perceptual_loss;
pub mod text_scan;
