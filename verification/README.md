# momoto_materials

Material-physics support code whose behaviour is stated in Verus contracts
and proved.

- `src/` is the verified library. Floating-point values never enter it: where
  the logic reads an `f64`, it takes the value's IEEE-754 bit pattern
  (`f64::to_bits`), which is all that hashing, bit-exact comparison and
  logging ever read.
  - `fingerprint_hash`, `param_fingerprint`, `named_params`: the 256-bit
    content hash and fingerprints of byte strings, parameter arrays and named
    parameters (order-independent for distinct names).
  - `material_fingerprint`, `calibration_log`, `bit_exact`: fingerprints,
    hex encoding and parsing, version chains, the bounded calibration log
    and ULP-tolerant comparison.
  - `material_import`, `text_scan`: reading MaterialX, glTF and JSON
    material text, and dispatch to custom adapters by name (the earliest
    registration of a name wins).
  - `material_twin`: UUID-style twin identifiers, calibration quality, twin
    variants, twin tag lists, the spectral identity hash.
  - `metrology`: measurement quality, sources and uncertainty kinds,
    traceability chains, tolerance categories, propagation methods, module
    validation from the outcome of its checks.
  - catalogues: `meta_materials`, `metal_oxidation_dynamic`, `pbr_api::v1`,
    `perceptual_loop`, `perceptual_loss`, `neural_correction`.
- `app/` is ordinary Rust around the library: `f64` conversions, number
  parsing of imported text, float-valued tables and reports, the process-wide
  measurement and twin-identifier counters, the floating-point module checks,
  and serde forms.
- `tests/` exercises the library on concrete values.
