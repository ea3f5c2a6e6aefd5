use momoto_materials::meta_materials::{list_presets, LatticeType};
use momoto_materials::metal_oxidation_dynamic::Element;
use momoto_materials::metrology::measurement::{MeasurementId, MeasurementQuality};
use momoto_materials::metrology::propagation::PropagationMethod;
use momoto_materials::metrology::tolerance::{CertificationTolerance, ToleranceCategory};
use momoto_materials::metrology::traceability::{format_timestamp, ChainMetadata};
use momoto_materials::metrology::{MetrologyMemoryEstimate, MetrologyValidation};
use momoto_materials::neural_correction::SimpleRng;
use momoto_materials::pbr_api::v1::{
    is_compatible, MaterialPreset, API_VERSION, API_VERSION_STRING,
};
use momoto_materials::perceptual_loop::rgb_from_hex;
use momoto_materials::perceptual_loss::{total_perceptual_memory, DeltaEFormula};

#[test]
fn test_version() {
    assert_eq!(API_VERSION, (1, 0, 0));
    assert_eq!(API_VERSION_STRING, "1.0.0");
}

#[test]
fn test_compatibility() {
    assert!(is_compatible((1, 0, 0)));
    assert!(is_compatible((1, 0, 0)));
    assert!(!is_compatible((1, 1, 0)));
    assert!(!is_compatible((2, 0, 0)));
    assert!(!is_compatible((0, 0, 0)));
}

#[test]
fn compatibility_ignores_patch() {
    assert!(is_compatible((1, 0, 7)));
}

#[test]
fn presets_catalogue() {
    let all = MaterialPreset::all();
    assert_eq!(all.len(), 9);
    assert_eq!(all[0], MaterialPreset::Glass);
    assert_eq!(all[8], MaterialPreset::OilSlick);
    let names = list_presets();
    assert_eq!(names.len(), 11);
    assert_eq!(names[0], "morpho_butterfly");
    assert_eq!(names[10], "inverse_opal");
}

#[test]
fn lattice_coordination() {
    assert_eq!(LatticeType::Square.coordination_number(), 4);
    assert_eq!(LatticeType::Triangular.coordination_number(), 6);
    assert_eq!(LatticeType::Hexagonal.coordination_number(), 6);
    assert_eq!(LatticeType::Woodpile3D.coordination_number(), 4);
    assert_eq!(LatticeType::FCC.coordination_number(), 12);
    assert_eq!(LatticeType::Diamond.coordination_number(), 4);
}

#[test]
fn element_names_and_oxides() {
    assert_eq!(Element::Cu.name(), "Copper");
    assert_eq!(Element::Cu.primary_oxide(), "Cu2O");
    assert_eq!(Element::Ag.primary_oxide(), "Ag2S");
    assert_eq!(Element::Au.primary_oxide(), "Au");
    assert_eq!(Element::Ti.name(), "Titanium");
}

#[test]
fn measurement_quality_classes() {
    assert!(MeasurementQuality::Calibrated.is_acceptable());
    assert!(MeasurementQuality::Estimated.is_acceptable());
    assert!(!MeasurementQuality::Interpolated.is_acceptable());
    assert!(MeasurementQuality::Calibrated.is_reference_grade());
    assert!(!MeasurementQuality::Validated.is_reference_grade());
    assert_eq!(MeasurementQuality::default(), MeasurementQuality::Unknown);
    assert!(MeasurementQuality::Calibrated < MeasurementQuality::Unknown);
    assert_eq!(MeasurementId::new(42).value(), 42);
}

#[test]
fn propagation_and_tolerance_names() {
    assert_eq!(PropagationMethod::monte_carlo(), PropagationMethod::MonteCarlo { n_samples: 10000 });
    assert_eq!(PropagationMethod::monte_carlo().name(), "Monte Carlo");
    assert_eq!(PropagationMethod::Linear.name(), "Linear (First-order Taylor)");
    assert_eq!(ToleranceCategory::Environmental.name(), "Environmental");
    assert_eq!(ToleranceCategory::Neural.to_display_string(), "Neural");
    assert_eq!(CertificationTolerance::Experimental.min_observations(), 10);
    assert_eq!(CertificationTolerance::Reference.min_observations(), 10000);
}

#[test]
fn traceability_metadata_and_time() {
    let m = ChainMetadata::default();
    assert_eq!(m.created_at, 0);
    assert_eq!(m.version, 0);
    assert!(m.description.is_none());
    assert_eq!(format_timestamp(1_500_000_000_123), "1500 (epoch seconds)");
    assert_eq!(format_timestamp(0), "0 (epoch seconds)");
}

#[test]
fn metrology_memory_totals() {
    let e = MetrologyMemoryEstimate {
        measurement_f64_bytes: 100,
        measurement_array_base_bytes: 50,
        traceability_chain_base_bytes: 40,
        traceability_entry_bytes: 30,
        tolerance_budget_base_bytes: 20,
        tolerance_component_bytes: 10,
        propagator_bytes: 5,
    };
    assert_eq!(e.total_base(), 215);
    assert_eq!(e.typical_usage(), 1000 + 50 + 1600 + 40 + 600 + 20 + 100 + 5);
    assert!(e.typical_usage() > e.total_base());
    assert_eq!(e.checked_typical_usage(), Some(3415));
    let huge = MetrologyMemoryEstimate { propagator_bytes: usize::MAX - 3410, ..e.clone() };
    assert_eq!(huge.checked_typical_usage(), Some(usize::MAX));
    let over = MetrologyMemoryEstimate { propagator_bytes: usize::MAX - 3409, ..e };
    assert_eq!(over.checked_typical_usage(), None);
}

#[test]
fn xorshift_sequence() {
    let mut rng = SimpleRng::new(0);
    assert_eq!(rng.next(), 1082269761);
    assert_eq!(rng.next(), 1152992998833853505);
    assert_eq!(rng.next(), 11177516664432764457);
    let mut other = SimpleRng::new(1);
    assert_eq!(other.next(), 1082269761);
    assert_eq!(SimpleRng::new(42).next(), 45454805674);
}

#[test]
fn perceptual_defaults() {
    assert_eq!(DeltaEFormula::default(), DeltaEFormula::CIEDE2000);
    assert_eq!(total_perceptual_memory(), 0);
}

#[test]
fn test_perceptual_target_from_hex() {
    let rgb = rgb_from_hex("#FF8000").unwrap();
    let rgb: Vec<f64> = rgb.iter().map(|b| *b as f64 / 255.0).collect();
    assert!((rgb[0] - 1.0).abs() < 0.01);
    assert!((rgb[1] - 0.5).abs() < 0.02);
    assert!((rgb[2] - 0.0).abs() < 0.01);
}

#[test]
fn rgb_hex_edge_cases() {
    assert_eq!(rgb_from_hex("ff8000"), Some([255, 128, 0]));
    assert_eq!(rgb_from_hex("##0a0B0c"), Some([10, 11, 12]));
    assert_eq!(rgb_from_hex("#ff80"), None);
    assert_eq!(rgb_from_hex("#gg8000"), None);
    // A sign is not a hex digit.
    assert_eq!(rgb_from_hex("+f+f+f"), None);
    // A pair inside a character is not read.
    assert_eq!(rgb_from_hex("a\u{e9}123"), None);
    // A non-ASCII pair is not a byte.
    assert_eq!(rgb_from_hex("é1234"), None);
}

#[test]
fn metrology_memory_report_text() {
    let e = MetrologyMemoryEstimate {
        measurement_f64_bytes: 100,
        measurement_array_base_bytes: 50,
        traceability_chain_base_bytes: 40,
        traceability_entry_bytes: 30,
        tolerance_budget_base_bytes: 20,
        tolerance_component_bytes: 10,
        propagator_bytes: 5,
    };
    let report = e.report("3.3");
    let expected = "Metrology Memory Footprint:\n\
                    ├── Measurement<f64>:      100 bytes\n\
                    ├── MeasurementArray:       50 bytes (base)\n\
                    ├── TraceabilityChain:      40 bytes (base)\n\
                    │   └── Entry:              30 bytes each\n\
                    ├── ToleranceBudget:        20 bytes (base)\n\
                    │   └── Component:          10 bytes each\n\
                    ├── UncertaintyPropagator:   5 bytes\n\
                    ├── Total Base:            215 bytes\n\
                    └── Typical Usage:        3415 bytes (~3.3 KB)";
    assert_eq!(report, expected);
    assert!(report.contains("Measurement"));
    assert!(report.contains("bytes"));
}

#[test]
fn module_validation_from_checks() {
    let e = MetrologyMemoryEstimate {
        measurement_f64_bytes: 100,
        measurement_array_base_bytes: 50,
        traceability_chain_base_bytes: 40,
        traceability_entry_bytes: 30,
        tolerance_budget_base_bytes: 20,
        tolerance_component_bytes: 10,
        propagator_bytes: 5,
    };
    let ok = MetrologyValidation::from_checks(256, true, true, e.clone());
    assert!(ok.valid);
    assert!(ok.issues.is_empty());
    assert_eq!(ok.memory_estimate.propagator_bytes, 5);
    let bad = MetrologyValidation::from_checks(300, false, false, e);
    assert!(!bad.valid);
    assert_eq!(
        bad.issues,
        vec![
            "Measurement<f64> size 300 bytes exceeds 256 byte limit".to_string(),
            "Degree/radian conversion not reciprocal".to_string(),
            "Celsius/Kelvin conversion not reciprocal".to_string(),
        ]
    );
}
