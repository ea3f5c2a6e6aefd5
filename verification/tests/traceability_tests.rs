use momoto_materials::metrology::measurement::{MeasurementId, MeasurementSource, Uncertainty};
use momoto_materials::metrology::measurement::MeasurementQuality;
use momoto_materials::metrology::propagation::{derive_quality, PropagationMethod};
use momoto_materials::metrology::traceability::{
    CalibrationReference, TraceabilityChain, TraceabilityEntry, TraceabilityOperation,
    NS_PER_DAY,
};

fn neural_share_total(chain: &TraceabilityChain) -> f64 {
    chain
        .entries
        .iter()
        .filter_map(|e| match &e.operation {
            TraceabilityOperation::NeuralCorrection { share_bits, .. } => {
                Some(f64::from_bits(*share_bits))
            }
            _ => None,
        })
        .sum()
}

#[test]
fn test_traceability_operation() {
    let op = TraceabilityOperation::measurement("Spectrophotometer", "diffuse reflectance");
    assert_eq!(op.category(), "measurement");
    assert!(!op.is_computational());
}

#[test]
fn test_neural_operation() {
    let op = TraceabilityOperation::neural(0.05f64.to_bits(), 0.03f64.to_bits());
    assert!(op.is_neural());
    assert!(op.is_computational());
}

#[test]
fn test_calibration_reference() {
    let cal = CalibrationReference::new("NIST SRM 2003", "NIST")
        .with_certificate("CAL-2024-001")
        .with_validity(365);

    assert!(cal.is_valid());
    assert!(cal.days_until_expiry() > 0);
}

#[test]
fn test_traceability_chain() {
    let mut chain = TraceabilityChain::new();

    let id1 = MeasurementId::new(1);
    let id2 = MeasurementId::new(2);

    chain.record_measurement("Gonioreflectometer", "BRDF", id1);
    chain.record_neural_correction(0.02f64.to_bits(), 0.01f64.to_bits(), id1, id2);

    assert_eq!(chain.len(), 2);
    assert_eq!(chain.neural_operation_count(), 1);
    assert!((neural_share_total(&chain) - 0.01).abs() < 1e-10);
}

#[test]
fn test_chain_summary() {
    let cal = CalibrationReference::new("Standard", "Lab");
    let mut chain = TraceabilityChain::with_calibration(cal);

    let id1 = MeasurementId::new(1);
    chain.record_measurement("Instrument", "method", id1);

    let summary = chain.summary();
    assert!(summary.has_calibration);
    assert!(summary.calibration_valid);
    assert_eq!(summary.measurement_steps, 1);
}

#[test]
fn test_traceability_chain_operations() {
    let mut chain = TraceabilityChain::new();
    chain.record_measurement("Test Instrument", "Direct", MeasurementId::new(7));
    assert_eq!(chain.entries.len(), 1);
}

#[test]
fn test_propagation_method_name() {
    assert!(PropagationMethod::Linear.name().contains("Linear"));
    assert!(PropagationMethod::monte_carlo().name().contains("Monte Carlo"));
}

#[test]
fn test_uncertainty_type_a() {
    let u = Uncertainty::type_a(0.01f64.to_bits(), 10);
    match u {
        Uncertainty::TypeA { std_error_bits, .. } => {
            assert!((f64::from_bits(std_error_bits) - 0.01).abs() < 1e-10)
        }
        _ => panic!("type A expected"),
    }
    assert_eq!(u.degrees_of_freedom(), Some(9));
}

#[test]
fn uncertainty_kinds() {
    assert_eq!(Uncertainty::type_a(0, 0).degrees_of_freedom(), Some(0));
    assert_eq!(Uncertainty::combined(0, 0).degrees_of_freedom(), None);
    assert!(!Uncertainty::default().is_known());
    assert!(Uncertainty::type_b(0, "spec sheet").is_known());
}

#[test]
fn measurement_sources() {
    assert!(MeasurementSource::instrument("g", "m").is_measured());
    assert!(!MeasurementSource::instrument("g", "m").is_computed());
    assert!(MeasurementSource::model("m", "1").is_computed());
    assert!(MeasurementSource::calculated("sum").is_computed());
    assert!(MeasurementSource::NeuralCorrection { magnitude_bits: 0 }.is_computed());
    assert!(!MeasurementSource::reference("paper").is_computed());
    assert!(!MeasurementSource::default().is_measured());
}

#[test]
fn step_ids_follow_positions() {
    let mut chain = TraceabilityChain::new();
    chain.record_measurement("a", "b", MeasurementId::new(1));
    chain.record_model_prediction("m", "2.1", vec![MeasurementId::new(1)], MeasurementId::new(2));
    chain.record_neural_correction(0, 0, MeasurementId::new(2), MeasurementId::new(3));
    let ids: Vec<u32> = chain.entries.iter().map(|e| e.step_id).collect();
    assert_eq!(ids, vec![1, 2, 3]);
    let s = chain.summary();
    assert_eq!(s.total_steps, 3);
    assert_eq!(s.measurement_steps, 1);
    assert_eq!(s.model_steps, 1);
    assert_eq!(s.neural_steps, 1);
    assert!(!s.has_calibration);
    assert!(!s.calibration_valid);
    assert!(!chain.is_calibration_valid());
    assert_eq!(chain.entries[2].input_measurements, vec![MeasurementId::new(2)]);
    assert_eq!(chain.entries[0].operator, "system");
}

#[test]
fn operation_descriptions() {
    assert_eq!(
        TraceabilityOperation::measurement("G", "BRDF").to_display_string("", ""),
        "Measured with G (BRDF)"
    );
    assert_eq!(
        TraceabilityOperation::model("M", "1.2").to_display_string("", ""),
        "Predicted by M v1.2"
    );
    assert_eq!(
        TraceabilityOperation::aggregation("mean", 12).to_display_string("", ""),
        "Aggregated 12 sources using mean"
    );
    assert_eq!(
        TraceabilityOperation::neural(0, 0).to_display_string("0.0200", "1.0"),
        "Neural correction: 0.0200 (1.0% share)"
    );
    assert_eq!(TraceabilityOperation::calibration("NIST").category(), "calibration");
    assert_eq!(TraceabilityOperation::interpolation("linear").category(), "interpolation");
}

#[test]
fn calibration_validity_at_given_times() {
    let mut cal = CalibrationReference::new("S", "L").with_validity(2);
    cal.date = 10 * NS_PER_DAY;
    assert!(cal.is_valid_at(11 * NS_PER_DAY));
    assert!(!cal.is_valid_at(12 * NS_PER_DAY));
    assert_eq!(cal.days_until_expiry_at(10 * NS_PER_DAY), 2);
    assert_eq!(cal.days_until_expiry_at(10 * NS_PER_DAY + 1), 1);
    // Past expiry the day count rounds toward zero.
    assert_eq!(cal.days_until_expiry_at(12 * NS_PER_DAY + 1), 0);
    assert_eq!(cal.days_until_expiry_at(13 * NS_PER_DAY + 1), -1);
    let e = TraceabilityEntry::new(9, TraceabilityOperation::interpolation("x"), vec![], MeasurementId::new(4))
        .with_operator("alice")
        .with_notes("checked")
        .with_timestamp(5);
    assert_eq!(e.operator, "alice");
    assert_eq!(e.notes.as_deref(), Some("checked"));
    assert_eq!(e.timestamp, 5);
    assert_eq!(e.step_id, 9);
}

#[test]
fn quality_degrades_to_worst_input() {
    assert_eq!(
        derive_quality(&[MeasurementQuality::Calibrated, MeasurementQuality::Estimated]),
        MeasurementQuality::Estimated
    );
    assert_eq!(derive_quality(&[]), MeasurementQuality::Unknown);
    assert_eq!(
        derive_quality(&[
            MeasurementQuality::Validated,
            MeasurementQuality::Extrapolated,
            MeasurementQuality::Calibrated
        ]),
        MeasurementQuality::Extrapolated
    );
    assert_eq!(derive_quality(&[MeasurementQuality::Calibrated]), MeasurementQuality::Calibrated);
}

#[test]
fn chain_report_text() {
    let mut cal = CalibrationReference::new("NIST SRM", "NIST").with_certificate("C-1");
    cal.date = u64::MAX / 4;
    let mut chain = TraceabilityChain::with_calibration(cal);
    chain.metadata.created_at = 5_000_000_000;
    chain.record_measurement("G", "BRDF", MeasurementId::new(1));
    chain.record_neural_correction(0, 0, MeasurementId::new(1), MeasurementId::new(2));
    let r = chain.report(
        &vec![String::new(), "0.0200".to_string()],
        &vec![String::new(), "1.0".to_string()],
        "1.0",
    );
    let expected = "=== Traceability Chain Report ===\nCreated: 5 (epoch seconds)\nSteps: 2\n\nRoot Calibration:\n  Standard: NIST SRM\n  Laboratory: NIST\n  Certificate: C-1\n  Valid: Yes\n\nChain Steps:\n  [1] Measured with G (BRDF) (system)\n  [2] Neural correction: 0.0200 (1.0% share) (system)\n\nSummary:\n  Measurement steps: 1\n  Model steps: 0\n  Neural steps: 1\n  Total neural share: 1.0%";
    assert_eq!(r, expected);
}

#[test]
fn chain_validity_and_report_at_given_times() {
    let mut cal = CalibrationReference::new("S", "L").with_validity(2);
    cal.date = 10 * NS_PER_DAY;
    let mut chain = TraceabilityChain::with_calibration(cal);
    chain.record_measurement("G", "BRDF", MeasurementId::new(1));
    assert!(chain.is_calibration_valid_at(11 * NS_PER_DAY));
    assert!(!chain.is_calibration_valid_at(12 * NS_PER_DAY));
    let before = chain.summary_at(11 * NS_PER_DAY);
    assert!(before.has_calibration);
    assert!(before.calibration_valid);
    assert_eq!(before.total_steps, 1);
    assert_eq!(before.measurement_steps, 1);
    let after = chain.summary_at(12 * NS_PER_DAY);
    assert!(after.has_calibration);
    assert!(!after.calibration_valid);
    let r = chain.report_at(12 * NS_PER_DAY, &vec![String::new()], &vec![String::new()], "0.0");
    assert!(r.contains("\n  Valid: No\n"));
    let r = chain.report_at(11 * NS_PER_DAY, &vec![String::new()], &vec![String::new()], "0.0");
    assert!(r.contains("\n  Valid: Yes\n"));
    // Without a root calibration nothing is valid.
    let bare = TraceabilityChain::new();
    assert!(!bare.is_calibration_valid_at(0));
    assert!(!bare.summary_at(0).calibration_valid);
}
