use momoto_materials::material_fingerprint::{
    bit_difference, deterministic_hash_f64, fingerprint_from_named, fingerprint_from_params,
    verify_bit_exact, verify_near_exact, CalibrationEntry, CalibrationLog, MaterialFingerprint,
    MaterialVersion, CURRENT_SCHEMA_VERSION, MAX_LOG_ENTRIES,
};

fn bits(values: &[f64]) -> Vec<u64> {
    values.iter().map(|v| v.to_bits()).collect()
}

fn hex_bytes(s: &str) -> Vec<u8> {
    (0..s.len()).step_by(2).map(|i| u8::from_str_radix(&s[i..i + 2], 16).unwrap()).collect()
}

#[test]
fn test_fingerprint_creation() {
    let params = vec![1.5, 0.1, 0.0, 0.5];
    let fp = MaterialFingerprint::from_params(&bits(&params));

    assert_eq!(fp.hash.len(), 32);
    assert_eq!(fp.schema_version, CURRENT_SCHEMA_VERSION);
    assert!(!fp.engine_version.is_empty());
}

#[test]
fn test_fingerprint_determinism() {
    let params = vec![1.5, 0.1, 0.0, 0.5];

    let fp1 = MaterialFingerprint::new_deterministic(deterministic_hash_f64(&bits(&params)));
    let fp2 = MaterialFingerprint::new_deterministic(deterministic_hash_f64(&bits(&params)));

    assert_eq!(fp1.hash, fp2.hash);
    assert!(fp1.content_equals(&fp2));
}

#[test]
fn test_fingerprint_uniqueness() {
    let params1 = vec![1.5, 0.1, 0.0, 0.5];
    let params2 = vec![1.5, 0.1, 0.0, 0.500001];

    let fp1 = MaterialFingerprint::from_params(&bits(&params1));
    let fp2 = MaterialFingerprint::from_params(&bits(&params2));

    assert_ne!(fp1.hash, fp2.hash);
}

#[test]
fn test_hex_roundtrip() {
    let params = vec![1.5, 0.1, 0.0, 0.5];
    let fp = MaterialFingerprint::from_params(&bits(&params));

    let hex = fp.to_hex();
    assert_eq!(hex.len(), 64);

    let fp2 = MaterialFingerprint::from_hex(&hex).unwrap();
    assert_eq!(fp.hash, fp2.hash);
}

#[test]
fn test_verification() {
    let params = vec![1.5, 0.1, 0.0, 0.5];
    let fp = MaterialFingerprint::from_params(&bits(&params));

    assert!(fp.verify(&bits(&params)));
    assert!(!fp.verify(&bits(&vec![1.5, 0.2, 0.0, 0.5])));
}

#[test]
fn test_material_version() {
    let params1 = vec![1.5, 0.1, 0.0, 0.5];
    let fp1 = MaterialFingerprint::from_params(&bits(&params1));
    let v1 = MaterialVersion::initial(fp1);

    assert_eq!(v1.version_number, 1);
    assert!(v1.parent.is_none());

    let params2 = vec![1.5, 0.15, 0.0, 0.5];
    let fp2 = MaterialFingerprint::from_params(&bits(&params2));
    let v2 = v1.derive(fp2, "Increased roughness");

    assert_eq!(v2.version_number, 2);
    assert!(v2.parent.is_some());
    assert_eq!(v2.history().len(), 2);
}

#[test]
fn test_calibration_log() {
    let mut log = CalibrationLog::new();

    let fp_in = MaterialFingerprint::from_params(&bits(&vec![1.5, 0.1]));
    let fp_out = MaterialFingerprint::from_params(&bits(&vec![1.52, 0.12]));

    let entry = CalibrationEntry::new(fp_in, fp_out, "Adam", 100, 0.001f64.to_bits(), "BK7");

    log.add_entry(entry);

    assert_eq!(log.len(), 1);
    assert!(log.latest().is_some());
}

#[test]
fn test_calibration_log_rotation() {
    let mut log = CalibrationLog::with_capacity(3);

    for i in 0..5 {
        let fp = MaterialFingerprint::from_params(&bits(&vec![i as f64]));
        let entry = CalibrationEntry::new(fp.clone(), fp, "SGD", i, 0.1f64.to_bits(), "Test");
        log.add_entry(entry);
    }

    assert_eq!(log.len(), 3);
    assert_eq!(log.get(0).unwrap().iterations, 2);
}

#[test]
fn test_bit_exact_verification() {
    let a = vec![1.0, 2.0, 3.0];
    let b = vec![1.0, 2.0, 3.0];
    let c = vec![1.0, 2.0000000001, 3.0];

    assert!(verify_bit_exact(&bits(&a), &bits(&b)));
    assert!(!verify_bit_exact(&bits(&a), &bits(&c)));
}

#[test]
fn test_near_exact_verification() {
    let a = vec![1.0, 2.0, 3.0];
    let b = vec![1.0, 2.0, 3.0];

    assert!(verify_near_exact(&bits(&a), &bits(&b), 0));
    assert!(verify_near_exact(&bits(&a), &bits(&b), 100));
}

#[test]
fn test_named_params_fingerprint() {
    let fp1 = fingerprint_from_named(&[("ior", 1.5f64.to_bits()), ("roughness", 0.1f64.to_bits())]);

    let fp2 = fingerprint_from_named(&[("roughness", 0.1f64.to_bits()), ("ior", 1.5f64.to_bits())]);

    assert_eq!(fp1.hash, fp2.hash);
}

#[test]
fn test_calibration_log_json() {
    let mut log = CalibrationLog::new();
    let fp = MaterialFingerprint::from_params(&bits(&vec![1.5]));
    let entry = CalibrationEntry::new(fp.clone(), fp, "Adam", 50, 0.01f64.to_bits(), "Test");
    log.add_entry(entry);

    let losses: Vec<String> =
        log.entries().iter().map(|e| f64::from_bits(e.final_loss_bits).to_string()).collect();
    let json = log.to_json(&losses);
    assert!(json.contains("calibration_log"));
    assert!(json.contains("Adam"));
}

#[test]
fn parameter_hash_known_value() {
    assert_eq!(
        deterministic_hash_f64(&bits(&[1.5, 0.1, 0.0, 0.5])).to_vec(),
        hex_bytes("90e4addc22083a921a0e1dfea1dd06bb5af91a64b7945cd7f09ddf9194d2b578")
    );
    let fp = fingerprint_from_params(&bits(&[1.5, 0.1, 0.0, 0.5]));
    assert_eq!(fp.to_hex(), "90e4addc22083a921a0e1dfea1dd06bb5af91a64b7945cd7f09ddf9194d2b578");
    assert_eq!(
        fingerprint_from_named(&[("ior", 1.5f64.to_bits()), ("roughness", 0.1f64.to_bits())])
            .to_hex(),
        "d0625a1117334631a5d79313316ec4388460211b4ebdba96db608943cbc04f0e"
    );
}

#[test]
fn named_fingerprint_with_repeated_names_keeps_input_order() {
    // Stable sort: with a repeated name, the values stay in input order, so
    // the order of the repeated entries matters.
    let a = fingerprint_from_named(&[("x", 1), ("x", 2)]);
    let b = fingerprint_from_named(&[("x", 2), ("x", 1)]);
    assert_ne!(a.hash, b.hash);
    let c = fingerprint_from_named(&[("b", 1), ("a", 2), ("c", 3)]);
    let d = fingerprint_from_named(&[("c", 3), ("b", 1), ("a", 2)]);
    assert_eq!(c.hash, d.hash);
}

#[test]
fn near_exact_edge_cases() {
    let nan = f64::NAN.to_bits();
    let other_nan = 0x7ff8_0000_0000_0001u64;
    assert!(verify_near_exact(&[nan], &[other_nan], 0));
    assert!(verify_near_exact(&bits(&[0.0]), &bits(&[-0.0]), 0));
    assert!(!verify_near_exact(&bits(&[1.0]), &bits(&[-1.0]), u64::MAX));
    let one = 1.0f64.to_bits();
    assert!(verify_near_exact(&[one], &[one + 3], 3));
    assert!(!verify_near_exact(&[one], &[one + 4], 3));
    assert!(!verify_near_exact(&[one], &[one, one], 10));
    assert!(!verify_bit_exact(&[one], &[]));
}

#[test]
fn bit_difference_counts() {
    assert_eq!(bit_difference(0, 0), 0);
    assert_eq!(bit_difference(0, u64::MAX), 64);
    assert_eq!(bit_difference(0b1011, 0b0001), 2);
    assert_eq!(bit_difference(1.0f64.to_bits(), (-1.0f64).to_bits()), 1);
}

#[test]
fn calibration_log_queries() {
    let a = MaterialFingerprint::from_params(&bits(&[1.0]));
    let b = MaterialFingerprint::from_params(&bits(&[2.0]));
    let c = MaterialFingerprint::from_params(&bits(&[3.0]));
    let mut log = CalibrationLog::default();
    assert!(log.is_empty());
    assert!(log.latest().is_none());
    log.add_entry(CalibrationEntry::new(a.clone(), b.clone(), "Adam", 1, 0, "d1"));
    log.add_entry(CalibrationEntry::new(b.clone(), b.clone(), "SGD", 2, 0, "d2"));
    log.add_entry(CalibrationEntry::new(c.clone(), c.clone(), "LBFGS", 3, 0, "d3"));
    assert_eq!(log.len(), 3);
    assert_eq!(log.latest().unwrap().optimizer, "LBFGS");
    assert!(log.get(3).is_none());
    let found = log.find_by_fingerprint(&b);
    assert_eq!(found.len(), 2);
    assert_eq!(found[0].iterations, 1);
    assert_eq!(found[1].iterations, 2);
    assert!(log.get(0).unwrap().material_changed());
    assert!(!log.get(1).unwrap().material_changed());
    log.clear();
    assert_eq!(log.len(), 0);
}

#[test]
fn calibration_log_zero_capacity_keeps_one() {
    let fp = MaterialFingerprint::from_params(&bits(&[1.0]));
    let mut log = CalibrationLog::with_capacity(0);
    log.add_entry(CalibrationEntry::new(fp.clone(), fp.clone(), "a", 1, 0, "t"));
    log.add_entry(CalibrationEntry::new(fp.clone(), fp.clone(), "b", 2, 0, "t"));
    assert_eq!(log.len(), 1);
    assert_eq!(log.latest().unwrap().optimizer, "b");
    assert_eq!(CalibrationLog::new().len(), 0);
    assert!(MAX_LOG_ENTRIES >= 1);
}

#[test]
fn calibration_entry_builders_and_text() {
    let fp = MaterialFingerprint::new_deterministic([0u8; 32]);
    let mut e = CalibrationEntry::new(fp.clone(), fp.clone(), "Adam", 7, 0, "BK7")
        .with_changed_param("ior")
        .with_changed_param("roughness");
    assert_eq!(e.parameters_changed, vec!["ior".to_string(), "roughness".to_string()]);
    e = e.with_changed_params(vec!["k".to_string()]);
    assert_eq!(e.parameters_changed.len(), 1);
    e.timestamp = (24 * 3600 + 61) * 1_000_000_000;
    assert_eq!(
        e.to_log_line("0.001000"),
        "[1d 00:01:01] 00000000 -> 00000000 | Adam | iters=7 loss=0.001000 | BK7"
    );
    let mut log = CalibrationLog::with_capacity(5);
    log.add_entry(e.clone());
    log.add_entry(e);
    let text = log.to_log_format(&vec!["0.5".to_string(), "0.25".to_string()]);
    assert!(text.starts_with("=== Calibration Log ===\nEntries: 2\n\n[1d 00:01:01]"));
    assert!(text.ends_with("loss=0.25 | BK7\n"));
    let json = log.to_json(&vec!["0.5".to_string(), "0.25".to_string()]);
    let zeros = "0".repeat(64);
    let one = format!(
        "    {{\n      \"timestamp\": 86461000000000,\n      \"input_hash\": \"{z}\",\n      \"output_hash\": \"{z}\",\n      \"optimizer\": \"Adam\",\n      \"iterations\": 7,\n      \"final_loss\": {{L}},\n      \"target_dataset\": \"BK7\"\n    }}",
        z = zeros
    );
    let expected = format!(
        "{{\n  \"calibration_log\": [\n{},\n{}\n  ]\n}}",
        one.replace("{L}", "0.5"),
        one.replace("{L}", "0.25")
    );
    assert_eq!(json, expected);
}
