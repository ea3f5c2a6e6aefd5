use momoto_materials::material_twin::{
    add_tag, compute_spectral_hash, estimate_material_twin_memory, has_tag, remove_tag,
    CalibrationQuality, TwinId, TwinVariant,
};

#[test]
fn mod_test_memory_estimate() {
    let mem = estimate_material_twin_memory();
    assert!(mem > 0);
    assert!(mem < 20_000);
}

#[test]
fn mod_test_module_exports() {
    let _id = TwinId::generate();
    let _variant = TwinVariant::Static;
    let _quality = CalibrationQuality::Uncalibrated;
}

#[test]
fn test_twin_id_generate() {
    let id1 = TwinId::generate();
    let id2 = TwinId::generate();
    assert_ne!(id1, id2);
}

#[test]
fn test_calibration_quality_score() {
    assert_eq!(CalibrationQuality::Uncalibrated.score(), 0);
    assert_eq!(CalibrationQuality::Reference.score(), 100);
    assert!(CalibrationQuality::High.meets_minimum(CalibrationQuality::Standard));
}

#[test]
fn test_twin_variant_classification() {
    assert!(TwinVariant::Static.is_static());
    assert!(TwinVariant::Temporal.is_temporal());
    assert!(TwinVariant::Layered { layer_count: 3 }.is_layered());
    assert!(TwinVariant::Measured.is_measured());
}

#[test]
fn test_twin_variant_layer_count() {
    assert_eq!(TwinVariant::Static.layer_count(), 1);
    assert_eq!(TwinVariant::Layered { layer_count: 5 }.layer_count(), 5);
}

#[test]
fn test_twin_variant_display() {
    assert_eq!(TwinVariant::Static.to_display_string(), "Static");
    assert_eq!(TwinVariant::Layered { layer_count: 2 }.to_display_string(), "Layered(2)");
}

#[test]
fn twin_id_format() {
    let id = TwinId::from_bytes([
        0x12, 0x34, 0x56, 0x78, 0x9a, 0xbc, 0x4d, 0xef, 0x80, 0x01, 0x02, 0x03, 0x04, 0x05, 0x06,
        0x07,
    ]);
    assert_eq!(id.to_uuid_string(), "12345678-9abc-4def-8001-020304050607");
    assert_eq!(id.short(), "12345678");
    assert_eq!(id.as_bytes()[6], 0x4d);
}

#[test]
fn counted_ids_are_version_four() {
    for counter in [0u64, 1, u64::MAX] {
        let id = TwinId::generate_with_counter(counter);
        let b = id.as_bytes();
        assert_eq!(b[6] & 0xf0, 0x40);
        assert_eq!(b[8] & 0xc0, 0x80);
    }
}

#[test]
fn generated_ids_are_version_four() {
    let id = TwinId::generate();
    let b = id.as_bytes();
    assert_eq!(b[6] & 0xf0, 0x40);
    assert_eq!(b[8] & 0xc0, 0x80);
    let text = id.to_uuid_string();
    assert_eq!(text.len(), 36);
    assert_eq!(&text[14..15], "4");
}

#[test]
fn seeded_ids_follow_the_generator() {
    // First state after seed 0: 0 * a + 1 = 1, so byte 0 is (1 >> 32) as u8 = 0.
    let id = TwinId::from_seed(0);
    assert_eq!(id.as_bytes()[0], 0);
    assert_eq!(TwinId::from_seed(7), TwinId::from_seed(7));
    assert_ne!(TwinId::from_seed(7), TwinId::from_seed(8));
}

#[test]
fn quality_order_and_variant_text() {
    assert!(CalibrationQuality::Basic.meets_minimum(CalibrationQuality::Basic));
    assert!(!CalibrationQuality::Basic.meets_minimum(CalibrationQuality::Standard));
    assert!(CalibrationQuality::Reference.meets_minimum(CalibrationQuality::High));
    assert_eq!(TwinVariant::Temporal.description(), "Temporal material (time-evolving)");
    assert_eq!(TwinVariant::Measured.to_display_string(), "Measured");
    assert_eq!(TwinVariant::default(), TwinVariant::Static);
    assert_eq!(TwinVariant::Layered { layer_count: 12 }.to_display_string(), "Layered(12)");
}

#[test]
fn spectral_hash_known_values() {
    let samples: Vec<u64> = [0.5f64, 0.25, 0.125].iter().map(|v| v.to_bits()).collect();
    let h = compute_spectral_hash(&samples);
    assert_eq!(h[0], 0x41);
    assert_eq!(h[1], 0x6e);
    assert_eq!(h[2], 0x20);
    assert!(h[3..].iter().all(|b| *b == 0));
    assert_eq!(compute_spectral_hash(&[]), [0u8; 16]);
}

#[test]
fn test_twin_id_format() {
    let id = TwinId::generate();
    let uuid = id.to_uuid_string();
    assert_eq!(uuid.len(), 36);
    assert!(uuid.contains('-'));
}

#[test]
fn twin_tags() {
    let mut tags: Vec<String> = Vec::new();
    assert!(!has_tag(&tags, "glass"));
    assert!(add_tag(&mut tags, "glass"));
    assert!(add_tag(&mut tags, "measured"));
    // A tag already there is not added twice.
    assert!(!add_tag(&mut tags, "glass"));
    assert_eq!(tags, vec!["glass".to_string(), "measured".to_string()]);
    assert!(has_tag(&tags, "measured"));
    assert!(!has_tag(&tags, "meas"));
    let mut with_copies = vec!["a".to_string(), "b".to_string(), "a".to_string()];
    remove_tag(&mut with_copies, "a");
    assert_eq!(with_copies, vec!["b".to_string()]);
    remove_tag(&mut tags, "glass");
    assert_eq!(tags, vec!["measured".to_string()]);
    assert!(!has_tag(&tags, "glass"));
    remove_tag(&mut tags, "absent");
    assert_eq!(tags, vec!["measured".to_string()]);
}

#[test]
fn short_and_uuid_lengths() {
    let id = TwinId::from_bytes([0xab; 16]);
    assert_eq!(id.short().len(), 8);
    assert_eq!(id.to_uuid_string().len(), 36);
}
