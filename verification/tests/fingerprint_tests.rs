use momoto_materials::material_fingerprint::{
    deterministic_hash, format_timestamp, hash_string, total_fingerprint_memory, FingerprintError,
    MaterialFingerprint, MaterialVersion, CURRENT_SCHEMA_VERSION,
};

fn hex_bytes(s: &str) -> Vec<u8> {
    (0..s.len()).step_by(2).map(|i| u8::from_str_radix(&s[i..i + 2], 16).unwrap()).collect()
}

#[test]
fn test_hex_invalid() {
    assert!(MaterialFingerprint::from_hex("abc").is_err());
    assert!(MaterialFingerprint::from_hex(
        "gg00000000000000000000000000000000000000000000000000000000000000"
    )
    .is_err());
}

#[test]
fn test_deterministic_hash_consistency() {
    let data = b"test data for hashing";

    let hash1 = deterministic_hash(data);
    let hash2 = deterministic_hash(data);

    assert_eq!(hash1, hash2);
}

#[test]
fn material_fingerprint_test_memory_estimate() {
    let mem = total_fingerprint_memory();
    assert!(mem > 0);
    assert!(mem < 50_000);
}

#[test]
fn deterministic_hash_known_values() {
    assert_eq!(
        deterministic_hash(b"").to_vec(),
        hex_bytes("ecba3df2c3383c528ed2971655ab84f5ee0bb69f67f07a7672aa9e4245c5dd6d")
    );
    assert_eq!(
        deterministic_hash(b"abc").to_vec(),
        hex_bytes("e89d06c6307b06f7cc73ac39915874691782a63e9fcadc0fee675b56f1d462ff")
    );
    assert_eq!(
        deterministic_hash(b"test data for hashing").to_vec(),
        hex_bytes("84d9d8abac65ab1dc2fd3d33c23dfb3c8680bc6d25b5d5e9ab535a79286fbc82")
    );
    assert_eq!(hash_string("momoto").to_vec(), hex_bytes(
        "43b6b3e412f454d23e99f69f9445853ee1afa2556908d4ada2b478680f620c0c"
    ));
}

#[test]
fn hex_roundtrip_of_known_hash() {
    let fp = MaterialFingerprint::new_deterministic(deterministic_hash(b"abc"));
    let hex = fp.to_hex();
    assert_eq!(hex, "e89d06c6307b06f7cc73ac39915874691782a63e9fcadc0fee675b56f1d462ff");
    let back = MaterialFingerprint::from_hex(&hex).unwrap();
    assert_eq!(back.hash, fp.hash);
    assert_eq!(back.schema_version, CURRENT_SCHEMA_VERSION);
    assert!(back.timestamp.is_none());
    assert!(back.content_equals(&fp));
}

#[test]
fn from_hex_accepts_upper_case() {
    let upper = "E89D06C6307B06F7CC73AC39915874691782A63E9FCADC0FEE675B56F1D462FF";
    let fp = MaterialFingerprint::from_hex(upper).unwrap();
    assert_eq!(fp.hash, deterministic_hash(b"abc"));
}

#[test]
fn from_hex_errors() {
    match MaterialFingerprint::from_hex("abc") {
        Err(FingerprintError::InvalidHexLength { expected, actual }) => {
            assert_eq!(expected, 64);
            assert_eq!(actual, 3);
        }
        _ => panic!("length error expected"),
    }
    match MaterialFingerprint::from_hex(
        "gg00000000000000000000000000000000000000000000000000000000000000",
    ) {
        Err(FingerprintError::InvalidHexChar(s)) => assert_eq!(s, "gg"),
        _ => panic!("hex char error expected"),
    }
    // A sign is not a hex digit.
    match MaterialFingerprint::from_hex(
        "+f00000000000000000000000000000000000000000000000000000000000000",
    ) {
        Err(FingerprintError::InvalidHexChar(s)) => assert_eq!(s, "+f"),
        _ => panic!("hex char error expected"),
    }
    // A pair that ends inside a character is reported, decoded lossily.
    let text = format!("a\u{e9}{}", "0".repeat(61));
    assert_eq!(text.len(), 64);
    match MaterialFingerprint::from_hex(&text) {
        Err(FingerprintError::InvalidHexChar(s)) => assert_eq!(s, "a\u{fffd}"),
        _ => panic!("hex char error expected"),
    }
}

#[test]
fn short_hash_is_first_eight_digits() {
    let fp = MaterialFingerprint::new(deterministic_hash(b"abc"));
    assert_eq!(fp.short_hash(), "e89d06c6");
    assert!(fp.timestamp.is_some());
    assert!(fp.is_compatible());
}

#[test]
fn from_bytes_copies_the_first_bytes() {
    let fp = MaterialFingerprint::from_bytes(b"abc");
    let mut expected = [0u8; 32];
    expected[..3].copy_from_slice(b"abc");
    assert_eq!(fp.hash, expected);
    assert!(fp.timestamp.is_none());
    let other = MaterialFingerprint::from_bytes(b"abd");
    assert!(!fp.content_equals(&other));
    let long: Vec<u8> = (0..40).collect();
    let fp_long = MaterialFingerprint::from_bytes(&long);
    assert_eq!(fp_long.hash.to_vec(), (0..32).collect::<Vec<u8>>());
}

#[test]
fn version_chain_depth_and_history() {
    let v1 = MaterialVersion::initial(MaterialFingerprint::from_bytes(b"a"));
    assert_eq!(v1.version_number, 1);
    assert!(v1.parent.is_none());
    assert_eq!(v1.depth(), 1);

    let v2 = v1.derive(MaterialFingerprint::from_bytes(b"b"), "Increased roughness");
    assert_eq!(v2.version_number, 2);
    assert!(v2.parent.is_some());
    assert_eq!(v2.change_description.as_deref(), Some("Increased roughness"));
    assert_eq!(v2.history().len(), 2);

    let v3 = v2.derive(MaterialFingerprint::from_bytes(b"c"), "again");
    let h = v3.history();
    assert_eq!(h.len(), 3);
    assert_eq!(h[0].version_number, 1);
    assert_eq!(h[1].version_number, 2);
    assert_eq!(h[2].version_number, 3);
    assert_eq!(h[0].change_description.as_deref(), Some("Initial version"));
    assert_eq!(v3.depth(), 3);
}

#[test]
fn fingerprint_timestamp_format() {
    assert_eq!(format_timestamp(0), "0d 00:00:00");
    // 1 day, 2 h, 3 min, 4 s (and some nanoseconds).
    let ns: u64 = ((24 + 2) * 3600 + 3 * 60 + 4) * 1_000_000_000 + 999;
    assert_eq!(format_timestamp(ns), "1d 02:03:04");
    assert_eq!(format_timestamp(59_999_999_999), "0d 00:00:59");
}
