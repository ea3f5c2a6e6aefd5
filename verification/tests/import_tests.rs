use momoto_materials::material_import::{
    extract_json_array, extract_json_object, extract_json_string, extract_xml_attribute,
    extract_xml_input, total_import_memory, ImportAdapter, ImportError, ImportSource,
    ImportedMaterial, MaterialImporter,
};

fn number(text: &Option<String>) -> f64 {
    text.as_deref().unwrap().trim().parse::<f64>().unwrap()
}

#[test]
fn test_parse_materialx() {
    let xml = r#"
            <materialx version="1.38">
                <standard_surface name="TestMaterial" type="surfaceshader">
                    <input name="base_color" type="color3" value="0.8, 0.6, 0.2" />
                    <input name="metalness" type="float" value="0.9" />
                    <input name="specular_roughness" type="float" value="0.3" />
                    <input name="specular_IOR" type="float" value="1.5" />
                </standard_surface>
            </materialx>
        "#;

    let importer = MaterialImporter::new();
    let result = importer.import(ImportSource::MaterialXString(xml.to_string()));

    assert!(result.is_ok());
    let mat = result.unwrap();
    assert!((number(&mat.metallic).clamp(0.0, 1.0) - 0.9).abs() < 0.01);
    assert!((number(&mat.roughness).clamp(0.0, 1.0) - 0.3).abs() < 0.01);
}

#[test]
fn test_parse_gltf() {
    let json = r#"{
            "name": "GoldMetal",
            "pbrMetallicRoughness": {
                "baseColorFactor": [0.8, 0.6, 0.2, 1.0],
                "metallicFactor": 0.95,
                "roughnessFactor": 0.2
            }
        }"#;

    let importer = MaterialImporter::new();
    let result = importer.import(ImportSource::GltfString(json.to_string()));

    assert!(result.is_ok());
    let mat = result.unwrap();
    assert_eq!(mat.name, "GoldMetal");
    assert!((number(&mat.metallic).clamp(0.0, 1.0) - 0.95).abs() < 0.01);
}

#[test]
fn test_parse_json() {
    let json = r#"{
            "name": "SimpleGlass",
            "ior": 1.52,
            "roughness": 0.05,
            "transmission": 0.9
        }"#;

    let importer = MaterialImporter::new();
    let result = importer.import(ImportSource::JsonString(json.to_string()));

    assert!(result.is_ok());
    let mat = result.unwrap();
    assert_eq!(mat.name, "SimpleGlass");
    assert!((number(&mat.ior).max(1.0) - 1.52).abs() < 0.01);
}

#[test]
fn test_detect_format() {
    let materialx = b"<?xml version=\"1.0\"?><materialx>";
    assert_eq!(
        MaterialImporter::detect_format(materialx),
        Some("materialx".to_string())
    );

    let gltf = b"{\"pbrMetallicRoughness\": {}}";
    assert_eq!(MaterialImporter::detect_format(gltf), Some("gltf".to_string()));

    let json = b"{\"ior\": 1.5}";
    assert_eq!(MaterialImporter::detect_format(json), Some("json".to_string()));
}

#[test]
fn material_import_test_memory_estimate() {
    let mem = total_import_memory();
    assert!(mem > 0);
    assert!(mem < 20_000);
}

#[test]
fn detect_format_edge_cases() {
    assert_eq!(MaterialImporter::detect_format(b"  \n <materialx>"), Some("materialx".to_string()));
    assert_eq!(MaterialImporter::detect_format(b"plain text"), None);
    assert_eq!(MaterialImporter::detect_format(b""), None);
    // Invalid UTF-8 is replaced, not refused.
    assert_eq!(MaterialImporter::detect_format(&[0xff, b'{']), None);
    assert_eq!(MaterialImporter::detect_format(&[b' ', b'{', 0xff]), Some("json".to_string()));
}

#[test]
fn extractors_on_known_text() {
    let xml = r#"<a name="X" /><input name="metalness" type="float" value="0.7" />"#;
    assert_eq!(extract_xml_attribute(xml, "name"), Some("X".to_string()));
    assert_eq!(extract_xml_attribute(xml, "missing"), None);
    assert_eq!(extract_xml_input(xml, "metalness"), Some("0.7".to_string()));
    assert_eq!(extract_xml_input(xml, "roughness"), None);

    let json = r#"{"name": "N", "arr": [1, 2, 3], "obj": {"k": {"x": 1}, "y": 2}}"#;
    assert_eq!(extract_json_string(json, "name"), Some("N".to_string()));
    assert_eq!(extract_json_array(json, "arr"), Some("1, 2, 3".to_string()));
    assert_eq!(
        extract_json_object(json, "obj"),
        Some(r#"{"k": {"x": 1}, "y": 2}"#.to_string())
    );
    assert_eq!(extract_json_object(json, "none"), None);
}

#[test]
fn defaults_when_fields_are_missing() {
    let importer = MaterialImporter::new();
    let mat = importer.import(ImportSource::JsonString("{}".to_string())).unwrap();
    assert_eq!(mat.name, "imported");
    assert!(mat.metallic.is_none());
    let gltf = importer.import(ImportSource::GltfString("{}".to_string())).unwrap();
    assert_eq!(gltf.ior.as_deref(), Some("1.5"));
    assert!(gltf.metallic.is_none());
}

#[test]
fn file_sources_are_not_read() {
    let importer = MaterialImporter::new();
    match importer.import(ImportSource::MaterialXFile("a.mtlx".to_string())) {
        Err(ImportError::FileNotFound(p)) => assert_eq!(p, "a.mtlx"),
        _ => panic!("file not found expected"),
    }
    match importer.import(ImportSource::GltfFile("b.gltf".to_string())) {
        Err(ImportError::FileNotFound(p)) => assert_eq!(p, "b.gltf"),
        _ => panic!("file not found expected"),
    }
}

struct Upper;

impl ImportAdapter for Upper {
    fn name(&self) -> &str {
        "upper"
    }
    fn supported_extensions(&self) -> Vec<String> {
        vec!["up".to_string()]
    }
    fn import(&self, data: &[u8]) -> Result<ImportedMaterial, ImportError> {
        Ok(ImportedMaterial {
            name: String::from_utf8_lossy(data).to_uppercase(),
            base_color: None,
            metallic: None,
            roughness: None,
            ior: None,
            transmission: None,
        })
    }
}

#[test]
fn custom_adapters() {
    let mut importer = MaterialImporter::new();
    let missing = importer.import(ImportSource::Custom {
        adapter_name: "upper".to_string(),
        data: b"abc".to_vec(),
    });
    match missing {
        Err(ImportError::UnsupportedFormat(n)) => assert_eq!(n, "upper"),
        _ => panic!("unsupported format expected"),
    }
    importer.register_adapter(Box::new(Upper));
    let found = importer
        .import(ImportSource::Custom { adapter_name: "upper".to_string(), data: b"abc".to_vec() })
        .unwrap();
    assert_eq!(found.name, "ABC");
    assert!(Upper.can_handle(b"x"));
    assert!(!Upper.can_handle(b""));
}

struct Lower;

impl ImportAdapter for Lower {
    fn name(&self) -> &str {
        "upper"
    }
    fn supported_extensions(&self) -> Vec<String> {
        vec![]
    }
    fn import(&self, data: &[u8]) -> Result<ImportedMaterial, ImportError> {
        Err(ImportError::ParseError(String::from_utf8_lossy(data).to_lowercase()))
    }
}

#[test]
fn earliest_registration_of_a_name_wins() {
    let mut importer = MaterialImporter::new();
    importer.register_adapter(Box::new(Upper));
    importer.register_adapter(Box::new(Lower));
    assert_eq!(importer.find_adapter("upper"), Some(0));
    assert_eq!(importer.find_adapter("lower"), None);
    let found = importer
        .import(ImportSource::Custom { adapter_name: "upper".to_string(), data: b"Ab".to_vec() })
        .unwrap();
    assert_eq!(found.name, "AB");

    let mut second = MaterialImporter::new();
    second.register_adapter(Box::new(Lower));
    second.register_adapter(Box::new(Upper));
    assert_eq!(second.find_adapter("upper"), Some(0));
    match second.import(ImportSource::Custom { adapter_name: "upper".to_string(), data: b"Ab".to_vec() }) {
        Err(ImportError::ParseError(t)) => assert_eq!(t, "ab"),
        _ => panic!("the first adapter named upper answers"),
    }
}

#[test]
fn import_error_messages() {
    assert_eq!(ImportError::FileNotFound("f".to_string()).to_display_string(), "File not found: f");
    assert_eq!(
        ImportError::InvalidValue {
            property: "ior".to_string(),
            value: "x".to_string(),
            expected: "number".to_string()
        }
        .to_display_string(),
        "Invalid value for 'ior': 'x', expected number"
    );
}

#[test]
fn test_importer_creation() {
    // A new importer has no adapters: a custom source finds none.
    let importer = MaterialImporter::new();
    let r = importer.import(ImportSource::Custom { adapter_name: "any".to_string(), data: vec![] });
    assert!(matches!(r, Err(ImportError::UnsupportedFormat(_))));
}
