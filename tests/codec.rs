use bereshit::codec::{decode_config, decode_projects, encode_config, encode_projects};
use bereshit::factory::new_project;
use bereshit::model::{BereshitProject, ProjectConfig};
use bereshit::registry::RegistryError;

fn same(a: &BereshitProject, b: &BereshitProject) -> bool {
    a.id == b.id
        && a.name == b.name
        && a.path == b.path
        && a.created_at == b.created_at
        && a.last_modified == b.last_modified
        && a.description == b.description
        && a.config.version == b.config.version
        && a.config.project_type == b.config.project_type
        && a.config.settings.auto_save == b.config.settings.auto_save
        && a.config.settings.theme == b.config.settings.theme
        && a.config.settings.language == b.config.settings.language
}

#[test]
fn projects_round_trip_through_text() {
    let mut cfg = ProjectConfig::default();
    cfg.settings.auto_save = false;
    cfg.settings.theme = "light".to_string();
    let ps = vec![
        new_project(
            "id-1".to_string(),
            "one".to_string(),
            "/p/one".to_string(),
            "2024-05-01T10:00:00+00:00".to_string(),
            Some("first \"quoted\" project".to_string()),
            cfg,
        ),
        new_project(
            "id-2".to_string(),
            "two".to_string(),
            "/p/two".to_string(),
            "2024-05-02T10:00:00+00:00".to_string(),
            None,
            ProjectConfig::default(),
        ),
    ];
    let text = encode_projects(&ps).unwrap();
    let back = decode_projects(&text).unwrap();
    assert_eq!(back.len(), 2);
    assert!(same(&ps[0], &back[0]));
    assert!(same(&ps[1], &back[1]));
}

#[test]
fn empty_list_encodes_as_empty_array() {
    assert_eq!(encode_projects(&Vec::new()).unwrap(), "[]");
}

#[test]
fn config_text_is_indented_in_field_order() {
    let text = encode_config(&ProjectConfig::default()).unwrap();
    let expected = "{\n  \"version\": \"1.0.0\",\n  \"project_type\": \"bereshit\",\n  \"settings\": {\n    \"auto_save\": true,\n    \"theme\": \"dark\",\n    \"language\": \"pt-BR\"\n  }\n}";
    assert_eq!(text, expected);
}

#[test]
fn absent_description_is_written_as_null() {
    let p = new_project(
        "i".to_string(),
        "n".to_string(),
        "/n".to_string(),
        "t".to_string(),
        None,
        ProjectConfig::default(),
    );
    let text = encode_projects(&vec![p]).unwrap();
    assert!(text.contains("\"description\": null"));
}

#[test]
fn missing_or_null_description_reads_as_none() {
    let cfg = "{\"version\":\"1.0.0\",\"project_type\":\"bereshit\",\"settings\":{\"auto_save\":true,\"theme\":\"dark\",\"language\":\"pt-BR\"}}";
    let without = format!(
        "[{{\"id\":\"a\",\"name\":\"n\",\"path\":\"/n\",\"created_at\":\"t\",\"last_modified\":\"t\",\"config\":{}}}]",
        cfg
    );
    let with_null = format!(
        "[{{\"id\":\"a\",\"name\":\"n\",\"path\":\"/n\",\"created_at\":\"t\",\"last_modified\":\"t\",\"description\":null,\"config\":{},\"extra\":1}}]",
        cfg
    );
    assert_eq!(decode_projects(&without).unwrap()[0].description, None);
    assert_eq!(decode_projects(&with_null).unwrap()[0].description, None);
    let with_number = with_null.replace("\"description\":null", "\"description\":5");
    assert!(matches!(decode_projects(&with_number), Err(RegistryError::ParseError(_))));
}

#[test]
fn malformed_registry_is_parse_error() {
    assert!(matches!(decode_projects("{"), Err(RegistryError::ParseError(_))));
    assert!(matches!(decode_projects("{}"), Err(RegistryError::ParseError(_))));
    assert!(matches!(decode_projects("[{\"id\":\"a\"}]"), Err(RegistryError::ParseError(_))));
    assert_eq!(
        decode_projects("{}").unwrap_err().message(),
        "Failed to parse projects file: expected a list of project records"
    );
}

#[test]
fn config_decodes_to_default() {
    let text = encode_config(&ProjectConfig::default()).unwrap();
    let c = decode_config(&text).unwrap();
    assert_eq!(c.version, "1.0.0");
    assert_eq!(c.project_type, "bereshit");
    assert!(c.settings.auto_save);
    assert_eq!(c.settings.theme, "dark");
    assert_eq!(c.settings.language, "pt-BR");
    assert!(matches!(decode_config("[]"), Err(RegistryError::ParseError(_))));
}

#[test]
fn record_fields_are_written_in_declaration_order() {
    let p = new_project(
        "i".to_string(),
        "n".to_string(),
        "/n".to_string(),
        "t".to_string(),
        Some("d".to_string()),
        ProjectConfig::default(),
    );
    let text = encode_projects(&vec![p]).unwrap();
    let keys = ["\"id\"", "\"name\"", "\"path\"", "\"created_at\"", "\"last_modified\"", "\"description\"", "\"config\""];
    let pos: Vec<usize> = keys.iter().map(|k| text.find(k).unwrap()).collect();
    assert!(pos.windows(2).all(|w| w[0] < w[1]));
}
