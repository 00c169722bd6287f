use bereshit::codec::decode_config;
use bereshit::factory::{new_project, prepare_project, project_plan};
use bereshit::greeting::greet;
use bereshit::model::ProjectConfig;
use bereshit::registry::{list_projects, remove_in_text, upsert_in_text};
use bereshit::opener::{folder_opener, Platform};

#[test]
fn default_config_values() {
    let c = ProjectConfig::default();
    assert_eq!(c.version, "1.0.0");
    assert_eq!(c.project_type, "bereshit");
    assert!(c.settings.auto_save);
    assert_eq!(c.settings.theme, "dark");
    assert_eq!(c.settings.language, "pt-BR");
}

#[test]
fn create_demo_project() {
    let n = prepare_project("demo".to_string(), "/tmp/work", None).unwrap();
    assert_eq!(n.dir, "/tmp/work/demo");
    assert_eq!(n.config_path, "/tmp/work/demo/bereshit.json");
    let c = decode_config(&n.config_text).unwrap();
    assert_eq!(c.version, "1.0.0");
    assert_eq!(c.project_type, "bereshit");
    assert!(c.settings.auto_save);
    assert_eq!(c.settings.theme, "dark");
    assert_eq!(c.settings.language, "pt-BR");
    assert_eq!(n.project.name, "demo");
    assert_eq!(n.project.path, "/tmp/work/demo");
    assert_eq!(n.project.description, None);
    assert!(!n.project.id.is_empty());
    assert_eq!(n.project.id.len(), 36);
    assert_eq!(n.project.created_at, n.project.last_modified);
    assert!(!n.project.created_at.is_empty());
}

#[test]
fn create_keeps_description() {
    let n = prepare_project("p".to_string(), "/base", Some("notes".to_string())).unwrap();
    assert_eq!(n.project.description, Some("notes".to_string()));
}

#[test]
fn create_twice_gives_distinct_ids() {
    let a = prepare_project("demo".to_string(), "/tmp/work", None).unwrap();
    let b = prepare_project("demo".to_string(), "/tmp/work", None).unwrap();
    assert_eq!(a.dir, b.dir);
    assert_ne!(a.project.id, b.project.id);
    let t1 = upsert_in_text(None, a.project).unwrap();
    let t2 = upsert_in_text(Some(&t1), b.project).unwrap();
    assert_eq!(list_projects(Some(&t2)).unwrap().len(), 2);
}

#[test]
fn create_then_delete_removes_the_entry() {
    let n = prepare_project("demo".to_string(), "/tmp/work", None).unwrap();
    let id = n.project.id.clone();
    let t1 = upsert_in_text(None, n.project).unwrap();
    assert_eq!(list_projects(Some(&t1)).unwrap().len(), 1);
    let t2 = remove_in_text(Some(&t1), &id).unwrap();
    let ps = list_projects(Some(&t2)).unwrap();
    assert!(ps.iter().all(|p| p.id != id));
}

#[test]
fn new_project_sets_both_timestamps() {
    let p = new_project(
        "i".to_string(),
        "n".to_string(),
        "/n".to_string(),
        "2024-01-01T00:00:00+00:00".to_string(),
        None,
        ProjectConfig::default(),
    );
    assert_eq!(p.created_at, "2024-01-01T00:00:00+00:00");
    assert_eq!(p.last_modified, "2024-01-01T00:00:00+00:00");
}

#[test]
fn opener_per_platform() {
    assert_eq!(folder_opener(Platform::Windows), "explorer");
    assert_eq!(folder_opener(Platform::MacOs), "open");
    assert_eq!(folder_opener(Platform::Unix), "xdg-open");
}

#[test]
fn plan_with_given_id_and_time() {
    let n = project_plan(
        "demo".to_string(),
        "/tmp/work",
        Some("x".to_string()),
        "fixed-id".to_string(),
        "2024-02-03T04:05:06+00:00".to_string(),
    )
    .unwrap();
    assert_eq!(n.dir, "/tmp/work/demo");
    assert_eq!(n.project.id, "fixed-id");
    assert_eq!(n.project.created_at, "2024-02-03T04:05:06+00:00");
    assert_eq!(n.project.last_modified, "2024-02-03T04:05:06+00:00");
    assert_eq!(n.project.description, Some("x".to_string()));
    assert_eq!(decode_config(&n.config_text).unwrap().settings.theme, "dark");
}

#[test]
fn greeting_text() {
    assert_eq!(greet("Ana"), "Hello, Ana! You've been greeted from Rust!");
}
