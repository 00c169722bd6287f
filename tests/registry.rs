use bereshit::model::{BereshitProject, ProjectConfig};
use bereshit::registry::{
    list_projects, position_of, remove_in_text, remove_project, upsert_in_text, upsert_project,
    RegistryError,
};
use bereshit::factory::new_project;

fn record(id: &str, name: &str) -> BereshitProject {
    new_project(
        id.to_string(),
        name.to_string(),
        format!("/work/{}", name),
        "2024-01-01T00:00:00+00:00".to_string(),
        None,
        ProjectConfig::default(),
    )
}

fn ids(ps: &[BereshitProject]) -> Vec<String> {
    ps.iter().map(|p| p.id.clone()).collect()
}

#[test]
fn missing_registry_lists_nothing() {
    let ps = list_projects(None).unwrap();
    assert!(ps.is_empty());
}

#[test]
fn upserts_with_distinct_ids_keep_insertion_order() {
    let mut ps = Vec::new();
    upsert_project(&mut ps, record("a", "alpha"));
    upsert_project(&mut ps, record("b", "beta"));
    upsert_project(&mut ps, record("c", "gamma"));
    assert_eq!(ids(&ps), vec!["a", "b", "c"]);
    assert_eq!(ps[1].name, "beta");
}

#[test]
fn upsert_updates_in_place() {
    let mut ps = Vec::new();
    upsert_project(&mut ps, record("a", "alpha"));
    upsert_project(&mut ps, record("b", "beta"));
    upsert_project(&mut ps, record("c", "gamma"));
    upsert_project(&mut ps, record("b", "renamed"));
    assert_eq!(ids(&ps), vec!["a", "b", "c"]);
    assert_eq!(ps[1].name, "renamed");
    assert_eq!(ps[0].name, "alpha");
    assert_eq!(ps[2].name, "gamma");
}

#[test]
fn upsert_twice_leaves_one_record() {
    let mut ps = Vec::new();
    upsert_project(&mut ps, record("x", "first"));
    upsert_project(&mut ps, record("x", "second"));
    assert_eq!(ps.len(), 1);
    assert_eq!(ps[0].name, "second");
}

#[test]
fn remove_absent_id_is_not_found() {
    let mut ps = Vec::new();
    upsert_project(&mut ps, record("a", "alpha"));
    let r = remove_project(&mut ps, &"zzz".to_string());
    assert_eq!(r, Err(RegistryError::NotFoundError));
    assert_eq!(ids(&ps), vec!["a"]);
}

#[test]
fn remove_absent_id_from_text_is_not_found() {
    let text = upsert_in_text(None, record("a", "alpha")).unwrap();
    let r = remove_in_text(Some(&text), &"zzz".to_string());
    assert_eq!(r, Err(RegistryError::NotFoundError));
    assert_eq!(RegistryError::NotFoundError.message(), "Project not found");
}

#[test]
fn remove_present_id_keeps_others_in_order() {
    let mut ps = Vec::new();
    upsert_project(&mut ps, record("a", "alpha"));
    upsert_project(&mut ps, record("b", "beta"));
    upsert_project(&mut ps, record("c", "gamma"));
    upsert_project(&mut ps, record("d", "delta"));
    assert_eq!(remove_project(&mut ps, &"b".to_string()), Ok(()));
    assert_eq!(ids(&ps), vec!["a", "c", "d"]);
}

#[test]
fn position_of_finds_first_match() {
    let ps = vec![record("a", "alpha"), record("b", "beta")];
    assert_eq!(position_of(&ps, &"b".to_string()), Some(1));
    assert_eq!(position_of(&ps, &"q".to_string()), None);
}

#[test]
fn upsert_in_text_appends_to_file_contents() {
    let t1 = upsert_in_text(None, record("a", "alpha")).unwrap();
    let t2 = upsert_in_text(Some(&t1), record("b", "beta")).unwrap();
    let ps = list_projects(Some(&t2)).unwrap();
    assert_eq!(ids(&ps), vec!["a", "b"]);
    assert_eq!(ps[1].path, "/work/beta");
}

#[test]
fn upsert_in_text_rejects_malformed_contents() {
    let r = upsert_in_text(Some("not json"), record("a", "alpha"));
    assert!(matches!(r, Err(RegistryError::ParseError(_))));
}

#[test]
fn remove_in_text_drops_the_record() {
    let t1 = upsert_in_text(None, record("a", "alpha")).unwrap();
    let t2 = upsert_in_text(Some(&t1), record("b", "beta")).unwrap();
    let t3 = remove_in_text(Some(&t2), &"a".to_string()).unwrap();
    let ps = list_projects(Some(&t3)).unwrap();
    assert_eq!(ids(&ps), vec!["b"]);
}

#[test]
fn empty_array_lists_nothing() {
    assert!(list_projects(Some("[]")).unwrap().is_empty());
}

#[test]
fn empty_registry_file_lists_nothing() {
    assert!(list_projects(Some("")).unwrap().is_empty());
    let t = upsert_in_text(Some(""), record("a", "alpha")).unwrap();
    assert_eq!(ids(&list_projects(Some(&t)).unwrap()), vec!["a"]);
}

#[test]
fn remove_from_malformed_registry_is_parse_error() {
    let r = remove_in_text(Some("[1]"), &"a".to_string());
    let e = r.unwrap_err();
    assert!(matches!(e, RegistryError::ParseError(_)));
    assert!(e.message().starts_with("Failed to parse projects file: "));
}

#[test]
fn error_messages() {
    assert_eq!(
        RegistryError::ParseError("bad".to_string()).message(),
        "Failed to parse projects file: bad"
    );
    assert_eq!(RegistryError::SerializeError.message(), "Failed to serialize projects");
    assert_eq!(RegistryError::ClockError.message(), "Failed to read the system clock");
}

#[test]
fn saving_twice_gives_the_same_text() {
    let t1 = upsert_in_text(None, record("a", "alpha")).unwrap();
    let t2 = upsert_in_text(Some(&t1), record("a", "alpha")).unwrap();
    assert_eq!(t1, t2);
}
