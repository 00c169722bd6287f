use vstd::prelude::*;
use crate::model::{BereshitProject, ProjectConfig, ProjectModel, default_config, opt_view};
use crate::codec::{config_json, config_of_text, encode_config};
use crate::json::pretty_text;
use crate::registry::RegistryError;

verus! {

/// The name of the configuration file inside each project directory.
pub const CONFIG_FILE_NAME: &'static str = "bereshit.json";

/// The path that `std::path::Path::join` gives for a base and a segment,
/// read back as text.
pub uninterp spec fn joined_path(base: Seq<char>, segment: Seq<char>) -> Seq<char>;

/// Relies on `std::path::Path::join`: the segment appended to the base path.
#[verifier::external_body]
fn join_path(base: &str, segment: &str) -> (r: String)
    ensures
        r@ == joined_path(base@, segment@),
{
    std::path::Path::new(base).join(segment).to_string_lossy().to_string()
}

/// Relies on `uuid::Uuid::new_v4` and its `Display`: a fresh random id in
/// hyphenated form, 36 characters long.
#[verifier::external_body]
fn new_id() -> (r: String)
    ensures
        r@.len() == 36,
{
    uuid::Uuid::new_v4().to_string()
}

/// Relies on `std::time::SystemTime::duration_since`, then
/// `chrono::DateTime::from_timestamp` and `DateTime::to_rfc3339`: the
/// current instant as RFC 3339 text, or `None` where the clock reads before
/// 1970 or out of chrono's range.
#[verifier::external_body]
fn now_rfc3339() -> (r: Option<String>) {
    let d = std::time::SystemTime::now().duration_since(std::time::UNIX_EPOCH).ok()?;
    chrono::DateTime::from_timestamp(d.as_secs() as i64, d.subsec_nanos()).map(|t| t.to_rfc3339())
}

/// What to put on disk and in the registry for a new project.
#[derive(Debug)]
pub struct NewProject {
    /// The project directory, to be created with its parents.
    pub dir: String,
    /// Where the configuration file goes inside `dir`.
    pub config_path: String,
    /// The configuration file's text.
    pub config_text: String,
    /// The record to store in the registry.
    pub project: BereshitProject,
}

/// A project record made at one instant: both timestamps are `now`.
pub fn new_project(
    id: String,
    name: String,
    path: String,
    now: String,
    description: Option<String>,
    config: ProjectConfig,
) -> (r: BereshitProject)
    ensures
        r@ == (ProjectModel {
            id: id@,
            name: name@,
            path: path@,
            created_at: now@,
            last_modified: now@,
            description: opt_view(description),
            config: config@,
        }),
{
    let last_modified = now.clone();
    BereshitProject { id, name, path, created_at: now, last_modified, description, config }
}

/// Everything a new project needs, given its fresh id and the current
/// time: its directory (the base path joined with the name), its default
/// configuration and that configuration's text, and a record whose creation
/// and modification times are both `now`. It always succeeds.
pub fn project_plan(
    name: String,
    base: &str,
    description: Option<String>,
    id: String,
    now: String,
) -> (r: Result<NewProject, RegistryError>)
    ensures
        r is Ok,
        r matches Ok(n) ==> {
            &&& n.dir@ == joined_path(base@, name@)
            &&& n.config_path@ == joined_path(n.dir@, CONFIG_FILE_NAME@)
            &&& n.config_text@ == pretty_text(config_json(default_config()))
            &&& config_of_text(n.config_text@) == Some(default_config())
            &&& n.project@ == (ProjectModel {
                id: id@,
                name: name@,
                path: n.dir@,
                created_at: now@,
                last_modified: now@,
                description: opt_view(description),
                config: default_config(),
            })
        },
{
    let dir = join_path(base, name.as_str());
    let config_path = join_path(dir.as_str(), CONFIG_FILE_NAME);
    let config = ProjectConfig::default();
    let config_text = encode_config(&config)?;
    let project = new_project(id, name, dir.clone(), now, description, config);
    Ok(NewProject { dir, config_path, config_text, project })
}

/// A new project as `project_plan` makes it, with a fresh random id of 36
/// characters and the current time. Fails with `ClockError`, and only then,
/// where the system clock gives no usable time.
pub fn prepare_project(name: String, base: &str, description: Option<String>) -> (r: Result<
    NewProject,
    RegistryError,
>)
    ensures
        match r {
            Ok(n) => {
                &&& n.dir@ == joined_path(base@, name@)
                &&& n.config_path@ == joined_path(n.dir@, CONFIG_FILE_NAME@)
                &&& n.config_text@ == pretty_text(config_json(default_config()))
                &&& config_of_text(n.config_text@) == Some(default_config())
                &&& n.project@.id.len() == 36
                &&& n.project@.name == name@
                &&& n.project@.path == n.dir@
                &&& n.project@.created_at == n.project@.last_modified
                &&& n.project@.description == opt_view(description)
                &&& n.project@.config == default_config()
            },
            Err(e) => e == RegistryError::ClockError,
        },
{
    let now = match now_rfc3339() {
        Some(t) => t,
        None => {
            return Err(RegistryError::ClockError);
        },
    };
    let id = new_id();
    project_plan(name, base, description, id, now)
}

} // verus!
