use vstd::prelude::*;
use crate::model::{
    BereshitProject, ConfigModel, ProjectConfig, ProjectModel, ProjectSettings, SettingsModel,
    models, opt_view,
};
use crate::json::{
    Json, has_key, obj_get, shallow, read_back_depth, json_error_text, json_of, pretty_text,
    parsed_text, json_string, json_bool, json_null, json_array,
    json_fields_new, json_fields_insert, json_object, json_get, json_as_string, json_as_bool,
    json_as_array, json_is_null, json_to_pretty, json_parse,
};
use crate::registry::RegistryError;

verus! {

/// The JSON object written for settings.
pub open spec fn settings_json(s: SettingsModel) -> Json {
    Json::Obj(
        seq![
            ("auto_save"@, Json::Bool(s.auto_save)),
            ("theme"@, Json::Str(s.theme)),
            ("language"@, Json::Str(s.language)),
        ],
    )
}

/// The JSON object written for a configuration.
pub open spec fn config_json(c: ConfigModel) -> Json {
    Json::Obj(
        seq![
            ("version"@, Json::Str(c.version)),
            ("project_type"@, Json::Str(c.project_type)),
            ("settings"@, settings_json(c.settings)),
        ],
    )
}

/// The JSON value written for an optional description: `null` when absent.
pub open spec fn description_json(d: Option<Seq<char>>) -> Json {
    match d {
        Some(s) => Json::Str(s),
        None => Json::Null,
    }
}

/// The JSON object written for a project record, fields in declaration order.
pub open spec fn project_json(p: ProjectModel) -> Json {
    Json::Obj(
        seq![
            ("id"@, Json::Str(p.id)),
            ("name"@, Json::Str(p.name)),
            ("path"@, Json::Str(p.path)),
            ("created_at"@, Json::Str(p.created_at)),
            ("last_modified"@, Json::Str(p.last_modified)),
            ("description"@, description_json(p.description)),
            ("config"@, config_json(p.config)),
        ],
    )
}

/// The JSON array written for a sequence of records.
pub open spec fn projects_json(s: Seq<ProjectModel>) -> Json {
    Json::Arr(s.map_values(|p: ProjectModel| project_json(p)))
}

/// The string under `k` in an object, if the value has such a field.
pub open spec fn str_at(j: Json, k: Seq<char>) -> Option<Seq<char>> {
    match j {
        Json::Obj(fs) => match obj_get(fs, k) {
            Some(Json::Str(t)) => Some(t),
            _ => None,
        },
        _ => None,
    }
}

/// The boolean under `k` in an object, if the value has such a field.
pub open spec fn bool_at(j: Json, k: Seq<char>) -> Option<bool> {
    match j {
        Json::Obj(fs) => match obj_get(fs, k) {
            Some(Json::Bool(b)) => Some(b),
            _ => None,
        },
        _ => None,
    }
}

/// The value under `k` in an object, if the value has such a field.
pub open spec fn field_at(j: Json, k: Seq<char>) -> Option<Json> {
    match j {
        Json::Obj(fs) => obj_get(fs, k),
        _ => None,
    }
}

/// Settings read from JSON; extra fields are ignored.
pub open spec fn settings_from_json(j: Json) -> Option<SettingsModel> {
    if bool_at(j, "auto_save"@) is Some && str_at(j, "theme"@) is Some && str_at(
        j,
        "language"@,
    ) is Some {
        Some(
            SettingsModel {
                auto_save: bool_at(j, "auto_save"@)->Some_0,
                theme: str_at(j, "theme"@)->Some_0,
                language: str_at(j, "language"@)->Some_0,
            },
        )
    } else {
        None
    }
}

/// A configuration read from JSON; extra fields are ignored.
pub open spec fn config_from_json(j: Json) -> Option<ConfigModel> {
    if str_at(j, "version"@) is Some && str_at(j, "project_type"@) is Some && field_at(
        j,
        "settings"@,
    ) is Some && settings_from_json(field_at(j, "settings"@)->Some_0) is Some {
        Some(
            ConfigModel {
                version: str_at(j, "version"@)->Some_0,
                project_type: str_at(j, "project_type"@)->Some_0,
                settings: settings_from_json(field_at(j, "settings"@)->Some_0)->Some_0,
            },
        )
    } else {
        None
    }
}

/// An optional description read from an object: a missing field or `null`
/// gives no description, a string gives that text, anything else fails.
pub open spec fn description_from_json(j: Json) -> Option<Option<Seq<char>>> {
    match field_at(j, "description"@) {
        None => Some(None),
        Some(Json::Null) => Some(None),
        Some(Json::Str(s)) => Some(Some(s)),
        Some(_) => None,
    }
}

/// A project record read from JSON; extra fields are ignored.
pub open spec fn project_from_json(j: Json) -> Option<ProjectModel> {
    if j is Obj && str_at(j, "id"@) is Some && str_at(j, "name"@) is Some && str_at(j, "path"@) is Some
        && str_at(j, "created_at"@) is Some && str_at(j, "last_modified"@) is Some
        && description_from_json(j) is Some && field_at(j, "config"@) is Some && config_from_json(
        field_at(j, "config"@)->Some_0,
    ) is Some {
        Some(
            ProjectModel {
                id: str_at(j, "id"@)->Some_0,
                name: str_at(j, "name"@)->Some_0,
                path: str_at(j, "path"@)->Some_0,
                created_at: str_at(j, "created_at"@)->Some_0,
                last_modified: str_at(j, "last_modified"@)->Some_0,
                description: description_from_json(j)->Some_0,
                config: config_from_json(field_at(j, "config"@)->Some_0)->Some_0,
            },
        )
    } else {
        None
    }
}

/// A sequence of records read from a JSON array; fails if any item fails.
pub open spec fn projects_from_json(j: Json) -> Option<Seq<ProjectModel>> {
    match j {
        Json::Arr(items) => if forall|i: int|
            0 <= i < items.len() ==> (#[trigger] project_from_json(items[i])) is Some {
            Some(items.map_values(|x: Json| project_from_json(x)->Some_0))
        } else {
            None
        },
        _ => None,
    }
}

/// The records that a registry text holds, or `None` where it holds none.
pub open spec fn projects_of_text(t: Seq<char>) -> Option<Seq<ProjectModel>> {
    match parsed_text(t) {
        Some(j) => projects_from_json(j),
        None => None,
    }
}

/// The configuration that a configuration text holds, if any.
pub open spec fn config_of_text(t: Seq<char>) -> Option<ConfigModel> {
    match parsed_text(t) {
        Some(j) => config_from_json(j),
        None => None,
    }
}

fn settings_to_value(s: &ProjectSettings) -> (r: serde_json::Value)
    ensures
        json_of(r) == settings_json(s@),
{
    proof {
        lemma_keys_distinct();
    }
    let mut m = json_fields_new();
    json_fields_insert(&mut m, "auto_save".to_string(), json_bool(s.auto_save));
    json_fields_insert(&mut m, "theme".to_string(), json_string(s.theme.clone()));
    json_fields_insert(&mut m, "language".to_string(), json_string(s.language.clone()));
    let r = json_object(m);
    proof {
        assert(json_of(r)->Obj_0 =~= settings_json(s@)->Obj_0);
    }
    r
}

fn config_to_value(c: &ProjectConfig) -> (r: serde_json::Value)
    ensures
        json_of(r) == config_json(c@),
{
    proof {
        lemma_keys_distinct();
    }
    let mut m = json_fields_new();
    json_fields_insert(&mut m, "version".to_string(), json_string(c.version.clone()));
    json_fields_insert(&mut m, "project_type".to_string(), json_string(c.project_type.clone()));
    json_fields_insert(&mut m, "settings".to_string(), settings_to_value(&c.settings));
    let r = json_object(m);
    proof {
        assert(json_of(r)->Obj_0 =~= config_json(c@)->Obj_0);
    }
    r
}

fn project_to_value(p: &BereshitProject) -> (r: serde_json::Value)
    ensures
        json_of(r) == project_json(p@),
{
    proof {
        lemma_keys_distinct();
    }
    let mut m = json_fields_new();
    json_fields_insert(&mut m, "id".to_string(), json_string(p.id.clone()));
    json_fields_insert(&mut m, "name".to_string(), json_string(p.name.clone()));
    json_fields_insert(&mut m, "path".to_string(), json_string(p.path.clone()));
    json_fields_insert(&mut m, "created_at".to_string(), json_string(p.created_at.clone()));
    json_fields_insert(&mut m, "last_modified".to_string(), json_string(p.last_modified.clone()));
    let d = match &p.description {
        Some(t) => json_string(t.clone()),
        None => json_null(),
    };
    json_fields_insert(&mut m, "description".to_string(), d);
    json_fields_insert(&mut m, "config".to_string(), config_to_value(&p.config));
    let r = json_object(m);
    proof {
        assert(json_of(r)->Obj_0 =~= project_json(p@)->Obj_0);
    }
    r
}

fn projects_to_value(ps: &Vec<BereshitProject>) -> (r: serde_json::Value)
    ensures
        json_of(r) == projects_json(models(ps@)),
{
    let mut items: Vec<serde_json::Value> = Vec::new();
    let mut i: usize = 0;
    while i < ps.len()
        invariant
            i <= ps.len(),
            items.len() == i,
            forall|k: int| 0 <= k < i ==> json_of(#[trigger] items@[k]) == project_json(ps@[k]@),
        decreases ps.len() - i,
    {
        items.push(project_to_value(&ps[i]));
        i = i + 1;
    }
    proof {
        assert(items@.map_values(|v: serde_json::Value| json_of(v)) =~= models(ps@).map_values(
            |p: ProjectModel| project_json(p),
        ));
    }
    json_array(items)
}

/// The registry text for a sequence of records: an indented JSON array.
/// It always succeeds, and reading the text back gives the same records.
pub fn encode_projects(ps: &Vec<BereshitProject>) -> (r: Result<String, RegistryError>)
    ensures
        r is Ok,
        r is Ok ==> r->Ok_0@ == pretty_text(projects_json(models(ps@))),
        r is Ok ==> r->Ok_0@.len() > 0 && projects_of_text(r->Ok_0@) == Some(models(ps@)),
{
    let v = projects_to_value(ps);
    proof {
        lemma_projects_shallow(models(ps@));
        lemma_projects_round_trip(models(ps@));
    }
    match json_to_pretty(&v) {
        Ok(t) => Ok(t),
        Err(_) => Err(RegistryError::SerializeError),
    }
}

/// The text of a configuration file: an indented JSON object. It always
/// succeeds, and reading the text back gives the same configuration.
pub fn encode_config(c: &ProjectConfig) -> (r: Result<String, RegistryError>)
    ensures
        r is Ok,
        r is Ok ==> r->Ok_0@ == pretty_text(config_json(c@)),
        r is Ok ==> config_of_text(r->Ok_0@) == Some(c@),
{
    let v = config_to_value(c);
    proof {
        lemma_config_shallow(c@, read_back_depth());
        lemma_config_round_trip(c@);
    }
    match json_to_pretty(&v) {
        Ok(t) => Ok(t),
        Err(_) => Err(RegistryError::SerializeError),
    }
}

fn string_at(v: &serde_json::Value, key: &str) -> (r: Option<String>)
    ensures
        opt_view(r) == str_at(json_of(*v), key@),
{
    match json_get(v, key) {
        Some(x) => json_as_string(x),
        None => None,
    }
}

fn settings_from_value(v: &serde_json::Value) -> (r: Option<ProjectSettings>)
    ensures
        match r {
            Some(s) => settings_from_json(json_of(*v)) == Some(s@),
            None => settings_from_json(json_of(*v)) is None,
        },
{
    let auto_save = match json_get(v, "auto_save") {
        Some(x) => json_as_bool(x),
        None => None,
    };
    let theme = string_at(v, "theme");
    let language = string_at(v, "language");
    match (auto_save, theme, language) {
        (Some(auto_save), Some(theme), Some(language)) => Some(
            ProjectSettings { auto_save, theme, language },
        ),
        _ => None,
    }
}

fn config_from_value(v: &serde_json::Value) -> (r: Option<ProjectConfig>)
    ensures
        match r {
            Some(c) => config_from_json(json_of(*v)) == Some(c@),
            None => config_from_json(json_of(*v)) is None,
        },
{
    let version = string_at(v, "version");
    let project_type = string_at(v, "project_type");
    let settings = match json_get(v, "settings") {
        Some(x) => settings_from_value(x),
        None => None,
    };
    match (version, project_type, settings) {
        (Some(version), Some(project_type), Some(settings)) => Some(
            ProjectConfig { version, project_type, settings },
        ),
        _ => None,
    }
}

fn description_from_value(v: &serde_json::Value) -> (r: Option<Option<String>>)
    ensures
        match r {
            Some(d) => description_from_json(json_of(*v)) == Some(opt_view(d)),
            None => description_from_json(json_of(*v)) is None,
        },
{
    match json_get(v, "description") {
        None => Some(None),
        Some(x) => if json_is_null(x) {
            Some(None)
        } else {
            match json_as_string(x) {
                Some(t) => Some(Some(t)),
                None => None,
            }
        },
    }
}

fn project_from_value(v: &serde_json::Value) -> (r: Option<BereshitProject>)
    ensures
        match r {
            Some(p) => project_from_json(json_of(*v)) == Some(p@),
            None => project_from_json(json_of(*v)) is None,
        },
{
    let id = string_at(v, "id");
    let name = string_at(v, "name");
    let path = string_at(v, "path");
    let created_at = string_at(v, "created_at");
    let last_modified = string_at(v, "last_modified");
    let description = description_from_value(v);
    let config = match json_get(v, "config") {
        Some(x) => config_from_value(x),
        None => None,
    };
    match (id, name, path, created_at, last_modified, description, config) {
        (
            Some(id),
            Some(name),
            Some(path),
            Some(created_at),
            Some(last_modified),
            Some(description),
            Some(config),
        ) => Some(BereshitProject { id, name, path, created_at, last_modified, description, config }),
        _ => None,
    }
}

fn projects_from_value(v: &serde_json::Value) -> (r: Option<Vec<BereshitProject>>)
    ensures
        match r {
            Some(ps) => projects_from_json(json_of(*v)) == Some(models(ps@)),
            None => projects_from_json(json_of(*v)) is None,
        },
{
    let items = match json_as_array(v) {
        Some(a) => a,
        None => {
            return None;
        },
    };
    let ghost js = items@.map_values(|x: serde_json::Value| json_of(x));
    let mut out: Vec<BereshitProject> = Vec::new();
    let mut i: usize = 0;
    while i < items.len()
        invariant
            i <= items.len(),
            json_of(*v) == Json::Arr(js),
            js == items@.map_values(|x: serde_json::Value| json_of(x)),
            out.len() == i,
            forall|k: int| 0 <= k < i ==> project_from_json(js[k]) == Some(#[trigger] out@[k]@),
        decreases items.len() - i,
    {
        match project_from_value(&items[i]) {
            Some(p) => {
                out.push(p);
            },
            None => {
                assert(project_from_json(js[i as int]) is None);
                return None;
            },
        }
        i = i + 1;
    }
    proof {
        assert forall|k: int| 0 <= k < js.len() implies (#[trigger] project_from_json(js[k])) is Some by {
            assert(project_from_json(js[k]) == Some(out@[k]@));
        }
        assert(js.map_values(|x: Json| project_from_json(x)->Some_0) =~= models(out@));
    }
    Some(out)
}

/// The records that a registry text holds. Fails with `ParseError`, with
/// a description, where the text is not JSON or not a list of well-formed
/// records.
pub fn decode_projects(t: &str) -> (r: Result<Vec<BereshitProject>, RegistryError>)
    ensures
        match r {
            Ok(ps) => projects_of_text(t@) == Some(models(ps@)),
            Err(e) => e is ParseError && projects_of_text(t@) is None,
        },
{
    match json_parse(t) {
        Ok(v) => match projects_from_value(&v) {
            Some(ps) => Ok(ps),
            None => Err(RegistryError::ParseError("expected a list of project records".to_string())),
        },
        Err(e) => Err(RegistryError::ParseError(json_error_text(&e))),
    }
}

/// The configuration that a configuration text holds. Fails with
/// `ParseError`, with a description, where the text is not a well-formed
/// configuration.
pub fn decode_config(t: &str) -> (r: Result<ProjectConfig, RegistryError>)
    ensures
        match r {
            Ok(c) => config_of_text(t@) == Some(c@),
            Err(e) => e is ParseError && config_of_text(t@) is None,
        },
{
    match json_parse(t) {
        Ok(v) => match config_from_value(&v) {
            Some(c) => Ok(c),
            None => Err(RegistryError::ParseError("expected a project configuration".to_string())),
        },
        Err(e) => Err(RegistryError::ParseError(json_error_text(&e))),
    }
}

/// The field names of the written objects differ from one another.
proof fn lemma_keys_distinct()
    ensures
        "auto_save"@ != "theme"@,
        "auto_save"@ != "language"@,
        "theme"@ != "language"@,
        "version"@ != "project_type"@,
        "version"@ != "settings"@,
        "project_type"@ != "settings"@,
        "id"@ != "name"@,
        "id"@ != "path"@,
        "id"@ != "created_at"@,
        "id"@ != "last_modified"@,
        "id"@ != "description"@,
        "id"@ != "config"@,
        "name"@ != "path"@,
        "name"@ != "created_at"@,
        "name"@ != "last_modified"@,
        "name"@ != "description"@,
        "name"@ != "config"@,
        "path"@ != "created_at"@,
        "path"@ != "last_modified"@,
        "path"@ != "description"@,
        "path"@ != "config"@,
        "created_at"@ != "last_modified"@,
        "created_at"@ != "description"@,
        "created_at"@ != "config"@,
        "last_modified"@ != "description"@,
        "last_modified"@ != "config"@,
        "description"@ != "config"@,
{
    reveal_strlit("auto_save");
    reveal_strlit("theme");
    reveal_strlit("language");
    reveal_strlit("version");
    reveal_strlit("project_type");
    reveal_strlit("settings");
    reveal_strlit("id");
    reveal_strlit("name");
    reveal_strlit("path");
    reveal_strlit("created_at");
    reveal_strlit("last_modified");
    reveal_strlit("description");
    reveal_strlit("config");
    assert("auto_save"@.len() == 9);
    assert("theme"@.len() == 5);
    assert("language"@.len() == 8);
    assert("version"@.len() == 7);
    assert("project_type"@.len() == 12);
    assert("settings"@.len() == 8);
    assert("id"@.len() == 2);
    assert("name"@.len() == 4);
    assert("path"@.len() == 4);
    assert("created_at"@.len() == 10);
    assert("last_modified"@.len() == 13);
    assert("description"@.len() == 11);
    assert("config"@.len() == 6);
    assert("name"@[0] != "path"@[0]);
}

/// Looking up a key that only one entry has gives that entry's value.
pub proof fn lemma_obj_get_unique(fs: Seq<(Seq<char>, Json)>, k: Seq<char>, j: int)
    requires
        0 <= j < fs.len(),
        fs[j].0 == k,
        forall|i: int| 0 <= i < fs.len() && i != j ==> (#[trigger] fs[i]).0 != k,
    ensures
        obj_get(fs, k) == Some(fs[j].1),
{
    assert(has_key(fs, k));
}

/// Reading back the JSON written for settings gives the same settings.
pub proof fn lemma_settings_round_trip(s: SettingsModel)
    ensures
        settings_from_json(settings_json(s)) == Some(s),
{
    lemma_keys_distinct();
    let fs = settings_json(s)->Obj_0;
    lemma_obj_get_unique(fs, "auto_save"@, 0);
    lemma_obj_get_unique(fs, "theme"@, 1);
    lemma_obj_get_unique(fs, "language"@, 2);
}

/// Reading back the JSON written for a configuration gives the same one.
pub proof fn lemma_config_round_trip(c: ConfigModel)
    ensures
        config_from_json(config_json(c)) == Some(c),
{
    lemma_keys_distinct();
    lemma_settings_round_trip(c.settings);
    let fs = config_json(c)->Obj_0;
    lemma_obj_get_unique(fs, "version"@, 0);
    lemma_obj_get_unique(fs, "project_type"@, 1);
    lemma_obj_get_unique(fs, "settings"@, 2);
}

/// Reading back the JSON written for a record gives the same record.
pub proof fn lemma_project_round_trip(p: ProjectModel)
    ensures
        project_from_json(project_json(p)) == Some(p),
{
    lemma_keys_distinct();
    lemma_config_round_trip(p.config);
    let fs = project_json(p)->Obj_0;
    lemma_obj_get_unique(fs, "id"@, 0);
    lemma_obj_get_unique(fs, "name"@, 1);
    lemma_obj_get_unique(fs, "path"@, 2);
    lemma_obj_get_unique(fs, "created_at"@, 3);
    lemma_obj_get_unique(fs, "last_modified"@, 4);
    lemma_obj_get_unique(fs, "description"@, 5);
    lemma_obj_get_unique(fs, "config"@, 6);
}

/// Writing a sequence of records as JSON and reading it back gives the same
/// sequence, record for record and in order.
pub proof fn lemma_projects_round_trip(s: Seq<ProjectModel>)
    ensures
        projects_from_json(projects_json(s)) == Some(s),
{
    let items = s.map_values(|p: ProjectModel| project_json(p));
    assert forall|i: int| 0 <= i < items.len() implies (#[trigger] project_from_json(items[i])) == Some(s[i]) by {
        lemma_project_round_trip(s[i]);
    }
    assert(items.map_values(|x: Json| project_from_json(x)->Some_0) =~= s);
}

proof fn lemma_settings_shallow(s: SettingsModel, d: nat)
    requires
        d >= 1,
    ensures
        shallow(settings_json(s), d),
{
    let fs = settings_json(s)->Obj_0;
    assert forall|i: int| 0 <= i < fs.len() implies shallow((#[trigger] fs[i]).1, (d - 1) as nat) by {}
}

proof fn lemma_config_shallow(c: ConfigModel, d: nat)
    requires
        d >= 2,
    ensures
        shallow(config_json(c), d),
{
    lemma_settings_shallow(c.settings, (d - 1) as nat);
    let fs = config_json(c)->Obj_0;
    assert forall|i: int| 0 <= i < fs.len() implies shallow((#[trigger] fs[i]).1, (d - 1) as nat) by {}
}

proof fn lemma_project_shallow(p: ProjectModel, d: nat)
    requires
        d >= 3,
    ensures
        shallow(project_json(p), d),
{
    lemma_config_shallow(p.config, (d - 1) as nat);
    assert(shallow(description_json(p.description), (d - 1) as nat));
    let fs = project_json(p)->Obj_0;
    assert forall|i: int| 0 <= i < fs.len() implies shallow((#[trigger] fs[i]).1, (d - 1) as nat) by {}
}

/// The JSON written for records holds no number and nests three deep.
proof fn lemma_projects_shallow(s: Seq<ProjectModel>)
    ensures
        shallow(projects_json(s), read_back_depth()),
{
    let items = projects_json(s)->Arr_0;
    assert forall|i: int| 0 <= i < items.len() implies shallow(
        #[trigger] items[i],
        (read_back_depth() - 1) as nat,
    ) by {
        lemma_project_shallow(s[i], (read_back_depth() - 1) as nat);
    }
}

} // verus!
