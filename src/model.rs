use vstd::prelude::*;

verus! {

/// Editor settings kept in a project's configuration.
#[derive(Debug)]
pub struct ProjectSettings {
    pub auto_save: bool,
    pub theme: String,
    pub language: String,
}

/// Per-project configuration, stored inside the project directory and
/// embedded in the registry record.
#[derive(Debug)]
pub struct ProjectConfig {
    pub version: String,
    pub project_type: String,
    pub settings: ProjectSettings,
}

/// One entry of the project registry.
#[derive(Debug)]
pub struct BereshitProject {
    pub id: String,
    pub name: String,
    pub path: String,
    pub created_at: String,
    pub last_modified: String,
    pub description: Option<String>,
    pub config: ProjectConfig,
}

/// Mathematical value of a `ProjectSettings`.
pub struct SettingsModel {
    pub auto_save: bool,
    pub theme: Seq<char>,
    pub language: Seq<char>,
}

/// Mathematical value of a `ProjectConfig`.
pub struct ConfigModel {
    pub version: Seq<char>,
    pub project_type: Seq<char>,
    pub settings: SettingsModel,
}

/// Mathematical value of a `BereshitProject`.
pub struct ProjectModel {
    pub id: Seq<char>,
    pub name: Seq<char>,
    pub path: Seq<char>,
    pub created_at: Seq<char>,
    pub last_modified: Seq<char>,
    pub description: Option<Seq<char>>,
    pub config: ConfigModel,
}

pub open spec fn opt_view(o: Option<String>) -> Option<Seq<char>> {
    match o {
        Some(s) => Some(s@),
        None => None,
    }
}

impl View for ProjectSettings {
    type V = SettingsModel;

    open spec fn view(&self) -> SettingsModel {
        SettingsModel { auto_save: self.auto_save, theme: self.theme@, language: self.language@ }
    }
}

impl View for ProjectConfig {
    type V = ConfigModel;

    open spec fn view(&self) -> ConfigModel {
        ConfigModel {
            version: self.version@,
            project_type: self.project_type@,
            settings: self.settings@,
        }
    }
}

impl View for BereshitProject {
    type V = ProjectModel;

    open spec fn view(&self) -> ProjectModel {
        ProjectModel {
            id: self.id@,
            name: self.name@,
            path: self.path@,
            created_at: self.created_at@,
            last_modified: self.last_modified@,
            description: opt_view(self.description),
            config: self.config@,
        }
    }
}

/// The models of a sequence of records, in order.
pub open spec fn models(s: Seq<BereshitProject>) -> Seq<ProjectModel> {
    s.map_values(|p: BereshitProject| p@)
}

/// The configuration that a new project starts with.
pub open spec fn default_config() -> ConfigModel {
    ConfigModel {
        version: "1.0.0"@,
        project_type: "bereshit"@,
        settings: SettingsModel { auto_save: true, theme: "dark"@, language: "pt-BR"@ },
    }
}

impl Default for ProjectConfig {
    fn default() -> (r: Self)
        ensures
            r@ == default_config(),
    {
        ProjectConfig {
            version: "1.0.0".to_string(),
            project_type: "bereshit".to_string(),
            settings: ProjectSettings {
                auto_save: true,
                theme: "dark".to_string(),
                language: "pt-BR".to_string(),
            },
        }
    }
}

impl Clone for ProjectSettings {
    fn clone(&self) -> (r: Self)
        ensures
            r@ == self@,
    {
        ProjectSettings {
            auto_save: self.auto_save,
            theme: self.theme.clone(),
            language: self.language.clone(),
        }
    }
}

impl Clone for ProjectConfig {
    fn clone(&self) -> (r: Self)
        ensures
            r@ == self@,
    {
        ProjectConfig {
            version: self.version.clone(),
            project_type: self.project_type.clone(),
            settings: self.settings.clone(),
        }
    }
}

impl Clone for BereshitProject {
    fn clone(&self) -> (r: Self)
        ensures
            r@ == self@,
    {
        let description = match &self.description {
            Some(d) => Some(d.clone()),
            None => None,
        };
        BereshitProject {
            id: self.id.clone(),
            name: self.name.clone(),
            path: self.path.clone(),
            created_at: self.created_at.clone(),
            last_modified: self.last_modified.clone(),
            description,
            config: self.config.clone(),
        }
    }
}

} // verus!
