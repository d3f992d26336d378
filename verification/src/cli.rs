use vstd::prelude::*;
use vstd::string::*;

use crate::project_settings::{spec_chain, ProjectSettings};

verus! {

/// List all schemas and changesets in the current project.
pub struct List {
    pub settings: ProjectSettings,
}

/// Create a new project with one empty schema.
pub struct NewProject {
    pub settings: ProjectSettings,
    /// Optional name of the empty schema.
    pub name: Option<String>,
}

/// Create a clone of an existing schema.
pub struct CloneSchema {
    pub settings: ProjectSettings,
    /// Name of the schema to clone.
    pub schema: String,
}

/// Rename a schema and update all changesets that refer to it.
pub struct RenameSchema {
    pub settings: ProjectSettings,
    /// Name of the schema to rename.
    pub schema: String,
    /// New name of the schema.
    pub new_name: String,
}

/// Create a changeset between two existing schemas.
pub struct LinkMigration {
    pub settings: ProjectSettings,
    pub source: String,
    pub target: String,
}

/// Exports the schemas in the project as json files.
pub struct Json {
    pub settings: ProjectSettings,
    /// Where to save the json files.
    pub output: String,
}

/// Exports the project to a format compatible with typed_graph found on pip.
pub struct Python {
    pub settings: ProjectSettings,
    /// Where to output the interface.
    pub output: String,
}

/// Exports the project to Rust modules for typed_graph.
pub struct Rust {
    pub settings: ProjectSettings,
    /// Where to output the modules.
    pub output: String,
}

/// Exports the schemas in the project as an mdbook.
pub struct Doc {
    pub settings: ProjectSettings,
    /// Build directory for the docs; a temporary directory when absent.
    pub out_dir: Option<String>,
    /// Where to save the resulting docs; the book folder of the build directory when absent.
    pub target_dir: Option<String>,
}

/// Exports the schemas in the project as svg drawings.
pub struct Svg {
    pub settings: ProjectSettings,
    /// Output directory to save all the drawings.
    pub target_dir: String,
}

/// Export a project to different languages.
pub enum ExportType {
    Rust(Rust),
    Python(Python),
    Json(Json),
}

pub struct Export {
    pub settings: ProjectSettings,
    pub cmd: ExportType,
}

/// The settings a command works with: its own, completed by those given around it.
pub fn command_settings(own: &ProjectSettings, around: &ProjectSettings) -> (r: ProjectSettings)
    ensures
        r.project == spec_chain(own.project, around.project),
{
    own.chain(around)
}

impl NewProject {
    /// The name of the empty schema of a new project: the given one, or `V0.0`.
    pub fn schema_name(&self) -> (r: String)
        ensures
            r@ == match self.name {
                Some(n) => n@,
                None => "V0.0"@,
            },
    {
        match &self.name {
            Some(n) => n.clone(),
            None => String::from_str("V0.0"),
        }
    }
}

impl Doc {
    /// Where the built book goes: the target directory when one is given, the folder
    /// `book` when no build directory is given either, and otherwise the build
    /// directory's own book folder (`None`).
    pub fn target(&self) -> (r: Option<String>)
        ensures
            match self.target_dir {
                Some(t) => r matches Some(x) && x@ == t@,
                None => match self.out_dir {
                    None => r matches Some(x) && x@ == "book"@,
                    Some(_) => r is None,
                },
            },
    {
        match &self.target_dir {
            Some(t) => Some(t.clone()),
            None => match &self.out_dir {
                None => Some(String::from_str("book")),
                Some(_) => None,
            },
        }
    }
}

impl Export {
    /// The settings the chosen export runs with: those of the export, completed by those
    /// given around it, handed on to the export's own.
    pub fn export_settings(&self, around: &ProjectSettings) -> (r: ProjectSettings)
        ensures
            r.project == spec_chain(
                match self.cmd {
                    ExportType::Rust(x) => x.settings.project,
                    ExportType::Python(x) => x.settings.project,
                    ExportType::Json(x) => x.settings.project,
                },
                spec_chain(self.settings.project, around.project),
            ),
    {
        let outer = self.settings.chain(around);
        match &self.cmd {
            ExportType::Rust(x) => x.settings.chain(&outer),
            ExportType::Python(x) => x.settings.chain(&outer),
            ExportType::Json(x) => x.settings.chain(&outer),
        }
    }
}

} // verus!
