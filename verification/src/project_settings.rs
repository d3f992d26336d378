use vstd::prelude::*;
use vstd::string::*;

verus! {

/// Settings shared by the commands that work on a project.
#[derive(Debug, Default)]
pub struct ProjectSettings {
    /// Optional path to the project folder.
    pub project: Option<String>,
}

/// The path `settings` hold, falling back on `fallback`.
pub open spec fn spec_chain(own: Option<String>, fallback: Option<String>) -> Option<String> {
    match own {
        Some(p) => Some(p),
        None => fallback,
    }
}

/// The project path of a command: the given one, or `project` in the current folder.
pub open spec fn spec_project_path(project: Option<String>) -> Seq<char> {
    match project {
        Some(p) => p@,
        None => "project"@,
    }
}

impl ProjectSettings {
    /// Settings that take the path from `self` and, where `self` has none, from `other`.
    pub fn chain(&self, other: &ProjectSettings) -> (r: Self)
        ensures
            r.project == spec_chain(self.project, other.project),
    {
        let project = match &self.project {
            Some(p) => Some(p.clone()),
            None => match &other.project {
                Some(p) => Some(p.clone()),
                None => None,
            },
        };
        ProjectSettings { project }
    }

    pub fn get_project_path(&self) -> (r: String)
        ensures
            r@ == spec_project_path(self.project),
    {
        match &self.project {
            Some(p) => p.clone(),
            None => String::from_str("project"),
        }
    }
}

/// Chaining settings is associative: which path wins does not depend on how the chain is grouped.
pub proof fn law_chain_associative(a: Option<String>, b: Option<String>, c: Option<String>)
    ensures
        spec_chain(spec_chain(a, b), c) == spec_chain(a, spec_chain(b, c)),
{
}

/// Settings without a path are neutral on both sides of a chain.
pub proof fn law_chain_identity(a: Option<String>)
    ensures
        spec_chain(None, a) == a,
        spec_chain(a, None) == a,
{
}

} // verus!
