use vstd::prelude::*;
use vstd::string::*;

use crate::code_generator::{CodeGenerator, Python, Rust};
use crate::direction::Direction;
use crate::error::GenResult;
use crate::generated_code::{spec_add_content, spec_create_file, spec_merge, GeneratedCode};
use crate::paths::spec_join_path;
use crate::project::Project;
use crate::python_items::write_init;
use crate::python_schema::{py_schema_aggregate_content, py_schema_files};
use crate::rust_migrations::{all_walks, entry_pairs, migration_files, parents_in};
use crate::rust_project::{any_graph_text, any_schema_text, project_mod_text, write_any_graph, write_any_schema, write_project_mod};
use crate::rust_schema::{schema_aggregate_content, schema_files, schema_folder_paths, schema_folders};
use crate::text::texts;

verus! {

/// The versions a changeset leads back to from `v`, in the order of the version tree.
pub open spec fn parents_of_version(p: Project, v: Seq<char>) -> Seq<Seq<char>> {
    parents_in(entry_pairs(p.version_entries(Direction::Backwards)), v)
}

/// The Rust files of the schemas named in `order`, merged in that order, under `folder`.
pub open spec fn rust_schema_parts(p: Project, order: Seq<Seq<char>>, folder: Seq<char>) -> Map<
    Seq<char>,
    Option<Seq<char>>,
>
    decreases order.len(),
{
    if order.len() == 0 {
        Map::empty()
    } else {
        let v = order.last();
        let schema = p.schema_map()[v];
        spec_merge(
            rust_schema_parts(p, order.drop_last(), folder),
            schema_files(schema, parents_of_version(p, v), schema_folder_paths(schema.version@, folder)),
        )
    }
}

/// The Rust code of a whole project under `folder`: each schema in the order they were
/// added, the direct migrations along the version tree, any_schema.rs, any_graph.rs and the
/// project's module files.
pub open spec fn rust_project_files(p: Project, folder: Seq<char>) -> Map<Seq<char>, Option<Seq<char>>> {
    let order = p.schema_order();
    let a = rust_schema_parts(p, order, folder);
    let b = spec_merge(
        a,
        migration_files(Map::empty(), all_walks(entry_pairs(p.version_entries(Direction::Backwards))), folder),
    );
    let c = spec_add_content(b, spec_join_path(folder, "any_schema.rs"@), any_schema_text(order));
    let d = spec_add_content(c, spec_join_path(folder, "any_graph.rs"@), any_graph_text(order));
    spec_add_content(
        spec_create_file(d, spec_join_path(folder, "imports.rs"@)),
        spec_join_path(folder, "mod.rs"@),
        project_mod_text(order),
    )
}

/// The Python files of the schemas named in `order`, merged in that order, under `folder`.
pub open spec fn python_schema_parts(p: Project, order: Seq<Seq<char>>, folder: Seq<char>) -> Map<
    Seq<char>,
    Option<Seq<char>>,
>
    decreases order.len(),
{
    if order.len() == 0 {
        Map::empty()
    } else {
        let schema = p.schema_map()[order.last()];
        spec_merge(
            python_schema_parts(p, order.drop_last(), folder),
            py_schema_files(schema, schema_folder_paths(schema.version@, folder)),
        )
    }
}

/// The Python code of a whole project under `folder`: each schema in the order they were
/// added, then the project's `__init__.py` and `imports.py`, whose content is left alone.
pub open spec fn python_project_files(p: Project, folder: Seq<char>) -> Map<Seq<char>, Option<Seq<char>>> {
    spec_create_file(
        spec_create_file(python_schema_parts(p, p.schema_order(), folder), spec_join_path(folder, "__init__.py"@)),
        spec_join_path(folder, "imports.py"@),
    )
}

impl CodeGenerator<Rust> for Project {
    open spec fn filename_text(&self) -> Seq<char> {
        Seq::empty()
    }

    open spec fn generated(&self, p: Seq<char>) -> Map<Seq<char>, Option<Seq<char>>> {
        rust_project_files(*self, p)
    }

    fn get_filename(&self) -> (r: String) {
        String::new()
    }

    fn aggregate_content(&self, p: &str) -> (r: GenResult<GeneratedCode>) {
        let versions = self.iter_schema();
        let ghost order = self.schema_order();
        assert(texts(versions@) =~= order);
        let mut new_files = GeneratedCode::new();
        let n = versions.len();
        let mut i: usize = 0;
        while i < n
            invariant
                n == versions@.len(),
                i <= n,
                order == self.schema_order(),
                texts(versions@) == order,
                forall|k: int| 0 <= k < n ==> self.schema_map().contains_key(#[trigger] versions@[k]@),
                new_files@ == rust_schema_parts(*self, order.take(i as int), p@),
            decreases n - i,
        {
            let version = &versions[i];
            assert(order[i as int] == version@);
            let schema = match self.get_schema(version) {
                Ok(s) => s,
                Err(_) => {
                    return Err(crate::error::GenError::UnknownSchema { name: version.clone() });
                },
            };
            let folders = schema_folders(schema, p);
            let parents = self.get_parents(version.as_str());
            let part = match schema_aggregate_content(schema, &parents, &folders) {
                Ok(g) => g,
                Err(e) => {
                    return Err(e);
                },
            };
            new_files.append(part);
            assert(order.take(i + 1).drop_last() =~= order.take(i as int));
            i = i + 1;
        }
        assert(order.take(n as int) =~= order);
        new_files.append(self.transitive_migrations(p));
        write_any_schema(&versions, &mut new_files, p);
        write_any_graph(&versions, &mut new_files, p);
        write_project_mod(&versions, &mut new_files, p);
        Ok(new_files)
    }
}

impl CodeGenerator<Python> for Project {
    open spec fn filename_text(&self) -> Seq<char> {
        Seq::empty()
    }

    open spec fn generated(&self, p: Seq<char>) -> Map<Seq<char>, Option<Seq<char>>> {
        python_project_files(*self, p)
    }

    fn get_filename(&self) -> (r: String) {
        String::new()
    }

    fn aggregate_content(&self, p: &str) -> (r: GenResult<GeneratedCode>) {
        let versions = self.iter_schema();
        let ghost order = self.schema_order();
        assert(texts(versions@) =~= order);
        let mut new_files = GeneratedCode::new();
        let n = versions.len();
        let mut i: usize = 0;
        while i < n
            invariant
                n == versions@.len(),
                i <= n,
                order == self.schema_order(),
                texts(versions@) == order,
                forall|k: int| 0 <= k < n ==> self.schema_map().contains_key(#[trigger] versions@[k]@),
                new_files@ == python_schema_parts(*self, order.take(i as int), p@),
            decreases n - i,
        {
            let version = &versions[i];
            assert(order[i as int] == version@);
            let schema = match self.get_schema(version) {
                Ok(s) => s,
                Err(_) => {
                    return Err(crate::error::GenError::UnknownSchema { name: version.clone() });
                },
            };
            let folders = schema_folders(schema, p);
            let part = match py_schema_aggregate_content(schema, &folders) {
                Ok(g) => g,
                Err(e) => {
                    return Err(e);
                },
            };
            new_files.append(part);
            assert(order.take(i + 1).drop_last() =~= order.take(i as int));
            i = i + 1;
        }
        assert(order.take(n as int) =~= order);
        write_init(&mut new_files, p);
        Ok(new_files)
    }
}

} // verus!
