use vstd::prelude::*;
use vstd::string::*;

use crate::generated_code::{spec_add_content, spec_create_file, GeneratedCode};
use crate::paths::{join_path, spec_join_path};
use crate::rust_schema::schema_name_text;
use crate::text::{
    concat_map, dots_to_underscores, fill, fill_holes, lemma_concat_map_all, lemma_concat_map_step,
    replace_dots, snake_text, str_texts, texts, to_snake_case, write_fill, write_holes,
};

verus! {

/// The template `parts` filled with the generated name of each schema version.
pub open spec fn on_versions(parts: Seq<&str>) -> spec_fn(Seq<char>) -> Seq<char> {
    |v: Seq<char>| fill(parts, schema_name_text(v))
}

/// Write the template `parts` once for each version, with its generated name in each hole.
pub fn write_each_version(s: &mut String, versions: &Vec<String>, parts: &[&str])
    ensures
        final(s)@ == old(s)@ + concat_map(texts(versions@), on_versions(parts@)),
{
    let n = versions.len();
    let mut i: usize = 0;
    while i < n
        invariant
            n == versions@.len(),
            i <= n,
            s@ == old(s)@ + concat_map(texts(versions@).subrange(0, i as int), on_versions(parts@)),
        decreases n - i,
    {
        proof {
            lemma_concat_map_step(texts(versions@), i as int, on_versions(parts@));
        }
        let ghost before = s@;
        let name = replace_dots(versions[i].as_str());
        write_fill(s, parts, name.as_str());
        assert(s@ =~= before + on_versions(parts@)(versions@[i as int]@));
        i = i + 1;
    }
    proof {
        lemma_concat_map_all(texts(versions@), on_versions(parts@));
    }
}

/// The chain of `if let` that parses a schema name into the first version that accepts it.
pub open spec fn parse_chain(vs: Seq<Seq<char>>) -> Seq<char>
    decreases vs.len(),
{
    if vs.len() == 0 {
        Seq::empty()
    } else {
        parse_chain(vs.drop_last()) + (if vs.len() == 1 {
            "        "@
        } else {
            " else "@
        }) + "if let Ok(v) = value.parse() {\n"@ + "            Ok(AnySchema::"@ + schema_name_text(
            vs.last(),
        ) + "(v))\n"@ + "        }"@
    }
}

/// The whole any_schema.rs of a project with the schema versions `vs`.
pub open spec fn any_schema_text(vs: Seq<Seq<char>>) -> Seq<char> {
    "use serde::{Serialize, Deserialize};\nuse super::*;\nuse typed_graph::*;\nuse std::str::FromStr;\n\n#[derive(Serialize, Deserialize, Clone, Debug)]\n#[serde(untagged, bound = \"NK: Clone, EK: Clone\")]\npub enum AnySchema<NK, EK> {\n"@
        + concat_map(vs, on_versions(seq!["    ", "(", "<NK, EK>),\n"]))
        + "}\n\nimpl<NK, EK> FromStr for AnySchema<NK, EK> {\n    type Err = GenericTypedError<String, String>;\n\n    fn from_str(value: &str) -> Result<Self, Self::Err> {\n"@
        + parse_chain(vs) + " else {\n"@
        + "            Err(GenericTypedError::InvalidSchemaName(value.to_string(), \"AnySchema\".to_string()))\n"@
        + "        }\n    }\n}\n\nimpl<NK, EK> ToString for AnySchema<NK, EK> {\n    fn to_string(&self) -> String {\n        match self {\n"@
        + concat_map(vs, on_versions(seq!["            AnySchema::", "(s) => s.to_string(),\n"]))
        + "        }\n    }\n}\n"@ + concat_map(vs, on_versions(any_schema_from_template()))
}

/// The conversion of each schema into the union of all schemas.
pub open spec fn any_schema_from_template() -> Seq<&'static str> {
    seq![
        "\nimpl<NK, EK> From<",
        "<NK, EK>> for AnySchema<NK, EK> {\n    fn from(v: ",
        "<NK, EK>) -> Self {\n        AnySchema::",
        "(v)\n    }\n}\n",
    ]
}

fn write_parse_chain(s: &mut String, versions: &Vec<String>)
    ensures
        final(s)@ == old(s)@ + parse_chain(texts(versions@)),
{
    let n = versions.len();
    let mut i: usize = 0;
    while i < n
        invariant
            n == versions@.len(),
            i <= n,
            s@ == old(s)@ + parse_chain(texts(versions@.subrange(0, i as int))),
        decreases n - i,
    {
        proof {
            assert(texts(versions@.subrange(0, i + 1)).drop_last() =~= texts(versions@.subrange(0, i as int)));
            assert(texts(versions@.subrange(0, i + 1)).last() == versions@[i as int]@);
            assert(texts(versions@.subrange(0, i + 1)).len() == i + 1);
        }
        let ghost before = s@;
        let name = replace_dots(versions[i].as_str());
        if i == 0 {
            s.append("        ");
        } else {
            s.append(" else ");
        }
        s.append("if let Ok(v) = value.parse() {\n");
        s.append("            Ok(AnySchema::");
        s.append(name.as_str());
        s.append("(v))\n");
        s.append("        }");
        assert(s@ =~= old(s)@ + parse_chain(texts(versions@.subrange(0, i + 1))));
        i = i + 1;
    }
    proof {
        assert(versions@.subrange(0, n as int) =~= versions@);
    }
}

/// The text of any_schema.rs for a project with the schema versions `versions`.
pub fn any_schema_content(versions: &Vec<String>) -> (r: String)
    ensures
        r@ == any_schema_text(texts(versions@)),
{
    let mut s = String::from_str(
        "use serde::{Serialize, Deserialize};\nuse super::*;\nuse typed_graph::*;\nuse std::str::FromStr;\n\n#[derive(Serialize, Deserialize, Clone, Debug)]\n#[serde(untagged, bound = \"NK: Clone, EK: Clone\")]\npub enum AnySchema<NK, EK> {\n",
    );
    write_each_version(&mut s, versions, &["    ", "(", "<NK, EK>),\n"]);
    s.append(
        "}\n\nimpl<NK, EK> FromStr for AnySchema<NK, EK> {\n    type Err = GenericTypedError<String, String>;\n\n    fn from_str(value: &str) -> Result<Self, Self::Err> {\n",
    );
    write_parse_chain(&mut s, versions);
    s.append(" else {\n");
    s.append(
        "            Err(GenericTypedError::InvalidSchemaName(value.to_string(), \"AnySchema\".to_string()))\n",
    );
    s.append(
        "        }\n    }\n}\n\nimpl<NK, EK> ToString for AnySchema<NK, EK> {\n    fn to_string(&self) -> String {\n        match self {\n",
    );
    write_each_version(&mut s, versions, &["            AnySchema::", "(s) => s.to_string(),\n"]);
    s.append("        }\n    }\n}\n");
    let from = [
        "\nimpl<NK, EK> From<",
        "<NK, EK>> for AnySchema<NK, EK> {\n    fn from(v: ",
        "<NK, EK>) -> Self {\n        AnySchema::",
        "(v)\n    }\n}\n",
    ];
    assert(from@ =~= any_schema_from_template());
    write_each_version(&mut s, versions, &from);
    assert(s@ =~= any_schema_text(texts(versions@)));
    s
}

/// Add any_schema.rs to the files of the project folder.
pub fn write_any_schema(versions: &Vec<String>, new_files: &mut GeneratedCode, project_folder: &str)
    ensures
        final(new_files)@ == spec_add_content(
            old(new_files)@,
            spec_join_path(project_folder@, "any_schema.rs"@),
            any_schema_text(texts(versions@)),
        ),
{
    let s = any_schema_content(versions);
    new_files.add_content(join_path(project_folder, "any_schema.rs"), s);
}

/// The start of any_graph.rs, up to the arms of `allow_edge`.
pub open spec fn any_graph_head() -> Seq<char> {
    "use serde::de::{DeserializeOwned, Error};\nuse serde::{Deserialize, Serialize};\nuse serde_json::{Map, Value};\nuse super::*;\nuse std::convert::identity;\nuse typed_graph::any_graph::AnyWeight;\nuse typed_graph::{DisAllowedEdge, DisAllowedNode, EdgeExt, Id, Key, NodeExt, SchemaExt, Typed, TypedGraph, TypedError, DirectMigration};\n\nuse crate::AnySchema;\n\n/// Generic container for any graph generated by typed_graph_cli  \n/// The container does not check for \npub type AnyGraph<NK, EK> = TypedGraph<NK, EK, AnySchema<NK, EK>>;\n\nimpl<NK: Key, EK: Key> SchemaExt<NK, EK> for AnySchema<NK, EK> {\n    type N = AnyWeight<NK>;\n    type E = AnyWeight<EK>;\n\n    fn name(&self) -> String {\n        self.to_string()\n    }\n\n    fn allow_edge(\n        &self,\n        outgoing_edge_count: usize,\n        incoming_edge_count: usize,\n        edge_ty: <Self::E as typed_graph::Typed>::Type,\n        source: <Self::N as typed_graph::Typed>::Type,\n        target: <Self::N as typed_graph::Typed>::Type,\n    ) -> Result<(), typed_graph::DisAllowedEdge> {\n        match self {\n"@
}

/// The arm of `allow_edge` for each schema.
pub open spec fn any_graph_edge_arm() -> Seq<&'static str> {
    seq![
        "            AnySchema::",
        "(schema) => {\n                schema.allow_edge(\n                    outgoing_edge_count, \n                    incoming_edge_count, \n                    edge_ty.parse().map_err(|_| DisAllowedEdge::InvalidType)?, \n                    source.parse().map_err(|_| DisAllowedEdge::InvalidType)?, \n                    target.parse().map_err(|_| DisAllowedEdge::InvalidType)?\n                )?\n            },\n",
    ]
}

/// The end of `allow_edge` and the start of `allow_node`, up to its arms.
pub open spec fn any_graph_middle() -> Seq<char> {
    "        }\n        Ok(())\n    }\n\n    fn allow_node(&self, node_ty: <Self::N as typed_graph::Typed>::Type) -> Result<(), typed_graph::DisAllowedNode> {\n        match self {\n"@
}

/// The arm of `allow_node` for each schema.
pub open spec fn any_graph_node_arm() -> Seq<&'static str> {
    seq![
        "            AnySchema::",
        "(schema) => {\n                schema.allow_node(\n                    node_ty.parse().map_err(|_| DisAllowedNode::InvalidType)?\n                )?\n            },\n",
    ]
}

/// The end of `allow_node` and of the schema impl.
pub open spec fn any_graph_impl_end() -> Seq<char> {
    "        }\n        Ok(())\n    }\n}\n"@
}

/// The migrations between each schema and the union of all schemas.
pub open spec fn any_graph_migration_template() -> Seq<&'static str> {
    seq![
        "\nimpl<NK, EK> DirectMigration<NK, EK, ",
        "<NK, EK>>  for AnySchema<NK, EK>\nwhere \n    NK: Key + DeserializeOwned + Serialize, \n    EK: Key + DeserializeOwned + Serialize\n{\n    fn migrate(\n        g: typed_graph::TypedGraph<NK, EK, Self>,\n    ) -> typed_graph::GenericTypedResult<typed_graph::TypedGraph<NK, EK, ",
        "<NK, EK>>, NK, EK> {\n        let new_schema = ",
        "::default();\n        let new_schema_name = new_schema.to_string();\n        let old_schema_name = g.get_schema().to_string();\n        if new_schema_name != old_schema_name {\n            return Err(TypedError::InvalidSchemaName(new_schema_name, old_schema_name));\n        }\n\n        let new_g = g\n            .update_schema(\n                new_schema,\n                |_current_schema, _new_schema, node| Ok(Some(serde_json::from_value(serde_json::to_value(&node)?)?)),\n                |_current_schema, _new_schema, edge| Ok(Some(serde_json::from_value(serde_json::to_value(&edge)?)?)),\n            )\n            // filter_map returns an error for the new schema\n            // So we have to convert it into an error for the joined schema\n            .map_err(|e| e.map(identity, identity, |n| n.to_string(), |n| n.to_string()))?;\n\n        Ok(new_g)\n    }\n}\n\nimpl<NK, EK> DirectMigration<NK, EK, AnySchema<NK, EK>>  for ",
        "<NK, EK>\nwhere \n    NK: Key + DeserializeOwned + Serialize, \n    EK: Key + DeserializeOwned + Serialize\n{\n    fn migrate(\n        g: typed_graph::TypedGraph<NK, EK, Self>,\n    ) -> typed_graph::GenericTypedResult<typed_graph::TypedGraph<NK, EK, AnySchema<NK, EK>>, NK, EK> {\n        let new_schema = g.get_schema().clone().into();\n        let new_g = g\n            .update_schema(\n                new_schema,\n                |_current_schema, _new_schema, node| Ok(Some(serde_json::to_value(&node)?.try_into()?)),\n                |_current_schema, _new_schema, edge| Ok(Some(serde_json::to_value(&edge)?.try_into()?)),\n            )\n            // filter_map returns an error for the new schema\n            // So we have to convert it into an error for the joined schema\n            .map_err(|e| e.map(identity, identity, |n| n, |n| n))?;\n        Ok(new_g)\n    }\n}\n",
    ]
}

/// The whole any_graph.rs of a project with the schema versions `vs`.
pub open spec fn any_graph_text(vs: Seq<Seq<char>>) -> Seq<char> {
    any_graph_head() + concat_map(vs, on_versions(any_graph_edge_arm())) + any_graph_middle()
        + concat_map(vs, on_versions(any_graph_node_arm())) + any_graph_impl_end()
        + concat_map(vs, on_versions(any_graph_migration_template()))
}

/// The text of any_graph.rs for a project with the schema versions `versions`.
pub fn any_graph_content(versions: &Vec<String>) -> (r: String)
    ensures
        r@ == any_graph_text(texts(versions@)),
{
    let mut s = String::from_str(
        "use serde::de::{DeserializeOwned, Error};\nuse serde::{Deserialize, Serialize};\nuse serde_json::{Map, Value};\nuse super::*;\nuse std::convert::identity;\nuse typed_graph::any_graph::AnyWeight;\nuse typed_graph::{DisAllowedEdge, DisAllowedNode, EdgeExt, Id, Key, NodeExt, SchemaExt, Typed, TypedGraph, TypedError, DirectMigration};\n\nuse crate::AnySchema;\n\n/// Generic container for any graph generated by typed_graph_cli  \n/// The container does not check for \npub type AnyGraph<NK, EK> = TypedGraph<NK, EK, AnySchema<NK, EK>>;\n\nimpl<NK: Key, EK: Key> SchemaExt<NK, EK> for AnySchema<NK, EK> {\n    type N = AnyWeight<NK>;\n    type E = AnyWeight<EK>;\n\n    fn name(&self) -> String {\n        self.to_string()\n    }\n\n    fn allow_edge(\n        &self,\n        outgoing_edge_count: usize,\n        incoming_edge_count: usize,\n        edge_ty: <Self::E as typed_graph::Typed>::Type,\n        source: <Self::N as typed_graph::Typed>::Type,\n        target: <Self::N as typed_graph::Typed>::Type,\n    ) -> Result<(), typed_graph::DisAllowedEdge> {\n        match self {\n",
    );
    let arm = [
        "            AnySchema::",
        "(schema) => {\n                schema.allow_edge(\n                    outgoing_edge_count, \n                    incoming_edge_count, \n                    edge_ty.parse().map_err(|_| DisAllowedEdge::InvalidType)?, \n                    source.parse().map_err(|_| DisAllowedEdge::InvalidType)?, \n                    target.parse().map_err(|_| DisAllowedEdge::InvalidType)?\n                )?\n            },\n",
    ];
    assert(arm@ =~= any_graph_edge_arm());
    write_each_version(&mut s, versions, &arm);
    s.append(
        "        }\n        Ok(())\n    }\n\n    fn allow_node(&self, node_ty: <Self::N as typed_graph::Typed>::Type) -> Result<(), typed_graph::DisAllowedNode> {\n        match self {\n",
    );
    let node_arm = [
        "            AnySchema::",
        "(schema) => {\n                schema.allow_node(\n                    node_ty.parse().map_err(|_| DisAllowedNode::InvalidType)?\n                )?\n            },\n",
    ];
    assert(node_arm@ =~= any_graph_node_arm());
    write_each_version(&mut s, versions, &node_arm);
    s.append("        }\n        Ok(())\n    }\n}\n");
    let migration = [
        "\nimpl<NK, EK> DirectMigration<NK, EK, ",
        "<NK, EK>>  for AnySchema<NK, EK>\nwhere \n    NK: Key + DeserializeOwned + Serialize, \n    EK: Key + DeserializeOwned + Serialize\n{\n    fn migrate(\n        g: typed_graph::TypedGraph<NK, EK, Self>,\n    ) -> typed_graph::GenericTypedResult<typed_graph::TypedGraph<NK, EK, ",
        "<NK, EK>>, NK, EK> {\n        let new_schema = ",
        "::default();\n        let new_schema_name = new_schema.to_string();\n        let old_schema_name = g.get_schema().to_string();\n        if new_schema_name != old_schema_name {\n            return Err(TypedError::InvalidSchemaName(new_schema_name, old_schema_name));\n        }\n\n        let new_g = g\n            .update_schema(\n                new_schema,\n                |_current_schema, _new_schema, node| Ok(Some(serde_json::from_value(serde_json::to_value(&node)?)?)),\n                |_current_schema, _new_schema, edge| Ok(Some(serde_json::from_value(serde_json::to_value(&edge)?)?)),\n            )\n            // filter_map returns an error for the new schema\n            // So we have to convert it into an error for the joined schema\n            .map_err(|e| e.map(identity, identity, |n| n.to_string(), |n| n.to_string()))?;\n\n        Ok(new_g)\n    }\n}\n\nimpl<NK, EK> DirectMigration<NK, EK, AnySchema<NK, EK>>  for ",
        "<NK, EK>\nwhere \n    NK: Key + DeserializeOwned + Serialize, \n    EK: Key + DeserializeOwned + Serialize\n{\n    fn migrate(\n        g: typed_graph::TypedGraph<NK, EK, Self>,\n    ) -> typed_graph::GenericTypedResult<typed_graph::TypedGraph<NK, EK, AnySchema<NK, EK>>, NK, EK> {\n        let new_schema = g.get_schema().clone().into();\n        let new_g = g\n            .update_schema(\n                new_schema,\n                |_current_schema, _new_schema, node| Ok(Some(serde_json::to_value(&node)?.try_into()?)),\n                |_current_schema, _new_schema, edge| Ok(Some(serde_json::to_value(&edge)?.try_into()?)),\n            )\n            // filter_map returns an error for the new schema\n            // So we have to convert it into an error for the joined schema\n            .map_err(|e| e.map(identity, identity, |n| n, |n| n))?;\n        Ok(new_g)\n    }\n}\n",
    ];
    assert(migration@ =~= any_graph_migration_template());
    write_each_version(&mut s, versions, &migration);
    assert(s@ =~= any_graph_text(texts(versions@)));
    s
}

/// Add any_graph.rs to the files of the project folder.
pub fn write_any_graph(versions: &Vec<String>, new_files: &mut GeneratedCode, project_folder: &str)
    ensures
        final(new_files)@ == spec_add_content(
            old(new_files)@,
            spec_join_path(project_folder@, "any_graph.rs"@),
            any_graph_text(texts(versions@)),
        ),
{
    let s = any_graph_content(versions);
    new_files.add_content(join_path(project_folder, "any_graph.rs"), s);
}

/// The lines of the project's mod.rs that bring in one schema.
pub open spec fn project_mod_entry() -> spec_fn(Seq<char>) -> Seq<char> {
    |v: Seq<char>|
        {
            let name = schema_name_text(v);
            let file = snake_text(name);
            fill_holes(
                seq!["pub mod ", ";\n#[allow(unused)]\npub use ", "::", ";\n"],
                seq![file, file, name],
            )
        }
}

/// The project's mod.rs.
pub open spec fn project_mod_text(vs: Seq<Seq<char>>) -> Seq<char> {
    "#[allow(unused)]\nmod imports;\n\n"@ + concat_map(vs, project_mod_entry())
        + "\nmod any_schema;\npub use any_schema::*;\nmod any_graph;\npub use any_graph::*;\n"@
}

/// Add the project's mod.rs, and an empty imports.rs, to the files of the project folder.
pub fn write_project_mod(versions: &Vec<String>, new_files: &mut GeneratedCode, project_folder: &str)
    ensures
        final(new_files)@ == spec_add_content(
            spec_create_file(old(new_files)@, spec_join_path(project_folder@, "imports.rs"@)),
            spec_join_path(project_folder@, "mod.rs"@),
            project_mod_text(texts(versions@)),
        ),
{
    let mut s = String::from_str("#[allow(unused)]\nmod imports;\n\n");
    let ghost start = s@;
    let n = versions.len();
    let mut i: usize = 0;
    while i < n
        invariant
            n == versions@.len(),
            i <= n,
            s@ == start + concat_map(texts(versions@).subrange(0, i as int), project_mod_entry()),
        decreases n - i,
    {
        proof {
            lemma_concat_map_step(texts(versions@), i as int, project_mod_entry());
        }
        let ghost before = s@;
        let name = replace_dots(versions[i].as_str());
        let file = to_snake_case(name.as_str());
        let holes = [file.as_str(), file.as_str(), name.as_str()];
        assert(str_texts(holes@) =~= seq![file@, file@, name@]);
        write_holes(&mut s, &["pub mod ", ";\n#[allow(unused)]\npub use ", "::", ";\n"], &holes);
        assert(s@ =~= before + project_mod_entry()(versions@[i as int]@));
        i = i + 1;
    }
    proof {
        lemma_concat_map_all(texts(versions@), project_mod_entry());
    }
    s.append("\nmod any_schema;\npub use any_schema::*;\nmod any_graph;\npub use any_graph::*;\n");
    new_files.create_file(join_path(project_folder, "imports.rs"));
    new_files.add_content(join_path(project_folder, "mod.rs"), s);
}

} // verus!
