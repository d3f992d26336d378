//! Code generation and project bookkeeping for typed graph schemas.
pub mod direction;
pub mod types;
pub mod to_python_type;
pub mod to_rust_type;
pub mod error;
pub mod edge_representation;
pub mod paths;
pub mod generated_code;
pub mod project_settings;
pub mod naming;
pub mod assoc;
pub mod schema;
pub mod project;
pub mod hex;
pub mod text;
pub mod ordering;
pub mod rust_fields;
pub mod code_generator;
pub mod rust_items;
pub mod rust_node;
pub mod rust_schema_nodes;
pub mod rust_schema_edges;
pub mod rust_endpoints;
pub mod rust_schema;
pub mod rust_changeset;
pub mod rust_project;
pub mod rust_migrations;
pub mod python_fields;
pub mod python_items;
pub mod python_endpoints;
pub mod python_schema;
pub mod svg_labels;
pub mod cli;
pub mod listing;
pub mod missing_schemas;
pub mod project_export;
pub mod book;
pub mod book_examples;
pub mod book_pages;
