use vstd::prelude::*;

use crate::edge_representation::LowerBound;
use crate::types::Types;

verus! {

/// Comments attached to a statement or a field: documentation lines and other lines.
pub struct Comments {
    pub doc: Vec<String>,
    pub other: Vec<String>,
}

impl Comments {
    pub fn has_doc(&self) -> (r: bool)
        ensures
            r == (self.doc@.len() > 0),
    {
        self.doc.len() > 0
    }
}

#[derive(PartialEq, Eq, Structural, Debug, Clone, Copy)]
pub enum Visibility {
    Local,
    Public,
}

/// An attribute written as a function call, such as `derive(Hash)` or `rename_out(name, Target)`.
pub struct AttributeFunction {
    pub name: String,
    pub values: Vec<String>,
}

/// An attribute written as `key = value`.
pub struct KeyValue {
    pub key: String,
    pub value: String,
}

/// The attributes of a statement, a field or a variant, with the serde settings already read off.
pub struct Attributes {
    /// The item is skipped when serialising.
    pub skipped: bool,
    /// The item falls back on its default value.
    pub default: bool,
    /// The item is serialised untagged.
    pub untagged: bool,
    /// Other names the item is read under.
    pub aliases: Vec<String>,
    pub functions: Vec<AttributeFunction>,
    pub key_values: Vec<KeyValue>,
}

/// A named field of a node, an edge, a struct or a struct variant.
pub struct FieldValue {
    pub name: String,
    pub field_type: Types,
    pub visibility: Visibility,
    pub attributes: Attributes,
    pub comments: Comments,
}

pub struct NodeExp {
    pub name: String,
    pub comments: Comments,
    pub attributes: Attributes,
    pub fields: Vec<FieldValue>,
}

pub struct StructExp {
    pub name: String,
    pub comments: Comments,
    pub attributes: Attributes,
    /// Letters of the generic parameters.
    pub generics: Vec<String>,
    pub fields: Vec<FieldValue>,
}

pub enum EnumVarient {
    Unit { name: String, comments: Comments, attributes: Attributes },
    Opaque { name: String, comments: Comments, attributes: Attributes, ty: Types },
    Struct { name: String, comments: Comments, attributes: Attributes, fields: Vec<FieldValue> },
}

pub struct EnumExp {
    pub name: String,
    pub comments: Comments,
    pub attributes: Attributes,
    pub generics: Vec<String>,
    pub varients: Vec<EnumVarient>,
}

/// Upper limit on the number of edges: included, excluded or none.
#[derive(PartialEq, Eq, Structural, Debug, Clone, Copy)]
pub enum QuantityBound {
    Included(u32),
    Excluded(u32),
    Unbounded,
}

/// How many edges of a kind a node may have.
#[derive(Debug, Clone, Copy)]
pub struct Quantifier {
    pub bounds: Option<(LowerBound, u32)>,
    pub quantity: QuantityBound,
}

/// One allowed pair of node types for an edge type.
pub struct EndPoint {
    pub source: String,
    pub target: String,
    pub quantity: Quantifier,
    pub incoming_quantity: Quantifier,
    pub outgoing_quantity: Quantifier,
    pub attributes: Attributes,
}

pub struct EdgeExp {
    pub name: String,
    pub comments: Comments,
    pub attributes: Attributes,
    pub fields: Vec<FieldValue>,
    pub endpoints: Vec<EndPoint>,
}

pub struct ImportExp {
    pub name: String,
    pub comments: Comments,
}

pub enum SchemaStm {
    Node(NodeExp),
    Edge(EdgeExp),
    Struct(StructExp),
    Enum(EnumExp),
    Import(ImportExp),
}

/// A schema: its version name, its statements and the hash of its content.
pub struct Schema {
    pub version: String,
    pub content: Vec<SchemaStm>,
    pub hash: u64,
}

/// What a changeset says about one place in a schema.
pub enum ChangeKind {
    /// The field was added.
    AddedField,
    /// The field was removed.
    RemovedField,
    /// The variant was added.
    AddedVarient,
    /// The type of the field changed.
    EditedFieldType { old_type: Types, new_type: Types },
    /// The generic parameters of the type changed; these were the old letters.
    EditedGenerics { old_generics: Vec<String> },
}

/// One change of a changeset, at a path: the name of a type, then of a variant or a
/// field, then of a field of a variant.
pub struct SingleChange {
    pub path: Vec<String>,
    pub kind: ChangeKind,
}

/// A changeset between two schemas, as far as the project keeps track of it.
pub struct ChangeSet {
    pub old_version: String,
    pub new_version: String,
    pub old_hash: u64,
    pub new_hash: u64,
    /// The hash of the changeset, which identifies it in a project.
    pub id: u64,
    /// The migration handler named in the changeset, if any.
    pub handler: Option<String>,
    /// The changes, in order.
    pub changes: Vec<SingleChange>,
}

} // verus!
