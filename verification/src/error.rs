use vstd::prelude::*;

verus! {

/// Errors raised while managing a project or generating code from it.
#[allow(inconsistent_fields)]
#[derive(Debug, PartialEq, Eq)]
pub enum GenError {
    UnknownSchema { name: String },
    UnknownChangeset { name: u64 },
    UnknownReference { name: String },
    DuplicateKeys { kind: String, old: String, new: String, old_hash: u64, new_hash: u64 },
    DivergentChangeset {
        old_version: String,
        new_version: String,
        schema: String,
        expected: u64,
        recieved: u64,
    },
    MalformedVersionTree { kind: String, missing_key: String },
    UnreachableSchema { target: String },
    MissingFolder { folder: String },
    InvalidProjectPath(String),
    MalformedPath,
    ExportFailed(String),
}

pub type GenResult<T> = Result<T, GenError>;

} // verus!
