use vstd::prelude::*;

verus! {

/// The direction in which a changeset or an edge is followed.
#[derive(PartialEq, Eq, Structural, Debug, Clone, Copy, Hash)]
pub enum Direction {
    Forward,
    Backwards,
}

/// Name of the graph search direction used in generated getters.
pub open spec fn spec_search_dir(dir: Direction) -> Seq<char> {
    match dir {
        Direction::Forward => "outgoing"@,
        Direction::Backwards => "incoming"@,
    }
}

pub fn search_dir(dir: Direction) -> (r: &'static str)
    ensures
        r@ == spec_search_dir(dir),
{
    match dir {
        Direction::Forward => "outgoing",
        Direction::Backwards => "incoming",
    }
}

/// Suffix appended to generated getter names.
pub open spec fn spec_function_suffix(dir: Direction) -> Seq<char> {
    match dir {
        Direction::Forward => "out"@,
        Direction::Backwards => "inc"@,
    }
}

pub fn function_suffix(dir: Direction) -> (r: &'static str)
    ensures
        r@ == spec_function_suffix(dir),
{
    match dir {
        Direction::Forward => "out",
        Direction::Backwards => "inc",
    }
}

/// Name of the attribute that renames a generated getter.
pub open spec fn spec_rename_attribute_name(dir: Direction) -> Seq<char> {
    match dir {
        Direction::Forward => "rename_out"@,
        Direction::Backwards => "rename_inc"@,
    }
}

pub fn rename_attribute_name(dir: Direction) -> (r: &'static str)
    ensures
        r@ == spec_rename_attribute_name(dir),
{
    match dir {
        Direction::Forward => "rename_out",
        Direction::Backwards => "rename_inc",
    }
}

} // verus!
