use vstd::prelude::*;
use vstd::string::*;

use crate::error::GenResult;
use crate::schema::Quantifier;

verus! {

/// Lower bound of how many edges of a kind a node may have.
#[derive(PartialEq, Eq, Structural, Debug, Clone, Copy)]
pub enum LowerBound {
    Zero,
    One,
}

/// How the result of following edges is handed back by a generated getter.
///
/// Sorted by most to least restrictive: the greater representation is the
/// more inclusive one.
#[derive(Debug, Clone, Copy, PartialEq, Eq, Structural, PartialOrd, Ord)]
pub enum EdgeRepresentation {
    Result,
    Option,
    Iterator,
}

/// Position of a representation in the order from most to least restrictive.
pub open spec fn rank(r: EdgeRepresentation) -> nat {
    match r {
        EdgeRepresentation::Result => 0,
        EdgeRepresentation::Option => 1,
        EdgeRepresentation::Iterator => 2,
    }
}

/// The representation fitting the bounds of a quantity.
pub open spec fn spec_from_bounds(bounds: Option<(LowerBound, u32)>) -> EdgeRepresentation {
    match bounds {
        Some((lower, upper)) => if lower == LowerBound::One && upper == 1 {
            EdgeRepresentation::Result
        } else if upper == 1 {
            EdgeRepresentation::Option
        } else {
            EdgeRepresentation::Iterator
        },
        None => EdgeRepresentation::Iterator,
    }
}

/// The more inclusive of two representations.
pub open spec fn spec_most_inclusive(a: EdgeRepresentation, b: EdgeRepresentation) -> EdgeRepresentation {
    if rank(a) >= rank(b) {
        a
    } else {
        b
    }
}

pub open spec fn spec_return_type_rust(
    r: EdgeRepresentation,
    edge_type: Seq<char>,
    node_type: Seq<char>,
    schema_name: Seq<char>,
) -> Seq<char> {
    let pair = "("@ + edge_type + ", "@ + node_type + ")"@;
    let tail = ", NK, EK, "@ + schema_name + "<NK, EK>>"@;
    match r {
        EdgeRepresentation::Result => "SchemaResult<"@ + pair + tail,
        EdgeRepresentation::Option => "SchemaResult<Option<"@ + pair + ">"@ + tail,
        EdgeRepresentation::Iterator => "SchemaResult<impl Iterator<Item = "@ + pair + "> + 'a"@ + tail,
    }
}

pub open spec fn spec_collect_results_rust(r: EdgeRepresentation, edge_type: Seq<char>) -> Seq<char> {
    match r {
        EdgeRepresentation::Iterator => Seq::empty(),
        EdgeRepresentation::Option => "           .next()\n"@,
        EdgeRepresentation::Result => "           .next()\n"@
            + "           .ok_or_else(|| TypedError::InvalidLowerBound(self.get_id(), self.get_type(), \"["@
            + edge_type + "]\".to_string()))?\n"@,
    }
}

pub open spec fn spec_return_type_python(
    r: EdgeRepresentation,
    edge_type: Seq<char>,
    node_type: Seq<char>,
) -> Seq<char> {
    let pair = "Tuple['"@ + edge_type + "', '"@ + node_type + "']"@;
    match r {
        EdgeRepresentation::Result => pair,
        EdgeRepresentation::Option => "Optional["@ + pair + "]"@,
        EdgeRepresentation::Iterator => "Iterator["@ + pair + "]"@,
    }
}

pub open spec fn spec_collect_results_python(r: EdgeRepresentation, edge_type: Seq<char>) -> Seq<char> {
    match r {
        EdgeRepresentation::Iterator => Seq::empty(),
        EdgeRepresentation::Option => "        nodes = next(nodes, None)\n"@,
        EdgeRepresentation::Result => "        nodes = next(nodes, None)\n"@
            + "        if nodes is None:\n"@
            + "            raise RecievedNoneValue(f'{self.get_id()}({self.get_type()})', '"@
            + edge_type + "')\n"@,
    }
}

impl EdgeRepresentation {
    /// The representation fitting the bounds of a quantifier.
    pub fn from_quantity(quantity: &Quantifier) -> (r: EdgeRepresentation)
        ensures
            r == spec_from_bounds(quantity.bounds),
    {
        EdgeRepresentation::from_bounds(&quantity.bounds)
    }

    pub fn from_bounds(bounds: &Option<(LowerBound, u32)>) -> (r: EdgeRepresentation)
        ensures
            r == spec_from_bounds(*bounds),
    {
        match bounds {
            Some((lower, upper)) => {
                if *lower == LowerBound::One && *upper == 1 {
                    EdgeRepresentation::Result
                } else if *upper == 1 {
                    EdgeRepresentation::Option
                } else {
                    EdgeRepresentation::Iterator
                }
            },
            None => EdgeRepresentation::Iterator,
        }
    }

    /// The more inclusive of `self` and `other`.
    pub fn most_inclusive(self, other: EdgeRepresentation) -> (r: EdgeRepresentation)
        ensures
            r == spec_most_inclusive(self, other),
    {
        let a: u8 = match self {
            EdgeRepresentation::Result => 0,
            EdgeRepresentation::Option => 1,
            EdgeRepresentation::Iterator => 2,
        };
        let b: u8 = match other {
            EdgeRepresentation::Result => 0,
            EdgeRepresentation::Option => 1,
            EdgeRepresentation::Iterator => 2,
        };
        if a >= b {
            self
        } else {
            other
        }
    }

    /// Which Rust type a generated getter returns.
    pub fn get_return_type_rust(&self, edge_type: &str, node_type: &str, schema_name: &str) -> (r: String)
        ensures
            r@ == spec_return_type_rust(*self, edge_type@, node_type@, schema_name@),
    {
        let mut r = match self {
            EdgeRepresentation::Result => String::from_str("SchemaResult<"),
            EdgeRepresentation::Option => String::from_str("SchemaResult<Option<"),
            EdgeRepresentation::Iterator => String::from_str("SchemaResult<impl Iterator<Item = "),
        };
        let ghost start = r@;
        r.append("(");
        r.append(edge_type);
        r.append(", ");
        r.append(node_type);
        r.append(")");
        let ghost pair = "("@ + edge_type@ + ", "@ + node_type@ + ")"@;
        assert(r@ =~= start + pair);
        match self {
            EdgeRepresentation::Result => {},
            EdgeRepresentation::Option => r.append(">"),
            EdgeRepresentation::Iterator => r.append("> + 'a"),
        }
        let ghost mid = r@;
        r.append(", NK, EK, ");
        r.append(schema_name);
        r.append("<NK, EK>>");
        assert(r@ =~= mid + (", NK, EK, "@ + schema_name@ + "<NK, EK>>"@));
        r
    }

    /// Given an iterator of (edge, node) pairs, write the Rust code collecting it into the representation.
    pub fn collect_results_rust(&self, edge_type: &str, s: &mut String) -> (r: GenResult<()>)
        ensures
            r is Ok,
            final(s)@ == old(s)@ + spec_collect_results_rust(*self, edge_type@),
    {
        match self {
            EdgeRepresentation::Iterator => {
                assert(s@ =~= s@ + Seq::<char>::empty());
            },
            EdgeRepresentation::Option => s.append("           .next()\n"),
            EdgeRepresentation::Result => {
                let ghost s0 = s@;
                s.append("           .next()\n");
                s.append(
                    "           .ok_or_else(|| TypedError::InvalidLowerBound(self.get_id(), self.get_type(), \"[",
                );
                s.append(edge_type);
                s.append("]\".to_string()))?\n");
                assert(s@ =~= s0 + spec_collect_results_rust(*self, edge_type@));
            },
        }
        Ok(())
    }

    /// Which Python type a generated getter returns.
    pub fn get_return_type_python(&self, edge_type: &str, node_type: &str) -> (r: String)
        ensures
            r@ == spec_return_type_python(*self, edge_type@, node_type@),
    {
        let mut pair = String::from_str("Tuple['");
        pair.append(edge_type);
        pair.append("', '");
        pair.append(node_type);
        pair.append("']");
        match self {
            EdgeRepresentation::Result => pair,
            EdgeRepresentation::Option => {
                let mut r = String::from_str("Optional[");
                r.append(pair.as_str());
                r.append("]");
                r
            },
            EdgeRepresentation::Iterator => {
                let mut r = String::from_str("Iterator[");
                r.append(pair.as_str());
                r.append("]");
                r
            },
        }
    }

    /// Given an iterator of (edge, node) pairs, write the Python code collecting it into the representation.
    pub fn collect_results_python(&self, edge_type: &str, s: &mut String) -> (r: GenResult<()>)
        ensures
            r is Ok,
            final(s)@ == old(s)@ + spec_collect_results_python(*self, edge_type@),
    {
        match self {
            EdgeRepresentation::Iterator => {
                assert(s@ =~= s@ + Seq::<char>::empty());
            },
            EdgeRepresentation::Option => s.append("        nodes = next(nodes, None)\n"),
            EdgeRepresentation::Result => {
                let ghost s0 = s@;
                s.append("        nodes = next(nodes, None)\n");
                s.append("        if nodes is None:\n");
                s.append(
                    "            raise RecievedNoneValue(f'{self.get_id()}({self.get_type()})', '",
                );
                s.append(edge_type);
                s.append("')\n");
                assert(s@ =~= s0 + spec_collect_results_python(*self, edge_type@));
            },
        }
        Ok(())
    }
}

/// The more inclusive of two representations is one of them, at least as inclusive
/// as both, and does not depend on their order.
pub proof fn law_most_inclusive_bound(a: EdgeRepresentation, b: EdgeRepresentation)
    ensures
        spec_most_inclusive(a, b) == a || spec_most_inclusive(a, b) == b,
        rank(spec_most_inclusive(a, b)) >= rank(a),
        rank(spec_most_inclusive(a, b)) >= rank(b),
        spec_most_inclusive(a, b) == spec_most_inclusive(b, a),
        spec_most_inclusive(a, a) == a,
{
}

/// Folding representations together with `most_inclusive` does not depend on grouping.
pub proof fn law_most_inclusive_associative(a: EdgeRepresentation, b: EdgeRepresentation, c: EdgeRepresentation)
    ensures
        spec_most_inclusive(spec_most_inclusive(a, b), c) == spec_most_inclusive(a, spec_most_inclusive(b, c)),
{
}

/// A quantity with more than one possible edge is handed back as an iterator, and
/// the representation only gets more restrictive as the bounds get tighter.
pub proof fn law_from_bounds_order(lower: LowerBound, upper: u32)
    ensures
        upper != 1 ==> spec_from_bounds(Some((lower, upper))) == EdgeRepresentation::Iterator,
        rank(spec_from_bounds(Some((LowerBound::One, upper)))) <= rank(
            spec_from_bounds(Some((LowerBound::Zero, upper))),
        ),
        rank(spec_from_bounds(Some((lower, upper)))) <= rank(spec_from_bounds(None)),
{
}

} // verus!
