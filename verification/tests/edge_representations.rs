use typed_graph_cli::edge_representation::{EdgeRepresentation, LowerBound};
use typed_graph_cli::schema::{QuantityBound, Quantifier};

#[test]
fn bounds_choose_the_representation() {
    assert_eq!(EdgeRepresentation::from_bounds(&Some((LowerBound::One, 1))), EdgeRepresentation::Result);
    assert_eq!(EdgeRepresentation::from_bounds(&Some((LowerBound::Zero, 1))), EdgeRepresentation::Option);
    assert_eq!(EdgeRepresentation::from_bounds(&Some((LowerBound::One, 2))), EdgeRepresentation::Iterator);
    assert_eq!(EdgeRepresentation::from_bounds(&None), EdgeRepresentation::Iterator);
}

#[test]
fn quantifier_chooses_by_its_bounds() {
    let q = Quantifier { bounds: Some((LowerBound::Zero, 1)), quantity: QuantityBound::Included(1) };
    assert_eq!(EdgeRepresentation::from_quantity(&q), EdgeRepresentation::Option);
    let q = Quantifier { bounds: None, quantity: QuantityBound::Unbounded };
    assert_eq!(EdgeRepresentation::from_quantity(&q), EdgeRepresentation::Iterator);
}

#[test]
fn most_inclusive_is_an_upper_bound() {
    let all = [EdgeRepresentation::Result, EdgeRepresentation::Option, EdgeRepresentation::Iterator];
    for a in all {
        for b in all {
            let m = a.most_inclusive(b);
            assert_eq!(m, b.most_inclusive(a));
            assert_eq!(m, m.most_inclusive(a));
            assert_eq!(m.most_inclusive(b), m);
            for c in all {
                assert_eq!(m.most_inclusive(c), a.most_inclusive(b.most_inclusive(c)));
            }
        }
    }
    assert_eq!(
        EdgeRepresentation::Result.most_inclusive(EdgeRepresentation::Option),
        EdgeRepresentation::Option
    );
    assert_eq!(
        EdgeRepresentation::Iterator.most_inclusive(EdgeRepresentation::Result),
        EdgeRepresentation::Iterator
    );
    assert_eq!(
        EdgeRepresentation::Result.most_inclusive(EdgeRepresentation::Result),
        EdgeRepresentation::Result
    );
}

#[test]
fn a_tighter_bound_is_never_less_restrictive() {
    // Raising the upper bound never gives a more restrictive representation.
    for lower in [LowerBound::Zero, LowerBound::One] {
        for upper in 1..4u32 {
            let a = EdgeRepresentation::from_bounds(&Some((lower, upper)));
            let b = EdgeRepresentation::from_bounds(&Some((lower, upper + 1)));
            assert_eq!(a.most_inclusive(b), b);
        }
    }
}

#[test]
fn rust_return_types() {
    assert_eq!(
        EdgeRepresentation::Result.get_return_type_rust("E", "N", "S"),
        "SchemaResult<(E, N), NK, EK, S<NK, EK>>"
    );
    assert_eq!(
        EdgeRepresentation::Option.get_return_type_rust("E", "N", "S"),
        "SchemaResult<Option<(E, N)>, NK, EK, S<NK, EK>>"
    );
    assert_eq!(
        EdgeRepresentation::Iterator.get_return_type_rust("E", "N", "S"),
        "SchemaResult<impl Iterator<Item = (E, N)> + 'a, NK, EK, S<NK, EK>>"
    );
}

#[test]
fn rust_collection_lines() {
    let mut s = String::from("x");
    EdgeRepresentation::Result.collect_results_rust("Owns", &mut s).unwrap();
    assert_eq!(
        s,
        "x           .next()\n           .ok_or_else(|| TypedError::InvalidLowerBound(self.get_id(), self.get_type(), \"[Owns]\".to_string()))?\n"
    );
    let mut s = String::new();
    EdgeRepresentation::Iterator.collect_results_rust("Owns", &mut s).unwrap();
    assert_eq!(s, "");
}

#[test]
fn python_return_types_and_lines() {
    assert_eq!(EdgeRepresentation::Result.get_return_type_python("E", "N"), "Tuple['E', 'N']");
    assert_eq!(EdgeRepresentation::Option.get_return_type_python("E", "N"), "Optional[Tuple['E', 'N']]");
    assert_eq!(EdgeRepresentation::Iterator.get_return_type_python("E", "N"), "Iterator[Tuple['E', 'N']]");
    let mut s = String::new();
    EdgeRepresentation::Option.collect_results_python("Owns", &mut s).unwrap();
    assert_eq!(s, "        nodes = next(nodes, None)\n");
}
