use typed_graph_cli::to_python_type::{ToDefaultPythonValue, ToPythonType};
use typed_graph_cli::to_rust_type::ToRustType;
use typed_graph_cli::types::Types;

fn reference(name: &str, generics: Vec<Types>) -> Types {
    Types::Reference { inner: name.to_string(), generics }
}

fn option(t: Types) -> Types {
    Types::Optional { inner: Box::new(t) }
}

fn list(t: Types) -> Types {
    Types::List { inner: Box::new(t) }
}

fn map(k: Types, v: Types) -> Types {
    Types::MapOf { key: Box::new(k), value: Box::new(v) }
}

#[test]
fn rust_names_of_types() {
    assert_eq!(Types::Str.to_rust_type(), "String");
    assert_eq!(Types::U8.to_rust_type(), "u8");
    assert_eq!(option(list(Types::Usize)).to_rust_type(), "Option<Vec<usize>>");
    assert_eq!(Types::SetOf { inner: Box::new(Types::I32) }.to_rust_type(), "HashSet<i32>");
    assert_eq!(map(Types::Str, Types::Bool).to_rust_type(), "IndexMap<String, bool>");
    assert_eq!(reference("Pair", vec![Types::U8, Types::Str]).to_rust_type(), "Pair<u8, String>");
    assert_eq!(reference("Grades", vec![]).to_rust_type(), "Grades");
}

#[test]
fn schema_names_of_types() {
    assert_eq!(list(Types::Str).to_schema_text(), "List<String>");
    assert_eq!(map(Types::U64, option(Types::Bool)).to_schema_text(), "Map<u64, Option<bool>>");
    assert_eq!(Types::SetOf { inner: Box::new(Types::I8) }.to_schema_text(), "Set<i8>");
}

#[test]
fn python_names_of_types() {
    assert_eq!(Types::Str.to_python_type(), "str");
    assert_eq!(Types::F64.to_python_type(), "float");
    assert_eq!(Types::I16.to_python_type(), "int");
    assert_eq!(reference("Grades", vec![]).to_python_type(), "'Grades'");
    assert_eq!(reference("Grades", vec![]).to_python_type_quoted(false), "Grades");
    assert_eq!(
        option(reference("Pair", vec![Types::U8, reference("A", vec![])])).to_python_type(),
        "Optional['Pair[int, A]']"
    );
    assert_eq!(map(Types::Str, list(Types::Bool)).to_python_type(), "Dict[str, List[bool]]");
}

#[test]
fn python_defaults_of_types() {
    assert_eq!(Types::Str.to_default_python_value(), "''");
    assert_eq!(Types::Bool.to_default_python_value(), "False");
    assert_eq!(Types::F32.to_default_python_value(), "0.0");
    assert_eq!(Types::U32.to_default_python_value(), "0");
    assert_eq!(option(Types::U8).to_default_python_value(), "None");
    assert_eq!(list(Types::U8).to_default_python_value(), "[]");
    assert_eq!(map(Types::U8, Types::U8).to_default_python_value(), "{{}}");
    assert_eq!(
        reference("Pair", vec![Types::U8, reference("A", vec![])]).to_default_python_value(),
        "guess_default(Pair[int, 'A'])"
    );
}

#[test]
fn compatible_conversions() {
    assert!(Types::U8.is_gen_compatible(&Types::U64));
    assert!(!Types::U64.is_gen_compatible(&Types::U8));
    assert!(Types::F64.is_gen_compatible(&Types::F32));
    assert!(Types::U8.is_gen_compatible(&option(Types::U16)));
    assert!(list(Types::U8).is_gen_compatible(&Types::SetOf { inner: Box::new(Types::U32) }));
    assert!(reference("A", vec![]).is_gen_compatible(&reference("A", vec![Types::U8])));
    assert!(!reference("A", vec![]).is_gen_compatible(&reference("B", vec![])));
    assert!(!Types::Str.is_gen_compatible(&Types::Bool));
    assert!(map(Types::U8, Types::Str).is_gen_compatible(&map(Types::U16, Types::Str)));
}

#[test]
fn generated_conversions() {
    assert_eq!(Types::U8.gen_convertion("other.x".to_string(), true, &Types::U8), "other.x");
    assert_eq!(Types::U8.gen_convertion("v".to_string(), false, &Types::U8), "Ok(v)");
    assert_eq!(
        reference("A", vec![]).gen_convertion("other.a".to_string(), true, &reference("A", vec![])),
        "other.a.try_into()?"
    );
    assert_eq!(
        Types::U8.gen_convertion("other.x".to_string(), true, &option(Types::U8)),
        "Some(other.x)"
    );
    assert_eq!(
        list(Types::U8).gen_convertion("other.l".to_string(), true, &list(Types::U8)),
        "other.l.into_iter().map(|v| Ok(v)).collect::<Result<_, UpgradeError>>()?"
    );
    assert_eq!(
        Types::Str.gen_convertion("x".to_string(), true, &Types::Bool),
        "/* Requires manual implementation from String to bool */"
    );
}
