use farnese::datatype::{Any, DataType, ScalarKind};
use farnese::error::CompileError;
use farnese::symbol::Symbol;

#[test]
fn test_datatype_new() {
    let sym = Symbol::new("Any");
    let any = DataType::new(sym.clone(), sym.clone(), true, false, false, vec![], Box::new(vec![]));
    assert_eq!(any.name().name(), "Any");
    assert_eq!(any.is_abstract(), true);
    assert_eq!(any.is_mutable(), false);
    assert_eq!(any.is_primitive(), false);
}

#[test]
fn abstract_type_has_no_fields() {
    let number = DataType::new_abstract_type("Number", "Any");
    assert_eq!(number.name().name(), "Number");
    assert_eq!(number.supertype().name(), "Any");
    assert!(number.is_abstract());
    assert!(!number.is_mutable());
    assert!(!number.is_primitive());
    assert!(number.field_names().is_empty());
    assert!(number.field_types().is_empty());
}

#[test]
fn primitive_type_has_no_fields() {
    let wide = DataType::new_primitive_type("Int64", "Signed", 64);
    assert_eq!(wide.name().name(), "Int64");
    assert_eq!(wide.supertype().name(), "Signed");
    assert!(!wide.is_abstract());
    assert!(wide.is_primitive());
    assert!(wide.field_names().is_empty());
    assert!(wide.field_types().is_empty());
    assert_eq!(wide.hash_id(), Symbol::hash_name("Int64"));
}

#[test]
fn from_str_keeps_fields_in_order() {
    let x = DataType::new_primitive_type("Float64", "AbstractFloat", 64);
    let y = DataType::new_primitive_type("Int32", "Signed", 32);
    let point = DataType::from_str(
        "Point",
        "Any",
        false,
        true,
        false,
        vec!["x".to_string(), "y".to_string()],
        Box::new(vec![x, y]),
    );
    assert_eq!(point.name().name(), "Point");
    assert!(point.is_mutable());
    assert_eq!(point.field_names().len(), 2);
    assert_eq!(point.field_names()[0].name(), "x");
    assert_eq!(point.field_names()[1].name(), "y");
    assert_eq!(point.field_types()[0].name().name(), "Float64");
    assert_eq!(point.field_types()[1].name().name(), "Int32");
    let copy = point.clone();
    assert_eq!(copy.field_types()[1].supertype().name(), "Signed");
    assert_eq!(copy.field_names()[1].name(), "y");
}

#[test]
fn scalar_table_is_fixed() {
    let kind = |name: &str| DataType::new_primitive_type(name, "Any", 8).scalar_kind();
    assert_eq!(kind("Float32"), Ok(ScalarKind::Float32));
    assert_eq!(kind("Float64"), Ok(ScalarKind::Float64));
    assert_eq!(kind("Int32"), Ok(ScalarKind::Int32));
    assert_eq!(kind("Int64"), Ok(ScalarKind::Int64));
    assert_eq!(kind("String"), Ok(ScalarKind::String));
}

#[test]
fn other_names_have_no_scalar() {
    let any = DataType::new_abstract_type("Any", "Any");
    assert_eq!(
        any.scalar_kind(),
        Err(CompileError::UnsupportedPrimitive("Any".to_string()))
    );
    let int16 = DataType::new_primitive_type("Int16", "Signed", 16);
    assert_eq!(
        int16.scalar_kind(),
        Err(CompileError::UnsupportedPrimitive("Int16".to_string()))
    );
}

#[test]
fn any_is_its_own_supertype() {
    let any = Any::<u8>::any_type();
    assert_eq!(any.name().name(), "Any");
    assert_eq!(any.supertype().name(), "Any");
    assert!(any.is_mutable());
    assert!(!any.is_abstract());
    assert!(!any.is_primitive());
    assert!(any.field_names().is_empty());
    let _wrapped = Any::new(7u8);
}
