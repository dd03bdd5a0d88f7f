use farnese::ast::{Operator, Primitive};
use farnese::error::CompileError;

#[test]
fn each_error_has_its_message() {
    let name = || "thing".to_string();
    assert_eq!(CompileError::UndefinedSymbol(name()).message(), "undefined symbol: thing");
    assert_eq!(CompileError::UndefinedType(name()).message(), "undefined type: thing");
    assert_eq!(CompileError::DuplicateType(name()).message(), "duplicate type: thing");
    assert_eq!(CompileError::ConflictingType(name()).message(), "conflicting type: thing");
    assert_eq!(CompileError::UndefinedFunction(name()).message(), "undefined function: thing");
    assert_eq!(CompileError::TypeMismatch.message(), "type mismatch");
    assert_eq!(
        CompileError::UnsupportedOperator(Operator::Divide).message(),
        "unsupported operator: /"
    );
    assert_eq!(
        CompileError::UnsupportedPrimitive(name()).message(),
        "unsupported primitive: thing"
    );
    assert_eq!(CompileError::UnsupportedConstruct.message(), "unsupported construct");
    assert_eq!(CompileError::Backend.message(), "the backend refused an instruction");
}

#[test]
fn operators_are_written_as_in_the_source() {
    assert_eq!(Operator::Plus.as_str(), "+");
    assert_eq!(Operator::Minus.as_str(), "-");
    assert_eq!(Operator::Multiply.as_str(), "*");
    assert_eq!(Operator::Divide.as_str(), "/");
}

#[test]
fn literals_are_made_from_plain_values() {
    assert_eq!(Primitive::from('c'), Primitive::Char('c'));
    assert_eq!(Primitive::from(3i16), Primitive::Int16(3));
    assert_eq!(Primitive::from(3i32), Primitive::Int32(3));
    assert_eq!(Primitive::from(3i64), Primitive::Int64(3));
    assert_eq!(Primitive::from("text".to_string()), Primitive::String("text".to_string()));
    let literal: Primitive = (32 as i64).into();
    assert_eq!(literal, Primitive::Int64(32));
}
