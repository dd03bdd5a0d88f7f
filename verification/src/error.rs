use crate::ast::Operator;
use vstd::prelude::*;
use vstd::string::StringExecFns;

verus! {

/// Why a compilation step failed.
#[derive(Clone, Debug, PartialEq, Eq)]
pub enum CompileError {
    /// An identifier that no binding in scope answers to.
    UndefinedSymbol(String),
    /// A type name that the module's type table does not hold.
    UndefinedType(String),
    /// A type declared twice in one module.
    DuplicateType(String),
    /// A type that a linked module exports and the target already holds.
    ConflictingType(String),
    /// A function that the backend namespace does not hold.
    UndefinedFunction(String),
    /// Operands or a result of the wrong kind.
    TypeMismatch,
    /// An operator that the operands' kind does not support.
    UnsupportedOperator(Operator),
    /// A primitive type without a scalar representation.
    UnsupportedPrimitive(String),
    /// A node, or a shape of one, that is not compiled.
    UnsupportedConstruct,
    /// The backend refused an instruction or a declaration.
    Backend,
}

/// An error with its names as sequences of characters.
pub enum ErrorView {
    UndefinedSymbol(Seq<char>),
    UndefinedType(Seq<char>),
    DuplicateType(Seq<char>),
    ConflictingType(Seq<char>),
    UndefinedFunction(Seq<char>),
    TypeMismatch,
    UnsupportedOperator(Operator),
    UnsupportedPrimitive(Seq<char>),
    UnsupportedConstruct,
    Backend,
}

impl View for CompileError {
    type V = ErrorView;

    open spec fn view(&self) -> ErrorView {
        match self {
            CompileError::UndefinedSymbol(n) => ErrorView::UndefinedSymbol(n@),
            CompileError::UndefinedType(n) => ErrorView::UndefinedType(n@),
            CompileError::DuplicateType(n) => ErrorView::DuplicateType(n@),
            CompileError::ConflictingType(n) => ErrorView::ConflictingType(n@),
            CompileError::UndefinedFunction(n) => ErrorView::UndefinedFunction(n@),
            CompileError::TypeMismatch => ErrorView::TypeMismatch,
            CompileError::UnsupportedOperator(op) => ErrorView::UnsupportedOperator(*op),
            CompileError::UnsupportedPrimitive(n) => ErrorView::UnsupportedPrimitive(n@),
            CompileError::UnsupportedConstruct => ErrorView::UnsupportedConstruct,
            CompileError::Backend => ErrorView::Backend,
        }
    }
}

/// The text that an operator is written with.
pub open spec fn operator_text(op: Operator) -> Seq<char> {
    match op {
        Operator::Divide => "/"@,
        Operator::Minus => "-"@,
        Operator::Multiply => "*"@,
        Operator::Plus => "+"@,
    }
}

/// The message of an error: what went wrong and, where the error names
/// something, the name.
pub open spec fn error_text(error: ErrorView) -> Seq<char> {
    match error {
        ErrorView::UndefinedSymbol(n) => "undefined symbol: "@ + n,
        ErrorView::UndefinedType(n) => "undefined type: "@ + n,
        ErrorView::DuplicateType(n) => "duplicate type: "@ + n,
        ErrorView::ConflictingType(n) => "conflicting type: "@ + n,
        ErrorView::UndefinedFunction(n) => "undefined function: "@ + n,
        ErrorView::TypeMismatch => "type mismatch"@,
        ErrorView::UnsupportedOperator(op) => "unsupported operator: "@ + operator_text(op),
        ErrorView::UnsupportedPrimitive(n) => "unsupported primitive: "@ + n,
        ErrorView::UnsupportedConstruct => "unsupported construct"@,
        ErrorView::Backend => "the backend refused an instruction"@,
    }
}

impl Operator {
    /// The text that the operator is written with.
    pub fn as_str(&self) -> (text: &'static str)
        ensures
            text@ == operator_text(*self),
    {
        match self {
            Operator::Divide => "/",
            Operator::Minus => "-",
            Operator::Multiply => "*",
            Operator::Plus => "+",
        }
    }
}

impl CompileError {
    /// The message of the error.
    pub fn message(&self) -> (text: String)
        ensures
            text@ == error_text(self@),
    {
        match self {
            CompileError::UndefinedSymbol(n) => "undefined symbol: ".to_owned().concat(n.as_str()),
            CompileError::UndefinedType(n) => "undefined type: ".to_owned().concat(n.as_str()),
            CompileError::DuplicateType(n) => "duplicate type: ".to_owned().concat(n.as_str()),
            CompileError::ConflictingType(n) => "conflicting type: ".to_owned().concat(n.as_str()),
            CompileError::UndefinedFunction(n) => "undefined function: ".to_owned().concat(
                n.as_str(),
            ),
            CompileError::TypeMismatch => "type mismatch".to_owned(),
            CompileError::UnsupportedOperator(op) => "unsupported operator: ".to_owned().concat(
                op.as_str(),
            ),
            CompileError::UnsupportedPrimitive(n) => "unsupported primitive: ".to_owned().concat(
                n.as_str(),
            ),
            CompileError::UnsupportedConstruct => "unsupported construct".to_owned(),
            CompileError::Backend => "the backend refused an instruction".to_owned(),
        }
    }
}

} // verus!
