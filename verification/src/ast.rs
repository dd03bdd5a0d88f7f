use crate::symbol::Symbol;
use vstd::prelude::*;

verus! {

/// A binary or unary operator of the surface language.
#[derive(Clone, Copy, Debug, PartialEq, Eq, Structural)]
pub enum Operator {
    Divide,
    Minus,
    Multiply,
    Plus,
}

/// A type parameter: a name and, where one is given, the parameter that
/// bounds it from above.
#[derive(Debug)]
pub struct Parameter {
    pub name: Symbol,
    pub supertype: Option<Box<Parameter>>,
}

/// What stands for a type in a declaration: a parameter or a plain name.
#[derive(Debug)]
pub enum Identifier {
    Parameter(Parameter),
    Symbol(Symbol),
}

/// A literal. A floating-point literal is held as its IEEE 754 bit pattern,
/// so that the tree can be compared and copied exactly.
#[derive(Clone, Debug, PartialEq, Eq)]
pub enum Primitive {
    Char(char),
    Float32(u32),
    Float64(u64),
    Int16(i16),
    Int32(i32),
    Int64(i64),
    String(String),
}

/// A node of the syntax tree that the parser hands over.
#[derive(Debug, PartialEq, Eq)]
pub enum Node {
    AbstractType { name: String, supertype: String },
    AssignmentExpr { identifier: String, value: Box<Node> },
    BinaryExpr { op: Operator, lhs: Box<Node>, rhs: Box<Node> },
    Empty,
    Exports { symbols: Vec<Node> },
    Function { name: String, args: Vec<Node>, return_type: String, body: Vec<Node> },
    FunctionArg { name: String, arg_type: String },
    FunctionArgs { names: Vec<String>, types: Vec<String> },
    MethodCall { name: String, args: Vec<Node> },
    Module { name: String, exprs: Vec<Node> },
    ParenthesesExpr { expr: Box<Node> },
    Primitive(Primitive),
    PrimitiveType { name: String, supertype: String, bits: u32 },
    StructField { name: String, field_type: String },
    StructType {
        name: String,
        supertype: String,
        field_names: Vec<String>,
        field_types: Vec<String>,
    },
    SuperType(String),
    Symbol(String),
    UnaryExpr { op: Operator, child: Box<Node> },
}

} // verus!
