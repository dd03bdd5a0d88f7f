use crate::lexer::float_text;
use vstd::prelude::*;

verus! {

/// A piece of syntax that can be written out.
pub trait Expression {
    /// The piece as text.
    fn expression(&self) -> String;
}

/// A keyword.
pub struct Keyword {
    name: String,
}

impl View for Keyword {
    type V = Seq<char>;

    closed spec fn view(&self) -> Seq<char> {
        self.name@
    }
}

impl Keyword {
    /// The keyword that is written `keyword`.
    pub fn new(keyword: &str) -> (made: Keyword)
        ensures
            made@ == keyword@,
    {
        Keyword { name: keyword.to_owned() }
    }
}

impl Expression for Keyword {
    /// The keyword as it is written.
    fn expression(&self) -> (text: String)
        ensures
            text@ == self@,
    {
        self.name.as_str().to_owned()
    }
}

/// A number, held as it is written.
pub struct Number {
    text: String,
}

impl View for Number {
    type V = Seq<char>;

    closed spec fn view(&self) -> Seq<char> {
        self.text@
    }
}

impl Number {
    /// The number that is written `value`, which is written as a
    /// floating-point number.
    pub fn new(value: &str) -> (made: Number)
        requires
            float_text(value@),
        ensures
            made@ == value@,
    {
        Number { text: value.to_owned() }
    }
}

impl Expression for Number {
    /// The number as it is written.
    fn expression(&self) -> (text: String)
        ensures
            text@ == self@,
    {
        self.text.as_str().to_owned()
    }
}

/// A variable.
pub struct Variable {
    name: String,
}

impl View for Variable {
    type V = Seq<char>;

    closed spec fn view(&self) -> Seq<char> {
        self.name@
    }
}

impl Variable {
    /// The variable called `value`.
    pub fn new(value: &str) -> (made: Variable)
        ensures
            made@ == value@,
    {
        Variable { name: value.to_owned() }
    }
}

impl Expression for Variable {
    /// The name of the variable.
    fn expression(&self) -> (text: String)
        ensures
            text@ == self@,
    {
        self.name.as_str().to_owned()
    }
}

/// An operator between two pieces of syntax.
pub struct BinaryExpression<L, R> {
    op: String,
    lhs: L,
    rhs: R,
}

impl<L, R> BinaryExpression<L, R> {
    /// The operator of the expression, as it is written.
    pub closed spec fn operator(&self) -> Seq<char> {
        self.op@
    }

    /// The left operand.
    pub closed spec fn left(&self) -> L {
        self.lhs
    }

    /// The right operand.
    pub closed spec fn right(&self) -> R {
        self.rhs
    }

    /// The expression of `op` between `lhs` and `rhs`.
    pub fn new(lhs: L, op: &str, rhs: R) -> (made: BinaryExpression<L, R>)
        ensures
            made.operator() == op@,
            made.left() == lhs,
            made.right() == rhs,
    {
        BinaryExpression { op: op.to_owned(), lhs, rhs }
    }
}

impl<L, R> Expression for BinaryExpression<L, R> {
    /// The operator of the expression.
    fn expression(&self) -> (text: String)
        ensures
            text@ == self.operator(),
    {
        self.op.as_str().to_owned()
    }
}

} // verus!
