use vstd::prelude::*;

use crate::node::Span;

verus! {

/// The expressions that the checks of this crate tell apart.
#[derive(Debug)]
pub enum Expression {
    Identifier(String),
    ThisExpression,
    NullLiteral,
    /// A boolean, numeric, bigint, regular-expression or string literal.
    Literal,
    ArrayExpression,
    ObjectExpression,
    MemberExpression(Box<MemberExpression>),
    /// Any other expression.
    Other,
}

/// `object.property` or `object[property]`.
#[derive(Debug)]
pub struct MemberExpression {
    pub object: Expression,
    /// The property's name when it is known without running the code:
    /// `b` in `a.b` and in `a["b"]`; nothing for `a[b]`.
    pub static_property_name: Option<String>,
}

/// An argument of a call.
#[derive(Debug)]
pub enum Argument {
    Expression(Expression),
    /// `...xs`
    Spread,
}

/// `callee(arguments)`, or `callee?.(arguments)` when optional.
#[derive(Debug)]
pub struct CallExpression {
    pub span: Span,
    pub callee: Expression,
    pub arguments: Vec<Argument>,
    pub optional: bool,
}

impl Expression {
    /// A literal of any kind, `null` included.
    pub open spec fn is_literal_spec(&self) -> bool {
        self is NullLiteral || self is Literal
    }

    pub fn is_literal(&self) -> (r: bool)
        ensures
            r == self.is_literal_spec(),
    {
        match self {
            Expression::NullLiteral | Expression::Literal => true,
            _ => false,
        }
    }
}

} // verus!
