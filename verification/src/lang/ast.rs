//! Nodes of the syntax tree, and the evaluation of conditions.

use vstd::prelude::*;
use vstd::std_specs::cmp::{PartialEqSpec, PartialOrdSpec};
use core::cmp::Ordering;

verus! {

/// The failure to parse.
pub struct ParseError {}

/// What parsing gives: a value or the failure.
pub type ParseResult<T> = Result<T, ParseError>;

/// A node that has a value.
pub trait Parse {
    /// The type of the value.
    type Out;

    /// Every evaluation of the node gives the same value, which is then
    /// `value`. A node says so of itself; by default it does not.
    open spec fn determined(&self) -> bool {
        false
    }

    /// The value of the node, where it is determined.
    open spec fn value(&self) -> Self::Out {
        arbitrary()
    }

    /// Evaluates the node.
    fn parse(&self) -> (out: Self::Out)
        ensures
            self.determined() ==> out == self.value(),
    ;
}

/// An operator between two nodes whose values are of the type `O`.
#[verifier::reject_recursive_types(O)]
pub struct GenericBinaryOp<Op, L, R, O> where L: Parse<Out = O>, R: Parse<Out = O> {
    op: Op,
    left: Box<L>,
    right: Box<R>,
}

impl<Op, L, R, O> GenericBinaryOp<Op, L, R, O> where L: Parse<Out = O>, R: Parse<Out = O> {
    /// The operator.
    pub closed spec fn operator(&self) -> Op {
        self.op
    }

    /// The node on the left.
    pub closed spec fn lhs(&self) -> L {
        *self.left
    }

    /// The node on the right.
    pub closed spec fn rhs(&self) -> R {
        *self.right
    }

    /// The node of `op` between `left` and `right`.
    pub fn new(op: Op, left: L, right: R) -> (node: Self)
        ensures
            node.operator() == op,
            node.lhs() == left,
            node.rhs() == right,
    {
        GenericBinaryOp { op, left: Box::new(left), right: Box::new(right) }
    }
}

/// The operators on truth values.
pub enum BooleanOp {
    And,
    Or,
}

/// A condition made of two conditions.
pub type BooleanExpr<L, R> = GenericBinaryOp<BooleanOp, L, R, bool>;

impl<L, R> Parse for BooleanExpr<L, R> where L: Parse<Out = bool>, R: Parse<Out = bool> {
    type Out = bool;

    open spec fn determined(&self) -> bool {
        self.lhs().determined() && self.rhs().determined()
    }

    /// Both conditions hold, or one of them does.
    open spec fn value(&self) -> bool {
        match self.operator() {
            BooleanOp::And => self.lhs().value() && self.rhs().value(),
            BooleanOp::Or => self.lhs().value() || self.rhs().value(),
        }
    }

    /// Evaluates the condition on the left, and the one on the right where
    /// the first does not decide.
    fn parse(&self) -> (out: bool) {
        match self.op {
            BooleanOp::And => if !self.left.parse() {
                false
            } else {
                self.right.parse()
            },
            BooleanOp::Or => if self.left.parse() {
                true
            } else {
                self.right.parse()
            },
        }
    }
}

/// The comparisons.
pub enum CompareOp {
    Equals,
    NotEquals,
    GreaterThan,
    GreaterThanEquals,
    LessThan,
    LessThanEquals,
}

/// A comparison of two values.
pub type CompareExpr<L, R, T> = GenericBinaryOp<CompareOp, L, R, T>;

/// What the comparison `op` says of `left` and `right`, by the equality and
/// the order of their type.
pub open spec fn compared<T: PartialOrd>(op: CompareOp, left: T, right: T) -> bool {
    match op {
        CompareOp::Equals => left.eq_spec(&right),
        CompareOp::NotEquals => !left.eq_spec(&right),
        CompareOp::GreaterThan => left.partial_cmp_spec(&right) == Some(Ordering::Greater),
        CompareOp::GreaterThanEquals => left.partial_cmp_spec(&right) == Some(Ordering::Greater)
            || left.partial_cmp_spec(&right) == Some(Ordering::Equal),
        CompareOp::LessThan => left.partial_cmp_spec(&right) == Some(Ordering::Less),
        CompareOp::LessThanEquals => left.partial_cmp_spec(&right) == Some(Ordering::Less)
            || left.partial_cmp_spec(&right) == Some(Ordering::Equal),
    }
}

impl<L, R, T> Parse for CompareExpr<L, R, T> where L: Parse<Out = T>, R: Parse<Out = T>, T: PartialOrd {
    type Out = bool;

    /// Both values are determined, and the type's equality and order are
    /// what its specification says.
    open spec fn determined(&self) -> bool {
        &&& self.lhs().determined()
        &&& self.rhs().determined()
        &&& T::obeys_eq_spec()
        &&& T::obeys_partial_cmp_spec()
    }

    open spec fn value(&self) -> bool {
        compared(self.operator(), self.lhs().value(), self.rhs().value())
    }

    /// Evaluates both nodes and compares their values.
    fn parse(&self) -> (out: bool) {
        match self.op {
            CompareOp::Equals => self.left.parse().eq(&self.right.parse()),
            CompareOp::NotEquals => self.left.parse().ne(&self.right.parse()),
            CompareOp::GreaterThan => self.left.parse().gt(&self.right.parse()),
            CompareOp::GreaterThanEquals => self.left.parse().ge(&self.right.parse()),
            CompareOp::LessThan => self.left.parse().lt(&self.right.parse()),
            CompareOp::LessThanEquals => self.left.parse().le(&self.right.parse()),
        }
    }
}

/// An assignment to a variable, or its declaration where no value is given.
pub struct AssignmentExpr {
    pub local: bool,
    pub name: String,
    pub value: Option<String>,
}

/// The declaration of a rule.
pub struct RuleDeclaration {
    name: String,
    args: Vec<String>,
}

} // verus!
