//! ActionScript operators and the position of the binary ones in the
//! precedence table.

use vstd::prelude::*;
use crate::operator_precedence::{OperatorPrecedence, precedence_value, precedence_of_value, lemma_precedence_value_roundtrip, lemma_precedence_of_value};

verus! {

/// Represents an ActionScript operator.
#[derive(Clone, Copy, Debug, PartialEq, Eq, Structural)]
pub enum Operator {
    PostIncrement,
    PostDecrement,
    NonNull,
    Delete,
    Void,
    Typeof,
    Await,
    Yield,
    PreIncrement,
    PreDecrement,
    Positive,
    Negative,
    BitwiseNot,
    LogicalNot,

    Power,
    Multiply,
    Divide,
    Remainder,
    Add,
    Subtract,
    ShiftLeft,
    ShiftRight,
    ShiftRightUnsigned,
    Lt,
    Gt,
    Le,
    Ge,
    In,
    NotIn,
    Instanceof,
    NotInstanceof,
    Is,
    IsNot,
    As,
    Equals,
    NotEquals,
    StrictEquals,
    StrictNotEquals,
    BitwiseAnd,
    BitwiseXor,
    BitwiseOr,
    LogicalAnd,
    LogicalXor,
    LogicalOr,
    NullCoalescing,
}

/// Represents binary operator associativity.
#[derive(Clone, Copy, Debug, PartialEq, Eq, Structural)]
pub enum BinaryAssociativity {
    LeftToRight,
    RightToLeft,
}

/// The precedence level of a binary operator, or `None` for the other operators.
pub open spec fn binary_precedence(op: Operator) -> Option<OperatorPrecedence> {
    match op {
        Operator::Power => Some(OperatorPrecedence::Exponentiation),
        Operator::Multiply | Operator::Divide | Operator::Remainder => Some(OperatorPrecedence::Multiplicative),
        Operator::Add | Operator::Subtract => Some(OperatorPrecedence::Additive),
        Operator::ShiftLeft | Operator::ShiftRight | Operator::ShiftRightUnsigned => Some(OperatorPrecedence::Shift),
        Operator::Lt | Operator::Gt | Operator::Le | Operator::Ge | Operator::In | Operator::NotIn
        | Operator::Instanceof | Operator::NotInstanceof | Operator::Is | Operator::IsNot => Some(OperatorPrecedence::Relational),
        Operator::Equals | Operator::NotEquals | Operator::StrictEquals | Operator::StrictNotEquals => Some(OperatorPrecedence::Equality),
        Operator::BitwiseAnd => Some(OperatorPrecedence::BitwiseAnd),
        Operator::BitwiseXor => Some(OperatorPrecedence::BitwiseXor),
        Operator::BitwiseOr => Some(OperatorPrecedence::BitwiseOr),
        Operator::LogicalAnd => Some(OperatorPrecedence::LogicalAnd),
        Operator::LogicalXor => Some(OperatorPrecedence::LogicalXor),
        Operator::LogicalOr | Operator::NullCoalescing => Some(OperatorPrecedence::LogicalOrAndNullCoalescing),
        _ => None,
    }
}

/// The associativity of a binary operator: only `**` groups to the right.
pub open spec fn spec_associativity(op: Operator) -> Option<BinaryAssociativity> {
    if binary_precedence(op) is None {
        None
    } else if op == Operator::Power {
        Some(BinaryAssociativity::RightToLeft)
    } else {
        Some(BinaryAssociativity::LeftToRight)
    }
}

pub open spec fn spec_binary_position(op: Operator) -> Option<(OperatorPrecedence, BinaryAssociativity)> {
    match (binary_precedence(op), spec_associativity(op)) {
        (Some(p), Some(a)) => Some((p, a)),
        _ => None,
    }
}

/// The precedence table of the binary operators, tightest first: `**`;
/// `*`, `/`, `%`; `+`, `-`; the shifts; the relational operators; the
/// equality operators; `&`; `^`; `|`; `&&`; `^^`; `||` and `??`. Every
/// level binds tighter than the next one, and only `**` groups to the right.
pub proof fn lemma_binary_precedence_table(op: Operator)
    ensures
        binary_precedence(op) == Some(OperatorPrecedence::Exponentiation) <==> op == Operator::Power,
        binary_precedence(op) == Some(OperatorPrecedence::Multiplicative)
            <==> (op == Operator::Multiply || op == Operator::Divide || op == Operator::Remainder),
        binary_precedence(op) == Some(OperatorPrecedence::Additive)
            <==> (op == Operator::Add || op == Operator::Subtract),
        binary_precedence(op) == Some(OperatorPrecedence::Shift)
            <==> (op == Operator::ShiftLeft || op == Operator::ShiftRight || op == Operator::ShiftRightUnsigned),
        binary_precedence(op) == Some(OperatorPrecedence::Relational)
            <==> (op == Operator::Lt || op == Operator::Gt || op == Operator::Le || op == Operator::Ge
                || op == Operator::In || op == Operator::NotIn || op == Operator::Instanceof
                || op == Operator::NotInstanceof || op == Operator::Is || op == Operator::IsNot),
        binary_precedence(op) == Some(OperatorPrecedence::Equality)
            <==> (op == Operator::Equals || op == Operator::NotEquals || op == Operator::StrictEquals
                || op == Operator::StrictNotEquals),
        binary_precedence(op) == Some(OperatorPrecedence::BitwiseAnd) <==> op == Operator::BitwiseAnd,
        binary_precedence(op) == Some(OperatorPrecedence::BitwiseXor) <==> op == Operator::BitwiseXor,
        binary_precedence(op) == Some(OperatorPrecedence::BitwiseOr) <==> op == Operator::BitwiseOr,
        binary_precedence(op) == Some(OperatorPrecedence::LogicalAnd) <==> op == Operator::LogicalAnd,
        binary_precedence(op) == Some(OperatorPrecedence::LogicalXor) <==> op == Operator::LogicalXor,
        binary_precedence(op) == Some(OperatorPrecedence::LogicalOrAndNullCoalescing)
            <==> (op == Operator::LogicalOr || op == Operator::NullCoalescing),
        binary_precedence(op) is None <==> (op == Operator::As || precedence_value_of_prefix_or_postfix(op)),
        spec_associativity(op) == Some(BinaryAssociativity::RightToLeft) <==> op == Operator::Power,
        precedence_value(OperatorPrecedence::Exponentiation) < precedence_value(OperatorPrecedence::Multiplicative),
        precedence_value(OperatorPrecedence::Multiplicative) < precedence_value(OperatorPrecedence::Additive),
        precedence_value(OperatorPrecedence::Additive) < precedence_value(OperatorPrecedence::Shift),
        precedence_value(OperatorPrecedence::Shift) < precedence_value(OperatorPrecedence::Relational),
        precedence_value(OperatorPrecedence::Relational) < precedence_value(OperatorPrecedence::Equality),
        precedence_value(OperatorPrecedence::Equality) < precedence_value(OperatorPrecedence::BitwiseAnd),
        precedence_value(OperatorPrecedence::BitwiseAnd) < precedence_value(OperatorPrecedence::BitwiseXor),
        precedence_value(OperatorPrecedence::BitwiseXor) < precedence_value(OperatorPrecedence::BitwiseOr),
        precedence_value(OperatorPrecedence::BitwiseOr) < precedence_value(OperatorPrecedence::LogicalAnd),
        precedence_value(OperatorPrecedence::LogicalAnd) < precedence_value(OperatorPrecedence::LogicalXor),
        precedence_value(OperatorPrecedence::LogicalXor) < precedence_value(OperatorPrecedence::LogicalOrAndNullCoalescing),
{
}

/// The prefix and postfix operators, which are not binary.
pub open spec fn precedence_value_of_prefix_or_postfix(op: Operator) -> bool {
    op == Operator::PostIncrement || op == Operator::PostDecrement || op == Operator::NonNull
        || op == Operator::Delete || op == Operator::Void || op == Operator::Typeof || op == Operator::Await
        || op == Operator::Yield || op == Operator::PreIncrement || op == Operator::PreDecrement
        || op == Operator::Positive || op == Operator::Negative || op == Operator::BitwiseNot
        || op == Operator::LogicalNot
}

impl Operator {
    pub fn associativity(&self) -> (r: Option<BinaryAssociativity>)
        ensures
            r == spec_associativity(*self),
    {
        match *self {
            Self::Multiply |
            Self::Divide |
            Self::Remainder |
            Self::Add |
            Self::Subtract |
            Self::ShiftLeft |
            Self::ShiftRight |
            Self::ShiftRightUnsigned |
            Self::Lt |
            Self::Gt |
            Self::Le |
            Self::Ge |
            Self::In |
            Self::NotIn |
            Self::Instanceof |
            Self::NotInstanceof |
            Self::Is |
            Self::IsNot |
            Self::Equals |
            Self::NotEquals |
            Self::StrictEquals |
            Self::StrictNotEquals |
            Self::BitwiseAnd |
            Self::BitwiseXor |
            Self::BitwiseOr |
            Self::LogicalAnd |
            Self::LogicalXor |
            Self::LogicalOr |
            Self::NullCoalescing => Some(BinaryAssociativity::LeftToRight),

            Self::Power => Some(BinaryAssociativity::RightToLeft),

            _ => None,
        }
    }

    pub fn binary_position(&self) -> (r: Option<(OperatorPrecedence, BinaryAssociativity)>)
        ensures
            r == spec_binary_position(*self),
    {
        match *self {
            Self::Multiply => Some((OperatorPrecedence::Multiplicative, BinaryAssociativity::LeftToRight)),
            Self::Divide => Some((OperatorPrecedence::Multiplicative, BinaryAssociativity::LeftToRight)),
            Self::Remainder => Some((OperatorPrecedence::Multiplicative, BinaryAssociativity::LeftToRight)),
            Self::Add => Some((OperatorPrecedence::Additive, BinaryAssociativity::LeftToRight)),
            Self::Subtract => Some((OperatorPrecedence::Additive, BinaryAssociativity::LeftToRight)),
            Self::ShiftLeft => Some((OperatorPrecedence::Shift, BinaryAssociativity::LeftToRight)),
            Self::ShiftRight => Some((OperatorPrecedence::Shift, BinaryAssociativity::LeftToRight)),
            Self::ShiftRightUnsigned => Some((OperatorPrecedence::Shift, BinaryAssociativity::LeftToRight)),
            Self::Lt => Some((OperatorPrecedence::Relational, BinaryAssociativity::LeftToRight)),
            Self::Gt => Some((OperatorPrecedence::Relational, BinaryAssociativity::LeftToRight)),
            Self::Le => Some((OperatorPrecedence::Relational, BinaryAssociativity::LeftToRight)),
            Self::Ge => Some((OperatorPrecedence::Relational, BinaryAssociativity::LeftToRight)),
            Self::In => Some((OperatorPrecedence::Relational, BinaryAssociativity::LeftToRight)),
            Self::NotIn => Some((OperatorPrecedence::Relational, BinaryAssociativity::LeftToRight)),
            Self::Instanceof => Some((OperatorPrecedence::Relational, BinaryAssociativity::LeftToRight)),
            Self::NotInstanceof => Some((OperatorPrecedence::Relational, BinaryAssociativity::LeftToRight)),
            Self::Is => Some((OperatorPrecedence::Relational, BinaryAssociativity::LeftToRight)),
            Self::IsNot => Some((OperatorPrecedence::Relational, BinaryAssociativity::LeftToRight)),
            Self::Equals => Some((OperatorPrecedence::Equality, BinaryAssociativity::LeftToRight)),
            Self::NotEquals => Some((OperatorPrecedence::Equality, BinaryAssociativity::LeftToRight)),
            Self::StrictEquals => Some((OperatorPrecedence::Equality, BinaryAssociativity::LeftToRight)),
            Self::StrictNotEquals => Some((OperatorPrecedence::Equality, BinaryAssociativity::LeftToRight)),
            Self::BitwiseAnd => Some((OperatorPrecedence::BitwiseAnd, BinaryAssociativity::LeftToRight)),
            Self::BitwiseXor => Some((OperatorPrecedence::BitwiseXor, BinaryAssociativity::LeftToRight)),
            Self::BitwiseOr => Some((OperatorPrecedence::BitwiseOr, BinaryAssociativity::LeftToRight)),
            Self::LogicalAnd => Some((OperatorPrecedence::LogicalAnd, BinaryAssociativity::LeftToRight)),
            Self::LogicalXor => Some((OperatorPrecedence::LogicalXor, BinaryAssociativity::LeftToRight)),
            Self::LogicalOr => Some((OperatorPrecedence::LogicalOrAndNullCoalescing, BinaryAssociativity::LeftToRight)),
            Self::NullCoalescing => Some((OperatorPrecedence::LogicalOrAndNullCoalescing, BinaryAssociativity::LeftToRight)),

            Self::Power => Some((OperatorPrecedence::Exponentiation, BinaryAssociativity::RightToLeft)),

            _ => None,
        }
    }
}

/// An operator has an associativity exactly when it has a binary position,
/// and then the two agree.
pub proof fn lemma_associativity_agrees_with_binary_position(op: Operator)
    ensures
        spec_associativity(op) is Some <==> spec_binary_position(op) is Some,
        spec_binary_position(op) matches Some((_, a)) ==> spec_associativity(op) == Some(a),
{
}

/// Represents an ActionScript binary operator.
#[derive(Clone, Copy, Debug, PartialEq, Eq, Structural)]
pub struct BinaryOperator(pub Operator, pub OperatorPrecedence, pub BinaryAssociativity);

/// The precedence from which the right operand of a binary operator is parsed.
/// `??` takes a bitwise OR expression on its right; a left-associative
/// operator takes the next looser level; `**` takes its own level.
pub open spec fn spec_right_precedence(b: BinaryOperator) -> OperatorPrecedence {
    if b.0 == Operator::NullCoalescing {
        OperatorPrecedence::BitwiseOr
    } else if b.2 == BinaryAssociativity::LeftToRight {
        precedence_of_value(precedence_value(b.1) + 1).unwrap()
    } else {
        b.1
    }
}

impl BinaryOperator {
    pub fn operator(&self) -> (r: Operator)
        ensures
            r == self.0,
    {
        self.0
    }

    pub fn precedence(&self) -> (r: OperatorPrecedence)
        ensures
            r == self.1,
    {
        self.1
    }

    pub fn associativity(&self) -> (r: BinaryAssociativity)
        ensures
            r == self.2,
    {
        self.2
    }

    /// The precedence of the right operand. A left-associative operator at the
    /// loosest level (`List`) has no looser level to give its right operand and
    /// is left out.
    pub fn right_precedence(&self) -> (r: OperatorPrecedence)
        requires
            !(self.0 != Operator::NullCoalescing && self.2 == BinaryAssociativity::LeftToRight
                && self.1 == OperatorPrecedence::List),
        ensures
            r == spec_right_precedence(*self),
    {
        if self.operator() == Operator::NullCoalescing {
            OperatorPrecedence::BitwiseOr
        } else {
            let r = self.precedence().add(if self.associativity() == BinaryAssociativity::LeftToRight { 1 } else { 0 });
            proof {
                lemma_precedence_value_roundtrip(self.1);
                lemma_precedence_of_value(precedence_value(self.1) + 1);
            }
            r.unwrap()
        }
    }

    /// Constructs `BinaryOperator` from abstract operator.
    pub fn try_from(value: Operator) -> (r: Result<Self, ()>)
        ensures
            match spec_binary_position(value) {
                Some((p, a)) => r == Ok::<Self, ()>(BinaryOperator(value, p, a)),
                None => r is Err,
            },
    {
        match value.binary_position() {
            Some((p, a)) => Ok(BinaryOperator(value, p, a)),
            None => Err(()),
        }
    }
}

/// The right operand of every binary operator built from an operator is
/// parsed at a level that exists, and for every operator but `??` and `**` it
/// is the level just looser than the operator's own.
pub proof fn lemma_right_precedence_of_binary_operators(op: Operator)
    requires
        spec_binary_position(op) is Some,
    ensures
        ({
            let (p, a) = spec_binary_position(op).unwrap();
            let b = BinaryOperator(op, p, a);
            &&& p != OperatorPrecedence::List
            &&& (op != Operator::NullCoalescing && op != Operator::Power ==>
                precedence_value(spec_right_precedence(b)) == precedence_value(p) + 1)
            &&& (op == Operator::Power ==> spec_right_precedence(b) == p)
        }),
{
    let (p, a) = spec_binary_position(op).unwrap();
    lemma_precedence_of_value(precedence_value(p) + 1);
}

} // verus!
