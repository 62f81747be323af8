//! Operator precedence levels, from the tightest (`Postfix`) to the loosest (`List`).

use vstd::prelude::*;

verus! {

#[derive(Clone, Copy, Debug, PartialEq, Eq, Structural)]
pub enum OperatorPrecedence {
    Postfix,
    Unary,
    Exponentiation,
    Multiplicative,
    Additive,
    Shift,
    Relational,
    Equality,
    BitwiseAnd,
    BitwiseXor,
    BitwiseOr,
    LogicalAnd,
    LogicalOr,
    LogicalXor,
    LogicalOrAndNullCoalescing,
    /// Includes assignment, conditional, `yield`, and rest (`...`) operators
    /// and arrow functions.
    AssignmentAndMisc,
    List,
}

/// The position of a precedence level, counted from zero.
pub open spec fn precedence_value(p: OperatorPrecedence) -> int {
    match p {
        OperatorPrecedence::Postfix => 0,
        OperatorPrecedence::Unary => 1,
        OperatorPrecedence::Exponentiation => 2,
        OperatorPrecedence::Multiplicative => 3,
        OperatorPrecedence::Additive => 4,
        OperatorPrecedence::Shift => 5,
        OperatorPrecedence::Relational => 6,
        OperatorPrecedence::Equality => 7,
        OperatorPrecedence::BitwiseAnd => 8,
        OperatorPrecedence::BitwiseXor => 9,
        OperatorPrecedence::BitwiseOr => 10,
        OperatorPrecedence::LogicalAnd => 11,
        OperatorPrecedence::LogicalOr => 12,
        OperatorPrecedence::LogicalXor => 13,
        OperatorPrecedence::LogicalOrAndNullCoalescing => 14,
        OperatorPrecedence::AssignmentAndMisc => 15,
        OperatorPrecedence::List => 16,
    }
}

/// The precedence level at a position, if there is one.
pub open spec fn precedence_of_value(v: int) -> Option<OperatorPrecedence> {
    if v == 0 { Some(OperatorPrecedence::Postfix) }
    else if v == 1 { Some(OperatorPrecedence::Unary) }
    else if v == 2 { Some(OperatorPrecedence::Exponentiation) }
    else if v == 3 { Some(OperatorPrecedence::Multiplicative) }
    else if v == 4 { Some(OperatorPrecedence::Additive) }
    else if v == 5 { Some(OperatorPrecedence::Shift) }
    else if v == 6 { Some(OperatorPrecedence::Relational) }
    else if v == 7 { Some(OperatorPrecedence::Equality) }
    else if v == 8 { Some(OperatorPrecedence::BitwiseAnd) }
    else if v == 9 { Some(OperatorPrecedence::BitwiseXor) }
    else if v == 10 { Some(OperatorPrecedence::BitwiseOr) }
    else if v == 11 { Some(OperatorPrecedence::LogicalAnd) }
    else if v == 12 { Some(OperatorPrecedence::LogicalOr) }
    else if v == 13 { Some(OperatorPrecedence::LogicalXor) }
    else if v == 14 { Some(OperatorPrecedence::LogicalOrAndNullCoalescing) }
    else if v == 15 { Some(OperatorPrecedence::AssignmentAndMisc) }
    else if v == 16 { Some(OperatorPrecedence::List) }
    else { None }
}

/// Every precedence level is found again from its position.
pub proof fn lemma_precedence_value_roundtrip(p: OperatorPrecedence)
    ensures
        precedence_of_value(precedence_value(p) as int) == Some(p),
        precedence_value(p) <= 16,
{
}

/// A position names a level exactly when it is at most 16, and that level
/// has this position.
pub proof fn lemma_precedence_of_value(v: int)
    ensures
        (0 <= v <= 16) <==> precedence_of_value(v).is_some(),
        precedence_of_value(v) matches Some(p) ==> precedence_value(p) == v,
{
}

impl OperatorPrecedence {
    /// The position of this level, counted from zero.
    pub fn value(&self) -> (r: u32)
        ensures
            r == precedence_value(*self),
    {
        match self {
            OperatorPrecedence::Postfix => 0,
            OperatorPrecedence::Unary => 1,
            OperatorPrecedence::Exponentiation => 2,
            OperatorPrecedence::Multiplicative => 3,
            OperatorPrecedence::Additive => 4,
            OperatorPrecedence::Shift => 5,
            OperatorPrecedence::Relational => 6,
            OperatorPrecedence::Equality => 7,
            OperatorPrecedence::BitwiseAnd => 8,
            OperatorPrecedence::BitwiseXor => 9,
            OperatorPrecedence::BitwiseOr => 10,
            OperatorPrecedence::LogicalAnd => 11,
            OperatorPrecedence::LogicalOr => 12,
            OperatorPrecedence::LogicalXor => 13,
            OperatorPrecedence::LogicalOrAndNullCoalescing => 14,
            OperatorPrecedence::AssignmentAndMisc => 15,
            OperatorPrecedence::List => 16,
        }
    }

    /// The level at a position, if there is one.
    pub fn from_u32(v: u32) -> (r: Option<Self>)
        ensures
            r == precedence_of_value(v as int),
    {
        match v {
            0 => Some(OperatorPrecedence::Postfix),
            1 => Some(OperatorPrecedence::Unary),
            2 => Some(OperatorPrecedence::Exponentiation),
            3 => Some(OperatorPrecedence::Multiplicative),
            4 => Some(OperatorPrecedence::Additive),
            5 => Some(OperatorPrecedence::Shift),
            6 => Some(OperatorPrecedence::Relational),
            7 => Some(OperatorPrecedence::Equality),
            8 => Some(OperatorPrecedence::BitwiseAnd),
            9 => Some(OperatorPrecedence::BitwiseXor),
            10 => Some(OperatorPrecedence::BitwiseOr),
            11 => Some(OperatorPrecedence::LogicalAnd),
            12 => Some(OperatorPrecedence::LogicalOr),
            13 => Some(OperatorPrecedence::LogicalXor),
            14 => Some(OperatorPrecedence::LogicalOrAndNullCoalescing),
            15 => Some(OperatorPrecedence::AssignmentAndMisc),
            16 => Some(OperatorPrecedence::List),
            _ => None,
        }
    }

    /// The next tighter level. `Postfix` is the tightest level and has none
    /// to step to.
    pub fn higher(&self) -> (r: Option<Self>)
        requires
            *self != OperatorPrecedence::Postfix,
        ensures
            r == precedence_of_value(precedence_value(*self) - 1),
            r is Some,
    {
        Self::from_u32(self.value() - 1)
    }

    /// The level `n` steps looser than this one, if there is one.
    pub fn add(&self, n: u32) -> (r: Option<Self>)
        ensures
            r == precedence_of_value(precedence_value(*self) + n as int),
    {
        let v = self.value();
        if n > 16 {
            None
        } else {
            Self::from_u32(v + n)
        }
    }

    /// The next looser level, if there is one.
    pub fn add_one(&self) -> (r: Option<Self>)
        ensures
            r == precedence_of_value(precedence_value(*self) + 1),
            r is None <==> *self == OperatorPrecedence::List,
    {
        self.add(1)
    }

    /// Whether an expression parsed at this minimum precedence may contain an
    /// operation at level `other`, that is, `other` is as tight as this level or
    /// tighter.
    pub fn includes(&self, other: &Self) -> (r: bool)
        ensures
            r == (precedence_value(*other) <= precedence_value(*self)),
    {
        other.value() <= self.value()
    }
}

} // verus!
