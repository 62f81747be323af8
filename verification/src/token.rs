//! Tokens produced by the tokenizer.

use vstd::prelude::*;
use crate::operator::Operator;
use crate::keywords::str_eq;

verus! {

/// The value of a numeric literal, as far as it can be computed without
/// floating point: a decimal literal keeps its digits (separators removed),
/// a hexadecimal or binary literal carries its integer value.
#[derive(Debug, PartialEq)]
pub enum NumericValue {
    /// Decimal digits, an optional fraction and an optional exponent, with
    /// every `_` removed; the text `f64::from_str` accepts.
    Decimal(String),
    /// The value of a hexadecimal or binary literal, at most 2^53 so that a
    /// double holds it exactly.
    Integer(u64),
}

/// Represents a lexical token.
#[derive(Debug, PartialEq)]
pub enum Token {
    Eof,
    Identifier(String),
    StringLiteral(String),
    NumericLiteral(NumericValue),
    RegExpLiteral {
        body: String,
        flags: String,
    },

    // Punctuators
    Dot,
    Descendants,
    Ellipsis,
    Comma,
    Semicolon,
    Colon,
    ColonColon,
    LeftParen,
    RightParen,
    LeftBracket,
    RightBracket,
    LeftBrace,
    RightBrace,
    Attribute,
    Question,
    OptionalChaining,
    Exclamation,
    BitwiseNot,
    Plus,
    Minus,
    Times,
    Div,
    Remainder,
    Power,
    LeftShift,
    RightShift,
    UnsignedRightShift,
    Lt,
    Gt,
    Le,
    Ge,
    Equals,
    NotEquals,
    StrictEquals,
    StrictNotEquals,
    BitwiseAnd,
    BitwiseXor,
    BitwiseOr,
    LogicalAnd,
    LogicalXor,
    LogicalOr,
    NullCoalescing,
    Assign,
    AddAssign,
    SubtractAssign,
    MultiplyAssign,
    DivideAssign,
    RemainderAssign,
    PowerAssign,
    LeftShiftAssign,
    RightShiftAssign,
    UnsignedRightShiftAssign,
    BitwiseAndAssign,
    BitwiseXorAssign,
    BitwiseOrAssign,
    LogicalAndAssign,
    LogicalXorAssign,
    LogicalOrAssign,
    NullCoalescingAssign,
    Increment,
    Decrement,
    FatArrow,

    // Reserved words
    As,
    Await,
    Break,
    Case,
    Catch,
    Class,
    Const,
    Continue,
    Default,
    Delete,
    Do,
    Else,
    Export,
    Extends,
    False,
    Finally,
    For,
    Function,
    If,
    Implements,
    Import,
    In,
    Instanceof,
    Interface,
    Internal,
    Is,
    New,
    Null,
    Package,
    Private,
    Protected,
    Public,
    Return,
    Super,
    Switch,
    This,
    Throw,
    True,
    Try,
    Typeof,
    Use,
    Var,
    Void,
    While,
    With,
    Yield,

    // XML
    XmlWhitespace,
    XmlLtSlash,
    XmlSlashGt,
    XmlText(String),
    XmlName(String),
    XmlMarkup(String),
    XmlAttributeValue(String),
}

/// The text of a punctuator token; the empty sequence for the other tokens.
pub open spec fn punctuator_spelling(t: Token) -> Seq<char> {
    match t {
        Token::Dot => seq!['.'],
        Token::Descendants => seq!['.', '.'],
        Token::Ellipsis => seq!['.', '.', '.'],
        Token::Comma => seq![','],
        Token::Semicolon => seq![';'],
        Token::Colon => seq![':'],
        Token::ColonColon => seq![':', ':'],
        Token::LeftParen => seq!['('],
        Token::RightParen => seq![')'],
        Token::LeftBracket => seq!['['],
        Token::RightBracket => seq![']'],
        Token::LeftBrace => seq!['{'],
        Token::RightBrace => seq!['}'],
        Token::Attribute => seq!['@'],
        Token::Question => seq!['?'],
        Token::OptionalChaining => seq!['?', '.'],
        Token::Exclamation => seq!['!'],
        Token::BitwiseNot => seq!['~'],
        Token::Plus => seq!['+'],
        Token::Minus => seq!['-'],
        Token::Times => seq!['*'],
        Token::Div => seq!['/'],
        Token::Remainder => seq!['%'],
        Token::Power => seq!['*', '*'],
        Token::LeftShift => seq!['<', '<'],
        Token::RightShift => seq!['>', '>'],
        Token::UnsignedRightShift => seq!['>', '>', '>'],
        Token::Lt => seq!['<'],
        Token::Gt => seq!['>'],
        Token::Le => seq!['<', '='],
        Token::Ge => seq!['>', '='],
        Token::Equals => seq!['=', '='],
        Token::NotEquals => seq!['!', '='],
        Token::StrictEquals => seq!['=', '=', '='],
        Token::StrictNotEquals => seq!['!', '=', '='],
        Token::BitwiseAnd => seq!['&'],
        Token::BitwiseXor => seq!['^'],
        Token::BitwiseOr => seq!['|'],
        Token::LogicalAnd => seq!['&', '&'],
        Token::LogicalXor => seq!['^', '^'],
        Token::LogicalOr => seq!['|', '|'],
        Token::NullCoalescing => seq!['?', '?'],
        Token::Assign => seq!['='],
        Token::AddAssign => seq!['+', '='],
        Token::SubtractAssign => seq!['-', '='],
        Token::MultiplyAssign => seq!['*', '='],
        Token::DivideAssign => seq!['/', '='],
        Token::RemainderAssign => seq!['%', '='],
        Token::PowerAssign => seq!['*', '*', '='],
        Token::LeftShiftAssign => seq!['<', '<', '='],
        Token::RightShiftAssign => seq!['>', '>', '='],
        Token::UnsignedRightShiftAssign => seq!['>', '>', '>', '='],
        Token::BitwiseAndAssign => seq!['&', '='],
        Token::BitwiseXorAssign => seq!['^', '='],
        Token::BitwiseOrAssign => seq!['|', '='],
        Token::LogicalAndAssign => seq!['&', '&', '='],
        Token::LogicalXorAssign => seq!['^', '^', '='],
        Token::LogicalOrAssign => seq!['|', '|', '='],
        Token::NullCoalescingAssign => seq!['?', '?', '='],
        Token::Increment => seq!['+', '+'],
        Token::Decrement => seq!['-', '-'],
        Token::FatArrow => seq!['=', '>'],
        _ => seq![],
    }
}

/// The binary operator that a token denotes, if any.
pub open spec fn spec_to_binary_operator(t: Token) -> Option<Operator> {
    match t {
        Token::Times => Some(Operator::Multiply),
        Token::Div => Some(Operator::Divide),
        Token::Remainder => Some(Operator::Remainder),
        Token::Plus => Some(Operator::Add),
        Token::Minus => Some(Operator::Subtract),
        Token::Power => Some(Operator::Power),
        Token::LeftShift => Some(Operator::ShiftLeft),
        Token::RightShift => Some(Operator::ShiftRight),
        Token::UnsignedRightShift => Some(Operator::ShiftRightUnsigned),
        Token::Lt => Some(Operator::Lt),
        Token::Gt => Some(Operator::Gt),
        Token::Le => Some(Operator::Le),
        Token::Ge => Some(Operator::Ge),
        Token::In => Some(Operator::In),
        Token::Instanceof => Some(Operator::Instanceof),
        Token::Is => Some(Operator::Is),
        Token::Equals => Some(Operator::Equals),
        Token::NotEquals => Some(Operator::NotEquals),
        Token::StrictEquals => Some(Operator::StrictEquals),
        Token::StrictNotEquals => Some(Operator::StrictNotEquals),
        Token::BitwiseAnd => Some(Operator::BitwiseAnd),
        Token::BitwiseXor => Some(Operator::BitwiseXor),
        Token::BitwiseOr => Some(Operator::BitwiseOr),
        Token::LogicalAnd => Some(Operator::LogicalAnd),
        Token::LogicalXor => Some(Operator::LogicalXor),
        Token::LogicalOr => Some(Operator::LogicalOr),
        Token::NullCoalescing => Some(Operator::NullCoalescing),
        _ => None,
    }
}

/// Distinct tokens stand for distinct binary operators, and a punctuator
/// that stands for a binary operator is not a compound assignment.
pub proof fn lemma_binary_operator_tokens_distinct(t: Token, u: Token)
    ensures
        spec_to_binary_operator(t) is Some && spec_to_binary_operator(t) == spec_to_binary_operator(u) ==> t == u,
        spec_to_binary_operator(t) == Some(Operator::Add) <==> t == Token::Plus,
        spec_to_binary_operator(t) == Some(Operator::Subtract) <==> t == Token::Minus,
        spec_to_binary_operator(t) == Some(Operator::Multiply) <==> t == Token::Times,
        spec_to_binary_operator(t) == Some(Operator::Divide) <==> t == Token::Div,
        spec_to_binary_operator(t) == Some(Operator::Remainder) <==> t == Token::Remainder,
{
}

/// The operator that a compound assignment token combines with assignment.
pub open spec fn spec_compound_assignment(t: Token) -> Option<Operator> {
    match t {
        Token::AddAssign => Some(Operator::Add),
        Token::SubtractAssign => Some(Operator::Subtract),
        Token::MultiplyAssign => Some(Operator::Multiply),
        Token::DivideAssign => Some(Operator::Divide),
        Token::RemainderAssign => Some(Operator::Remainder),
        Token::PowerAssign => Some(Operator::Power),
        Token::LeftShiftAssign => Some(Operator::ShiftLeft),
        Token::RightShiftAssign => Some(Operator::ShiftRight),
        Token::UnsignedRightShiftAssign => Some(Operator::ShiftRightUnsigned),
        Token::BitwiseAndAssign => Some(Operator::BitwiseAnd),
        Token::BitwiseXorAssign => Some(Operator::BitwiseXor),
        Token::BitwiseOrAssign => Some(Operator::BitwiseOr),
        Token::LogicalAndAssign => Some(Operator::LogicalAnd),
        Token::LogicalXorAssign => Some(Operator::LogicalXor),
        Token::LogicalOrAssign => Some(Operator::LogicalOr),
        Token::NullCoalescingAssign => Some(Operator::NullCoalescing),
        _ => None,
    }
}

/// A compound assignment's text is its operator's text followed by `=`.
pub proof fn lemma_compound_assignment_spelling(t: Token)
    requires
        spec_compound_assignment(t) is Some,
    ensures
        exists|b: Token| #![trigger punctuator_spelling(b)]
            spec_to_binary_operator(b) == spec_compound_assignment(t)
            && punctuator_spelling(t) == punctuator_spelling(b).push('='),
{
    let b = match t {
        Token::AddAssign => Token::Plus,
        Token::SubtractAssign => Token::Minus,
        Token::MultiplyAssign => Token::Times,
        Token::DivideAssign => Token::Div,
        Token::RemainderAssign => Token::Remainder,
        Token::PowerAssign => Token::Power,
        Token::LeftShiftAssign => Token::LeftShift,
        Token::RightShiftAssign => Token::RightShift,
        Token::UnsignedRightShiftAssign => Token::UnsignedRightShift,
        Token::BitwiseAndAssign => Token::BitwiseAnd,
        Token::BitwiseXorAssign => Token::BitwiseXor,
        Token::BitwiseOrAssign => Token::BitwiseOr,
        Token::LogicalAndAssign => Token::LogicalAnd,
        Token::LogicalXorAssign => Token::LogicalXor,
        Token::LogicalOrAssign => Token::LogicalOr,
        _ => Token::NullCoalescing,
    };
    assert(punctuator_spelling(t) =~= punctuator_spelling(b).push('='));
}

impl Token {
    /// The binary operator this token denotes, if any.
    pub fn to_binary_operator(&self) -> (r: Option<Operator>)
        ensures
            r == spec_to_binary_operator(*self),
    {
        match self {
            Token::Times => Some(Operator::Multiply),
            Token::Div => Some(Operator::Divide),
            Token::Remainder => Some(Operator::Remainder),
            Token::Plus => Some(Operator::Add),
            Token::Minus => Some(Operator::Subtract),
            Token::Power => Some(Operator::Power),
            Token::LeftShift => Some(Operator::ShiftLeft),
            Token::RightShift => Some(Operator::ShiftRight),
            Token::UnsignedRightShift => Some(Operator::ShiftRightUnsigned),
            Token::Lt => Some(Operator::Lt),
            Token::Gt => Some(Operator::Gt),
            Token::Le => Some(Operator::Le),
            Token::Ge => Some(Operator::Ge),
            Token::In => Some(Operator::In),
            Token::Instanceof => Some(Operator::Instanceof),
            Token::Is => Some(Operator::Is),
            Token::Equals => Some(Operator::Equals),
            Token::NotEquals => Some(Operator::NotEquals),
            Token::StrictEquals => Some(Operator::StrictEquals),
            Token::StrictNotEquals => Some(Operator::StrictNotEquals),
            Token::BitwiseAnd => Some(Operator::BitwiseAnd),
            Token::BitwiseXor => Some(Operator::BitwiseXor),
            Token::BitwiseOr => Some(Operator::BitwiseOr),
            Token::LogicalAnd => Some(Operator::LogicalAnd),
            Token::LogicalXor => Some(Operator::LogicalXor),
            Token::LogicalOr => Some(Operator::LogicalOr),
            Token::NullCoalescing => Some(Operator::NullCoalescing),
            _ => None,
        }
    }

    /// The operator a compound assignment token combines with assignment.
    pub fn compound_assignment(&self) -> (r: Option<Operator>)
        ensures
            r == spec_compound_assignment(*self),
    {
        match self {
            Token::AddAssign => Some(Operator::Add),
            Token::SubtractAssign => Some(Operator::Subtract),
            Token::MultiplyAssign => Some(Operator::Multiply),
            Token::DivideAssign => Some(Operator::Divide),
            Token::RemainderAssign => Some(Operator::Remainder),
            Token::PowerAssign => Some(Operator::Power),
            Token::LeftShiftAssign => Some(Operator::ShiftLeft),
            Token::RightShiftAssign => Some(Operator::ShiftRight),
            Token::UnsignedRightShiftAssign => Some(Operator::ShiftRightUnsigned),
            Token::BitwiseAndAssign => Some(Operator::BitwiseAnd),
            Token::BitwiseXorAssign => Some(Operator::BitwiseXor),
            Token::BitwiseOrAssign => Some(Operator::BitwiseOr),
            Token::LogicalAndAssign => Some(Operator::LogicalAnd),
            Token::LogicalXorAssign => Some(Operator::LogicalXor),
            Token::LogicalOrAssign => Some(Operator::LogicalOr),
            Token::NullCoalescingAssign => Some(Operator::NullCoalescing),
            _ => None,
        }
    }
}

} // verus!

verus! {

/// Every token that denotes a binary operator denotes one that has a place
/// in the precedence table.
pub proof fn lemma_binary_operator_tokens_have_position(t: Token)
    requires
        spec_to_binary_operator(t) is Some,
    ensures
        crate::operator::spec_binary_position(spec_to_binary_operator(t).unwrap()) is Some,
{
}

} // verus!

verus! {

impl Clone for NumericValue {
    fn clone(&self) -> (r: Self)
        ensures
            r == *self,
    {
        match self {
            NumericValue::Decimal(s) => NumericValue::Decimal(s.clone()),
            NumericValue::Integer(n) => NumericValue::Integer(*n),
        }
    }
}

impl Clone for Token {
    fn clone(&self) -> (r: Self)
        ensures
            r == *self,
    {
        match self {
            Token::Eof => Token::Eof,
            Token::Identifier(x) => Token::Identifier(x.clone()),
            Token::StringLiteral(x) => Token::StringLiteral(x.clone()),
            Token::NumericLiteral(x) => Token::NumericLiteral(x.clone()),
            Token::Dot => Token::Dot,
            Token::Descendants => Token::Descendants,
            Token::Ellipsis => Token::Ellipsis,
            Token::Comma => Token::Comma,
            Token::Semicolon => Token::Semicolon,
            Token::Colon => Token::Colon,
            Token::ColonColon => Token::ColonColon,
            Token::LeftParen => Token::LeftParen,
            Token::RightParen => Token::RightParen,
            Token::LeftBracket => Token::LeftBracket,
            Token::RightBracket => Token::RightBracket,
            Token::LeftBrace => Token::LeftBrace,
            Token::RightBrace => Token::RightBrace,
            Token::Attribute => Token::Attribute,
            Token::Question => Token::Question,
            Token::OptionalChaining => Token::OptionalChaining,
            Token::Exclamation => Token::Exclamation,
            Token::BitwiseNot => Token::BitwiseNot,
            Token::Plus => Token::Plus,
            Token::Minus => Token::Minus,
            Token::Times => Token::Times,
            Token::Div => Token::Div,
            Token::Remainder => Token::Remainder,
            Token::Power => Token::Power,
            Token::LeftShift => Token::LeftShift,
            Token::RightShift => Token::RightShift,
            Token::UnsignedRightShift => Token::UnsignedRightShift,
            Token::Lt => Token::Lt,
            Token::Gt => Token::Gt,
            Token::Le => Token::Le,
            Token::Ge => Token::Ge,
            Token::Equals => Token::Equals,
            Token::NotEquals => Token::NotEquals,
            Token::StrictEquals => Token::StrictEquals,
            Token::StrictNotEquals => Token::StrictNotEquals,
            Token::BitwiseAnd => Token::BitwiseAnd,
            Token::BitwiseXor => Token::BitwiseXor,
            Token::BitwiseOr => Token::BitwiseOr,
            Token::LogicalAnd => Token::LogicalAnd,
            Token::LogicalXor => Token::LogicalXor,
            Token::LogicalOr => Token::LogicalOr,
            Token::NullCoalescing => Token::NullCoalescing,
            Token::Assign => Token::Assign,
            Token::AddAssign => Token::AddAssign,
            Token::SubtractAssign => Token::SubtractAssign,
            Token::MultiplyAssign => Token::MultiplyAssign,
            Token::DivideAssign => Token::DivideAssign,
            Token::RemainderAssign => Token::RemainderAssign,
            Token::PowerAssign => Token::PowerAssign,
            Token::LeftShiftAssign => Token::LeftShiftAssign,
            Token::RightShiftAssign => Token::RightShiftAssign,
            Token::UnsignedRightShiftAssign => Token::UnsignedRightShiftAssign,
            Token::BitwiseAndAssign => Token::BitwiseAndAssign,
            Token::BitwiseXorAssign => Token::BitwiseXorAssign,
            Token::BitwiseOrAssign => Token::BitwiseOrAssign,
            Token::LogicalAndAssign => Token::LogicalAndAssign,
            Token::LogicalXorAssign => Token::LogicalXorAssign,
            Token::LogicalOrAssign => Token::LogicalOrAssign,
            Token::NullCoalescingAssign => Token::NullCoalescingAssign,
            Token::Increment => Token::Increment,
            Token::Decrement => Token::Decrement,
            Token::FatArrow => Token::FatArrow,
            Token::As => Token::As,
            Token::Await => Token::Await,
            Token::Break => Token::Break,
            Token::Case => Token::Case,
            Token::Catch => Token::Catch,
            Token::Class => Token::Class,
            Token::Const => Token::Const,
            Token::Continue => Token::Continue,
            Token::Default => Token::Default,
            Token::Delete => Token::Delete,
            Token::Do => Token::Do,
            Token::Else => Token::Else,
            Token::Export => Token::Export,
            Token::Extends => Token::Extends,
            Token::False => Token::False,
            Token::Finally => Token::Finally,
            Token::For => Token::For,
            Token::Function => Token::Function,
            Token::If => Token::If,
            Token::Implements => Token::Implements,
            Token::Import => Token::Import,
            Token::In => Token::In,
            Token::Instanceof => Token::Instanceof,
            Token::Interface => Token::Interface,
            Token::Internal => Token::Internal,
            Token::Is => Token::Is,
            Token::New => Token::New,
            Token::Null => Token::Null,
            Token::Package => Token::Package,
            Token::Private => Token::Private,
            Token::Protected => Token::Protected,
            Token::Public => Token::Public,
            Token::Return => Token::Return,
            Token::Super => Token::Super,
            Token::Switch => Token::Switch,
            Token::This => Token::This,
            Token::Throw => Token::Throw,
            Token::True => Token::True,
            Token::Try => Token::Try,
            Token::Typeof => Token::Typeof,
            Token::Use => Token::Use,
            Token::Var => Token::Var,
            Token::Void => Token::Void,
            Token::While => Token::While,
            Token::With => Token::With,
            Token::Yield => Token::Yield,
            Token::XmlWhitespace => Token::XmlWhitespace,
            Token::XmlLtSlash => Token::XmlLtSlash,
            Token::XmlSlashGt => Token::XmlSlashGt,
            Token::XmlText(x) => Token::XmlText(x.clone()),
            Token::XmlName(x) => Token::XmlName(x.clone()),
            Token::XmlMarkup(x) => Token::XmlMarkup(x.clone()),
            Token::XmlAttributeValue(x) => Token::XmlAttributeValue(x.clone()),
            Token::RegExpLiteral { body, flags } => Token::RegExpLiteral { body: body.clone(), flags: flags.clone() },
        }
    }
}

} // verus!

verus! {

/// A number for each kind of token, distinct for distinct kinds.
pub open spec fn token_tag(t: Token) -> u8 {
    match t {
        Token::Eof => 0,
        Token::Identifier(_) => 1,
        Token::StringLiteral(_) => 2,
        Token::NumericLiteral(_) => 3,
        Token::RegExpLiteral { .. } => 4,
        Token::Dot => 5,
        Token::Descendants => 6,
        Token::Ellipsis => 7,
        Token::Comma => 8,
        Token::Semicolon => 9,
        Token::Colon => 10,
        Token::ColonColon => 11,
        Token::LeftParen => 12,
        Token::RightParen => 13,
        Token::LeftBracket => 14,
        Token::RightBracket => 15,
        Token::LeftBrace => 16,
        Token::RightBrace => 17,
        Token::Attribute => 18,
        Token::Question => 19,
        Token::OptionalChaining => 20,
        Token::Exclamation => 21,
        Token::BitwiseNot => 22,
        Token::Plus => 23,
        Token::Minus => 24,
        Token::Times => 25,
        Token::Div => 26,
        Token::Remainder => 27,
        Token::Power => 28,
        Token::LeftShift => 29,
        Token::RightShift => 30,
        Token::UnsignedRightShift => 31,
        Token::Lt => 32,
        Token::Gt => 33,
        Token::Le => 34,
        Token::Ge => 35,
        Token::Equals => 36,
        Token::NotEquals => 37,
        Token::StrictEquals => 38,
        Token::StrictNotEquals => 39,
        Token::BitwiseAnd => 40,
        Token::BitwiseXor => 41,
        Token::BitwiseOr => 42,
        Token::LogicalAnd => 43,
        Token::LogicalXor => 44,
        Token::LogicalOr => 45,
        Token::NullCoalescing => 46,
        Token::Assign => 47,
        Token::AddAssign => 48,
        Token::SubtractAssign => 49,
        Token::MultiplyAssign => 50,
        Token::DivideAssign => 51,
        Token::RemainderAssign => 52,
        Token::PowerAssign => 53,
        Token::LeftShiftAssign => 54,
        Token::RightShiftAssign => 55,
        Token::UnsignedRightShiftAssign => 56,
        Token::BitwiseAndAssign => 57,
        Token::BitwiseXorAssign => 58,
        Token::BitwiseOrAssign => 59,
        Token::LogicalAndAssign => 60,
        Token::LogicalXorAssign => 61,
        Token::LogicalOrAssign => 62,
        Token::NullCoalescingAssign => 63,
        Token::Increment => 64,
        Token::Decrement => 65,
        Token::FatArrow => 66,
        Token::As => 67,
        Token::Await => 68,
        Token::Break => 69,
        Token::Case => 70,
        Token::Catch => 71,
        Token::Class => 72,
        Token::Const => 73,
        Token::Continue => 74,
        Token::Default => 75,
        Token::Delete => 76,
        Token::Do => 77,
        Token::Else => 78,
        Token::Export => 79,
        Token::Extends => 80,
        Token::False => 81,
        Token::Finally => 82,
        Token::For => 83,
        Token::Function => 84,
        Token::If => 85,
        Token::Implements => 86,
        Token::Import => 87,
        Token::In => 88,
        Token::Instanceof => 89,
        Token::Interface => 90,
        Token::Internal => 91,
        Token::Is => 92,
        Token::New => 93,
        Token::Null => 94,
        Token::Package => 95,
        Token::Private => 96,
        Token::Protected => 97,
        Token::Public => 98,
        Token::Return => 99,
        Token::Super => 100,
        Token::Switch => 101,
        Token::This => 102,
        Token::Throw => 103,
        Token::True => 104,
        Token::Try => 105,
        Token::Typeof => 106,
        Token::Use => 107,
        Token::Var => 108,
        Token::Void => 109,
        Token::While => 110,
        Token::With => 111,
        Token::Yield => 112,
        Token::XmlWhitespace => 113,
        Token::XmlLtSlash => 114,
        Token::XmlSlashGt => 115,
        Token::XmlText(_) => 116,
        Token::XmlName(_) => 117,
        Token::XmlMarkup(_) => 118,
        Token::XmlAttributeValue(_) => 119,
    }
}

fn tag(t: &Token) -> (r: u8)
    ensures
        r == token_tag(*t),
{
    match t {
        Token::Eof => 0,
        Token::Identifier(_) => 1,
        Token::StringLiteral(_) => 2,
        Token::NumericLiteral(_) => 3,
        Token::RegExpLiteral { .. } => 4,
        Token::Dot => 5,
        Token::Descendants => 6,
        Token::Ellipsis => 7,
        Token::Comma => 8,
        Token::Semicolon => 9,
        Token::Colon => 10,
        Token::ColonColon => 11,
        Token::LeftParen => 12,
        Token::RightParen => 13,
        Token::LeftBracket => 14,
        Token::RightBracket => 15,
        Token::LeftBrace => 16,
        Token::RightBrace => 17,
        Token::Attribute => 18,
        Token::Question => 19,
        Token::OptionalChaining => 20,
        Token::Exclamation => 21,
        Token::BitwiseNot => 22,
        Token::Plus => 23,
        Token::Minus => 24,
        Token::Times => 25,
        Token::Div => 26,
        Token::Remainder => 27,
        Token::Power => 28,
        Token::LeftShift => 29,
        Token::RightShift => 30,
        Token::UnsignedRightShift => 31,
        Token::Lt => 32,
        Token::Gt => 33,
        Token::Le => 34,
        Token::Ge => 35,
        Token::Equals => 36,
        Token::NotEquals => 37,
        Token::StrictEquals => 38,
        Token::StrictNotEquals => 39,
        Token::BitwiseAnd => 40,
        Token::BitwiseXor => 41,
        Token::BitwiseOr => 42,
        Token::LogicalAnd => 43,
        Token::LogicalXor => 44,
        Token::LogicalOr => 45,
        Token::NullCoalescing => 46,
        Token::Assign => 47,
        Token::AddAssign => 48,
        Token::SubtractAssign => 49,
        Token::MultiplyAssign => 50,
        Token::DivideAssign => 51,
        Token::RemainderAssign => 52,
        Token::PowerAssign => 53,
        Token::LeftShiftAssign => 54,
        Token::RightShiftAssign => 55,
        Token::UnsignedRightShiftAssign => 56,
        Token::BitwiseAndAssign => 57,
        Token::BitwiseXorAssign => 58,
        Token::BitwiseOrAssign => 59,
        Token::LogicalAndAssign => 60,
        Token::LogicalXorAssign => 61,
        Token::LogicalOrAssign => 62,
        Token::NullCoalescingAssign => 63,
        Token::Increment => 64,
        Token::Decrement => 65,
        Token::FatArrow => 66,
        Token::As => 67,
        Token::Await => 68,
        Token::Break => 69,
        Token::Case => 70,
        Token::Catch => 71,
        Token::Class => 72,
        Token::Const => 73,
        Token::Continue => 74,
        Token::Default => 75,
        Token::Delete => 76,
        Token::Do => 77,
        Token::Else => 78,
        Token::Export => 79,
        Token::Extends => 80,
        Token::False => 81,
        Token::Finally => 82,
        Token::For => 83,
        Token::Function => 84,
        Token::If => 85,
        Token::Implements => 86,
        Token::Import => 87,
        Token::In => 88,
        Token::Instanceof => 89,
        Token::Interface => 90,
        Token::Internal => 91,
        Token::Is => 92,
        Token::New => 93,
        Token::Null => 94,
        Token::Package => 95,
        Token::Private => 96,
        Token::Protected => 97,
        Token::Public => 98,
        Token::Return => 99,
        Token::Super => 100,
        Token::Switch => 101,
        Token::This => 102,
        Token::Throw => 103,
        Token::True => 104,
        Token::Try => 105,
        Token::Typeof => 106,
        Token::Use => 107,
        Token::Var => 108,
        Token::Void => 109,
        Token::While => 110,
        Token::With => 111,
        Token::Yield => 112,
        Token::XmlWhitespace => 113,
        Token::XmlLtSlash => 114,
        Token::XmlSlashGt => 115,
        Token::XmlText(_) => 116,
        Token::XmlName(_) => 117,
        Token::XmlMarkup(_) => 118,
        Token::XmlAttributeValue(_) => 119,
    }
}

/// Whether two tokens are the same: of the same kind, carrying the same
/// characters or value.
pub open spec fn tokens_equal(a: Token, b: Token) -> bool {
    match (a, b) {
        (Token::Identifier(x), Token::Identifier(y)) => x@ == y@,
        (Token::StringLiteral(x), Token::StringLiteral(y)) => x@ == y@,
        (Token::XmlText(x), Token::XmlText(y)) => x@ == y@,
        (Token::XmlName(x), Token::XmlName(y)) => x@ == y@,
        (Token::XmlMarkup(x), Token::XmlMarkup(y)) => x@ == y@,
        (Token::XmlAttributeValue(x), Token::XmlAttributeValue(y)) => x@ == y@,
        (Token::NumericLiteral(x), Token::NumericLiteral(y)) => match (x, y) {
            (NumericValue::Decimal(p), NumericValue::Decimal(q)) => p@ == q@,
            (NumericValue::Integer(m), NumericValue::Integer(n)) => m == n,
            _ => false,
        },
        (Token::RegExpLiteral { body: b1, flags: f1 }, Token::RegExpLiteral { body: b2, flags: f2 }) =>
            b1@ == b2@ && f1@ == f2@,
        _ => a == b,
    }
}

/// Compares two tokens.
pub fn token_eq(a: &Token, b: &Token) -> (r: bool)
    ensures
        r == tokens_equal(*a, *b),
{
    match (a, b) {
        (Token::Identifier(x), Token::Identifier(y)) => str_eq(x.as_str(), y.as_str()),
        (Token::StringLiteral(x), Token::StringLiteral(y)) => str_eq(x.as_str(), y.as_str()),
        (Token::XmlText(x), Token::XmlText(y)) => str_eq(x.as_str(), y.as_str()),
        (Token::XmlName(x), Token::XmlName(y)) => str_eq(x.as_str(), y.as_str()),
        (Token::XmlMarkup(x), Token::XmlMarkup(y)) => str_eq(x.as_str(), y.as_str()),
        (Token::XmlAttributeValue(x), Token::XmlAttributeValue(y)) => str_eq(x.as_str(), y.as_str()),
        (Token::NumericLiteral(x), Token::NumericLiteral(y)) => match (x, y) {
            (NumericValue::Decimal(p), NumericValue::Decimal(q)) => str_eq(p.as_str(), q.as_str()),
            (NumericValue::Integer(m), NumericValue::Integer(n)) => *m == *n,
            _ => false,
        },
        (Token::RegExpLiteral { body: b1, flags: f1 }, Token::RegExpLiteral { body: b2, flags: f2 }) =>
            str_eq(b1.as_str(), b2.as_str()) && str_eq(f1.as_str(), f2.as_str()),
        _ => tag(a) == tag(b),
    }
}

} // verus!
