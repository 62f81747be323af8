//! Diagnostics: syntax errors, verify errors and warnings attached to a source.

use vstd::prelude::*;
use std::collections::HashMap;
use late_format::LateFormat;
use crate::location::Location;
use crate::token::Token;
use crate::keywords::token_display;
use crate::util::{decimal_digits, decimal_string};

verus! {

#[derive(Clone, Copy, Debug, PartialEq, Eq, Structural)]
pub enum DiagnosticKind {
    UnexpectedOrInvalidToken,
    UnexpectedEnd,
    FailedProcessingNumericLiteral,
    UnallowedNumericSuffix,
    UnallowedLineBreak,
    Expected,
    ExpectedIdentifier,
    ExpectedExpression,
    ExpectedXmlName,
    ExpectedXmlAttributeValue,
    MalformedArrowFunctionElement,
    WrongParameterPosition,
    DuplicateRestParameter,
    MalformedDestructuring,
    UnsupportedDestructuringRest,
    NotAllowedHere,
    IllegalNullishCoalescingLeftOperand,
    MalformedRestParameter,
    IllegalForInInitializer,
    MultipleForInBindings,
    IllegalBreak,
    IllegalContinue,
    UndefinedLabel,
    ExpressionMustNotFollowLineBreak,
    TokenMustNotFollowLineBreak,
    ParentSourceIsNotAFile,
    FailedToIncludeFile,
    UnrecognizedAsDocTag,
    FailedParsingAsDocTag,
    MalformedMetadataElement,
    DuplicateModifier,
    UnallowedModifier,
    InterfaceMethodHasAnnotations,
    MethodMustNotHaveBody,
    MethodMustSpecifyBody,
    MethodMustNotHaveGenerics,
    DuplicateClause,
    UnallowedNestedClasses,
}

/// The identifier of each diagnostic kind.
pub open spec fn diagnostic_id(k: DiagnosticKind) -> i32 {
    match k {
        DiagnosticKind::UnexpectedOrInvalidToken => 1024,
        DiagnosticKind::UnexpectedEnd => 1025,
        DiagnosticKind::FailedProcessingNumericLiteral => 1026,
        DiagnosticKind::UnallowedNumericSuffix => 1027,
        DiagnosticKind::UnallowedLineBreak => 1028,
        DiagnosticKind::Expected => 1029,
        DiagnosticKind::ExpectedIdentifier => 1030,
        DiagnosticKind::ExpectedExpression => 1031,
        DiagnosticKind::ExpectedXmlName => 1032,
        DiagnosticKind::ExpectedXmlAttributeValue => 1033,
        DiagnosticKind::MalformedArrowFunctionElement => 1034,
        DiagnosticKind::WrongParameterPosition => 1035,
        DiagnosticKind::DuplicateRestParameter => 1036,
        DiagnosticKind::MalformedDestructuring => 1037,
        DiagnosticKind::UnsupportedDestructuringRest => 1038,
        DiagnosticKind::NotAllowedHere => 1039,
        DiagnosticKind::IllegalNullishCoalescingLeftOperand => 140,
        DiagnosticKind::MalformedRestParameter => 141,
        DiagnosticKind::IllegalForInInitializer => 142,
        DiagnosticKind::MultipleForInBindings => 143,
        DiagnosticKind::IllegalBreak => 144,
        DiagnosticKind::IllegalContinue => 145,
        DiagnosticKind::UndefinedLabel => 146,
        DiagnosticKind::ExpressionMustNotFollowLineBreak => 147,
        DiagnosticKind::TokenMustNotFollowLineBreak => 148,
        DiagnosticKind::ParentSourceIsNotAFile => 149,
        DiagnosticKind::FailedToIncludeFile => 150,
        DiagnosticKind::UnrecognizedAsDocTag => 151,
        DiagnosticKind::FailedParsingAsDocTag => 152,
        DiagnosticKind::MalformedMetadataElement => 153,
        DiagnosticKind::DuplicateModifier => 154,
        DiagnosticKind::UnallowedModifier => 155,
        DiagnosticKind::InterfaceMethodHasAnnotations => 156,
        DiagnosticKind::MethodMustNotHaveBody => 157,
        DiagnosticKind::MethodMustSpecifyBody => 158,
        DiagnosticKind::MethodMustNotHaveGenerics => 159,
        DiagnosticKind::DuplicateClause => 160,
        DiagnosticKind::UnallowedNestedClasses => 161,
    }
}

impl DiagnosticKind {
    pub fn id(&self) -> (r: i32)
        ensures
            r == diagnostic_id(*self),
    {
        match self {
            DiagnosticKind::UnexpectedOrInvalidToken => 1024,
            DiagnosticKind::UnexpectedEnd => 1025,
            DiagnosticKind::FailedProcessingNumericLiteral => 1026,
            DiagnosticKind::UnallowedNumericSuffix => 1027,
            DiagnosticKind::UnallowedLineBreak => 1028,
            DiagnosticKind::Expected => 1029,
            DiagnosticKind::ExpectedIdentifier => 1030,
            DiagnosticKind::ExpectedExpression => 1031,
            DiagnosticKind::ExpectedXmlName => 1032,
            DiagnosticKind::ExpectedXmlAttributeValue => 1033,
            DiagnosticKind::MalformedArrowFunctionElement => 1034,
            DiagnosticKind::WrongParameterPosition => 1035,
            DiagnosticKind::DuplicateRestParameter => 1036,
            DiagnosticKind::MalformedDestructuring => 1037,
            DiagnosticKind::UnsupportedDestructuringRest => 1038,
            DiagnosticKind::NotAllowedHere => 1039,
            DiagnosticKind::IllegalNullishCoalescingLeftOperand => 140,
            DiagnosticKind::MalformedRestParameter => 141,
            DiagnosticKind::IllegalForInInitializer => 142,
            DiagnosticKind::MultipleForInBindings => 143,
            DiagnosticKind::IllegalBreak => 144,
            DiagnosticKind::IllegalContinue => 145,
            DiagnosticKind::UndefinedLabel => 146,
            DiagnosticKind::ExpressionMustNotFollowLineBreak => 147,
            DiagnosticKind::TokenMustNotFollowLineBreak => 148,
            DiagnosticKind::ParentSourceIsNotAFile => 149,
            DiagnosticKind::FailedToIncludeFile => 150,
            DiagnosticKind::UnrecognizedAsDocTag => 151,
            DiagnosticKind::FailedParsingAsDocTag => 152,
            DiagnosticKind::MalformedMetadataElement => 153,
            DiagnosticKind::DuplicateModifier => 154,
            DiagnosticKind::UnallowedModifier => 155,
            DiagnosticKind::InterfaceMethodHasAnnotations => 156,
            DiagnosticKind::MethodMustNotHaveBody => 157,
            DiagnosticKind::MethodMustSpecifyBody => 158,
            DiagnosticKind::MethodMustNotHaveGenerics => 159,
            DiagnosticKind::DuplicateClause => 160,
            DiagnosticKind::UnallowedNestedClasses => 161,
        }
    }
}

/// No two diagnostic kinds share an identifier.
pub proof fn lemma_diagnostic_id_injective(a: DiagnosticKind, b: DiagnosticKind)
    ensures
        diagnostic_id(a) == diagnostic_id(b) ==> a == b,
{
}

/// The English message of each diagnostic identifier that has one. Arguments
/// are written `{1}`, `{2}`, and so on.
pub open spec fn default_message(id: i32) -> Option<Seq<char>> {
    if id == 1024 { Some(seq!['U', 'n', 'e', 'x', 'p', 'e', 'c', 't', 'e', 'd', ' ', 'o', 'r', ' ', 'i', 'n', 'v', 'a', 'l', 'i', 'd', ' ', 't', 'o', 'k', 'e', 'n']) }
    else if id == 1025 { Some(seq!['U', 'n', 'e', 'x', 'p', 'e', 'c', 't', 'e', 'd', ' ', 'e', 'n', 'd', ' ', 'o', 'f', ' ', 'p', 'r', 'o', 'g', 'r', 'a', 'm']) }
    else if id == 1026 { Some(seq!['F', 'a', 'i', 'l', 'e', 'd', ' ', 'p', 'r', 'o', 'c', 'e', 's', 's', 'i', 'n', 'g', ' ', 'n', 'u', 'm', 'e', 'r', 'i', 'c', ' ', 'l', 'i', 't', 'e', 'r', 'a', 'l']) }
    else if id == 1027 { Some(seq!['U', 'n', 'a', 'l', 'l', 'o', 'w', 'e', 'd', ' ', 'n', 'u', 'm', 'e', 'r', 'i', 'c', ' ', 's', 'u', 'f', 'f', 'i', 'x']) }
    else if id == 1028 { Some(seq!['U', 'n', 'a', 'l', 'l', 'o', 'w', 'e', 'd', ' ', 'l', 'i', 'n', 'e', ' ', 'b', 'r', 'e', 'a', 'k']) }
    else if id == 1029 { Some(seq!['E', 'x', 'p', 'e', 'c', 't', 'e', 'd', ' ', '{', '1', '}', ' ', 'b', 'e', 'f', 'o', 'r', 'e', ' ', '{', '2', '}']) }
    else if id == 1030 { Some(seq!['E', 'x', 'p', 'e', 'c', 't', 'e', 'd', ' ', 'i', 'd', 'e', 'n', 't', 'i', 'f', 'i', 'e', 'r', ' ', 'b', 'e', 'f', 'o', 'r', 'e', ' ', '{', '1', '}']) }
    else if id == 1031 { Some(seq!['E', 'x', 'p', 'e', 'c', 't', 'e', 'd', ' ', 'e', 'x', 'p', 'r', 'e', 's', 's', 'i', 'o', 'n', ' ', 'b', 'e', 'f', 'o', 'r', 'e', ' ', '{', '1', '}']) }
    else if id == 1032 { Some(seq!['E', 'x', 'p', 'e', 'c', 't', 'e', 'd', ' ', 'X', 'M', 'L', ' ', 'n', 'a', 'm', 'e', ' ', 'b', 'e', 'f', 'o', 'r', 'e', ' ', '{', '1', '}']) }
    else if id == 1033 { Some(seq!['E', 'x', 'p', 'e', 'c', 't', 'e', 'd', ' ', 'X', 'M', 'L', ' ', 'a', 't', 't', 'r', 'i', 'b', 'u', 't', 'e', ' ', 'v', 'a', 'l', 'u', 'e', ' ', 'b', 'e', 'f', 'o', 'r', 'e', ' ', '{', '1', '}']) }
    else if id == 1034 { Some(seq!['M', 'a', 'l', 'f', 'o', 'r', 'm', 'e', 'd', ' ', 'a', 'r', 'r', 'o', 'w', ' ', 'f', 'u', 'n', 'c', 't', 'i', 'o', 'n', ' ', 'e', 'l', 'e', 'm', 'e', 'n', 't']) }
    else if id == 1035 { Some(seq!['W', 'r', 'o', 'n', 'g', ' ', 'p', 'a', 'r', 'a', 'm', 'e', 't', 'e', 'r', ' ', 'p', 'o', 's', 'i', 't', 'i', 'o', 'n']) }
    else if id == 1036 { Some(seq!['D', 'u', 'p', 'l', 'i', 'c', 'a', 't', 'e', ' ', 'r', 'e', 's', 't', ' ', 'p', 'a', 'r', 'a', 'm', 'e', 't', 'e', 'r']) }
    else if id == 1037 { Some(seq!['M', 'a', 'l', 'f', 'o', 'r', 'm', 'e', 'd', ' ', 'd', 'e', 's', 't', 'r', 'u', 'c', 't', 'u', 'r', 'i', 'n', 'g']) }
    else if id == 1038 { Some(seq!['U', 'n', 's', 'u', 'p', 'p', 'o', 'r', 't', 'e', 'd', ' ', 'd', 'e', 's', 't', 'r', 'u', 'c', 't', 'u', 'r', 'i', 'n', 'g', ' ', 'r', 'e', 's', 't', ' ', 'o', 'p', 'e', 'r', 'a', 't', 'i', 'o', 'n']) }
    else if id == 1039 { Some(seq!['{', '1', '}', ' ', 'n', 'o', 't', ' ', 'a', 'l', 'l', 'o', 'w', 'e', 'd', ' ', 'h', 'e', 'r', 'e']) }
    else if id == 140 { Some(seq!['I', 'l', 'l', 'e', 'g', 'a', 'l', ' ', 'n', 'u', 'l', 'l', 'i', 's', 'h', ' ', 'c', 'o', 'a', 'l', 'e', 's', 'c', 'i', 'n', 'g', ' ', 'l', 'e', 'f', 't', ' ', 'o', 'p', 'e', 'r', 'a', 'n', 'd']) }
    else if id == 141 { Some(seq!['M', 'a', 'l', 'f', 'o', 'r', 'm', 'e', 'd', ' ', 'r', 'e', 's', 't', ' ', 'p', 'a', 'r', 'a', 'm', 'e', 't', 'e', 'r']) }
    else if id == 142 { Some(seq!['I', 'l', 'l', 'e', 'g', 'a', 'l', ' ', 'f', 'o', 'r', '.', '.', 'i', 'n', ' ', 'i', 'n', 'i', 't', 'i', 'a', 'l', 'i', 'z', 'e', 'r']) }
    else if id == 143 { Some(seq!['M', 'u', 'l', 't', 'i', 'p', 'l', 'e', ' ', 'f', 'o', 'r', '.', '.', 'i', 'n', ' ', 'b', 'i', 'n', 'd', 'i', 'n', 'g', 's']) }
    else if id == 144 { Some(seq!['I', 'l', 'l', 'e', 'g', 'a', 'l', ' ', 'b', 'r', 'e', 'a', 'k', ' ', 's', 't', 'a', 't', 'e', 'm', 'e', 'n', 't']) }
    else if id == 145 { Some(seq!['I', 'l', 'l', 'e', 'g', 'a', 'l', ' ', 'c', 'o', 'n', 't', 'i', 'n', 'u', 'e', ' ', 's', 't', 'a', 't', 'e', 'm', 'e', 'n', 't']) }
    else if id == 146 { Some(seq!['U', 'n', 'd', 'e', 'f', 'i', 'n', 'e', 'd', ' ', 'l', 'a', 'b', 'e', 'l', ' ', '{', '1', '}']) }
    else if id == 147 { Some(seq!['E', 'x', 'p', 'r', 'e', 's', 's', 'i', 'o', 'n', ' ', 'm', 'u', 's', 't', ' ', 'n', 'o', 't', ' ', 'f', 'o', 'l', 'l', 'o', 'w', ' ', 'l', 'i', 'n', 'e', ' ', 'b', 'r', 'e', 'a', 'k']) }
    else if id == 148 { Some(seq!['T', 'o', 'k', 'e', 'n', ' ', 'm', 'u', 's', 't', ' ', 'n', 'o', 't', ' ', 'f', 'o', 'l', 'l', 'o', 'w', ' ', 'l', 'i', 'n', 'e', ' ', 'b', 'r', 'e', 'a', 'k']) }
    else if id == 149 { Some(seq!['P', 'a', 'r', 'e', 'n', 't', ' ', 's', 'o', 'u', 'r', 'c', 'e', ' ', 'i', 's', ' ', 'n', 'o', 't', ' ', 'a', ' ', 'f', 'i', 'l', 'e']) }
    else if id == 150 { Some(seq!['F', 'a', 'i', 'l', 'e', 'd', ' ', 't', 'o', ' ', 'i', 'n', 'c', 'l', 'u', 'd', 'e', ' ', 'f', 'i', 'l', 'e']) }
    else if id == 151 { Some(seq!['U', 'n', 'r', 'e', 'c', 'o', 'g', 'n', 'i', 'z', 'e', 'd', ' ', 'A', 'S', 'D', 'o', 'c', ' ', 't', 'a', 'g', ' ', '\'', '{', '1', '}', '\'']) }
    else if id == 152 { Some(seq!['F', 'a', 'i', 'l', 'e', 'd', ' ', 'p', 'a', 'r', 's', 'i', 'n', 'g', ' ', 'A', 'S', 'D', 'o', 'c', ' ', '\'', '{', '1', '}', '\'', ' ', 't', 'a', 'g']) }
    else if id == 153 { Some(seq!['M', 'a', 'l', 'f', 'o', 'r', 'm', 'e', 'd', ' ', 'm', 'e', 't', 'a', ' ', 'd', 'a', 't', 'a', ' ', 'e', 'l', 'e', 'm', 'e', 'n', 't']) }
    else { None }
}

/// The table of English messages, keyed by diagnostic identifier.
pub fn default_messages() -> (r: HashMap<i32, String>)
    ensures
        forall|id: i32| #[trigger] r@.contains_key(id) <==> default_message(id) is Some,
        forall|id: i32| r@.contains_key(id) ==> (#[trigger] r@[id])@ == default_message(id).unwrap(),
{
    broadcast use vstd::std_specs::hash::group_hash_axioms;
    let mut m: HashMap<i32, String> = HashMap::new();
    m.insert(1024, "Unexpected or invalid token".to_string());
    m.insert(1025, "Unexpected end of program".to_string());
    m.insert(1026, "Failed processing numeric literal".to_string());
    m.insert(1027, "Unallowed numeric suffix".to_string());
    m.insert(1028, "Unallowed line break".to_string());
    m.insert(1029, "Expected {1} before {2}".to_string());
    m.insert(1030, "Expected identifier before {1}".to_string());
    m.insert(1031, "Expected expression before {1}".to_string());
    m.insert(1032, "Expected XML name before {1}".to_string());
    m.insert(1033, "Expected XML attribute value before {1}".to_string());
    m.insert(1034, "Malformed arrow function element".to_string());
    m.insert(1035, "Wrong parameter position".to_string());
    m.insert(1036, "Duplicate rest parameter".to_string());
    m.insert(1037, "Malformed destructuring".to_string());
    m.insert(1038, "Unsupported destructuring rest operation".to_string());
    m.insert(1039, "{1} not allowed here".to_string());
    m.insert(140, "Illegal nullish coalescing left operand".to_string());
    m.insert(141, "Malformed rest parameter".to_string());
    m.insert(142, "Illegal for..in initializer".to_string());
    m.insert(143, "Multiple for..in bindings".to_string());
    m.insert(144, "Illegal break statement".to_string());
    m.insert(145, "Illegal continue statement".to_string());
    m.insert(146, "Undefined label {1}".to_string());
    m.insert(147, "Expression must not follow line break".to_string());
    m.insert(148, "Token must not follow line break".to_string());
    m.insert(149, "Parent source is not a file".to_string());
    m.insert(150, "Failed to include file".to_string());
    m.insert(151, "Unrecognized ASDoc tag '{1}'".to_string());
    m.insert(152, "Failed parsing ASDoc '{1}' tag".to_string());
    m.insert(153, "Malformed meta data element".to_string());
    proof {
        reveal_strlit("Unexpected or invalid token");
        assert("Unexpected or invalid token"@ =~= seq!['U', 'n', 'e', 'x', 'p', 'e', 'c', 't', 'e', 'd', ' ', 'o', 'r', ' ', 'i', 'n', 'v', 'a', 'l', 'i', 'd', ' ', 't', 'o', 'k', 'e', 'n']);
        reveal_strlit("Unexpected end of program");
        assert("Unexpected end of program"@ =~= seq!['U', 'n', 'e', 'x', 'p', 'e', 'c', 't', 'e', 'd', ' ', 'e', 'n', 'd', ' ', 'o', 'f', ' ', 'p', 'r', 'o', 'g', 'r', 'a', 'm']);
        reveal_strlit("Failed processing numeric literal");
        assert("Failed processing numeric literal"@ =~= seq!['F', 'a', 'i', 'l', 'e', 'd', ' ', 'p', 'r', 'o', 'c', 'e', 's', 's', 'i', 'n', 'g', ' ', 'n', 'u', 'm', 'e', 'r', 'i', 'c', ' ', 'l', 'i', 't', 'e', 'r', 'a', 'l']);
        reveal_strlit("Unallowed numeric suffix");
        assert("Unallowed numeric suffix"@ =~= seq!['U', 'n', 'a', 'l', 'l', 'o', 'w', 'e', 'd', ' ', 'n', 'u', 'm', 'e', 'r', 'i', 'c', ' ', 's', 'u', 'f', 'f', 'i', 'x']);
        reveal_strlit("Unallowed line break");
        assert("Unallowed line break"@ =~= seq!['U', 'n', 'a', 'l', 'l', 'o', 'w', 'e', 'd', ' ', 'l', 'i', 'n', 'e', ' ', 'b', 'r', 'e', 'a', 'k']);
        reveal_strlit("Expected {1} before {2}");
        assert("Expected {1} before {2}"@ =~= seq!['E', 'x', 'p', 'e', 'c', 't', 'e', 'd', ' ', '{', '1', '}', ' ', 'b', 'e', 'f', 'o', 'r', 'e', ' ', '{', '2', '}']);
        reveal_strlit("Expected identifier before {1}");
        assert("Expected identifier before {1}"@ =~= seq!['E', 'x', 'p', 'e', 'c', 't', 'e', 'd', ' ', 'i', 'd', 'e', 'n', 't', 'i', 'f', 'i', 'e', 'r', ' ', 'b', 'e', 'f', 'o', 'r', 'e', ' ', '{', '1', '}']);
        reveal_strlit("Expected expression before {1}");
        assert("Expected expression before {1}"@ =~= seq!['E', 'x', 'p', 'e', 'c', 't', 'e', 'd', ' ', 'e', 'x', 'p', 'r', 'e', 's', 's', 'i', 'o', 'n', ' ', 'b', 'e', 'f', 'o', 'r', 'e', ' ', '{', '1', '}']);
        reveal_strlit("Expected XML name before {1}");
        assert("Expected XML name before {1}"@ =~= seq!['E', 'x', 'p', 'e', 'c', 't', 'e', 'd', ' ', 'X', 'M', 'L', ' ', 'n', 'a', 'm', 'e', ' ', 'b', 'e', 'f', 'o', 'r', 'e', ' ', '{', '1', '}']);
        reveal_strlit("Expected XML attribute value before {1}");
        assert("Expected XML attribute value before {1}"@ =~= seq!['E', 'x', 'p', 'e', 'c', 't', 'e', 'd', ' ', 'X', 'M', 'L', ' ', 'a', 't', 't', 'r', 'i', 'b', 'u', 't', 'e', ' ', 'v', 'a', 'l', 'u', 'e', ' ', 'b', 'e', 'f', 'o', 'r', 'e', ' ', '{', '1', '}']);
        reveal_strlit("Malformed arrow function element");
        assert("Malformed arrow function element"@ =~= seq!['M', 'a', 'l', 'f', 'o', 'r', 'm', 'e', 'd', ' ', 'a', 'r', 'r', 'o', 'w', ' ', 'f', 'u', 'n', 'c', 't', 'i', 'o', 'n', ' ', 'e', 'l', 'e', 'm', 'e', 'n', 't']);
        reveal_strlit("Wrong parameter position");
        assert("Wrong parameter position"@ =~= seq!['W', 'r', 'o', 'n', 'g', ' ', 'p', 'a', 'r', 'a', 'm', 'e', 't', 'e', 'r', ' ', 'p', 'o', 's', 'i', 't', 'i', 'o', 'n']);
        reveal_strlit("Duplicate rest parameter");
        assert("Duplicate rest parameter"@ =~= seq!['D', 'u', 'p', 'l', 'i', 'c', 'a', 't', 'e', ' ', 'r', 'e', 's', 't', ' ', 'p', 'a', 'r', 'a', 'm', 'e', 't', 'e', 'r']);
        reveal_strlit("Malformed destructuring");
        assert("Malformed destructuring"@ =~= seq!['M', 'a', 'l', 'f', 'o', 'r', 'm', 'e', 'd', ' ', 'd', 'e', 's', 't', 'r', 'u', 'c', 't', 'u', 'r', 'i', 'n', 'g']);
        reveal_strlit("Unsupported destructuring rest operation");
        assert("Unsupported destructuring rest operation"@ =~= seq!['U', 'n', 's', 'u', 'p', 'p', 'o', 'r', 't', 'e', 'd', ' ', 'd', 'e', 's', 't', 'r', 'u', 'c', 't', 'u', 'r', 'i', 'n', 'g', ' ', 'r', 'e', 's', 't', ' ', 'o', 'p', 'e', 'r', 'a', 't', 'i', 'o', 'n']);
        reveal_strlit("{1} not allowed here");
        assert("{1} not allowed here"@ =~= seq!['{', '1', '}', ' ', 'n', 'o', 't', ' ', 'a', 'l', 'l', 'o', 'w', 'e', 'd', ' ', 'h', 'e', 'r', 'e']);
        reveal_strlit("Illegal nullish coalescing left operand");
        assert("Illegal nullish coalescing left operand"@ =~= seq!['I', 'l', 'l', 'e', 'g', 'a', 'l', ' ', 'n', 'u', 'l', 'l', 'i', 's', 'h', ' ', 'c', 'o', 'a', 'l', 'e', 's', 'c', 'i', 'n', 'g', ' ', 'l', 'e', 'f', 't', ' ', 'o', 'p', 'e', 'r', 'a', 'n', 'd']);
        reveal_strlit("Malformed rest parameter");
        assert("Malformed rest parameter"@ =~= seq!['M', 'a', 'l', 'f', 'o', 'r', 'm', 'e', 'd', ' ', 'r', 'e', 's', 't', ' ', 'p', 'a', 'r', 'a', 'm', 'e', 't', 'e', 'r']);
        reveal_strlit("Illegal for..in initializer");
        assert("Illegal for..in initializer"@ =~= seq!['I', 'l', 'l', 'e', 'g', 'a', 'l', ' ', 'f', 'o', 'r', '.', '.', 'i', 'n', ' ', 'i', 'n', 'i', 't', 'i', 'a', 'l', 'i', 'z', 'e', 'r']);
        reveal_strlit("Multiple for..in bindings");
        assert("Multiple for..in bindings"@ =~= seq!['M', 'u', 'l', 't', 'i', 'p', 'l', 'e', ' ', 'f', 'o', 'r', '.', '.', 'i', 'n', ' ', 'b', 'i', 'n', 'd', 'i', 'n', 'g', 's']);
        reveal_strlit("Illegal break statement");
        assert("Illegal break statement"@ =~= seq!['I', 'l', 'l', 'e', 'g', 'a', 'l', ' ', 'b', 'r', 'e', 'a', 'k', ' ', 's', 't', 'a', 't', 'e', 'm', 'e', 'n', 't']);
        reveal_strlit("Illegal continue statement");
        assert("Illegal continue statement"@ =~= seq!['I', 'l', 'l', 'e', 'g', 'a', 'l', ' ', 'c', 'o', 'n', 't', 'i', 'n', 'u', 'e', ' ', 's', 't', 'a', 't', 'e', 'm', 'e', 'n', 't']);
        reveal_strlit("Undefined label {1}");
        assert("Undefined label {1}"@ =~= seq!['U', 'n', 'd', 'e', 'f', 'i', 'n', 'e', 'd', ' ', 'l', 'a', 'b', 'e', 'l', ' ', '{', '1', '}']);
        reveal_strlit("Expression must not follow line break");
        assert("Expression must not follow line break"@ =~= seq!['E', 'x', 'p', 'r', 'e', 's', 's', 'i', 'o', 'n', ' ', 'm', 'u', 's', 't', ' ', 'n', 'o', 't', ' ', 'f', 'o', 'l', 'l', 'o', 'w', ' ', 'l', 'i', 'n', 'e', ' ', 'b', 'r', 'e', 'a', 'k']);
        reveal_strlit("Token must not follow line break");
        assert("Token must not follow line break"@ =~= seq!['T', 'o', 'k', 'e', 'n', ' ', 'm', 'u', 's', 't', ' ', 'n', 'o', 't', ' ', 'f', 'o', 'l', 'l', 'o', 'w', ' ', 'l', 'i', 'n', 'e', ' ', 'b', 'r', 'e', 'a', 'k']);
        reveal_strlit("Parent source is not a file");
        assert("Parent source is not a file"@ =~= seq!['P', 'a', 'r', 'e', 'n', 't', ' ', 's', 'o', 'u', 'r', 'c', 'e', ' ', 'i', 's', ' ', 'n', 'o', 't', ' ', 'a', ' ', 'f', 'i', 'l', 'e']);
        reveal_strlit("Failed to include file");
        assert("Failed to include file"@ =~= seq!['F', 'a', 'i', 'l', 'e', 'd', ' ', 't', 'o', ' ', 'i', 'n', 'c', 'l', 'u', 'd', 'e', ' ', 'f', 'i', 'l', 'e']);
        reveal_strlit("Unrecognized ASDoc tag '{1}'");
        assert("Unrecognized ASDoc tag '{1}'"@ =~= seq!['U', 'n', 'r', 'e', 'c', 'o', 'g', 'n', 'i', 'z', 'e', 'd', ' ', 'A', 'S', 'D', 'o', 'c', ' ', 't', 'a', 'g', ' ', '\'', '{', '1', '}', '\'']);
        reveal_strlit("Failed parsing ASDoc '{1}' tag");
        assert("Failed parsing ASDoc '{1}' tag"@ =~= seq!['F', 'a', 'i', 'l', 'e', 'd', ' ', 'p', 'a', 'r', 's', 'i', 'n', 'g', ' ', 'A', 'S', 'D', 'o', 'c', ' ', '\'', '{', '1', '}', '\'', ' ', 't', 'a', 'g']);
        reveal_strlit("Malformed meta data element");
        assert("Malformed meta data element"@ =~= seq!['M', 'a', 'l', 'f', 'o', 'r', 'm', 'e', 'd', ' ', 'm', 'e', 't', 'a', ' ', 'd', 'a', 't', 'a', ' ', 'e', 'l', 'e', 'm', 'e', 'n', 't']);
    }
    assert forall|id: i32| #[trigger] m@.contains_key(id) <==> default_message(id) is Some by {}
    m
}

/// An argument of a diagnostic message.
#[derive(Debug)]
pub enum DiagnosticArgument {
    String(String),
    Token(Token),
}

impl Clone for DiagnosticArgument {
    fn clone(&self) -> (r: Self)
        ensures
            r == *self,
    {
        match self {
            DiagnosticArgument::String(s) => DiagnosticArgument::String(s.clone()),
            DiagnosticArgument::Token(t) => DiagnosticArgument::Token(t.clone()),
        }
    }
}

/// The text an argument stands for in a message.
pub open spec fn argument_text(a: DiagnosticArgument) -> Seq<char> {
    match a {
        DiagnosticArgument::String(s) => s@,
        DiagnosticArgument::Token(t) => token_display(t),
    }
}

/// The keys under which the arguments are substituted: `1`, `2`, and so on.
pub open spec fn argument_keys(n: nat) -> Seq<Seq<char>> {
    Seq::new(n, |i: int| decimal_digits((i + 1) as nat))
}

/// The texts of a list of arguments.
pub open spec fn argument_texts(args: Seq<DiagnosticArgument>) -> Seq<Seq<char>> {
    args.map_values(|a: DiagnosticArgument| argument_text(a))
}

/// What `late_format` makes of a message template given parameter names and
/// their values.
pub uninterp spec fn late_formatted(template: Seq<char>, keys: Seq<Seq<char>>, values: Seq<Seq<char>>) -> Seq<char>;

/// Calls `LateFormat::late_format` on `template` with the map from each key
/// to the value at the same position. The result is named, not described;
/// the source shows that a template without `{` comes back unchanged, since
/// every substitution starts at a `{`.
#[verifier::external_body]
fn late_format(template: &str, keys: Vec<String>, values: Vec<String>) -> (r: String)
    requires
        keys.len() == values.len(),
    ensures
        r@ == late_formatted(template@, keys.deep_view(), values.deep_view()),
        !template@.contains('{') ==> r@ == template@,
{
    template.late_format(keys.into_iter().zip(values).collect())
}

/// Represents a source diagnostic.
///
/// Arguments are formatted using integer keys counting from one.
#[derive(Debug)]
pub struct Diagnostic {
    pub location: Location,
    pub kind: DiagnosticKind,
    pub is_warning: bool,
    pub is_verify_error: bool,
    pub arguments: Vec<DiagnosticArgument>,
}

impl Clone for Diagnostic {
    fn clone(&self) -> (r: Self)
        ensures
            r.location == self.location,
            r.kind == self.kind,
            r.is_warning == self.is_warning,
            r.is_verify_error == self.is_verify_error,
            r.arguments@ == self.arguments@,
    {
        Diagnostic {
            location: self.location,
            kind: self.kind,
            is_warning: self.is_warning,
            is_verify_error: self.is_verify_error,
            arguments: clone_arguments(&self.arguments),
        }
    }
}

fn clone_arguments(v: &Vec<DiagnosticArgument>) -> (r: Vec<DiagnosticArgument>)
    ensures
        r@ == v@,
{
    let mut r: Vec<DiagnosticArgument> = Vec::new();
    let mut i: usize = 0;
    while i < v.len()
        invariant
            i <= v.len(),
            r@ == v@.subrange(0, i as int),
        decreases v.len() - i,
    {
        r.push(v[i].clone());
        i = i + 1;
        assert(r@ =~= v@.subrange(0, i as int));
    }
    assert(v@.subrange(0, v.len() as int) =~= v@);
    r
}

impl Diagnostic {
    pub fn new_syntax_error(location: &Location, kind: DiagnosticKind, arguments: Vec<DiagnosticArgument>) -> (r: Self)
        ensures
            r == (Diagnostic { location: *location, kind, is_verify_error: false, is_warning: false, arguments }),
    {
        Self { location: *location, kind, is_verify_error: false, is_warning: false, arguments }
    }

    pub fn new_verify_error(location: &Location, kind: DiagnosticKind, arguments: Vec<DiagnosticArgument>) -> (r: Self)
        ensures
            r == (Diagnostic { location: *location, kind, is_verify_error: true, is_warning: false, arguments }),
    {
        Self { location: *location, kind, is_verify_error: true, is_warning: false, arguments }
    }

    pub fn new_warning(location: &Location, kind: DiagnosticKind, arguments: Vec<DiagnosticArgument>) -> (r: Self)
        ensures
            r == (Diagnostic { location: *location, kind, is_verify_error: false, is_warning: true, arguments }),
    {
        Self { location: *location, kind, is_verify_error: false, is_warning: true, arguments }
    }

    pub fn location(&self) -> (r: Location)
        ensures
            r == self.location,
    {
        self.location
    }

    pub fn kind(&self) -> (r: DiagnosticKind)
        ensures
            r == self.kind,
    {
        self.kind
    }

    pub fn is_warning(&self) -> (r: bool)
        ensures
            r == self.is_warning,
    {
        self.is_warning
    }

    pub fn is_verify_error(&self) -> (r: bool)
        ensures
            r == self.is_verify_error,
    {
        self.is_verify_error
    }

    /// Whether the diagnostic is an error, of either kind.
    pub fn is_error(&self) -> (r: bool)
        ensures
            r == !self.is_warning,
    {
        !self.is_warning
    }

    /// Whether the diagnostic is a syntax error: neither a verify error nor
    /// a warning.
    pub fn is_syntax_error(&self) -> (r: bool)
        ensures
            r == (!self.is_verify_error && !self.is_warning),
    {
        !self.is_verify_error && !self.is_warning
    }

    pub fn arguments(&self) -> (r: Vec<DiagnosticArgument>)
        ensures
            r@ == self.arguments@,
    {
        clone_arguments(&self.arguments)
    }

    pub fn id(&self) -> (r: i32)
        ensures
            r == diagnostic_id(self.kind),
    {
        self.kind.id()
    }

    fn format_argument(&self, argument: &DiagnosticArgument) -> (r: String)
        ensures
            r@ == argument_text(*argument),
    {
        match argument {
            DiagnosticArgument::String(s) => s.clone(),
            DiagnosticArgument::Token(t) => t.to_string(),
        }
    }

    /// Formats the message of this diagnostic from a table of messages. The
    /// table must hold a message for the identifier of this diagnostic.
    pub fn format_message(&self, messages: &HashMap<i32, String>) -> (r: String)
        requires
            messages@.contains_key(diagnostic_id(self.kind)),
        ensures
            r@ == late_formatted(
                messages@[diagnostic_id(self.kind)]@,
                argument_keys(self.arguments@.len()),
                argument_texts(self.arguments@),
            ),
    {
        broadcast use vstd::std_specs::hash::group_hash_axioms;
        let mut keys: Vec<String> = Vec::new();
        let mut values: Vec<String> = Vec::new();
        let mut i: usize = 0;
        let n = self.arguments.len();
        while i < n
            invariant
                n == self.arguments@.len(),
                i <= n,
                keys.len() == i,
                values.len() == i,
                keys.deep_view() =~= argument_keys(n as nat).subrange(0, i as int),
                values.deep_view() =~= argument_texts(self.arguments@).subrange(0, i as int),
            decreases n - i,
        {
            keys.push(decimal_string((i as u64) + 1));
            values.push(self.format_argument(&self.arguments[i]));
            i = i + 1;
        }
        assert(argument_keys(n as nat).subrange(0, n as int) =~= argument_keys(n as nat));
        assert(argument_texts(self.arguments@).subrange(0, n as int) =~= argument_texts(self.arguments@));
        let id = self.id();
        let msg = messages.get(&id).unwrap();
        assert(msg@ == messages@[diagnostic_id(self.kind)]@);
        late_format(msg.as_str(), keys, values)
    }

    /// Formats the message of this diagnostic in English. Every kind but the
    /// few that have no English message yet can be formatted.
    pub fn format_message_default(&self) -> (r: String)
        requires
            default_message(diagnostic_id(self.kind)) is Some,
        ensures
            r@ == late_formatted(
                default_message(diagnostic_id(self.kind)).unwrap(),
                argument_keys(self.arguments@.len()),
                argument_texts(self.arguments@),
            ),
    {
        let messages = default_messages();
        self.format_message(&messages)
    }
}

} // verus!
