use as3_parser::ast::{FunctionParamKind, ReservedNamespace};
use as3_parser::compiler_options::CompilerOptions;
use as3_parser::diagnostics::{DiagnosticArgument, DiagnosticKind};
use as3_parser::location::Location;
use as3_parser::operator::Operator;
use as3_parser::operator_precedence::OperatorPrecedence;
use as3_parser::parser::{is_annotatable_definition_context_keyword, ExpressionContext, Parser};
use as3_parser::source::Source;
use as3_parser::token::{token_eq, Token};

fn parser_for(text: &str) -> Parser {
    let mut parser = Parser::new(Source::new(None, text.to_owned(), &CompilerOptions::new()));
    parser.next().ok().unwrap();
    parser
}

#[test]
fn consume_and_expect_tokens() {
    let mut parser = parser_for("( a ) public");
    assert!(parser.peek(Token::LeftParen));
    assert_eq!(parser.consume(Token::LeftParen).ok(), Some(true));
    assert_eq!(parser.consume(Token::LeftParen).ok(), Some(false));
    let (name, location) = parser.expect_identifier(false).ok().unwrap();
    assert_eq!(name, "a");
    assert_eq!(location.first_offset(), 2);
    assert!(matches!(parser.previous_token.0, Token::Identifier(_)));
    assert!(parser.expect(Token::RightParen).is_ok());
    assert_eq!(parser.peek_reserved_namespace(), Some(ReservedNamespace::Public));
    assert!(parser.expect(Token::Comma).is_err());
    let diagnostics = parser.source().diagnostics();
    assert_eq!(diagnostics.len(), 1);
    assert_eq!(diagnostics[0].kind(), DiagnosticKind::Expected);
    assert_eq!(diagnostics[0].format_message_default(), "Expected , before public");
    assert!(parser.source().invalidated());
}

#[test]
fn reserved_words_as_names() {
    let mut parser = parser_for("while x");
    assert!(parser.consume_identifier(false).ok().unwrap().is_none());
    let (name, _) = parser.consume_identifier(true).ok().unwrap().unwrap();
    assert_eq!(name, "while");
    assert!(parser.expect_identifier(false).is_ok());
    assert!(parser.expect_identifier(false).is_err());
    let diagnostics = parser.source().diagnostics();
    assert_eq!(diagnostics[0].kind(), DiagnosticKind::ExpectedIdentifier);
    assert!(matches!(diagnostics[0].arguments()[0], DiagnosticArgument::Token(Token::Eof)));
}

#[test]
fn context_keywords_must_be_written_plainly() {
    let mut parser = parser_for("not \\u006eot each");
    assert!(parser.peek_context_keyword("not"));
    assert_eq!(parser.consume_context_keyword("not").ok(), Some(true));
    assert!(!parser.peek_context_keyword("not"));
    assert!(parser.expect_context_keyword("not").is_err());
    assert!(parser.next().is_ok());
    assert!(parser.expect_context_keyword("each").is_ok());
    assert!(parser.expect_eof().is_ok());
}

#[test]
fn generics_gt_splits_shift_tokens() {
    let mut parser = parser_for(">>= x");
    let first = parser.token_location().first_offset();
    assert!(parser.expect_generics_gt().is_ok());
    assert!(parser.peek(Token::Ge));
    assert_eq!(parser.token_location().first_offset(), first + 1);
    assert!(parser.expect_generics_gt().is_ok());
    assert!(parser.peek(Token::Assign));
    assert!(parser.expect_generics_gt().is_err());
}

#[test]
fn binary_and_prefix_operators() {
    let parser = parser_for("**");
    assert_eq!(parser.check_binary_operator(), Some((OperatorPrecedence::Exponentiation, Operator::Power, OperatorPrecedence::Exponentiation)));
    let parser = parser_for("+");
    assert_eq!(parser.check_binary_operator(), Some((OperatorPrecedence::Additive, Operator::Add, OperatorPrecedence::Shift)));
    assert_eq!(parser.check_prefix_operator(), Some((Operator::Positive, OperatorPrecedence::Unary)));
    let parser = parser_for("??");
    assert_eq!(parser.check_binary_operator(), Some((OperatorPrecedence::LogicalOrAndNullCoalescing, Operator::NullCoalescing, OperatorPrecedence::BitwiseOr)));
    let parser = parser_for("delete");
    assert_eq!(parser.check_binary_operator(), None);
    assert_eq!(parser.check_prefix_operator(), Some((Operator::Delete, OperatorPrecedence::Postfix)));
}

#[test]
fn parameter_order_is_checked() {
    let mut parser = parser_for("");
    let l = |o: usize| Location::with_line_and_offset(1, o);
    let params = vec![
        (FunctionParamKind::Optional, l(1)),
        (FunctionParamKind::Required, l(2)),
        (FunctionParamKind::Rest, l(3)),
        (FunctionParamKind::Rest, l(4)),
    ];
    assert!(parser.validate_function_parameter_list(&params).is_ok());
    let diagnostics = parser.source().diagnostics();
    assert_eq!(diagnostics.len(), 2);
    assert_eq!(diagnostics[0].kind(), DiagnosticKind::WrongParameterPosition);
    assert_eq!(diagnostics[0].location().first_offset(), 2);
    assert_eq!(diagnostics[1].kind(), DiagnosticKind::DuplicateRestParameter);
    assert_eq!(diagnostics[1].location().first_offset(), 4);
}

#[test]
fn locations_mark_node_starts() {
    let mut parser = parser_for("a b");
    parser.mark_location();
    parser.duplicate_location();
    assert!(parser.next().is_ok());
    let inner = parser.pop_location();
    let outer = parser.pop_location();
    assert_eq!(inner.first_offset(), 0);
    assert_eq!(inner.last_offset(), 2);
    assert_eq!(outer, inner);
    assert!(token_eq(&parser.token.0, &Token::Identifier("b".to_owned())));
    let context = ExpressionContext::default();
    assert_eq!(context.min_precedence, OperatorPrecedence::List);
}

#[test]
fn peek_identifier_leaves_the_token() {
    let parser = parser_for("if y");
    assert!(parser.peek_identifier(false).ok().unwrap().is_none());
    let (name, location) = parser.peek_identifier(true).ok().unwrap().unwrap();
    assert_eq!(name, "if");
    assert_eq!(location.first_offset(), 0);
    assert!(parser.peek(Token::If));
}

#[test]
fn annotatable_definition_starts() {
    let parser = parser_for("function");
    assert!(parser.peek_annotatable_definition_reserved_word());
    let parser = parser_for("package");
    assert!(!parser.peek_annotatable_definition_reserved_word());
    let source = Source::new(None, "namespace \\u0074ype".to_owned(), &CompilerOptions::new());
    let plain = ("namespace".to_owned(), Location::with_line_and_offsets(1, 0, 9));
    assert!(is_annotatable_definition_context_keyword(&plain, &source));
    let escaped = ("type".to_owned(), Location::with_line_and_offsets(1, 10, 19));
    assert!(!is_annotatable_definition_context_keyword(&escaped, &source));
    let other = ("class".to_owned(), Location::with_line_and_offsets(1, 0, 5));
    assert!(!is_annotatable_definition_context_keyword(&other, &source));
}

#[test]
fn readonly_field_modifier() {
    let mut parser = parser_for("readonly x");
    let id = parser.expect_identifier(false).ok().unwrap();
    assert!(parser.record_type_field_readonly(id.clone()));
    let mut parser = parser_for("readonly :");
    let id = parser.expect_identifier(false).ok().unwrap();
    assert!(!parser.record_type_field_readonly(id));
}

#[test]
fn line_break_before_token_is_reported() {
    let mut parser = parser_for("a\nb");
    assert!(parser.next().is_ok());
    parser.forbid_line_break_before_token();
    let diagnostics = parser.source().diagnostics();
    assert_eq!(diagnostics.len(), 1);
    assert_eq!(diagnostics[0].kind(), DiagnosticKind::TokenMustNotFollowLineBreak);
    assert_eq!(diagnostics[0].location().first_offset(), 2);
    let mut parser = parser_for("a b");
    assert!(parser.next().is_ok());
    parser.forbid_line_break_before_token();
    assert_eq!(parser.source().diagnostics().len(), 0);
}

#[test]
fn statements_end_at_semicolon_brace_or_line_break() {
    let mut parser = parser_for("a ; b");
    assert!(parser.next().is_ok());
    assert_eq!(parser.parse_semicolon().ok(), Some(true));
    assert!(matches!(parser.token.0, Token::Identifier(_)));
    let mut parser = parser_for("a }");
    assert!(parser.next().is_ok());
    assert_eq!(parser.parse_semicolon().ok(), Some(true));
    assert!(parser.peek(Token::RightBrace));
    let mut parser = parser_for("a\nb");
    assert!(parser.next().is_ok());
    assert_eq!(parser.parse_semicolon().ok(), Some(true));
    let mut parser = parser_for("a b");
    assert!(parser.next().is_ok());
    assert_eq!(parser.parse_semicolon().ok(), Some(false));
}

#[test]
fn xml_names_and_attribute_values() {
    let mut parser = parser_for("<a k='v'>");
    assert!(parser.peek(Token::Lt));
    assert!(parser.next_ie_xml_tag().is_ok());
    let (name, location) = parser.parse_xml_name().ok().unwrap();
    assert_eq!(name, "a");
    assert_eq!(location.first_offset(), 1);
    assert_eq!(parser.consume_and_ie_xml_tag(Token::XmlWhitespace).ok(), Some(true));
    let (name, _) = parser.parse_xml_name().ok().unwrap();
    assert_eq!(name, "k");
    assert_eq!(parser.consume_and_ie_xml_tag(Token::Assign).ok(), Some(true));
    assert_eq!(parser.parse_xml_attribute_value().ok(), Some("v".to_owned()));
    assert!(parser.parse_xml_attribute_value().is_err());
    let diagnostics = parser.source().diagnostics();
    assert_eq!(diagnostics[0].kind(), DiagnosticKind::ExpectedXmlAttributeValue);
}

#[test]
fn xml_attribute_value_is_read() {
    let mut parser = parser_for("<k='v'>");
    assert!(parser.next_ie_xml_tag().is_ok());
    assert!(parser.parse_xml_name().is_ok());
    assert_eq!(parser.consume_and_ie_xml_tag(Token::Assign).ok(), Some(true));
    assert_eq!(parser.parse_xml_attribute_value().ok(), Some("v".to_owned()));
    assert!(parser.peek(Token::Gt));
    assert!(parser.parse_xml_name().is_err());
    assert_eq!(parser.source().diagnostics()[0].kind(), DiagnosticKind::ExpectedXmlName);
}
