use as3_parser::ast::{FunctionParamKind, ParameterKind, ReservedNamespace};
use as3_parser::character_validation::{general_category, is_bin_digit, is_dec_digit, is_hex_digit, is_identifier_part, is_identifier_start, is_line_terminator, is_whitespace, GeneralCategory};
use as3_parser::compiler_options::CompilerOptions;
use as3_parser::diagnostics::{Diagnostic, DiagnosticArgument, DiagnosticKind};
use as3_parser::keywords::{is_reserved_word, reserved_word_token};
use as3_parser::location::Location;
use as3_parser::operator::{BinaryAssociativity, BinaryOperator, Operator};
use as3_parser::operator_precedence::OperatorPrecedence;
use as3_parser::source::{Comment, Source};
use as3_parser::token::Token;
use as3_parser::tokenizer::Tokenizer;
use as3_parser::util::Arena;

#[test]
fn character_classes() {
    assert!(is_whitespace(' '));
    assert!(is_whitespace('\u{3000}'));
    assert!(!is_whitespace('\n'));
    assert!(is_line_terminator('\u{2028}'));
    assert!(is_bin_digit('1') && !is_bin_digit('2'));
    assert!(is_dec_digit('9') && !is_dec_digit('a'));
    assert!(is_hex_digit('f') && is_hex_digit('F') && !is_hex_digit('g'));
    assert!(is_identifier_start('$') && is_identifier_start('é') && !is_identifier_start('1'));
    assert!(is_identifier_part('1'));
    assert_eq!(general_category('a'), GeneralCategory::LowercaseLetter);
    assert_eq!(general_category('\0'), GeneralCategory::Control);
    assert_eq!(general_category('5'), GeneralCategory::DecimalNumber);
}

#[test]
fn reserved_words() {
    assert!(is_reserved_word("while"));
    assert!(!is_reserved_word("whale"));
    assert_eq!(reserved_word_token("instanceof"), Some(Token::Instanceof));
    assert_eq!(reserved_word_token("x"), None);
    assert_eq!(reserved_word_token("class"), Some(Token::Class));
    assert_eq!(reserved_word_token("private"), Some(Token::Private));
    assert_eq!(reserved_word_token("return"), Some(Token::Return));
    assert_eq!(reserved_word_token("export"), Some(Token::Export));
    assert_eq!(Token::Instanceof.reserved_word_name(), Some("instanceof".to_owned()));
    assert_eq!(Token::Comma.reserved_word_name(), None);
    assert_eq!(Token::StrictEquals.to_string(), "===");
}

#[test]
fn operator_precedence_steps() {
    let p = OperatorPrecedence::Postfix;
    assert_eq!(OperatorPrecedence::from_u32(p.value()), Some(p));
    assert_eq!(OperatorPrecedence::AssignmentAndMisc.add_one(), Some(OperatorPrecedence::List));
    assert_eq!(OperatorPrecedence::List.add_one(), None);
    assert!(OperatorPrecedence::List.includes(&OperatorPrecedence::Postfix));
    assert!(!OperatorPrecedence::Postfix.includes(&OperatorPrecedence::List));
}

#[test]
fn binary_operators() {
    assert_eq!(Operator::Power.associativity(), Some(BinaryAssociativity::RightToLeft));
    assert_eq!(Operator::Add.associativity(), Some(BinaryAssociativity::LeftToRight));
    assert_eq!(Operator::LogicalNot.associativity(), None);
    let b = BinaryOperator::try_from(Operator::Multiply).ok().unwrap();
    assert_eq!(b.operator(), Operator::Multiply);
    assert_eq!(b.associativity(), BinaryAssociativity::LeftToRight);
    assert!(BinaryOperator::try_from(Operator::LogicalNot).is_err());
}

#[test]
fn parameter_kinds_order() {
    assert!(ParameterKind::Required.may_be_followed_by(ParameterKind::Optional));
    assert!(!ParameterKind::Rest.may_be_followed_by(ParameterKind::Optional));
    assert!(FunctionParamKind::Optional.may_be_followed_by(FunctionParamKind::Optional));
    assert!(!FunctionParamKind::Optional.may_be_followed_by(FunctionParamKind::Required));
    assert_eq!(ReservedNamespace::Protected.to_string(), "protected");
}

#[test]
fn diagnostic_messages_substitute_arguments() {
    let location = Location::with_line_and_offset(1, 0);
    let d = Diagnostic::new_syntax_error(&location, DiagnosticKind::Expected, vec![
        DiagnosticArgument::Token(Token::RightParen),
        DiagnosticArgument::String("x".to_owned()),
    ]);
    assert_eq!(d.format_message_default(), "Expected ) before x");
    assert_eq!(d.id(), 1029);
    let w = Diagnostic::new_warning(&location, DiagnosticKind::UnallowedLineBreak, vec![]);
    assert_eq!(w.format_message_default(), "Unallowed line break");
    assert!(w.is_warning());
}

#[test]
fn warnings_do_not_invalidate_a_source() {
    let mut source = Source::new(None, "x".to_owned(), &CompilerOptions::new());
    let location = Location::with_line_and_offset(1, 0);
    source.add_diagnostic(Diagnostic::new_warning(&location, DiagnosticKind::Expected, vec![]));
    assert!(!source.invalidated());
    assert_eq!(source.warning_count(), 1);
    source.add_diagnostic(Diagnostic::new_syntax_error(&location, DiagnosticKind::Expected, vec![]));
    assert!(source.invalidated());
    assert_eq!(source.error_count(), 1);
}

#[test]
fn diagnostics_sort_by_offset() {
    let mut source = Source::new(None, "abcdef".to_owned(), &CompilerOptions::new());
    for off in [4usize, 1, 3] {
        source.add_diagnostic(Diagnostic::new_syntax_error(&Location::with_line_and_offset(1, off), DiagnosticKind::Expected, vec![]));
    }
    source.sort_diagnostics();
    let offsets: Vec<usize> = source.diagnostics().iter().map(|d| d.location().first_offset()).collect();
    assert_eq!(offsets, vec![1, 3, 4]);
}

#[test]
fn columns_and_character_counts() {
    let source = Source::new(None, "é\nab cd".to_owned(), &CompilerOptions::new());
    let mut tokenizer = Tokenizer::new(source);
    let _ = tokenizer.scan_ie_div(true);
    let _ = tokenizer.scan_ie_div(true);
    let Ok((Token::Identifier(_), loc)) = tokenizer.scan_ie_div(true) else { panic!() };
    assert_eq!(loc.first_column(&tokenizer.source), 3);
    assert_eq!(loc.last_column(&tokenizer.source), 5);
    assert_eq!(loc.character_count(&tokenizer.source), 2);
    assert_eq!(tokenizer.source.get_line_offset(2), Some(3));
    assert_eq!(tokenizer.source.get_line_indent(2), 0);
}

#[test]
fn asdoc_comment_precedes_item() {
    let source = Source::new(None, "/** doc */\n  x".to_owned(), &CompilerOptions::new());
    let mut tokenizer = Tokenizer::new(source);
    let Ok((Token::Identifier(_), loc)) = tokenizer.scan_ie_div(true) else { panic!() };
    let comment: Comment = tokenizer.source.comments()[0].clone();
    assert!(comment.is_asdoc(&loc, &tokenizer.source));
    let other = Location::with_line_and_offset(2, 11);
    assert!(!comment.is_asdoc(&other, &tokenizer.source));
}

#[test]
fn arena_keeps_values() {
    let mut arena: Arena<u32> = Arena::new();
    let a = arena.allocate(5);
    let b = arena.allocate(7);
    assert_eq!(*a + *b, 12);
}

#[test]
fn diagnostics_format_with_position() {
    let source = Source::new(Some("a.as".to_owned()), "x\n  y".to_owned(), &CompilerOptions::new());
    let mut tokenizer = Tokenizer::new(source);
    while !matches!(tokenizer.scan_ie_div(true), Ok((Token::Eof, _)) | Err(_)) {}
    let source = tokenizer.source;
    let location = Location::with_line_and_offset(2, 4);
    let d = Diagnostic::new_syntax_error(&location, DiagnosticKind::Expected, vec![
        DiagnosticArgument::Token(Token::RightParen),
        DiagnosticArgument::String("x".to_owned()),
    ]);
    assert!(d.is_error());
    assert!(d.is_syntax_error());
    assert_eq!(d.format_default(&source), "a.as:2:3: Syntax error #1029: Expected ) before x");
    assert_eq!(d.format_with_message(&source, "custom", None), "a.as:2:3: Syntax error: custom");
    assert_eq!(d.format_with_message(&source, "custom", Some(-7)), "a.as:2:3: Syntax error #-7: custom");
    let w = Diagnostic::new_warning(&location, DiagnosticKind::UnallowedLineBreak, vec![]);
    assert!(!w.is_error());
    assert!(!w.is_syntax_error());
    assert_eq!(w.format_with_message(&source, "m", Some(12)), "a.as:2:3: Warning #12: m");
    let v = Diagnostic::new_verify_error(&location, DiagnosticKind::Expected, vec![]);
    assert!(v.is_error());
    assert!(!v.is_syntax_error());
    assert_eq!(v.format_with_message(&source, "m", None), "a.as:2:3: Verify error: m");
}

#[test]
fn default_source_is_empty() {
    let source = Source::default();
    assert_eq!(source.text(), "");
    assert_eq!(source.file_path(), None);
    assert!(!source.invalidated());
    let mut tokenizer = Tokenizer::new(source);
    assert!(matches!(tokenizer.scan_ie_div(true), Ok((Token::Eof, _))));
}

#[test]
fn counters_follow_diagnostics() {
    let mut source = Source::new(Some("f.as".to_owned()), "x".to_owned(), &CompilerOptions::new());
    let location = Location::with_line_and_offset(1, 0);
    source.add_diagnostic(Diagnostic::new_syntax_error(&location, DiagnosticKind::Expected, vec![]));
    source.add_diagnostic(Diagnostic::new_warning(&location, DiagnosticKind::Expected, vec![]));
    source.add_diagnostic(Diagnostic::new_verify_error(&location, DiagnosticKind::Expected, vec![]));
    assert_eq!(source.error_count(), 2);
    assert_eq!(source.warning_count(), 1);
    source.add_comment(Comment::new(false, "c".to_owned(), location));
    assert_eq!(source.error_count(), 2);
    assert_eq!(source.warning_count(), 1);
    assert!(source.invalidated());
    source.sort_diagnostics();
    assert_eq!(source.file_path(), Some("f.as".to_owned()));
    assert_eq!(source.error_count(), 2);
}

#[test]
fn subsources_are_sorted_and_reported() {
    let options = CompilerOptions::new();
    let mut included = Source::new(Some("b.as".to_owned()), "yy".to_owned(), &options);
    for off in [1usize, 0] {
        included.add_diagnostic(Diagnostic::new_syntax_error(&Location::with_line_and_offset(1, off), DiagnosticKind::Expected, vec![]));
    }
    let mut source = Source::new(Some("a.as".to_owned()), "xx".to_owned(), &options);
    for off in [1usize, 0] {
        source.add_diagnostic(Diagnostic::new_warning(&Location::with_line_and_offset(1, off), DiagnosticKind::Expected, vec![]));
    }
    source.subsources.push(included);
    assert_eq!(source.subsources().len(), 1);
    source.sort_diagnostics();
    let all = source.recursive_diagnostics();
    let offsets: Vec<usize> = all.iter().map(|d| d.location().first_offset()).collect();
    assert_eq!(offsets, vec![0, 1, 0, 1]);
    assert!(all[0].is_warning());
    assert!(!all[2].is_warning());
    assert_eq!(source.subsources()[0].file_path(), Some("b.as".to_owned()));
}
