use as3_parser::compiler_options::CompilerOptions;
use as3_parser::diagnostics::DiagnosticKind;
use as3_parser::location::Location;
use as3_parser::source::{Comment, Source};
use as3_parser::token::{NumericValue, Token};
use as3_parser::tokenizer::Tokenizer;

fn tokenizer_for(text: &str) -> Tokenizer {
    let source = Source::new(None, text.to_owned(), &CompilerOptions::new());
    Tokenizer::new(source)
}

fn numeric_value_as_f64(v: &NumericValue) -> f64 {
    match v {
        NumericValue::Decimal(s) => s.parse::<f64>().unwrap(),
        NumericValue::Integer(n) => *n as f64,
    }
}

#[test]
fn tokenize_n_per_n() {
    let _n = "n".to_owned();
    let mut tokenizer = tokenizer_for("n * n");
    let Ok((Token::Identifier(name), _)) = tokenizer.scan_ie_div(true) else { panic!() };
    assert_eq!(name, "n");
    assert!(matches!(tokenizer.scan_ie_div(true), Ok((Token::Times, _))));
    let Ok((Token::Identifier(name), _)) = tokenizer.scan_ie_div(true) else { panic!() };
    assert_eq!(name, "n");
}

#[test]
fn tokenize_comments() {
    let _n = "n".to_owned();
    let mut tokenizer = tokenizer_for("
            // Single-line comment
            /* Multi-line comment */
        ");
    assert!(matches!(tokenizer.scan_ie_div(true), Ok((Token::Eof, _))));
    assert_eq!(tokenizer.source.comments()[0].content(), " Single-line comment");
    assert_eq!(tokenizer.source.comments()[1].content(), " Multi-line comment ");
}

#[test]
fn tokenize_strings() {
    let mut tokenizer = tokenizer_for(r###"
            "Some \u{41}\u0041\x41 content"
            """
            Another
                common
            content
            """
        "###);

    let Ok((Token::StringLiteral(s), _)) = tokenizer.scan_ie_div(true) else { panic!() };
    assert_eq!(s, "Some AAA content");

    let Ok((Token::StringLiteral(s), _)) = tokenizer.scan_ie_div(true) else { panic!() };
    assert_eq!(s, "Another\n    common\ncontent");
}

#[test]
fn tokenize_numbers() {
    let numbers: Vec<f64> = vec![
        0.0,
        50.0,
        1_000.0,
        0.5,
        0.5,
        1_000.0,
        1_000.0,
        0.001,
        0.0,
        0.0,
    ];
    let mut tokenizer = tokenizer_for(r###"
            0
            50
            1_000
            0.5
            .5
            1e3
            1e+3
            1e-3
            0x00_00
            0b0000_0000
        "###);
    for n in numbers {
        let Ok((Token::NumericLiteral(n2), _)) = tokenizer.scan_ie_div(true) else { panic!() };
        assert_eq!(n, numeric_value_as_f64(&n2));
    }
}

#[test]
fn tokenize_regexp() {
    let mut tokenizer = tokenizer_for(r###"
            /(?:)/
            /(?:)/gi
        "###);

    let Ok((Token::Div, start)) = tokenizer.scan_ie_div(true) else { panic!() };
    let Ok((Token::RegExpLiteral { body, flags }, _)) = tokenizer.scan_regexp_literal(start) else { panic!() };
    assert_eq!(body, "(?:)");
    assert_eq!(flags, "");

    let Ok((Token::Div, start)) = tokenizer.scan_ie_div(true) else { panic!() };
    let Ok((Token::RegExpLiteral { body, flags }, _)) = tokenizer.scan_regexp_literal(start) else { panic!() };
    assert_eq!(body, "(?:)");
    assert_eq!(flags, "gi");
}

#[test]
fn reserved_words_become_identifiers_when_turned_off() {
    let mut tokenizer = tokenizer_for("while while");
    assert!(matches!(tokenizer.scan_ie_div(true), Ok((Token::While, _))));
    let Ok((Token::Identifier(name), _)) = tokenizer.scan_ie_div(false) else { panic!() };
    assert_eq!(name, "while");
}

#[test]
fn escaped_reserved_word_is_an_identifier() {
    let mut tokenizer = tokenizer_for("\\u0077hile");
    let Ok((Token::Identifier(name), _)) = tokenizer.scan_ie_div(true) else { panic!() };
    assert_eq!(name, "while");
}

#[test]
fn identifier_location_spans_its_characters() {
    let mut tokenizer = tokenizer_for("  abc");
    let Ok((Token::Identifier(_), loc)) = tokenizer.scan_ie_div(true) else { panic!() };
    assert_eq!(loc.first_offset(), 2);
    assert_eq!(loc.last_offset(), 5);
    assert_eq!(loc.first_line_number(), 1);
}

#[test]
fn line_numbers_advance_over_line_terminators() {
    let mut tokenizer = tokenizer_for("a\r\nb\nc");
    let Ok((_, l1)) = tokenizer.scan_ie_div(true) else { panic!() };
    let Ok((_, l2)) = tokenizer.scan_ie_div(true) else { panic!() };
    let Ok((_, l3)) = tokenizer.scan_ie_div(true) else { panic!() };
    assert_eq!(l1.first_line_number(), 1);
    assert_eq!(l2.first_line_number(), 2);
    assert_eq!(l3.first_line_number(), 3);
    assert!(l1.line_break(&l2));
    assert_eq!(tokenizer.current_line_number(), 3);
}

#[test]
fn punctuators_take_the_longest_spelling() {
    let mut tokenizer = tokenizer_for(">>>= ... ?? ?.x **= ! !==");
    let expected = vec![
        Token::UnsignedRightShiftAssign,
        Token::Ellipsis,
        Token::NullCoalescing,
        Token::OptionalChaining,
    ];
    for t in expected {
        let Ok((t2, _)) = tokenizer.scan_ie_div(true) else { panic!() };
        assert_eq!(t, t2);
    }
    assert!(matches!(tokenizer.scan_ie_div(true), Ok((Token::Identifier(_), _))));
    assert!(matches!(tokenizer.scan_ie_div(true), Ok((Token::PowerAssign, _))));
    assert!(matches!(tokenizer.scan_ie_div(true), Ok((Token::Exclamation, _))));
    assert!(matches!(tokenizer.scan_ie_div(true), Ok((Token::StrictNotEquals, _))));
    assert!(matches!(tokenizer.scan_ie_div(true), Ok((Token::Eof, _))));
}

#[test]
fn right_shift_takes_two_characters() {
    let mut tokenizer = tokenizer_for(">> ><");
    let Ok((Token::RightShift, loc)) = tokenizer.scan_ie_div(true) else { panic!() };
    assert_eq!(loc.first_offset(), 0);
    assert_eq!(loc.last_offset(), 2);
    assert!(matches!(tokenizer.scan_ie_div(true), Ok((Token::Gt, _))));
    assert!(matches!(tokenizer.scan_ie_div(true), Ok((Token::Lt, _))));
    assert!(matches!(tokenizer.scan_ie_div(true), Ok((Token::Eof, _))));
    assert!(tokenizer.source.diagnostics().is_empty());
}

#[test]
fn dots_and_decimal_literals() {
    let mut tokenizer = tokenizer_for(". .. ... 1.5e-2 0.25");
    assert!(matches!(tokenizer.scan_ie_div(true), Ok((Token::Dot, _))));
    assert!(matches!(tokenizer.scan_ie_div(true), Ok((Token::Descendants, _))));
    assert!(matches!(tokenizer.scan_ie_div(true), Ok((Token::Ellipsis, _))));
    let Ok((Token::NumericLiteral(NumericValue::Decimal(d)), _)) = tokenizer.scan_ie_div(true) else { panic!() };
    assert_eq!(d, "1.5e-2");
    let Ok((Token::NumericLiteral(NumericValue::Decimal(d)), _)) = tokenizer.scan_ie_div(true) else { panic!() };
    assert_eq!(d, "0.25");
}

#[test]
fn hex_and_binary_literal_values() {
    let mut tokenizer = tokenizer_for("0xFF_FF 0b1_01 0x20000000000000");
    let Ok((Token::NumericLiteral(NumericValue::Integer(n)), _)) = tokenizer.scan_ie_div(true) else { panic!() };
    assert_eq!(n, 0xFFFF);
    let Ok((Token::NumericLiteral(NumericValue::Integer(n)), _)) = tokenizer.scan_ie_div(true) else { panic!() };
    assert_eq!(n, 5);
    let Ok((Token::NumericLiteral(NumericValue::Integer(n)), _)) = tokenizer.scan_ie_div(true) else { panic!() };
    assert_eq!(n, 0x20000000000000);
}

#[test]
fn hex_literal_beyond_two_to_the_53_fails() {
    let mut tokenizer = tokenizer_for("0x20000000000001");
    assert!(tokenizer.scan_ie_div(true).is_err());
    assert!(tokenizer.source.invalidated());
    let diagnostics = tokenizer.source.diagnostics();
    assert_eq!(diagnostics.len(), 1);
    assert_eq!(diagnostics[0].kind(), DiagnosticKind::FailedProcessingNumericLiteral);
}

#[test]
fn underscore_without_digit_fails() {
    let mut tokenizer = tokenizer_for("1_");
    assert!(tokenizer.scan_ie_div(true).is_err());
    assert!(tokenizer.source.invalidated());
}

#[test]
fn numeric_suffix_is_reported_but_scanning_goes_on() {
    let mut tokenizer = tokenizer_for("5px");
    let Ok((Token::NumericLiteral(NumericValue::Decimal(d)), _)) = tokenizer.scan_ie_div(true) else { panic!() };
    assert_eq!(d, "5");
    assert!(tokenizer.source.invalidated());
    assert_eq!(tokenizer.source.diagnostics()[0].kind(), DiagnosticKind::UnexpectedOrInvalidToken);
}

#[test]
fn exponent_without_digits_fails() {
    let mut tokenizer = tokenizer_for("1e+");
    assert!(tokenizer.scan_ie_div(true).is_err());
    assert!(tokenizer.source.invalidated());
}

#[test]
fn unterminated_string_fails_at_the_end() {
    let mut tokenizer = tokenizer_for("'abc");
    assert!(tokenizer.scan_ie_div(true).is_err());
    let diagnostics = tokenizer.source.diagnostics();
    assert_eq!(diagnostics[0].kind(), DiagnosticKind::UnexpectedEnd);
}

#[test]
fn line_break_in_string_is_reported_and_left_out() {
    let mut tokenizer = tokenizer_for("'a\nb'");
    let Ok((Token::StringLiteral(s), _)) = tokenizer.scan_ie_div(true) else { panic!() };
    assert_eq!(s, "ab");
    assert_eq!(tokenizer.source.diagnostics()[0].kind(), DiagnosticKind::UnallowedLineBreak);
}

#[test]
fn string_escapes() {
    let mut tokenizer = tokenizer_for(r#"'\n\t\'\\\x41\0z' "a\
b""#);
    let Ok((Token::StringLiteral(s), _)) = tokenizer.scan_ie_div(true) else { panic!() };
    assert_eq!(s, "\n\t'\\A\0z");
    let Ok((Token::StringLiteral(s), _)) = tokenizer.scan_ie_div(true) else { panic!() };
    assert_eq!(s, "ab");
    assert!(!tokenizer.source.invalidated());
}

#[test]
fn escape_beyond_unicode_fails() {
    let mut tokenizer = tokenizer_for(r#"'\u{110000}'"#);
    assert!(tokenizer.scan_ie_div(true).is_err());
    assert!(tokenizer.source.invalidated());
}

#[test]
fn surrogate_escape_fails() {
    let mut tokenizer = tokenizer_for(r#"'\uD800'"#);
    assert!(tokenizer.scan_ie_div(true).is_err());
}

#[test]
fn unterminated_multiline_comment_fails() {
    let mut tokenizer = tokenizer_for("/* never closed");
    assert!(tokenizer.scan_ie_div(true).is_err());
    assert!(tokenizer.source.invalidated());
    assert!(tokenizer.source.comments().is_empty());
}

#[test]
fn comment_locations_cover_their_delimiters() {
    let mut tokenizer = tokenizer_for("/*x*/ // y");
    assert!(matches!(tokenizer.scan_ie_div(true), Ok((Token::Eof, _))));
    let comments = tokenizer.source.comments();
    assert!(comments[0].multiline());
    assert_eq!(comments[0].location().first_offset(), 0);
    assert_eq!(comments[0].location().last_offset(), 5);
    assert!(!comments[1].multiline());
    assert_eq!(comments[1].content(), " y");
}

#[test]
fn unknown_character_is_an_error() {
    let mut tokenizer = tokenizer_for("#");
    assert!(tokenizer.scan_ie_div(true).is_err());
    let diagnostics = tokenizer.source.diagnostics();
    assert_eq!(diagnostics[0].kind(), DiagnosticKind::UnexpectedOrInvalidToken);
    assert_eq!(diagnostics[0].location().first_offset(), 0);
    assert_eq!(diagnostics[0].location().last_offset(), 2);
}

#[test]
fn triple_string_without_initial_line_break_keeps_its_text() {
    let mut tokenizer = tokenizer_for("\"\"\"  a\n  b\"\"\"");
    let Ok((Token::StringLiteral(s), _)) = tokenizer.scan_ie_div(true) else { panic!() };
    assert_eq!(s, "  a\n  b");
}

#[test]
fn regexp_with_line_break_keeps_newline() {
    let mut tokenizer = tokenizer_for("/a\nb/");
    let Ok((Token::Div, start)) = tokenizer.scan_ie_div(true) else { panic!() };
    let Ok((Token::RegExpLiteral { body, flags }, _)) = tokenizer.scan_regexp_literal(start) else { panic!() };
    assert_eq!(body, "a\nb");
    assert_eq!(flags, "");
}

#[test]
fn unterminated_regexp_fails() {
    let mut tokenizer = tokenizer_for("/abc");
    let Ok((Token::Div, start)) = tokenizer.scan_ie_div(true) else { panic!() };
    assert!(tokenizer.scan_regexp_literal(start).is_err());
}

#[test]
fn xml_tag_tokens() {
    let mut tokenizer = tokenizer_for("ns:item  a='v\"w'/>{=>");
    let Ok((Token::XmlName(n), _)) = tokenizer.scan_ie_xml_tag() else { panic!() };
    assert_eq!(n, "ns:item");
    assert!(matches!(tokenizer.scan_ie_xml_tag(), Ok((Token::XmlWhitespace, _))));
    let Ok((Token::XmlName(n), _)) = tokenizer.scan_ie_xml_tag() else { panic!() };
    assert_eq!(n, "a");
    assert!(matches!(tokenizer.scan_ie_xml_tag(), Ok((Token::Assign, _))));
    let Ok((Token::XmlAttributeValue(v), _)) = tokenizer.scan_ie_xml_tag() else { panic!() };
    assert_eq!(v, "v\"w");
    assert!(matches!(tokenizer.scan_ie_xml_tag(), Ok((Token::XmlSlashGt, _))));
    assert!(matches!(tokenizer.scan_ie_xml_tag(), Ok((Token::LeftBrace, _))));
    assert!(matches!(tokenizer.scan_ie_xml_tag(), Ok((Token::Assign, _))));
    assert!(matches!(tokenizer.scan_ie_xml_tag(), Ok((Token::Gt, _))));
}

#[test]
fn xml_tag_slash_without_gt_fails() {
    let mut tokenizer = tokenizer_for("/x");
    assert!(tokenizer.scan_ie_xml_tag().is_err());
}

#[test]
fn xml_content_tokens() {
    let mut tokenizer = tokenizer_for("text here</<![CDATA[x]]><?pi?><{");
    let Ok((Token::XmlText(t), _)) = tokenizer.scan_ie_xml_content() else { panic!() };
    assert_eq!(t, "text here");
    assert!(matches!(tokenizer.scan_ie_xml_content(), Ok((Token::XmlLtSlash, _))));
    let Ok((Token::XmlMarkup(m), _)) = tokenizer.scan_ie_xml_content() else { panic!() };
    assert_eq!(m, "<![CDATA[x]]>");
    let Ok((Token::XmlMarkup(m), _)) = tokenizer.scan_ie_xml_content() else { panic!() };
    assert_eq!(m, "<?pi?>");
    assert!(matches!(tokenizer.scan_ie_xml_content(), Ok((Token::Lt, _))));
    assert!(matches!(tokenizer.scan_ie_xml_content(), Ok((Token::LeftBrace, _))));
}

#[test]
fn xml_comment_is_markup() {
    let mut tokenizer = tokenizer_for("<!-- c -->");
    let Ok((Token::XmlMarkup(m), loc)) = tokenizer.scan_ie_xml_content() else { panic!() };
    assert_eq!(m, "<!-- c -->");
    assert_eq!(loc.first_offset(), 0);
    assert_eq!(loc.last_offset(), 10);
    let mut tokenizer = tokenizer_for("<!-- c -->");
    let Ok((Token::Lt, start)) = tokenizer.scan_ie_div(true) else { panic!() };
    let Ok(Some((Token::XmlMarkup(m), _))) = tokenizer.scan_xml_markup(start) else { panic!() };
    assert_eq!(m, "<!-- c -->");
    let mut tokenizer = tokenizer_for("<!-- c");
    assert!(tokenizer.scan_ie_xml_content().is_err());
}

#[test]
fn unterminated_xml_text_fails() {
    let mut tokenizer = tokenizer_for("abc");
    assert!(tokenizer.scan_ie_xml_content().is_err());
    assert!(tokenizer.source.invalidated());
}

#[test]
fn comments_recorded_before_scanning_are_kept() {
    let mut source = Source::new(None, "// b\nx".to_owned(), &CompilerOptions::new());
    source.add_comment(Comment::new(true, "earlier".to_owned(), Location::with_line_and_offsets(1, 0, 0)));
    let mut tokenizer = Tokenizer::new(source);
    assert!(matches!(tokenizer.scan_ie_div(true), Ok((Token::Identifier(_), _))));
    let comments = tokenizer.source.comments();
    assert_eq!(comments.len(), 2);
    assert_eq!(comments[0].content(), "earlier");
    assert_eq!(comments[1].content(), " b");
}

#[test]
fn invalid_character_is_reported_once() {
    let mut tokenizer = tokenizer_for("#");
    assert!(tokenizer.scan_ie_div(true).is_err());
    let diagnostics = tokenizer.source.diagnostics();
    assert_eq!(diagnostics.len(), 1);
    assert_eq!(diagnostics[0].kind(), DiagnosticKind::UnexpectedOrInvalidToken);
    assert_eq!(diagnostics[0].location().first_offset(), 0);
    assert!(tokenizer.source.invalidated());
}

#[test]
fn unterminated_regexp_reports_unexpected_end() {
    let mut tokenizer = tokenizer_for("/abc");
    let Ok((Token::Div, start)) = tokenizer.scan_ie_div(true) else { panic!() };
    assert!(tokenizer.scan_regexp_literal(start).is_err());
    let diagnostics = tokenizer.source.diagnostics();
    assert_eq!(diagnostics.len(), 1);
    assert_eq!(diagnostics[0].kind(), DiagnosticKind::UnexpectedEnd);
    assert_eq!(diagnostics[0].location().first_offset(), 4);
}

#[test]
fn skipped_comments_are_recorded_in_order() {
    let mut tokenizer = tokenizer_for("/* a */ // b\n/* c */ x");
    assert!(matches!(tokenizer.scan_ie_div(true), Ok((Token::Identifier(_), _))));
    let comments = tokenizer.source.comments();
    assert_eq!(comments.len(), 3);
    assert_eq!((comments[0].multiline(), comments[0].content()), (true, " a ".to_owned()));
    assert_eq!((comments[1].multiline(), comments[1].content()), (false, " b".to_owned()));
    assert_eq!((comments[2].multiline(), comments[2].content()), (true, " c ".to_owned()));
}
