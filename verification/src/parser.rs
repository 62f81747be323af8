//! The parser's side of the token stream: the current and previous tokens,
//! the stack of start locations of the nodes being built, and the checks
//! that consume or expect tokens, report what was expected, and classify
//! operators.

use vstd::prelude::*;
use crate::ast::{FunctionParamKind, ReservedNamespace, function_param_kind_rank};
use crate::compiler_options::ParserFailure;
use crate::diagnostics::{Diagnostic, DiagnosticArgument, DiagnosticKind};
use crate::keywords::spec_reserved_word_name;
use crate::location::{Location, utf8_len, byte_offset, str_byte_len, lemma_byte_offset_strictly_increasing};
use crate::operator::{BinaryAssociativity, Operator, spec_binary_position};
use crate::operator_precedence::{OperatorPrecedence, precedence_of_value, precedence_value};
use crate::source::{Source, is_boundary, char_index_at, lemma_char_index_at};
use crate::token::{Token, token_eq, tokens_equal, spec_to_binary_operator};
use crate::tokenizer::{Tokenizer, trivia_end, ie_div_outcome, xml_tag_outcome, xml_content_outcome, line_count,
    identifier_at, identifier_char_at, lemma_identifier_char_at, lemma_trivia_end_bounds, lemma_scanned_token_advances,
    lemma_extends_same_source, lemma_extends_trans};

verus! {

/// What the function being parsed uses.
pub struct Activation {
    pub uses_yield: bool,
    pub uses_await: bool,
}

impl Activation {
    pub fn new() -> (r: Self)
        ensures
            !r.uses_yield,
            !r.uses_await,
    {
        Self { uses_yield: false, uses_await: false }
    }
}

/// The context an expression is parsed in.
#[derive(Clone, Copy, Debug, PartialEq, Eq, Structural)]
pub struct ExpressionContext {
    pub min_precedence: OperatorPrecedence,
    pub allow_in: bool,
    pub allow_assignment: bool,
    pub with_type_annotation: bool,
}

impl Default for ExpressionContext {
    fn default() -> (r: Self)
        ensures
            r == (ExpressionContext {
                min_precedence: OperatorPrecedence::List,
                allow_in: true,
                allow_assignment: true,
                with_type_annotation: true,
            }),
    {
        Self {
            min_precedence: OperatorPrecedence::List,
            allow_in: true,
            allow_assignment: true,
            with_type_annotation: true,
        }
    }
}

/// Whether a location starts and ends between two characters of `text`,
/// and does not end before it starts.
pub open spec fn valid_location(text: Seq<char>, loc: Location) -> bool {
    &&& is_boundary(text, loc.first_offset as int)
    &&& is_boundary(text, loc.last_offset as int)
    &&& loc.first_offset <= loc.last_offset
}

/// What a scan that fills the current token gives, as the tokenizer's
/// outcome: the new token, or the failure.
pub open spec fn scanned(r: Result<(), ParserFailure>, token: (Token, Location)) -> Result<(Token, Location), ParserFailure> {
    match r {
        Ok(_) => Ok(token),
        Err(e) => Err(e),
    }
}

/// Parses the token stream of a source.
pub struct Parser {
    pub tokenizer: Tokenizer,
    pub previous_token: (Token, Location),
    pub token: (Token, Location),
    pub locations: Vec<Location>,
    pub activations: Vec<Activation>,
}

impl Parser {
    /// The parser's state is consistent: the tokenizer's is, and an
    /// identifier token spans characters of the text.
    pub open spec fn inv(&self) -> bool {
        &&& self.tokenizer.inv()
        &&& self.token.0 is Identifier ==> valid_location(self.tokenizer.text(), self.token.1)
    }

    /// What moving to the next token keeps: the stack of locations and the
    /// activations; and what it changes: the current token becomes the
    /// previous one, the tokenizer only moves forward.
    pub open spec fn moved_on(&self, old: &Parser) -> bool {
        &&& self.inv()
        &&& self.tokenizer.extends(&old.tokenizer)
        &&& self.previous_token == old.token
        &&& self.locations@ == old.locations@
        &&& self.activations@ == old.activations@
    }

    /// Constructs a parser. A source is parsed only once.
    pub fn new(source: Source) -> (r: Self)
        requires
            source.wf(),
            !source.already_tokenized,
            utf8_len(source.text@) < usize::MAX,
        ensures
            r.inv(),
            r.tokenizer.pos() == 0,
            r.tokenizer.source.text == source.text,
            r.tokenizer.source.diagnostics == source.diagnostics,
            r.token == (Token::Eof, Location::with_line_and_offset_spec(1, 0)),
            r.previous_token == r.token,
            r.locations@.len() == 0,
            r.activations@.len() == 0,
    {
        let location = Location::with_line_and_offset(1, 0);
        Self {
            tokenizer: Tokenizer::new(source),
            previous_token: (Token::Eof, location),
            token: (Token::Eof, location),
            locations: Vec::new(),
            activations: Vec::new(),
        }
    }

    /// The source being parsed.
    pub fn source(&self) -> (r: &Source)
        ensures
            *r == self.tokenizer.source,
    {
        &self.tokenizer.source
    }

    /// The location of the current token.
    pub fn token_location(&self) -> (r: Location)
        ensures
            r == self.token.1,
    {
        self.token.1
    }

    /// Marks the start of a node at the current token.
    pub fn mark_location(&mut self)
        ensures
            final(self).locations@ == old(self).locations@.push(old(self).token.1),
            final(self).tokenizer == old(self).tokenizer,
            final(self).token == old(self).token,
            final(self).previous_token == old(self).previous_token,
            final(self).activations@ == old(self).activations@,
    {
        self.locations.push(self.token.1);
    }

    /// Marks the start of another node where the last one starts.
    pub fn duplicate_location(&mut self)
        requires
            old(self).locations@.len() > 0,
        ensures
            final(self).locations@ == old(self).locations@.push(old(self).locations@.last()),
            final(self).tokenizer == old(self).tokenizer,
            final(self).token == old(self).token,
            final(self).previous_token == old(self).previous_token,
            final(self).activations@ == old(self).activations@,
    {
        let last = self.locations[self.locations.len() - 1];
        self.locations.push(last);
    }

    /// Marks the start of a node at `location`.
    pub fn push_location(&mut self, location: &Location)
        ensures
            final(self).locations@ == old(self).locations@.push(*location),
            final(self).tokenizer == old(self).tokenizer,
            final(self).token == old(self).token,
            final(self).previous_token == old(self).previous_token,
            final(self).activations@ == old(self).activations@,
    {
        self.locations.push(*location);
    }

    /// Ends the last marked node: its location runs from the mark to the
    /// start of the current token.
    pub fn pop_location(&mut self) -> (r: Location)
        requires
            old(self).locations@.len() > 0,
        ensures
            final(self).locations@ == old(self).locations@.drop_last(),
            r == Location::combine_with_start_of_spec(old(self).locations@.last(), old(self).token.1),
            final(self).tokenizer == old(self).tokenizer,
            final(self).token == old(self).token,
            final(self).previous_token == old(self).previous_token,
            final(self).activations@ == old(self).activations@,
    {
        let l = self.locations.pop().unwrap();
        l.combine_with_start_of(self.token.1)
    }

    /// Records a syntax error, which invalidates the source.
    pub fn add_syntax_error(&mut self, location: &Location, kind: DiagnosticKind, arguments: Vec<DiagnosticArgument>)
        requires
            old(self).inv(),
        ensures
            final(self).inv(),
            final(self).tokenizer.extends(&old(self).tokenizer),
            final(self).tokenizer.pos() == old(self).tokenizer.pos(),
            final(self).tokenizer.source.diagnostics@ == old(self).tokenizer.source.diagnostics@.push(
                Diagnostic { location: *location, kind, is_verify_error: false, is_warning: false, arguments }),
            final(self).tokenizer.source.invalidated,
            final(self).tokenizer.source.comments == old(self).tokenizer.source.comments,
            final(self).token == old(self).token,
            final(self).previous_token == old(self).previous_token,
            final(self).locations@ == old(self).locations@,
            final(self).activations@ == old(self).activations@,
    {
        self.tokenizer.add_diagnostic(Diagnostic::new_syntax_error(location, kind, arguments));
        proof { self.tokenizer.lemma_extends(&old(self).tokenizer); }
    }

    /// Records a warning, which leaves the source valid.
    pub fn add_warning(&mut self, location: &Location, kind: DiagnosticKind, arguments: Vec<DiagnosticArgument>)
        requires
            old(self).inv(),
        ensures
            final(self).inv(),
            final(self).tokenizer.extends(&old(self).tokenizer),
            final(self).tokenizer.pos() == old(self).tokenizer.pos(),
            final(self).tokenizer.source.diagnostics@ == old(self).tokenizer.source.diagnostics@.push(
                Diagnostic { location: *location, kind, is_verify_error: false, is_warning: true, arguments }),
            final(self).tokenizer.source.invalidated == old(self).tokenizer.source.invalidated,
            final(self).tokenizer.source.comments == old(self).tokenizer.source.comments,
            final(self).token == old(self).token,
            final(self).previous_token == old(self).previous_token,
            final(self).locations@ == old(self).locations@,
            final(self).activations@ == old(self).activations@,
    {
        self.tokenizer.add_diagnostic(Diagnostic::new_warning(location, kind, arguments));
        proof { self.tokenizer.lemma_extends(&old(self).tokenizer); }
    }
}

} // verus!

verus! {

impl Parser {
    /// Moves to the next InputElementDiv token, reserved words included.
    pub fn next(&mut self) -> (r: Result<(), ParserFailure>)
        requires
            old(self).inv(),
        ensures
            final(self).moved_on(old(self)),
            r is Err ==> final(self).token == old(self).token,
            match trivia_end(old(self).tokenizer.text(), old(self).tokenizer.pos()) {
                None => r is Err && final(self).tokenizer.source.invalidated,
                Some(q) => ie_div_outcome(old(self).tokenizer.text(), q, &final(self).tokenizer, scanned(r, final(self).token), true)
                    && (r is Ok ==> final(self).token.1.first_line_number == 1 + line_count(old(self).tokenizer.text(), q)),
            },
    {
        self.previous_token = (self.token.0.clone(), self.token.1);
        let ghost before = self.tokenizer;
        let scan = self.tokenizer.scan_ie_div(true);
        proof {
            before.lemma_inv();
            self.tokenizer.lemma_inv();
            self.tokenizer.lemma_extends(&before);
        }
        match scan {
            Ok(t) => {
                self.token = t;
                proof {
                    let s = before.text();
                    lemma_trivia_end_bounds(s, before.pos());
                    if self.token.0 is Identifier {
                        let q = trivia_end(s, before.pos()).unwrap();
                        let b = self.tokenizer;
                        lemma_identifier_char_at(s, q, true);
                        lemma_scanned_token_advances(s, q, &b, Ok((self.token.0, self.token.1)), true);
                        lemma_char_index_at(s, q);
                        lemma_char_index_at(s, b.pos());
                        lemma_byte_offset_strictly_increasing(s, q, b.pos());
                    }
                }
                Ok(())
            },
            Err(e) => Err(e),
        }
    }

    /// Moves to the next InputElementXMLTag token.
    pub fn next_ie_xml_tag(&mut self) -> (r: Result<(), ParserFailure>)
        requires
            old(self).inv(),
        ensures
            final(self).moved_on(old(self)),
            r is Err ==> final(self).token == old(self).token,
            xml_tag_outcome(old(self).tokenizer.text(), old(self).tokenizer.pos(), &final(self).tokenizer,
                scanned(r, final(self).token), final(self).tokenizer.span_from(&old(self).tokenizer)),
    {
        self.previous_token = (self.token.0.clone(), self.token.1);
        let ghost before = self.tokenizer;
        let scan = self.tokenizer.scan_ie_xml_tag();
        proof { self.tokenizer.lemma_extends(&before); }
        match scan {
            Ok(t) => {
                self.token = t;
                Ok(())
            },
            Err(e) => Err(e),
        }
    }

    /// Moves to the next InputElementXMLContent token.
    pub fn next_ie_xml_content(&mut self) -> (r: Result<(), ParserFailure>)
        requires
            old(self).inv(),
        ensures
            final(self).moved_on(old(self)),
            r is Err ==> final(self).token == old(self).token,
            xml_content_outcome(old(self).tokenizer.text(), old(self).tokenizer.pos(), &final(self).tokenizer,
                scanned(r, final(self).token), final(self).tokenizer.span_from(&old(self).tokenizer)),
    {
        self.previous_token = (self.token.0.clone(), self.token.1);
        let ghost before = self.tokenizer;
        let scan = self.tokenizer.scan_ie_xml_content();
        proof { self.tokenizer.lemma_extends(&before); }
        match scan {
            Ok(t) => {
                self.token = t;
                Ok(())
            },
            Err(e) => Err(e),
        }
    }
}

} // verus!

verus! {

/// What moving to the next InputElementDiv token does, `a` being the parser
/// before and `b` after.
pub open spec fn advanced(a: &Parser, b: &Parser, r: Result<(), ParserFailure>) -> bool {
    &&& b.moved_on(a)
    &&& r is Err ==> b.token == a.token
    &&& match trivia_end(a.tokenizer.text(), a.tokenizer.pos()) {
        None => r is Err && b.tokenizer.source.invalidated,
        Some(q) => ie_div_outcome(a.tokenizer.text(), q, &b.tokenizer, scanned(r, b.token), true)
            && (r is Ok ==> b.token.1.first_line_number == 1 + line_count(a.tokenizer.text(), q)),
    }
}

/// What moving to the next InputElementXMLTag token does.
pub open spec fn advanced_in_xml_tag(a: &Parser, b: &Parser, r: Result<(), ParserFailure>) -> bool {
    &&& b.moved_on(a)
    &&& r is Err ==> b.token == a.token
    &&& xml_tag_outcome(a.tokenizer.text(), a.tokenizer.pos(), &b.tokenizer, scanned(r, b.token), b.tokenizer.span_from(&a.tokenizer))
}

/// What moving to the next InputElementXMLContent token does.
pub open spec fn advanced_in_xml_content(a: &Parser, b: &Parser, r: Result<(), ParserFailure>) -> bool {
    &&& b.moved_on(a)
    &&& r is Err ==> b.token == a.token
    &&& xml_content_outcome(a.tokenizer.text(), a.tokenizer.pos(), &b.tokenizer, scanned(r, b.token), b.tokenizer.span_from(&a.tokenizer))
}

pub open spec fn unit_result<T>(r: Result<T, ParserFailure>) -> Result<(), ParserFailure> {
    match r {
        Ok(_) => Ok(()),
        Err(e) => Err(e),
    }
}

/// Whether the current token is the identifier `name`, written without
/// escapes: it spans as many characters as `name` has UTF-8 bytes.
pub open spec fn is_context_keyword(p: &Parser, name: Seq<char>) -> bool {
    &&& p.token.0 matches Token::Identifier(id) && id@ == name
    &&& char_index_at(p.tokenizer.text(), p.token.1.last_offset as int)
        - char_index_at(p.tokenizer.text(), p.token.1.first_offset as int) == utf8_len(name)
}

/// The name of an identifier token, or of a reserved word when reserved
/// words are accepted as names.
pub open spec fn token_name(t: Token, reserved_words: bool) -> Option<Seq<char>> {
    match t {
        Token::Identifier(id) => Some(id@),
        _ => if reserved_words { spec_reserved_word_name(t) } else { None },
    }
}

/// One more diagnostic is recorded, a syntax error of kind `kind` at
/// `location`; the parser's state is otherwise kept.
pub open spec fn reported(a: &Parser, b: &Parser, location: Location, kind: DiagnosticKind) -> bool {
    &&& b.inv()
    &&& b.tokenizer.extends(&a.tokenizer)
    &&& b.tokenizer.pos() == a.tokenizer.pos()
    &&& b.tokenizer.source.invalidated
    &&& b.tokenizer.source.diagnostics@.len() == a.tokenizer.source.diagnostics@.len() + 1
    &&& b.tokenizer.source.diagnostics@.last().location == location
    &&& b.tokenizer.source.diagnostics@.last().kind == kind
    &&& !b.tokenizer.source.diagnostics@.last().is_warning
    &&& b.token == a.token
    &&& b.previous_token == a.previous_token
    &&& b.locations@ == a.locations@
}

/// The precedence a binary operator requires of the expression on its left,
/// the operator, and the precedence of the expression on its right: one level
/// tighter for a left-associative operator, the same level for a
/// right-associative one, and that of a bitwise OR for `??`.
pub open spec fn binary_operator_of(t: Token) -> Option<(OperatorPrecedence, Operator, OperatorPrecedence)> {
    match spec_to_binary_operator(t) {
        None => None,
        Some(op) => {
            let (prec, assoc) = spec_binary_position(op).unwrap();
            let right = if op == Operator::NullCoalescing {
                OperatorPrecedence::BitwiseOr
            } else if assoc == BinaryAssociativity::LeftToRight {
                precedence_of_value(precedence_value(prec) + 1).unwrap()
            } else {
                prec
            };
            Some((prec, op, right))
        },
    }
}

/// The prefix operator a token starts, with the precedence of its operand.
pub open spec fn prefix_operator_of(t: Token) -> Option<(Operator, OperatorPrecedence)> {
    match t {
        Token::Delete => Some((Operator::Delete, OperatorPrecedence::Postfix)),
        Token::Void => Some((Operator::Void, OperatorPrecedence::Unary)),
        Token::Typeof => Some((Operator::Typeof, OperatorPrecedence::Unary)),
        Token::Increment => Some((Operator::PreIncrement, OperatorPrecedence::Postfix)),
        Token::Decrement => Some((Operator::PreDecrement, OperatorPrecedence::Postfix)),
        Token::Plus => Some((Operator::Positive, OperatorPrecedence::Unary)),
        Token::Minus => Some((Operator::Negative, OperatorPrecedence::Unary)),
        Token::BitwiseNot => Some((Operator::BitwiseNot, OperatorPrecedence::Unary)),
        Token::Exclamation => Some((Operator::LogicalNot, OperatorPrecedence::Unary)),
        _ => None,
    }
}

/// Distinct tokens stand for distinct prefix operators, and each prefix
/// operator token stands for the operator it spells: `delete`, `void`,
/// `typeof`, `++`, `--`, `+`, `-`, `~` and `!` give deletion, void, typeof,
/// pre-increment, pre-decrement, unary plus, negation, bitwise not and
/// logical not. `delete`, `++` and `--` take a postfix expression as their
/// operand, the others a unary one.
pub proof fn lemma_prefix_operators(t: Token, u: Token)
    ensures
        prefix_operator_of(t) is Some && prefix_operator_of(u) is Some
            && prefix_operator_of(t).unwrap().0 == prefix_operator_of(u).unwrap().0 ==> t == u,
        prefix_operator_of(t) matches Some((op, _)) && op == Operator::Negative <==> t == Token::Minus,
        prefix_operator_of(t) matches Some((op, _)) && op == Operator::Positive <==> t == Token::Plus,
        prefix_operator_of(t) matches Some((op, _)) && op == Operator::LogicalNot <==> t == Token::Exclamation,
        prefix_operator_of(t) matches Some((op, _)) && op == Operator::BitwiseNot <==> t == Token::BitwiseNot,
        prefix_operator_of(t) matches Some((op, _)) && op == Operator::PreIncrement <==> t == Token::Increment,
        prefix_operator_of(t) matches Some((op, _)) && op == Operator::PreDecrement <==> t == Token::Decrement,
        prefix_operator_of(t) matches Some((op, _)) && op == Operator::Delete <==> t == Token::Delete,
        prefix_operator_of(t) matches Some((op, _)) && op == Operator::Void <==> t == Token::Void,
        prefix_operator_of(t) matches Some((op, _)) && op == Operator::Typeof <==> t == Token::Typeof,
        prefix_operator_of(t) matches Some((_, p)) ==>
            (p == OperatorPrecedence::Postfix <==> (t == Token::Delete || t == Token::Increment || t == Token::Decrement)),
        prefix_operator_of(t) matches Some((_, p)) ==>
            (p == OperatorPrecedence::Postfix || p == OperatorPrecedence::Unary),
{
}

/// The reserved namespace a token denotes.
pub open spec fn reserved_namespace_of(t: Token) -> Option<ReservedNamespace> {
    match t {
        Token::Public => Some(ReservedNamespace::Public),
        Token::Private => Some(ReservedNamespace::Private),
        Token::Protected => Some(ReservedNamespace::Protected),
        Token::Internal => Some(ReservedNamespace::Internal),
        _ => None,
    }
}

impl Parser {
    /// Whether the current token is `token`.
    pub fn peek(&self, token: Token) -> (r: bool)
        ensures
            r == tokens_equal(self.token.0, token),
    {
        token_eq(&self.token.0, &token)
    }

    /// Whether the current token is the context keyword `name`: an
    /// identifier of that name written without escapes.
    pub fn peek_context_keyword(&self, name: &str) -> (r: bool)
        requires
            self.inv(),
        ensures
            r == is_context_keyword(self, name@),
    {
        match &self.token.0 {
            Token::Identifier(id) => {
                proof { self.tokenizer.lemma_inv(); }
                crate::keywords::str_eq(id.as_str(), name)
                    && self.token.1.character_count(&self.tokenizer.source) == str_byte_len(name)
            },
            _ => false,
        }
    }

    /// The reserved namespace that the current token denotes, if any.
    pub fn peek_reserved_namespace(&self) -> (r: Option<ReservedNamespace>)
        ensures
            r == reserved_namespace_of(self.token.0),
    {
        match self.token.0 {
            Token::Public => Some(ReservedNamespace::Public),
            Token::Private => Some(ReservedNamespace::Private),
            Token::Protected => Some(ReservedNamespace::Protected),
            Token::Internal => Some(ReservedNamespace::Internal),
            _ => None,
        }
    }

    /// Moves past the current token if it is `token`.
    pub fn consume(&mut self, token: Token) -> (r: Result<bool, ParserFailure>)
        requires
            old(self).inv(),
        ensures
            tokens_equal(old(self).token.0, token) ==> (r is Ok ==> r == Ok::<bool, ParserFailure>(true))
                && advanced(old(self), final(self), unit_result(r)),
            !tokens_equal(old(self).token.0, token) ==> r == Ok::<bool, ParserFailure>(false) && *final(self) == *old(self),
    {
        if token_eq(&self.token.0, &token) {
            match self.next() {
                Ok(()) => Ok(true),
                Err(e) => Err(e),
            }
        } else {
            Ok(false)
        }
    }

    /// Moves past the current token, to the next InputElementXMLTag token,
    /// if it is `token`.
    pub fn consume_and_ie_xml_tag(&mut self, token: Token) -> (r: Result<bool, ParserFailure>)
        requires
            old(self).inv(),
        ensures
            tokens_equal(old(self).token.0, token) ==> (r is Ok ==> r == Ok::<bool, ParserFailure>(true))
                && advanced_in_xml_tag(old(self), final(self), unit_result(r)),
            !tokens_equal(old(self).token.0, token) ==> r == Ok::<bool, ParserFailure>(false) && *final(self) == *old(self),
    {
        if token_eq(&self.token.0, &token) {
            match self.next_ie_xml_tag() {
                Ok(()) => Ok(true),
                Err(e) => Err(e),
            }
        } else {
            Ok(false)
        }
    }

    /// Moves past the current token, to the next InputElementXMLContent
    /// token, if it is `token`.
    pub fn consume_and_ie_xml_content(&mut self, token: Token) -> (r: Result<bool, ParserFailure>)
        requires
            old(self).inv(),
        ensures
            tokens_equal(old(self).token.0, token) ==> (r is Ok ==> r == Ok::<bool, ParserFailure>(true))
                && advanced_in_xml_content(old(self), final(self), unit_result(r)),
            !tokens_equal(old(self).token.0, token) ==> r == Ok::<bool, ParserFailure>(false) && *final(self) == *old(self),
    {
        if token_eq(&self.token.0, &token) {
            match self.next_ie_xml_content() {
                Ok(()) => Ok(true),
                Err(e) => Err(e),
            }
        } else {
            Ok(false)
        }
    }

    /// Moves past an identifier (or, when `reserved_words` is on, a reserved
    /// word), giving its name and location.
    pub fn consume_identifier(&mut self, reserved_words: bool) -> (r: Result<Option<(String, Location)>, ParserFailure>)
        requires
            old(self).inv(),
        ensures
            match token_name(old(self).token.0, reserved_words) {
                Some(name) => advanced(old(self), final(self), unit_result(r))
                    && (r matches Ok(x) ==> x matches Some((n, l)) && n@ == name && l == old(self).token.1),
                None => r == Ok::<Option<(String, Location)>, ParserFailure>(None) && *final(self) == *old(self),
            },
    {
        if let Token::Identifier(id) = &self.token.0 {
            let id = id.clone();
            let location = self.token.1;
            return match self.next() {
                Ok(()) => Ok(Some((id, location))),
                Err(e) => Err(e),
            };
        }
        if reserved_words {
            if let Some(id) = self.token.0.reserved_word_name() {
                let location = self.token.1;
                return match self.next() {
                    Ok(()) => Ok(Some((id, location))),
                    Err(e) => Err(e),
                };
            }
        }
        Ok(None)
    }

    /// Moves past the context keyword `name` if it is the current token.
    pub fn consume_context_keyword(&mut self, name: &str) -> (r: Result<bool, ParserFailure>)
        requires
            old(self).inv(),
        ensures
            is_context_keyword(old(self), name@) ==> (r is Ok ==> r == Ok::<bool, ParserFailure>(true))
                && advanced(old(self), final(self), unit_result(r)),
            !is_context_keyword(old(self), name@) ==> r == Ok::<bool, ParserFailure>(false) && *final(self) == *old(self),
    {
        if self.peek_context_keyword(name) {
            match self.next() {
                Ok(()) => Ok(true),
                Err(e) => Err(e),
            }
        } else {
            Ok(false)
        }
    }

    /// Moves past the current token if it is `token`; otherwise reports that
    /// `token` was expected before the current one, and fails.
    pub fn expect(&mut self, token: Token) -> (r: Result<(), ParserFailure>)
        requires
            old(self).inv(),
        ensures
            tokens_equal(old(self).token.0, token) ==> advanced(old(self), final(self), r),
            !tokens_equal(old(self).token.0, token) ==> r is Err && reported(old(self), final(self), old(self).token.1,
                DiagnosticKind::Expected) && final(self).tokenizer.source.diagnostics@.last().arguments@ == seq![DiagnosticArgument::Token(token), DiagnosticArgument::Token(old(self).token.0)],
    {
        if !token_eq(&self.token.0, &token) {
            let location = self.token.1;
            let current = self.token.0.clone();
            let mut arguments: Vec<DiagnosticArgument> = Vec::new();
            arguments.push(DiagnosticArgument::Token(token));
            arguments.push(DiagnosticArgument::Token(current));
            proof { assert(arguments@ =~= seq![DiagnosticArgument::Token(token), DiagnosticArgument::Token(old(self).token.0)]); }
            self.add_syntax_error(&location, DiagnosticKind::Expected, arguments);
            Err(ParserFailure)
        } else {
            self.next()
        }
    }

    /// Moves past the current token, to the next InputElementXMLTag token,
    /// if it is `token`; otherwise reports that `token` was expected.
    pub fn expect_and_ie_xml_tag(&mut self, token: Token) -> (r: Result<(), ParserFailure>)
        requires
            old(self).inv(),
        ensures
            tokens_equal(old(self).token.0, token) ==> advanced_in_xml_tag(old(self), final(self), r),
            !tokens_equal(old(self).token.0, token) ==> r is Err && reported(old(self), final(self), old(self).token.1,
                DiagnosticKind::Expected) && final(self).tokenizer.source.diagnostics@.last().arguments@ == seq![DiagnosticArgument::Token(token), DiagnosticArgument::Token(old(self).token.0)],
    {
        if !token_eq(&self.token.0, &token) {
            let location = self.token.1;
            let current = self.token.0.clone();
            let mut arguments: Vec<DiagnosticArgument> = Vec::new();
            arguments.push(DiagnosticArgument::Token(token));
            arguments.push(DiagnosticArgument::Token(current));
            proof { assert(arguments@ =~= seq![DiagnosticArgument::Token(token), DiagnosticArgument::Token(old(self).token.0)]); }
            self.add_syntax_error(&location, DiagnosticKind::Expected, arguments);
            Err(ParserFailure)
        } else {
            self.next_ie_xml_tag()
        }
    }

    /// Moves past the current token, to the next InputElementXMLContent
    /// token, if it is `token`; otherwise reports that `token` was expected.
    pub fn expect_and_ie_xml_content(&mut self, token: Token) -> (r: Result<(), ParserFailure>)
        requires
            old(self).inv(),
        ensures
            tokens_equal(old(self).token.0, token) ==> advanced_in_xml_content(old(self), final(self), r),
            !tokens_equal(old(self).token.0, token) ==> r is Err && reported(old(self), final(self), old(self).token.1,
                DiagnosticKind::Expected) && final(self).tokenizer.source.diagnostics@.last().arguments@ == seq![DiagnosticArgument::Token(token), DiagnosticArgument::Token(old(self).token.0)],
    {
        if !token_eq(&self.token.0, &token) {
            let location = self.token.1;
            let current = self.token.0.clone();
            let mut arguments: Vec<DiagnosticArgument> = Vec::new();
            arguments.push(DiagnosticArgument::Token(token));
            arguments.push(DiagnosticArgument::Token(current));
            proof { assert(arguments@ =~= seq![DiagnosticArgument::Token(token), DiagnosticArgument::Token(old(self).token.0)]); }
            self.add_syntax_error(&location, DiagnosticKind::Expected, arguments);
            Err(ParserFailure)
        } else {
            self.next_ie_xml_content()
        }
    }

    /// Moves past an identifier (or, when `reserved_words` is on, a reserved
    /// word), giving its name and location; otherwise reports that an
    /// identifier was expected, and fails.
    pub fn expect_identifier(&mut self, reserved_words: bool) -> (r: Result<(String, Location), ParserFailure>)
        requires
            old(self).inv(),
        ensures
            match token_name(old(self).token.0, reserved_words) {
                Some(name) => advanced(old(self), final(self), unit_result(r))
                    && (r matches Ok((n, l)) ==> n@ == name && l == old(self).token.1),
                None => r is Err && reported(old(self), final(self), old(self).token.1,
                DiagnosticKind::ExpectedIdentifier) && final(self).tokenizer.source.diagnostics@.last().arguments@ == seq![DiagnosticArgument::Token(old(self).token.0)],
            },
    {
        if let Token::Identifier(id) = &self.token.0 {
            let id = id.clone();
            let location = self.token.1;
            return match self.next() {
                Ok(()) => Ok((id, location)),
                Err(e) => Err(e),
            };
        }
        if reserved_words {
            if let Some(id) = self.token.0.reserved_word_name() {
                let location = self.token.1;
                return match self.next() {
                    Ok(()) => Ok((id, location)),
                    Err(e) => Err(e),
                };
            }
        }
        let location = self.token.1;
        let current = self.token.0.clone();
        let mut arguments: Vec<DiagnosticArgument> = Vec::new();
        arguments.push(DiagnosticArgument::Token(current));
        proof { assert(arguments@ =~= seq![DiagnosticArgument::Token(old(self).token.0)]); }
        self.add_syntax_error(&location, DiagnosticKind::ExpectedIdentifier, arguments);
        Err(ParserFailure)
    }

    /// Moves past the context keyword `name`; otherwise reports that it was
    /// expected, and fails.
    pub fn expect_context_keyword(&mut self, name: &str) -> (r: Result<(), ParserFailure>)
        requires
            old(self).inv(),
        ensures
            is_context_keyword(old(self), name@) ==> advanced(old(self), final(self), r),
            !is_context_keyword(old(self), name@) ==> r is Err && reported(old(self), final(self), old(self).token.1,
                DiagnosticKind::Expected) && final(self).tokenizer.source.diagnostics@.last().arguments@.len() == 2
                && (final(self).tokenizer.source.diagnostics@.last().arguments@[0] matches DiagnosticArgument::String(x) && x@ == name@)
                && final(self).tokenizer.source.diagnostics@.last().arguments@[1] == DiagnosticArgument::Token(old(self).token.0),
    {
        if self.peek_context_keyword(name) {
            return self.next();
        }
        let location = self.token.1;
        let current = self.token.0.clone();
        let mut arguments: Vec<DiagnosticArgument> = Vec::new();
        arguments.push(DiagnosticArgument::String(name.to_string()));
        arguments.push(DiagnosticArgument::Token(current));
        self.add_syntax_error(&location, DiagnosticKind::Expected, arguments);
        Err(ParserFailure)
    }

    /// Expects the end of the program.
    pub fn expect_eof(&mut self) -> (r: Result<(), ParserFailure>)
        requires
            old(self).inv(),
        ensures
            old(self).token.0 == Token::Eof ==> advanced(old(self), final(self), r),
            old(self).token.0 != Token::Eof ==> r is Err && reported(old(self), final(self), old(self).token.1,
                DiagnosticKind::Expected) && final(self).tokenizer.source.diagnostics@.last().arguments@ == seq![DiagnosticArgument::Token(Token::Eof), DiagnosticArgument::Token(old(self).token.0)],
    {
        self.expect(Token::Eof)
    }

    /// The binary operator the current token stands for, with the
    /// precedences around it.
    pub fn check_binary_operator(&self) -> (r: Option<(OperatorPrecedence, Operator, OperatorPrecedence)>)
        ensures
            r == binary_operator_of(self.token.0),
    {
        if let Some(operator) = self.token.0.to_binary_operator() {
            proof { crate::token::lemma_binary_operator_tokens_have_position(self.token.0); }
            let (precedence, associativity) = operator.binary_position().unwrap();
            let mut right_precedence = precedence;
            if associativity == BinaryAssociativity::LeftToRight {
                right_precedence = right_precedence.add_one().unwrap();
            }
            if operator == Operator::NullCoalescing {
                right_precedence = OperatorPrecedence::BitwiseOr;
            }
            Some((precedence, operator, right_precedence))
        } else {
            None
        }
    }

    /// The prefix operator the current token stands for, with the precedence
    /// of its operand.
    pub fn check_prefix_operator(&self) -> (r: Option<(Operator, OperatorPrecedence)>)
        ensures
            r == prefix_operator_of(self.token.0),
    {
        match self.token.0 {
            Token::Delete => Some((Operator::Delete, OperatorPrecedence::Postfix)),
            Token::Void => Some((Operator::Void, OperatorPrecedence::Unary)),
            Token::Typeof => Some((Operator::Typeof, OperatorPrecedence::Unary)),
            Token::Increment => Some((Operator::PreIncrement, OperatorPrecedence::Postfix)),
            Token::Decrement => Some((Operator::PreDecrement, OperatorPrecedence::Postfix)),
            Token::Plus => Some((Operator::Positive, OperatorPrecedence::Unary)),
            Token::Minus => Some((Operator::Negative, OperatorPrecedence::Unary)),
            Token::BitwiseNot => Some((Operator::BitwiseNot, OperatorPrecedence::Unary)),
            Token::Exclamation => Some((Operator::LogicalNot, OperatorPrecedence::Unary)),
            _ => None,
        }
    }
}

} // verus!

verus! {

/// The token that remains of `t` once a `>` is taken off its front, for the
/// tokens that start with `>` but are not `>` itself.
pub open spec fn rest_after_gt(t: Token) -> Option<Token> {
    match t {
        Token::Ge => Some(Token::Assign),
        Token::RightShift => Some(Token::Gt),
        Token::RightShiftAssign => Some(Token::Ge),
        Token::UnsignedRightShift => Some(Token::RightShift),
        Token::UnsignedRightShiftAssign => Some(Token::RightShiftAssign),
        _ => None,
    }
}

/// Taking a `>` off the front of a token leaves the token spelled by the
/// rest of its characters.
pub proof fn lemma_rest_after_gt_spelling(t: Token)
    requires
        rest_after_gt(t) is Some,
    ensures
        crate::token::punctuator_spelling(t) == seq!['>'] + crate::token::punctuator_spelling(rest_after_gt(t).unwrap()),
{
    let r = rest_after_gt(t).unwrap();
    assert(crate::token::punctuator_spelling(t) =~= seq!['>'] + crate::token::punctuator_spelling(r));
}

/// The diagnostics that checking a parameter list gives, in order: a wrong
/// position where a parameter's kind may not follow the previous one's, and
/// a duplicate rest parameter where a rest parameter follows another.
pub open spec fn parameter_list_errors(ps: Seq<(FunctionParamKind, Location)>) -> Seq<(DiagnosticKind, Location)>
    decreases ps.len(),
{
    if ps.len() == 0 {
        Seq::empty()
    } else {
        let i = ps.len() - 1;
        let prev = parameter_list_errors(ps.drop_last());
        let (kind, location) = ps[i];
        let least = if i == 0 { FunctionParamKind::Required } else { ps[i - 1].0 };
        let has_rest = i > 0 && ps[i - 1].0 == FunctionParamKind::Rest;
        let a = if function_param_kind_rank(least) > function_param_kind_rank(kind) {
            prev.push((DiagnosticKind::WrongParameterPosition, location))
        } else {
            prev
        };
        if kind == FunctionParamKind::Rest && has_rest {
            a.push((DiagnosticKind::DuplicateRestParameter, location))
        } else {
            a
        }
    }
}

/// Whether the diagnostics `ds` are the syntax errors `errors`, without
/// arguments.
pub open spec fn are_errors(ds: Seq<Diagnostic>, errors: Seq<(DiagnosticKind, Location)>) -> bool {
    &&& ds.len() == errors.len()
    &&& forall|j: int| 0 <= j < ds.len() ==> {
        &&& (#[trigger] ds[j]).kind == errors[j].0
        &&& ds[j].location == errors[j].1
        &&& !ds[j].is_warning
        &&& ds[j].arguments@.len() == 0
    }
}

impl Parser {
    /// Expects a `>` closing a list of type arguments. A token that starts
    /// with `>`, such as `>>`, loses its first character, which stands for
    /// the `>`, and stays current.
    pub fn expect_generics_gt(&mut self) -> (r: Result<(), ParserFailure>)
        requires
            old(self).inv(),
            old(self).token.1.first_offset < usize::MAX,
        ensures
            old(self).token.0 == Token::Gt ==> advanced(old(self), final(self), r),
            rest_after_gt(old(self).token.0) matches Some(rest) ==> r is Ok
                && final(self).token == (rest, Location { first_offset: (old(self).token.1.first_offset + 1) as usize, ..old(self).token.1 })
                && final(self).tokenizer == old(self).tokenizer
                && final(self).previous_token == old(self).previous_token
                && final(self).locations@ == old(self).locations@
                && final(self).inv(),
            old(self).token.0 != Token::Gt && rest_after_gt(old(self).token.0) is None ==> r is Err
                && reported(old(self), final(self), old(self).token.1, DiagnosticKind::Expected)
                && final(self).tokenizer.source.diagnostics@.last().arguments@
                    == seq![DiagnosticArgument::Token(Token::Gt), DiagnosticArgument::Token(old(self).token.0)],
    {
        let rest = match self.token.0 {
            Token::Gt => {
                return self.next();
            },
            Token::Ge => Some(Token::Assign),
            Token::RightShift => Some(Token::Gt),
            Token::RightShiftAssign => Some(Token::Ge),
            Token::UnsignedRightShift => Some(Token::RightShift),
            Token::UnsignedRightShiftAssign => Some(Token::RightShiftAssign),
            _ => None,
        };
        match rest {
            Some(t) => {
                self.token.0 = t;
                self.token.1.first_offset = self.token.1.first_offset + 1;
                Ok(())
            },
            None => self.expect(Token::Gt),
        }
    }

    /// Checks the order of a function's parameters: required ones, then
    /// optional ones, then one rest parameter. Each problem is reported at
    /// its parameter; checking always succeeds.
    pub fn validate_function_parameter_list(&mut self, params: &Vec<(FunctionParamKind, Location)>) -> (r: Result<(), ParserFailure>)
        requires
            old(self).inv(),
        ensures
            r is Ok,
            final(self).inv(),
            final(self).tokenizer.extends(&old(self).tokenizer),
            final(self).tokenizer.pos() == old(self).tokenizer.pos(),
            final(self).tokenizer.source.diagnostics@.subrange(0, old(self).tokenizer.source.diagnostics@.len() as int)
                == old(self).tokenizer.source.diagnostics@,
            are_errors(final(self).tokenizer.source.diagnostics@.subrange(old(self).tokenizer.source.diagnostics@.len() as int,
                final(self).tokenizer.source.diagnostics@.len() as int), parameter_list_errors(params@)),
            parameter_list_errors(params@).len() > 0 ==> final(self).tokenizer.source.invalidated,
            parameter_list_errors(params@).len() == 0 ==> final(self).tokenizer.source.invalidated == old(self).tokenizer.source.invalidated,
            final(self).token == old(self).token,
            final(self).previous_token == old(self).previous_token,
            final(self).locations@ == old(self).locations@,
    {
        let ghost n0 = self.tokenizer.source.diagnostics@.len();
        let mut least_kind = FunctionParamKind::Required;
        let mut has_rest = false;
        let mut i: usize = 0;
        proof {
            assert(self.tokenizer.source.diagnostics@.subrange(n0 as int, n0 as int) =~= Seq::<Diagnostic>::empty());
            assert(self.tokenizer.source.diagnostics@.subrange(0, n0 as int) =~= self.tokenizer.source.diagnostics@);
            assert(params@.take(0) =~= Seq::<(FunctionParamKind, Location)>::empty());
            lemma_extends_same_source(&old(self).tokenizer, &self.tokenizer);
        }
        while i < params.len()
            invariant
                self.inv(),
                self.tokenizer.extends(&old(self).tokenizer),
                self.tokenizer.pos() == old(self).tokenizer.pos(),
                n0 == old(self).tokenizer.source.diagnostics@.len(),
                n0 <= self.tokenizer.source.diagnostics@.len(),
                self.tokenizer.source.diagnostics@.subrange(0, n0 as int) == old(self).tokenizer.source.diagnostics@,
                i <= params.len(),
                are_errors(self.tokenizer.source.diagnostics@.subrange(n0 as int, self.tokenizer.source.diagnostics@.len() as int),
                    parameter_list_errors(params@.take(i as int))),
                parameter_list_errors(params@.take(i as int)).len() > 0 ==> self.tokenizer.source.invalidated,
                parameter_list_errors(params@.take(i as int)).len() == 0 ==> self.tokenizer.source.invalidated == old(self).tokenizer.source.invalidated,
                least_kind == (if i == 0 { FunctionParamKind::Required } else { params@[i - 1].0 }),
                has_rest == (i > 0 && params@[i - 1].0 == FunctionParamKind::Rest),
                self.token == old(self).token,
                self.previous_token == old(self).previous_token,
                self.locations@ == old(self).locations@,
            decreases params.len() - i,
        {
            let (kind, location) = params[i];
            let ghost before = *self;
            let ghost errs = parameter_list_errors(params@.take(i as int));
            proof {
                assert(params@.take(i + 1).drop_last() =~= params@.take(i as int));
            }
            if !least_kind.may_be_followed_by(kind) {
                self.add_syntax_error(&location, DiagnosticKind::WrongParameterPosition, Vec::new());
            }
            let ghost mid = *self;
            least_kind = kind;
            if kind == FunctionParamKind::Rest && has_rest {
                self.add_syntax_error(&location, DiagnosticKind::DuplicateRestParameter, Vec::new());
            }
            has_rest = kind == FunctionParamKind::Rest;
            proof {
                if mid.tokenizer != before.tokenizer {
                    lemma_extends_trans(&old(self).tokenizer, &before.tokenizer, &mid.tokenizer);
                }
                if self.tokenizer != mid.tokenizer {
                    lemma_extends_trans(&old(self).tokenizer, &mid.tokenizer, &self.tokenizer);
                }
                let ds = self.tokenizer.source.diagnostics@;
                let bs = before.tokenizer.source.diagnostics@;
                assert(ds.subrange(0, n0 as int) =~= bs.subrange(0, n0 as int));
                let new_errs = parameter_list_errors(params@.take(i + 1));
                assert(ds.subrange(n0 as int, ds.len() as int).len() == new_errs.len());
                assert forall|j: int| 0 <= j < new_errs.len() implies {
                    &&& (#[trigger] ds.subrange(n0 as int, ds.len() as int)[j]).kind == new_errs[j].0
                    &&& ds.subrange(n0 as int, ds.len() as int)[j].location == new_errs[j].1
                    &&& !ds.subrange(n0 as int, ds.len() as int)[j].is_warning
                    &&& ds.subrange(n0 as int, ds.len() as int)[j].arguments@.len() == 0
                } by {
                    if j < errs.len() {
                        assert(ds.subrange(n0 as int, ds.len() as int)[j] == bs.subrange(n0 as int, bs.len() as int)[j]);
                    }
                }
            }
            i = i + 1;
        }
        proof { assert(params@.take(params@.len() as int) =~= params@); }
        Ok(())
    }
}

} // verus!

verus! {

/// Whether `name` spans as many characters of `source` as its text has
/// UTF-8 bytes, that is, whether it was written without escapes.
pub open spec fn written_plainly(source: &Source, name: Seq<char>, location: Location) -> bool {
    char_index_at(source.text@, location.last_offset as int) - char_index_at(source.text@, location.first_offset as int)
        == utf8_len(name)
}

/// The context keywords that may start an annotatable definition.
pub open spec fn is_definition_context_keyword_name(name: Seq<char>) -> bool {
    ||| name == seq!['n', 'a', 'm', 'e', 's', 'p', 'a', 'c', 'e']
    ||| name == seq!['t', 'y', 'p', 'e']
    ||| name == seq!['e', 'n', 'u', 'm']
}

/// Whether an identifier is one of the context keywords `namespace`, `type`
/// and `enum` that may start an annotatable definition, written without
/// escapes.
pub fn is_annotatable_definition_context_keyword(id: &(String, Location), source: &Source) -> (r: bool)
    requires
        source.wf(),
        valid_location(source.text@, id.1),
    ensures
        r == (is_definition_context_keyword_name(id.0@) && written_plainly(source, id.0@, id.1)),
{
    let name = id.0.as_str();
    proof {
        reveal_strlit("namespace");
        reveal_strlit("type");
        reveal_strlit("enum");
        assert("namespace"@ =~= seq!['n', 'a', 'm', 'e', 's', 'p', 'a', 'c', 'e']);
        assert("type"@ =~= seq!['t', 'y', 'p', 'e']);
        assert("enum"@ =~= seq!['e', 'n', 'u', 'm']);
    }
    let known = crate::keywords::str_eq(name, "namespace") || crate::keywords::str_eq(name, "type")
        || crate::keywords::str_eq(name, "enum");
    known && id.1.character_count(source) == str_byte_len(name)
}

impl Parser {
    /// The name and location of the current token if it is an identifier
    /// (or, when `reserved_words` is on, a reserved word); the parser stays
    /// where it is.
    pub fn peek_identifier(&self, reserved_words: bool) -> (r: Result<Option<(String, Location)>, ParserFailure>)
        ensures
            match token_name(self.token.0, reserved_words) {
                Some(name) => r matches Ok(Some((n, l))) && n@ == name && l == self.token.1,
                None => r == Ok::<Option<(String, Location)>, ParserFailure>(None),
            },
    {
        if let Token::Identifier(id) = &self.token.0 {
            return Ok(Some((id.clone(), self.token.1)));
        }
        if reserved_words {
            if let Some(id) = self.token.0.reserved_word_name() {
                return Ok(Some((id, self.token.1)));
            }
        }
        Ok(None)
    }

    /// Whether the current token starts an annotatable definition by a
    /// reserved word: `class`, `interface`, `function`, `var` or `const`.
    pub fn peek_annotatable_definition_reserved_word(&self) -> (r: bool)
        ensures
            r == (self.token.0 == Token::Class || self.token.0 == Token::Interface || self.token.0 == Token::Function
                || self.token.0 == Token::Var || self.token.0 == Token::Const),
    {
        self.peek(Token::Class) || self.peek(Token::Interface) || self.peek(Token::Function)
            || self.peek(Token::Var) || self.peek(Token::Const)
    }

    /// Whether the identifier `id`, read as a field name of a record type,
    /// is the `readonly` modifier: written without escapes and not followed
    /// by what ends or types a field name.
    pub fn record_type_field_readonly(&self, id: (String, Location)) -> (r: bool)
        requires
            self.inv(),
            valid_location(self.tokenizer.text(), id.1),
        ensures
            r == (id.0@ == seq!['r', 'e', 'a', 'd', 'o', 'n', 'l', 'y']
                && written_plainly(&self.tokenizer.source, id.0@, id.1)
                && !(self.token.0 == Token::Colon || self.token.0 == Token::Comma || self.token.0 == Token::Question
                    || self.token.0 == Token::RightBrace || self.token.0 == Token::Exclamation)),
    {
        proof {
            self.tokenizer.lemma_inv();
            reveal_strlit("readonly");
            assert("readonly"@ =~= seq!['r', 'e', 'a', 'd', 'o', 'n', 'l', 'y']);
        }
        crate::keywords::str_eq(id.0.as_str(), "readonly")
            && id.1.character_count(&self.tokenizer.source) == str_byte_len("readonly")
            && !(self.peek(Token::Colon) || self.peek(Token::Comma) || self.peek(Token::Question)
                || self.peek(Token::RightBrace) || self.peek(Token::Exclamation))
    }

    /// Reports the current token where a line break comes before it.
    pub fn forbid_line_break_before_token(&mut self)
        requires
            old(self).inv(),
        ensures
            old(self).previous_token.1.last_line_number != old(self).token.1.first_line_number ==>
                reported(old(self), final(self), old(self).token.1, DiagnosticKind::TokenMustNotFollowLineBreak)
                && final(self).tokenizer.source.diagnostics@.last().arguments@.len() == 0,
            old(self).previous_token.1.last_line_number == old(self).token.1.first_line_number ==>
                *final(self) == *old(self),
    {
        if self.previous_token.1.line_break(&self.token.1) {
            let location = self.token.1;
            self.add_syntax_error(&location, DiagnosticKind::TokenMustNotFollowLineBreak, Vec::new());
        }
    }
}

} // verus!

verus! {

impl Parser {
    /// Ends a statement: consumes a `;`, or accepts a `}` or a line break
    /// before the current token in its place. Gives whether the statement
    /// ended.
    pub fn parse_semicolon(&mut self) -> (r: Result<bool, ParserFailure>)
        requires
            old(self).inv(),
        ensures
            old(self).token.0 == Token::Semicolon ==> (r is Ok ==> r == Ok::<bool, ParserFailure>(true))
                && advanced(old(self), final(self), unit_result(r)),
            old(self).token.0 != Token::Semicolon ==> *final(self) == *old(self)
                && r == Ok::<bool, ParserFailure>(old(self).token.0 == Token::RightBrace
                    || old(self).previous_token.1.last_line_number != old(self).token.1.first_line_number),
    {
        let consumed = match self.consume(Token::Semicolon) {
            Ok(b) => b,
            Err(e) => return Err(e),
        };
        Ok(consumed || self.peek(Token::RightBrace) || self.previous_token.1.line_break(&self.token.1))
    }

    /// Moves past an XML name inside a tag, giving it with its location;
    /// otherwise reports that an XML name was expected, and fails.
    pub fn parse_xml_name(&mut self) -> (r: Result<(String, Location), ParserFailure>)
        requires
            old(self).inv(),
        ensures
            match old(self).token.0 {
                Token::XmlName(name) => advanced_in_xml_tag(old(self), final(self), unit_result(r))
                    && (r matches Ok((n, l)) ==> n@ == name@ && l == old(self).token.1),
                _ => r is Err && reported(old(self), final(self), old(self).token.1, DiagnosticKind::ExpectedXmlName)
                    && final(self).tokenizer.source.diagnostics@.last().arguments@ == seq![DiagnosticArgument::Token(old(self).token.0)],
            },
    {
        if let Token::XmlName(name) = &self.token.0 {
            let name = name.clone();
            let location = self.token.1;
            return match self.next_ie_xml_tag() {
                Ok(()) => Ok((name, location)),
                Err(e) => Err(e),
            };
        }
        let location = self.token.1;
        let mut arguments: Vec<DiagnosticArgument> = Vec::new();
        arguments.push(DiagnosticArgument::Token(self.token.0.clone()));
        proof { assert(arguments@ =~= seq![DiagnosticArgument::Token(old(self).token.0)]); }
        self.add_syntax_error(&location, DiagnosticKind::ExpectedXmlName, arguments);
        Err(ParserFailure)
    }

    /// Moves past an XML attribute value, giving it; otherwise reports that
    /// an attribute value was expected, and fails.
    pub fn parse_xml_attribute_value(&mut self) -> (r: Result<String, ParserFailure>)
        requires
            old(self).inv(),
        ensures
            match old(self).token.0 {
                Token::XmlAttributeValue(value) => advanced_in_xml_tag(old(self), final(self), unit_result(r))
                    && (r matches Ok(v) ==> v@ == value@),
                _ => r is Err && reported(old(self), final(self), old(self).token.1, DiagnosticKind::ExpectedXmlAttributeValue)
                    && final(self).tokenizer.source.diagnostics@.last().arguments@ == seq![DiagnosticArgument::Token(old(self).token.0)],
            },
    {
        if let Token::XmlAttributeValue(value) = &self.token.0 {
            let value = value.clone();
            return match self.next_ie_xml_tag() {
                Ok(()) => Ok(value),
                Err(e) => Err(e),
            };
        }
        let location = self.token.1;
        let mut arguments: Vec<DiagnosticArgument> = Vec::new();
        arguments.push(DiagnosticArgument::Token(self.token.0.clone()));
        proof { assert(arguments@ =~= seq![DiagnosticArgument::Token(old(self).token.0)]); }
        self.add_syntax_error(&location, DiagnosticKind::ExpectedXmlAttributeValue, arguments);
        Err(ParserFailure)
    }
}

} // verus!
