//! The tokenizer: turns the characters of a source into tokens, recording
//! comments, line starts and diagnostics in the source as it goes.

use vstd::prelude::*;
use crate::character_validation::{lemma_identifier_classes, spec_hex_digit_mv, hex_digit_mv, spec_is_line_terminator, is_line_terminator, spec_is_whitespace, is_whitespace, spec_is_identifier_start, is_identifier_start, spec_is_identifier_part, is_identifier_part, spec_is_dec_digit, is_dec_digit, spec_is_hex_digit, is_hex_digit, spec_is_bin_digit, is_bin_digit, spec_is_xml_name_start, is_xml_name_start, spec_is_xml_name_part, is_xml_name_part, spec_is_xml_whitespace, is_xml_whitespace, spec_indent_count, indent_count};
use crate::compiler_options::ParserFailure;
use crate::diagnostics::{Diagnostic, DiagnosticKind};
use crate::location::{Location, utf8_len, utf8_width, byte_offset, char_width,
    lemma_byte_offset_step, lemma_byte_offset_strictly_increasing};
use crate::source::{Source, Comment, is_boundary, lemma_char_index_at};
use crate::util::{push_str, string_from_chars, digits_value, digit_value, parse_digits, char_from_u32, all_digits};
use crate::keywords::{spec_reserved_word_token, reserved_word_token};
use crate::token::{Token, NumericValue, punctuator_spelling};

verus! {

/// The character at index `i`, or U+0000 past either end.
pub open spec fn char_at(s: Seq<char>, i: int) -> char {
    if 0 <= i < s.len() { s[i] } else { '\x00' }
}

/// The number of characters that a line terminator at `i` spans: two for
/// CR LF, one for any other line terminator, zero where there is none.
pub open spec fn line_terminator_len(s: Seq<char>, i: int) -> int {
    if char_at(s, i) == '\x0D' && char_at(s, i + 1) == '\x0A' {
        2
    } else if 0 <= i < s.len() && spec_is_line_terminator(s[i]) {
        1
    } else {
        0
    }
}

/// Whether every recorded comment holds the text between its delimiters:
/// after `//` up to the end of its location, or between `/*` and `*/`.
pub open spec fn comment_matches_text(c: Comment, s: Seq<char>) -> bool {
    exists|a: int, b: int| #![trigger byte_offset(s, a), byte_offset(s, b)]
        0 <= a && a + 2 <= b <= s.len()
        && byte_offset(s, a) == c.location.first_offset
        && byte_offset(s, b) == c.location.last_offset
        && char_at(s, a) == '/'
        && if c.multiline {
            &&& char_at(s, a + 1) == '*'
            &&& a + 4 <= b
            &&& char_at(s, b - 2) == '*' && char_at(s, b - 1) == '/'
            &&& c.content@ == s.subrange(a + 2, b - 2)
        } else {
            &&& char_at(s, a + 1) == '/'
            &&& c.content@ == s.subrange(a + 2, b)
        }
}

/// Scans the characters of a source.
pub struct Tokenizer {
    pub source: Source,
    /// Current line number, counted from one.
    pub current_line_number: usize,
    /// Index of the next character to scan.
    pub index: usize,
    /// UTF-8 offset of the next character to scan.
    pub offset: usize,
    /// How many comments the source held before scanning started; those
    /// after them are the ones the scan recorded.
    pub first_scanned_comment: usize,
}

impl Tokenizer {
    /// The characters being scanned.
    pub closed spec fn text(&self) -> Seq<char> {
        self.source.text@
    }

    /// The index of the next character to scan.
    pub closed spec fn pos(&self) -> int {
        self.index as int
    }

    /// The line of the next character, counted from one.
    pub closed spec fn line(&self) -> int {
        self.current_line_number as int
    }

    /// The tokenizer's state is consistent with its source: the position lies
    /// within the text, the offset is the position's UTF-8 offset, the line
    /// number counts the lines that end before the position, and every
    /// comment recorded by the scan holds the text between its delimiters.
    pub closed spec fn inv(&self) -> bool {
        &&& self.basic_inv()
        &&& self.current_line_number == 1 + line_count(self.text(), self.pos())
    }

    /// The state's consistency apart from the line number, which may lag
    /// behind while a line terminator is being consumed.
    closed spec fn basic_inv(&self) -> bool {
        &&& self.source.wf()
        &&& utf8_len(self.text()) < usize::MAX
        &&& self.index <= self.text().len()
        &&& self.offset == byte_offset(self.text(), self.index as int)
        &&& 1 <= self.current_line_number <= self.offset + 1
        &&& forall|k: int| self.first_scanned_comment <= k < self.source.comments@.len()
            ==> comment_matches_text(#[trigger] self.source.comments@[k], self.text())
    }

    /// What scanning keeps: the text, and everything recorded so far, which
    /// only grows; the position never moves back.
    pub closed spec fn extends(&self, old: &Tokenizer) -> bool {
        &&& self.source.text == old.source.text
        &&& self.source.file_path == old.source.file_path
        &&& self.pos() >= old.pos()
        &&& old.source.diagnostics@.len() <= self.source.diagnostics@.len()
        &&& self.source.diagnostics@.subrange(0, old.source.diagnostics@.len() as int)
            == old.source.diagnostics@
        &&& old.source.comments@.len() <= self.source.comments@.len()
        &&& self.source.comments@.subrange(0, old.source.comments@.len() as int)
            == old.source.comments@
        &&& old.source.line_number_offsets@.len() <= self.source.line_number_offsets@.len()
        &&& self.source.line_number_offsets@.subrange(0, old.source.line_number_offsets@.len() as int)
            == old.source.line_number_offsets@
        &&& (old.source.invalidated ==> self.source.invalidated)
    }

    /// The UTF-8 offset of a character index in the text being scanned.
    pub closed spec fn offset_of(&self, i: int) -> int {
        byte_offset(self.text(), i) as int
    }

    /// Constructs a tokenizer. A source is tokenized only once.
    pub fn new(source: Source) -> (r: Self)
        requires
            source.wf(),
            !source.already_tokenized,
            utf8_len(source.text@) < usize::MAX,
        ensures
            r.inv(),
            r.pos() == 0,
            r.line() == 1,
            r.source.already_tokenized,
            r.source.text == source.text,
            r.source.diagnostics == source.diagnostics,
            r.source.line_number_offsets == source.line_number_offsets,
            r.source.comments == source.comments,
            r.source.file_path == source.file_path,
            r.source.invalidated == source.invalidated,
            r.source.error_count == source.error_count,
            r.source.warning_count == source.warning_count,
    {
        let mut source = source;
        source.already_tokenized = true;
        proof {
            assert(source.text@.take(0) =~= Seq::<char>::empty());
        }
        let first_scanned_comment = source.comments.len();
        Self { source, current_line_number: 1, index: 0, offset: 0, first_scanned_comment }
    }

    /// Current line number, counted from one.
    pub fn current_line_number(&self) -> (r: usize)
        ensures
            r == self.line(),
    {
        self.current_line_number
    }

    /// A consistent state lies within its text, its line number counts the
    /// lines that end before its position, and its offsets are UTF-8 offsets
    /// in the text.
    pub proof fn lemma_inv(&self)
        requires
            self.inv(),
        ensures
            0 <= self.pos() <= self.text().len(),
            self.text() == self.source.text@,
            self.source.wf(),
            utf8_len(self.text()) < usize::MAX,
            self.line() == 1 + line_count(self.text(), self.pos()),
            forall|i: int| #[trigger] self.offset_of(i) == byte_offset(self.text(), i),
            forall|i: int| 0 <= i <= self.text().len() ==> #[trigger] byte_offset(self.text(), i) < usize::MAX,
    {
        assert forall|i: int| 0 <= i <= self.text().len() implies #[trigger] byte_offset(self.text(), i) < usize::MAX by {
            lemma_byte_offset_strictly_increasing(self.text(), i, self.text().len() as int);
            assert(self.text().take(self.text().len() as int) =~= self.text());
        }
    }

    /// Extending a state keeps its text and source file, moves forward, and
    /// only adds diagnostics, comments and line starts.
    pub proof fn lemma_extends(&self, old: &Tokenizer)
        requires
            self.extends(old),
        ensures
            self.text() == old.text(),
            self.source.text == old.source.text,
            self.source.file_path == old.source.file_path,
            self.pos() >= old.pos(),
            old.source.invalidated ==> self.source.invalidated,
            old.source.diagnostics@.len() <= self.source.diagnostics@.len(),
            self.source.diagnostics@.subrange(0, old.source.diagnostics@.len() as int) == old.source.diagnostics@,
            old.source.comments@.len() <= self.source.comments@.len(),
            self.source.comments@.subrange(0, old.source.comments@.len() as int) == old.source.comments@,
    {
    }

    // ----- Reading characters -----

    fn peek_or_zero(&self) -> (c: char)
        requires
            self.inv(),
        ensures
            c == char_at(self.text(), self.pos()),
    {
        if self.index < self.source.chars.len() {
            self.source.chars[self.index]
        } else {
            '\x00'
        }
    }

    fn peek_at_or_zero(&self, n: usize) -> (c: char)
        requires
            self.inv(),
        ensures
            c == char_at(self.text(), self.pos() + n),
    {
        if n < self.source.chars.len() && self.index < self.source.chars.len() - n {
            self.source.chars[self.index + n]
        } else {
            '\x00'
        }
    }

    /// Whether the next `lit.len()` characters are exactly `lit` and there are
    /// at least `n` characters left with `n == lit.len()`; that is, whether the
    /// next `n` characters (fewer at the end of the text) spell `lit`.
    fn peek_seq_is(&self, n: usize, lit: &str) -> (r: bool)
        requires
            self.inv(),
        ensures
            r == (n == lit@.len() && self.pos() + n <= self.text().len()
                && self.text().subrange(self.pos(), self.pos() + n) == lit@),
    {
        let len = lit.unicode_len();
        if n != len || n > self.source.chars.len() - self.index {
            return false;
        }
        let mut k: usize = 0;
        while k < n
            invariant
                self.inv(),
                n == lit@.len(),
                self.pos() + n <= self.text().len(),
                self.index + n <= self.source.chars.len(),
                k <= n,
                forall|j: int| 0 <= j < k ==> self.text()[self.pos() + j] == lit@[j],
            decreases n - k,
        {
            if self.source.chars[self.index + k] != lit.get_char(k) {
                return false;
            }
            k = k + 1;
        }
        assert(self.text().subrange(self.pos(), self.pos() + n) =~= lit@);
        true
    }

    fn has_remaining(&self) -> (r: bool)
        requires
            self.inv(),
        ensures
            r == (self.pos() < self.text().len()),
    {
        self.index < self.source.chars.len()
    }

    fn reached_end(&self) -> (r: bool)
        requires
            self.inv(),
        ensures
            r == (self.pos() >= self.text().len()),
    {
        self.index >= self.source.chars.len()
    }

    /// Moves past the next character, if there is one; a line terminator is
    /// moved past by `consume_line_terminator` instead.
    fn next(&mut self)
        requires
            old(self).inv(),
            !spec_is_line_terminator(char_at(old(self).text(), old(self).pos())),
        ensures
            final(self).inv(),
            final(self).pos() == if old(self).pos() < old(self).text().len() { old(self).pos() + 1 } else { old(self).pos() },
            final(self).line() == old(self).line(),
            final(self).source == old(self).source,
    {
        self.advance();
    }

    /// Moves past the next character, if there is one, leaving the line
    /// number as it is.
    fn advance(&mut self)
        requires
            old(self).basic_inv(),
        ensures
            final(self).basic_inv(),
            final(self).pos() == if old(self).pos() < old(self).text().len() { old(self).pos() + 1 } else { old(self).pos() },
            final(self).line() == old(self).line(),
            final(self).source == old(self).source,
    {
        if self.index < self.source.chars.len() {
            proof {
                lemma_byte_offset_step(self.text(), self.index as int);
                lemma_byte_offset_strictly_increasing(self.text(), self.index as int + 1, self.text().len() as int);
                assert(self.text().take(self.text().len() as int) =~= self.text());
            }
            self.offset = self.offset + char_width(self.source.chars[self.index]);
            self.index = self.index + 1;
        }
    }

    /// Moves past the next `n` characters (fewer at the end of the text),
    /// none of which is a line terminator.
    fn skip_count_in_place(&mut self, n: usize)
        requires
            old(self).inv(),
            forall|k: int| old(self).pos() <= k < old(self).pos() + n && k < old(self).text().len()
                ==> !spec_is_line_terminator(#[trigger] old(self).text()[k]),
        ensures
            final(self).inv(),
            final(self).pos() == if old(self).pos() + n <= old(self).text().len() { old(self).pos() + n } else { old(self).text().len() as int },
            final(self).line() == old(self).line(),
            final(self).source == old(self).source,
    {
        let mut k: usize = 0;
        while k < n
            invariant
                self.inv(),
                k <= n,
                self.pos() == if old(self).pos() + k <= old(self).text().len() { old(self).pos() + k } else { old(self).text().len() as int },
                self.line() == old(self).line(),
                self.source == old(self).source,
                forall|j: int| old(self).pos() <= j < old(self).pos() + n && j < old(self).text().len()
                    ==> !spec_is_line_terminator(#[trigger] old(self).text()[j]),
            decreases n - k,
        {
            self.next();
            k = k + 1;
        }
    }

    // ----- Locations -----

    /// The location of the next character: from its offset to one past the
    /// offset after it.
    fn current_character_ahead_location(&self) -> (r: Location)
        requires
            self.inv(),
            self.pos() < self.text().len(),
        ensures
            r == Location::with_line_and_offsets_spec(
                self.line() as usize,
                self.offset_of(self.pos()) as usize,
                (self.offset_of(self.pos() + 1) + 1) as usize,
            ),
    {
        proof {
            lemma_byte_offset_step(self.text(), self.index as int);
            lemma_byte_offset_strictly_increasing(self.text(), self.index as int + 1, self.text().len() as int);
            assert(self.text().take(self.text().len() as int) =~= self.text());
        }
        let next = self.offset + char_width(self.source.chars[self.index]);
        Location::with_line_and_offsets(self.current_line_number, self.offset, next + 1)
    }

    fn current_cursor_location(&self) -> (r: Location)
        requires
            self.inv(),
        ensures
            r == Location::with_line_and_offset_spec(self.line() as usize, self.offset_of(self.pos()) as usize),
    {
        Location::with_line_and_offset(self.current_line_number, self.offset)
    }

    /// Records a syntax error for the next character, or for the end of the
    /// program when there is none.
    fn add_unexpected_error(&mut self)
        requires
            old(self).inv(),
        ensures
            final(self).inv(),
            final(self).extends(old(self)),
            final(self).pos() == old(self).pos(),
            final(self).line() == old(self).line(),
            final(self).source.invalidated,
            final(self).source.comments == old(self).source.comments,
            final(self).source.diagnostics@.len() == old(self).source.diagnostics@.len() + 1,
            final(self).source.diagnostics@.drop_last() == old(self).source.diagnostics@,
            is_unexpected_diagnostic(final(self).source.diagnostics@.last(), old(self).text(), old(self).pos()),
    {
        proof { self.lemma_inv(); }
        let d = if self.has_remaining() {
            Diagnostic::new_syntax_error(&self.current_character_ahead_location(), DiagnosticKind::UnexpectedOrInvalidToken, Vec::new())
        } else {
            Diagnostic::new_syntax_error(&self.current_cursor_location(), DiagnosticKind::UnexpectedEnd, Vec::new())
        };
        self.add_diagnostic(d);
        proof { assert(self.source.diagnostics@.drop_last() =~= old(self).source.diagnostics@); }
    }

    pub(crate) fn add_diagnostic(&mut self, d: Diagnostic)
        requires
            old(self).inv(),
        ensures
            final(self).inv(),
            final(self).extends(old(self)),
            final(self).pos() == old(self).pos(),
            final(self).line() == old(self).line(),
            final(self).source.comments == old(self).source.comments,
            final(self).source.diagnostics@ == old(self).source.diagnostics@.push(d),
            !d.is_warning ==> final(self).source.invalidated,
            d.is_warning ==> final(self).source.invalidated == old(self).source.invalidated,
    {
        self.source.add_diagnostic(d);
        proof {
            assert(self.source.diagnostics@.subrange(0, old(self).source.diagnostics@.len() as int)
                =~= old(self).source.diagnostics@);
            assert(self.source.comments@.subrange(0, old(self).source.comments@.len() as int)
                =~= old(self).source.comments@);
            assert(self.source.line_number_offsets@.subrange(0, old(self).source.line_number_offsets@.len() as int)
                =~= old(self).source.line_number_offsets@);
        }
    }

    // ----- Line terminators and comments -----

    /// Consumes a LineTerminator (CR LF counts as one), recording where the
    /// next line starts.
    fn consume_line_terminator(&mut self) -> (r: bool)
        requires
            old(self).inv(),
        ensures
            final(self).inv(),
            final(self).extends(old(self)),
            r == (line_terminator_len(old(self).text(), old(self).pos()) > 0),
            final(self).pos() == old(self).pos() + line_terminator_len(old(self).text(), old(self).pos()),
            final(self).line() == old(self).line() + if r { 1int } else { 0int },
            r ==> final(self).source.line_number_offsets@
                == old(self).source.line_number_offsets@.push(final(self).offset_of(final(self).pos()) as usize),
            !r ==> final(self).source == old(self).source,
            final(self).source.diagnostics == old(self).source.diagnostics,
            final(self).source.comments == old(self).source.comments,
            final(self).source.invalidated == old(self).source.invalidated,
    {
        let ch = self.peek_or_zero();
        let ghost p = self.pos();
        let ghost s = self.text();
        if ch == '\x0D' && self.peek_at_or_zero(1) == '\x0A' {
            self.advance();
            self.advance();
            proof {
                lemma_byte_offset_strictly_increasing(self.text(), p, p + 2);
                assert(!ends_line(s, p));
                assert(ends_line(s, p + 1));
                assert(line_count(s, p + 1) == line_count(s, p));
                assert(line_count(s, p + 2) == line_count(s, p + 1) + 1);
            }
            self.push_line_start();
            return true;
        }
        if is_line_terminator(ch) {
            self.advance();
            proof {
                lemma_byte_offset_strictly_increasing(self.text(), p, p + 1);
                assert(ends_line(s, p));
            }
            self.push_line_start();
            return true;
        }
        proof {
            assert(self.source.diagnostics@.subrange(0, self.source.diagnostics@.len() as int)
                =~= self.source.diagnostics@);
            assert(self.source.comments@.subrange(0, self.source.comments@.len() as int)
                =~= self.source.comments@);
            assert(self.source.line_number_offsets@.subrange(0, self.source.line_number_offsets@.len() as int)
                =~= self.source.line_number_offsets@);
        }
        false
    }

    /// Records that a line starts at the current offset, just past a line
    /// terminator.
    fn push_line_start(&mut self)
        requires
            old(self).basic_inv(),
            old(self).pos() > 0,
            old(self).line() <= old(self).offset_of(old(self).pos()),
        ensures
            final(self).basic_inv(),
            final(self).extends(old(self)),
            final(self).pos() == old(self).pos(),
            final(self).line() == old(self).line() + 1,
            final(self).source.line_number_offsets@
                == old(self).source.line_number_offsets@.push(old(self).offset_of(old(self).pos()) as usize),
            final(self).source.text == old(self).source.text,
            final(self).source.file_path == old(self).source.file_path,
            final(self).source.diagnostics == old(self).source.diagnostics,
            final(self).source.comments == old(self).source.comments,
            final(self).source.invalidated == old(self).source.invalidated,
    {
        let off = self.offset;
        proof {
            lemma_byte_offset_strictly_increasing(self.text(), self.index as int, self.text().len() as int);
            assert(self.text().take(self.text().len() as int) =~= self.text());
        }
        self.source.line_number_offsets.push(off);
        self.current_line_number = self.current_line_number + 1;
        proof {
            lemma_char_index_at(self.text(), self.index as int);
            assert forall|k: int| 0 <= k < self.source.line_number_offsets@.len()
                implies is_boundary(self.text(), #[trigger] self.source.line_number_offsets@[k] as int) by {
                if k < old(self).source.line_number_offsets@.len() {
                    assert(self.source.line_number_offsets@[k] == old(self).source.line_number_offsets@[k]);
                }
            }
            assert(self.source.diagnostics@.subrange(0, old(self).source.diagnostics@.len() as int)
                =~= old(self).source.diagnostics@);
            assert(self.source.comments@.subrange(0, old(self).source.comments@.len() as int)
                =~= old(self).source.comments@);
            assert(self.source.line_number_offsets@.subrange(0, old(self).source.line_number_offsets@.len() as int)
                =~= old(self).source.line_number_offsets@);
        }
    }
    /// The characters between two indices, as a string.
    fn text_slice(&self, a: usize, b: usize) -> (r: String)
        requires
            self.inv(),
            a <= b <= self.text().len(),
        ensures
            r@ == self.text().subrange(a as int, b as int),
    {
        let mut v: Vec<char> = Vec::new();
        let mut i = a;
        while i < b
            invariant
                self.inv(),
                a <= i <= b <= self.text().len(),
                v@ == self.text().subrange(a as int, i as int),
            decreases b - i,
        {
            v.push(self.source.chars[i]);
            i = i + 1;
            assert(v@ =~= self.text().subrange(a as int, i as int));
        }
        string_from_chars(&v)
    }

    /// Records a comment that spans the characters from `a` to the current
    /// position.
    fn push_comment(&mut self, multiline: bool, a: usize, first_line: usize)
        requires
            old(self).inv(),
            a + 2 <= old(self).pos(),
            char_at(old(self).text(), a as int) == '/',
            multiline ==> char_at(old(self).text(), a + 1) == '*' && a + 4 <= old(self).pos()
                && char_at(old(self).text(), old(self).pos() - 2) == '*'
                && char_at(old(self).text(), old(self).pos() - 1) == '/',
            !multiline ==> char_at(old(self).text(), a + 1) == '/',
        ensures
            final(self).inv(),
            final(self).extends(old(self)),
            final(self).pos() == old(self).pos(),
            final(self).line() == old(self).line(),
            final(self).source.diagnostics == old(self).source.diagnostics,
            final(self).source.line_number_offsets == old(self).source.line_number_offsets,
            final(self).source.invalidated == old(self).source.invalidated,
            final(self).source.comments@ == old(self).source.comments@.push(Comment {
                multiline,
                content: final(self).source.comments@.last().content,
                location: Location {
                    first_line_number: first_line,
                    last_line_number: old(self).line() as usize,
                    first_offset: old(self).offset_of(a as int) as usize,
                    last_offset: old(self).offset_of(old(self).pos()) as usize,
                },
            }),
            final(self).source.comments@.last().content@ == if multiline {
                old(self).text().subrange(a + 2, old(self).pos() - 2)
            } else {
                old(self).text().subrange(a + 2, old(self).pos())
            },
    {
        let end = if multiline { self.index - 2 } else { self.index };
        let content = self.text_slice(a + 2, end);
        let first_offset = self.offset_of_index(a);
        let location = Location::with_lines_and_offsets(first_line, self.current_line_number, first_offset, self.offset);
        let c = Comment::new(multiline, content, location);
        self.source.comments.push(c);
        proof {
            let s = self.text();
            assert(0 <= a && a + 2 <= self.pos() <= s.len()
                && byte_offset(s, a as int) == c.location.first_offset
                && byte_offset(s, self.pos()) == c.location.last_offset);
            assert(comment_matches_text(c, s));
            assert forall|k: int| self.first_scanned_comment <= k < self.source.comments@.len()
                implies comment_matches_text(#[trigger] self.source.comments@[k], self.text()) by {
                if k < old(self).source.comments@.len() {
                    assert(self.source.comments@[k] == old(self).source.comments@[k]);
                }
            }
            assert(self.source.diagnostics@.subrange(0, old(self).source.diagnostics@.len() as int)
                =~= old(self).source.diagnostics@);
            assert(self.source.comments@.subrange(0, old(self).source.comments@.len() as int)
                =~= old(self).source.comments@);
            assert(self.source.line_number_offsets@.subrange(0, old(self).source.line_number_offsets@.len() as int)
                =~= old(self).source.line_number_offsets@);
        }
    }

    /// The UTF-8 offset of a character index at or before the position.
    fn offset_of_index(&self, a: usize) -> (r: usize)
        requires
            self.inv(),
            a <= self.pos(),
        ensures
            r == self.offset_of(a as int),
    {
        proof {
            lemma_byte_offset_strictly_increasing(self.text(), a as int, self.index as int);
        }
        let mut i: usize = self.index;
        let mut off: usize = self.offset;
        while i > a
            invariant
                self.inv(),
                a <= i <= self.pos(),
                off == byte_offset(self.text(), i as int),
            decreases i,
        {
            proof {
                lemma_byte_offset_step(self.text(), i - 1);
            }
            off = off - char_width(self.source.chars[i - 1]);
            i = i - 1;
        }
        off
    }

    /// Consumes a comment, if one starts here. A multi-line comment that is
    /// never closed is a syntax error.
    #[verifier::spinoff_prover]
    #[verifier::rlimit(40)]
    fn consume_comment(&mut self) -> (r: Result<bool, ParserFailure>)
        requires
            old(self).inv(),
        ensures
            final(self).inv(),
            final(self).extends(old(self)),
            ({
                let s = old(self).text();
                let p = old(self).pos();
                if char_at(s, p) == '/' && char_at(s, p + 1) == '/' {
                    let q = line_end_from(s, p + 2);
                    &&& r == Ok::<bool, ParserFailure>(true)
                    &&& final(self).pos() == q + line_terminator_len(s, q)
                    &&& final(self).source.comments@.len() == old(self).source.comments@.len() + 1
                    &&& final(self).source.comments@.last().content@ == s.subrange(p + 2, q)
                    &&& !final(self).source.comments@.last().multiline
                    &&& final(self).source.comments@.last().location.first_offset == old(self).offset_of(p)
                    &&& final(self).source.comments@.last().location.last_offset == old(self).offset_of(q)
                    &&& final(self).source.diagnostics == old(self).source.diagnostics
                    &&& final(self).source.invalidated == old(self).source.invalidated
                } else if char_at(s, p) == '/' && char_at(s, p + 1) == '*' {
                    match comment_close_from(s, p + 2) {
                        Some(c) => {
                            &&& r == Ok::<bool, ParserFailure>(true)
                            &&& final(self).pos() == c + 2
                            &&& final(self).source.comments@.len() == old(self).source.comments@.len() + 1
                            &&& final(self).source.comments@.last().content@ == s.subrange(p + 2, c)
                            &&& final(self).source.comments@.last().multiline
                            &&& final(self).source.comments@.last().location.first_offset == old(self).offset_of(p)
                            &&& final(self).source.comments@.last().location.last_offset == old(self).offset_of(c + 2)
                            &&& final(self).source.diagnostics == old(self).source.diagnostics
                            &&& final(self).source.invalidated == old(self).source.invalidated
                        },
                        None => {
                            &&& r is Err
                            &&& final(self).source.invalidated
                        },
                    }
                } else {
                    &&& r == Ok::<bool, ParserFailure>(false)
                    &&& *final(self) == *old(self)
                }
            }),
    {
        let ch = self.peek_or_zero();
        proof { lemma_extends_same_source(old(self), self); }
        if ch != '/' {
            return Ok(false);
        }
        let ch2 = self.peek_at_or_zero(1);
        let ghost s = self.text();
        let ghost p = self.pos();
        if ch2 == '/' {
            let a = self.index;
            let first_line = self.current_line_number;
            self.skip_count_in_place(2);
            proof { lemma_line_end_from(s, p + 2); }
            while !is_line_terminator(self.peek_or_zero()) && self.has_remaining()
                invariant
                    self.inv(),
                    self.text() == s,
                    p + 2 <= self.pos() <= line_end_from(s, p + 2),
                    line_end_from(s, p + 2) == line_end_from(s, self.pos()),
                    self.line() == old(self).line(),
                    self.source == old(self).source,
                    a == p,
                    first_line == old(self).line(),
                decreases s.len() - self.pos(),
            {
                proof { lemma_line_end_from(s, self.pos() + 1); }
                self.next();
            }
            proof { lemma_line_end_from(s, self.pos()); }
            let ghost q = self.pos();
            self.push_comment(false, a, first_line);
            let ghost mid = *self;
            self.consume_line_terminator();
            proof {
                assert(self.source.comments@ == mid.source.comments@);
                assert(self.source.diagnostics@.subrange(0, old(self).source.diagnostics@.len() as int)
                    =~= old(self).source.diagnostics@);
                assert(self.source.comments@.subrange(0, old(self).source.comments@.len() as int)
                    =~= old(self).source.comments@);
                assert(self.source.line_number_offsets@.subrange(0, old(self).source.line_number_offsets@.len() as int)
                    =~= old(self).source.line_number_offsets@);
            }
            return Ok(true);
        }
        if ch2 == '*' {
            let a = self.index;
            let first_line = self.current_line_number;
            self.skip_count_in_place(2);
            proof { lemma_extends_same_source(old(self), self); }
            loop
                invariant_except_break
                    self.inv(),
                    self.extends(old(self)),
                    self.text() == s,
                    p + 2 <= self.pos() <= s.len(),
                    comment_close_from(s, p + 2) == comment_close_from(s, self.pos()),
                    p == old(self).pos(),
                    s == old(self).text(),
                    char_at(s, p) == '/' && char_at(s, p + 1) == '*',
                    self.source.diagnostics == old(self).source.diagnostics,
                    self.source.invalidated == old(self).source.invalidated,
                    self.source.comments == old(self).source.comments,
                    a == p,
                    first_line == old(self).line(),
                ensures
                    self.inv(),
                    self.extends(old(self)),
                    self.text() == s,
                    comment_close_from(s, p + 2) == Some(self.pos() - 2),
                    p + 4 <= self.pos(),
                    p == old(self).pos(),
                    s == old(self).text(),
                    char_at(s, p) == '/' && char_at(s, p + 1) == '*',
                    self.source.diagnostics == old(self).source.diagnostics,
                    self.source.invalidated == old(self).source.invalidated,
                    self.source.comments == old(self).source.comments,
                    a == p,
                    first_line == old(self).line(),
                decreases s.len() - self.pos(),
            {
                let ghost before = *self;
                if self.peek_or_zero() == '*' && self.peek_at_or_zero(1) == '/' {
                    self.skip_count_in_place(2);
                    proof { lemma_extends_same_source(&before, self); lemma_extends_trans(old(self), &before, self); }
                    break;
                } else if self.consume_line_terminator() {
                    // Consumed LineTerminator
                    proof {
                        assert(self.source.line_number_offsets@.subrange(0, old(self).source.line_number_offsets@.len() as int)
                            =~= old(self).source.line_number_offsets@) by {
                            assert(self.source.line_number_offsets@.subrange(0, before.source.line_number_offsets@.len() as int)
                                =~= before.source.line_number_offsets@);
                        }
                        assert(self.source.diagnostics@.subrange(0, old(self).source.diagnostics@.len() as int)
                            =~= old(self).source.diagnostics@);
                        assert(self.source.comments@.subrange(0, old(self).source.comments@.len() as int)
                            =~= old(self).source.comments@);
                        let bp = before.pos();
                        if line_terminator_len(s, bp) == 2 {
                            assert(comment_close_from(s, bp + 1) == comment_close_from(s, bp + 2));
                        }
                    }
                } else if self.has_remaining() {
                    self.next();
                    proof { lemma_extends_same_source(&before, self); lemma_extends_trans(old(self), &before, self); }
                } else {
                    proof {
                        assert(comment_close_from(s, self.pos()) is None);
                    }
                    self.add_unexpected_error();
                    proof {
                        lemma_extends_trans(old(self), &before, self);
                        assert(s == old(self).text());
                        assert(p == old(self).pos());
                        assert(char_at(s, p) == '/');
                        assert(char_at(s, p + 1) == '*');
                        assert(comment_close_from(s, p + 2) is None);
                    }
                    return Err(ParserFailure);
                }
            }
            proof { lemma_comment_close_from(s, p + 2); }
            self.push_comment(true, a, first_line);
            return Ok(true);
        }
        Ok(false)
    }

    /// The punctuator that starts at the current position, with its length.
    fn punctuator_here(&self) -> (r: Option<(Token, usize)>)
        requires
            self.inv(),
        ensures
            match punctuator_at(self.text(), self.pos()) {
                Some((t, n)) => r == Some((t, n as usize)),
                None => r is None,
            },
    {
        let c0 = self.peek_or_zero();
        if c0 == ',' {
            Some((Token::Comma, 1))
        } else if c0 == '(' {
            Some((Token::LeftParen, 1))
        } else if c0 == ')' {
            Some((Token::RightParen, 1))
        } else if c0 == '[' {
            Some((Token::LeftBracket, 1))
        } else if c0 == ']' {
            Some((Token::RightBracket, 1))
        } else if c0 == '{' {
            Some((Token::LeftBrace, 1))
        } else if c0 == '}' {
            Some((Token::RightBrace, 1))
        } else if c0 == ':' {
            if self.peek_at_or_zero(1) == ':' { Some((Token::ColonColon, 2)) }
            else { Some((Token::Colon, 1)) }
        } else if c0 == '=' {
            if self.peek_at_or_zero(1) == '>' { Some((Token::FatArrow, 2)) }
            else if self.peek_at_or_zero(1) == '=' && self.peek_at_or_zero(2) == '=' { Some((Token::StrictEquals, 3)) }
            else if self.peek_at_or_zero(1) == '=' { Some((Token::Equals, 2)) }
            else { Some((Token::Assign, 1)) }
        } else if c0 == '!' {
            if self.peek_at_or_zero(1) == '=' && self.peek_at_or_zero(2) == '=' { Some((Token::StrictNotEquals, 3)) }
            else if self.peek_at_or_zero(1) == '=' { Some((Token::NotEquals, 2)) }
            else { Some((Token::Exclamation, 1)) }
        } else if c0 == '?' {
            if self.peek_at_or_zero(1) == '.' { Some((Token::OptionalChaining, 2)) }
            else if self.peek_at_or_zero(1) == '?' && self.peek_at_or_zero(2) == '=' { Some((Token::NullCoalescingAssign, 3)) }
            else if self.peek_at_or_zero(1) == '?' { Some((Token::NullCoalescing, 2)) }
            else { Some((Token::Question, 1)) }
        } else if c0 == ';' {
            Some((Token::Semicolon, 1))
        } else if c0 == '<' {
            if self.peek_at_or_zero(1) == '=' { Some((Token::Le, 2)) }
            else if self.peek_at_or_zero(1) == '<' && self.peek_at_or_zero(2) == '=' { Some((Token::LeftShiftAssign, 3)) }
            else if self.peek_at_or_zero(1) == '<' { Some((Token::LeftShift, 2)) }
            else { Some((Token::Lt, 1)) }
        } else if c0 == '>' {
            if self.peek_at_or_zero(1) == '=' { Some((Token::Ge, 2)) }
            else if self.peek_at_or_zero(1) == '>' && self.peek_at_or_zero(2) == '=' { Some((Token::RightShiftAssign, 3)) }
            else if self.peek_at_or_zero(1) == '>' && self.peek_at_or_zero(2) == '>' && self.peek_at_or_zero(3) == '=' { Some((Token::UnsignedRightShiftAssign, 4)) }
            else if self.peek_at_or_zero(1) == '>' && self.peek_at_or_zero(2) == '>' { Some((Token::UnsignedRightShift, 3)) }
            else if self.peek_at_or_zero(1) == '>' { Some((Token::RightShift, 2)) }
            else { Some((Token::Gt, 1)) }
        } else if c0 == '@' {
            Some((Token::Attribute, 1))
        } else if c0 == '+' {
            if self.peek_at_or_zero(1) == '+' { Some((Token::Increment, 2)) }
            else if self.peek_at_or_zero(1) == '=' { Some((Token::AddAssign, 2)) }
            else { Some((Token::Plus, 1)) }
        } else if c0 == '-' {
            if self.peek_at_or_zero(1) == '-' { Some((Token::Decrement, 2)) }
            else if self.peek_at_or_zero(1) == '=' { Some((Token::SubtractAssign, 2)) }
            else { Some((Token::Minus, 1)) }
        } else if c0 == '*' {
            if self.peek_at_or_zero(1) == '*' && self.peek_at_or_zero(2) == '=' { Some((Token::PowerAssign, 3)) }
            else if self.peek_at_or_zero(1) == '*' { Some((Token::Power, 2)) }
            else if self.peek_at_or_zero(1) == '=' { Some((Token::MultiplyAssign, 2)) }
            else { Some((Token::Times, 1)) }
        } else if c0 == '/' {
            if self.peek_at_or_zero(1) == '=' { Some((Token::DivideAssign, 2)) }
            else { Some((Token::Div, 1)) }
        } else if c0 == '%' {
            if self.peek_at_or_zero(1) == '=' { Some((Token::RemainderAssign, 2)) }
            else { Some((Token::Remainder, 1)) }
        } else if c0 == '&' {
            if self.peek_at_or_zero(1) == '&' && self.peek_at_or_zero(2) == '=' { Some((Token::LogicalAndAssign, 3)) }
            else if self.peek_at_or_zero(1) == '&' { Some((Token::LogicalAnd, 2)) }
            else if self.peek_at_or_zero(1) == '=' { Some((Token::BitwiseAndAssign, 2)) }
            else { Some((Token::BitwiseAnd, 1)) }
        } else if c0 == '^' {
            if self.peek_at_or_zero(1) == '^' && self.peek_at_or_zero(2) == '=' { Some((Token::LogicalXorAssign, 3)) }
            else if self.peek_at_or_zero(1) == '^' { Some((Token::LogicalXor, 2)) }
            else if self.peek_at_or_zero(1) == '=' { Some((Token::BitwiseXorAssign, 2)) }
            else { Some((Token::BitwiseXor, 1)) }
        } else if c0 == '|' {
            if self.peek_at_or_zero(1) == '|' && self.peek_at_or_zero(2) == '=' { Some((Token::LogicalOrAssign, 3)) }
            else if self.peek_at_or_zero(1) == '|' { Some((Token::LogicalOr, 2)) }
            else if self.peek_at_or_zero(1) == '=' { Some((Token::BitwiseOrAssign, 2)) }
            else { Some((Token::BitwiseOr, 1)) }
        } else if c0 == '~' {
            Some((Token::BitwiseNot, 1))
        } else {
            None
        }
    }


    /// Skips whitespace, line terminators and comments.
    fn skip_trivia(&mut self) -> (r: Result<(), ParserFailure>)
        requires
            old(self).inv(),
        ensures
            final(self).inv(),
            final(self).extends(old(self)),
            match trivia_end(old(self).text(), old(self).pos()) {
                Some(q) => r is Ok && final(self).pos() == q
                    && comment_views(final(self).source.comments@.skip(old(self).source.comments@.len() as int))
                        == trivia_comments(old(self).text(), old(self).pos())
                    && final(self).source.diagnostics == old(self).source.diagnostics
                    && final(self).source.invalidated == old(self).source.invalidated,
                None => r is Err && final(self).source.invalidated,
            },
    {
        let ghost s = self.text();
        let ghost n0 = self.source.comments@.len();
        proof {
            lemma_extends_same_source(old(self), self);
            assert(comment_views(self.source.comments@.skip(n0 as int)) =~= Seq::<(bool, Seq<char>)>::empty());
        }
        loop
            invariant_except_break
                self.inv(),
                self.extends(old(self)),
                s == old(self).text(),
                self.text() == s,
                n0 == old(self).source.comments@.len(),
                trivia_end(s, old(self).pos()) == trivia_end(s, self.pos()),
                comment_views(self.source.comments@.skip(n0 as int)) + trivia_comments(s, self.pos())
                    == trivia_comments(s, old(self).pos()),
                self.source.diagnostics == old(self).source.diagnostics,
                self.source.invalidated == old(self).source.invalidated,
            ensures
                self.inv(),
                self.extends(old(self)),
                self.text() == s,
                trivia_end(s, old(self).pos()) == Some(self.pos()),
                comment_views(self.source.comments@.skip(n0 as int)) == trivia_comments(s, old(self).pos()),
                self.source.diagnostics == old(self).source.diagnostics,
                self.source.invalidated == old(self).source.invalidated,
            decreases s.len() - self.pos(),
        {
            let ghost before = *self;
            let ch = self.peek_or_zero();
            if is_whitespace(ch) {
                self.next();
                proof { lemma_extends_same_source(&before, self); lemma_extends_trans(old(self), &before, self); }
            } else if self.consume_line_terminator() {
                proof { lemma_extends_trans(old(self), &before, self); }
            } else {
                match self.consume_comment() {
                    Ok(true) => {
                        proof {
                            lemma_extends_trans(old(self), &before, self);
                            let bp = before.pos();
                            if char_at(s, bp) == '/' && char_at(s, bp + 1) == '/' {
                                lemma_line_end_from(s, bp + 2);
                            } else {
                                lemma_comment_close_from(s, bp + 2);
                            }
                            let cs = self.source.comments@;
                            let bcs = before.source.comments@;
                            assert(cs.subrange(0, bcs.len() as int) == bcs);
                            assert(cs.skip(n0 as int) =~= bcs.skip(n0 as int).push(cs.last()));
                            let a = comment_views(bcs.skip(n0 as int));
                            assert(comment_views(cs.skip(n0 as int)) =~= a.push(comment_view(cs.last())));
                            assert(a.push(comment_view(cs.last())) + trivia_comments(s, self.pos())
                                =~= a + (seq![comment_view(cs.last())] + trivia_comments(s, self.pos())));
                        }
                    },
                    Ok(false) => {
                        proof { assert(comment_views(self.source.comments@.skip(n0 as int)) + Seq::empty() =~= comment_views(self.source.comments@.skip(n0 as int))); }
                        break;
                    },
                    Err(e) => {
                        proof { lemma_extends_trans(old(self), &before, self); }
                        return Err(e);
                    },
                }
            }
        }
        Ok(())
    }

    /// Scans for an InputElementDiv token, after whitespace, line terminators
    /// and comments. With `reserved_words` off, every reserved word is taken
    /// as an identifier. At the end of the text the token is `Eof`; a
    /// character that starts no token is an error.
    #[verifier::spinoff_prover]
    #[verifier::rlimit(40)]
    pub fn scan_ie_div(&mut self, reserved_words: bool) -> (r: Result<(Token, Location), ParserFailure>)
        requires
            old(self).inv(),
        ensures
            final(self).inv(),
            final(self).extends(old(self)),
            match trivia_end(old(self).text(), old(self).pos()) {
                None => r is Err && final(self).source.invalidated,
                Some(q) => ie_div_outcome(old(self).text(), q, final(self), r, reserved_words)
                    && (r matches Ok((_, loc)) ==> loc.first_line_number == 1 + line_count(old(self).text(), q))
                    && comment_views(final(self).source.comments@.skip(old(self).source.comments@.len() as int))
                        == trivia_comments(old(self).text(), old(self).pos())
                    && (token_scan_quiet(old(self).text(), q) ==>
                        final(self).source.diagnostics == old(self).source.diagnostics
                        && final(self).source.invalidated == old(self).source.invalidated)
                    && (starts_no_token(old(self).text(), q) ==>
                        final(self).source.diagnostics@ == old(self).source.diagnostics@.push(final(self).source.diagnostics@.last())
                        && is_unexpected_diagnostic(final(self).source.diagnostics@.last(), old(self).text(), q)),
            },
    {
        let ghost s = self.text();
        let t = self.skip_trivia();
        if t.is_err() {
            return Err(ParserFailure);
        }
        let ghost mid = *self;
        let ghost q = self.pos();
        match self.scan_identifier(reserved_words) {
            Err(e) => {
                proof { lemma_extends_trans(old(self), &mid, self); }
                return Err(e);
            },
            Ok(Some(result)) => {
                proof { lemma_extends_trans(old(self), &mid, self); }
                return Ok(result);
            },
            Ok(None) => {},
        }
        match self.scan_dot_or_numeric_literal() {
            Err(e) => {
                proof { lemma_extends_trans(old(self), &mid, self); }
                return Err(e);
            },
            Ok(Some(result)) => {
                proof { lemma_extends_trans(old(self), &mid, self); }
                return Ok(result);
            },
            Ok(None) => {},
        }
        match self.scan_string_literal() {
            Err(e) => {
                proof { lemma_extends_trans(old(self), &mid, self); }
                return Err(e);
            },
            Ok(Some(result)) => {
                proof { lemma_extends_trans(old(self), &mid, self); }
                return Ok(result);
            },
            Ok(None) => {},
        }
        let start = self.current_cursor_location();
        if let Some((token, n)) = self.punctuator_here() {
            self.skip_count_in_place(n);
            proof {
                lemma_punctuator_length(s, q);
                lemma_extends_same_source(&mid, self);
                lemma_extends_trans(old(self), &mid, self);
            }
            let location = start.combine_with(self.current_cursor_location());
            return Ok((token, location));
        }
        if self.has_remaining() {
            self.add_unexpected_error();
            proof { lemma_extends_trans(old(self), &mid, self); }
            return Err(ParserFailure);
        }
        Ok((Token::Eof, start))
    }

    /// Scans a regular expression after a `/` or `/=` token has been scanned
    /// by `scan_ie_div`, `start` being that token's location.
    #[verifier::spinoff_prover]
    #[verifier::rlimit(40)]
    pub fn scan_regexp_literal(&mut self, start: Location) -> (r: Result<(Token, Location), ParserFailure>)
        requires
            old(self).inv(),
        ensures
            final(self).inv(),
            final(self).extends(old(self)),
            final(self).source.comments == old(self).source.comments,
            regexp_body(old(self).text(), old(self).pos()) is None ==>
                final(self).source.diagnostics@.len() == old(self).source.diagnostics@.len()
                    + regexp_escaped_breaks(old(self).text(), old(self).pos()) + 1
                && is_unexpected_diagnostic(final(self).source.diagnostics@.last(), old(self).text(), old(self).text().len() as int),
            match regexp_at(old(self).text(), old(self).pos()) {
                None => r is Err && final(self).source.invalidated,
                Some((body, flags, e, f)) => {
                    &&& r matches Ok((Token::RegExpLiteral { body: b, flags: fl }, loc))
                        && b@ == body && fl@ == flags
                        && loc == Location::combine_with_spec(start, final(self).cursor())
                    &&& final(self).pos() == e
                    &&& f ==> final(self).source.invalidated
                    &&& !f ==> final(self).source.diagnostics == old(self).source.diagnostics
                        && final(self).source.invalidated == old(self).source.invalidated
                },
            },
    {
        let ghost s = self.text();
        let ghost p = self.pos();
        let mut body: Vec<char> = Vec::new();
        let ghost mut flag = false;
        proof { lemma_extends_same_source(old(self), self); }
        loop
            invariant_except_break
                self.inv(),
                self.extends(old(self)),
                self.text() == s,
                s == old(self).text(),
                p == old(self).pos(),
                p <= self.pos() <= s.len(),
                self.source.comments == old(self).source.comments,
                flag ==> self.source.invalidated,
                !flag ==> self.source.diagnostics == old(self).source.diagnostics
                    && self.source.invalidated == old(self).source.invalidated,
                regexp_body(s, p) == match regexp_body(s, self.pos()) {
                    Some((rest, e, f)) => Some((body@ + rest, e, flag || f)),
                    None => None,
                },
                self.source.diagnostics@.len() + regexp_escaped_breaks(s, self.pos())
                    == old(self).source.diagnostics@.len() + regexp_escaped_breaks(s, p),
            ensures
                self.inv(),
                self.extends(old(self)),
                self.text() == s,
                p <= self.pos() <= s.len(),
                self.source.comments == old(self).source.comments,
                flag ==> self.source.invalidated,
                !flag ==> self.source.diagnostics == old(self).source.diagnostics
                    && self.source.invalidated == old(self).source.invalidated,
                regexp_body(s, p) == Some((body@, self.pos(), flag)),
            decreases s.len() - self.pos(),
        {
            let ghost before = *self;
            let ghost bp = self.pos();
            let ch = self.peek_or_zero();
            if ch == '/' {
                self.next();
                proof {
                    lemma_extends_same_source(&before, self);
                    lemma_extends_trans(old(self), &before, self);
                    assert(body@ + Seq::<char>::empty() =~= body@);
                }
                break;
            } else if ch == '\\' {
                self.next();
                body.push('\\');
                let ch = self.peek_or_zero();
                let ghost m = *self;
                proof { lemma_extends_same_source(&before, &m); }
                if self.reached_end() {
                    self.add_unexpected_error();
                    proof {
                        lemma_extends_trans(&before, &m, self);
                        lemma_extends_trans(old(self), &before, self);
                    }
                    return Err(ParserFailure);
                }
                if is_line_terminator(ch) {
                    self.add_unexpected_error();
                    proof { flag = true; }
                }
                let ghost m2 = *self;
                self.consume_line_terminator();
                body.push(ch);
                proof {
                    lemma_extends_trans(&m, &m2, self);
                    lemma_extends_trans(&before, &m, self);
                    lemma_extends_trans(old(self), &before, self);
                    match regexp_body(s, self.pos()) {
                        Some((rest, e, f)) => {
                            assert(body@.drop_last().drop_last() + (seq!['\\', ch] + rest) =~= body@ + rest);
                        },
                        None => {},
                    }
                }
            } else if is_line_terminator(ch) {
                body.push('\n');
                self.consume_line_terminator();
                proof {
                    lemma_extends_trans(old(self), &before, self);
                    match regexp_body(s, self.pos()) {
                        Some((rest, e, f)) => {
                            assert(body@.drop_last() + (seq!['\n'] + rest) =~= body@ + rest);
                        },
                        None => {},
                    }
                }
            } else if self.reached_end() {
                self.add_unexpected_error();
                proof { lemma_extends_trans(old(self), &before, self); }
                return Err(ParserFailure);
            } else {
                body.push(ch);
                self.next();
                proof {
                    lemma_extends_same_source(&before, self);
                    lemma_extends_trans(old(self), &before, self);
                    match regexp_body(s, self.pos()) {
                        Some((rest, e, f)) => {
                            assert(body@.drop_last() + (seq![ch] + rest) =~= body@ + rest);
                        },
                        None => {},
                    }
                }
            }
        }

        let ghost k0 = self.pos();
        let ghost after_body = *self;
        let mut flags: Vec<char> = Vec::new();
        proof { lemma_extends_same_source(&after_body, self); }
        loop
            invariant_except_break
                self.inv(),
                self.extends(old(self)),
                self.extends(&after_body),
                self.text() == s,
                s == old(self).text(),
                p == old(self).pos(),
                regexp_body(s, p) == Some((body@, k0, flag)),
                flag ==> self.source.invalidated,
                !flag ==> self.source.diagnostics == old(self).source.diagnostics
                    && self.source.invalidated == old(self).source.invalidated,
                k0 <= self.pos() <= s.len(),
                self.source == after_body.source,
                after_body.source.comments == old(self).source.comments,
                identifier_parts_at(s, k0) matches Some((all, e_all, k)) ==> ({
                    &&& identifier_parts_at(s, self.pos()) matches Some((rest, e_rest, k2))
                    &&& k2 == k
                    &&& all == flags@ + rest
                }),
                identifier_parts_at(s, k0) is None ==> identifier_parts_at(s, self.pos()) is None,
            ensures
                self.inv(),
                self.extends(old(self)),
                self.text() == s,
                self.source == after_body.source,
                regexp_body(s, p) == Some((body@, k0, flag)),
                flag ==> self.source.invalidated,
                !flag ==> self.source.diagnostics == old(self).source.diagnostics
                    && self.source.invalidated == old(self).source.invalidated,
                identifier_parts_at(s, k0) matches Some((all, e_all, k)) && all == flags@ && k == self.pos(),
            decreases s.len() - self.pos(),
        {
            let ghost before = *self;
            proof { lemma_identifier_char_at(s, self.pos(), false); }
            match self.consume_identifier_part() {
                Err(e) => {
                    proof {
                        lemma_extends_trans(old(self), &before, self);
                        assert(regexp_at(s, p) is None);
                    }
                    return Err(e);
                },
                Ok(None) => {
                    proof {
                        assert(identifier_parts_at(s, before.pos()) == Some((Seq::<char>::empty(), false, before.pos())));
                        assert(flags@ + Seq::<char>::empty() =~= flags@);
                    }
                    break;
                },
                Ok(Some((c, _))) => {
                    proof {
                        lemma_extends_trans(old(self), &before, self);
                        lemma_extends_trans(&after_body, &before, self);
                        let bp = before.pos();
                        match identifier_parts_at(s, self.pos()) {
                            Some((rest, e2, k)) => {
                                assert(flags@.push(c) + rest =~= flags@ + (seq![c] + rest));
                            },
                            None => {},
                        }
                    }
                    flags.push(c);
                },
            }
        }
        let location = start.combine_with(self.current_cursor_location());
        Ok((Token::RegExpLiteral { body: string_from_chars(&body), flags: string_from_chars(&flags) }, location))
    }

    /// Scans for an InputElementXMLTag token.
    #[verifier::spinoff_prover]
    #[verifier::rlimit(40)]
    pub fn scan_ie_xml_tag(&mut self) -> (r: Result<(Token, Location), ParserFailure>)
        requires
            old(self).inv(),
        ensures
            final(self).inv(),
            final(self).extends(old(self)),
            final(self).source.comments == old(self).source.comments,
            xml_tag_outcome(old(self).text(), old(self).pos(), final(self), r, final(self).span_from(old(self))),
            r is Ok ==> final(self).source.diagnostics == old(self).source.diagnostics,
    {
        let ghost s = self.text();
        let ghost p = self.pos();
        let start = self.current_cursor_location();
        let first = self.index;
        let ch = self.peek_or_zero();
        proof { lemma_extends_same_source(old(self), self); }

        // XmlName
        if is_xml_name_start(ch) {
            self.next();
            proof { lemma_xml_name_end(s, p + 1); }
            while is_xml_name_part(self.peek_or_zero())
                invariant
                    self.inv(),
                    self.text() == s,
                    self.source == old(self).source,
                    self.line() == old(self).line(),
                    p + 1 <= self.pos() <= xml_name_end(s, p + 1),
                    xml_name_end(s, p + 1) == xml_name_end(s, self.pos()),
                decreases s.len() - self.pos(),
            {
                proof { lemma_xml_name_end(s, self.pos() + 1); }
                self.next();
            }
            proof { lemma_extends_same_source(old(self), self); }
            let location = start.combine_with(self.current_cursor_location());
            let name = self.text_slice(first, self.index);
            return Ok((Token::XmlName(name), location));
        }

        // XmlWhitespace
        if is_xml_whitespace(ch) {
            while is_xml_whitespace(self.peek_or_zero())
                invariant
                    self.inv(),
                    self.extends(old(self)),
                    self.text() == s,
                    s == old(self).text(),
                    p <= self.pos() <= s.len(),
                    self.source.diagnostics == old(self).source.diagnostics,
                    self.source.comments == old(self).source.comments,
                    xml_whitespace_end(s, p) == xml_whitespace_end(s, self.pos()),
                decreases s.len() - self.pos(),
            {
                let ghost before = *self;
                if !self.consume_line_terminator() {
                    self.next();
                    proof { lemma_extends_same_source(&before, self); }
                }
                proof { lemma_extends_trans(old(self), &before, self); }
            }
            let location = start.combine_with(self.current_cursor_location());
            return Ok((Token::XmlWhitespace, location));
        }

        if ch == '=' {
            self.next();
            proof { lemma_extends_same_source(old(self), self); }
            let location = start.combine_with(self.current_cursor_location());
            return Ok((Token::Assign, location));
        }
        if ch == '>' {
            self.next();
            proof { lemma_extends_same_source(old(self), self); }
            let location = start.combine_with(self.current_cursor_location());
            return Ok((Token::Gt, location));
        }
        if ch == '/' {
            self.next();
            if self.peek_or_zero() != '>' {
                let ghost m = *self;
                proof { lemma_extends_same_source(old(self), &m); }
                self.add_unexpected_error();
                proof { lemma_extends_trans(old(self), &m, self); }
                return Err(ParserFailure);
            }
            self.next();
            proof { lemma_extends_same_source(old(self), self); }
            let location = start.combine_with(self.current_cursor_location());
            return Ok((Token::XmlSlashGt, location));
        }
        if ch == '"' || ch == '\'' {
            let delim = ch;
            self.next();
            let first = self.index;
            proof { lemma_extends_same_source(old(self), self); }
            while self.peek_or_zero() != delim && self.has_remaining()
                invariant
                    self.inv(),
                    self.extends(old(self)),
                    self.text() == s,
                    s == old(self).text(),
                    p + 1 <= self.pos() <= s.len(),
                    first == p + 1,
                    delim == char_at(s, p),
                    delim == '"' || delim == '\'',
                    self.source.diagnostics == old(self).source.diagnostics,
                    self.source.comments == old(self).source.comments,
                    xml_attribute_end(s, p + 1, delim) == xml_attribute_end(s, self.pos(), delim),
                    start == old(self).cursor(),
                decreases s.len() - self.pos(),
            {
                let ghost before = *self;
                if !self.consume_line_terminator() {
                    self.next();
                    proof { lemma_extends_same_source(&before, self); }
                }
                proof { lemma_extends_trans(old(self), &before, self); }
            }
            if self.reached_end() {
                let ghost m = *self;
                self.add_unexpected_error();
                proof { lemma_extends_trans(old(self), &m, self); }
                return Err(ParserFailure);
            }
            let value = self.text_slice(first, self.index);
            let ghost m = *self;
            self.next();
            proof {
                lemma_extends_same_source(&m, self);
                lemma_extends_trans(old(self), &m, self);
            }
            let location = start.combine_with(self.current_cursor_location());
            return Ok((Token::XmlAttributeValue(value), location));
        }
        if ch == '{' {
            self.next();
            proof { lemma_extends_same_source(old(self), self); }
            let location = start.combine_with(self.current_cursor_location());
            return Ok((Token::LeftBrace, location));
        }
        self.add_unexpected_error();
        Err(ParserFailure)
    }

    /// Scans for an InputElementXMLContent token.
    #[verifier::spinoff_prover]
    #[verifier::rlimit(40)]
    pub fn scan_ie_xml_content(&mut self) -> (r: Result<(Token, Location), ParserFailure>)
        requires
            old(self).inv(),
        ensures
            final(self).inv(),
            final(self).extends(old(self)),
            final(self).source.comments == old(self).source.comments,
            xml_content_outcome(old(self).text(), old(self).pos(), final(self), r, final(self).span_from(old(self))),
            r is Ok ==> final(self).source.diagnostics == old(self).source.diagnostics,
    {
        let ghost s = self.text();
        let ghost p = self.pos();
        let start = self.current_cursor_location();
        let first = self.index;
        let ch = self.peek_or_zero();
        proof { lemma_extends_same_source(old(self), self); }
        if ch == '<' {
            self.next();
            let ghost m = *self;
            proof { lemma_extends_same_source(old(self), &m); }
            match self.scan_xml_markup(start) {
                Err(e) => {
                    proof { lemma_extends_trans(old(self), &m, self); }
                    return Err(e);
                },
                Ok(Some(r)) => {
                    proof { lemma_extends_trans(old(self), &m, self); }
                    return Ok(r);
                },
                Ok(None) => {},
            }
            if self.peek_or_zero() == '/' {
                self.next();
                proof { lemma_extends_same_source(old(self), self); }
                let location = start.combine_with(self.current_cursor_location());
                return Ok((Token::XmlLtSlash, location));
            }
            let location = start.combine_with(self.current_cursor_location());
            return Ok((Token::Lt, location));
        }
        if ch == '{' {
            self.next();
            proof { lemma_extends_same_source(old(self), self); }
            let location = start.combine_with(self.current_cursor_location());
            return Ok((Token::LeftBrace, location));
        }
        loop
            invariant_except_break
                self.inv(),
                self.extends(old(self)),
                self.text() == s,
                s == old(self).text(),
                p == old(self).pos(),
                p <= self.pos() <= s.len(),
                self.source.diagnostics == old(self).source.diagnostics,
                self.source.comments == old(self).source.comments,
                xml_text_end(s, p) == xml_text_end(s, self.pos()),
                start == old(self).cursor(),
            ensures
                self.inv(),
                self.extends(old(self)),
                self.text() == s,
                p <= self.pos() <= s.len(),
                self.source.diagnostics == old(self).source.diagnostics,
                self.source.comments == old(self).source.comments,
                xml_text_end(s, p) == Some(self.pos()),
                start == old(self).cursor(),
            decreases s.len() - self.pos(),
        {
            let ghost before = *self;
            let ch = self.peek_or_zero();
            if ch == '<' || ch == '{' {
                break;
            }
            if is_line_terminator(ch) {
                self.consume_line_terminator();
                proof { lemma_extends_trans(old(self), &before, self); }
            } else if self.reached_end() {
                self.add_unexpected_error();
                proof { lemma_extends_trans(old(self), &before, self); }
                return Err(ParserFailure);
            } else {
                self.next();
                proof {
                    lemma_extends_same_source(&before, self);
                    lemma_extends_trans(old(self), &before, self);
                }
            }
        }
        let location = start.combine_with(self.current_cursor_location());
        let content = self.text_slice(first, self.index);
        Ok((Token::XmlText(content), location))
    }

    /// Scans an XMLMarkup token (a comment, a CDATA section or a processing
    /// instruction) after a `<` character, `start` being the `<`'s location.
    pub fn scan_xml_markup(&mut self, start: Location) -> (r: Result<Option<(Token, Location)>, ParserFailure>)
        requires
            old(self).inv(),
            old(self).pos() >= 1,
        ensures
            final(self).inv(),
            final(self).extends(old(self)),
            final(self).source.comments == old(self).source.comments,
            match xml_markup_at(old(self).text(), old(self).pos()) {
                Some(None) => r == Ok::<Option<(Token, Location)>, ParserFailure>(None) && *final(self) == *old(self),
                Some(Some(e)) => r matches Ok(Some((Token::XmlMarkup(x), loc)))
                    && x@ == old(self).text().subrange(old(self).pos() - 1, e)
                    && loc == Location::combine_with_spec(start, final(self).cursor())
                    && final(self).pos() == e
                    && final(self).source.diagnostics == old(self).source.diagnostics,
                None => r is Err && final(self).source.invalidated,
            },
    {
        let ghost s = self.text();
        let ghost p = self.pos();
        let first = self.index;
        proof {
            lemma_extends_same_source(old(self), self);
            reveal_strlit("?>");
            reveal_strlit("!--");
            reveal_strlit("![CDATA[");
            reveal_strlit("]]>");
            reveal_strlit("-->");
            assert("]]>"@ =~= seq![']', ']', '>']);
            assert("?>"@ =~= seq!['?', '>']);
            assert("![CDATA["@ =~= seq!['!', '[', 'C', 'D', 'A', 'T', 'A', '[']);
            assert("!--"@ =~= seq!['!', '-', '-']);
            assert("-->"@ =~= seq!['-', '-', '>']);
        }
        // XMLComment
        if self.peek_seq_is(3, "!--") {
            proof {
                assert("!--"@ =~= seq!['!', '-', '-']);
                assert("-->"@ =~= seq!['-', '-', '>']);
                assert forall|k: int| p <= k < p + 3 implies !spec_is_line_terminator(#[trigger] s[k]) by {
                    assert(s.subrange(p, p + 3)[k - p] == s[k]);
                }
            }
            self.skip_count_in_place(3);
            let ghost m = *self;
            proof { lemma_extends_same_source(old(self), &m); }
            let r = self.scan_markup_rest("-->", start, first - 1);
            proof { lemma_extends_trans(old(self), &m, self); }
            return r;
        }
        // XMLCDATA
        if self.peek_seq_is(8, "![CDATA[") {
            self.skip_count_in_place(8);
            let ghost m = *self;
            proof {
                lemma_extends_same_source(old(self), &m);
                assert(s.subrange(p, p + 8) =~= seq!['!', '[', 'C', 'D', 'A', 'T', 'A', '[']);
            }
            let r = self.scan_markup_rest("]]>", start, first - 1);
            proof { lemma_extends_trans(old(self), &m, self); }
            return r;
        }
        // XMLPI
        if self.peek_or_zero() == '?' {
            self.next();
            let ghost m = *self;
            proof { lemma_extends_same_source(old(self), &m); }
            let r = self.scan_markup_rest("?>", start, first - 1);
            proof { lemma_extends_trans(old(self), &m, self); }
            return r;
        }
        Ok(None)
    }

    /// Scans the rest of an XMLMarkup token up to and past `close`, the
    /// markup having started with `<` at `lt_index`.
    fn scan_markup_rest(&mut self, close: &str, start: Location, lt_index: usize) -> (r: Result<Option<(Token, Location)>, ParserFailure>)
        requires
            old(self).inv(),
            lt_index < old(self).pos(),
            close@.len() >= 2,
            forall|k: int| 0 <= k < close@.len() ==> !spec_is_line_terminator(#[trigger] close@[k]),
            close@[0] != '\x00',
        ensures
            final(self).inv(),
            final(self).extends(old(self)),
            final(self).source.comments == old(self).source.comments,
            match markup_close_end(old(self).text(), old(self).pos(), close@) {
                Some(e) => r matches Ok(Some((Token::XmlMarkup(x), loc)))
                    && x@ == old(self).text().subrange(lt_index as int, e)
                    && loc == Location::combine_with_spec(start, final(self).cursor())
                    && final(self).pos() == e
                    && final(self).source.diagnostics == old(self).source.diagnostics,
                None => r is Err && final(self).source.invalidated,
            },
    {
        let ghost s = self.text();
        let ghost p = self.pos();
        let n = close.unicode_len();
        proof { lemma_extends_same_source(old(self), self); }
        loop
            invariant_except_break
                self.inv(),
                self.extends(old(self)),
                self.text() == s,
                s == old(self).text(),
                p == old(self).pos(),
                lt_index < p <= self.pos() <= s.len(),
                n == close@.len(),
                n >= 2,
                forall|k: int| 0 <= k < close@.len() ==> !spec_is_line_terminator(#[trigger] close@[k]),
                self.source.diagnostics == old(self).source.diagnostics,
                self.source.comments == old(self).source.comments,
                markup_close_end(s, p, close@) == markup_close_end(s, self.pos(), close@),
            ensures
                self.inv(),
                self.extends(old(self)),
                self.text() == s,
                lt_index < self.pos() <= s.len(),
                self.source.diagnostics == old(self).source.diagnostics,
                self.source.comments == old(self).source.comments,
                markup_close_end(s, p, close@) == Some(self.pos()),
            decreases s.len() - self.pos(),
        {
            let ghost before = *self;
            if self.peek_seq_is(n, close) {
                proof {
                    let bp = self.pos();
                    assert forall|k: int| bp <= k < bp + n && k < s.len()
                        implies !spec_is_line_terminator(#[trigger] s[k]) by {
                        assert(s.subrange(bp, bp + n)[k - bp] == close@[k - bp]);
                    }
                }
                self.skip_count_in_place(n);
                proof {
                    lemma_extends_same_source(&before, self);
                    lemma_extends_trans(old(self), &before, self);
                }
                break;
            } else if is_line_terminator(self.peek_or_zero()) {
                self.consume_line_terminator();
                proof { lemma_extends_trans(old(self), &before, self); }
            } else if self.reached_end() {
                self.add_unexpected_error();
                proof { lemma_extends_trans(old(self), &before, self); }
                return Err(ParserFailure);
            } else {
                self.next();
                proof {
                    lemma_extends_same_source(&before, self);
                    lemma_extends_trans(old(self), &before, self);
                }
            }
        }
        let location = start.combine_with(self.current_cursor_location());
        let content = self.text_slice(lt_index, self.index);
        Ok(Some((Token::XmlMarkup(content), location)))
    }

    /// Reads one hexadecimal digit.
    fn expect_hex_digit(&mut self) -> (r: Result<u32, ParserFailure>)
        requires
            old(self).inv(),
        ensures
            final(self).inv(),
            final(self).extends(old(self)),
            final(self).line() == old(self).line(),
            final(self).source.comments == old(self).source.comments,
            ({
                let c = char_at(old(self).text(), old(self).pos());
                if spec_is_hex_digit(c) {
                    &&& r == Ok::<u32, ParserFailure>(digit_value(c) as u32)
                    &&& final(self).pos() == old(self).pos() + 1
                    &&& final(self).source == old(self).source
                } else {
                    &&& r is Err
                    &&& final(self).source.invalidated
                }
            }),
    {
        let ch = self.peek_or_zero();
        if !is_hex_digit(ch) {
            self.add_unexpected_error();
            return Err(ParserFailure);
        }
        self.next();
        proof { lemma_extends_same_source(old(self), self); }
        Ok(hex_digit_mv(ch).unwrap())
    }

    /// Expects UnicodeEscapeSequence starting from `u`.
    #[verifier::spinoff_prover]
    #[verifier::rlimit(40)]
    fn expect_unicode_escape_sequence(&mut self) -> (r: Result<char, ParserFailure>)
        requires
            old(self).inv(),
        ensures
            final(self).inv(),
            final(self).extends(old(self)),
            final(self).line() == old(self).line(),
            final(self).source.comments == old(self).source.comments,
            match unicode_escape_at(old(self).text(), old(self).pos()) {
                Some((c, e)) => r == Ok::<char, ParserFailure>(c) && final(self).pos() == e
                    && final(self).source == old(self).source,
                None => r is Err && final(self).source.invalidated,
            },
    {
        let ghost s = self.text();
        let ghost p = self.pos();
        let start = self.current_cursor_location();
        if self.peek_or_zero() != 'u' {
            self.add_unexpected_error();
            return Err(ParserFailure);
        }
        self.next();

        // Scan \uXXXX
        if is_hex_digit(self.peek_or_zero()) {
            let ghost m0 = *self;
            let d0 = self.expect_hex_digit()?;
            let ghost m1 = *self;
            let d1 = match self.expect_hex_digit() { Ok(d) => d, Err(e) => { proof { lemma_extends_trans(old(self), &m1, self); } return Err(e); } };
            let ghost m2 = *self;
            let d2 = match self.expect_hex_digit() { Ok(d) => d, Err(e) => { proof { lemma_extends_trans(old(self), &m2, self); } return Err(e); } };
            let ghost m3 = *self;
            let d3 = match self.expect_hex_digit() { Ok(d) => d, Err(e) => { proof { lemma_extends_trans(old(self), &m3, self); } return Err(e); } };
            proof {
                let digits = s.subrange(p + 1, p + 5);
                assert(digits.drop_last().drop_last().drop_last().drop_last() =~= Seq::<char>::empty());
                assert(digits.drop_last().drop_last().drop_last() =~= seq![s[p + 1]]);
                assert(digits.drop_last().drop_last() =~= seq![s[p + 1], s[p + 2]]);
                assert(digits.drop_last() =~= seq![s[p + 1], s[p + 2], s[p + 3]]);
                assert(digits_value(Seq::<char>::empty(), 16) == 0);
                assert(digits_value(seq![s[p + 1]], 16) == d0) by {
                    assert(seq![s[p + 1]].drop_last() =~= Seq::<char>::empty());
                }
                assert(digits_value(seq![s[p + 1], s[p + 2]], 16) == d0 * 16 + d1) by {
                    assert(seq![s[p + 1], s[p + 2]].drop_last() =~= seq![s[p + 1]]);
                }
                assert(digits_value(seq![s[p + 1], s[p + 2], s[p + 3]], 16) == (d0 * 16 + d1) * 16 + d2) by {
                    assert(seq![s[p + 1], s[p + 2], s[p + 3]].drop_last() =~= seq![s[p + 1], s[p + 2]]);
                }
                assert(digits_value(digits, 16) == ((d0 * 16 + d1) * 16 + d2) * 16 + d3);
            }
            let v = (d0 << 12) | (d1 << 8) | (d2 << 4) | d3;
            assert(v == ((d0 * 16 + d1) * 16 + d2) * 16 + d3) by (bit_vector)
                requires d0 < 16, d1 < 16, d2 < 16, d3 < 16, v == (d0 << 12) | (d1 << 8) | (d2 << 4) | d3;
            let r = char_from_u32(v);
            match r {
                Some(r) => {
                    proof {
                        lemma_extends_same_source(old(self), self);
                        vstd::utf8::char_u32_cast(r, v);
                    }
                    return Ok(r);
                },
                None => {
                    let loc = start.combine_with(self.current_cursor_location());
                    self.add_diagnostic(Diagnostic::new_syntax_error(&loc, DiagnosticKind::UnexpectedOrInvalidToken, Vec::new()));
                    proof { lemma_extends_same_source(old(self), &m3); lemma_extends_trans(old(self), &m3, self); }
                    return Err(ParserFailure);
                },
            }
        }

        // Scan \u{}
        if self.peek_or_zero() != '{' {
            self.add_unexpected_error();
            return Err(ParserFailure);
        }
        self.next();
        let digits_start = self.index;
        proof { lemma_hex_run_end(s, p + 2); }
        while is_hex_digit(self.peek_or_zero())
            invariant
                self.inv(),
                self.text() == s,
                self.source == old(self).source,
                self.line() == old(self).line(),
                p + 2 <= self.pos() <= hex_run_end(s, p + 2),
                hex_run_end(s, p + 2) == hex_run_end(s, self.pos()),
                digits_start == p + 2,
            decreases s.len() - self.pos(),
        {
            proof { lemma_hex_run_end(s, self.pos() + 1); }
            self.next();
        }
        if self.peek_or_zero() != '}' {
            self.add_unexpected_error();
            return Err(ParserFailure);
        }
        let digits_end = self.index;
        self.next();
        let location = start.combine_with(self.current_cursor_location());
        let mut digits: Vec<char> = Vec::new();
        let mut i = digits_start;
        while i < digits_end
            invariant
                self.inv(),
                self.text() == s,
                digits_start <= i <= digits_end <= s.len(),
                digits@ == s.subrange(digits_start as int, i as int),
            decreases digits_end - i,
        {
            digits.push(self.source.chars[i]);
            i = i + 1;
            assert(digits@ =~= s.subrange(digits_start as int, i as int));
        }
        proof {
            assert forall|k: int| 0 <= k < digits@.len() implies
                (#[trigger] spec_hex_digit_mv(digits@[k])) is Some && digit_value(digits@[k]) < 16 by {
                assert(digits@[k] == s[digits_start + k]);
                assert(spec_is_hex_digit(s[digits_start + k]));
            }
        }
        let ghost m = *self;
        proof {
            assert(digits@ =~= s.subrange(p + 2, hex_run_end(s, p + 2)));
            lemma_extends_same_source(old(self), &m);
        }
        let v = parse_digits(&digits, 16, 0xFFFF_FFFF);
        let Some(v) = v else {
            self.add_diagnostic(Diagnostic::new_syntax_error(&location, DiagnosticKind::UnexpectedOrInvalidToken, Vec::new()));
            proof { lemma_extends_trans(old(self), &m, self); }
            return Err(ParserFailure);
        };
        let v = v as u32;
        let r = char_from_u32(v);
        let Some(r) = r else {
            self.add_diagnostic(Diagnostic::new_syntax_error(&location, DiagnosticKind::UnexpectedOrInvalidToken, Vec::new()));
            proof { lemma_extends_trans(old(self), &m, self); }
            return Err(ParserFailure);
        };
        proof {
            vstd::utf8::char_u32_cast(r, v);
        }
        Ok(r)
    }

    /// The location of the current position.
    pub open spec fn cursor(&self) -> Location {
        Location::with_line_and_offset_spec(self.line() as usize, self.offset_of(self.pos()) as usize)
    }

    /// The location of what was scanned from the state `start` up to the
    /// current position.
    pub open spec fn span_from(&self, start: &Tokenizer) -> Location {
        Location {
            first_line_number: start.line() as usize,
            last_line_number: self.line() as usize,
            first_offset: start.offset_of(start.pos()) as usize,
            last_offset: self.offset_of(self.pos()) as usize,
        }
    }

    /// Consumes an IdentifierStart character, plain or written as a
    /// UnicodeEscapeSequence; gives the character and whether it was escaped.
    fn consume_identifier_start(&mut self) -> (r: Result<Option<(char, bool)>, ParserFailure>)
        requires
            old(self).inv(),
        ensures
            final(self).inv(),
            final(self).extends(old(self)),
            final(self).line() == old(self).line(),
            final(self).source.comments == old(self).source.comments,
            match identifier_char_at(old(self).text(), old(self).pos(), true) {
                None => r is Err && final(self).source.invalidated,
                Some(None) => r == Ok::<Option<(char, bool)>, ParserFailure>(None) && *final(self) == *old(self),
                Some(Some((c, e, j))) => r == Ok::<Option<(char, bool)>, ParserFailure>(Some((c, e)))
                    && final(self).pos() == j && final(self).source == old(self).source,
            },
    {
        let ch = self.peek_or_zero();
        proof { lemma_extends_same_source(old(self), self); }
        if is_identifier_start(ch) {
            self.next();
            proof { lemma_extends_same_source(old(self), self); }
            return Ok(Some((ch, false)));
        }
        if ch == '\\' {
            self.next();
            let ghost m = *self;
            proof { lemma_extends_same_source(old(self), &m); }
            let r = self.expect_unicode_escape_sequence();
            proof { lemma_extends_trans(old(self), &m, self); }
            return match r {
                Ok(c) => Ok(Some((c, true))),
                Err(e) => Err(e),
            };
        }
        Ok(None)
    }

    /// Consumes an IdentifierPart character, plain or written as a
    /// UnicodeEscapeSequence; gives the character and whether it was escaped.
    fn consume_identifier_part(&mut self) -> (r: Result<Option<(char, bool)>, ParserFailure>)
        requires
            old(self).inv(),
        ensures
            final(self).inv(),
            final(self).extends(old(self)),
            final(self).line() == old(self).line(),
            final(self).source.comments == old(self).source.comments,
            match identifier_char_at(old(self).text(), old(self).pos(), false) {
                None => r is Err && final(self).source.invalidated,
                Some(None) => r == Ok::<Option<(char, bool)>, ParserFailure>(None) && *final(self) == *old(self),
                Some(Some((c, e, j))) => r == Ok::<Option<(char, bool)>, ParserFailure>(Some((c, e)))
                    && final(self).pos() == j && final(self).source == old(self).source,
            },
    {
        let ch = self.peek_or_zero();
        proof { lemma_extends_same_source(old(self), self); }
        if is_identifier_part(ch) {
            self.next();
            proof { lemma_extends_same_source(old(self), self); }
            return Ok(Some((ch, false)));
        }
        if ch == '\\' {
            self.next();
            let ghost m = *self;
            proof { lemma_extends_same_source(old(self), &m); }
            let r = self.expect_unicode_escape_sequence();
            proof { lemma_extends_trans(old(self), &m, self); }
            return match r {
                Ok(c) => Ok(Some((c, true))),
                Err(e) => Err(e),
            };
        }
        Ok(None)
    }

    /// Scans an identifier or a reserved word. With `reserved_words` off, or
    /// when a character was escaped, every name is an identifier.
    #[verifier::spinoff_prover]
    #[verifier::rlimit(40)]
    fn scan_identifier(&mut self, reserved_words: bool) -> (r: Result<Option<(Token, Location)>, ParserFailure>)
        requires
            old(self).inv(),
        ensures
            final(self).inv(),
            final(self).extends(old(self)),
            final(self).line() == old(self).line(),
            final(self).source.comments == old(self).source.comments,
            match identifier_at(old(self).text(), old(self).pos()) {
                None => r is Err && final(self).source.invalidated,
                Some(None) => r is Ok && r->Ok_0 is None && *final(self) == *old(self),
                Some(Some((name, escaped, j))) => r matches Ok(Some((t, loc)))
                    && is_identifier_token(t, name, escaped, reserved_words)
                    && loc == final(self).span_from(old(self))
                    && final(self).pos() == j && final(self).source == old(self).source,
            },
    {
        let start = self.current_cursor_location();
        let ghost s = self.text();
        let ghost p = self.pos();
        proof { lemma_identifier_char_at(s, p, true); }
        let first = self.consume_identifier_start();
        let (ch, escaped_first) = match first {
            Err(e) => { return Err(e); },
            Ok(None) => { return Ok(None); },
            Ok(Some(x)) => x,
        };
        let mut escaped = escaped_first;
        let mut name: Vec<char> = Vec::new();
        name.push(ch);
        let ghost j0 = self.pos();
        loop
            invariant_except_break
                self.inv(),
                self.extends(old(self)),
                self.text() == s,
                s == old(self).text(),
                p == old(self).pos(),
                self.line() == old(self).line(),
                self.source == old(self).source,
                p < j0 <= self.pos() <= s.len(),
                identifier_char_at(s, p, true) == Some(Some((ch, escaped_first, j0))),
                identifier_parts_at(s, j0) matches Some((all, e_all, k)) ==> ({
                    &&& identifier_parts_at(s, self.pos()) matches Some((rest, e_rest, k2))
                    &&& k2 == k
                    &&& seq![ch] + all == name@ + rest
                    &&& (escaped_first || e_all) == (escaped || e_rest)
                }),
                identifier_parts_at(s, j0) is None ==> identifier_parts_at(s, self.pos()) is None,
                start == Location::with_line_and_offset_spec(old(self).line() as usize, old(self).offset_of(p) as usize),
            ensures
                self.inv(),
                self.extends(old(self)),
                self.text() == s,
                self.line() == old(self).line(),
                self.source == old(self).source,
                identifier_at(s, p) == Some(Some((name@, escaped, self.pos()))),
                start == Location::with_line_and_offset_spec(old(self).line() as usize, old(self).offset_of(p) as usize),
            decreases s.len() - self.pos(),
        {
            let ghost before = *self;
            proof { lemma_identifier_char_at(s, self.pos(), false); }
            match self.consume_identifier_part() {
                Err(e) => {
                    proof { lemma_extends_trans(old(self), &before, self); }
                    return Err(e);
                },
                Ok(None) => {
                    proof {
                        assert(identifier_parts_at(s, before.pos()) == Some((Seq::<char>::empty(), false, before.pos())));
                        assert(name@ + Seq::<char>::empty() =~= name@);
                    }
                    break;
                },
                Ok(Some((c, e))) => {
                    proof {
                        lemma_extends_trans(old(self), &before, self);
                        let bp = before.pos();
                        match identifier_parts_at(s, self.pos()) {
                            Some((rest, e2, k)) => {
                                assert(identifier_parts_at(s, bp) == Some((seq![c] + rest, e || e2, k)));
                                assert(name@.push(c) + rest =~= name@ + (seq![c] + rest));
                            },
                            None => {},
                        }
                    }
                    name.push(c);
                    escaped = escaped || e;
                },
            }
        }
        let location = start.combine_with(self.current_cursor_location());
        let name = string_from_chars(&name);
        if reserved_words && !escaped {
            if let Some(token) = reserved_word_token(name.as_str()) {
                return Ok(Some((token, location)));
            }
        }
        Ok(Some((Token::Identifier(name), location)))
    }

    /// Consumes `_` followed by a decimal digit, if the next character is `_`.
    fn consume_underscore_followed_by_dec_digit(&mut self) -> (r: Result<(), ParserFailure>)
        requires
            old(self).inv(),
        ensures
            underscore_step_post(old(self), final(self), r, 10),
    {
        self.consume_underscore_followed_by_digit(10)
    }

    /// Consumes `_` followed by a hexadecimal digit, if the next character is `_`.
    fn consume_underscore_followed_by_hex_digit(&mut self) -> (r: Result<(), ParserFailure>)
        requires
            old(self).inv(),
        ensures
            underscore_step_post(old(self), final(self), r, 16),
    {
        self.consume_underscore_followed_by_digit(16)
    }

    /// Consumes `_` followed by a binary digit, if the next character is `_`.
    fn consume_underscore_followed_by_bin_digit(&mut self) -> (r: Result<(), ParserFailure>)
        requires
            old(self).inv(),
        ensures
            underscore_step_post(old(self), final(self), r, 2),
    {
        self.consume_underscore_followed_by_digit(2)
    }

    fn consume_underscore_followed_by_digit(&mut self, radix: u32) -> (r: Result<(), ParserFailure>)
        requires
            old(self).inv(),
            radix == 2 || radix == 10 || radix == 16,
        ensures
            underscore_step_post(old(self), final(self), r, radix as nat),
    {
        proof { lemma_extends_same_source(old(self), self); }
        if self.peek_or_zero() == '_' {
            self.next();
            if !is_digit_of_radix(self.peek_or_zero(), radix) {
                let ghost m = *self;
                proof { lemma_extends_same_source(old(self), &m); }
                self.add_unexpected_error();
                proof { lemma_extends_trans(old(self), &m, self); }
                return Err(ParserFailure);
            }
            self.next();
            proof { lemma_extends_same_source(old(self), self); }
        }
        Ok(())
    }

    /// Consumes a run of digits of a radix, each optionally followed by `_`
    /// and another digit.
    fn scan_digits(&mut self, radix: u32) -> (r: Result<(), ParserFailure>)
        requires
            old(self).inv(),
            radix == 2 || radix == 10 || radix == 16,
        ensures
            final(self).inv(),
            final(self).extends(old(self)),
            final(self).line() == old(self).line(),
            final(self).source.comments == old(self).source.comments,
            match digit_run_end(old(self).text(), old(self).pos(), radix as nat) {
                Some(e) => r is Ok && final(self).pos() == e && final(self).source == old(self).source,
                None => r is Err && final(self).source.invalidated,
            },
    {
        let ghost s = self.text();
        proof { lemma_extends_same_source(old(self), self); }
        while is_digit_of_radix(self.peek_or_zero(), radix)
            invariant
                self.inv(),
                self.extends(old(self)),
                self.text() == s,
                s == old(self).text(),
                self.line() == old(self).line(),
                self.source == old(self).source,
                radix == 2 || radix == 10 || radix == 16,
                digit_run_end(s, old(self).pos(), radix as nat) == digit_run_end(s, self.pos(), radix as nat),
            decreases s.len() - self.pos(),
        {
            let ghost before = *self;
            self.next();
            let ghost mid = *self;
            let u = if radix == 10 {
                self.consume_underscore_followed_by_dec_digit()
            } else if radix == 16 {
                self.consume_underscore_followed_by_hex_digit()
            } else {
                self.consume_underscore_followed_by_bin_digit()
            };
            proof {
                lemma_extends_same_source(&before, &mid);
                lemma_extends_trans(&before, &mid, self);
                lemma_extends_trans(old(self), &before, self);
            }
            if u.is_err() {
                return Err(ParserFailure);
            }
        }
        Ok(())
    }

    /// Records an error when an identifier starts right after a numeric
    /// literal.
    fn unallow_numeric_suffix(&mut self)
        requires
            old(self).inv(),
        ensures
            final(self).inv(),
            final(self).extends(old(self)),
            final(self).pos() == old(self).pos(),
            final(self).line() == old(self).line(),
            final(self).source.comments == old(self).source.comments,
            spec_is_identifier_start(char_at(old(self).text(), old(self).pos()))
                ==> final(self).source.invalidated
                    && final(self).source.diagnostics@.len() == old(self).source.diagnostics@.len() + 1,
            !spec_is_identifier_start(char_at(old(self).text(), old(self).pos()))
                ==> *final(self) == *old(self),
    {
        if is_identifier_start(self.peek_or_zero()) {
            self.add_unexpected_error();
        } else {
            proof { lemma_extends_same_source(old(self), self); }
        }
    }

    /// The characters between two indices, leaving out every `_`.
    fn chars_without_underscores(&self, a: usize, b: usize) -> (v: Vec<char>)
        requires
            self.inv(),
            a <= b <= self.text().len(),
        ensures
            v@ == without_underscores(self.text().subrange(a as int, b as int)),
    {
        let mut v: Vec<char> = Vec::new();
        let mut i = a;
        while i < b
            invariant
                self.inv(),
                a <= i <= b <= self.text().len(),
                v@ == without_underscores(self.text().subrange(a as int, i as int)),
            decreases b - i,
        {
            let c = self.source.chars[i];
            proof {
                let t = self.text().subrange(a as int, i + 1);
                assert(t.drop_last() =~= self.text().subrange(a as int, i as int));
                reveal(Seq::filter);
            }
            if c != '_' {
                v.push(c);
            }
            i = i + 1;
        }
        v
    }

    /// Scans a `.`, `..` or `...` punctuator, or a numeric literal.
    #[verifier::spinoff_prover]
    #[verifier::rlimit(40)]
    fn scan_dot_or_numeric_literal(&mut self) -> (r: Result<Option<(Token, Location)>, ParserFailure>)
        requires
            old(self).inv(),
        ensures
            final(self).inv(),
            final(self).extends(old(self)),
            final(self).line() == old(self).line(),
            final(self).source.comments == old(self).source.comments,
            ({
                let s = old(self).text();
                let p = old(self).pos();
                let c = char_at(s, p);
                if c == '.' && !spec_is_dec_digit(char_at(s, p + 1)) {
                    let (t, n) = dot_punctuator_at(s, p);
                    &&& r == Ok::<Option<(Token, Location)>, ParserFailure>(Some((t, final(self).span_from(old(self)))))
                    &&& final(self).pos() == p + n
                    &&& final(self).source == old(self).source
                } else if c == '0' && (char_at(s, p + 1) == 'x' || char_at(s, p + 1) == 'X') {
                    integer_literal_outcome(s, p + 2, final(self), r, old(self).cursor(), 16)
                        && (integer_literal_quiet(s, p + 2, 16) ==> final(self).source == old(self).source)
                } else if c == '0' && (char_at(s, p + 1) == 'b' || char_at(s, p + 1) == 'B') {
                    integer_literal_outcome(s, p + 2, final(self), r, old(self).cursor(), 2)
                        && (integer_literal_quiet(s, p + 2, 2) ==> final(self).source == old(self).source)
                } else if c == '.' || spec_is_dec_digit(c) {
                    match decimal_literal_end(s, p) {
                        None => r is Err && final(self).source.invalidated,
                        Some(e) => {
                            &&& r matches Ok(Some((Token::NumericLiteral(NumericValue::Decimal(d)), loc)))
                                && d@ == without_underscores(s.subrange(p, e))
                                && loc == final(self).span_from(old(self))
                            &&& final(self).pos() == e
                            &&& spec_is_identifier_start(char_at(s, e)) ==> final(self).source.invalidated
                            &&& !spec_is_identifier_start(char_at(s, e)) ==> final(self).source == old(self).source
                        },
                    }
                } else {
                    r == Ok::<Option<(Token, Location)>, ParserFailure>(None) && *final(self) == *old(self)
                }
            }),
    {
        let ghost s = self.text();
        let ghost p = self.pos();
        let start = self.current_cursor_location();
        let first = self.index;
        let ch = self.peek_or_zero();
        let initial_dot = ch == '.';
        proof { lemma_extends_same_source(old(self), self); }
        if ch == '.' {
            self.next();
            if self.peek_or_zero() == '.' && self.peek_at_or_zero(1) == '.' {
                // Ellipsis
                self.skip_count_in_place(2);
                proof { lemma_extends_same_source(old(self), self); }
                return Ok(Some((Token::Ellipsis, start.combine_with(self.current_cursor_location()))));
            }
            let ch = self.peek_or_zero();
            if ch == '.' {
                // Descendants
                self.next();
                proof { lemma_extends_same_source(old(self), self); }
                return Ok(Some((Token::Descendants, start.combine_with(self.current_cursor_location()))));
            }
            if !is_dec_digit(ch) {
                // Dot
                proof { lemma_extends_same_source(old(self), self); }
                return Ok(Some((Token::Dot, start.combine_with(self.current_cursor_location()))));
            }
            let ghost m = *self;
            proof { lemma_extends_same_source(old(self), &m); }
            let d = self.scan_digits(10);
            proof { lemma_extends_trans(old(self), &m, self); }
            if d.is_err() {
                return Err(ParserFailure);
            }
        } else if ch == '0' {
            self.next();
            let ch2 = self.peek_or_zero();
            if ch2 == 'X' || ch2 == 'x' {
                // HexLiteral
                self.next();
                let ghost m = *self;
                proof { lemma_extends_same_source(old(self), &m); }
                let r = self.scan_hex_literal(start);
                proof { lemma_extends_trans(old(self), &m, self); }
                return r;
            }
            if ch2 == 'B' || ch2 == 'b' {
                // BinLiteral
                self.next();
                let ghost m = *self;
                proof { lemma_extends_same_source(old(self), &m); }
                let r = self.scan_bin_literal(start);
                proof { lemma_extends_trans(old(self), &m, self); }
                return r;
            }
        } else if is_dec_digit(ch) {
            let d = self.scan_digits(10);
            if d.is_err() {
                return Err(ParserFailure);
            }
        } else {
            return Ok(None);
        }
        let ghost a = self.pos();
        proof {
            assert(decimal_integer_end(s, p) == Some(a));
            lemma_extends_same_source(old(self), self);
        }

        // Fraction
        if !initial_dot && self.peek_or_zero() == '.' {
            self.next();
            if !is_dec_digit(self.peek_or_zero()) {
                let ghost m = *self;
                proof { lemma_extends_same_source(old(self), &m); }
                self.add_unexpected_error();
                proof { lemma_extends_trans(old(self), &m, self); }
                return Err(ParserFailure);
            }
            let ghost m = *self;
            proof { lemma_extends_same_source(old(self), &m); }
            let d = self.scan_digits(10);
            proof { lemma_extends_trans(old(self), &m, self); }
            if d.is_err() {
                return Err(ParserFailure);
            }
        }
        let ghost b = self.pos();
        proof {
            assert(decimal_fraction_end(s, p, a) == Some(b));
            lemma_extends_same_source(old(self), self);
        }

        // Decimal exponent
        let ch = self.peek_or_zero();
        if ch == 'E' || ch == 'e' {
            self.next();
            let sign = self.peek_or_zero();
            if sign == '+' || sign == '-' {
                self.next();
            }
            if !is_dec_digit(self.peek_or_zero()) {
                let ghost m = *self;
                proof { lemma_extends_same_source(old(self), &m); }
                self.add_unexpected_error();
                proof { lemma_extends_trans(old(self), &m, self); }
                return Err(ParserFailure);
            }
            let ghost m = *self;
            proof { lemma_extends_same_source(old(self), &m); }
            let d = self.scan_digits(10);
            proof { lemma_extends_trans(old(self), &m, self); }
            if d.is_err() {
                return Err(ParserFailure);
            }
        }
        let ghost e = self.pos();
        proof {
            assert(decimal_literal_end(s, p) == Some(e));
            lemma_extends_same_source(old(self), self);
        }
        let last = self.index;
        let ghost m = *self;
        self.unallow_numeric_suffix();
        proof { lemma_extends_trans(old(self), &m, self); }
        let location = start.combine_with(self.current_cursor_location());
        let digits = self.chars_without_underscores(first, last);
        Ok(Some((Token::NumericLiteral(NumericValue::Decimal(string_from_chars(&digits))), location)))
    }

    /// Consumes an escape sequence after `\`, giving the characters it stands
    /// for. A backslash before a line terminator stands for nothing.
    #[verifier::spinoff_prover]
    #[verifier::rlimit(40)]
    fn consume_escape_sequence(&mut self) -> (r: Result<Option<String>, ParserFailure>)
        requires
            old(self).inv(),
        ensures
            final(self).inv(),
            final(self).extends(old(self)),
            final(self).source.comments == old(self).source.comments,
            match escape_at(old(self).text(), old(self).pos()) {
                None => r is Err && final(self).source.invalidated,
                Some(None) => r == Ok::<Option<String>, ParserFailure>(None) && *final(self) == *old(self),
                Some(Some((v, e, f))) => {
                    &&& r matches Ok(Some(x)) && x@ == v
                    &&& final(self).pos() == e
                    &&& f ==> final(self).source.invalidated
                    &&& !f ==> final(self).source.diagnostics == old(self).source.diagnostics
                        && final(self).source.invalidated == old(self).source.invalidated
                },
            },
    {
        let ghost s = self.text();
        let ghost p = self.pos();
        proof { lemma_extends_same_source(old(self), self); }
        if self.peek_or_zero() != '\\' {
            return Ok(None);
        }
        self.next();
        let ghost m = *self;
        proof { lemma_extends_same_source(old(self), &m); }
        if !self.has_remaining() {
            self.add_unexpected_error();
            proof { lemma_extends_trans(old(self), &m, self); }
            return Err(ParserFailure);
        }
        if self.consume_line_terminator() {
            proof { lemma_extends_trans(old(self), &m, self); }
            return Ok(Some(String::new()));
        }
        let ch = self.peek_or_zero();
        if ch == '\'' || ch == '"' || ch == '\\' {
            self.next();
            proof { lemma_extends_same_source(old(self), self); }
            return Ok(Some(char_string(ch)));
        }
        if ch == 'u' {
            let r = self.expect_unicode_escape_sequence();
            proof { lemma_extends_trans(old(self), &m, self); }
            return match r {
                Ok(c) => Ok(Some(char_string(c))),
                Err(e) => Err(e),
            };
        }
        if ch == 'x' {
            self.next();
            let ghost m2 = *self;
            proof { lemma_extends_same_source(old(self), &m2); }
            let d1 = match self.expect_hex_digit() {
                Ok(d) => d,
                Err(e) => {
                    proof { lemma_extends_trans(old(self), &m2, self); }
                    return Err(e);
                },
            };
            let ghost m3 = *self;
            proof { lemma_extends_same_source(old(self), &m3); }
            let d2 = match self.expect_hex_digit() {
                Ok(d) => d,
                Err(e) => {
                    proof { lemma_extends_trans(old(self), &m3, self); }
                    return Err(e);
                },
            };
            let v = (d1 << 4) | d2;
            assert(v == d1 * 16 + d2) by (bit_vector)
                requires d1 < 16, d2 < 16, v == (d1 << 4) | d2;
            let c = char_from_u32(v);
            proof { lemma_extends_same_source(old(self), self); }
            let c = c.unwrap();
            proof { vstd::utf8::char_u32_cast(c, v); }
            return Ok(Some(char_string(c)));
        }
        let single = if ch == 'b' {
            Some('\x08')
        } else if ch == 'f' {
            Some('\x0C')
        } else if ch == 'n' {
            Some('\x0A')
        } else if ch == 'r' {
            Some('\x0D')
        } else if ch == 't' {
            Some('\x09')
        } else if ch == 'v' {
            Some('\x0B')
        } else {
            None
        };
        if let Some(c) = single {
            self.next();
            proof { lemma_extends_same_source(old(self), self); }
            return Ok(Some(char_string(c)));
        }
        if ch == '0' {
            self.next();
            let ghost m4 = *self;
            proof { lemma_extends_same_source(old(self), &m4); }
            if is_dec_digit(self.peek_or_zero()) {
                self.add_unexpected_error();
                proof { lemma_extends_trans(old(self), &m4, self); }
            }
            return Ok(Some(char_string('\x00')));
        }
        if is_dec_digit(ch) {
            self.add_unexpected_error();
        }
        let ghost m5 = *self;
        proof { lemma_extends_trans(old(self), &m, &m5); }
        self.next();
        proof {
            lemma_extends_same_source(&m5, self);
            lemma_extends_trans(old(self), &m5, self);
        }
        Ok(Some(char_string(ch)))
    }

    /// Scans a string literal, single-quoted or double-quoted, or a triple
    /// string literal.
    #[verifier::spinoff_prover]
    #[verifier::rlimit(40)]
    fn scan_string_literal(&mut self) -> (r: Result<Option<(Token, Location)>, ParserFailure>)
        requires
            old(self).inv(),
        ensures
            final(self).inv(),
            final(self).extends(old(self)),
            final(self).source.comments == old(self).source.comments,
            ({
                let s = old(self).text();
                let p = old(self).pos();
                let d = char_at(s, p);
                if d != '"' && d != '\'' {
                    r == Ok::<Option<(Token, Location)>, ParserFailure>(None) && *final(self) == *old(self)
                } else if char_at(s, p + 1) == d && char_at(s, p + 2) == d {
                    match triple_string_at(s, p + 3, d) {
                        None => r is Err && final(self).source.invalidated,
                        Some((v, e, f)) => {
                            &&& r matches Ok(Some((Token::StringLiteral(x), loc)))
                                && x@ == v && loc == final(self).span_from(old(self))
                            &&& final(self).pos() == e
                            &&& f ==> final(self).source.invalidated
                            &&& !f ==> final(self).source.diagnostics == old(self).source.diagnostics
                                && final(self).source.invalidated == old(self).source.invalidated
                        },
                    }
                } else {
                    match string_body(s, p + 1, d) {
                        None => r is Err && final(self).source.invalidated,
                        Some((v, e, f)) => {
                            &&& r matches Ok(Some((Token::StringLiteral(x), loc)))
                                && x@ == v && loc == final(self).span_from(old(self))
                            &&& final(self).pos() == e
                            &&& f ==> final(self).source.invalidated
                            &&& !f ==> final(self).source.diagnostics == old(self).source.diagnostics
                                && final(self).source.invalidated == old(self).source.invalidated
                        },
                    }
                }
            }),
    {
        let ghost s = self.text();
        let ghost p = self.pos();
        proof { lemma_extends_same_source(old(self), self); }
        let delim = self.peek_or_zero();
        if delim != '"' && delim != '\'' {
            return Ok(None);
        }
        let start = self.current_cursor_location();
        self.next();
        if self.peek_or_zero() == delim && self.peek_at_or_zero(1) == delim {
            self.skip_count_in_place(2);
            let ghost m = *self;
            proof { lemma_extends_same_source(old(self), &m); }
            let r = self.scan_triple_string_literal(delim, start);
            proof { lemma_extends_trans(old(self), &m, self); }
            return r;
        }
        let mut value: Vec<char> = Vec::new();
        let ghost mut flag = false;
        proof { lemma_extends_same_source(old(self), self); }
        loop
            invariant_except_break
                self.inv(),
                self.extends(old(self)),
                self.text() == s,
                s == old(self).text(),
                p == old(self).pos(),
                delim == char_at(s, p),
                delim == '"' || delim == '\'',
                !(char_at(s, p + 1) == delim && char_at(s, p + 2) == delim),
                p < self.pos() <= s.len(),
                self.source.comments == old(self).source.comments,
                flag ==> self.source.invalidated,
                !flag ==> self.source.diagnostics == old(self).source.diagnostics
                    && self.source.invalidated == old(self).source.invalidated,
                string_body(s, p + 1, delim) == match string_body(s, self.pos(), delim) {
                    Some((rest, e, f)) => Some((value@ + rest, e, flag || f)),
                    None => None,
                },
                start == old(self).cursor(),
            ensures
                self.inv(),
                self.extends(old(self)),
                self.text() == s,
                self.source.comments == old(self).source.comments,
                flag ==> self.source.invalidated,
                !flag ==> self.source.diagnostics == old(self).source.diagnostics
                    && self.source.invalidated == old(self).source.invalidated,
                string_body(s, p + 1, delim) == Some((value@, self.pos(), flag)),
                start == old(self).cursor(),
            decreases s.len() - self.pos(),
        {
            let ghost before = *self;
            let ghost bp = self.pos();
            proof { lemma_escape_at(s, bp); }
            match self.consume_escape_sequence() {
                Err(e) => {
                    proof { lemma_extends_trans(old(self), &before, self); }
                    return Err(e);
                },
                Ok(Some(x)) => {
                    proof {
                        lemma_extends_trans(old(self), &before, self);
                        let (v, e, f) = escape_at(s, bp).unwrap().unwrap();
                        match string_body(s, self.pos(), delim) {
                            Some((rest, e2, f2)) => {
                                assert(value@ + (x@ + rest) =~= (value@ + x@) + rest);
                            },
                            None => {},
                        }
                        flag = flag || f;
                    }
                    push_str(&mut value, x.as_str());
                },
                Ok(None) => {
                    let ch = self.peek_or_zero();
                    if ch == delim {
                        self.next();
                        proof {
                            lemma_extends_same_source(&before, self);
                            lemma_extends_trans(old(self), &before, self);
                            assert(value@ + Seq::<char>::empty() =~= value@);
                        }
                        break;
                    } else if is_line_terminator(ch) {
                        let loc = self.current_character_ahead_location();
                        self.add_diagnostic(Diagnostic::new_syntax_error(&loc, DiagnosticKind::UnallowedLineBreak, Vec::new()));
                        let ghost mid = *self;
                        self.consume_line_terminator();
                        proof {
                            lemma_extends_trans(&before, &mid, self);
                            lemma_extends_trans(old(self), &before, self);
                            flag = true;
                        }
                    } else if !self.has_remaining() {
                        self.add_unexpected_error();
                        proof { lemma_extends_trans(old(self), &before, self); }
                        return Err(ParserFailure);
                    } else {
                        value.push(ch);
                        self.next();
                        proof {
                            lemma_extends_same_source(&before, self);
                            lemma_extends_trans(old(self), &before, self);
                            match string_body(s, self.pos(), delim) {
                                Some((rest, e2, f2)) => {
                                    assert(value@.drop_last() + (seq![ch] + rest) =~= value@ + rest);
                                },
                                None => {},
                            }
                        }
                    }
                },
            }
        }
        let location = start.combine_with(self.current_cursor_location());
        Ok(Some((Token::StringLiteral(string_from_chars(&value)), location)))
    }

    /// Scans a triple string literal after its opening delimiters. A line
    /// break right after them is left out; when there was one, the last line
    /// sets the indentation that every line loses.
    #[verifier::spinoff_prover]
    #[verifier::rlimit(40)]
    fn scan_triple_string_literal(&mut self, delim: char, start: Location) -> (r: Result<Option<(Token, Location)>, ParserFailure>)
        requires
            old(self).inv(),
            delim == '"' || delim == '\'',
        ensures
            final(self).inv(),
            final(self).extends(old(self)),
            final(self).source.comments == old(self).source.comments,
            match triple_string_at(old(self).text(), old(self).pos(), delim) {
                None => r is Err && final(self).source.invalidated,
                Some((v, e, f)) => {
                    &&& r matches Ok(Some((Token::StringLiteral(x), loc)))
                        && x@ == v && loc == Location::combine_with_spec(start, final(self).cursor())
                    &&& final(self).pos() == e
                    &&& f ==> final(self).source.invalidated
                    &&& !f ==> final(self).source.diagnostics == old(self).source.diagnostics
                        && final(self).source.invalidated == old(self).source.invalidated
                },
            },
    {
        let ghost s = self.text();
        let ghost p = self.pos();
        let initial_line_break = self.consume_line_terminator();
        let ghost i0 = self.pos();
        let mut lines: Vec<Vec<char>> = Vec::new();
        let mut builder: Vec<char> = Vec::new();
        let ghost mut flag = false;
        loop
            invariant_except_break
                self.inv(),
                self.extends(old(self)),
                self.text() == s,
                s == old(self).text(),
                p == old(self).pos(),
                i0 == p + line_terminator_len(s, p),
                initial_line_break == (line_terminator_len(s, p) > 0),
                i0 <= self.pos() <= s.len(),
                delim == '"' || delim == '\'',
                self.source.comments == old(self).source.comments,
                flag ==> self.source.invalidated,
                !flag ==> self.source.diagnostics == old(self).source.diagnostics
                    && self.source.invalidated == old(self).source.invalidated,
                triple_lines(s, i0, delim, Seq::<char>::empty()) == match triple_lines(s, self.pos(), delim, builder@) {
                    Some((ls, e, f)) => Some((line_views(lines@) + ls, e, flag || f)),
                    None => None,
                },
            ensures
                self.inv(),
                self.extends(old(self)),
                self.text() == s,
                self.source.comments == old(self).source.comments,
                flag ==> self.source.invalidated,
                !flag ==> self.source.diagnostics == old(self).source.diagnostics
                    && self.source.invalidated == old(self).source.invalidated,
                triple_lines(s, i0, delim, Seq::<char>::empty()) == Some((line_views(lines@), self.pos(), flag)),
                initial_line_break == (line_terminator_len(s, p) > 0),
                i0 == p + line_terminator_len(s, p),
            decreases s.len() - self.pos(),
        {
            let ghost before = *self;
            let ghost bp = self.pos();
            proof { lemma_escape_at(s, bp); }
            match self.consume_escape_sequence() {
                Err(e) => {
                    proof { lemma_extends_trans(old(self), &before, self); }
                    return Err(e);
                },
                Ok(Some(x)) => {
                    proof {
                        lemma_extends_trans(old(self), &before, self);
                        let (v, e, f) = escape_at(s, bp).unwrap().unwrap();
                        flag = flag || f;
                    }
                    push_str(&mut builder, x.as_str());
                },
                Ok(None) => {
                    let ch = self.peek_or_zero();
                    if ch == delim && self.peek_at_or_zero(1) == delim && self.peek_at_or_zero(2) == delim {
                        self.skip_count_in_place(3);
                        proof {
                            lemma_extends_same_source(&before, self);
                            lemma_extends_trans(old(self), &before, self);
                            assert(escape_at(s, bp) == Some::<Option<(Seq<char>, int, bool)>>(None));
                            assert(triple_lines(s, bp, delim, builder@) == Some((seq![builder@], bp + 3, false)));
                            assert(line_views(lines@.push(builder)) =~= line_views(lines@) + seq![builder@]);
                        }
                        lines.push(builder);
                        break;
                    } else if is_line_terminator(ch) {
                        proof {
                            assert(line_views(lines@.push(builder)) =~= line_views(lines@).push(builder@));
                            match triple_lines(s, bp + line_terminator_len(s, bp), delim, Seq::<char>::empty()) {
                                Some((ls, e, f)) => {
                                    assert(line_views(lines@) + (seq![builder@] + ls)
                                        =~= line_views(lines@).push(builder@) + ls);
                                },
                                None => {},
                            }
                        }
                        lines.push(builder);
                        builder = Vec::new();
                        self.consume_line_terminator();
                        proof {
                            lemma_extends_trans(old(self), &before, self);
                        }
                    } else if !self.has_remaining() {
                        self.add_unexpected_error();
                        proof { lemma_extends_trans(old(self), &before, self); }
                        return Err(ParserFailure);
                    } else {
                        builder.push(ch);
                        self.next();
                        proof {
                            lemma_extends_same_source(&before, self);
                            lemma_extends_trans(old(self), &before, self);
                        }
                    }
                },
            }
        }
        let location = start.combine_with(self.current_cursor_location());
        let value = triple_string_value(&lines, initial_line_break);
        Ok(Some((Token::StringLiteral(string_from_chars(&value)), location)))
    }

    /// Scans a hexadecimal literal after `0x`.
    fn scan_hex_literal(&mut self, start: Location) -> (r: Result<Option<(Token, Location)>, ParserFailure>)
        requires
            old(self).inv(),
            old(self).pos() >= 2,
        ensures
            integer_literal_post(old(self), final(self), r, start, 16),
    {
        self.scan_integer_literal(start, 16)
    }

    /// Scans a binary literal after `0b`.
    fn scan_bin_literal(&mut self, start: Location) -> (r: Result<Option<(Token, Location)>, ParserFailure>)
        requires
            old(self).inv(),
            old(self).pos() >= 2,
        ensures
            integer_literal_post(old(self), final(self), r, start, 2),
    {
        self.scan_integer_literal(start, 2)
    }

    fn scan_integer_literal(&mut self, start: Location, radix: u32) -> (r: Result<Option<(Token, Location)>, ParserFailure>)
        requires
            old(self).inv(),
            old(self).pos() >= 2,
            radix == 2 || radix == 16,
        ensures
            integer_literal_post(old(self), final(self), r, start, radix as nat),
    {
        let ghost s = self.text();
        let ghost p = self.pos();
        let first = self.index;
        if !is_digit_of_radix(self.peek_or_zero(), radix) {
            self.add_unexpected_error();
            return Err(ParserFailure);
        }
        proof { lemma_digit_run_end(s, p, radix as nat); }
        let d = self.scan_digits(radix);
        if d.is_err() {
            return Err(ParserFailure);
        }
        let ghost after_digits = *self;
        self.unallow_numeric_suffix();
        proof { lemma_extends_trans(old(self), &after_digits, self); }
        let location = start.combine_with(self.current_cursor_location());
        let digits = self.chars_without_underscores(first, self.index);
        proof { lemma_without_underscores_digits(s, p, radix as nat); }
        let Some(n) = parse_digits(&digits, radix as u64, 0x20_0000_0000_0000) else {
            let ghost m = *self;
            self.add_diagnostic(Diagnostic::new_syntax_error(&location, DiagnosticKind::FailedProcessingNumericLiteral, Vec::new()));
            proof { lemma_extends_trans(old(self), &m, self); }
            return Err(ParserFailure);
        };
        Ok(Some((Token::NumericLiteral(NumericValue::Integer(n)), location)))
    }

}


/// Scanning that has not touched the source extends the state it started from.
pub proof fn lemma_extends_same_source(a: &Tokenizer, b: &Tokenizer)
    requires
        a.source == b.source,
        b.pos() >= a.pos(),
    ensures
        b.extends(a),
{
    assert(b.source.diagnostics@.subrange(0, a.source.diagnostics@.len() as int) =~= a.source.diagnostics@);
    assert(b.source.comments@.subrange(0, a.source.comments@.len() as int) =~= a.source.comments@);
    assert(b.source.line_number_offsets@.subrange(0, a.source.line_number_offsets@.len() as int)
        =~= a.source.line_number_offsets@);
}

/// Extending is transitive.
pub proof fn lemma_extends_trans(a: &Tokenizer, b: &Tokenizer, c: &Tokenizer)
    requires
        b.extends(a),
        c.extends(b),
    ensures
        c.extends(a),
{
    assert(c.source.diagnostics@.subrange(0, a.source.diagnostics@.len() as int)
        =~= c.source.diagnostics@.subrange(0, b.source.diagnostics@.len() as int).subrange(0, a.source.diagnostics@.len() as int));
    assert(c.source.comments@.subrange(0, a.source.comments@.len() as int)
        =~= c.source.comments@.subrange(0, b.source.comments@.len() as int).subrange(0, a.source.comments@.len() as int));
    assert(c.source.line_number_offsets@.subrange(0, a.source.line_number_offsets@.len() as int)
        =~= c.source.line_number_offsets@.subrange(0, b.source.line_number_offsets@.len() as int).subrange(0, a.source.line_number_offsets@.len() as int));
}

/// Whether the character at `k` ends a line: a line terminator, but for a
/// CR that an LF follows (the pair ends one line, at the LF).
pub open spec fn ends_line(s: Seq<char>, k: int) -> bool {
    &&& 0 <= k < s.len()
    &&& spec_is_line_terminator(s[k])
    &&& !(s[k] == '\x0D' && char_at(s, k + 1) == '\x0A')
}

/// The number of lines that end before index `p`.
pub open spec fn line_count(s: Seq<char>, p: int) -> nat
    decreases p,
{
    if p <= 0 {
        0
    } else {
        line_count(s, p - 1) + if ends_line(s, p - 1) { 1nat } else { 0nat }
    }
}

/// The first index at or after `i` that holds a line terminator, or the end
/// of the text.
pub open spec fn line_end_from(s: Seq<char>, i: int) -> int
    decreases s.len() - i,
{
    if i >= s.len() || i < 0 {
        if i < 0 { 0 } else { i }
    } else if spec_is_line_terminator(s[i]) {
        i
    } else {
        line_end_from(s, i + 1)
    }
}

pub proof fn lemma_line_end_from(s: Seq<char>, i: int)
    requires
        0 <= i,
    ensures
        i <= line_end_from(s, i),
        i <= s.len() ==> line_end_from(s, i) <= s.len(),
        line_end_from(s, i) < s.len() ==> spec_is_line_terminator(s[line_end_from(s, i)]),
        forall|k: int| i <= k < line_end_from(s, i) && k < s.len() ==> !spec_is_line_terminator(#[trigger] s[k]),
    decreases s.len() - i,
{
    if i < s.len() && !spec_is_line_terminator(s[i]) {
        lemma_line_end_from(s, i + 1);
    }
}

/// The first index at or after `i` where `*/` starts, if there is one.
pub open spec fn comment_close_from(s: Seq<char>, i: int) -> Option<int>
    decreases s.len() - i,
{
    if i < 0 || i + 1 >= s.len() {
        None
    } else if s[i] == '*' && s[i + 1] == '/' {
        Some(i)
    } else {
        comment_close_from(s, i + 1)
    }
}

pub proof fn lemma_comment_close_from(s: Seq<char>, i: int)
    requires
        0 <= i,
    ensures
        comment_close_from(s, i) matches Some(c) ==> i <= c && c + 1 < s.len() && s[c] == '*' && s[c + 1] == '/',
    decreases s.len() - i,
{
    if i + 1 < s.len() && !(s[i] == '*' && s[i + 1] == '/') {
        lemma_comment_close_from(s, i + 1);
    }
}

/// Where whitespace, line terminators and comments starting at `i` end;
/// `None` when they run into a multi-line comment that is never closed.
pub open spec fn trivia_end(s: Seq<char>, i: int) -> Option<int>
    decreases s.len() - i,
{
    if i < 0 || i >= s.len() {
        Some(i)
    } else if spec_is_whitespace(s[i]) {
        trivia_end(s, i + 1)
    } else if line_terminator_len(s, i) > 0 {
        if i + line_terminator_len(s, i) <= s.len() { trivia_end(s, i + line_terminator_len(s, i)) } else { None }
    } else if s[i] == '/' && char_at(s, i + 1) == '/' {
        let q = line_end_from(s, i + 2);
        proof { lemma_line_end_from(s, i + 2); }
        if i < q + line_terminator_len(s, q) <= s.len() { trivia_end(s, q + line_terminator_len(s, q)) } else { None }
    } else if s[i] == '/' && char_at(s, i + 1) == '*' {
        match comment_close_from(s, i + 2) {
            Some(c) => if i < c + 2 <= s.len() { trivia_end(s, c + 2) } else { None },
            None => None,
        }
    } else {
        Some(i)
    }
}

/// The syntax error recorded where scanning cannot go on at index `p` of `s`:
/// an unexpected or invalid token spanning the next character, or, at the
/// end of the text, an unexpected end at that point.
pub open spec fn is_unexpected_diagnostic(d: Diagnostic, s: Seq<char>, p: int) -> bool {
    &&& !d.is_warning
    &&& !d.is_verify_error
    &&& d.arguments@.len() == 0
    &&& if p < s.len() {
        &&& d.kind == DiagnosticKind::UnexpectedOrInvalidToken
        &&& d.location == Location::with_line_and_offsets_spec((1 + line_count(s, p)) as usize,
            byte_offset(s, p) as usize, (byte_offset(s, p + 1) + 1) as usize)
    } else {
        &&& d.kind == DiagnosticKind::UnexpectedEnd
        &&& d.location == Location::with_line_and_offset_spec((1 + line_count(s, p)) as usize, byte_offset(s, p) as usize)
    }
}

/// Whether scanning the InputElementDiv token at index `q` records no
/// diagnostic: it succeeds, and it is not a numeric literal followed by an
/// identifier character nor a string literal with a line break in it.
pub open spec fn token_scan_quiet(s: Seq<char>, q: int) -> bool {
    let c = char_at(s, q);
    match identifier_at(s, q) {
        None => false,
        Some(Some(_)) => true,
        Some(None) => if c == '.' && !spec_is_dec_digit(char_at(s, q + 1)) {
            true
        } else if c == '0' && (char_at(s, q + 1) == 'x' || char_at(s, q + 1) == 'X') {
            integer_literal_quiet(s, q + 2, 16)
        } else if c == '0' && (char_at(s, q + 1) == 'b' || char_at(s, q + 1) == 'B') {
            integer_literal_quiet(s, q + 2, 2)
        } else if c == '.' || spec_is_dec_digit(c) {
            match decimal_literal_end(s, q) {
                Some(e) => !spec_is_identifier_start(char_at(s, e)),
                None => false,
            }
        } else if c == '"' || c == '\'' {
            let body = if char_at(s, q + 1) == c && char_at(s, q + 2) == c {
                triple_string_at(s, q + 3, c)
            } else {
                string_body(s, q + 1, c)
            };
            match body {
                Some((_, _, f)) => !f,
                None => false,
            }
        } else {
            punctuator_at(s, q) is Some || q >= s.len()
        },
    }
}

/// Whether no InputElementDiv token starts at index `q`, a character of the
/// text: neither an identifier, a numeric or string literal nor a
/// punctuator.
pub open spec fn starts_no_token(s: Seq<char>, q: int) -> bool {
    let c = char_at(s, q);
    &&& q < s.len()
    &&& identifier_at(s, q) == Some(None::<(Seq<char>, bool, int)>)
    &&& c != '.' && !spec_is_dec_digit(c) && c != '"' && c != '\''
    &&& punctuator_at(s, q) is None
}

/// A comment as the scan records it: whether it is a multi-line comment,
/// and its content.
pub open spec fn comment_view(c: Comment) -> (bool, Seq<char>) {
    (c.multiline, c.content@)
}

/// The views of a list of comments, in order.
pub open spec fn comment_views(cs: Seq<Comment>) -> Seq<(bool, Seq<char>)> {
    cs.map_values(|c: Comment| comment_view(c))
}

/// The comments among the whitespace, line terminators and comments starting
/// at `i`, in order: for each, whether it is a multi-line comment and its
/// content (after `//` up to the line's end, or between `/*` and `*/`).
pub open spec fn trivia_comments(s: Seq<char>, i: int) -> Seq<(bool, Seq<char>)>
    decreases s.len() - i,
{
    if i < 0 || i >= s.len() {
        Seq::empty()
    } else if spec_is_whitespace(s[i]) {
        trivia_comments(s, i + 1)
    } else if line_terminator_len(s, i) > 0 {
        if i + line_terminator_len(s, i) <= s.len() { trivia_comments(s, i + line_terminator_len(s, i)) } else { Seq::empty() }
    } else if s[i] == '/' && char_at(s, i + 1) == '/' {
        let q = line_end_from(s, i + 2);
        proof { lemma_line_end_from(s, i + 2); }
        if i < q + line_terminator_len(s, q) <= s.len() {
            seq![(false, s.subrange(i + 2, q))] + trivia_comments(s, q + line_terminator_len(s, q))
        } else {
            Seq::empty()
        }
    } else if s[i] == '/' && char_at(s, i + 1) == '*' {
        match comment_close_from(s, i + 2) {
            Some(c) => if i < c + 2 <= s.len() {
                seq![(true, s.subrange(i + 2, c))] + trivia_comments(s, c + 2)
            } else {
                Seq::empty()
            },
            None => Seq::empty(),
        }
    } else {
        Seq::empty()
    }
}

/// The punctuator that starts at `i`, with its length in characters, as the
/// tokenizer decides it: the longest spelling that matches.
pub open spec fn punctuator_at(s: Seq<char>, i: int) -> Option<(Token, int)> {
    let c0 = char_at(s, i);
    if c0 == ',' {
        Some((Token::Comma, 1))
    } else if c0 == '(' {
        Some((Token::LeftParen, 1))
    } else if c0 == ')' {
        Some((Token::RightParen, 1))
    } else if c0 == '[' {
        Some((Token::LeftBracket, 1))
    } else if c0 == ']' {
        Some((Token::RightBracket, 1))
    } else if c0 == '{' {
        Some((Token::LeftBrace, 1))
    } else if c0 == '}' {
        Some((Token::RightBrace, 1))
    } else if c0 == ':' {
        if char_at(s, i + 1) == ':' { Some((Token::ColonColon, 2)) }
        else { Some((Token::Colon, 1)) }
    } else if c0 == '=' {
        if char_at(s, i + 1) == '>' { Some((Token::FatArrow, 2)) }
        else if char_at(s, i + 1) == '=' && char_at(s, i + 2) == '=' { Some((Token::StrictEquals, 3)) }
        else if char_at(s, i + 1) == '=' { Some((Token::Equals, 2)) }
        else { Some((Token::Assign, 1)) }
    } else if c0 == '!' {
        if char_at(s, i + 1) == '=' && char_at(s, i + 2) == '=' { Some((Token::StrictNotEquals, 3)) }
        else if char_at(s, i + 1) == '=' { Some((Token::NotEquals, 2)) }
        else { Some((Token::Exclamation, 1)) }
    } else if c0 == '?' {
        if char_at(s, i + 1) == '.' { Some((Token::OptionalChaining, 2)) }
        else if char_at(s, i + 1) == '?' && char_at(s, i + 2) == '=' { Some((Token::NullCoalescingAssign, 3)) }
        else if char_at(s, i + 1) == '?' { Some((Token::NullCoalescing, 2)) }
        else { Some((Token::Question, 1)) }
    } else if c0 == ';' {
        Some((Token::Semicolon, 1))
    } else if c0 == '<' {
        if char_at(s, i + 1) == '=' { Some((Token::Le, 2)) }
        else if char_at(s, i + 1) == '<' && char_at(s, i + 2) == '=' { Some((Token::LeftShiftAssign, 3)) }
        else if char_at(s, i + 1) == '<' { Some((Token::LeftShift, 2)) }
        else { Some((Token::Lt, 1)) }
    } else if c0 == '>' {
        if char_at(s, i + 1) == '=' { Some((Token::Ge, 2)) }
        else if char_at(s, i + 1) == '>' && char_at(s, i + 2) == '=' { Some((Token::RightShiftAssign, 3)) }
        else if char_at(s, i + 1) == '>' && char_at(s, i + 2) == '>' && char_at(s, i + 3) == '=' { Some((Token::UnsignedRightShiftAssign, 4)) }
        else if char_at(s, i + 1) == '>' && char_at(s, i + 2) == '>' { Some((Token::UnsignedRightShift, 3)) }
        else if char_at(s, i + 1) == '>' { Some((Token::RightShift, 2)) }
        else { Some((Token::Gt, 1)) }
    } else if c0 == '@' {
        Some((Token::Attribute, 1))
    } else if c0 == '+' {
        if char_at(s, i + 1) == '+' { Some((Token::Increment, 2)) }
        else if char_at(s, i + 1) == '=' { Some((Token::AddAssign, 2)) }
        else { Some((Token::Plus, 1)) }
    } else if c0 == '-' {
        if char_at(s, i + 1) == '-' { Some((Token::Decrement, 2)) }
        else if char_at(s, i + 1) == '=' { Some((Token::SubtractAssign, 2)) }
        else { Some((Token::Minus, 1)) }
    } else if c0 == '*' {
        if char_at(s, i + 1) == '*' && char_at(s, i + 2) == '=' { Some((Token::PowerAssign, 3)) }
        else if char_at(s, i + 1) == '*' { Some((Token::Power, 2)) }
        else if char_at(s, i + 1) == '=' { Some((Token::MultiplyAssign, 2)) }
        else { Some((Token::Times, 1)) }
    } else if c0 == '/' {
        if char_at(s, i + 1) == '=' { Some((Token::DivideAssign, 2)) }
        else { Some((Token::Div, 1)) }
    } else if c0 == '%' {
        if char_at(s, i + 1) == '=' { Some((Token::RemainderAssign, 2)) }
        else { Some((Token::Remainder, 1)) }
    } else if c0 == '&' {
        if char_at(s, i + 1) == '&' && char_at(s, i + 2) == '=' { Some((Token::LogicalAndAssign, 3)) }
        else if char_at(s, i + 1) == '&' { Some((Token::LogicalAnd, 2)) }
        else if char_at(s, i + 1) == '=' { Some((Token::BitwiseAndAssign, 2)) }
        else { Some((Token::BitwiseAnd, 1)) }
    } else if c0 == '^' {
        if char_at(s, i + 1) == '^' && char_at(s, i + 2) == '=' { Some((Token::LogicalXorAssign, 3)) }
        else if char_at(s, i + 1) == '^' { Some((Token::LogicalXor, 2)) }
        else if char_at(s, i + 1) == '=' { Some((Token::BitwiseXorAssign, 2)) }
        else { Some((Token::BitwiseXor, 1)) }
    } else if c0 == '|' {
        if char_at(s, i + 1) == '|' && char_at(s, i + 2) == '=' { Some((Token::LogicalOrAssign, 3)) }
        else if char_at(s, i + 1) == '|' { Some((Token::LogicalOr, 2)) }
        else if char_at(s, i + 1) == '=' { Some((Token::BitwiseOrAssign, 2)) }
        else { Some((Token::BitwiseOr, 1)) }
    } else if c0 == '~' {
        Some((Token::BitwiseNot, 1))
    } else {
        None
    }
}

/// A punctuator token covers exactly its own spelling in the text.
pub proof fn lemma_punctuator_spelling(s: Seq<char>, i: int)
    requires
        0 <= i,
        punctuator_at(s, i) is Some,
    ensures
        ({
            let (t, n) = punctuator_at(s, i).unwrap();
            &&& i + n <= s.len()
            &&& punctuator_spelling(t) == s.subrange(i, i + n)
        }),
{
    let (t, n) = punctuator_at(s, i).unwrap();
    assert(char_at(s, i) != '\x00');
    assert(n >= 2 ==> char_at(s, i + 1) != '\x00');
    assert(n >= 3 ==> char_at(s, i + 2) != '\x00');
    assert(n >= 4 ==> char_at(s, i + 3) != '\x00');
    assert(i + n <= s.len());
    assert(punctuator_spelling(t) =~= s.subrange(i, i + n));
}

/// Longest match: wherever the text spells a punctuator that does not start
/// with `.`, the punctuator scanned there spells a prefix of the text at
/// least as long, so a shorter punctuator is never taken where a longer one
/// is written (`+=` is never read as `+` then `=`).
pub proof fn lemma_punctuator_longest_match(s: Seq<char>, i: int, t: Token)
    requires
        0 <= i,
        punctuator_spelling(t).len() > 0,
        punctuator_spelling(t)[0] != '.',
        i + punctuator_spelling(t).len() <= s.len(),
        s.subrange(i, i + punctuator_spelling(t).len() as int) == punctuator_spelling(t),
    ensures
        punctuator_at(s, i) matches Some((u, n)) && n >= punctuator_spelling(t).len()
            && i + n <= s.len() && punctuator_spelling(u) == s.subrange(i, i + n),
{
    let p = punctuator_spelling(t);
    assert(char_at(s, i) == p[0]) by { assert(s.subrange(i, i + p.len() as int)[0] == s[i]); }
    if p.len() >= 2 {
        assert(char_at(s, i + 1) == p[1]) by { assert(s.subrange(i, i + p.len() as int)[1] == s[i + 1]); }
    }
    if p.len() >= 3 {
        assert(char_at(s, i + 2) == p[2]) by { assert(s.subrange(i, i + p.len() as int)[2] == s[i + 2]); }
    }
    if p.len() >= 4 {
        assert(char_at(s, i + 3) == p[3]) by { assert(s.subrange(i, i + p.len() as int)[3] == s[i + 3]); }
    }
    assert(punctuator_at(s, i) is Some);
    lemma_punctuator_spelling(s, i);
}

/// Longest match in the scan itself: where the token at `q` is spelled by
/// the text as a punctuator that does not start with `.`, the scan gives a
/// punctuator token, it spells the text it covers, and it covers at least
/// that spelling.
pub proof fn lemma_scan_takes_longest_punctuator(s: Seq<char>, q: int, b: &Tokenizer,
    r: Result<(Token, Location), ParserFailure>, reserved_words: bool, t: Token)
    requires
        0 <= q,
        ie_div_outcome(s, q, b, r, reserved_words),
        punctuator_spelling(t).len() > 0,
        punctuator_spelling(t)[0] != '.',
        q + punctuator_spelling(t).len() <= s.len(),
        s.subrange(q, q + punctuator_spelling(t).len() as int) == punctuator_spelling(t),
    ensures
        r matches Ok((u, _)) && punctuator_spelling(u).len() >= punctuator_spelling(t).len()
            && b.pos() == q + punctuator_spelling(u).len()
            && punctuator_spelling(u) == s.subrange(q, b.pos()),
{
    let p = punctuator_spelling(t);
    assert(s[q] == p[0]) by { assert(s.subrange(q, q + p.len() as int)[0] == s[q]); }
    lemma_identifier_classes(s[q]);
    assert(identifier_char_at(s, q, true) == Some(None::<(char, bool, int)>));
    lemma_punctuator_longest_match(s, q, t);
    let (u, n) = punctuator_at(s, q).unwrap();
    assert(punctuator_spelling(u).len() == n);
}

/// The first index at or after `i` whose character is not a hexadecimal digit.
pub open spec fn hex_run_end(s: Seq<char>, i: int) -> int
    decreases s.len() - i,
{
    if i < 0 || i >= s.len() || !spec_is_hex_digit(s[i]) {
        i
    } else {
        hex_run_end(s, i + 1)
    }
}

pub proof fn lemma_hex_run_end(s: Seq<char>, i: int)
    requires
        0 <= i <= s.len(),
    ensures
        i <= hex_run_end(s, i) <= s.len(),
        forall|k: int| i <= k < hex_run_end(s, i) ==> spec_is_hex_digit(#[trigger] s[k]),
        !spec_is_hex_digit(char_at(s, hex_run_end(s, i))),
    decreases s.len() - i,
{
    if i < s.len() && spec_is_hex_digit(s[i]) {
        lemma_hex_run_end(s, i + 1);
    }
}

/// An identifier character, where there is one, lies within the text and
/// past its own start.
pub proof fn lemma_identifier_char_at(s: Seq<char>, i: int, start: bool)
    requires
        0 <= i <= s.len(),
    ensures
        identifier_char_at(s, i, start) matches Some(Some((c, e, j))) ==> i < j <= s.len(),
{
    if char_at(s, i + 2) == '{' && i + 3 <= s.len() {
        lemma_hex_run_end(s, i + 3);
    }
}

/// A string of one character.
fn char_string(c: char) -> (r: String)
    ensures
        r@ == seq![c],
{
    let mut v: Vec<char> = Vec::new();
    v.push(c);
    proof { assert(v@ =~= seq![c]); }
    string_from_chars(&v)
}

/// Whether `c` is a digit of the radix (2, 10 or 16).
pub open spec fn is_digit_of(c: char, radix: nat) -> bool {
    if radix == 2 {
        spec_is_bin_digit(c)
    } else if radix == 16 {
        spec_is_hex_digit(c)
    } else {
        spec_is_dec_digit(c)
    }
}

fn is_digit_of_radix(c: char, radix: u32) -> (r: bool)
    ensures
        r == is_digit_of(c, radix as nat),
{
    if radix == 2 {
        is_bin_digit(c)
    } else if radix == 16 {
        is_hex_digit(c)
    } else {
        is_dec_digit(c)
    }
}

/// Where a run of digits of a radix that starts at `i` ends; a digit may be
/// followed by `_` and another digit. `None` when an `_` is not followed by
/// a digit.
pub open spec fn digit_run_end(s: Seq<char>, i: int, radix: nat) -> Option<int>
    decreases s.len() - i,
{
    if i < 0 || i >= s.len() || !is_digit_of(s[i], radix) {
        Some(i)
    } else if char_at(s, i + 1) == '_' {
        if i + 2 < s.len() && is_digit_of(s[i + 2], radix) {
            digit_run_end(s, i + 3, radix)
        } else {
            None
        }
    } else {
        digit_run_end(s, i + 1, radix)
    }
}

pub proof fn lemma_digit_run_end(s: Seq<char>, i: int, radix: nat)
    requires
        0 <= i <= s.len(),
    ensures
        digit_run_end(s, i, radix) matches Some(e) ==> {
            &&& i <= e <= s.len()
            &&& !is_digit_of(char_at(s, e), radix)
            &&& forall|k: int| i <= k < e ==> is_digit_of(#[trigger] s[k], radix) || s[k] == '_'
            &&& (e > i ==> is_digit_of(s[e - 1], radix))
        },
    decreases s.len() - i,
{
    if i < s.len() && is_digit_of(s[i], radix) {
        if char_at(s, i + 1) == '_' {
            if i + 2 < s.len() && is_digit_of(s[i + 2], radix) {
                lemma_digit_run_end(s, i + 3, radix);
            }
        } else {
            lemma_digit_run_end(s, i + 1, radix);
        }
    }
}

/// The characters of `s` other than `_`.
pub open spec fn without_underscores(s: Seq<char>) -> Seq<char> {
    s.filter(|c: char| c != '_')
}

/// The digits of a run, with its `_` separators left out, are all digits of
/// the radix.
proof fn lemma_without_underscores_digits(s: Seq<char>, i: int, radix: nat)
    requires
        0 <= i <= s.len(),
        radix == 2 || radix == 16,
        digit_run_end(s, i, radix) is Some,
        is_digit_of(char_at(s, i), radix),
    ensures
        all_digits(without_underscores(s.subrange(i, digit_run_end(s, i, radix).unwrap())), radix),
        without_underscores(s.subrange(i, digit_run_end(s, i, radix).unwrap())).len() > 0,
{
    lemma_digit_run_end(s, i, radix);
    let e = digit_run_end(s, i, radix).unwrap();
    let t = s.subrange(i, e);
    let f = |c: char| c != '_';
    broadcast use vstd::seq_lib::group_filter_ensures;
    assert forall|k: int| 0 <= k < t.filter(f).len() implies
        (#[trigger] crate::character_validation::spec_hex_digit_mv(t.filter(f)[k])) is Some
        && digit_value(t.filter(f)[k]) < radix by {
        let c = t.filter(f)[k];
        assert(t.filter(f).contains(c));
        t.lemma_filter_contains_rev(f, c);
        let j = choose|j: int| 0 <= j < t.len() && t[j] == c;
        assert(s[i + j] == c);
        assert(is_digit_of(c, radix));
    }
    assert(t[0] == s[i]);
    assert(f(t[0]));
    assert(t.filter(f).contains(t[0]));
}

/// What consuming `_` and a digit of a radix does: nothing unless the next
/// character is `_`; past both when a digit follows it; an error otherwise.
pub open spec fn underscore_step_post(a: &Tokenizer, b: &Tokenizer, r: Result<(), ParserFailure>, radix: nat) -> bool {
    let s = a.text();
    let p = a.pos();
    &&& b.inv()
    &&& b.extends(a)
    &&& b.line() == a.line()
    &&& b.source.comments == a.source.comments
    &&& if char_at(s, p) != '_' {
        r is Ok && *b == *a
    } else if is_digit_of(char_at(s, p + 1), radix) {
        r is Ok && b.pos() == p + 2 && b.source == a.source
    } else {
        r is Err && b.source.invalidated
    }
}

/// What scanning the digits of a hexadecimal (radix 16) or binary (radix 2)
/// literal that start at `p` gives, `b` being the tokenizer afterwards: the
/// literal's value, when its digits are well formed and the value is at most
/// 2^53; an error otherwise.
pub open spec fn integer_literal_outcome(s: Seq<char>, p: int, b: &Tokenizer, r: Result<Option<(Token, Location)>, ParserFailure>, start: Location, radix: nat) -> bool {
    if !is_digit_of(char_at(s, p), radix) {
        r is Err && b.source.invalidated
    } else {
        match digit_run_end(s, p, radix) {
            None => r is Err && b.source.invalidated,
            Some(e) => {
                let v = digits_value(without_underscores(s.subrange(p, e)), radix);
                &&& b.pos() == e
                &&& (v <= 0x20_0000_0000_0000 ==> (r matches Ok(Some((Token::NumericLiteral(NumericValue::Integer(n)), loc)))
                    && n == v
                    && loc == Location::combine_with_spec(start, b.cursor())))
                &&& (v > 0x20_0000_0000_0000 ==> r is Err && b.source.invalidated)
                &&& (spec_is_identifier_start(char_at(s, e)) ==> b.source.invalidated)
            },
        }
    }
}

/// Whether an integer literal whose digits start at `p` scans without a
/// diagnostic: a digit starts it, its value fits, and no identifier
/// character follows it.
pub open spec fn integer_literal_quiet(s: Seq<char>, p: int, radix: nat) -> bool {
    &&& is_digit_of(char_at(s, p), radix)
    &&& match digit_run_end(s, p, radix) {
        Some(e) => digits_value(without_underscores(s.subrange(p, e)), radix) <= 0x20_0000_0000_0000
            && !spec_is_identifier_start(char_at(s, e)),
        None => false,
    }
}

pub open spec fn integer_literal_post(a: &Tokenizer, b: &Tokenizer, r: Result<Option<(Token, Location)>, ParserFailure>, start: Location, radix: nat) -> bool {
    &&& integer_literal_quiet(a.text(), a.pos(), radix) ==> b.source == a.source
    &&& b.inv()
    &&& b.extends(a)
    &&& b.line() == a.line()
    &&& b.source.comments == a.source.comments
    &&& integer_literal_outcome(a.text(), a.pos(), b, r, start, radix)
}

/// The token that a `.` at `i` starts when no decimal digit follows it:
/// `...`, `..` or `.`, with its length.
pub open spec fn dot_punctuator_at(s: Seq<char>, i: int) -> (Token, int) {
    if char_at(s, i + 1) == '.' && char_at(s, i + 2) == '.' {
        (Token::Ellipsis, 3)
    } else if char_at(s, i + 1) == '.' {
        (Token::Descendants, 2)
    } else {
        (Token::Dot, 1)
    }
}

/// Longest match for the punctuators that start with `.`: wherever the text
/// spells `.`, `..` or `...`, the dot punctuator taken there spells a prefix
/// of the text at least as long.
pub proof fn lemma_dot_punctuator_longest_match(s: Seq<char>, i: int, t: Token)
    requires
        0 <= i,
        t == Token::Dot || t == Token::Descendants || t == Token::Ellipsis,
        i + punctuator_spelling(t).len() <= s.len(),
        s.subrange(i, i + punctuator_spelling(t).len() as int) == punctuator_spelling(t),
    ensures
        dot_punctuator_at(s, i).1 >= punctuator_spelling(t).len(),
        i + dot_punctuator_at(s, i).1 <= s.len(),
        punctuator_spelling(dot_punctuator_at(s, i).0) == s.subrange(i, i + dot_punctuator_at(s, i).1),
{
    let p = punctuator_spelling(t);
    assert(s[i] == '.') by { assert(s.subrange(i, i + p.len() as int)[0] == s[i]); }
    if p.len() >= 2 {
        assert(s[i + 1] == '.') by { assert(s.subrange(i, i + p.len() as int)[1] == s[i + 1]); }
    }
    if p.len() >= 3 {
        assert(s[i + 2] == '.') by { assert(s.subrange(i, i + p.len() as int)[2] == s[i + 2]); }
    }
    let (u, n) = dot_punctuator_at(s, i);
    assert(punctuator_spelling(u) =~= s.subrange(i, i + n));
}

/// Where the integer part of a decimal literal at `i` ends: the digits after
/// a leading `.`, a lone `0`, or a run of digits.
pub open spec fn decimal_integer_end(s: Seq<char>, i: int) -> Option<int> {
    if char_at(s, i) == '.' {
        digit_run_end(s, i + 1, 10)
    } else if char_at(s, i) == '0' {
        Some(i + 1)
    } else {
        digit_run_end(s, i, 10)
    }
}

/// Where the fraction of a decimal literal at `i` ends, its integer part
/// ending at `a`. A literal that starts with `.` has no other fraction.
pub open spec fn decimal_fraction_end(s: Seq<char>, i: int, a: int) -> Option<int> {
    if char_at(s, i) != '.' && char_at(s, a) == '.' {
        if spec_is_dec_digit(char_at(s, a + 1)) {
            digit_run_end(s, a + 1, 10)
        } else {
            None
        }
    } else {
        Some(a)
    }
}

/// Where the exponent of a decimal literal ends, the part before it ending
/// at `b`.
pub open spec fn decimal_exponent_end(s: Seq<char>, b: int) -> Option<int> {
    if char_at(s, b) == 'e' || char_at(s, b) == 'E' {
        let c = if char_at(s, b + 1) == '+' || char_at(s, b + 1) == '-' { b + 2 } else { b + 1 };
        if spec_is_dec_digit(char_at(s, c)) {
            digit_run_end(s, c, 10)
        } else {
            None
        }
    } else {
        Some(b)
    }
}

/// Where a decimal numeric literal that starts at `i` ends; `None` when it
/// is malformed.
pub open spec fn decimal_literal_end(s: Seq<char>, i: int) -> Option<int> {
    match decimal_integer_end(s, i) {
        None => None,
        Some(a) => match decimal_fraction_end(s, i, a) {
            None => None,
            Some(b) => decimal_exponent_end(s, b),
        },
    }
}

/// The character that a one-character escape such as `\n` stands for.
pub open spec fn single_escape_value(c: char) -> Option<char> {
    if c == '\'' || c == '"' || c == '\\' {
        Some(c)
    } else if c == 'b' {
        Some('\x08')
    } else if c == 'f' {
        Some('\x0C')
    } else if c == 'n' {
        Some('\x0A')
    } else if c == 'r' {
        Some('\x0D')
    } else if c == 't' {
        Some('\x09')
    } else if c == 'v' {
        Some('\x0B')
    } else {
        None
    }
}

/// The escape sequence at `i`: the characters it stands for, the index past
/// it, and whether an error is recorded although scanning goes on (a decimal
/// digit after `\0`, or an escaped decimal digit). `Some(None)` when no `\`
/// is there; `None` when the sequence is malformed.
pub open spec fn escape_at(s: Seq<char>, i: int) -> Option<Option<(Seq<char>, int, bool)>> {
    if char_at(s, i) != '\\' {
        Some(None)
    } else if i + 1 >= s.len() {
        None
    } else if line_terminator_len(s, i + 1) > 0 {
        Some(Some((Seq::<char>::empty(), i + 1 + line_terminator_len(s, i + 1), false)))
    } else {
        let c = s[i + 1];
        if single_escape_value(c) is Some {
            Some(Some((seq![single_escape_value(c).unwrap()], i + 2, false)))
        } else if c == 'u' {
            match unicode_escape_at(s, i + 1) {
                Some((ch, e)) => Some(Some((seq![ch], e, false))),
                None => None,
            }
        } else if c == 'x' {
            if spec_is_hex_digit(char_at(s, i + 2)) && spec_is_hex_digit(char_at(s, i + 3)) {
                let v = digit_value(s[i + 2]) * 16 + digit_value(s[i + 3]);
                Some(Some((seq![(v as u32) as char], i + 4, false)))
            } else {
                None
            }
        } else if c == '0' {
            Some(Some((seq!['\x00'], i + 2, spec_is_dec_digit(char_at(s, i + 2)))))
        } else {
            Some(Some((seq![c], i + 2, spec_is_dec_digit(c))))
        }
    }
}

pub proof fn lemma_escape_at(s: Seq<char>, i: int)
    requires
        0 <= i <= s.len(),
    ensures
        escape_at(s, i) matches Some(Some((v, e, f))) ==> i < e <= s.len(),
{
    if char_at(s, i + 2) == '{' && i + 3 <= s.len() {
        lemma_hex_run_end(s, i + 3);
    }
}

/// The body of a string literal from `i` up to and past its closing
/// delimiter: the characters it stands for, the index past the delimiter,
/// and whether an error was recorded on the way (a line break, which is left
/// out of the value, or a soft escape error). `None` when the string or an
/// escape in it is malformed or never closed.
pub open spec fn string_body(s: Seq<char>, i: int, delim: char) -> Option<(Seq<char>, int, bool)>
    decreases s.len() - i,
{
    if i < 0 || i > s.len() {
        None
    } else {
        match escape_at(s, i) {
            None => None,
            Some(Some((v, e, f))) => if i < e <= s.len() {
                match string_body(s, e, delim) {
                    Some((rest, k, f2)) => Some((v + rest, k, f || f2)),
                    None => None,
                }
            } else {
                None
            },
            Some(None) => if i < s.len() && s[i] == delim {
                Some((Seq::<char>::empty(), i + 1, false))
            } else if i < s.len() && spec_is_line_terminator(s[i]) {
                if i + line_terminator_len(s, i) <= s.len() {
                    match string_body(s, i + line_terminator_len(s, i), delim) {
                        Some((rest, k, _)) => Some((rest, k, true)),
                        None => None,
                    }
                } else {
                    None
                }
            } else if i >= s.len() {
                None
            } else {
                match string_body(s, i + 1, delim) {
                    Some((rest, k, f2)) => Some((seq![s[i]] + rest, k, f2)),
                    None => None,
                }
            },
        }
    }
}

/// The lines of a triple string literal from `i` on, the current line
/// holding `b` so far; with the index past the closing delimiters and whether
/// an error was recorded on the way. `None` when an escape is malformed or
/// the literal is never closed.
pub open spec fn triple_lines(s: Seq<char>, i: int, delim: char, b: Seq<char>) -> Option<(Seq<Seq<char>>, int, bool)>
    decreases s.len() - i,
{
    if i < 0 || i > s.len() {
        None
    } else {
        match escape_at(s, i) {
            None => None,
            Some(Some((v, e, f))) => if i < e <= s.len() {
                match triple_lines(s, e, delim, b + v) {
                    Some((ls, k, f2)) => Some((ls, k, f || f2)),
                    None => None,
                }
            } else {
                None
            },
            Some(None) => if char_at(s, i) == delim && char_at(s, i + 1) == delim && char_at(s, i + 2) == delim {
                Some((seq![b], i + 3, false))
            } else if i < s.len() && spec_is_line_terminator(s[i]) {
                if i + line_terminator_len(s, i) <= s.len() {
                    match triple_lines(s, i + line_terminator_len(s, i), delim, Seq::<char>::empty()) {
                        Some((ls, k, f2)) => Some((seq![b] + ls, k, f2)),
                        None => None,
                    }
                } else {
                    None
                }
            } else if i >= s.len() {
                None
            } else {
                triple_lines(s, i + 1, delim, b.push(s[i]))
            },
        }
    }
}

/// Lines joined with `\n` between them.
pub open spec fn join_lines(ls: Seq<Seq<char>>) -> Seq<char>
    decreases ls.len(),
{
    if ls.len() == 0 {
        Seq::<char>::empty()
    } else if ls.len() == 1 {
        ls[0]
    } else {
        join_lines(ls.drop_last()) + seq!['\n'] + ls.last()
    }
}

/// A line without as many leading whitespace characters as it has, up to
/// `base`.
pub open spec fn dedent(l: Seq<char>, base: nat) -> Seq<char> {
    let k = if base <= spec_indent_count(l) { base } else { spec_indent_count(l) };
    l.subrange(k as int, l.len() as int)
}

/// The value of a triple string literal made of `lines`. When the literal
/// started with a line break and has more than one line, its last line sets
/// the indentation removed from the others and is kept only if more than
/// whitespace remains of it.
pub open spec fn triple_value(lines: Seq<Seq<char>>, initial_line_break: bool) -> Seq<char> {
    let split = initial_line_break && lines.len() > 1;
    let body = if split { lines.drop_last() } else { lines };
    let last = if split { lines.last() } else { Seq::<char>::empty() };
    let base = spec_indent_count(last);
    let dedented = Seq::new(body.len(), |k: int| dedent(body[k], base));
    let rest = last.subrange(base as int, last.len() as int);
    join_lines(if rest.len() > 0 { dedented.push(rest) } else { dedented })
}

/// The triple string literal whose body starts at `i`: its value, the index
/// past it, and whether an error was recorded on the way.
pub open spec fn triple_string_at(s: Seq<char>, i: int, delim: char) -> Option<(Seq<char>, int, bool)> {
    let lb = line_terminator_len(s, i);
    match triple_lines(s, i + lb, delim, Seq::<char>::empty()) {
        Some((lines, e, f)) => Some((triple_value(lines, lb > 0), e, f)),
        None => None,
    }
}

pub open spec fn line_views(ls: Seq<Vec<char>>) -> Seq<Seq<char>> {
    ls.map_values(|l: Vec<char>| l@)
}

/// Appends the characters of `l` from `from` on.
fn append_from(out: &mut Vec<char>, l: &Vec<char>, from: usize)
    requires
        from <= l.len(),
    ensures
        final(out)@ == old(out)@ + l@.subrange(from as int, l.len() as int),
{
    let mut i = from;
    while i < l.len()
        invariant
            from <= i <= l.len(),
            out@ == old(out)@ + l@.subrange(from as int, i as int),
        decreases l.len() - i,
    {
        out.push(l[i]);
        i = i + 1;
        assert(out@ =~= old(out)@ + l@.subrange(from as int, i as int));
    }
}

/// Builds the value of a triple string literal from its lines.
fn triple_string_value(lines: &Vec<Vec<char>>, initial_line_break: bool) -> (r: Vec<char>)
    ensures
        r@ == triple_value(line_views(lines@), initial_line_break),
{
    let ghost ls = line_views(lines@);
    let n = lines.len();
    let split = initial_line_break && n > 1;
    let count = if split { n - 1 } else { n };
    let empty: Vec<char> = Vec::new();
    let last: &Vec<char> = if split { &lines[n - 1] } else { &empty };
    let base = indent_count(last);
    let ghost body = if split { ls.drop_last() } else { ls };
    let ghost dedented = Seq::new(body.len(), |k: int| dedent(body[k], base as nat));
    proof {
        assert(last@ == if split { ls.last() } else { Seq::<char>::empty() });
    }
    let mut out: Vec<char> = Vec::new();
    let mut k: usize = 0;
    while k < count
        invariant
            count == body.len(),
            n == lines.len(),
            count <= n,
            ls == line_views(lines@),
            body == (if split { ls.drop_last() } else { ls }),
            dedented == Seq::new(body.len(), |k: int| dedent(body[k], base as nat)),
            k <= count,
            out@ == join_lines(dedented.take(k as int)),
        decreases count - k,
    {
        let l = &lines[k];
        proof { assert(l@ == body[k as int]); }
        let ind = indent_count(l);
        let from = if base <= ind { base } else { ind };
        let ghost prev = out@;
        if k > 0 {
            out.push('\n');
        }
        append_from(&mut out, l, from);
        proof {
            let t = dedented.take(k + 1);
            assert(t.drop_last() =~= dedented.take(k as int));
            assert(t.last() == dedent(body[k as int], base as nat));
            if k == 0 {
                assert(out@ =~= t[0]);
            } else {
                assert(out@ =~= prev + seq!['\n'] + t.last());
            }
        }
        k = k + 1;
    }
    proof { assert(dedented.take(count as int) =~= dedented); }
    if last.len() > base {
        let ghost prev = out@;
        if count > 0 {
            out.push('\n');
        }
        append_from(&mut out, last, base);
        proof {
            let rest = last@.subrange(base as int, last@.len() as int);
            let t = dedented.push(rest);
            assert(t.drop_last() =~= dedented);
            if count == 0 {
                assert(out@ =~= t[0]);
            } else {
                assert(out@ =~= prev + seq!['\n'] + t.last());
            }
        }
    }
    out
}

/// The location from index `q` to the current position of `b`, on its
/// current line.
pub open spec fn flat_location(b: &Tokenizer, q: int) -> Location {
    Location {
        first_line_number: b.line() as usize,
        last_line_number: b.line() as usize,
        first_offset: b.offset_of(q) as usize,
        last_offset: b.offset_of(b.pos()) as usize,
    }
}

/// A location that ends at the current position of `b` and starts at index
/// `q`, on a line that the tokenizer counted then.
pub open spec fn location_from(loc: Location, b: &Tokenizer, q: int) -> bool {
    &&& loc.first_offset == b.offset_of(q)
    &&& loc.last_offset == b.offset_of(b.pos())
    &&& loc.last_line_number == b.line()
}

pub open spec fn as_optional(r: Result<(Token, Location), ParserFailure>) -> Result<Option<(Token, Location)>, ParserFailure> {
    match r {
        Ok(x) => Ok(Some(x)),
        Err(e) => Err(e),
    }
}

/// What scanning an InputElementDiv token at index `q` (past any trivia)
/// gives, `b` being the tokenizer afterwards: an identifier or reserved
/// word; a `.` punctuator or a numeric literal; a string literal; another
/// punctuator; `Eof` at the end of the text; an error otherwise.
pub open spec fn ie_div_outcome(s: Seq<char>, q: int, b: &Tokenizer, r: Result<(Token, Location), ParserFailure>, reserved_words: bool) -> bool {
    let c = char_at(s, q);
    match identifier_at(s, q) {
        None => r is Err && b.source.invalidated,
        Some(Some((name, escaped, j))) => {
            &&& r matches Ok((t, loc)) && is_identifier_token(t, name, escaped, reserved_words)
                && loc == flat_location(b, q)
            &&& b.pos() == j
        },
        Some(None) => if c == '.' && !spec_is_dec_digit(char_at(s, q + 1)) {
            let (t, n) = dot_punctuator_at(s, q);
            r == Ok::<(Token, Location), ParserFailure>((t, flat_location(b, q))) && b.pos() == q + n
        } else if c == '0' && (char_at(s, q + 1) == 'x' || char_at(s, q + 1) == 'X') {
            integer_literal_outcome(s, q + 2, b, as_optional(r),
                Location::with_line_and_offset_spec(b.line() as usize, b.offset_of(q) as usize), 16)
        } else if c == '0' && (char_at(s, q + 1) == 'b' || char_at(s, q + 1) == 'B') {
            integer_literal_outcome(s, q + 2, b, as_optional(r),
                Location::with_line_and_offset_spec(b.line() as usize, b.offset_of(q) as usize), 2)
        } else if c == '.' || spec_is_dec_digit(c) {
            match decimal_literal_end(s, q) {
                None => r is Err && b.source.invalidated,
                Some(e) => {
                    &&& r matches Ok((Token::NumericLiteral(NumericValue::Decimal(d)), loc))
                        && d@ == without_underscores(s.subrange(q, e))
                        && loc == flat_location(b, q)
                    &&& b.pos() == e
                    &&& spec_is_identifier_start(char_at(s, e)) ==> b.source.invalidated
                },
            }
        } else if c == '"' || c == '\'' {
            let body = if char_at(s, q + 1) == c && char_at(s, q + 2) == c {
                triple_string_at(s, q + 3, c)
            } else {
                string_body(s, q + 1, c)
            };
            match body {
                None => r is Err && b.source.invalidated,
                Some((v, e, f)) => {
                    &&& r matches Ok((Token::StringLiteral(x), loc)) && x@ == v && location_from(loc, b, q)
                    &&& b.pos() == e
                    &&& f ==> b.source.invalidated
                },
            }
        } else {
            match punctuator_at(s, q) {
                Some((t, n)) => r == Ok::<(Token, Location), ParserFailure>((t, flat_location(b, q))) && b.pos() == q + n,
                None => if q >= s.len() {
                    r == Ok::<(Token, Location), ParserFailure>((Token::Eof, flat_location(b, q))) && b.pos() == q
                } else {
                    r is Err && b.source.invalidated
                },
            }
        },
    }
}

/// A punctuator lies within the text.
pub proof fn lemma_punctuator_length(s: Seq<char>, i: int)
    requires
        0 <= i,
        punctuator_at(s, i) is Some,
    ensures
        i + punctuator_at(s, i).unwrap().1 <= s.len(),
{
    let (t, n) = punctuator_at(s, i).unwrap();
    assert(char_at(s, i) != '\x00');
    assert(n >= 2 ==> char_at(s, i + 1) != '\x00');
    assert(n >= 3 ==> char_at(s, i + 2) != '\x00');
    assert(n >= 4 ==> char_at(s, i + 3) != '\x00');
}

/// The body of a regular expression from `i` up to and past its closing
/// `/`: the body, the index past the `/`, and whether an error was recorded
/// on the way (a backslash before a line terminator). A line terminator
/// stands as `\n` in the body; after a backslash, the backslash and the next
/// character are kept, and only a line terminator is moved past, so that any
/// other character is read again. `None` when the text ends first.
pub open spec fn regexp_body(s: Seq<char>, i: int) -> Option<(Seq<char>, int, bool)>
    decreases s.len() - i,
{
    if i < 0 || i > s.len() {
        None
    } else if char_at(s, i) == '/' {
        Some((Seq::<char>::empty(), i + 1, false))
    } else if char_at(s, i) == '\\' {
        if i + 1 >= s.len() {
            None
        } else {
            let lt = line_terminator_len(s, i + 1);
            if i + 1 + lt <= s.len() {
                match regexp_body(s, i + 1 + lt) {
                    Some((rest, k, f)) => Some((seq!['\\', s[i + 1]] + rest, k, f || lt > 0)),
                    None => None,
                }
            } else {
                None
            }
        }
    } else if i < s.len() && spec_is_line_terminator(s[i]) {
        if i + line_terminator_len(s, i) <= s.len() {
            match regexp_body(s, i + line_terminator_len(s, i)) {
                Some((rest, k, f)) => Some((seq!['\n'] + rest, k, f)),
                None => None,
            }
        } else {
            None
        }
    } else if i >= s.len() {
        None
    } else {
        match regexp_body(s, i + 1) {
            Some((rest, k, f)) => Some((seq![s[i]] + rest, k, f)),
            None => None,
        }
    }
}

/// How many line terminators escaped by a backslash the body of a regular
/// expression starting at `i` holds before its closing `/` or the end of the
/// text; each is reported as a syntax error.
pub open spec fn regexp_escaped_breaks(s: Seq<char>, i: int) -> nat
    decreases s.len() - i,
{
    if i < 0 || i >= s.len() {
        0
    } else if s[i] == '/' {
        0
    } else if s[i] == '\\' {
        if i + 1 >= s.len() {
            0
        } else {
            let lt = line_terminator_len(s, i + 1);
            if i + 1 + lt <= s.len() {
                (if lt > 0 { 1nat } else { 0nat }) + regexp_escaped_breaks(s, i + 1 + lt)
            } else {
                0
            }
        }
    } else if spec_is_line_terminator(s[i]) {
        if i + line_terminator_len(s, i) <= s.len() {
            regexp_escaped_breaks(s, i + line_terminator_len(s, i))
        } else {
            0
        }
    } else {
        regexp_escaped_breaks(s, i + 1)
    }
}

/// The regular expression whose body starts at `i`: its body, its flags
/// (IdentifierPart characters after the closing `/`), the index past it, and
/// whether an error was recorded on the way.
pub open spec fn regexp_at(s: Seq<char>, i: int) -> Option<(Seq<char>, Seq<char>, int, bool)> {
    match regexp_body(s, i) {
        Some((body, k, f)) => match identifier_parts_at(s, k) {
            Some((flags, _, e)) => Some((body, flags, e, f)),
            None => None,
        },
        None => None,
    }
}

/// The first index at or after `i` whose character is not an XML NamePart.
pub open spec fn xml_name_end(s: Seq<char>, i: int) -> int
    decreases s.len() - i,
{
    if i < 0 || i >= s.len() || !spec_is_xml_name_part(s[i]) {
        i
    } else {
        xml_name_end(s, i + 1)
    }
}

pub proof fn lemma_xml_name_end(s: Seq<char>, i: int)
    requires
        0 <= i <= s.len(),
    ensures
        i <= xml_name_end(s, i) <= s.len(),
    decreases s.len() - i,
{
    if i < s.len() && spec_is_xml_name_part(s[i]) {
        lemma_xml_name_end(s, i + 1);
    }
}

/// The first index at or after `i` whose character is not XML whitespace, a
/// CR LF pair being stepped over as one line terminator.
pub open spec fn xml_whitespace_end(s: Seq<char>, i: int) -> int
    decreases s.len() - i,
{
    if i < 0 || i >= s.len() || !spec_is_xml_whitespace(s[i]) {
        i
    } else if line_terminator_len(s, i) > 0 && i + line_terminator_len(s, i) <= s.len() {
        xml_whitespace_end(s, i + line_terminator_len(s, i))
    } else {
        xml_whitespace_end(s, i + 1)
    }
}

/// The index of the closing delimiter of an XML attribute value whose
/// characters start at `i`; `None` when the text ends first.
pub open spec fn xml_attribute_end(s: Seq<char>, i: int, delim: char) -> Option<int>
    decreases s.len() - i,
{
    if i < 0 || i >= s.len() {
        None
    } else if s[i] == delim {
        Some(i)
    } else if line_terminator_len(s, i) > 0 && i + line_terminator_len(s, i) <= s.len() {
        xml_attribute_end(s, i + line_terminator_len(s, i), delim)
    } else {
        xml_attribute_end(s, i + 1, delim)
    }
}

/// Where XML text that starts at `i` ends: at the first `<` or `{`; `None`
/// when the text ends first.
pub open spec fn xml_text_end(s: Seq<char>, i: int) -> Option<int>
    decreases s.len() - i,
{
    if i < 0 || i >= s.len() {
        None
    } else if s[i] == '<' || s[i] == '{' {
        Some(i)
    } else if line_terminator_len(s, i) > 0 && i + line_terminator_len(s, i) <= s.len() {
        xml_text_end(s, i + line_terminator_len(s, i))
    } else {
        xml_text_end(s, i + 1)
    }
}

/// The index past the first `close` at or after `i`; `None` when the text
/// ends first.
pub open spec fn markup_close_end(s: Seq<char>, i: int, close: Seq<char>) -> Option<int>
    decreases s.len() - i,
{
    if i < 0 || i > s.len() {
        None
    } else if i + close.len() <= s.len() && s.subrange(i, i + close.len() as int) == close {
        Some(i + close.len())
    } else if i >= s.len() {
        None
    } else if line_terminator_len(s, i) > 0 && i + line_terminator_len(s, i) <= s.len() {
        markup_close_end(s, i + line_terminator_len(s, i), close)
    } else {
        markup_close_end(s, i + 1, close)
    }
}

/// The XMLMarkup token after a `<`, with `i` the index past the `<`: a
/// comment, a CDATA section or a processing instruction, giving the index
/// past it; `Some(None)` when none starts here; `None` when it is never
/// closed.
pub open spec fn xml_markup_at(s: Seq<char>, i: int) -> Option<Option<int>> {
    if i + 3 <= s.len() && s.subrange(i, i + 3) == seq!['!', '-', '-'] {
        match markup_close_end(s, i + 3, seq!['-', '-', '>']) {
            Some(e) => Some(Some(e)),
            None => None,
        }
    } else if i + 8 <= s.len() && s.subrange(i, i + 8) == seq!['!', '[', 'C', 'D', 'A', 'T', 'A', '['] {
        match markup_close_end(s, i + 8, seq![']', ']', '>']) {
            Some(e) => Some(Some(e)),
            None => None,
        }
    } else if char_at(s, i) == '?' {
        match markup_close_end(s, i + 1, seq!['?', '>']) {
            Some(e) => Some(Some(e)),
            None => None,
        }
    } else {
        Some(None)
    }
}

/// What scanning an InputElementXMLContent token at `p` gives, `b` being the
/// tokenizer afterwards and `span` the location scanned.
pub open spec fn xml_content_outcome(s: Seq<char>, p: int, b: &Tokenizer, r: Result<(Token, Location), ParserFailure>, span: Location) -> bool {
    let c = char_at(s, p);
    if c == '<' {
        match xml_markup_at(s, p + 1) {
            Some(None) => if char_at(s, p + 1) == '/' {
                r == Ok::<(Token, Location), ParserFailure>((Token::XmlLtSlash, span)) && b.pos() == p + 2
            } else {
                r == Ok::<(Token, Location), ParserFailure>((Token::Lt, span)) && b.pos() == p + 1
            },
            Some(Some(e)) => r matches Ok((Token::XmlMarkup(x), loc))
                && x@ == s.subrange(p, e) && loc == span && b.pos() == e,
            None => r is Err && b.source.invalidated,
        }
    } else if c == '{' {
        r == Ok::<(Token, Location), ParserFailure>((Token::LeftBrace, span)) && b.pos() == p + 1
    } else {
        match xml_text_end(s, p) {
            Some(e) => r matches Ok((Token::XmlText(x), loc))
                && x@ == s.subrange(p, e) && loc == span && b.pos() == e,
            None => r is Err && b.source.invalidated,
        }
    }
}

/// What scanning an InputElementXMLTag token at `p` gives, `b` being the
/// tokenizer afterwards and `span` the location scanned.
pub open spec fn xml_tag_outcome(s: Seq<char>, p: int, b: &Tokenizer, r: Result<(Token, Location), ParserFailure>, span: Location) -> bool {
    let c = char_at(s, p);
    if spec_is_xml_name_start(c) {
        &&& r matches Ok((Token::XmlName(n), loc)) && n@ == s.subrange(p, xml_name_end(s, p + 1)) && loc == span
        &&& b.pos() == xml_name_end(s, p + 1)
    } else if spec_is_xml_whitespace(c) {
        r == Ok::<(Token, Location), ParserFailure>((Token::XmlWhitespace, span)) && b.pos() == xml_whitespace_end(s, p)
    } else if c == '=' {
        r == Ok::<(Token, Location), ParserFailure>((Token::Assign, span)) && b.pos() == p + 1
    } else if c == '>' {
        r == Ok::<(Token, Location), ParserFailure>((Token::Gt, span)) && b.pos() == p + 1
    } else if c == '/' {
        if char_at(s, p + 1) == '>' {
            r == Ok::<(Token, Location), ParserFailure>((Token::XmlSlashGt, span)) && b.pos() == p + 2
        } else {
            r is Err && b.source.invalidated
        }
    } else if c == '"' || c == '\'' {
        match xml_attribute_end(s, p + 1, c) {
            Some(k) => {
                &&& r matches Ok((Token::XmlAttributeValue(v), loc)) && v@ == s.subrange(p + 1, k) && loc == span
                &&& b.pos() == k + 1
            },
            None => r is Err && b.source.invalidated,
        }
    } else if c == '{' {
        r == Ok::<(Token, Location), ParserFailure>((Token::LeftBrace, span)) && b.pos() == p + 1
    } else {
        r is Err && b.source.invalidated
    }
}

/// The character that a UnicodeEscapeSequence starting at `i` (at the `u`
/// after a backslash) denotes, with the index just past it: either `u`
/// followed by four hexadecimal digits, or `u{`, one or more hexadecimal
/// digits and `}`. `None` when the sequence is malformed, its value exceeds
/// `u32`, or it is not a Unicode scalar value.
pub open spec fn unicode_escape_at(s: Seq<char>, i: int) -> Option<(char, int)> {
    if char_at(s, i) != 'u' {
        None
    } else if spec_is_hex_digit(char_at(s, i + 1)) {
        if spec_is_hex_digit(char_at(s, i + 2)) && spec_is_hex_digit(char_at(s, i + 3))
            && spec_is_hex_digit(char_at(s, i + 4)) {
            let v = digits_value(s.subrange(i + 1, i + 5), 16);
            if vstd::utf8::is_scalar(v as u32) {
                Some(((v as u32) as char, i + 5))
            } else {
                None
            }
        } else {
            None
        }
    } else if char_at(s, i + 1) != '{' {
        None
    } else {
        let k = hex_run_end(s, i + 2);
        if char_at(s, k) != '}' || k == i + 2 {
            None
        } else {
            let v = digits_value(s.subrange(i + 2, k), 16);
            if v <= u32::MAX && vstd::utf8::is_scalar(v as u32) {
                Some(((v as u32) as char, k + 1))
            } else {
                None
            }
        }
    }
}

/// One character of an identifier at `i`: a plain character (IdentifierStart
/// when `start`, IdentifierPart otherwise) or a backslash and a
/// UnicodeEscapeSequence. Gives the character, whether it was escaped and the
/// index past it; `Some(None)` when no identifier character is there; `None`
/// when a backslash starts a malformed escape.
pub open spec fn identifier_char_at(s: Seq<char>, i: int, start: bool) -> Option<Option<(char, bool, int)>> {
    if 0 <= i < s.len() && (if start { spec_is_identifier_start(s[i]) } else { spec_is_identifier_part(s[i]) }) {
        Some(Some((s[i], false, i + 1)))
    } else if char_at(s, i) == '\\' {
        match unicode_escape_at(s, i + 1) {
            Some((c, e)) => Some(Some((c, true, e))),
            None => None,
        }
    } else {
        Some(None)
    }
}

/// The IdentifierPart characters from `i` on: the characters, whether any was
/// escaped, and the index past them; `None` when a malformed escape is met.
pub open spec fn identifier_parts_at(s: Seq<char>, i: int) -> Option<(Seq<char>, bool, int)>
    decreases s.len() + 1 - i,
{
    if i < 0 || i > s.len() {
        None
    } else {
        match identifier_char_at(s, i, false) {
            None => None,
            Some(None) => Some((Seq::<char>::empty(), false, i)),
            Some(Some((c, e, j))) => if i < j <= s.len() {
                match identifier_parts_at(s, j) {
                    Some((rest, e2, k)) => Some((seq![c] + rest, e || e2, k)),
                    None => None,
                }
            } else {
                None
            },
        }
    }
}

/// The identifier that starts at `i`: its name, whether any character was
/// escaped and the index past it. `Some(None)` when no identifier starts here;
/// `None` when a malformed escape is met.
pub open spec fn identifier_at(s: Seq<char>, i: int) -> Option<Option<(Seq<char>, bool, int)>> {
    match identifier_char_at(s, i, true) {
        None => None,
        Some(None) => Some(None),
        Some(Some((c, e, j))) => match identifier_parts_at(s, j) {
            Some((rest, e2, k)) => Some(Some((seq![c] + rest, e || e2, k))),
            None => None,
        },
    }
}

/// Whether `t` is the token an identifier name stands for: a reserved word,
/// unless reserved words are off or the name was written with an escape, else
/// an identifier with that name.
pub open spec fn is_identifier_token(t: Token, name: Seq<char>, escaped: bool, reserved_words: bool) -> bool {
    if reserved_words && !escaped && spec_reserved_word_token(name) is Some {
        t == spec_reserved_word_token(name).unwrap()
    } else {
        t matches Token::Identifier(x) && x@ == name
    }
}

impl Location {
    pub open spec fn with_line_and_offsets_spec(line_number: usize, first_offset: usize, last_offset: usize) -> Location {
        Location { first_line_number: line_number, last_line_number: line_number, first_offset, last_offset }
    }

    pub open spec fn combine_with_spec(a: Location, b: Location) -> Location {
        Location {
            first_line_number: a.first_line_number,
            last_line_number: b.last_line_number,
            first_offset: a.first_offset,
            last_offset: b.last_offset,
        }
    }

    pub open spec fn combine_with_start_of_spec(a: Location, b: Location) -> Location {
        Location {
            first_line_number: a.first_line_number,
            last_line_number: b.first_line_number,
            first_offset: a.first_offset,
            last_offset: b.first_offset,
        }
    }

    pub open spec fn with_line_and_offset_spec(line_number: usize, offset: usize) -> Location {
        Location { first_line_number: line_number, last_line_number: line_number, first_offset: offset, last_offset: offset }
    }
}

} // verus!

verus! {

proof fn lemma_string_body_advances(s: Seq<char>, i: int, delim: char)
    requires
        string_body(s, i, delim) is Some,
    ensures
        i < string_body(s, i, delim).unwrap().1 <= s.len(),
    decreases s.len() - i,
{
    match escape_at(s, i) {
        Some(Some((v, e, f))) => {
            lemma_string_body_advances(s, e, delim);
        },
        Some(None) => {
            if i < s.len() && s[i] == delim {
            } else if i < s.len() && spec_is_line_terminator(s[i]) {
                lemma_string_body_advances(s, i + line_terminator_len(s, i), delim);
            } else {
                lemma_string_body_advances(s, i + 1, delim);
            }
        },
        None => {},
    }
}

proof fn lemma_triple_lines_advances(s: Seq<char>, i: int, delim: char, b: Seq<char>)
    requires
        triple_lines(s, i, delim, b) is Some,
    ensures
        i < triple_lines(s, i, delim, b).unwrap().1,
    decreases s.len() - i,
{
    match escape_at(s, i) {
        Some(Some((v, e, f))) => {
            lemma_triple_lines_advances(s, e, delim, b + v);
        },
        Some(None) => {
            if char_at(s, i) == delim && char_at(s, i + 1) == delim && char_at(s, i + 2) == delim {
            } else if i < s.len() && spec_is_line_terminator(s[i]) {
                lemma_triple_lines_advances(s, i + line_terminator_len(s, i), delim, Seq::<char>::empty());
            } else {
                lemma_triple_lines_advances(s, i + 1, delim, b.push(s[i]));
            }
        },
        None => {},
    }
}

proof fn lemma_digit_run_end_at_least(s: Seq<char>, i: int, radix: nat)
    requires
        digit_run_end(s, i, radix) is Some,
    ensures
        i <= digit_run_end(s, i, radix).unwrap(),
        0 <= i < s.len() && is_digit_of(s[i], radix) ==> i < digit_run_end(s, i, radix).unwrap(),
    decreases s.len() - i,
{
    if 0 <= i < s.len() && is_digit_of(s[i], radix) {
        if char_at(s, i + 1) == '_' {
            lemma_digit_run_end_at_least(s, i + 3, radix);
        } else {
            lemma_digit_run_end_at_least(s, i + 1, radix);
        }
    }
}

proof fn lemma_identifier_parts_at_advances(s: Seq<char>, i: int)
    requires
        identifier_parts_at(s, i) is Some,
    ensures
        i <= identifier_parts_at(s, i).unwrap().2,
    decreases s.len() + 1 - i,
{
    if 0 <= i <= s.len() {
        match identifier_char_at(s, i, false) {
            Some(Some((c, e, j))) => {
                if i < j <= s.len() {
                    lemma_identifier_parts_at_advances(s, j);
                }
            },
            _ => {},
        }
    }
}

/// Every token but `Eof` that an InputElementDiv scan gives covers at least
/// one character: scanning never yields a token without moving forward.
pub proof fn lemma_scanned_token_advances(s: Seq<char>, q: int, b: &Tokenizer, r: Result<(Token, Location), ParserFailure>, reserved_words: bool)
    requires
        0 <= q <= s.len(),
        ie_div_outcome(s, q, b, r, reserved_words),
        r matches Ok((t, _)) && t != Token::Eof,
    ensures
        b.pos() > q,
{
    let c = char_at(s, q);
    lemma_identifier_char_at(s, q, true);
    match identifier_at(s, q) {
        Some(Some((name, escaped, k))) => {
            let (c0, e0, j) = identifier_char_at(s, q, true).unwrap().unwrap();
            lemma_identifier_parts_at_advances(s, j);
        },
        Some(None) => {
            if c == '.' && !spec_is_dec_digit(char_at(s, q + 1)) {
            } else if c == '0' && (char_at(s, q + 1) == 'x' || char_at(s, q + 1) == 'X'
                || char_at(s, q + 1) == 'b' || char_at(s, q + 1) == 'B') {
                let radix: nat = if char_at(s, q + 1) == 'x' || char_at(s, q + 1) == 'X' { 16 } else { 2 };
                if is_digit_of(char_at(s, q + 2), radix) {
                    if digit_run_end(s, q + 2, radix) is Some {
                        lemma_digit_run_end_at_least(s, q + 2, radix);
                    }
                }
            } else if c == '.' || spec_is_dec_digit(c) {
                if let Some(e) = decimal_literal_end(s, q) {
                    let a = decimal_integer_end(s, q).unwrap();
                    if c == '.' {
                        lemma_digit_run_end_at_least(s, q + 1, 10);
                    } else if c != '0' {
                        lemma_digit_run_end_at_least(s, q, 10);
                        lemma_digit_run_end(s, q, 10);
                    }
                    let bb = decimal_fraction_end(s, q, a).unwrap();
                    if c != '.' && char_at(s, a) == '.' {
                        lemma_digit_run_end_at_least(s, a + 1, 10);
                    }
                    if char_at(s, bb) == 'e' || char_at(s, bb) == 'E' {
                        let cc = if char_at(s, bb + 1) == '+' || char_at(s, bb + 1) == '-' { bb + 2 } else { bb + 1 };
                        lemma_digit_run_end_at_least(s, cc, 10);
                    }
                }
            } else if c == '"' || c == '\'' {
                if char_at(s, q + 1) == c && char_at(s, q + 2) == c {
                    let lb = line_terminator_len(s, q + 3);
                    if triple_lines(s, q + 3 + lb, c, Seq::<char>::empty()) is Some {
                        lemma_triple_lines_advances(s, q + 3 + lb, c, Seq::<char>::empty());
                    }
                } else if string_body(s, q + 1, c) is Some {
                    lemma_string_body_advances(s, q + 1, c);
                }
            } else {
            }
        },
        None => {},
    }
}

} // verus!

verus! {

/// Trivia that end at all end within the text, at or after where they start.
pub proof fn lemma_trivia_end_bounds(s: Seq<char>, i: int)
    requires
        0 <= i <= s.len(),
    ensures
        trivia_end(s, i) matches Some(q) ==> i <= q <= s.len(),
    decreases s.len() - i,
{
    if i < s.len() {
        if spec_is_whitespace(s[i]) {
            lemma_trivia_end_bounds(s, i + 1);
        } else if line_terminator_len(s, i) > 0 {
            if i + line_terminator_len(s, i) <= s.len() {
                lemma_trivia_end_bounds(s, i + line_terminator_len(s, i));
            }
        } else if s[i] == '/' && char_at(s, i + 1) == '/' {
            let q = line_end_from(s, i + 2);
            lemma_line_end_from(s, i + 2);
            if i < q + line_terminator_len(s, q) <= s.len() {
                lemma_trivia_end_bounds(s, q + line_terminator_len(s, q));
            }
        } else if s[i] == '/' && char_at(s, i + 1) == '*' {
            match comment_close_from(s, i + 2) {
                Some(c) => {
                    if i < c + 2 <= s.len() {
                        lemma_trivia_end_bounds(s, c + 2);
                    }
                },
                None => {},
            }
        }
    }
}

} // verus!
