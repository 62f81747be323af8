//! ActionScript source files, with their comments, line table and diagnostics.

use vstd::prelude::*;
use std::rc::Rc;
use crate::character_validation::{spec_is_whitespace, spec_is_line_terminator, is_whitespace, is_line_terminator, spec_indent_count};
use crate::compiler_options::CompilerOptions;
use crate::diagnostics::Diagnostic;
use crate::location::{Location, utf8_len, utf8_width, byte_offset, char_width, str_byte_len,
    lemma_byte_offset_step, lemma_byte_offset_strictly_increasing};
use crate::util::{string_chars, string_from_chars, push_str, decimal_digits, decimal_string};
use crate::diagnostics::{late_formatted, default_message, diagnostic_id, argument_keys, argument_texts};

verus! {

/// Whether a UTF-8 offset falls between two characters of `s` (or at either end).
pub open spec fn is_boundary(s: Seq<char>, b: int) -> bool {
    exists|i: int| 0 <= i <= s.len() && byte_offset(s, i) == b
}

/// The index of the character that starts at a UTF-8 offset.
pub open spec fn char_index_at(s: Seq<char>, b: int) -> int {
    choose|i: int| 0 <= i <= s.len() && byte_offset(s, i) == b
}

/// Two indices with the same offset are the same index.
pub proof fn lemma_char_index_unique(s: Seq<char>, i: int, j: int)
    requires
        0 <= i <= s.len(),
        0 <= j <= s.len(),
        byte_offset(s, i) == byte_offset(s, j),
    ensures
        i == j,
{
    if i < j {
        lemma_byte_offset_strictly_increasing(s, i, j);
    } else if j < i {
        lemma_byte_offset_strictly_increasing(s, j, i);
    }
}

pub proof fn lemma_char_index_at(s: Seq<char>, i: int)
    requires
        0 <= i <= s.len(),
    ensures
        is_boundary(s, byte_offset(s, i) as int),
        char_index_at(s, byte_offset(s, i) as int) == i,
{
    let b = byte_offset(s, i) as int;
    assert(0 <= i <= s.len() && byte_offset(s, i) == b);
    let k = char_index_at(s, b);
    lemma_char_index_unique(s, i, k);
}

/// Finds the index of the character that starts at a UTF-8 offset.
pub fn char_index_of_offset(chars: &Vec<char>, b: usize) -> (r: Option<usize>)
    requires
        utf8_len(chars@) <= usize::MAX,
    ensures
        r is Some <==> is_boundary(chars@, b as int),
        r matches Some(i) ==> i <= chars.len() && byte_offset(chars@, i as int) == b
            && char_index_at(chars@, b as int) == i,
{
    let mut i: usize = 0;
    let mut off: usize = 0;
    proof {
        assert(chars@.take(0) =~= Seq::<char>::empty());
        lemma_byte_offset_strictly_increasing(chars@, 0, chars@.len() as int);
        assert(chars@.take(chars@.len() as int) =~= chars@);
    }
    while i < chars.len() && off < b
        invariant
            i <= chars.len(),
            off == byte_offset(chars@, i as int),
            utf8_len(chars@) <= usize::MAX,
            byte_offset(chars@, chars@.len() as int) == utf8_len(chars@),
            forall|k: int| 0 <= k < i ==> byte_offset(chars@, k) < b,
        decreases chars.len() - i,
    {
        proof {
            lemma_byte_offset_step(chars@, i as int);
            lemma_byte_offset_strictly_increasing(chars@, i as int + 1, chars@.len() as int);
        }
        off = off + char_width(chars[i]);
        i = i + 1;
    }
    if off == b {
        proof { lemma_char_index_at(chars@, i as int); }
        Some(i)
    } else {
        proof {
            assert forall|k: int| 0 <= k <= chars@.len() implies byte_offset(chars@, k) != b by {
                if k > i {
                    lemma_byte_offset_strictly_increasing(chars@, i as int, k);
                }
            }
        }
        None
    }
}

/// Represents a comment.
#[derive(Debug)]
pub struct Comment {
    pub multiline: bool,
    pub content: String,
    pub location: Location,
}

impl Clone for Comment {
    fn clone(&self) -> (r: Self)
        ensures
            r == *self,
    {
        Comment { multiline: self.multiline, content: self.content.clone(), location: self.location }
    }
}

impl Comment {
    pub fn new(multiline: bool, content: String, location: Location) -> (r: Self)
        ensures
            r == (Comment { multiline, content, location }),
    {
        Self { multiline, content, location }
    }

    pub fn multiline(&self) -> (r: bool)
        ensures
            r == self.multiline,
    {
        self.multiline
    }

    /// The content of the comment.
    /// * If it is a multi-line comment, it includes all the characters after `/*` until `*/` (exclusive).
    /// * If it is a single-line comment, it includes all the characters after `//`
    /// until the next line terminator (exclusive) or end of program.
    pub fn content(&self) -> (r: String)
        ensures
            r@ == self.content@,
    {
        self.content.clone()
    }

    pub fn set_content(&mut self, content: String)
        ensures
            *final(self) == (Comment { content, ..*old(self) }),
    {
        self.content = content;
    }

    pub fn location(&self) -> (r: Location)
        ensures
            r == self.location,
    {
        self.location
    }

    pub fn set_location(&mut self, location: Location)
        ensures
            *final(self) == (Comment { location, ..*old(self) }),
    {
        self.location = location;
    }
}

/// The first index at or after `j` whose character is neither whitespace
/// nor a line terminator, or the length of `rest`.
pub open spec fn first_non_blank(rest: Seq<char>, j: int) -> int
    decreases rest.len() - j,
{
    if j < 0 || j >= rest.len() || !(spec_is_whitespace(rest[j]) || spec_is_line_terminator(rest[j])) {
        j
    } else {
        first_non_blank(rest, j + 1)
    }
}

/// The offset, relative to the end of a comment, that the scan after the
/// comment settles on: the first character that is neither whitespace nor a
/// line terminator, or else the last character; with no character after the
/// comment, the comment's own end offset is kept.
pub open spec fn asdoc_scan_offset(rest: Seq<char>, start: int) -> int {
    let k = first_non_blank(rest, 0);
    if k < rest.len() {
        byte_offset(rest, k) as int
    } else if rest.len() > 0 {
        byte_offset(rest, rest.len() - 1) as int
    } else {
        start
    }
}

/// Whether a comment is an ASDoc comment (`/** ... */`) that precedes the
/// item at `item_location`: after the comment, only whitespace and line
/// terminators come before the item.
pub open spec fn spec_is_asdoc(c: Comment, text: Seq<char>, item_location: Location) -> bool {
    if c.multiline && c.content@.len() > 0 && c.content@[0] == '*' {
        let start = char_index_at(text, c.location.last_offset as int);
        let rest = text.subrange(start, text.len() as int);
        item_location.first_offset == asdoc_scan_offset(rest, c.location.last_offset as int)
            + c.location.last_offset
    } else {
        false
    }
}

impl Comment {
    /// Indicates whether the comment is an ASDoc comment preceding a specific
    /// item of `source`.
    pub fn is_asdoc(&self, item_location: &Location, source: &Source) -> (r: bool)
        requires
            source.wf(),
            is_boundary(source.text@, self.location.last_offset as int),
        ensures
            r == spec_is_asdoc(*self, source.text@, *item_location),
    {
        let content = string_chars(self.content.as_str());
        if !(self.multiline && content.len() > 0 && content[0] == '*') {
            return false;
        }
        let last_offset = self.location.last_offset;
        let start = char_index_of_offset(&source.chars, last_offset).unwrap();
        let ghost text = source.text@;
        let ghost rest = text.subrange(start as int, text.len() as int);
        proof {
            assert(text.take(start as int) + rest =~= text);
            crate::location::lemma_utf8_len_concat(text.take(start as int), rest);
            lemma_byte_offset_strictly_increasing(rest, 0, rest.len() as int);
            assert(rest.take(rest.len() as int) =~= rest);
            assert(rest.take(0) =~= Seq::<char>::empty());
        }
        let mut i: usize = last_offset;
        let mut j: usize = start;
        let mut rel: usize = 0;
        loop
            invariant_except_break
                source.wf(),
                text == source.text@,
                source.chars@ == text,
                start <= j <= text.len(),
                rest == text.subrange(start as int, text.len() as int),
                rel == byte_offset(rest, j - start),
                utf8_len(rest) <= usize::MAX,
                byte_offset(rest, rest.len() as int) == utf8_len(rest),
                first_non_blank(rest, 0) == first_non_blank(rest, j - start),
                j == start ==> i == last_offset,
                j > start ==> i == byte_offset(rest, j - start - 1),
            ensures
                first_non_blank(rest, 0) < rest.len() ==> i == byte_offset(rest, first_non_blank(rest, 0)),
                first_non_blank(rest, 0) >= rest.len() && rest.len() > 0 ==> i == byte_offset(rest, rest.len() - 1),
                rest.len() == 0 ==> i == last_offset,
            decreases text.len() - j,
        {
            if j >= source.chars.len() {
                break;
            }
            let ch = source.chars[j];
            i = rel;
            if !(is_whitespace(ch) || is_line_terminator(ch)) {
                break;
            }
            proof {
                lemma_byte_offset_step(rest, j - start);
                lemma_byte_offset_strictly_increasing(rest, j - start + 1, rest.len() as int);
            }
            rel = rel + char_width(ch);
            j = j + 1;
        }
        (item_location.first_offset as u128) == (i as u128) + (last_offset as u128)
    }
}

/// The zero-based column, in code points, of a UTF-8 offset on a line of a
/// source: the characters from the line's start up to the offset; zero when
/// the line starts after it. An unknown line counts from the start of the
/// text.
pub open spec fn column_of(source: &Source, line: usize, offset: usize) -> int {
    let text = source.text@;
    let line_offset = if line < source.line_number_offsets@.len() {
        source.line_number_offsets@[line as int]
    } else {
        0
    };
    if line_offset > offset {
        0
    } else {
        char_index_at(text, offset as int) - char_index_at(text, line_offset as int)
    }
}

/// The number of characters between two boundaries `a <= b`.
fn chars_between(source: &Source, a: usize, b: usize) -> (r: usize)
    requires
        source.wf(),
        is_boundary(source.text@, a as int),
        is_boundary(source.text@, b as int),
        a <= b,
    ensures
        r == char_index_at(source.text@, b as int) - char_index_at(source.text@, a as int),
{
    let ia = char_index_of_offset(&source.chars, a).unwrap();
    let ib = char_index_of_offset(&source.chars, b).unwrap();
    proof {
        if ib < ia {
            lemma_byte_offset_strictly_increasing(source.text@, ib as int, ia as int);
        }
    }
    ib - ia
}

impl Location {
    /// Zero based first column of the location in code points.
    pub fn first_column(&self, source: &Source) -> (r: usize)
        requires
            source.wf(),
            is_boundary(source.text@, self.first_offset as int),
        ensures
            r == column_of(source, self.first_line_number, self.first_offset),
    {
        column(source, self.first_line_number, self.first_offset)
    }

    /// Zero based last column of the location in code points.
    pub fn last_column(&self, source: &Source) -> (r: usize)
        requires
            source.wf(),
            is_boundary(source.text@, self.last_offset as int),
        ensures
            r == column_of(source, self.last_line_number, self.last_offset),
    {
        column(source, self.last_line_number, self.last_offset)
    }

    /// The number of characters that the location spans.
    pub fn character_count(&self, source: &Source) -> (r: usize)
        requires
            source.wf(),
            is_boundary(source.text@, self.first_offset as int),
            is_boundary(source.text@, self.last_offset as int),
            self.first_offset <= self.last_offset,
        ensures
            r == char_index_at(source.text@, self.last_offset as int)
                - char_index_at(source.text@, self.first_offset as int),
    {
        chars_between(source, self.first_offset, self.last_offset)
    }
}

fn column(source: &Source, line: usize, offset: usize) -> (r: usize)
    requires
        source.wf(),
        is_boundary(source.text@, offset as int),
    ensures
        r == column_of(source, line, offset),
{
    let line_offset = if line < source.line_number_offsets.len() {
        source.line_number_offsets[line]
    } else {
        0
    };
    if line_offset > offset {
        return 0;
    }
    proof {
        if line < source.line_number_offsets@.len() {
            assert(is_boundary(source.text@, source.line_number_offsets@[line as int] as int));
        } else {
            assert(source.text@.take(0) =~= Seq::<char>::empty());
            assert(byte_offset(source.text@, 0) == 0);
        }
    }
    chars_between(source, line_offset, offset)
}

/// The category a diagnostic is reported under.
pub open spec fn diagnostic_category(d: Diagnostic) -> Seq<char> {
    if d.is_verify_error {
        seq!['V', 'e', 'r', 'i', 'f', 'y', ' ', 'e', 'r', 'r', 'o', 'r']
    } else if d.is_warning {
        seq!['W', 'a', 'r', 'n', 'i', 'n', 'g']
    } else {
        seq!['S', 'y', 'n', 't', 'a', 'x', ' ', 'e', 'r', 'r', 'o', 'r']
    }
}

/// The decimal text of an integer, with a `-` before a negative one.
pub open spec fn signed_digits(i: int) -> Seq<char> {
    if i < 0 {
        seq!['-'] + decimal_digits((-i) as nat)
    } else {
        decimal_digits(i as nat)
    }
}

/// A diagnostic with the message `message`: the source's file path and `:`
/// when it has one, the line, `:`, the one-based column, `: `, the category,
/// ` #` and the identifier when one is given, `: ` and the message.
pub open spec fn formatted_with_message(d: Diagnostic, source: &Source, message: Seq<char>, id: Option<i32>) -> Seq<char> {
    let prefix = match source.file_path {
        Some(p) => p@ + seq![':'],
        None => Seq::<char>::empty(),
    };
    let number = match id {
        Some(i) => seq![' ', '#'] + signed_digits(i as int),
        None => Seq::<char>::empty(),
    };
    prefix + decimal_digits(d.location.first_line_number as nat) + seq![':']
        + decimal_digits((column_of(source, d.location.first_line_number, d.location.first_offset) + 1) as nat)
        + seq![':', ' '] + diagnostic_category(d) + number + seq![':', ' '] + message
}

/// A diagnostic as it is reported: with its identifier and its English
/// message.
pub open spec fn formatted_diagnostic(d: Diagnostic, source: &Source) -> Seq<char> {
    let message = late_formatted(
        default_message(diagnostic_id(d.kind)).unwrap(),
        argument_keys(d.arguments@.len()),
        argument_texts(d.arguments@),
    );
    formatted_with_message(d, source, message, Some(diagnostic_id(d.kind)))
}

impl Diagnostic {
    /// Formats the diagnostic with the message `message`, with its position
    /// in `source`, and with the identifier `id` when one is given.
    pub fn format_with_message(&self, source: &Source, message: &str, id: Option<i32>) -> (r: String)
        requires
            source.wf(),
            is_boundary(source.text@, self.location.first_offset as int),
            source.text@.len() < usize::MAX,
        ensures
            r@ == formatted_with_message(*self, source, message@, id),
    {
        let category = if self.is_verify_error {
            "Verify error"
        } else if self.is_warning {
            "Warning"
        } else {
            "Syntax error"
        };
        proof {
            reveal_strlit("Verify error");
            reveal_strlit("Warning");
            reveal_strlit("Syntax error");
            assert("Verify error"@ =~= seq!['V', 'e', 'r', 'i', 'f', 'y', ' ', 'e', 'r', 'r', 'o', 'r']);
            assert("Warning"@ =~= seq!['W', 'a', 'r', 'n', 'i', 'n', 'g']);
            assert("Syntax error"@ =~= seq!['S', 'y', 'n', 't', 'a', 'x', ' ', 'e', 'r', 'r', 'o', 'r']);
            reveal_strlit(":");
            reveal_strlit(": ");
            reveal_strlit(" #");
            reveal_strlit("-");
            assert(":"@ =~= seq![':']);
            assert(": "@ =~= seq![':', ' ']);
            assert(" #"@ =~= seq![' ', '#']);
            assert("-"@ =~= seq!['-']);
        }
        let column = self.location.first_column(source);
        let mut out: Vec<char> = Vec::new();
        match &source.file_path {
            Some(p) => {
                push_str(&mut out, p.as_str());
                push_str(&mut out, ":");
            },
            None => {},
        }
        proof {
            let text = source.text@;
            let off = self.location.first_offset as int;
            assert(0 <= char_index_at(text, off) <= text.len());
            let line = self.location.first_line_number;
            if line < source.line_number_offsets@.len() {
                assert(is_boundary(text, source.line_number_offsets@[line as int] as int));
                assert(0 <= char_index_at(text, source.line_number_offsets@[line as int] as int));
            } else {
                assert(text.take(0) =~= Seq::<char>::empty());
                assert(byte_offset(text, 0) == 0);
                assert(is_boundary(text, 0));
                assert(0 <= char_index_at(text, 0));
            }
            assert(column <= text.len());
        }
        push_str(&mut out, decimal_string(self.location.first_line_number as u64).as_str());
        push_str(&mut out, ":");
        push_str(&mut out, decimal_string((column as u64) + 1).as_str());
        push_str(&mut out, ": ");
        push_str(&mut out, category);
        let ghost before_number = out@;
        match id {
            Some(i) => {
                push_str(&mut out, " #");
                if i < 0 {
                    push_str(&mut out, "-");
                    let magnitude: i64 = -(i as i64);
                    push_str(&mut out, decimal_string(magnitude as u64).as_str());
                } else {
                    push_str(&mut out, decimal_string(i as u64).as_str());
                }
            },
            None => {},
        }
        proof {
            let number = match id {
                Some(i) => seq![' ', '#'] + signed_digits(i as int),
                None => Seq::<char>::empty(),
            };
            assert(out@ =~= before_number + number);
        }
        push_str(&mut out, ": ");
        push_str(&mut out, message);
        proof {
            assert(out@ =~= formatted_with_message(*self, source, message@, id));
        }
        string_from_chars(&out)
    }

    /// Formats the diagnostic as it is reported, with its position in
    /// `source`.
    pub fn format_default(&self, source: &Source) -> (r: String)
        requires
            source.wf(),
            is_boundary(source.text@, self.location.first_offset as int),
            default_message(diagnostic_id(self.kind)) is Some,
            source.text@.len() < usize::MAX,
        ensures
            r@ == formatted_diagnostic(*self, source),
    {
        let message = self.format_message_default();
        let id = self.id();
        self.format_with_message(source, message.as_str(), Some(id))
    }
}

/// Represents an ActionScript source file.
pub struct Source {
    pub file_path: Option<String>,
    pub text: String,
    pub chars: Vec<char>,
    pub line_number_offsets: Vec<usize>,
    pub already_tokenized: bool,
    pub diagnostics: Vec<Diagnostic>,
    pub error_count: u32,
    pub warning_count: u32,
    pub invalidated: bool,
    pub compiler_options: Rc<CompilerOptions>,
    pub comments: Vec<Comment>,
    /// The sources of the files that include directives of this source
    /// bring in.
    pub subsources: Vec<Source>,
}

impl Default for Source {
    /// An empty source that is not a file.
    fn default() -> (r: Self)
        ensures
            r.wf(),
            r.file_path is None,
            r.text@.len() == 0,
            r.line_number_offsets@ == seq![0usize, 0usize],
            !r.already_tokenized,
            r.diagnostics@.len() == 0,
            r.comments@.len() == 0,
            r.error_count == 0,
            r.warning_count == 0,
            !r.invalidated,
            counters_agree(r),
            r.subsources@.len() == 0,
    {
        Source::new(None, String::new(), &CompilerOptions::new())
    }
}

impl Source {
    /// The characters of the source text.
    pub open spec fn text_chars(&self) -> Seq<char> {
        self.text@
    }

    /// The source keeps its characters alongside its text, its byte length fits
    /// in `usize`, and every recorded line start lies between two characters.
    pub open spec fn wf(&self) -> bool {
        &&& self.chars@ == self.text@
        &&& utf8_len(self.text@) <= usize::MAX
        &&& self.line_number_offsets@.len() >= 2
        &&& forall|k: int| 0 <= k < self.line_number_offsets@.len()
            ==> is_boundary(self.text@, #[trigger] self.line_number_offsets@[k] as int)
    }

    /// Constructs a source file in unparsed and non verified state.
    pub fn new(file_path: Option<String>, text: String, compiler_options: &Rc<CompilerOptions>) -> (r: Self)
        ensures
            r.wf(),
            r.file_path == file_path,
            r.text == text,
            r.line_number_offsets@ == seq![0usize, 0usize],
            !r.already_tokenized,
            r.diagnostics@.len() == 0,
            r.comments@.len() == 0,
            r.error_count == 0,
            r.warning_count == 0,
            !r.invalidated,
            counters_agree(r),
            r.subsources@.len() == 0,
    {
        let chars = string_chars(text.as_str());
        let _ = str_byte_len(text.as_str());
        let mut line_number_offsets: Vec<usize> = Vec::new();
        line_number_offsets.push(0);
        line_number_offsets.push(0);
        proof {
            assert(text@.take(0) =~= Seq::<char>::empty());
            assert(byte_offset(text@, 0) == 0);
        }
        let r = Self {
            file_path,
            text,
            chars,
            line_number_offsets,
            already_tokenized: false,
            diagnostics: Vec::new(),
            error_count: 0,
            warning_count: 0,
            invalidated: false,
            compiler_options: Rc::clone(compiler_options),
            comments: Vec::new(),
            subsources: Vec::new(),
        };
        proof { lemma_new_source_counters(r); }
        r
    }

    /// File path of the source or `None` if not a file.
    pub fn file_path(&self) -> (r: Option<String>)
        ensures
            r == self.file_path,
    {
        match &self.file_path {
            Some(p) => Some(p.clone()),
            None => None,
        }
    }

    /// Source text.
    pub fn text(&self) -> (r: &String)
        ensures
            r == &self.text,
    {
        &self.text
    }

    /// Whether the source contains any errors after parsing
    /// and/or verification.
    pub fn invalidated(&self) -> (r: bool)
        ensures
            r == self.invalidated,
    {
        self.invalidated
    }

    /// The comments present in the source file.
    pub fn comments(&self) -> (r: Vec<Comment>)
        ensures
            r@ == self.comments@,
    {
        let mut r: Vec<Comment> = Vec::new();
        let mut i: usize = 0;
        while i < self.comments.len()
            invariant
                i <= self.comments.len(),
                r@ == self.comments@.subrange(0, i as int),
            decreases self.comments.len() - i,
        {
            r.push(self.comments[i].clone());
            i = i + 1;
            assert(r@ =~= self.comments@.subrange(0, i as int));
        }
        assert(self.comments@.subrange(0, self.comments.len() as int) =~= self.comments@);
        r
    }

    /// Diagnostics of the source file after parsing and/or
    /// verification.
    pub fn diagnostics(&self) -> (r: Vec<Diagnostic>)
        ensures
            r.len() == self.diagnostics.len(),
            forall|i: int| 0 <= i < r.len() ==> {
                &&& (#[trigger] r@[i]).location == self.diagnostics@[i].location
                &&& r@[i].kind == self.diagnostics@[i].kind
                &&& r@[i].is_warning == self.diagnostics@[i].is_warning
                &&& r@[i].is_verify_error == self.diagnostics@[i].is_verify_error
                &&& r@[i].arguments@ == self.diagnostics@[i].arguments@
            },
    {
        let mut r: Vec<Diagnostic> = Vec::new();
        let mut i: usize = 0;
        while i < self.diagnostics.len()
            invariant
                i <= self.diagnostics.len(),
                r.len() == i,
                forall|j: int| 0 <= j < i ==> {
                    &&& (#[trigger] r@[j]).location == self.diagnostics@[j].location
                    &&& r@[j].kind == self.diagnostics@[j].kind
                    &&& r@[j].is_warning == self.diagnostics@[j].is_warning
                    &&& r@[j].is_verify_error == self.diagnostics@[j].is_verify_error
                    &&& r@[j].arguments@ == self.diagnostics@[j].arguments@
                },
            decreases self.diagnostics.len() - i,
        {
            r.push(self.diagnostics[i].clone());
            i = i + 1;
        }
        r
    }

    /// The sources of the files that include directives of this source
    /// bring in.
    pub fn subsources(&self) -> (r: &Vec<Source>)
        ensures
            r@ == self.subsources@,
    {
        &self.subsources
    }

    /// Diagnostics of the source and of its subsources, the source's own
    /// first, then each subsource's in order.
    pub fn recursive_diagnostics(&self) -> (r: Vec<Diagnostic>)
        ensures
            r@.len() == with_subsource_diagnostics(self.diagnostics@, self.subsources@).len(),
            forall|i: int| 0 <= i < r@.len() ==>
                same_diagnostic(#[trigger] r@[i], with_subsource_diagnostics(self.diagnostics@, self.subsources@)[i]),
    {
        let mut r = self.diagnostics();
        let mut k: usize = 0;
        proof {
            assert(self.subsources@.take(0) =~= Seq::<Source>::empty());
        }
        while k < self.subsources.len()
            invariant
                k <= self.subsources@.len(),
                r@.len() == with_subsource_diagnostics(self.diagnostics@, self.subsources@.take(k as int)).len(),
                forall|i: int| 0 <= i < r@.len() ==>
                    same_diagnostic(#[trigger] r@[i], with_subsource_diagnostics(self.diagnostics@, self.subsources@.take(k as int))[i]),
            decreases self.subsources@.len() - k,
        {
            let more = self.subsources[k].diagnostics();
            let ghost before = r@;
            let ghost prev = with_subsource_diagnostics(self.diagnostics@, self.subsources@.take(k as int));
            let mut j: usize = 0;
            while j < more.len()
                invariant
                    j <= more@.len(),
                    r@.len() == before.len() + j,
                    forall|i: int| 0 <= i < before.len() ==> #[trigger] r@[i] == before[i],
                    forall|i: int| 0 <= i < j ==> same_diagnostic(#[trigger] r@[before.len() + i], more@[i]),
                decreases more@.len() - j,
            {
                r.push(more[j].clone());
                j = j + 1;
            }
            proof {
                assert(self.subsources@.take(k + 1).drop_last() =~= self.subsources@.take(k as int));
                let next = with_subsource_diagnostics(self.diagnostics@, self.subsources@.take(k + 1));
                assert(next == prev + self.subsources@[k as int].diagnostics@);
                assert forall|i: int| 0 <= i < r@.len() implies same_diagnostic(#[trigger] r@[i], next[i]) by {
                    if i < before.len() {
                        assert(r@[i] == before[i]);
                    } else {
                        assert(r@[before.len() + (i - before.len())] == r@[i]);
                    }
                }
            }
            k = k + 1;
        }
        proof { assert(self.subsources@.take(self.subsources@.len() as int) =~= self.subsources@); }
        r
    }

    /// Records a diagnostic. An error (anything but a warning) invalidates the
    /// source. The counters wrap around as `u32` arithmetic does in a release
    /// build.
    pub fn add_diagnostic(&mut self, diagnostic: Diagnostic)
        ensures
            final(self).diagnostics@ == old(self).diagnostics@.push(diagnostic),
            diagnostic.is_warning ==> final(self).warning_count == (if old(self).warning_count == u32::MAX { 0 } else { (old(self).warning_count + 1) as u32 })
                && final(self).error_count == old(self).error_count
                && final(self).invalidated == old(self).invalidated,
            !diagnostic.is_warning ==> final(self).error_count == (if old(self).error_count == u32::MAX { 0 } else { (old(self).error_count + 1) as u32 })
                && final(self).warning_count == old(self).warning_count
                && final(self).invalidated,
            final(self).text == old(self).text,
            final(self).chars == old(self).chars,
            final(self).line_number_offsets == old(self).line_number_offsets,
            final(self).comments == old(self).comments,
            final(self).file_path == old(self).file_path,
            final(self).already_tokenized == old(self).already_tokenized,
            diagnostic_recorded(*old(self), *final(self), diagnostic),
            counters_agree(*old(self)) ==> counters_agree(*final(self)),
    {
        if diagnostic.is_warning() {
            self.warning_count = if self.warning_count == u32::MAX { 0 } else { self.warning_count + 1 };
        } else {
            self.error_count = if self.error_count == u32::MAX { 0 } else { self.error_count + 1 };
            self.invalidated = true;
        }
        self.diagnostics.push(diagnostic);
        proof {
            if counters_agree(*old(self)) {
                lemma_recording_keeps_counters(*old(self), *self, diagnostic);
            }
        }
    }

    pub fn error_count(&self) -> (r: u32)
        ensures
            r == self.error_count,
    {
        self.error_count
    }

    pub fn warning_count(&self) -> (r: u32)
        ensures
            r == self.warning_count,
    {
        self.warning_count
    }

    /// Contributes a comment if there is no other comment at the same first
    /// offset.
    pub fn add_comment(&mut self, comment: Comment)
        ensures
            (exists|k: int| 0 <= k < old(self).comments@.len()
                && (#[trigger] old(self).comments@[k]).location.first_offset == comment.location.first_offset)
                ==> final(self).comments == old(self).comments,
            !(exists|k: int| 0 <= k < old(self).comments@.len()
                && (#[trigger] old(self).comments@[k]).location.first_offset == comment.location.first_offset)
                ==> final(self).comments@ == old(self).comments@.push(comment),
            final(self).text == old(self).text,
            final(self).chars == old(self).chars,
            final(self).line_number_offsets == old(self).line_number_offsets,
            final(self).diagnostics == old(self).diagnostics,
            final(self).invalidated == old(self).invalidated,
            final(self).file_path == old(self).file_path,
            final(self).error_count == old(self).error_count,
            final(self).warning_count == old(self).warning_count,
            final(self).already_tokenized == old(self).already_tokenized,
            final(self).compiler_options == old(self).compiler_options,
    {
        let i = comment.location.first_offset;
        let mut k: usize = 0;
        while k < self.comments.len()
            invariant
                k <= self.comments.len(),
                i == comment.location.first_offset,
                forall|j: int| 0 <= j < k ==> (#[trigger] self.comments@[j]).location.first_offset != i,
            decreases self.comments.len() - k,
        {
            if self.comments[k].location.first_offset == i {
                return;
            }
            k = k + 1;
        }
        self.comments.push(comment);
    }

    /// Whether an error (a diagnostic that is not a warning) is already
    /// recorded at the first offset of `location`, so that another one there
    /// can be skipped.
    pub fn prevent_equal_offset_error(&self, location: &Location) -> (r: bool)
        ensures
            r == exists|k: int| 0 <= k < self.diagnostics@.len()
                && !(#[trigger] self.diagnostics@[k]).is_warning
                && self.diagnostics@[k].location.first_offset == location.first_offset,
    {
        let mut k: usize = 0;
        while k < self.diagnostics.len()
            invariant
                k <= self.diagnostics.len(),
                forall|j: int| 0 <= j < k ==> (#[trigger] self.diagnostics@[j]).is_warning
                    || self.diagnostics@[j].location.first_offset != location.first_offset,
            decreases self.diagnostics.len() - k,
        {
            let d = &self.diagnostics[k];
            if !d.is_warning && d.location.first_offset == location.first_offset {
                return true;
            }
            k = k + 1;
        }
        false
    }

    /// Whether a warning is already recorded at the first offset of
    /// `location`, so that another one there can be skipped.
    pub fn prevent_equal_offset_warning(&self, location: &Location) -> (r: bool)
        ensures
            r == exists|k: int| 0 <= k < self.diagnostics@.len()
                && (#[trigger] self.diagnostics@[k]).is_warning
                && self.diagnostics@[k].location.first_offset == location.first_offset,
    {
        let mut k: usize = 0;
        while k < self.diagnostics.len()
            invariant
                k <= self.diagnostics.len(),
                forall|j: int| 0 <= j < k ==> !(#[trigger] self.diagnostics@[j]).is_warning
                    || self.diagnostics@[j].location.first_offset != location.first_offset,
            decreases self.diagnostics.len() - k,
        {
            let d = &self.diagnostics[k];
            if d.is_warning && d.location.first_offset == location.first_offset {
                return true;
            }
            k = k + 1;
        }
        false
    }

    /// Gets offset from line number (counted from one).
    pub fn get_line_offset(&self, line: usize) -> (r: Option<usize>)
        ensures
            line < self.line_number_offsets@.len() ==> r == Some(self.line_number_offsets@[line as int]),
            line >= self.line_number_offsets@.len() ==> r is None,
    {
        if line < self.line_number_offsets.len() {
            Some(self.line_number_offsets[line])
        } else {
            None
        }
    }

    /// The number of whitespace characters that start a line (counted from
    /// one); a line number past the table falls back to the last line start.
    pub fn get_line_indent(&self, line: usize) -> (r: usize)
        requires
            self.wf(),
        ensures
            ({
                let off = if line < self.line_number_offsets@.len() {
                    self.line_number_offsets@[line as int]
                } else {
                    self.line_number_offsets@.last()
                };
                let start = char_index_at(self.text@, off as int);
                r == spec_indent_count(self.text@.subrange(start, self.text@.len() as int))
            }),
    {
        let off = match self.get_line_offset(line) {
            Some(o) => o,
            None => self.line_number_offsets[self.line_number_offsets.len() - 1],
        };
        proof {
            if line < self.line_number_offsets@.len() {
                assert(is_boundary(self.text@, self.line_number_offsets@[line as int] as int));
            } else {
                assert(is_boundary(self.text@, self.line_number_offsets@[self.line_number_offsets@.len() - 1] as int));
            }
        }
        let start = char_index_of_offset(&self.chars, off).unwrap();
        let mut rest: Vec<char> = Vec::new();
        let mut i = start;
        while i < self.chars.len()
            invariant
                start <= i <= self.chars.len(),
                rest@ == self.chars@.subrange(start as int, i as int),
            decreases self.chars.len() - i,
        {
            rest.push(self.chars[i]);
            i = i + 1;
            assert(rest@ =~= self.chars@.subrange(start as int, i as int));
        }
        crate::character_validation::indent_count(&rest)
    }

    /// Sorts the diagnostics by the offset where they start; diagnostics that
    /// start at the same offset keep their order.
    pub fn sort_diagnostics(&mut self)
        ensures
            sorted_from(*old(self), *final(self)),
        decreases *old(self),
    {
        let mut v: Vec<Diagnostic> = Vec::new();
        std::mem::swap(&mut v, &mut self.diagnostics);
        let sorted = sort_by_first_offset(v);
        self.diagnostics = sorted;
        let mut subs: Vec<Source> = Vec::new();
        std::mem::swap(&mut subs, &mut self.subsources);
        let ghost old_subs = subs@;
        let mut out: Vec<Source> = Vec::new();
        let mut k: usize = 0;
        let n = subs.len();
        while k < n
            invariant
                n == old_subs.len(),
                k <= n,
                old_subs == old(self).subsources@,
                subs@ == old_subs.skip(k as int),
                out@.len() == k,
                forall|i: int| 0 <= i < k ==> sorted_from(#[trigger] old_subs[i], out@[i]),
            decreases n - k,
        {
            let mut child = subs.remove(0);
            proof {
                assert(child == old_subs[k as int]);
                assert(decreases_to!(*old(self) => old(self).subsources));
                assert(decreases_to!(old(self).subsources => old(self).subsources@));
                assert(decreases_to!(old(self).subsources@ => old_subs[k as int]));
            }
            child.sort_diagnostics();
            out.push(child);
            proof { assert(subs@ =~= old_subs.skip(k + 1)); }
            k = k + 1;
        }
        self.subsources = out;
    }
}

/// Two diagnostics agree in location, kind, category and arguments.
pub open spec fn same_diagnostic(a: Diagnostic, b: Diagnostic) -> bool {
    &&& a.location == b.location
    &&& a.kind == b.kind
    &&& a.is_warning == b.is_warning
    &&& a.is_verify_error == b.is_verify_error
    &&& a.arguments@ == b.arguments@
}

/// The diagnostics `ds` followed by those of each source in `subs`, in
/// order.
pub open spec fn with_subsource_diagnostics(ds: Seq<Diagnostic>, subs: Seq<Source>) -> Seq<Diagnostic>
    decreases subs.len(),
{
    if subs.len() == 0 {
        ds
    } else {
        with_subsource_diagnostics(ds, subs.drop_last()) + subs.last().diagnostics@
    }
}

/// How many of the diagnostics are errors (not warnings).
pub open spec fn error_diagnostic_count(ds: Seq<Diagnostic>) -> nat {
    ds.filter(|d: Diagnostic| !d.is_warning).len()
}

/// How many of the diagnostics are warnings.
pub open spec fn warning_diagnostic_count(ds: Seq<Diagnostic>) -> nat {
    ds.filter(|d: Diagnostic| d.is_warning).len()
}

/// The counters of a source agree with its diagnostics: they count its
/// errors and its warnings (wrapping around as `u32` does), and the source
/// is invalidated exactly when it has an error.
pub open spec fn counters_agree(s: Source) -> bool {
    &&& s.error_count as nat == error_diagnostic_count(s.diagnostics@) % 0x1_0000_0000
    &&& s.warning_count as nat == warning_diagnostic_count(s.diagnostics@) % 0x1_0000_0000
    &&& s.invalidated == (error_diagnostic_count(s.diagnostics@) > 0)
}

/// What recording the diagnostic `d` does to the diagnostics, the counters
/// and the invalidated flag, `a` being the source before and `b` after.
pub open spec fn diagnostic_recorded(a: Source, b: Source, d: Diagnostic) -> bool {
    &&& b.diagnostics@ == a.diagnostics@.push(d)
    &&& d.is_warning ==> b.warning_count == (if a.warning_count == u32::MAX { 0 } else { (a.warning_count + 1) as u32 })
        && b.error_count == a.error_count && b.invalidated == a.invalidated
    &&& !d.is_warning ==> b.error_count == (if a.error_count == u32::MAX { 0 } else { (a.error_count + 1) as u32 })
        && b.warning_count == a.warning_count && b.invalidated
}

/// A new source has no diagnostics, and its counters say so.
pub proof fn lemma_new_source_counters(s: Source)
    requires
        s.diagnostics@.len() == 0,
        s.error_count == 0,
        s.warning_count == 0,
        !s.invalidated,
    ensures
        counters_agree(s),
{
    assert(s.diagnostics@.filter(|d: Diagnostic| !d.is_warning) =~= Seq::<Diagnostic>::empty());
    assert(s.diagnostics@.filter(|d: Diagnostic| d.is_warning) =~= Seq::<Diagnostic>::empty());
}

/// Recording a diagnostic, as `Source::add_diagnostic` does, keeps the
/// counters in agreement with the diagnostics: the error count is the number of errors, the warning count
/// the number of warnings, and the source is invalidated once it has an
/// error.
pub proof fn lemma_recording_keeps_counters(a: Source, b: Source, d: Diagnostic)
    requires
        counters_agree(a),
        diagnostic_recorded(a, b, d),
    ensures
        counters_agree(b),
{
    let ds = a.diagnostics@;
    let e = |x: Diagnostic| !x.is_warning;
    let w = |x: Diagnostic| x.is_warning;
    reveal(Seq::filter);
    assert(ds.push(d).drop_last() =~= ds);
    assert(ds.push(d).filter(e) == if e(d) { ds.filter(e).push(d) } else { ds.filter(e) });
    assert(ds.push(d).filter(w) == if w(d) { ds.filter(w).push(d) } else { ds.filter(w) });
}

/// Whether `b` is `a` with its diagnostics, and those of its subsources at
/// every depth, sorted by first offset: each list is a permutation of the
/// one before, in ascending order of first offset, with the diagnostics
/// that start at the same offset in their former order; nothing else
/// changes.
pub open spec fn sorted_from(a: Source, b: Source) -> bool
    decreases a,
{
    &&& b.diagnostics@.to_multiset() == a.diagnostics@.to_multiset()
    &&& forall|i: int, j: int| 0 <= i < j < b.diagnostics@.len() ==>
        b.diagnostics@[i].location.first_offset <= b.diagnostics@[j].location.first_offset
    &&& forall|k: usize| #[trigger] diagnostics_at(b.diagnostics@, k) == diagnostics_at(a.diagnostics@, k)
    &&& b.file_path == a.file_path
    &&& b.text == a.text
    &&& b.chars == a.chars
    &&& b.line_number_offsets == a.line_number_offsets
    &&& b.already_tokenized == a.already_tokenized
    &&& b.error_count == a.error_count
    &&& b.warning_count == a.warning_count
    &&& b.invalidated == a.invalidated
    &&& b.compiler_options == a.compiler_options
    &&& b.comments == a.comments
    &&& b.subsources@.len() == a.subsources@.len()
    &&& forall|i: int| 0 <= i < a.subsources@.len() ==> {
        proof {
            assert(decreases_to!(a => a.subsources));
            assert(decreases_to!(a.subsources => a.subsources@));
            assert(decreases_to!(a.subsources@ => a.subsources@[i]));
        }
        sorted_from(#[trigger] a.subsources@[i], b.subsources@[i])
    }
}

/// The diagnostics of `ds` that start at offset `k`, in order.
pub open spec fn diagnostics_at(ds: Seq<Diagnostic>, k: usize) -> Seq<Diagnostic> {
    ds.filter(|d: Diagnostic| d.location.first_offset == k)
}

/// Filtering a sequence none of whose elements passes gives nothing.
proof fn lemma_filter_none<A>(s: Seq<A>, p: spec_fn(A) -> bool)
    requires
        forall|i: int| 0 <= i < s.len() ==> !p(#[trigger] s[i]),
    ensures
        s.filter(p) == Seq::<A>::empty(),
    decreases s.len(),
{
    reveal(Seq::filter);
    if s.len() > 0 {
        lemma_filter_none(s.drop_last(), p);
    }
}

/// Insertion sort of diagnostics by their first offset; diagnostics that
/// start at the same offset keep their order.
fn sort_by_first_offset(v: Vec<Diagnostic>) -> (r: Vec<Diagnostic>)
    ensures
        r@.to_multiset() == v@.to_multiset(),
        forall|i: int, j: int| 0 <= i < j < r@.len() ==>
            r@[i].location.first_offset <= r@[j].location.first_offset,
        forall|k: usize| #[trigger] diagnostics_at(r@, k) == diagnostics_at(v@, k),
{
    broadcast use vstd::seq_lib::group_to_multiset_ensures;
    let mut out: Vec<Diagnostic> = Vec::new();
    let mut input = v;
    let ghost orig = input@;
    let ghost mut taken: Seq<Diagnostic> = Seq::empty();
    // Elements are moved out from the back of `input`, so walk it backwards
    // and insert each one before every element that starts at the same or a
    // later offset; that keeps equal offsets in their input order.
    proof {
        assert(orig =~= input@ + taken);
        assert forall|k: usize| #[trigger] diagnostics_at(out@, k) == diagnostics_at(taken, k) by {
            reveal(Seq::filter);
        }
    }
    while input.len() > 0
        invariant
            out@.to_multiset().add(input@.to_multiset()) == orig.to_multiset(),
            forall|i: int, j: int| 0 <= i < j < out@.len() ==>
                out@[i].location.first_offset <= out@[j].location.first_offset,
            orig == input@ + taken,
            forall|k: usize| #[trigger] diagnostics_at(out@, k) == diagnostics_at(taken, k),
        decreases input.len(),
    {
        let ghost input_before = input@;
        let d = input.pop().unwrap();
        proof {
            assert(input_before =~= input@.push(d));
        }
        let key = d.location.first_offset;
        let mut pos: usize = 0;
        while pos < out.len() && out[pos].location.first_offset < key
            invariant
                pos <= out.len(),
                forall|k: int| 0 <= k < pos ==> out@[k].location.first_offset < key,
            decreases out.len() - pos,
        {
            pos = pos + 1;
        }
        let ghost before = out@;
        out.insert(pos, d);
        proof {
            assert(out@ =~= before.subrange(0, pos as int).push(d) + before.subrange(pos as int, before.len() as int));
            assert forall|i: int, j: int| 0 <= i < j < out@.len() implies
                out@[i].location.first_offset <= out@[j].location.first_offset by {
                if j < pos {
                } else if j == pos {
                } else if i < pos {
                    if pos < before.len() {
                        assert(before[pos as int].location.first_offset >= key);
                    }
                } else if i == pos {
                    assert(before[pos as int].location.first_offset >= key);
                    assert(out@[j] == before[j - 1]);
                } else {
                    assert(out@[i] == before[i - 1]);
                    assert(out@[j] == before[j - 1]);
                }
            }
            vstd::seq_lib::lemma_multiset_commutative(before.subrange(0, pos as int).push(d), before.subrange(pos as int, before.len() as int));
            assert(before =~= before.subrange(0, pos as int) + before.subrange(pos as int, before.len() as int));
            vstd::seq_lib::lemma_multiset_commutative(before.subrange(0, pos as int), before.subrange(pos as int, before.len() as int));
            vstd::seq_lib::to_multiset_insert(before, pos as int, d);
            assert(out@ == before.insert(pos as int, d));
            vstd::seq_lib::to_multiset_build(input@, d);
            assert(out@.to_multiset() =~= before.to_multiset().insert(d));
            assert(input_before.to_multiset() =~= input@.to_multiset().insert(d));
            assert(out@.to_multiset().add(input@.to_multiset()) =~= before.to_multiset().add(input_before.to_multiset()));

            let old_taken = taken;
            taken = seq![d] + old_taken;
            assert(orig =~= input@ + taken);
            let lo = before.subrange(0, pos as int);
            let hi = before.subrange(pos as int, before.len() as int);
            assert(out@ =~= lo + seq![d] + hi);
            assert(before =~= lo + hi);
            assert forall|k: usize| #[trigger] diagnostics_at(out@, k) == diagnostics_at(taken, k) by {
                let p = |x: Diagnostic| x.location.first_offset == k;
                Seq::filter_distributes_over_add(lo + seq![d], hi, p);
                Seq::filter_distributes_over_add(lo, seq![d], p);
                Seq::filter_distributes_over_add(lo, hi, p);
                Seq::filter_distributes_over_add(seq![d], old_taken, p);
                reveal_with_fuel(Seq::filter, 2);
                assert(seq![d].drop_last() =~= Seq::<Diagnostic>::empty());
                if key == k {
                    lemma_filter_none(lo, p);
                }
                assert(diagnostics_at(before, k) == diagnostics_at(old_taken, k));
            }
        }
    }
    proof {
        assert(input@ =~= Seq::<Diagnostic>::empty());
        assert(taken =~= orig);
    }
    out
}

} // verus!
