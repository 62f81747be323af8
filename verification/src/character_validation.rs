//! Character classification used by the tokenizer.
//!
//! Most predicates here are fixed ranges of code points. The ones that depend on
//! the Unicode general category of a character ask the `unicode_general_category`
//! crate through [`general_category`].

use vstd::prelude::*;

verus! {

/// The Unicode general categories, by their standard two-letter abbreviation.
#[derive(Clone, Copy, Debug, PartialEq, Eq, Structural)]
pub enum GeneralCategory {
    ClosePunctuation,
    ConnectorPunctuation,
    Control,
    CurrencySymbol,
    DashPunctuation,
    DecimalNumber,
    EnclosingMark,
    FinalPunctuation,
    Format,
    InitialPunctuation,
    LetterNumber,
    LineSeparator,
    LowercaseLetter,
    MathSymbol,
    ModifierLetter,
    ModifierSymbol,
    NonspacingMark,
    OpenPunctuation,
    OtherLetter,
    OtherNumber,
    OtherPunctuation,
    OtherSymbol,
    ParagraphSeparator,
    PrivateUse,
    SpaceSeparator,
    SpacingMark,
    Surrogate,
    TitlecaseLetter,
    Unassigned,
    UppercaseLetter,
}

/// The two-letter abbreviation that the Unicode tables give as the general
/// category of `ch`.
pub uninterp spec fn general_category_abbreviation(ch: char) -> Seq<char>;

/// The category denoted by a two-letter abbreviation (`Cn`, unassigned, for any
/// other text).
pub open spec fn category_of_abbreviation(a: Seq<char>) -> GeneralCategory {
    if a.len() != 2 {
        GeneralCategory::Unassigned
    } else {
        let (x, y) = (a[0], a[1]);
        if x == 'P' && y == 'e' { GeneralCategory::ClosePunctuation }
        else if x == 'P' && y == 'c' { GeneralCategory::ConnectorPunctuation }
        else if x == 'C' && y == 'c' { GeneralCategory::Control }
        else if x == 'S' && y == 'c' { GeneralCategory::CurrencySymbol }
        else if x == 'P' && y == 'd' { GeneralCategory::DashPunctuation }
        else if x == 'N' && y == 'd' { GeneralCategory::DecimalNumber }
        else if x == 'M' && y == 'e' { GeneralCategory::EnclosingMark }
        else if x == 'P' && y == 'f' { GeneralCategory::FinalPunctuation }
        else if x == 'C' && y == 'f' { GeneralCategory::Format }
        else if x == 'P' && y == 'i' { GeneralCategory::InitialPunctuation }
        else if x == 'N' && y == 'l' { GeneralCategory::LetterNumber }
        else if x == 'Z' && y == 'l' { GeneralCategory::LineSeparator }
        else if x == 'L' && y == 'l' { GeneralCategory::LowercaseLetter }
        else if x == 'S' && y == 'm' { GeneralCategory::MathSymbol }
        else if x == 'L' && y == 'm' { GeneralCategory::ModifierLetter }
        else if x == 'S' && y == 'k' { GeneralCategory::ModifierSymbol }
        else if x == 'M' && y == 'n' { GeneralCategory::NonspacingMark }
        else if x == 'P' && y == 's' { GeneralCategory::OpenPunctuation }
        else if x == 'L' && y == 'o' { GeneralCategory::OtherLetter }
        else if x == 'N' && y == 'o' { GeneralCategory::OtherNumber }
        else if x == 'P' && y == 'o' { GeneralCategory::OtherPunctuation }
        else if x == 'S' && y == 'o' { GeneralCategory::OtherSymbol }
        else if x == 'Z' && y == 'p' { GeneralCategory::ParagraphSeparator }
        else if x == 'C' && y == 'o' { GeneralCategory::PrivateUse }
        else if x == 'Z' && y == 's' { GeneralCategory::SpaceSeparator }
        else if x == 'M' && y == 'c' { GeneralCategory::SpacingMark }
        else if x == 'C' && y == 's' { GeneralCategory::Surrogate }
        else if x == 'L' && y == 't' { GeneralCategory::TitlecaseLetter }
        else if x == 'L' && y == 'u' { GeneralCategory::UppercaseLetter }
        else { GeneralCategory::Unassigned }
    }
}

/// The abbreviation of the general category of an ASCII character, as the
/// Unicode tables give it.
pub open spec fn ascii_category_abbreviation(c: u32) -> Seq<char> {
    if c <= 31 { seq!['C', 'c'] }
    else if c == 32 { seq!['Z', 's'] }
    else if c <= 35 { seq!['P', 'o'] }
    else if c == 36 { seq!['S', 'c'] }
    else if c <= 39 { seq!['P', 'o'] }
    else if c == 40 { seq!['P', 's'] }
    else if c == 41 { seq!['P', 'e'] }
    else if c == 42 { seq!['P', 'o'] }
    else if c == 43 { seq!['S', 'm'] }
    else if c == 44 { seq!['P', 'o'] }
    else if c == 45 { seq!['P', 'd'] }
    else if c <= 47 { seq!['P', 'o'] }
    else if c <= 57 { seq!['N', 'd'] }
    else if c <= 59 { seq!['P', 'o'] }
    else if c <= 62 { seq!['S', 'm'] }
    else if c <= 64 { seq!['P', 'o'] }
    else if c <= 90 { seq!['L', 'u'] }
    else if c == 91 { seq!['P', 's'] }
    else if c == 92 { seq!['P', 'o'] }
    else if c == 93 { seq!['P', 'e'] }
    else if c == 94 { seq!['S', 'k'] }
    else if c == 95 { seq!['P', 'c'] }
    else if c == 96 { seq!['S', 'k'] }
    else if c <= 122 { seq!['L', 'l'] }
    else if c == 123 { seq!['P', 's'] }
    else if c == 124 { seq!['S', 'm'] }
    else if c == 125 { seq!['P', 'e'] }
    else if c == 126 { seq!['S', 'm'] }
    else { seq!['C', 'c'] }
}

/// The abbreviation of the general category of `ch`: from the ASCII rows of
/// the Unicode tables for an ASCII character, the named table result for any
/// other.
pub open spec fn category_abbreviation_of(ch: char) -> Seq<char> {
    if (ch as u32) < 128 {
        ascii_category_abbreviation(ch as u32)
    } else {
        general_category_abbreviation(ch)
    }
}

/// The general category of `ch` in the Unicode tables.
pub open spec fn spec_general_category(ch: char) -> GeneralCategory {
    category_of_abbreviation(category_abbreviation_of(ch))
}

/// Asks `unicode_general_category::get_general_category` for the category of
/// `ch` and hands back its abbreviation (`GeneralCategory::abbreviation`).
/// The contract names the result; of the Unicode tables it states the rows
/// of the ASCII characters, U+0000 to U+007F (the first rows of the table),
/// and that U+2028 and U+2029 are the line separator (`Zl`) and the
/// paragraph separator (`Zp`). The other rows are left unsaid.
#[verifier::external_body]
fn category_abbreviation(ch: char) -> (r: &'static str)
    ensures
        r@ == general_category_abbreviation(ch),
        (ch as u32) < 128 ==> r@ == ascii_category_abbreviation(ch as u32),
        ch == '\u{2028}' ==> r@ == seq!['Z', 'l'],
        ch == '\u{2029}' ==> r@ == seq!['Z', 'p'],
{
    unicode_general_category::get_general_category(ch).abbreviation()
}

/// Decodes a general category from its two-letter abbreviation.
fn category_from_abbreviation(a: &str) -> (r: GeneralCategory)
    ensures
        r == category_of_abbreviation(a@),
{
    let n = a.unicode_len();
    if n != 2 {
        return GeneralCategory::Unassigned;
    }
    let x = a.get_char(0);
    let y = a.get_char(1);
    if x == 'P' && y == 'e' { GeneralCategory::ClosePunctuation }
    else if x == 'P' && y == 'c' { GeneralCategory::ConnectorPunctuation }
    else if x == 'C' && y == 'c' { GeneralCategory::Control }
    else if x == 'S' && y == 'c' { GeneralCategory::CurrencySymbol }
    else if x == 'P' && y == 'd' { GeneralCategory::DashPunctuation }
    else if x == 'N' && y == 'd' { GeneralCategory::DecimalNumber }
    else if x == 'M' && y == 'e' { GeneralCategory::EnclosingMark }
    else if x == 'P' && y == 'f' { GeneralCategory::FinalPunctuation }
    else if x == 'C' && y == 'f' { GeneralCategory::Format }
    else if x == 'P' && y == 'i' { GeneralCategory::InitialPunctuation }
    else if x == 'N' && y == 'l' { GeneralCategory::LetterNumber }
    else if x == 'Z' && y == 'l' { GeneralCategory::LineSeparator }
    else if x == 'L' && y == 'l' { GeneralCategory::LowercaseLetter }
    else if x == 'S' && y == 'm' { GeneralCategory::MathSymbol }
    else if x == 'L' && y == 'm' { GeneralCategory::ModifierLetter }
    else if x == 'S' && y == 'k' { GeneralCategory::ModifierSymbol }
    else if x == 'M' && y == 'n' { GeneralCategory::NonspacingMark }
    else if x == 'P' && y == 's' { GeneralCategory::OpenPunctuation }
    else if x == 'L' && y == 'o' { GeneralCategory::OtherLetter }
    else if x == 'N' && y == 'o' { GeneralCategory::OtherNumber }
    else if x == 'P' && y == 'o' { GeneralCategory::OtherPunctuation }
    else if x == 'S' && y == 'o' { GeneralCategory::OtherSymbol }
    else if x == 'Z' && y == 'p' { GeneralCategory::ParagraphSeparator }
    else if x == 'C' && y == 'o' { GeneralCategory::PrivateUse }
    else if x == 'Z' && y == 's' { GeneralCategory::SpaceSeparator }
    else if x == 'M' && y == 'c' { GeneralCategory::SpacingMark }
    else if x == 'C' && y == 's' { GeneralCategory::Surrogate }
    else if x == 'L' && y == 't' { GeneralCategory::TitlecaseLetter }
    else if x == 'L' && y == 'u' { GeneralCategory::UppercaseLetter }
    else { GeneralCategory::Unassigned }
}

/// The Unicode general category of a character.
pub fn general_category(ch: char) -> (r: GeneralCategory)
    ensures
        r == spec_general_category(ch),
        '\x00' <= ch <= '\x1F' ==> r == GeneralCategory::Control,
        ch == '\u{2028}' ==> r == GeneralCategory::LineSeparator,
        ch == '\u{2029}' ==> r == GeneralCategory::ParagraphSeparator,
{
    category_from_abbreviation(category_abbreviation(ch))
}

/// Whitespace: TAB, BS, FF, SPACE, NO-BREAK SPACE and every space separator (`Zs`).
pub open spec fn spec_is_whitespace(ch: char) -> bool {
    ch == '\x20' || ch == '\x09' || ch == '\x08' || ch == '\x0C' || ch == '\u{A0}'
        || spec_general_category(ch) == GeneralCategory::SpaceSeparator
}

pub fn is_whitespace(ch: char) -> (r: bool)
    ensures
        r == spec_is_whitespace(ch),
        ch == '\x00' ==> !r,
        spec_is_line_terminator(ch) ==> !r,
{
    if ch == '\x20' || ch == '\x09' || ch == '\x08' || ch == '\x0C' || ch == '\u{A0}' {
        return true;
    }
    general_category(ch) == GeneralCategory::SpaceSeparator
}

/// Line terminators: LF, CR, LINE SEPARATOR and PARAGRAPH SEPARATOR.
pub open spec fn spec_is_line_terminator(ch: char) -> bool {
    ch == '\x0A' || ch == '\x0D' || ch == '\u{2028}' || ch == '\u{2029}'
}

pub fn is_line_terminator(ch: char) -> (r: bool)
    ensures
        r == spec_is_line_terminator(ch),
{
    ch == '\x0A' || ch == '\x0D' || ch == '\u{2028}' || ch == '\u{2029}'
}

pub open spec fn spec_is_bin_digit(ch: char) -> bool {
    ch == '0' || ch == '1'
}

pub fn is_bin_digit(ch: char) -> (r: bool)
    ensures
        r == spec_is_bin_digit(ch),
{
    ch == '\x30' || ch == '\x31'
}

pub open spec fn spec_is_dec_digit(ch: char) -> bool {
    '0' <= ch <= '9'
}

pub fn is_dec_digit(ch: char) -> (r: bool)
    ensures
        r == spec_is_dec_digit(ch),
{
    ch >= '\x30' && ch <= '\x39'
}

pub open spec fn spec_is_hex_digit(ch: char) -> bool {
    spec_is_dec_digit(ch) || ('A' <= ch <= 'F') || ('a' <= ch <= 'f')
}

pub fn is_hex_digit(ch: char) -> (r: bool)
    ensures
        r == spec_is_hex_digit(ch),
{
    is_dec_digit(ch) || (ch >= '\x41' && ch <= '\x46') || (ch >= '\x61' && ch <= '\x66')
}

/// The letter categories: `Ll`, `Lu`, `Lm`, `Lo`, `Lt` and `Nl`.
pub open spec fn is_letter_category(c: GeneralCategory) -> bool {
    c == GeneralCategory::LowercaseLetter || c == GeneralCategory::UppercaseLetter
        || c == GeneralCategory::ModifierLetter || c == GeneralCategory::OtherLetter
        || c == GeneralCategory::TitlecaseLetter || c == GeneralCategory::LetterNumber
}

fn letter_category(c: GeneralCategory) -> (r: bool)
    ensures
        r == is_letter_category(c),
{
    match c {
        GeneralCategory::LowercaseLetter | GeneralCategory::UppercaseLetter
        | GeneralCategory::ModifierLetter | GeneralCategory::OtherLetter
        | GeneralCategory::TitlecaseLetter | GeneralCategory::LetterNumber => true,
        _ => false,
    }
}

/// IdentifierStart: `_`, `$` or a letter.
pub open spec fn spec_is_identifier_start(ch: char) -> bool {
    ch == '_' || ch == '$' || is_letter_category(spec_general_category(ch))
}

pub fn is_identifier_start(ch: char) -> (r: bool)
    ensures
        r == spec_is_identifier_start(ch),
        ch == '\x00' ==> !r,
        spec_is_line_terminator(ch) ==> !r,
{
    if ch == '\x5f' || ch == '\x24' {
        return true;
    }
    letter_category(general_category(ch))
}

/// IdentifierPart: `_`, `$`, a letter, a combining mark (`Mn`, `Mc`), a
/// connector punctuation (`Pc`) or a decimal digit (`Nd`).
pub open spec fn spec_is_identifier_part(ch: char) -> bool {
    let c = spec_general_category(ch);
    ch == '_' || ch == '$' || is_letter_category(c) || c == GeneralCategory::NonspacingMark
        || c == GeneralCategory::SpacingMark || c == GeneralCategory::ConnectorPunctuation
        || c == GeneralCategory::DecimalNumber
}

pub fn is_identifier_part(ch: char) -> (r: bool)
    ensures
        r == spec_is_identifier_part(ch),
        ch == '\x00' ==> !r,
        spec_is_line_terminator(ch) ==> !r,
{
    if ch == '\x5f' || ch == '\x24' {
        return true;
    }
    let c = general_category(ch);
    letter_category(c) || match c {
        GeneralCategory::NonspacingMark | GeneralCategory::SpacingMark
        | GeneralCategory::ConnectorPunctuation | GeneralCategory::DecimalNumber => true,
        _ => false,
    }
}

/// XML NameStart: `_`, `:` or a letter.
pub open spec fn spec_is_xml_name_start(ch: char) -> bool {
    ch == '_' || ch == ':' || is_letter_category(spec_general_category(ch))
}

pub fn is_xml_name_start(ch: char) -> (r: bool)
    ensures
        r == spec_is_xml_name_start(ch),
        ch == '\x00' ==> !r,
        spec_is_line_terminator(ch) ==> !r,
{
    if ch == '\x5f' || ch == ':' {
        return true;
    }
    letter_category(general_category(ch))
}

/// XML NamePart: `_`, `:`, `.`, `-`, a letter or a decimal digit (`Nd`).
pub open spec fn spec_is_xml_name_part(ch: char) -> bool {
    let c = spec_general_category(ch);
    ch == '_' || ch == ':' || ch == '.' || ch == '-' || is_letter_category(c)
        || c == GeneralCategory::DecimalNumber
}

pub fn is_xml_name_part(ch: char) -> (r: bool)
    ensures
        r == spec_is_xml_name_part(ch),
        ch == '\x00' ==> !r,
        spec_is_line_terminator(ch) ==> !r,
{
    if ch == '\x5f' || ch == ':' || ch == '.' || ch == '-' {
        return true;
    }
    let c = general_category(ch);
    letter_category(c) || c == GeneralCategory::DecimalNumber
}

/// Whatever may start an identifier may also continue it; the ASCII
/// letters, `_` and `$` start identifiers; the decimal digits continue them
/// but do not start them; line feed, carriage return, space, tab and the
/// other ASCII characters do neither.
pub proof fn lemma_identifier_classes(ch: char)
    ensures
        spec_is_identifier_start(ch) ==> spec_is_identifier_part(ch),
        ('a' <= ch <= 'z' || 'A' <= ch <= 'Z' || ch == '_' || ch == '$') ==> spec_is_identifier_start(ch),
        ('0' <= ch <= '9') ==> spec_is_identifier_part(ch) && !spec_is_identifier_start(ch),
        (ch == '\n' || ch == '\r') ==> !spec_is_identifier_part(ch) && !spec_is_whitespace(ch),
        (ch == ' ' || ch == '\t') ==> !spec_is_identifier_part(ch) && spec_is_whitespace(ch),
        ((ch as u32) < 128 && !('a' <= ch <= 'z' || 'A' <= ch <= 'Z' || '0' <= ch <= '9' || ch == '_' || ch == '$'))
            ==> !spec_is_identifier_part(ch),
{
}

/// The digit classes nest: a binary digit is a decimal digit, and a decimal
/// digit is a hexadecimal digit; the letters `a` to `f` in either case are
/// hexadecimal digits, and no other letter is.
pub proof fn lemma_digit_classes(ch: char)
    ensures
        spec_is_bin_digit(ch) <==> (ch == '0' || ch == '1'),
        spec_is_bin_digit(ch) ==> spec_is_dec_digit(ch),
        spec_is_dec_digit(ch) ==> spec_is_hex_digit(ch),
        spec_is_dec_digit(ch) <==> ('0' <= ch <= '9'),
        ('a' <= ch <= 'f' || 'A' <= ch <= 'F') ==> spec_is_hex_digit(ch),
        (('g' <= ch <= 'z') || ('G' <= ch <= 'Z')) ==> !spec_is_hex_digit(ch),
{
}

/// The ASCII letters, `_` and `:` start XML names; space, tab, carriage
/// return and line feed are XML whitespace and neither start nor continue
/// a name.
pub proof fn lemma_xml_name_classes(ch: char)
    ensures
        ('a' <= ch <= 'z' || 'A' <= ch <= 'Z' || ch == '_' || ch == ':') ==> spec_is_xml_name_start(ch),
        (ch == ' ' || ch == '\t' || ch == '\r' || ch == '\n') ==>
            spec_is_xml_whitespace(ch) && !spec_is_xml_name_part(ch) && !spec_is_xml_name_start(ch),
        ('0' <= ch <= '9' || ch == '-' || ch == '.') ==> !spec_is_xml_name_start(ch),
{
}

/// An XML name may go on with whatever may start it, with `-`, `.` and the
/// decimal digits, so an XML name spans hyphenated and dotted names.
pub proof fn lemma_xml_name_part_covers(ch: char)
    requires
        spec_is_xml_name_start(ch) || ch == '-' || ch == '.' || ('0' <= ch <= '9'),
    ensures
        spec_is_xml_name_part(ch),
{
}

/// XMLWhitespace: SPACE, TAB, CR and LF.
pub open spec fn spec_is_xml_whitespace(ch: char) -> bool {
    ch == '\x20' || ch == '\x09' || ch == '\x0D' || ch == '\x0A'
}

pub fn is_xml_whitespace(ch: char) -> (r: bool)
    ensures
        r == spec_is_xml_whitespace(ch),
{
    ch == '\x20' || ch == '\x09' || ch == '\x0D' || ch == '\x0A'
}

/// The mathematical value of a hexadecimal digit.
pub open spec fn spec_hex_digit_mv(ch: char) -> Option<u32> {
    if spec_is_dec_digit(ch) {
        Some((ch as u32 - 0x30) as u32)
    } else if 'A' <= ch <= 'F' {
        Some((ch as u32 - 0x41 + 10) as u32)
    } else if 'a' <= ch <= 'f' {
        Some((ch as u32 - 0x61 + 10) as u32)
    } else {
        None
    }
}

pub fn hex_digit_mv(ch: char) -> (r: Option<u32>)
    ensures
        r == spec_hex_digit_mv(ch),
        r matches Some(v) ==> v < 16,
{
    if ch >= '0' && ch <= '9' {
        Some((ch as u32) - 0x30)
    } else if ch >= 'A' && ch <= 'F' {
        Some((ch as u32) - 0x41 + 10)
    } else if ch >= 'a' && ch <= 'f' {
        Some((ch as u32) - 0x61 + 10)
    } else {
        None
    }
}

/// The mathematical value of a binary digit.
pub open spec fn spec_bin_digit_mv(ch: char) -> Option<u32> {
    if ch == '0' { Some(0) } else if ch == '1' { Some(1) } else { None }
}

pub fn bin_digit_mv(ch: char) -> (r: Option<u32>)
    ensures
        r == spec_bin_digit_mv(ch),
{
    if ch == '0' { Some(0) } else if ch == '1' { Some(1) } else { None }
}

/// The number of whitespace characters at the start of `s`.
pub open spec fn spec_indent_count(s: Seq<char>) -> nat
    decreases s.len(),
{
    if s.len() > 0 && spec_is_whitespace(s[0]) {
        1 + spec_indent_count(s.drop_first())
    } else {
        0
    }
}

proof fn lemma_indent_count_step(s: Seq<char>, i: int)
    requires
        0 <= i < s.len(),
        forall|j: int| 0 <= j < i ==> spec_is_whitespace(#[trigger] s[j]),
    ensures
        spec_indent_count(s) == i + spec_indent_count(s.subrange(i, s.len() as int)),
    decreases i,
{
    if i > 0 {
        assert(s.drop_first().subrange(i - 1, s.drop_first().len() as int)
            =~= s.subrange(i, s.len() as int));
        lemma_indent_count_step(s.drop_first(), i - 1);
    } else {
        assert(s.subrange(0, s.len() as int) =~= s);
    }
}

/// Counts the whitespace characters at the start of `s`.
pub fn indent_count(s: &Vec<char>) -> (r: usize)
    ensures
        r == spec_indent_count(s@),
        r <= s.len(),
        forall|j: int| 0 <= j < r ==> spec_is_whitespace(#[trigger] s@[j]),
        r < s.len() ==> !spec_is_whitespace(s@[r as int]),
{
    let mut i: usize = 0;
    while i < s.len() && is_whitespace(s[i])
        invariant
            i <= s.len(),
            forall|j: int| 0 <= j < i ==> spec_is_whitespace(#[trigger] s@[j]),
        decreases s.len() - i,
    {
        i = i + 1;
    }
    proof {
        if i < s.len() {
            lemma_indent_count_step(s@, i as int);
            assert(spec_indent_count(s@.subrange(i as int, s@.len() as int)) == 0);
        } else {
            lemma_indent_count_all(s@);
        }
    }
    i
}

proof fn lemma_indent_count_all(s: Seq<char>)
    requires
        forall|j: int| 0 <= j < s.len() ==> spec_is_whitespace(#[trigger] s[j]),
    ensures
        spec_indent_count(s) == s.len(),
    decreases s.len(),
{
    if s.len() > 0 {
        assert forall|j: int| 0 <= j < s.drop_first().len() implies spec_is_whitespace(
            #[trigger] s.drop_first()[j],
        ) by {
            assert(s.drop_first()[j] == s[j + 1]);
        }
        lemma_indent_count_all(s.drop_first());
    }
}

} // verus!
