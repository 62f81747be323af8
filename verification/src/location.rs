//! Source locations: UTF-8 offsets and line numbers within a source text.

use vstd::prelude::*;

verus! {

/// The number of bytes of the UTF-8 encoding of a character.
pub open spec fn utf8_width(c: char) -> nat {
    if (c as u32) < 0x80 {
        1
    } else if (c as u32) < 0x800 {
        2
    } else if (c as u32) < 0x10000 {
        3
    } else {
        4
    }
}

/// The number of bytes of the UTF-8 encoding of a character sequence.
pub open spec fn utf8_len(s: Seq<char>) -> nat
    decreases s.len(),
{
    if s.len() == 0 {
        0
    } else {
        utf8_width(s[0]) + utf8_len(s.drop_first())
    }
}

/// The UTF-8 offset of the character at index `i`.
pub open spec fn byte_offset(s: Seq<char>, i: int) -> nat {
    utf8_len(s.take(i))
}

pub proof fn lemma_utf8_len_push(s: Seq<char>, c: char)
    ensures
        utf8_len(s.push(c)) == utf8_len(s) + utf8_width(c),
    decreases s.len(),
{
    if s.len() > 0 {
        assert(s.push(c).drop_first() =~= s.drop_first().push(c));
        assert(s.push(c)[0] == s[0]);
        lemma_utf8_len_push(s.drop_first(), c);
    } else {
        assert(s.push(c).drop_first() =~= Seq::<char>::empty());
        assert(utf8_len(s.push(c).drop_first()) == 0);
        assert(s.push(c)[0] == c);
    }
}

pub proof fn lemma_utf8_len_concat(a: Seq<char>, b: Seq<char>)
    ensures
        utf8_len(a + b) == utf8_len(a) + utf8_len(b),
    decreases a.len(),
{
    if a.len() > 0 {
        assert((a + b).drop_first() =~= a.drop_first() + b);
        lemma_utf8_len_concat(a.drop_first(), b);
    } else {
        assert(a + b =~= b);
    }
}

/// Moving one character forward advances the offset by that character's width.
pub proof fn lemma_byte_offset_step(s: Seq<char>, i: int)
    requires
        0 <= i < s.len(),
    ensures
        byte_offset(s, i + 1) == byte_offset(s, i) + utf8_width(s[i]),
{
    assert(s.take(i + 1) =~= s.take(i).push(s[i]));
    lemma_utf8_len_push(s.take(i), s[i]);
}

/// Offsets grow strictly with the character index.
pub proof fn lemma_byte_offset_strictly_increasing(s: Seq<char>, i: int, j: int)
    requires
        0 <= i <= j <= s.len(),
    ensures
        byte_offset(s, i) <= byte_offset(s, j),
        i < j ==> byte_offset(s, i) < byte_offset(s, j),
        byte_offset(s, j) - byte_offset(s, i) <= 4 * (j - i),
        byte_offset(s, j) - byte_offset(s, i) >= j - i,
    decreases j - i,
{
    if i < j {
        lemma_byte_offset_strictly_increasing(s, i, j - 1);
        lemma_byte_offset_step(s, j - 1);
    }
}

/// The length of the UTF-8 encoding that vstd gives a string is its byte length.
pub proof fn lemma_encode_utf8_len(s: Seq<char>)
    ensures
        vstd::utf8::encode_utf8(s).len() == utf8_len(s),
    decreases s.len(),
{
    if s.len() > 0 {
        vstd::utf8::char_is_scalar(s[0]);
        lemma_encode_utf8_len(s.drop_first());
    }
}

/// The byte length of a string.
pub fn str_byte_len(s: &str) -> (r: usize)
    ensures
        r == utf8_len(s@),
{
    proof {
        lemma_encode_utf8_len(s@);
    }
    let b = s.as_bytes();
    b.len()
}

/// The number of bytes of the UTF-8 encoding of a character.
pub fn char_width(c: char) -> (r: usize)
    ensures
        r == utf8_width(c),
        1 <= r <= 4,
{
    let u = c as u32;
    if u < 0x80 {
        1
    } else if u < 0x800 {
        2
    } else if u < 0x10000 {
        3
    } else {
        4
    }
}

/// Represents a source location: the lines and the UTF-8 offsets that it spans.
#[derive(Clone, Copy, Debug, PartialEq, Eq, Structural)]
pub struct Location {
    /// First line number, counted from one.
    pub first_line_number: usize,
    /// Last line number, counted from one.
    pub last_line_number: usize,
    /// First UTF-8 offset.
    pub first_offset: usize,
    /// Last UTF-8 offset.
    pub last_offset: usize,
}

impl Location {
    /// Builds a location.
    pub fn with_lines_and_offsets(
        first_line_number: usize,
        last_line_number: usize,
        first_offset: usize,
        last_offset: usize,
    ) -> (r: Self)
        ensures
            r == (Location { first_line_number, last_line_number, first_offset, last_offset }),
    {
        Self { first_line_number, last_line_number, first_offset, last_offset }
    }

    /// Builds a location.
    pub fn with_line_and_offsets(line_number: usize, first_offset: usize, last_offset: usize) -> (r: Self)
        ensures
            r == (Location {
                first_line_number: line_number,
                last_line_number: line_number,
                first_offset,
                last_offset,
            }),
    {
        Self::with_lines_and_offsets(line_number, line_number, first_offset, last_offset)
    }

    /// Builds a location.
    pub fn with_line_and_offset(line_number: usize, offset: usize) -> (r: Self)
        ensures
            r == (Location {
                first_line_number: line_number,
                last_line_number: line_number,
                first_offset: offset,
                last_offset: offset,
            }),
    {
        Self::with_lines_and_offsets(line_number, line_number, offset, offset)
    }

    /// Build a location by combining two locations. `self`
    /// serves as the first location, while `other` serves as the
    /// last location.
    pub fn combine_with(&self, other: Location) -> (r: Self)
        ensures
            r == (Location {
                first_line_number: self.first_line_number,
                last_line_number: other.last_line_number,
                first_offset: self.first_offset,
                last_offset: other.last_offset,
            }),
    {
        Self {
            first_line_number: self.first_line_number,
            last_line_number: other.last_line_number,
            first_offset: self.first_offset,
            last_offset: other.last_offset,
        }
    }

    /// Build a location by combining two locations. `self`
    /// serves as the first location, while the first column and first line
    /// of `other` serves as the last location.
    pub fn combine_with_start_of(&self, other: Location) -> (r: Self)
        ensures
            r == (Location {
                first_line_number: self.first_line_number,
                last_line_number: other.first_line_number,
                first_offset: self.first_offset,
                last_offset: other.first_offset,
            }),
    {
        Self {
            first_line_number: self.first_line_number,
            last_line_number: other.first_line_number,
            first_offset: self.first_offset,
            last_offset: other.first_offset,
        }
    }

    /// First line number, counted from one.
    pub fn first_line_number(&self) -> (r: usize)
        ensures
            r == self.first_line_number,
    {
        self.first_line_number
    }

    /// Last line number, counted from one.
    pub fn last_line_number(&self) -> (r: usize)
        ensures
            r == self.last_line_number,
    {
        self.last_line_number
    }

    /// The first byte offset of this location.
    pub fn first_offset(&self) -> (r: usize)
        ensures
            r == self.first_offset,
    {
        self.first_offset
    }

    /// The last byte offset of this location.
    pub fn last_offset(&self) -> (r: usize)
        ensures
            r == self.last_offset,
    {
        self.last_offset
    }

    /// Indicates whether a previous location and a next location
    /// have a line break in between.
    pub fn line_break(&self, other: &Self) -> (r: bool)
        ensures
            r == (self.last_line_number != other.first_line_number),
    {
        self.last_line_number != other.first_line_number
    }
}

/// Combining a location with itself leaves it unchanged, and combining is
/// associative: the outer locations decide the result.
pub proof fn lemma_combine_with(a: Location, b: Location, c: Location)
    ensures
        (Location {
            first_line_number: a.first_line_number,
            last_line_number: a.last_line_number,
            first_offset: a.first_offset,
            last_offset: a.last_offset,
        }) == a,
        ({
            let ab = Location {
                first_line_number: a.first_line_number,
                last_line_number: b.last_line_number,
                first_offset: a.first_offset,
                last_offset: b.last_offset,
            };
            let bc = Location {
                first_line_number: b.first_line_number,
                last_line_number: c.last_line_number,
                first_offset: b.first_offset,
                last_offset: c.last_offset,
            };
            Location {
                first_line_number: ab.first_line_number,
                last_line_number: c.last_line_number,
                first_offset: ab.first_offset,
                last_offset: c.last_offset,
            } == Location {
                first_line_number: a.first_line_number,
                last_line_number: bc.last_line_number,
                first_offset: a.first_offset,
                last_offset: bc.last_offset,
            }
        }),
{
}

} // verus!
