//! Small utilities: text helpers, an arena of shared values, and a wrapper
//! of a reference-counted pointer.

use vstd::prelude::*;
use std::rc::Rc;

verus! {

/// Collects characters into a string (`FromIterator<char>` for `String`).
#[verifier::external_body]
pub(crate) fn string_from_chars(v: &Vec<char>) -> (s: String)
    ensures
        s@ == v@,
{
    v.iter().collect()
}

/// The characters of a string, in order.
pub fn string_chars(s: &str) -> (v: Vec<char>)
    ensures
        v@ == s@,
{
    let n = s.unicode_len();
    let mut v: Vec<char> = Vec::new();
    let mut i: usize = 0;
    while i < n
        invariant
            n == s@.len(),
            i <= n,
            v@ == s@.subrange(0, i as int),
        decreases n - i,
    {
        v.push(s.get_char(i));
        i = i + 1;
        assert(v@ =~= s@.subrange(0, i as int));
    }
    assert(s@.subrange(0, n as int) =~= s@);
    v
}

/// The decimal digits of a natural number, most significant first, without
/// leading zeros (`0` is written as a single zero).
pub open spec fn decimal_digits(n: nat) -> Seq<char>
    decreases n,
{
    if n < 10 {
        seq![digit_char(n)]
    } else {
        decimal_digits(n / 10).push(digit_char(n % 10))
    }
}

pub open spec fn digit_char(d: nat) -> char {
    if d == 0 { '0' } else if d == 1 { '1' } else if d == 2 { '2' } else if d == 3 { '3' }
    else if d == 4 { '4' } else if d == 5 { '5' } else if d == 6 { '6' } else if d == 7 { '7' }
    else if d == 8 { '8' } else { '9' }
}

fn digit(d: u64) -> (c: char)
    requires
        d < 10,
    ensures
        c == digit_char(d as nat),
{
    if d == 0 { '0' } else if d == 1 { '1' } else if d == 2 { '2' } else if d == 3 { '3' }
    else if d == 4 { '4' } else if d == 5 { '5' } else if d == 6 { '6' } else if d == 7 { '7' }
    else if d == 8 { '8' } else { '9' }
}

/// Writes a natural number in decimal.
pub fn decimal_chars(n: u64) -> (v: Vec<char>)
    ensures
        v@ == decimal_digits(n as nat),
    decreases n,
{
    if n < 10 {
        let mut v: Vec<char> = Vec::new();
        v.push(digit(n));
        v
    } else {
        let mut v = decimal_chars(n / 10);
        v.push(digit(n % 10));
        v
    }
}

/// Writes a natural number in decimal, as a string.
pub fn decimal_string(n: u64) -> (s: String)
    ensures
        s@ == decimal_digits(n as nat),
{
    string_from_chars(&decimal_chars(n))
}

/// Appends the characters of `s` to `v`.
pub fn push_str(v: &mut Vec<char>, s: &str)
    ensures
        final(v)@ == old(v)@ + s@,
{
    let n = s.unicode_len();
    let mut i: usize = 0;
    while i < n
        invariant
            n == s@.len(),
            i <= n,
            v@ == old(v)@ + s@.subrange(0, i as int),
        decreases n - i,
    {
        v.push(s.get_char(i));
        i = i + 1;
        assert(v@ =~= old(v)@ + s@.subrange(0, i as int));
    }
    assert(s@.subrange(0, n as int) =~= s@);
}

/// Produces the default value of a type: what `T::default` gives.
pub fn default<T: Default>() -> (r: T)
    ensures
        call_ensures(T::default, (), r),
{
    T::default()
}

/// Stores values for the lifetime of the arena and hands out shared
/// references to them.
pub struct Arena<T> {
    data: Vec<Rc<T>>,
}

impl<T> Arena<T> {
    /// The values stored so far, in allocation order.
    pub closed spec fn values(&self) -> Seq<T> {
        self.data@.map_values(|r: Rc<T>| *r)
    }

    pub fn new() -> (r: Self)
        ensures
            r.values() == Seq::<T>::empty(),
    {
        Self { data: Vec::new() }
    }

    /// Stores `value` and returns a shared reference to it.
    pub fn allocate(&mut self, value: T) -> (r: Rc<T>)
        ensures
            *r == value,
            final(self).values() == old(self).values().push(value),
    {
        let obj = Rc::new(value);
        let r = Rc::clone(&obj);
        self.data.push(obj);
        assert(self.values() =~= old(self).values().push(value));
        r
    }
}

/// Wraps an `Rc<T>`; cloning the wrapper shares the same value. It has no
/// equality or hashing of its own.
pub struct RcHashable<T>(pub Rc<T>);

impl<T> Clone for RcHashable<T> {
    fn clone(&self) -> (r: Self)
        ensures
            *r.0 == *self.0,
    {
        Self(Rc::clone(&self.0))
    }
}

} // verus!

verus! {

/// The value of a digit character in bases up to 16 (zero for a character
/// that is not a digit).
pub open spec fn digit_value(c: char) -> nat {
    match crate::character_validation::spec_hex_digit_mv(c) {
        Some(v) => v as nat,
        None => 0,
    }
}

/// The value of a sequence of digits in a base, most significant first.
pub open spec fn digits_value(s: Seq<char>, radix: nat) -> nat
    decreases s.len(),
{
    if s.len() == 0 {
        0
    } else {
        digits_value(s.drop_last(), radix) * radix + digit_value(s.last())
    }
}

/// Whether every character is a digit of the base.
pub open spec fn all_digits(s: Seq<char>, radix: nat) -> bool {
    forall|k: int| 0 <= k < s.len() ==> (#[trigger] crate::character_validation::spec_hex_digit_mv(s[k])) is Some
        && digit_value(s[k]) < radix
}

proof fn lemma_digits_value_prefix(s: Seq<char>, i: int, radix: nat)
    requires
        0 <= i <= s.len(),
        radix >= 1,
    ensures
        digits_value(s.take(i), radix) <= digits_value(s, radix),
    decreases s.len() - i,
{
    if i < s.len() {
        lemma_digits_value_prefix(s, i + 1, radix);
        assert(s.take(i + 1).drop_last() =~= s.take(i));
        let x = digits_value(s.take(i), radix);
        let y = digits_value(s.take(i + 1), radix);
        assert(y == x * radix + digit_value(s.take(i + 1).last()));
        assert(x * radix >= x) by (nonlinear_arith)
            requires radix >= 1;
    } else {
        assert(s.take(i) =~= s);
    }
}

/// Reads a sequence of digits in a base; `None` when there are no digits or
/// the value exceeds `max`.
pub fn parse_digits(v: &Vec<char>, radix: u64, max: u64) -> (r: Option<u64>)
    requires
        2 <= radix <= 16,
        all_digits(v@, radix as nat),
    ensures
        match r {
            Some(n) => v@.len() > 0 && n == digits_value(v@, radix as nat) && n <= max,
            None => v@.len() == 0 || digits_value(v@, radix as nat) > max,
        },
{
    if v.len() == 0 {
        return None;
    }
    let mut acc: u128 = 0;
    let mut i: usize = 0;
    while i < v.len()
        invariant
            2 <= radix <= 16,
            all_digits(v@, radix as nat),
            i <= v.len(),
            acc == digits_value(v@.take(i as int), radix as nat),
            acc <= max,
        decreases v.len() - i,
    {
        let d = crate::character_validation::hex_digit_mv(v[i]).unwrap();
        assert(v@.take(i + 1).drop_last() =~= v@.take(i as int));
        assert(v@.take(i + 1).last() == v@[i as int]);
        assert(acc * (radix as u128) <= u64::MAX * 16) by (nonlinear_arith)
            requires acc <= max, max <= u64::MAX, radix <= 16;
        let next = acc * (radix as u128) + (d as u128);
        i = i + 1;
        if next > max as u128 {
            proof { lemma_digits_value_prefix(v@, i as int, radix as nat); }
            return None;
        }
        acc = next;
    }
    assert(v@.take(v.len() as int) =~= v@);
    Some(acc as u64)
}

/// `char::from_u32`: the character with a code point, if the value is a
/// Unicode scalar value (at most U+10FFFF and not a surrogate).
#[verifier::external_body]
pub(crate) fn char_from_u32(v: u32) -> (r: Option<char>)
    ensures
        r is Some <==> vstd::utf8::is_scalar(v),
        r matches Some(c) ==> c as u32 == v,
{
    char::from_u32(v)
}

} // verus!
