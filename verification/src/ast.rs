//! Small pieces of the syntax tree: reserved namespaces, parameter and
//! variable kinds, nullability markers, and numeric literals with their
//! conversions to integers.

use vstd::prelude::*;
use crate::location::Location;
use crate::util::{digits_value, digit_value, all_digits, string_chars, parse_digits};
use crate::character_validation::{hex_digit_mv, bin_digit_mv, spec_is_hex_digit, spec_is_bin_digit, spec_is_dec_digit};
use num_bigint::BigInt;
use crate::tokenizer::without_underscores;

verus! {

/// A reserved namespace used as an attribute.
#[derive(Clone, Copy, Debug, PartialEq, Eq, Structural)]
pub enum ReservedNamespace {
    Public,
    Private,
    Protected,
    Internal,
}

/// The reserved word that denotes a reserved namespace.
pub open spec fn reserved_namespace_name(ns: ReservedNamespace) -> Seq<char> {
    match ns {
        ReservedNamespace::Public => seq!['p', 'u', 'b', 'l', 'i', 'c'],
        ReservedNamespace::Private => seq!['p', 'r', 'i', 'v', 'a', 't', 'e'],
        ReservedNamespace::Protected => seq!['p', 'r', 'o', 't', 'e', 'c', 't', 'e', 'd'],
        ReservedNamespace::Internal => seq!['i', 'n', 't', 'e', 'r', 'n', 'a', 'l'],
    }
}

impl ReservedNamespace {
    /// The reserved word that denotes this namespace.
    pub fn to_string(&self) -> (r: String)
        ensures
            r@ == reserved_namespace_name(*self),
    {
        let s = match self {
            Self::Public => "public",
            Self::Private => "private",
            Self::Protected => "protected",
            Self::Internal => "internal",
        };
        proof {
            reveal_strlit("public");
            assert("public"@ =~= seq!['p', 'u', 'b', 'l', 'i', 'c']);
            reveal_strlit("private");
            assert("private"@ =~= seq!['p', 'r', 'i', 'v', 'a', 't', 'e']);
            reveal_strlit("protected");
            assert("protected"@ =~= seq!['p', 'r', 'o', 't', 'e', 'c', 't', 'e', 'd']);
            reveal_strlit("internal");
            assert("internal"@ =~= seq!['i', 'n', 't', 'e', 'r', 'n', 'a', 'l']);
        }
        s.to_string()
    }
}

/// The kind of a parameter in a function type: required, optional (with a
/// default value) or rest.
#[derive(Clone, Copy, Debug, PartialEq, Eq, Structural)]
pub enum FunctionParamKind {
    Required,
    Optional,
    Rest,
}

/// The order in which parameter kinds may appear: required ones first, then
/// optional ones, then the rest parameter.
pub open spec fn function_param_kind_rank(k: FunctionParamKind) -> int {
    match k {
        FunctionParamKind::Required => 1,
        FunctionParamKind::Optional => 2,
        FunctionParamKind::Rest => 3,
    }
}

impl FunctionParamKind {
    /// Whether a parameter of this kind may be followed by one of kind
    /// `other`.
    pub fn may_be_followed_by(&self, other: Self) -> (r: bool)
        ensures
            r == (function_param_kind_rank(*self) <= function_param_kind_rank(other)),
    {
        rank_of_function_param_kind(*self) <= rank_of_function_param_kind(other)
    }
}

fn rank_of_function_param_kind(k: FunctionParamKind) -> (r: u32)
    ensures
        r == function_param_kind_rank(k),
{
    match k {
        FunctionParamKind::Required => 1,
        FunctionParamKind::Optional => 2,
        FunctionParamKind::Rest => 3,
    }
}

/// "May be followed by" orders parameter kinds totally: every kind may follow
/// itself, the relation is transitive, of two distinct kinds exactly one may
/// follow the other, and a rest parameter may only be followed by another.
pub proof fn lemma_function_param_kind_order(a: FunctionParamKind, b: FunctionParamKind, c: FunctionParamKind)
    ensures
        function_param_kind_rank(a) <= function_param_kind_rank(a),
        function_param_kind_rank(a) <= function_param_kind_rank(b)
            && function_param_kind_rank(b) <= function_param_kind_rank(c)
            ==> function_param_kind_rank(a) <= function_param_kind_rank(c),
        a != b ==> (function_param_kind_rank(a) <= function_param_kind_rank(b))
            != (function_param_kind_rank(b) <= function_param_kind_rank(a)),
        a == FunctionParamKind::Rest && function_param_kind_rank(a) <= function_param_kind_rank(b)
            ==> b == FunctionParamKind::Rest,
        function_param_kind_rank(FunctionParamKind::Required) <= function_param_kind_rank(b),
{
}

/// The kind of a function parameter: required, optional (with a default
/// value) or rest.
#[derive(Clone, Copy, Debug, PartialEq, Eq, Structural)]
pub enum ParameterKind {
    Required,
    Optional,
    Rest,
}

/// The order in which parameter kinds may appear: required ones first, then
/// optional ones, then the rest parameter.
pub open spec fn parameter_kind_rank(k: ParameterKind) -> int {
    match k {
        ParameterKind::Required => 1,
        ParameterKind::Optional => 2,
        ParameterKind::Rest => 3,
    }
}

impl ParameterKind {
    /// Whether a parameter of this kind may be followed by one of kind
    /// `other`.
    pub fn may_be_followed_by(&self, other: Self) -> (r: bool)
        ensures
            r == (parameter_kind_rank(*self) <= parameter_kind_rank(other)),
    {
        rank_of_parameter_kind(*self) <= rank_of_parameter_kind(other)
    }
}

fn rank_of_parameter_kind(k: ParameterKind) -> (r: u32)
    ensures
        r == parameter_kind_rank(k),
{
    match k {
        ParameterKind::Required => 1,
        ParameterKind::Optional => 2,
        ParameterKind::Rest => 3,
    }
}

/// "May be followed by" orders parameter kinds totally: every kind may follow
/// itself, the relation is transitive, of two distinct kinds exactly one may
/// follow the other, and a rest parameter may only be followed by another.
pub proof fn lemma_parameter_kind_order(a: ParameterKind, b: ParameterKind, c: ParameterKind)
    ensures
        parameter_kind_rank(a) <= parameter_kind_rank(a),
        parameter_kind_rank(a) <= parameter_kind_rank(b) && parameter_kind_rank(b) <= parameter_kind_rank(c)
            ==> parameter_kind_rank(a) <= parameter_kind_rank(c),
        a != b ==> (parameter_kind_rank(a) <= parameter_kind_rank(b)) != (parameter_kind_rank(b) <= parameter_kind_rank(a)),
        a == ParameterKind::Rest && parameter_kind_rank(a) <= parameter_kind_rank(b) ==> b == ParameterKind::Rest,
        parameter_kind_rank(ParameterKind::Required) <= parameter_kind_rank(b),
{
}

/// The suffix after a key of a record type field: none, `!` or `?`.
#[derive(Clone, Copy, Debug, PartialEq, Eq, Structural)]
pub enum RecordTypeKeySuffix {
    NoSuffix,
    NonNullable,
    Nullable,
}

/// The nullability written after a field of a record type.
#[derive(Clone, Copy, Debug, PartialEq, Eq, Structural)]
pub enum FieldNullability {
    Unspecified,
    NonNullable,
    Nullable,
}

/// The keyword of a variable definition.
#[derive(Clone, Copy, Debug, PartialEq, Eq, Structural)]
pub enum VariableKind {
    Var,
    Const,
}

} // verus!

verus! {

/// Indicates that a numeric literal does not denote a value of the requested
/// type.
#[derive(Clone, Copy, Debug, PartialEq, Eq, Structural)]
pub struct ParsingFailure;

/// A numeric literal: its location and its characters as written.
#[derive(Debug)]
pub struct NumericLiteral {
    pub location: Location,
    /// The numeric value in character representation, which the
    /// type-specific methods such as [`NumericLiteral::parse_long()`] parse.
    pub value: String,
}

impl Clone for NumericLiteral {
    fn clone(&self) -> (r: Self)
        ensures
            r == *self,
    {
        NumericLiteral { location: self.location, value: self.value.clone() }
    }
}

/// The value of an optional `+` or `-` sign followed by one or more digits
/// of a radix; `None` when `t` has another form.
pub open spec fn signed_digits_value(t: Seq<char>, radix: nat) -> Option<int> {
    if t.len() > 0 && (t[0] == '+' || t[0] == '-') {
        let d = t.drop_first();
        if d.len() > 0 && all_digits(d, radix) {
            Some(if t[0] == '-' { -(digits_value(d, radix) as int) } else { digits_value(d, radix) as int })
        } else {
            None
        }
    } else if t.len() > 0 && all_digits(t, radix) {
        Some(digits_value(t, radix) as int)
    } else {
        None
    }
}

/// What `i64::from_str_radix` gives: the value of an optional sign and
/// digits of the radix, when it fits in `i64`.
pub open spec fn spec_parse_i64(t: Seq<char>, radix: nat) -> Option<i64> {
    match signed_digits_value(t, radix) {
        Some(v) => if i64::MIN <= v <= i64::MAX { Some(v as i64) } else { None },
        None => None,
    }
}

/// The characters of a literal that `parse_long` reads, with the radix:
/// after `0x` or `0b` (with `-` before them when `negative`), or the whole
/// literal in decimal, where `negative` is not taken into account.
pub open spec fn long_literal_text(s: Seq<char>, negative: bool) -> (Seq<char>, nat) {
    let sign = if negative { seq!['-'] } else { Seq::<char>::empty() };
    if s.len() >= 2 && s[0] == '0' && (s[1] == 'x' || s[1] == 'X') {
        (sign + s.subrange(2, s.len() as int), 16)
    } else if s.len() >= 2 && s[0] == '0' && (s[1] == 'b' || s[1] == 'B') {
        (sign + s.subrange(2, s.len() as int), 2)
    } else {
        (s, 10)
    }
}

/// A character that is not a digit of the radix, after the sign, leaves
/// the text without a value.
proof fn lemma_not_all_digits(t: Seq<char>, start: int, i: int, radix: nat)
    requires
        start == (if t.len() > 0 && (t[0] == '+' || t[0] == '-') { 1int } else { 0int }),
        start <= i < t.len(),
        !(crate::character_validation::spec_hex_digit_mv(t[i]) is Some
            && crate::util::digit_value(t[i]) < radix),
    ensures
        signed_digits_value(t, radix) is None,
{
    if start == 1 {
        let d = t.drop_first();
        assert(d[i - 1] == t[i]);
        assert(!all_digits(d, radix));
    } else {
        assert(!all_digits(t, radix));
    }
}

/// Reads an optional sign and digits of a radix as an `i64`.
fn parse_i64(t: &Vec<char>, radix: u32) -> (r: Option<i64>)
    requires
        radix == 2 || radix == 10 || radix == 16,
    ensures
        r == spec_parse_i64(t@, radix as nat),
{
    let negative = t.len() > 0 && t[0] == '-';
    let signed = t.len() > 0 && (t[0] == '+' || t[0] == '-');
    let start: usize = if signed { 1 } else { 0 };
    let mut digits: Vec<char> = Vec::new();
    let mut i = start;
    while i < t.len()
        invariant
            start == (if t@.len() > 0 && (t@[0] == '+' || t@[0] == '-') { 1int } else { 0int }),
            start <= i <= t.len(),
            digits@ == t@.subrange(start as int, i as int),
            radix == 2 || radix == 10 || radix == 16,
            all_digits(digits@, radix as nat),
        decreases t.len() - i,
    {
        let c = t[i];
        let d = hex_digit_mv(c);
        match d {
            Some(v) => {
                if v >= radix {
                    proof { lemma_not_all_digits(t@, start as int, i as int, radix as nat); }
                    return None;
                }
            },
            None => {
                proof { lemma_not_all_digits(t@, start as int, i as int, radix as nat); }
                return None;
            },
        }
        digits.push(c);
        i = i + 1;
        proof {
            assert(digits@ =~= t@.subrange(start as int, i as int));
        }
    }
    proof {
        if signed {
            assert(t@.drop_first() =~= digits@);
        } else {
            assert(t@ =~= digits@);
        }
    }
    if negative {
        match parse_digits(&digits, radix as u64, 0x8000_0000_0000_0000) {
            Some(v) => {
                if v == 0x8000_0000_0000_0000 {
                    Some(i64::MIN)
                } else {
                    Some(-(v as i64))
                }
            },
            None => None,
        }
    } else {
        match parse_digits(&digits, radix as u64, 0x7FFF_FFFF_FFFF_FFFF) {
            Some(v) => Some(v as i64),
            None => None,
        }
    }
}

impl NumericLiteral {
    /// Parses a signed long either in decimal, binary (`0b`) or hexadecimal
    /// (`0x`) notation, leaving out every `_`. `negative` applies to binary
    /// and hexadecimal notation; a decimal literal carries its own sign.
    pub fn parse_long(&self, negative: bool) -> (r: Result<i64, ParsingFailure>)
        ensures
            ({
                let (t, radix) = long_literal_text(without_underscores(self.value@), negative);
                match spec_parse_i64(t, radix) {
                    Some(v) => r == Ok::<i64, ParsingFailure>(v),
                    None => r is Err,
                }
            }),
    {
        let s = chars_without_underscores(self.value.as_str());
        let mut t: Vec<char> = Vec::new();
        let radix: u32 = if s.len() >= 2 && s[0] == '0' && (s[1] == 'x' || s[1] == 'X') {
            16
        } else if s.len() >= 2 && s[0] == '0' && (s[1] == 'b' || s[1] == 'B') {
            2
        } else {
            10
        };
        if radix == 10 {
            t = s;
        } else {
            if negative {
                t.push('-');
            }
            let mut i: usize = 2;
            while i < s.len()
                invariant
                    2 <= i <= s.len(),
                    t@ == (if negative { seq!['-'] } else { Seq::<char>::empty() }) + s@.subrange(2, i as int),
                decreases s.len() - i,
            {
                t.push(s[i]);
                i = i + 1;
                proof {
                    assert(t@ =~= (if negative { seq!['-'] } else { Seq::<char>::empty() }) + s@.subrange(2, i as int));
                }
            }
        }
        match parse_i64(&t, radix) {
            Some(v) => Ok(v),
            None => Err(ParsingFailure),
        }
    }
}

/// The characters of a string other than `_`.
fn chars_without_underscores(s: &str) -> (v: Vec<char>)
    ensures
        v@ == without_underscores(s@),
{
    let chars = string_chars(s);
    let mut v: Vec<char> = Vec::new();
    let mut i: usize = 0;
    while i < chars.len()
        invariant
            i <= chars.len(),
            chars@ == s@,
            v@ == without_underscores(chars@.subrange(0, i as int)),
        decreases chars.len() - i,
    {
        proof {
            assert(chars@.subrange(0, i + 1).drop_last() =~= chars@.subrange(0, i as int));
            reveal(Seq::filter);
        }
        if chars[i] != '_' {
            v.push(chars[i]);
        }
        i = i + 1;
    }
    proof { assert(chars@.subrange(0, chars@.len() as int) =~= chars@); }
    v
}

} // verus!

verus! {

#[verifier::external_type_specification]
#[verifier::external_body]
pub struct ExBigInt(num_bigint::BigInt);

/// The integer `BigInt::from_radix_be` builds from big-endian digits of a
/// radix, negated when `negative`.
pub uninterp spec fn big_int_from_digits(negative: bool, digits: Seq<u8>, radix: u32) -> BigInt;

/// The integer that `BigInt::from_str` reads from a decimal string.
pub uninterp spec fn big_int_from_decimal(s: Seq<char>) -> BigInt;

/// Whether `BigInt::from_str` accepts `s`: an optional `+` or `-` followed by
/// one or more decimal digits.
pub open spec fn is_signed_decimal(s: Seq<char>) -> bool {
    if s.len() > 0 && (s[0] == '+' || s[0] == '-') {
        s.len() > 1 && forall|k: int| 1 <= k < s.len() ==> spec_is_dec_digit(#[trigger] s[k])
    } else {
        s.len() > 0 && forall|k: int| 0 <= k < s.len() ==> spec_is_dec_digit(#[trigger] s[k])
    }
}

/// `BigInt::from_radix_be`, with the sign given as `negative`: it builds an
/// integer from big-endian digits of the radix, and gives `None` when a
/// digit is not below the radix (any byte is a digit in radix 256).
#[verifier::external_body]
fn big_int_from_radix_be(negative: bool, digits: &Vec<u8>, radix: u32) -> (r: Option<BigInt>)
    requires
        2 <= radix <= 256,
    ensures
        r is Some <==> (radix == 256 || forall|k: int| 0 <= k < digits@.len() ==> digits@[k] < radix),
        r matches Some(b) ==> b == big_int_from_digits(negative, digits@, radix),
{
    let sign = if negative { num_bigint::Sign::Minus } else { num_bigint::Sign::Plus };
    BigInt::from_radix_be(sign, digits.as_slice(), radix)
}

/// `BigInt::from_str` (`str::parse::<BigInt>`): the integer written in
/// decimal, accepted when it is an optional sign and one or more decimal
/// digits (the text given here holds no `_`).
#[verifier::external_body]
fn big_int_from_str(s: &str) -> (r: Option<BigInt>)
    requires
        !s@.contains('_'),
    ensures
        r is Some <==> is_signed_decimal(s@),
        r matches Some(b) ==> b == big_int_from_decimal(s@),
{
    s.parse::<BigInt>().ok()
}

/// The digits after the `0x` or `0b` of a literal, as their values.
fn digit_values(s: &Vec<char>, radix: u32) -> (r: Vec<u8>)
    requires
        radix == 2 || radix == 16,
        s@.len() >= 2,
        forall|k: int| 2 <= k < s@.len() ==> (if radix == 16 { spec_is_hex_digit(#[trigger] s@[k]) } else { spec_is_bin_digit(s@[k]) }),
    ensures
        r@.len() == s@.len() - 2,
        forall|k: int| 0 <= k < r@.len() ==> (#[trigger] r@[k]) as nat == digit_value(s@[k + 2]) && r@[k] < radix,
{
    let mut r: Vec<u8> = Vec::new();
    let mut i: usize = 2;
    while i < s.len()
        invariant
            radix == 2 || radix == 16,
            2 <= i <= s.len(),
            forall|k: int| 2 <= k < s@.len() ==> (if radix == 16 { spec_is_hex_digit(#[trigger] s@[k]) } else { spec_is_bin_digit(s@[k]) }),
            r@.len() == i - 2,
            forall|k: int| 0 <= k < r@.len() ==> (#[trigger] r@[k]) as nat == digit_value(s@[k + 2]) && r@[k] < radix,
        decreases s.len() - i,
    {
        let c = s[i];
        let v: u32 = if radix == 16 { hex_digit_mv(c).unwrap() } else { bin_digit_mv(c).unwrap() };
        proof {
            assert(v as nat == digit_value(c) && v < radix);
        }
        let ghost before = r@;
        r.push(v as u8);
        proof {
            assert forall|k: int| 0 <= k < r@.len() implies (#[trigger] r@[k]) as nat == digit_value(s@[k + 2]) && r@[k] < radix by {
                if k < before.len() {
                    assert(r@[k] == before[k]);
                    assert(before[k] as nat == digit_value(s@[k + 2]) && before[k] < radix);
                } else {
                    assert(k + 2 == i);
                    assert(r@[k] == v as u8);
                    assert((v as u8) as nat == v);
                }
            }
        }
        i = i + 1;
    }
    r
}

impl NumericLiteral {
    /// Parses a big integer either in decimal, binary (`0b`) or hexadecimal
    /// (`0x`) notation, leaving out every `_`. `negative` applies to binary
    /// and hexadecimal notation; a decimal literal carries its own sign.
    pub fn parse_big_int(&self, negative: bool) -> (r: Result<BigInt, ParsingFailure>)
        requires
            ({
                let s = without_underscores(self.value@);
                &&& s.len() >= 2 && s[0] == '0' && (s[1] == 'x' || s[1] == 'X')
                    ==> forall|k: int| 2 <= k < s.len() ==> spec_is_hex_digit(#[trigger] s[k])
                &&& s.len() >= 2 && s[0] == '0' && (s[1] == 'b' || s[1] == 'B')
                    ==> forall|k: int| 2 <= k < s.len() ==> spec_is_bin_digit(#[trigger] s[k])
            }),
        ensures
            ({
                let s = without_underscores(self.value@);
                if s.len() >= 2 && s[0] == '0' && (s[1] == 'x' || s[1] == 'X') {
                    r matches Ok(b) && b == big_int_from_digits(negative, literal_digit_values(s), 16)
                } else if s.len() >= 2 && s[0] == '0' && (s[1] == 'b' || s[1] == 'B') {
                    r matches Ok(b) && b == big_int_from_digits(negative, literal_digit_values(s), 2)
                } else {
                    &&& is_signed_decimal(s) ==> (r matches Ok(b) && b == big_int_from_decimal(s))
                    &&& !is_signed_decimal(s) ==> r is Err
                }
            }),
    {
        let s = chars_without_underscores(self.value.as_str());
        let hex = s.len() >= 2 && s[0] == '0' && (s[1] == 'x' || s[1] == 'X');
        let bin = s.len() >= 2 && s[0] == '0' && (s[1] == 'b' || s[1] == 'B');
        if hex || bin {
            let radix: u32 = if hex { 16 } else { 2 };
            let digits = digit_values(&s, radix);
            proof {
                assert(digits@ =~= literal_digit_values(s@));
            }
            return match big_int_from_radix_be(negative, &digits, radix) {
                Some(n) => Ok(n),
                None => Err(ParsingFailure),
            };
        }
        proof {
            broadcast use vstd::seq_lib::group_filter_ensures;
            assert(!s@.contains('_')) by {
                if s@.contains('_') {
                    let k = choose|k: int| 0 <= k < s@.len() && s@[k] == '_';
                    assert((|c: char| c != '_')(s@[k]));
                }
            }
        }
        let text = crate::util::string_from_chars(&s);
        match big_int_from_str(text.as_str()) {
            Some(n) => Ok(n),
            None => Err(ParsingFailure),
        }
    }
}

/// The values of the digits after the `0x` or `0b` of a literal.
pub open spec fn literal_digit_values(s: Seq<char>) -> Seq<u8> {
    Seq::new((s.len() - 2) as nat, |k: int| digit_value(s[k + 2]) as u8)
}

} // verus!
