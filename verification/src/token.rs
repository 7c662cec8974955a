//! The tokens that the grammars read, and ASCII case-insensitive matching of
//! identifiers.

use vstd::prelude::*;

verus! {

/// A numeric value as the tokenizer hands it out: the bit pattern of its
/// single-precision value, and the token's canonical text.
#[derive(Debug, PartialEq, Eq, Hash)]
pub struct Numeric {
    /// IEEE 754 single-precision bit pattern of the value.
    pub bits: u32,
    /// The text of the token that carried the value.
    pub text: String,
}

/// One component value of a declaration, whitespace and comments left out.
#[derive(Debug, PartialEq, Eq, Hash)]
pub enum Token {
    /// An identifier.
    Ident(String),
    /// A quoted string, quotes and escapes resolved.
    QuotedString(String),
    /// A number without a unit.
    Number(Numeric),
    /// A percentage; the value is the fraction, `0.5` for `50%`.
    Percentage(Numeric),
    /// A number with a unit.
    Dimension(Numeric, String),
    /// `,`
    Comma,
    /// A single code point that forms a token by itself, such as `/`.
    Delim(char),
    /// Any other token; a block or a function stands here as a whole.
    Other,
}

impl Clone for Numeric {
    fn clone(&self) -> (r: Self)
        ensures
            r == *self,
    {
        Numeric { bits: self.bits, text: self.text.clone() }
    }
}

impl Clone for Token {
    fn clone(&self) -> (r: Self)
        ensures
            r == *self,
    {
        match self {
            Token::Ident(s) => Token::Ident(s.clone()),
            Token::QuotedString(s) => Token::QuotedString(s.clone()),
            Token::Number(n) => Token::Number(n.clone()),
            Token::Percentage(n) => Token::Percentage(n.clone()),
            Token::Dimension(n, u) => Token::Dimension(n.clone(), u.clone()),
            Token::Comma => Token::Comma,
            Token::Delim(c) => Token::Delim(*c),
            Token::Other => Token::Other,
        }
    }
}

/// The bit pattern of `0.0`.
pub const BITS_ZERO: u32 = 0x0000_0000;

/// The bit pattern of `-0.0`.
pub const BITS_NEG_ZERO: u32 = 0x8000_0000;

/// The bit pattern of `0.5`.
pub const BITS_HALF: u32 = 0x3F00_0000;

/// The bit pattern of `1.0`.
pub const BITS_ONE: u32 = 0x3F80_0000;

/// The bit pattern of positive infinity, the largest pattern that compares
/// greater than or equal to zero.
pub const BITS_INFINITY: u32 = 0x7F80_0000;

/// Whether the value with this bit pattern compares equal to zero.
pub open spec fn bits_is_zero(bits: u32) -> bool {
    bits == BITS_ZERO || bits == BITS_NEG_ZERO
}

/// Whether the value with this bit pattern compares greater than or equal to
/// zero: a cleared sign bit and no NaN, or negative zero.
pub open spec fn bits_is_non_negative(bits: u32) -> bool {
    bits <= BITS_INFINITY || bits == BITS_NEG_ZERO
}

/// Whether the value with this bit pattern compares equal to zero.
pub fn is_zero(bits: u32) -> (r: bool)
    ensures
        r == bits_is_zero(bits),
{
    bits == BITS_ZERO || bits == BITS_NEG_ZERO
}

/// Whether the value with this bit pattern compares greater than or equal to
/// zero.
pub fn is_non_negative(bits: u32) -> (r: bool)
    ensures
        r == bits_is_non_negative(bits),
{
    bits <= BITS_INFINITY || bits == BITS_NEG_ZERO
}

/// The lower-case form of an ASCII upper-case letter; any other character
/// unchanged.
pub open spec fn ascii_lower(c: char) -> char {
    if 'A' <= c && c <= 'Z' {
        ((c as u32) + 32) as char
    } else {
        c
    }
}

/// Whether two texts match when ASCII letters are compared without case.
pub open spec fn matches_ignore_ascii_case(a: Seq<char>, b: Seq<char>) -> bool {
    &&& a.len() == b.len()
    &&& forall|i: int| 0 <= i < a.len() ==> ascii_lower(#[trigger] a[i]) == ascii_lower(b[i])
}

/// `str::eq_ignore_ascii_case` of the standard library: the two strings are
/// equal once each ASCII upper-case letter is replaced by its lower-case
/// form. Nothing else is folded.
#[verifier::external_body]
pub(crate) fn eq_ignore_ascii_case(a: &str, b: &str) -> (r: bool)
    ensures
        r == matches_ignore_ascii_case(a@, b@),
{
    a.eq_ignore_ascii_case(b)
}

impl Token {
    /// Whether this token is an identifier that matches `name` without regard
    /// to ASCII case.
    pub open spec fn is_ident(self, name: Seq<char>) -> bool {
        match self {
            Token::Ident(s) => matches_ignore_ascii_case(s@, name),
            _ => false,
        }
    }

    /// Whether this token is an identifier that matches `name` without regard
    /// to ASCII case.
    pub fn ident_matches(&self, name: &str) -> (r: bool)
        ensures
            r == self.is_ident(name@),
    {
        match self {
            Token::Ident(s) => eq_ignore_ascii_case(s.as_str(), name),
            _ => false,
        }
    }
}

} // verus!
