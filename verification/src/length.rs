//! `<length-percentage>`: a length with one of the units below, a
//! percentage, or a number without unit where that is allowed.

use crate::cursor::Cursor;
use crate::error::ParseFailure;
use crate::token::{bits_is_zero, eq_ignore_ascii_case, is_zero, matches_ignore_ascii_case};
use crate::token::{Numeric, Token};
use vstd::prelude::*;

verus! {

/// The units of length that a dimension may have.
#[derive(Clone, Copy, Debug, PartialEq, Eq, Structural, Hash)]
pub enum LengthUnit {
    Px,
    In,
    Cm,
    Mm,
    Q,
    Pt,
    Pc,
    Em,
    Rem,
    Ex,
    Ch,
    Vw,
    Vh,
    Vmin,
    Vmax,
}

/// The unit that a dimension's unit text names, without regard to ASCII
/// case.
pub open spec fn unit_of(name: Seq<char>) -> Option<LengthUnit> {
    if matches_ignore_ascii_case(name, "px"@) {
        Some(LengthUnit::Px)
    } else if matches_ignore_ascii_case(name, "in"@) {
        Some(LengthUnit::In)
    } else if matches_ignore_ascii_case(name, "cm"@) {
        Some(LengthUnit::Cm)
    } else if matches_ignore_ascii_case(name, "mm"@) {
        Some(LengthUnit::Mm)
    } else if matches_ignore_ascii_case(name, "q"@) {
        Some(LengthUnit::Q)
    } else if matches_ignore_ascii_case(name, "pt"@) {
        Some(LengthUnit::Pt)
    } else if matches_ignore_ascii_case(name, "pc"@) {
        Some(LengthUnit::Pc)
    } else if matches_ignore_ascii_case(name, "em"@) {
        Some(LengthUnit::Em)
    } else if matches_ignore_ascii_case(name, "rem"@) {
        Some(LengthUnit::Rem)
    } else if matches_ignore_ascii_case(name, "ex"@) {
        Some(LengthUnit::Ex)
    } else if matches_ignore_ascii_case(name, "ch"@) {
        Some(LengthUnit::Ch)
    } else if matches_ignore_ascii_case(name, "vw"@) {
        Some(LengthUnit::Vw)
    } else if matches_ignore_ascii_case(name, "vh"@) {
        Some(LengthUnit::Vh)
    } else if matches_ignore_ascii_case(name, "vmin"@) {
        Some(LengthUnit::Vmin)
    } else if matches_ignore_ascii_case(name, "vmax"@) {
        Some(LengthUnit::Vmax)
    } else {
        None
    }
}

impl LengthUnit {
    /// The unit that a dimension's unit text names, without regard to ASCII
    /// case.
    pub fn from_name(name: &str) -> (r: Option<LengthUnit>)
        ensures
            r == unit_of(name@),
    {
        if eq_ignore_ascii_case(name, "px") {
            Some(LengthUnit::Px)
        } else if eq_ignore_ascii_case(name, "in") {
            Some(LengthUnit::In)
        } else if eq_ignore_ascii_case(name, "cm") {
            Some(LengthUnit::Cm)
        } else if eq_ignore_ascii_case(name, "mm") {
            Some(LengthUnit::Mm)
        } else if eq_ignore_ascii_case(name, "q") {
            Some(LengthUnit::Q)
        } else if eq_ignore_ascii_case(name, "pt") {
            Some(LengthUnit::Pt)
        } else if eq_ignore_ascii_case(name, "pc") {
            Some(LengthUnit::Pc)
        } else if eq_ignore_ascii_case(name, "em") {
            Some(LengthUnit::Em)
        } else if eq_ignore_ascii_case(name, "rem") {
            Some(LengthUnit::Rem)
        } else if eq_ignore_ascii_case(name, "ex") {
            Some(LengthUnit::Ex)
        } else if eq_ignore_ascii_case(name, "ch") {
            Some(LengthUnit::Ch)
        } else if eq_ignore_ascii_case(name, "vw") {
            Some(LengthUnit::Vw)
        } else if eq_ignore_ascii_case(name, "vh") {
            Some(LengthUnit::Vh)
        } else if eq_ignore_ascii_case(name, "vmin") {
            Some(LengthUnit::Vmin)
        } else if eq_ignore_ascii_case(name, "vmax") {
            Some(LengthUnit::Vmax)
        } else {
            None
        }
    }
}

/// A length or a percentage, as it was written.
#[derive(Debug, PartialEq, Eq, Hash)]
pub enum LengthPercentage {
    /// A length: its value and its unit. A number without unit is a length in
    /// pixels.
    Length(Numeric, LengthUnit),
    /// A percentage: the value is the fraction, `0.5` for `50%`.
    Percentage(Numeric),
}

impl Clone for LengthPercentage {
    fn clone(&self) -> (r: Self)
        ensures
            r == *self,
    {
        match self {
            LengthPercentage::Length(n, u) => LengthPercentage::Length(n.clone(), *u),
            LengthPercentage::Percentage(n) => LengthPercentage::Percentage(n.clone()),
        }
    }
}

/// The length-percentage that a token is. A dimension needs a unit of
/// length. A number without unit is taken where it is zero, or where
/// `quirks` tolerates unitless lengths.
pub open spec fn length_percentage_of(t: Token, quirks: bool) -> Option<LengthPercentage> {
    match t {
        Token::Dimension(n, unit) => match unit_of(unit@) {
            Some(u) => Some(LengthPercentage::Length(n, u)),
            None => None,
        },
        Token::Percentage(n) => Some(LengthPercentage::Percentage(n)),
        Token::Number(n) => if bits_is_zero(n.bits) || quirks {
            Some(LengthPercentage::Length(n, LengthUnit::Px))
        } else {
            None
        },
        _ => None,
    }
}

/// The length-percentage at index `at` of the tokens, if one stands there.
pub open spec fn length_percentage_at(tokens: Seq<Token>, at: int, quirks: bool) -> Option<
    LengthPercentage,
> {
    if 0 <= at < tokens.len() {
        length_percentage_of(tokens[at], quirks)
    } else {
        None
    }
}

impl LengthPercentage {
    /// The text that the value was written as.
    pub open spec fn text(self) -> Seq<char> {
        match self {
            LengthPercentage::Length(n, _) => n.text@,
            LengthPercentage::Percentage(n) => n.text@,
        }
    }

    /// Whether this is the percentage one half, compared as numbers are.
    pub open spec fn is_half(self) -> bool {
        match self {
            LengthPercentage::Percentage(n) => n.bits == crate::token::BITS_HALF,
            _ => false,
        }
    }

    /// The length-percentage that a token is, if it is one.
    pub fn from_token(t: &Token, quirks: bool) -> (r: Option<LengthPercentage>)
        ensures
            r == length_percentage_of(*t, quirks),
    {
        match t {
            Token::Dimension(n, unit) => match LengthUnit::from_name(unit.as_str()) {
                Some(u) => Some(LengthPercentage::Length(n.clone(), u)),
                None => None,
            },
            Token::Percentage(n) => Some(LengthPercentage::Percentage(n.clone())),
            Token::Number(n) => if is_zero(n.bits) || quirks {
                Some(LengthPercentage::Length(n.clone(), LengthUnit::Px))
            } else {
                None
            },
            _ => None,
        }
    }

    /// Reads one length-percentage. Where none stands at the cursor, nothing
    /// is consumed.
    pub fn parse_quirky(input: &mut Cursor, quirks: bool) -> (r: Result<
        LengthPercentage,
        ParseFailure,
    >)
        requires
            old(input).wf(),
        ensures
            final(input).wf(),
            final(input).tokens() == old(input).tokens(),
            match length_percentage_at(old(input).tokens(), old(input).position() as int, quirks) {
                Some(lp) => {
                    &&& r == Ok::<LengthPercentage, ParseFailure>(lp)
                    &&& final(input).position() == old(input).position() + 1
                },
                None => {
                    &&& r == Err::<LengthPercentage, ParseFailure>(ParseFailure::Grammar)
                    &&& final(input).position() == old(input).position()
                },
            },
    {
        let start = input.mark();
        match input.next() {
            Some(t) => match LengthPercentage::from_token(&t, quirks) {
                Some(lp) => Ok(lp),
                None => {
                    input.reset(start);
                    Err(ParseFailure::Grammar)
                },
            },
            None => Err(ParseFailure::Grammar),
        }
    }

    /// The canonical text of the value.
    pub fn to_css(&self) -> (r: String)
        ensures
            r@ == self.text(),
    {
        match self {
            LengthPercentage::Length(n, _) => n.text.clone(),
            LengthPercentage::Percentage(n) => n.text.clone(),
        }
    }

    /// Whether this is the percentage one half: its value compares equal to
    /// `0.5`, nothing near it.
    pub fn is_half_percentage(&self) -> (r: bool)
        ensures
            r == self.is_half(),
    {
        match self {
            LengthPercentage::Percentage(n) => n.bits == crate::token::BITS_HALF,
            _ => false,
        }
    }
}

/// Consumes a length-percentage where one stands at the cursor.
pub fn try_length_percentage(input: &mut Cursor, quirks: bool) -> (r: Option<LengthPercentage>)
    requires
        old(input).wf(),
    ensures
        final(input).wf(),
        final(input).tokens() == old(input).tokens(),
        r == length_percentage_at(old(input).tokens(), old(input).position() as int, quirks),
        final(input).position() == old(input).position() + if r is Some {
            1nat
        } else {
            0nat
        },
{
    match LengthPercentage::parse_quirky(input, quirks) {
        Ok(lp) => Some(lp),
        Err(_) => None,
    }
}

} // verus!
