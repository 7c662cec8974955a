//! `aspect-ratio`: `auto`, a ratio, or both in either order.

use crate::cursor::{ident_at, try_ident, Cursor};
use crate::error::ParseFailure;
use crate::token::{bits_is_non_negative, is_non_negative, Numeric, Token};
use vstd::prelude::*;

verus! {

/// A ratio of two numbers that are not negative.
#[derive(Debug, PartialEq, Eq, Hash)]
pub struct Ratio {
    /// The width.
    pub width: Numeric,
    /// The height; `None` where the ratio was written as one number, which
    /// stands for that number to one.
    pub height: Option<Numeric>,
}

/// A value of the `aspect-ratio` property. At least one of `auto` and the
/// ratio is there.
#[derive(Debug, PartialEq, Eq, Hash)]
pub struct AspectRatio {
    /// Whether `auto` was written.
    pub auto: bool,
    /// The preferred ratio, if one was written.
    pub ratio: Option<Ratio>,
}

/// The number at index `at` of the tokens, where a number without unit
/// stands there whose value compares greater than or equal to zero.
pub open spec fn non_negative_number_at(tokens: Seq<Token>, at: int) -> Option<Numeric> {
    if 0 <= at < tokens.len() {
        match tokens[at] {
            Token::Number(n) => if bits_is_non_negative(n.bits) {
                Some(n)
            } else {
                None
            },
            _ => None,
        }
    } else {
        None
    }
}

/// Whether the single code point `c` stands at index `at` of the tokens.
pub open spec fn delim_at(tokens: Seq<Token>, at: int, c: char) -> bool {
    0 <= at < tokens.len() && tokens[at] == Token::Delim(c)
}

/// The ratio that starts at index `at`, and the index after it: a number,
/// or two numbers with `/` between them. A `/` without a number after it is
/// no ratio.
pub open spec fn ratio_at(tokens: Seq<Token>, at: int) -> Option<(Ratio, int)> {
    match non_negative_number_at(tokens, at) {
        None => None,
        Some(width) => if delim_at(tokens, at + 1, '/') {
            match non_negative_number_at(tokens, at + 2) {
                Some(height) => Some((Ratio { width, height: Some(height) }, at + 3)),
                None => None,
            }
        } else {
            Some((Ratio { width, height: None }, at + 1))
        },
    }
}

/// The `aspect-ratio` value that starts at index `at`, and the index after
/// it: `auto`, a ratio, `auto` and a ratio, or a ratio and `auto`. Where
/// neither stands there the value is refused as `Unspecified`.
pub open spec fn aspect_ratio_at(tokens: Seq<Token>, at: int) -> Option<(AspectRatio, int)> {
    let auto_first = ident_at(tokens, at, "auto"@);
    let after_auto = if auto_first {
        at + 1
    } else {
        at
    };
    let ratio = ratio_at(tokens, after_auto);
    let after_ratio = match ratio {
        Some((_, next)) => next,
        None => after_auto,
    };
    let auto_last = !auto_first && ident_at(tokens, after_ratio, "auto"@);
    if !auto_first && !auto_last && ratio is None {
        None
    } else {
        Some(
            (
                AspectRatio {
                    auto: auto_first || auto_last,
                    ratio: match ratio {
                        Some((r, _)) => Some(r),
                        None => None,
                    },
                },
                if auto_last {
                    after_ratio + 1
                } else {
                    after_ratio
                },
            ),
        )
    }
}

/// Consumes a number that is not negative where one stands at the cursor.
pub fn try_non_negative_number(input: &mut Cursor) -> (r: Option<Numeric>)
    requires
        old(input).wf(),
    ensures
        final(input).wf(),
        final(input).tokens() == old(input).tokens(),
        r == non_negative_number_at(old(input).tokens(), old(input).position() as int),
        final(input).position() == old(input).position() + if r is Some {
            1nat
        } else {
            0nat
        },
{
    let start = input.mark();
    match input.next() {
        Some(Token::Number(n)) => {
            if is_non_negative(n.bits) {
                Some(n)
            } else {
                input.reset(start);
                None
            }
        },
        Some(_) => {
            input.reset(start);
            None
        },
        None => None,
    }
}

/// Consumes the single code point `c` where it stands at the cursor.
pub fn try_delim(input: &mut Cursor, c: char) -> (r: bool)
    requires
        old(input).wf(),
    ensures
        final(input).wf(),
        final(input).tokens() == old(input).tokens(),
        r == delim_at(old(input).tokens(), old(input).position() as int, c),
        final(input).position() == old(input).position() + if r {
            1nat
        } else {
            0nat
        },
{
    let start = input.mark();
    match input.next() {
        Some(Token::Delim(d)) => {
            if d == c {
                true
            } else {
                input.reset(start);
                false
            }
        },
        Some(_) => {
            input.reset(start);
            false
        },
        None => false,
    }
}

impl Ratio {
    /// The canonical text of the ratio: width, ` / `, height; the height is
    /// `1` where none was written.
    pub open spec fn text(self) -> Seq<char> {
        self.width.text@ + " / "@ + match self.height {
            Some(height) => height.text@,
            None => "1"@,
        }
    }

    /// Parses a ratio. Where none stands at the cursor, nothing is consumed.
    pub fn parse(input: &mut Cursor) -> (r: Result<Ratio, ParseFailure>)
        requires
            old(input).wf(),
        ensures
            final(input).wf(),
            final(input).tokens() == old(input).tokens(),
            match ratio_at(old(input).tokens(), old(input).position() as int) {
                Some((ratio, next)) => {
                    &&& r == Ok::<Ratio, ParseFailure>(ratio)
                    &&& final(input).position() == next
                },
                None => {
                    &&& r == Err::<Ratio, ParseFailure>(ParseFailure::Grammar)
                    &&& final(input).position() == old(input).position()
                },
            },
    {
        let start = input.mark();
        let width = match try_non_negative_number(input) {
            Some(width) => width,
            None => {
                return Err(ParseFailure::Grammar);
            },
        };
        if !try_delim(input, '/') {
            return Ok(Ratio { width, height: None });
        }
        match try_non_negative_number(input) {
            Some(height) => Ok(Ratio { width, height: Some(height) }),
            None => {
                input.reset(start);
                Err(ParseFailure::Grammar)
            },
        }
    }

    /// Writes the ratio in its canonical form.
    pub fn to_css(&self) -> (r: String)
        ensures
            r@ == self.text(),
    {
        let mut dest = String::new();
        dest.append(self.width.text.as_str());
        dest.append(" / ");
        match &self.height {
            Some(height) => {
                dest.append(height.text.as_str());
            },
            None => {
                dest.append("1");
            },
        }
        dest
    }
}

impl AspectRatio {
    /// Whether the value has `auto`, a ratio, or both.
    pub open spec fn valid(self) -> bool {
        self.auto || self.ratio is Some
    }

    /// The canonical text of the value: `auto`, the ratio, or `auto` and the
    /// ratio with one space between them.
    pub open spec fn text(self) -> Seq<char> {
        match self.ratio {
            Some(ratio) => if self.auto {
                "auto"@ + " "@ + ratio.text()
            } else {
                ratio.text()
            },
            None => if self.auto {
                "auto"@
            } else {
                ""@
            },
        }
    }

    /// Parses an `aspect-ratio` value. A failure consumes nothing.
    pub fn parse(input: &mut Cursor) -> (r: Result<AspectRatio, ParseFailure>)
        requires
            old(input).wf(),
        ensures
            final(input).wf(),
            final(input).tokens() == old(input).tokens(),
            match aspect_ratio_at(old(input).tokens(), old(input).position() as int) {
                Some((value, next)) => {
                    &&& r == Ok::<AspectRatio, ParseFailure>(value)
                    &&& value.valid()
                    &&& final(input).position() == next
                },
                None => {
                    &&& r == Err::<AspectRatio, ParseFailure>(ParseFailure::Unspecified)
                    &&& final(input).position() == old(input).position()
                },
            },
    {
        let mut auto = try_ident(input, "auto");
        let ratio = Ratio::parse(input);
        if !auto {
            auto = try_ident(input, "auto");
        }
        if !auto && ratio.is_err() {
            return Err(ParseFailure::Unspecified);
        }
        Ok(
            AspectRatio {
                auto,
                ratio: match ratio {
                    Ok(ratio) => Some(ratio),
                    Err(_) => None,
                },
            },
        )
    }

    /// Writes the value in its canonical form.
    pub fn to_css(&self) -> (r: String)
        ensures
            r@ == self.text(),
    {
        let mut dest = String::new();
        if self.auto {
            dest.append("auto");
        }
        match &self.ratio {
            Some(ratio) => {
                if self.auto {
                    dest.append(" ");
                }
                dest.append(ratio.to_css().as_str());
            },
            None => {},
        }
        proof {
            reveal_strlit("");
            assert(dest@ =~= self.text());
        }
        dest
    }
}


impl Ratio {
    /// Whether the tokens from index `at` on are this ratio as `to_css`
    /// writes it: the width, `/`, and the height, neither of them negative.
    pub open spec fn written_at(self, tokens: Seq<Token>, at: int) -> bool {
        &&& self.height is Some
        &&& non_negative_number_at(tokens, at) == Some(self.width)
        &&& delim_at(tokens, at + 1, '/')
        &&& non_negative_number_at(tokens, at + 2) == self.height
    }
}

impl AspectRatio {
    /// Whether the tokens are this value as `to_css` writes it: `auto`, the
    /// ratio, or `auto` and then the ratio, and nothing after it.
    pub open spec fn written_as(self, tokens: Seq<Token>) -> bool {
        match self.ratio {
            Some(ratio) => if self.auto {
                tokens.len() == 4 && ident_at(tokens, 0, "auto"@) && ratio.written_at(tokens, 1)
            } else {
                tokens.len() == 3 && ratio.written_at(tokens, 0)
            },
            None => self.auto && tokens.len() == 1 && ident_at(tokens, 0, "auto"@),
        }
    }
}

/// Parsing undoes serialization: an `aspect-ratio` value whose ratio has a
/// height, written out, parses back to itself and leaves no token over.
pub proof fn lemma_aspect_ratio_reads_back(value: AspectRatio, tokens: Seq<Token>)
    requires
        value.written_as(tokens),
    ensures
        aspect_ratio_at(tokens, 0) == Some((value, tokens.len() as int)),
{
}

} // verus!
