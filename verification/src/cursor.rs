//! The token cursor: tokens handed out one by one by the tokenizer, with
//! checkpoint and rewind.

use crate::token::{Numeric, Token};
use cssparser::ToCss;
use cssparser::Token as Raw;
use vstd::prelude::*;

verus! {

/// `cssparser::Parser`, the tokenizer: a value that is carried, never looked
/// into.
#[verifier::external_type_specification]
#[verifier::external_body]
pub struct ExParser<'i>(cssparser::Parser<'i>);

/// The tokens that `cssparser::Parser::next` will hand out from this parser,
/// in order, until it reports the end of its input.
pub uninterp spec fn pending(input: &cssparser::Parser) -> Seq<Token>;

/// `cssparser::Parser::next`: skips whitespace and comments and hands out the
/// next token, or nothing at the end of the input, where it stays. A token
/// that opens a block or a function is handed out alone; the parser passes
/// over the block's content before the token that follows.
#[verifier::external_body]
fn next_token(input: &mut cssparser::Parser) -> (r: Option<Token>)
    ensures
        pending(old(input)).len() == 0 ==> r is None,
        pending(old(input)).len() == 0 ==> pending(final(input)) == pending(old(input)),
        pending(old(input)).len() > 0 ==> r == Some(pending(old(input))[0]),
        pending(old(input)).len() > 0 ==> pending(final(input)) == pending(old(input)).drop_first(),
{
    let raw = input.next().ok()?;
    let text = raw.to_css_string();
    Some(match raw {
        Raw::Ident(s) => Token::Ident(s.to_string()),
        Raw::QuotedString(s) => Token::QuotedString(s.to_string()),
        Raw::Comma => Token::Comma,
        Raw::Delim(c) => Token::Delim(*c),
        Raw::Number { value, .. } => Token::Number(Numeric { bits: value.to_bits(), text }),
        Raw::Percentage { unit_value, .. } =>
            Token::Percentage(Numeric { bits: unit_value.to_bits(), text }),
        Raw::Dimension { value, unit, .. } =>
            Token::Dimension(Numeric { bits: value.to_bits(), text }, unit.to_string()),
        _ => Token::Other,
    })
}

/// A token cursor. It holds the tokens read so far and, where there is one,
/// the tokenizer that supplies the rest. Reading moves the position forward;
/// a position taken with [`Cursor::mark`] can be restored with
/// [`Cursor::reset`].
pub struct Cursor<'i> {
    source: Option<cssparser::Parser<'i>>,
    buffer: Vec<Token>,
    pos: usize,
}

impl<'i> Cursor<'i> {
    /// All the tokens of the input, read or not. No operation changes them.
    pub closed spec fn tokens(&self) -> Seq<Token> {
        match self.source {
            Some(p) => self.buffer@ + pending(&p),
            None => self.buffer@,
        }
    }

    /// How many tokens have been consumed.
    pub closed spec fn position(&self) -> nat {
        self.pos as nat
    }

    /// The position is inside what has been read.
    pub closed spec fn wf(&self) -> bool {
        self.pos <= self.buffer.len()
    }

    /// A cursor over the tokens of a tokenizer.
    pub fn new(source: cssparser::Parser<'i>) -> (r: Self)
        ensures
            r.wf(),
            r.position() == 0,
            r.tokens() == pending(&source),
    {
        let r = Cursor { source: Some(source), buffer: Vec::new(), pos: 0 };
        proof {
            assert(r.buffer@ + pending(&source) =~= pending(&source));
        }
        r
    }

    /// A cursor over the given tokens.
    pub fn from_tokens(tokens: Vec<Token>) -> (r: Self)
        ensures
            r.wf(),
            r.position() == 0,
            r.tokens() == tokens@,
    {
        Cursor { source: None, buffer: tokens, pos: 0 }
    }

    /// The current position, to come back to with [`Cursor::reset`].
    pub fn mark(&self) -> (r: usize)
        ensures
            r == self.position(),
    {
        self.pos
    }

    /// Goes back to an earlier position.
    pub fn reset(&mut self, mark: usize)
        requires
            old(self).wf(),
            mark <= old(self).position(),
        ensures
            final(self).wf(),
            final(self).tokens() == old(self).tokens(),
            final(self).position() == mark,
    {
        self.pos = mark;
    }

    /// Consumes the next token and hands out a copy of it; at the end of the
    /// input nothing is consumed.
    pub fn next(&mut self) -> (r: Option<Token>)
        requires
            old(self).wf(),
        ensures
            final(self).wf(),
            final(self).tokens() == old(self).tokens(),
            match r {
                Some(t) => {
                    &&& old(self).position() < old(self).tokens().len()
                    &&& t == old(self).tokens()[old(self).position() as int]
                    &&& final(self).position() == old(self).position() + 1
                },
                None => {
                    &&& old(self).position() >= old(self).tokens().len()
                    &&& final(self).position() == old(self).position()
                },
            },
    {
        if self.pos < self.buffer.len() {
            let t = self.buffer[self.pos].clone();
            self.pos = self.pos + 1;
            return Some(t);
        }
        let fetched = match &mut self.source {
            Some(p) => next_token(p),
            None => None,
        };
        match fetched {
            Some(t) => {
                let copy = t.clone();
                self.buffer.push(t);
                self.pos = self.buffer.len();
                proof {
                    assert(final(self).tokens() =~= old(self).tokens());
                }
                Some(copy)
            },
            None => None,
        }
    }

    /// Whether no token is left. Nothing is consumed.
    pub fn is_exhausted(&mut self) -> (r: bool)
        requires
            old(self).wf(),
        ensures
            final(self).wf(),
            final(self).tokens() == old(self).tokens(),
            final(self).position() == old(self).position(),
            r == (old(self).position() >= old(self).tokens().len()),
    {
        let start = self.mark();
        let t = self.next();
        self.reset(start);
        t.is_none()
    }
}

/// Whether the identifier `name` stands at index `at` of the tokens.
pub open spec fn ident_at(tokens: Seq<Token>, at: int, name: Seq<char>) -> bool {
    0 <= at < tokens.len() && tokens[at].is_ident(name)
}

/// The tokens from index `at` to the end.
pub open spec fn tokens_from(tokens: Seq<Token>, at: int) -> Seq<Token> {
    if 0 <= at <= tokens.len() {
        tokens.subrange(at, tokens.len() as int)
    } else {
        Seq::empty()
    }
}

/// Consumes the identifier `name` where it stands at the cursor.
pub fn try_ident(input: &mut Cursor, name: &str) -> (r: bool)
    requires
        old(input).wf(),
    ensures
        final(input).wf(),
        final(input).tokens() == old(input).tokens(),
        r == ident_at(old(input).tokens(), old(input).position() as int, name@),
        final(input).position() == old(input).position() + if r {
            1nat
        } else {
            0nat
        },
{
    let start = input.mark();
    match input.next() {
        Some(t) => {
            if t.ident_matches(name) {
                true
            } else {
                input.reset(start);
                false
            }
        },
        None => false,
    }
}

} // verus!
