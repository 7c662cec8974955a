//! `grid-auto-flow` and `masonry-auto-flow`: sets of keywords in any order,
//! at most one of each group.

use crate::cursor::{tokens_from, Cursor};
use crate::error::ParseFailure;
use crate::token::{matches_ignore_ascii_case, Token};
use vstd::prelude::*;

verus! {

/// Controls how the auto-placement algorithm works, specifying exactly how
/// auto-placed items get flowed into the grid: a set of the flags `ROW`,
/// `COLUMN` and `DENSE`.
#[derive(Clone, Copy, Debug, PartialEq, Eq, Structural, Hash)]
pub struct GridAutoFlow {
    bits: u8,
}

/// The bit of `row`, mutually exclusive with `column`.
pub const ROW: u8 = 1;

/// The bit of `column`, mutually exclusive with `row`.
pub const COLUMN: u8 = 2;

/// The bit of `dense`.
pub const DENSE: u8 = 4;

impl GridAutoFlow {
    /// The flags as bits.
    pub closed spec fn flags(self) -> u8 {
        self.bits
    }

    /// `row`
    pub fn row() -> (r: Self)
        ensures
            r.flags() == ROW,
    {
        GridAutoFlow { bits: ROW }
    }

    /// `column`
    pub fn column() -> (r: Self)
        ensures
            r.flags() == COLUMN,
    {
        GridAutoFlow { bits: COLUMN }
    }

    /// `dense`
    pub fn dense() -> (r: Self)
        ensures
            r.flags() == DENSE,
    {
        GridAutoFlow { bits: DENSE }
    }

    /// The set with the given bits; bits that are no flag are dropped.
    pub fn from_bits_truncate(bits: u8) -> (r: Self)
        ensures
            r.flags() == bits & 7,
    {
        GridAutoFlow { bits: bits & 7 }
    }

    /// Whether the value is one that the grammar gives: exactly one of `ROW`
    /// and `COLUMN`, with or without `DENSE`, and no other bit.
    pub open spec fn valid(self) -> bool {
        self.flags() == 1 || self.flags() == 2 || self.flags() == 5 || self.flags() == 6
    }

    /// The set without a flag.
    pub fn empty() -> (r: Self)
        ensures
            r.flags() == 0,
    {
        GridAutoFlow { bits: 0 }
    }

    /// Whether no flag is set.
    pub fn is_empty(&self) -> (r: bool)
        ensures
            r == (self.flags() == 0),
    {
        self.bits == 0
    }

    /// The flags as bits.
    pub fn bits(&self) -> (r: u8)
        ensures
            r == self.flags(),
    {
        self.bits
    }

    /// The flags of both sets.
    pub fn union(self, other: Self) -> (r: Self)
        ensures
            r.flags() == self.flags() | other.flags(),
    {
        GridAutoFlow { bits: self.bits | other.bits }
    }

    /// Whether every flag of `other` is set in this set.
    pub fn contains(&self, other: Self) -> (r: bool)
        ensures
            r == (self.flags() & other.flags() == other.flags()),
    {
        self.bits & other.bits == other.bits
    }
}

/// A keyword of `grid-auto-flow`.
#[derive(Clone, Copy, Debug, PartialEq, Eq, Structural)]
pub enum FlowWord {
    Row,
    Column,
    Dense,
}

/// The keyword of `grid-auto-flow` that a token is, if it is one.
pub open spec fn flow_word(t: Token) -> Option<FlowWord> {
    if t.is_ident("row"@) {
        Some(FlowWord::Row)
    } else if t.is_ident("column"@) {
        Some(FlowWord::Column)
    } else if t.is_ident("dense"@) {
        Some(FlowWord::Dense)
    } else {
        None
    }
}

/// The keyword of `grid-auto-flow` that a token is, if it is one.
pub fn classify_flow_word(t: &Token) -> (r: Option<FlowWord>)
    ensures
        r == flow_word(*t),
{
    if t.ident_matches("row") {
        Some(FlowWord::Row)
    } else if t.ident_matches("column") {
        Some(FlowWord::Column)
    } else if t.ident_matches("dense") {
        Some(FlowWord::Dense)
    } else {
        None
    }
}

/// The value of `[ row | column ] || dense` that the tokens are, all of
/// them: one keyword, or `dense` with `row` or `column` in either order.
/// Without a track keyword the track is `row`. No token at all is
/// `Unspecified`; anything else, a keyword that comes twice or `row` with
/// `column` among it, is a grammar failure.
pub open spec fn grid_auto_flow_of(s: Seq<Token>) -> Result<u8, ParseFailure> {
    if s.len() == 0 {
        Err(ParseFailure::Unspecified)
    } else if s.len() == 1 {
        match flow_word(s[0]) {
            Some(FlowWord::Row) => Ok(1u8),
            Some(FlowWord::Column) => Ok(2u8),
            Some(FlowWord::Dense) => Ok(5u8),
            None => Err(ParseFailure::Grammar),
        }
    } else if s.len() == 2 {
        match (flow_word(s[0]), flow_word(s[1])) {
            (Some(FlowWord::Row), Some(FlowWord::Dense)) => Ok(5u8),
            (Some(FlowWord::Dense), Some(FlowWord::Row)) => Ok(5u8),
            (Some(FlowWord::Column), Some(FlowWord::Dense)) => Ok(6u8),
            (Some(FlowWord::Dense), Some(FlowWord::Column)) => Ok(6u8),
            _ => Err(ParseFailure::Grammar),
        }
    } else {
        Err(ParseFailure::Grammar)
    }
}

impl GridAutoFlow {
    /// The canonical text of the value; a value that the grammar does not
    /// give has none.
    pub open spec fn text(self) -> Seq<char> {
        if self.flags() == 1 {
            "row"@
        } else if self.flags() == 2 {
            "column"@
        } else if self.flags() == 5 {
            "dense"@
        } else if self.flags() == 6 {
            "column dense"@
        } else {
            ""@
        }
    }

    /// Parses `[ row | column ] || dense` from the cursor to the end of the
    /// input. A failure consumes nothing.
    pub fn parse(input: &mut Cursor) -> (r: Result<GridAutoFlow, ParseFailure>)
        requires
            old(input).wf(),
        ensures
            final(input).wf(),
            final(input).tokens() == old(input).tokens(),
            match grid_auto_flow_of(
                tokens_from(old(input).tokens(), old(input).position() as int),
            ) {
                Ok(bits) => {
                    &&& r is Ok
                    &&& r->Ok_0.flags() == bits
                    &&& r->Ok_0.valid()
                    &&& final(input).position() == old(input).tokens().len()
                },
                Err(failure) => {
                    &&& r == Err::<GridAutoFlow, ParseFailure>(failure)
                    &&& final(input).position() == old(input).position()
                },
            },
    {
        let start = input.mark();
        let ghost s = tokens_from(input.tokens(), start as int);
        let mut track: Option<GridAutoFlow> = None;
        let mut dense = GridAutoFlow::empty();
        let mut count: usize = 0;
        loop
            invariant
                input.wf(),
                input.tokens() == old(input).tokens(),
                start == old(input).position(),
                s == tokens_from(input.tokens(), start as int),
                input.position() == start + count,
                count <= s.len(),
                count <= 2,
                start + count <= input.tokens().len() || count == 0,
                dense.flags() == 0 || dense.flags() == 4,
                track is Some ==> track->0.flags() == 1 || track->0.flags() == 2,
                count == (if track is Some {
                    1nat
                } else {
                    0nat
                }) + (if dense.flags() == 4 {
                    1nat
                } else {
                    0nat
                }),
                count == 1 ==> match flow_word(s[0]) {
                    Some(FlowWord::Row) => track is Some && track->0.flags() == 1,
                    Some(FlowWord::Column) => track is Some && track->0.flags() == 2,
                    Some(FlowWord::Dense) => dense.flags() == 4,
                    None => false,
                },
                count == 2 ==> track is Some && match (flow_word(s[0]), flow_word(s[1])) {
                    (Some(FlowWord::Row), Some(FlowWord::Dense)) => track->0.flags() == 1,
                    (Some(FlowWord::Dense), Some(FlowWord::Row)) => track->0.flags() == 1,
                    (Some(FlowWord::Column), Some(FlowWord::Dense)) => track->0.flags() == 2,
                    (Some(FlowWord::Dense), Some(FlowWord::Column)) => track->0.flags() == 2,
                    _ => false,
                },
            ensures
                input.position() >= input.tokens().len(),
            decreases 3 - count,
        {
            let t = match input.next() {
                Some(t) => t,
                None => {
                    break ;
                },
            };
            assert(t == s[count as int]);
            let success = match classify_flow_word(&t) {
                Some(FlowWord::Row) if track.is_none() => {
                    track = Some(GridAutoFlow::row());
                    true
                },
                Some(FlowWord::Column) if track.is_none() => {
                    track = Some(GridAutoFlow::column());
                    true
                },
                Some(FlowWord::Dense) if dense.is_empty() => {
                    dense = GridAutoFlow::dense();
                    true
                },
                _ => false,
            };
            if !success {
                input.reset(start);
                return Err(ParseFailure::Grammar);
            }
            count = count + 1;
        }
        if track.is_some() || !dense.is_empty() {
            let track = match track {
                Some(track) => track,
                None => GridAutoFlow::row(),
            };
            assert(1u8 | 0u8 == 1u8 && 2u8 | 0u8 == 2u8 && 1u8 | 4u8 == 5u8 && 2u8 | 4u8 == 6u8)
                by (bit_vector);
            Ok(track.union(dense))
        } else {
            Err(ParseFailure::Unspecified)
        }
    }

    /// Writes the value in its canonical form: `row`, `column`, `dense` or
    /// `column dense`. A value that the grammar does not give is written as
    /// nothing.
    pub fn to_css(&self) -> (r: String)
        ensures
            r@ == self.text(),
    {
        if self.bits == 1 {
            return "row".to_owned();
        }
        if self.bits == 2 {
            return "column".to_owned();
        }
        if self.bits == 5 {
            return "dense".to_owned();
        }
        if self.bits == 6 {
            return "column dense".to_owned();
        }
        "".to_owned()
    }
}


/// Masonry auto-placement algorithm packing.
#[derive(Clone, Copy, Debug, PartialEq, Eq, Structural, Hash)]
pub enum MasonryPlacement {
    /// Place the item in the track(s) with the smallest extent so far.
    Pack,
    /// Place the item after the last item, from start to end.
    Next,
}

/// Masonry auto-placement algorithm item sorting option.
#[derive(Clone, Copy, Debug, PartialEq, Eq, Structural, Hash)]
pub enum MasonryItemOrder {
    /// Place all items with a definite placement before auto-placed items.
    DefiniteFirst,
    /// Place items in `order-modified document order`.
    Ordered,
}

/// Controls how the Masonry layout algorithm works, specifying exactly how
/// auto-placed items get flowed in the masonry axis.
#[derive(Clone, Copy, Debug, PartialEq, Eq, Structural, Hash)]
pub struct MasonryAutoFlow {
    /// Specify how to pick a auto-placement track.
    pub placement: MasonryPlacement,
    /// Specify how to pick an item to place.
    pub order: MasonryItemOrder,
}

/// Whether the placement is left out when the value is written: it is
/// `pack` and the order, which is not the default, is written.
#[inline]
pub fn is_pack_with_non_default_order(placement: &MasonryPlacement, order: &MasonryItemOrder) -> (r:
    bool)
    ensures
        r == (*placement == MasonryPlacement::Pack && *order != MasonryItemOrder::DefiniteFirst),
{
    *placement == MasonryPlacement::Pack && *order != MasonryItemOrder::DefiniteFirst
}

/// Whether the order is left out when the value is written: it is the
/// default, `definite-first`.
#[inline]
pub fn is_item_order_definite_first(order: &MasonryItemOrder) -> (r: bool)
    ensures
        r == (*order == MasonryItemOrder::DefiniteFirst),
{
    *order == MasonryItemOrder::DefiniteFirst
}

/// A keyword of `masonry-auto-flow`.
#[derive(Clone, Copy, Debug, PartialEq, Eq, Structural)]
pub enum MasonryWord {
    Placement(MasonryPlacement),
    Order(MasonryItemOrder),
}

/// The keyword of `masonry-auto-flow` that a token is, if it is one.
pub open spec fn masonry_word(t: Token) -> Option<MasonryWord> {
    if t.is_ident("pack"@) {
        Some(MasonryWord::Placement(MasonryPlacement::Pack))
    } else if t.is_ident("next"@) {
        Some(MasonryWord::Placement(MasonryPlacement::Next))
    } else if t.is_ident("definite-first"@) {
        Some(MasonryWord::Order(MasonryItemOrder::DefiniteFirst))
    } else if t.is_ident("ordered"@) {
        Some(MasonryWord::Order(MasonryItemOrder::Ordered))
    } else {
        None
    }
}

/// The keyword of `masonry-auto-flow` that a token is, if it is one.
pub fn classify_masonry_word(t: &Token) -> (r: Option<MasonryWord>)
    ensures
        r == masonry_word(*t),
{
    if t.ident_matches("pack") {
        Some(MasonryWord::Placement(MasonryPlacement::Pack))
    } else if t.ident_matches("next") {
        Some(MasonryWord::Placement(MasonryPlacement::Next))
    } else if t.ident_matches("definite-first") {
        Some(MasonryWord::Order(MasonryItemOrder::DefiniteFirst))
    } else if t.ident_matches("ordered") {
        Some(MasonryWord::Order(MasonryItemOrder::Ordered))
    } else {
        None
    }
}

/// The value of `[ definite-first | ordered ] || [ pack | next ]` that the
/// tokens are, all of them: one keyword, or one of each group in either
/// order. A group without keyword has its initial value. No token at all is
/// `Unspecified`; anything else is a grammar failure.
pub open spec fn masonry_auto_flow_of(s: Seq<Token>) -> Result<MasonryAutoFlow, ParseFailure> {
    if s.len() == 0 {
        Err(ParseFailure::Unspecified)
    } else if s.len() == 1 {
        match masonry_word(s[0]) {
            Some(MasonryWord::Placement(placement)) => Ok(
                MasonryAutoFlow { placement, order: MasonryItemOrder::DefiniteFirst },
            ),
            Some(MasonryWord::Order(order)) => Ok(
                MasonryAutoFlow { placement: MasonryPlacement::Pack, order },
            ),
            None => Err(ParseFailure::Grammar),
        }
    } else if s.len() == 2 {
        match (masonry_word(s[0]), masonry_word(s[1])) {
            (Some(MasonryWord::Placement(placement)), Some(MasonryWord::Order(order))) => Ok(
                MasonryAutoFlow { placement, order },
            ),
            (Some(MasonryWord::Order(order)), Some(MasonryWord::Placement(placement))) => Ok(
                MasonryAutoFlow { placement, order },
            ),
            _ => Err(ParseFailure::Grammar),
        }
    } else {
        Err(ParseFailure::Grammar)
    }
}

impl MasonryAutoFlow {
    /// The canonical text of the value: the placement, left out where it is
    /// `pack` and the order is written, then the order, left out where it is
    /// `definite-first`.
    pub open spec fn text(self) -> Seq<char> {
        match (self.placement, self.order) {
            (MasonryPlacement::Pack, MasonryItemOrder::DefiniteFirst) => "pack"@,
            (MasonryPlacement::Next, MasonryItemOrder::DefiniteFirst) => "next"@,
            (MasonryPlacement::Pack, MasonryItemOrder::Ordered) => "ordered"@,
            (MasonryPlacement::Next, MasonryItemOrder::Ordered) => "next"@ + " "@ + "ordered"@,
        }
    }

    /// Get initial `masonry-auto-flow` value.
    #[inline]
    pub fn initial() -> (r: MasonryAutoFlow)
        ensures
            r == (MasonryAutoFlow {
                placement: MasonryPlacement::Pack,
                order: MasonryItemOrder::DefiniteFirst,
            }),
    {
        MasonryAutoFlow {
            placement: MasonryPlacement::Pack,
            order: MasonryItemOrder::DefiniteFirst,
        }
    }

    /// Parses `[ definite-first | ordered ] || [ pack | next ]` from the
    /// cursor to the end of the input. A failure consumes nothing.
    pub fn parse(input: &mut Cursor) -> (r: Result<MasonryAutoFlow, ParseFailure>)
        requires
            old(input).wf(),
        ensures
            final(input).wf(),
            final(input).tokens() == old(input).tokens(),
            r == masonry_auto_flow_of(
                tokens_from(old(input).tokens(), old(input).position() as int),
            ),
            r is Ok ==> final(input).position() == old(input).tokens().len(),
            r is Err ==> final(input).position() == old(input).position(),
    {
        let start = input.mark();
        let ghost s = tokens_from(input.tokens(), start as int);
        let mut value = MasonryAutoFlow::initial();
        let mut got_placement = false;
        let mut got_order = false;
        let mut count: usize = 0;
        loop
            invariant
                input.wf(),
                input.tokens() == old(input).tokens(),
                start == old(input).position(),
                s == tokens_from(input.tokens(), start as int),
                input.position() == start + count,
                count <= s.len(),
                count <= 2,
                start + count <= input.tokens().len() || count == 0,
                count == (if got_placement {
                    1nat
                } else {
                    0nat
                }) + (if got_order {
                    1nat
                } else {
                    0nat
                }),
                !got_placement ==> value.placement == MasonryPlacement::Pack,
                !got_order ==> value.order == MasonryItemOrder::DefiniteFirst,
                count == 1 ==> match masonry_word(s[0]) {
                    Some(MasonryWord::Placement(placement)) => got_placement && value.placement
                        == placement,
                    Some(MasonryWord::Order(order)) => got_order && value.order == order,
                    None => false,
                },
                count == 2 ==> match (masonry_word(s[0]), masonry_word(s[1])) {
                    (
                        Some(MasonryWord::Placement(placement)),
                        Some(MasonryWord::Order(order)),
                    ) => value == (MasonryAutoFlow { placement, order }),
                    (
                        Some(MasonryWord::Order(order)),
                        Some(MasonryWord::Placement(placement)),
                    ) => value == (MasonryAutoFlow { placement, order }),
                    _ => false,
                },
            ensures
                input.position() >= input.tokens().len(),
            decreases 3 - count,
        {
            let t = match input.next() {
                Some(t) => t,
                None => {
                    break ;
                },
            };
            assert(t == s[count as int]);
            let success = match classify_masonry_word(&t) {
                Some(MasonryWord::Placement(placement)) if !got_placement => {
                    value.placement = placement;
                    got_placement = true;
                    true
                },
                Some(MasonryWord::Order(order)) if !got_order => {
                    value.order = order;
                    got_order = true;
                    true
                },
                _ => false,
            };
            if !success {
                input.reset(start);
                return Err(ParseFailure::Grammar);
            }
            count = count + 1;
        }
        if got_placement || got_order {
            Ok(value)
        } else {
            Err(ParseFailure::Unspecified)
        }
    }

    /// Writes the value in its canonical form.
    pub fn to_css(&self) -> (r: String)
        ensures
            r@ == self.text(),
    {
        let mut dest = String::new();
        let mut wrote = false;
        if !is_pack_with_non_default_order(&self.placement, &self.order) {
            match self.placement {
                MasonryPlacement::Pack => {
                    dest.append("pack");
                },
                MasonryPlacement::Next => {
                    dest.append("next");
                },
            }
            wrote = true;
        }
        if !is_item_order_definite_first(&self.order) {
            if wrote {
                dest.append(" ");
            }
            dest.append("ordered");
        }
        dest
    }
}


impl GridAutoFlow {
    /// Whether the tokens are this value as `to_css` writes it: `row`,
    /// `column`, `dense`, or `column` and `dense`. A value that the grammar
    /// does not give is written as no tokens at all.
    pub open spec fn written_as(self, s: Seq<Token>) -> bool {
        if self.flags() == 1 {
            s.len() == 1 && s[0].is_ident("row"@)
        } else if self.flags() == 2 {
            s.len() == 1 && s[0].is_ident("column"@)
        } else if self.flags() == 5 {
            s.len() == 1 && s[0].is_ident("dense"@)
        } else if self.flags() == 6 {
            s.len() == 2 && s[0].is_ident("column"@) && s[1].is_ident("dense"@)
        } else {
            false
        }
    }
}

impl MasonryAutoFlow {
    /// Whether the tokens are this value as `to_css` writes it.
    pub open spec fn written_as(self, s: Seq<Token>) -> bool {
        match (self.placement, self.order) {
            (MasonryPlacement::Pack, MasonryItemOrder::DefiniteFirst) => s.len() == 1
                && s[0].is_ident("pack"@),
            (MasonryPlacement::Next, MasonryItemOrder::DefiniteFirst) => s.len() == 1
                && s[0].is_ident("next"@),
            (MasonryPlacement::Pack, MasonryItemOrder::Ordered) => s.len() == 1 && s[0].is_ident(
                "ordered"@,
            ),
            (MasonryPlacement::Next, MasonryItemOrder::Ordered) => s.len() == 2 && s[0].is_ident(
                "next"@,
            ) && s[1].is_ident("ordered"@),
        }
    }
}

/// No text matches two of the keywords of the two grammars of this module.
pub proof fn lemma_flow_keywords_differ(s: Seq<char>)
    ensures
        matches_ignore_ascii_case(s, "row"@) ==> !matches_ignore_ascii_case(s, "column"@)
            && !matches_ignore_ascii_case(s, "dense"@),
        matches_ignore_ascii_case(s, "column"@) ==> !matches_ignore_ascii_case(s, "dense"@),
        matches_ignore_ascii_case(s, "pack"@) ==> !matches_ignore_ascii_case(s, "next"@)
            && !matches_ignore_ascii_case(s, "definite-first"@) && !matches_ignore_ascii_case(
            s,
            "ordered"@,
        ),
        matches_ignore_ascii_case(s, "next"@) ==> !matches_ignore_ascii_case(
            s,
            "definite-first"@,
        ) && !matches_ignore_ascii_case(s, "ordered"@),
        matches_ignore_ascii_case(s, "definite-first"@) ==> !matches_ignore_ascii_case(
            s,
            "ordered"@,
        ),
{
    reveal_strlit("row");
    reveal_strlit("column");
    reveal_strlit("dense");
    reveal_strlit("pack");
    reveal_strlit("next");
    reveal_strlit("definite-first");
    reveal_strlit("ordered");
    if matches_ignore_ascii_case(s, "pack"@) && matches_ignore_ascii_case(s, "next"@) {
        let first = s[0];
        assert("pack"@[0] == 'p');
        assert("next"@[0] == 'n');
    }
}

/// Parsing undoes serialization: a `grid-auto-flow` value that the grammar
/// gives, written out, parses back to itself.
pub proof fn lemma_grid_auto_flow_reads_back(value: GridAutoFlow, s: Seq<Token>)
    requires
        value.written_as(s),
    ensures
        value.valid(),
        grid_auto_flow_of(s) == Ok::<u8, ParseFailure>(value.flags()),
{
    assert forall|i: int| 0 <= i < s.len() implies {
        &&& s[i].is_ident("row"@) ==> flow_word(s[i]) == Some(FlowWord::Row)
        &&& s[i].is_ident("column"@) ==> flow_word(s[i]) == Some(FlowWord::Column)
        &&& s[i].is_ident("dense"@) ==> flow_word(s[i]) == Some(FlowWord::Dense)
    } by {
        if let Token::Ident(name) = s[i] {
            lemma_flow_keywords_differ(name@);
        }
    }
}

/// Parsing undoes serialization: a `masonry-auto-flow` value, written out,
/// parses back to itself.
pub proof fn lemma_masonry_auto_flow_reads_back(value: MasonryAutoFlow, s: Seq<Token>)
    requires
        value.written_as(s),
    ensures
        masonry_auto_flow_of(s) == Ok::<MasonryAutoFlow, ParseFailure>(value),
{
    assert forall|i: int| 0 <= i < s.len() implies {
        &&& s[i].is_ident("pack"@) ==> masonry_word(s[i]) == Some(
            MasonryWord::Placement(MasonryPlacement::Pack),
        )
        &&& s[i].is_ident("next"@) ==> masonry_word(s[i]) == Some(
            MasonryWord::Placement(MasonryPlacement::Next),
        )
        &&& s[i].is_ident("ordered"@) ==> masonry_word(s[i]) == Some(
            MasonryWord::Order(MasonryItemOrder::Ordered),
        )
    } by {
        if let Token::Ident(name) = s[i] {
            lemma_flow_keywords_differ(name@);
        }
    }
}

} // verus!
