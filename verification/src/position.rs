//! `<position>`: two axis components, each `center`, a length-percentage, or
//! a side keyword with an optional offset.

use crate::cursor::{ident_at, try_ident, Cursor};
use crate::error::ParseFailure;
use crate::length::{
    length_percentage_at, length_percentage_of, try_length_percentage, LengthPercentage,
};
use crate::token::{matches_ignore_ascii_case, Numeric, Token};
use crate::token::{BITS_HALF, BITS_ONE, BITS_ZERO};
use vstd::prelude::*;

verus! {

/// A side of one axis of a position: the start side or the end side.
pub trait Side: Sized + Copy {
    /// The start side.
    spec fn start_side() -> Self;

    /// Whether this is the start side.
    spec fn starts(&self) -> bool;

    /// The keyword that names this side.
    spec fn name(&self) -> Seq<char>;

    /// The side that a token names, if it names one of this axis.
    spec fn of_token(t: Token) -> Option<Self>;

    /// Returns the start side.
    fn start() -> (r: Self)
        ensures
            r == Self::start_side(),
    ;

    /// Returns whether this side is the start side.
    fn is_start(&self) -> (r: bool)
        ensures
            r == self.starts(),
    ;

    /// The keyword that names this side.
    fn keyword(&self) -> (r: &'static str)
        ensures
            r@ == self.name(),
    ;

    /// The side that a token names, if it names one of this axis.
    fn from_token(t: &Token) -> (r: Option<Self>)
        ensures
            r == Self::of_token(*t),
    ;
}

/// A keyword for the X direction.
#[derive(Clone, Copy, Debug, PartialEq, Eq, Structural, Hash)]
pub enum HorizontalPositionKeyword {
    Left,
    Right,
}

/// A keyword for the Y direction.
#[derive(Clone, Copy, Debug, PartialEq, Eq, Structural, Hash)]
pub enum VerticalPositionKeyword {
    Top,
    Bottom,
}

impl Side for HorizontalPositionKeyword {
    open spec fn start_side() -> Self {
        HorizontalPositionKeyword::Left
    }

    open spec fn starts(&self) -> bool {
        *self == HorizontalPositionKeyword::Left
    }

    open spec fn name(&self) -> Seq<char> {
        match self {
            HorizontalPositionKeyword::Left => "left"@,
            HorizontalPositionKeyword::Right => "right"@,
        }
    }

    open spec fn of_token(t: Token) -> Option<Self> {
        if t.is_ident("left"@) {
            Some(HorizontalPositionKeyword::Left)
        } else if t.is_ident("right"@) {
            Some(HorizontalPositionKeyword::Right)
        } else {
            None
        }
    }

    #[inline]
    fn start() -> (r: Self) {
        HorizontalPositionKeyword::Left
    }

    #[inline]
    fn is_start(&self) -> (r: bool) {
        *self == Self::start()
    }

    fn keyword(&self) -> (r: &'static str) {
        match self {
            HorizontalPositionKeyword::Left => "left",
            HorizontalPositionKeyword::Right => "right",
        }
    }

    fn from_token(t: &Token) -> (r: Option<Self>) {
        if t.ident_matches("left") {
            Some(HorizontalPositionKeyword::Left)
        } else if t.ident_matches("right") {
            Some(HorizontalPositionKeyword::Right)
        } else {
            None
        }
    }
}

impl Side for VerticalPositionKeyword {
    open spec fn start_side() -> Self {
        VerticalPositionKeyword::Top
    }

    open spec fn starts(&self) -> bool {
        *self == VerticalPositionKeyword::Top
    }

    open spec fn name(&self) -> Seq<char> {
        match self {
            VerticalPositionKeyword::Top => "top"@,
            VerticalPositionKeyword::Bottom => "bottom"@,
        }
    }

    open spec fn of_token(t: Token) -> Option<Self> {
        if t.is_ident("top"@) {
            Some(VerticalPositionKeyword::Top)
        } else if t.is_ident("bottom"@) {
            Some(VerticalPositionKeyword::Bottom)
        } else {
            None
        }
    }

    #[inline]
    fn start() -> (r: Self) {
        VerticalPositionKeyword::Top
    }

    #[inline]
    fn is_start(&self) -> (r: bool) {
        *self == Self::start()
    }

    fn keyword(&self) -> (r: &'static str) {
        match self {
            VerticalPositionKeyword::Top => "top",
            VerticalPositionKeyword::Bottom => "bottom",
        }
    }

    fn from_token(t: &Token) -> (r: Option<Self>) {
        if t.ident_matches("top") {
            Some(VerticalPositionKeyword::Top)
        } else if t.ident_matches("bottom") {
            Some(VerticalPositionKeyword::Bottom)
        } else {
            None
        }
    }
}

/// One axis of a position.
#[derive(Debug, PartialEq, Eq, Hash)]
pub enum PositionComponent<S> {
    /// `center`
    Center,
    /// `<length-percentage>`, measured from the start side.
    Length(LengthPercentage),
    /// `<side> <length-percentage>?`; the offset is measured from the named
    /// side.
    Side(S, Option<LengthPercentage>),
}

/// The horizontal axis of a position.
pub type HorizontalPosition = PositionComponent<HorizontalPositionKeyword>;

/// The vertical axis of a position.
pub type VerticalPosition = PositionComponent<VerticalPositionKeyword>;

/// A CSS `<position>`.
#[derive(Debug, PartialEq, Eq, Hash)]
pub struct Position {
    /// The horizontal component.
    pub horizontal: HorizontalPosition,
    /// The vertical component.
    pub vertical: VerticalPosition,
}

impl<S: Copy> Clone for PositionComponent<S> {
    fn clone(&self) -> (r: Self)
        ensures
            r == *self,
    {
        match self {
            PositionComponent::Center => PositionComponent::Center,
            PositionComponent::Length(lp) => PositionComponent::Length(lp.clone()),
            PositionComponent::Side(side, None) => PositionComponent::Side(*side, None),
            PositionComponent::Side(side, Some(lp)) => PositionComponent::Side(
                *side,
                Some(lp.clone()),
            ),
        }
    }
}

impl Clone for Position {
    fn clone(&self) -> (r: Self)
        ensures
            r == *self,
    {
        Position { horizontal: self.horizontal.clone(), vertical: self.vertical.clone() }
    }
}

/// The side keyword at index `at` of the tokens, if one stands there.
pub open spec fn side_at<S: Side>(tokens: Seq<Token>, at: int) -> Option<S> {
    if 0 <= at < tokens.len() {
        S::of_token(tokens[at])
    } else {
        None
    }
}

/// The component that starts at index `at`, and the index after it. The
/// alternatives are tried in this order: `center`; a length-percentage; a
/// side keyword, with the length-percentage after it where there is one.
pub open spec fn component_at<S: Side>(tokens: Seq<Token>, at: int, quirks: bool) -> Option<
    (PositionComponent<S>, int),
> {
    if ident_at(tokens, at, "center"@) {
        Some((PositionComponent::Center, at + 1))
    } else if let Some(lp) = length_percentage_at(tokens, at, quirks) {
        Some((PositionComponent::Length(lp), at + 1))
    } else if let Some(side) = side_at::<S>(tokens, at) {
        match length_percentage_at(tokens, at + 1, quirks) {
            Some(lp) => Some((PositionComponent::Side(side, Some(lp)), at + 2)),
            None => Some((PositionComponent::Side(side, None), at + 1)),
        }
    } else {
        None
    }
}

/// Consumes a side keyword of the axis `S` where one stands at the cursor.
pub fn try_side<S: Side>(input: &mut Cursor) -> (r: Option<S>)
    requires
        old(input).wf(),
    ensures
        final(input).wf(),
        final(input).tokens() == old(input).tokens(),
        r == side_at::<S>(old(input).tokens(), old(input).position() as int),
        final(input).position() == old(input).position() + if r is Some {
            1nat
        } else {
            0nat
        },
{
    let start = input.mark();
    match input.next() {
        Some(t) => {
            let side = S::from_token(&t);
            if side.is_none() {
                input.reset(start);
            }
            side
        },
        None => None,
    }
}

impl<S: Side> PositionComponent<S> {
    /// Parses one component of a position. `quirks` tolerates lengths
    /// without unit. Where no component stands at the cursor, nothing is
    /// consumed.
    pub fn parse_quirky(input: &mut Cursor, quirks: bool) -> (r: Result<Self, ParseFailure>)
        requires
            old(input).wf(),
        ensures
            final(input).wf(),
            final(input).tokens() == old(input).tokens(),
            match component_at::<S>(old(input).tokens(), old(input).position() as int, quirks) {
                Some((component, next)) => {
                    &&& r == Ok::<Self, ParseFailure>(component)
                    &&& final(input).position() == next
                },
                None => {
                    &&& r == Err::<Self, ParseFailure>(ParseFailure::Grammar)
                    &&& final(input).position() == old(input).position()
                },
            },
    {
        if try_ident(input, "center") {
            return Ok(PositionComponent::Center);
        }
        if let Some(lp) = try_length_percentage(input, quirks) {
            return Ok(PositionComponent::Length(lp));
        }
        let keyword = match try_side::<S>(input) {
            Some(keyword) => keyword,
            None => {
                return Err(ParseFailure::Grammar);
            },
        };
        let lp = try_length_percentage(input, quirks);
        Ok(PositionComponent::Side(keyword, lp))
    }

    /// Parses one component of a position, lengths without unit not
    /// tolerated.
    pub fn parse(input: &mut Cursor) -> (r: Result<Self, ParseFailure>)
        requires
            old(input).wf(),
        ensures
            final(input).wf(),
            final(input).tokens() == old(input).tokens(),
            match component_at::<S>(old(input).tokens(), old(input).position() as int, false) {
                Some((component, next)) => {
                    &&& r == Ok::<Self, ParseFailure>(component)
                    &&& final(input).position() == next
                },
                None => {
                    &&& r == Err::<Self, ParseFailure>(ParseFailure::Grammar)
                    &&& final(input).position() == old(input).position()
                },
            },
    {
        Self::parse_quirky(input, false)
    }
}


/// The position that starts at index `at`, in the grammar that allows the
/// three-value form, and the index after it.
///
/// The horizontal component is looked for first; what it is decides how the
/// vertical one is read, the longer alternative before the shorter:
/// - after `center`: a vertical component; else a horizontal one, with
///   `center` as the vertical; else `center center`;
/// - after a side keyword: `center`; else a vertical side keyword with its
///   optional offset; else the vertical is `center`, and an offset that
///   followed the horizontal keyword becomes the horizontal length;
/// - after a length-percentage: a vertical side keyword; else a second
///   length-percentage; else `center`, written or not;
/// - where no horizontal component starts: a vertical side keyword, then its
///   optional offset and a horizontal side keyword with its optional offset,
///   or `center`; where neither follows, the vertical keyword stands alone and
///   the horizontal is `center`.
pub open spec fn position_at(tokens: Seq<Token>, at: int, quirks: bool) -> Option<
    (Position, int),
> {
    match component_at::<HorizontalPositionKeyword>(tokens, at, quirks) {
        Some((PositionComponent::Center, next)) => {
            if let Some((y, end)) = component_at::<VerticalPositionKeyword>(
                tokens,
                next,
                quirks,
            ) {
                Some((Position { horizontal: PositionComponent::Center, vertical: y }, end))
            } else if let Some((x, end)) = component_at::<HorizontalPositionKeyword>(
                tokens,
                next,
                quirks,
            ) {
                Some((Position { horizontal: x, vertical: PositionComponent::Center }, end))
            } else {
                Some(
                    (
                        Position {
                            horizontal: PositionComponent::Center,
                            vertical: PositionComponent::Center,
                        },
                        next,
                    ),
                )
            }
        },
        Some((PositionComponent::Side(x_keyword, x_offset), next)) => {
            if ident_at(tokens, next, "center"@) {
                Some(
                    (
                        Position {
                            horizontal: PositionComponent::Side(x_keyword, x_offset),
                            vertical: PositionComponent::Center,
                        },
                        next + 1,
                    ),
                )
            } else if let Some(y_keyword) = side_at::<VerticalPositionKeyword>(tokens, next) {
                let y_offset = length_percentage_at(tokens, next + 1, quirks);
                Some(
                    (
                        Position {
                            horizontal: PositionComponent::Side(x_keyword, x_offset),
                            vertical: PositionComponent::Side(y_keyword, y_offset),
                        },
                        if y_offset is Some {
                            next + 2
                        } else {
                            next + 1
                        },
                    ),
                )
            } else {
                Some(
                    (
                        Position {
                            horizontal: match x_offset {
                                Some(offset) => PositionComponent::Length(offset),
                                None => PositionComponent::Side(x_keyword, None),
                            },
                            vertical: PositionComponent::Center,
                        },
                        next,
                    ),
                )
            }
        },
        Some((PositionComponent::Length(x), next)) => {
            if let Some(y_keyword) = side_at::<VerticalPositionKeyword>(tokens, next) {
                Some(
                    (
                        Position {
                            horizontal: PositionComponent::Length(x),
                            vertical: PositionComponent::Side(y_keyword, None),
                        },
                        next + 1,
                    ),
                )
            } else if let Some(y) = length_percentage_at(tokens, next, quirks) {
                Some(
                    (
                        Position {
                            horizontal: PositionComponent::Length(x),
                            vertical: PositionComponent::Length(y),
                        },
                        next + 1,
                    ),
                )
            } else {
                Some(
                    (
                        Position {
                            horizontal: PositionComponent::Length(x),
                            vertical: PositionComponent::Center,
                        },
                        if ident_at(tokens, next, "center"@) {
                            next + 1
                        } else {
                            next
                        },
                    ),
                )
            }
        },
        None => match side_at::<VerticalPositionKeyword>(tokens, at) {
            None => None,
            Some(y_keyword) => {
                let y_offset = length_percentage_at(tokens, at + 1, quirks);
                let next = if y_offset is Some {
                    at + 2
                } else {
                    at + 1
                };
                if let Some(x_keyword) = side_at::<HorizontalPositionKeyword>(tokens, next) {
                    let x_offset = length_percentage_at(tokens, next + 1, quirks);
                    Some(
                        (
                            Position {
                                horizontal: PositionComponent::Side(x_keyword, x_offset),
                                vertical: PositionComponent::Side(y_keyword, y_offset),
                            },
                            if x_offset is Some {
                                next + 2
                            } else {
                                next + 1
                            },
                        ),
                    )
                } else if ident_at(tokens, next, "center"@) {
                    Some(
                        (
                            Position {
                                horizontal: PositionComponent::Center,
                                vertical: PositionComponent::Side(y_keyword, y_offset),
                            },
                            next + 1,
                        ),
                    )
                } else {
                    Some(
                        (
                            Position {
                                horizontal: PositionComponent::Center,
                                vertical: PositionComponent::Side(y_keyword, None),
                            },
                            at + 1,
                        ),
                    )
                }
            },
        },
    }
}

impl<S> PositionComponent<S> {
    /// The number of component values that this component is written with.
    pub open spec fn count(self) -> nat {
        match self {
            PositionComponent::Side(_, Some(_)) => 2,
            _ => 1,
        }
    }

    /// Whether the component places its axis at the middle: `center`, or the
    /// percentage one half as a length or as an offset from either side.
    pub open spec fn centered(self) -> bool {
        match self {
            PositionComponent::Center => true,
            PositionComponent::Length(lp) => lp.is_half(),
            PositionComponent::Side(_, Some(lp)) => lp.is_half(),
            PositionComponent::Side(_, None) => false,
        }
    }

    /// `0%`
    pub fn zero() -> (r: Self)
        ensures
            r matches PositionComponent::Length(LengthPercentage::Percentage(n)) && n.bits
                == BITS_ZERO && n.text@ == "0%"@,
    {
        PositionComponent::Length(
            LengthPercentage::Percentage(Numeric { bits: BITS_ZERO, text: "0%".to_owned() }),
        )
    }

    /// Returns the count of this component.
    pub fn component_count(&self) -> (r: usize)
        ensures
            r == self.count(),
    {
        match self {
            PositionComponent::Length(..) | PositionComponent::Center => 1,
            PositionComponent::Side(_, lp) => {
                if lp.is_some() {
                    2
                } else {
                    1
                }
            },
        }
    }

    /// Whether the component places its axis at the middle. A percentage
    /// counts only where its value compares equal to one half.
    pub fn is_center(&self) -> (r: bool)
        ensures
            r == self.centered(),
    {
        match self {
            PositionComponent::Center => true,
            PositionComponent::Length(lp) => lp.is_half_percentage(),
            PositionComponent::Side(_, Some(lp)) => lp.is_half_percentage(),
            PositionComponent::Side(_, None) => false,
        }
    }
}

impl<S: Side> PositionComponent<S> {
    /// The initial specified value of a position component, i.e. the start
    /// side.
    pub fn initial_specified_value() -> (r: Self)
        ensures
            r == PositionComponent::Side(S::start_side(), None),
    {
        PositionComponent::Side(S::start(), None)
    }
}

impl Position {
    /// Whether the position is written in the three-value form: one axis
    /// with a side and an offset, the other with a single value.
    pub open spec fn three_value(self) -> bool {
        self.horizontal.count() != self.vertical.count()
    }

    /// A position from its two components.
    pub fn new(horizontal: HorizontalPosition, vertical: VerticalPosition) -> (r: Self)
        ensures
            r == (Position { horizontal, vertical }),
    {
        Position { horizontal, vertical }
    }

    /// `center center`
    #[inline]
    pub fn center() -> (r: Self)
        ensures
            r == (Position {
                horizontal: PositionComponent::Center,
                vertical: PositionComponent::Center,
            }),
    {
        Self::new(PositionComponent::Center, PositionComponent::Center)
    }

    /// Returns true if this uses a 3 value syntax.
    #[inline]
    pub fn is_three_value_syntax(&self) -> (r: bool)
        ensures
            r == self.three_value(),
    {
        self.horizontal.component_count() != self.vertical.component_count()
    }

    /// Parses a position in the grammar that allows the three-value form.
    /// `quirks` tolerates lengths without unit. Where no position stands at
    /// the cursor, nothing is consumed.
    pub fn parse_three_value_quirky(input: &mut Cursor, quirks: bool) -> (r: Result<
        Self,
        ParseFailure,
    >)
        requires
            old(input).wf(),
        ensures
            final(input).wf(),
            final(input).tokens() == old(input).tokens(),
            match position_at(old(input).tokens(), old(input).position() as int, quirks) {
                Some((position, next)) => {
                    &&& r == Ok::<Self, ParseFailure>(position)
                    &&& final(input).position() == next
                },
                None => {
                    &&& r == Err::<Self, ParseFailure>(ParseFailure::Grammar)
                    &&& final(input).position() == old(input).position()
                },
            },
    {
        match PositionComponent::<HorizontalPositionKeyword>::parse_quirky(input, quirks) {
            Ok(PositionComponent::Center) => {
                if let Ok(y_pos) = PositionComponent::<VerticalPositionKeyword>::parse_quirky(
                    input,
                    quirks,
                ) {
                    return Ok(Self::new(PositionComponent::Center, y_pos));
                }
                let x_pos = match PositionComponent::<HorizontalPositionKeyword>::parse_quirky(
                    input,
                    quirks,
                ) {
                    Ok(x_pos) => x_pos,
                    Err(_) => PositionComponent::Center,
                };
                return Ok(Self::new(x_pos, PositionComponent::Center));
            },
            Ok(PositionComponent::Side(x_keyword, lp)) => {
                if try_ident(input, "center") {
                    let x_pos = PositionComponent::Side(x_keyword, lp);
                    return Ok(Self::new(x_pos, PositionComponent::Center));
                }
                if let Some(y_keyword) = try_side::<VerticalPositionKeyword>(input) {
                    let y_lp = try_length_percentage(input, quirks);
                    let x_pos = PositionComponent::Side(x_keyword, lp);
                    let y_pos = PositionComponent::Side(y_keyword, y_lp);
                    return Ok(Self::new(x_pos, y_pos));
                }
                let x_pos = match lp {
                    Some(offset) => PositionComponent::Length(offset),
                    None => PositionComponent::Side(x_keyword, None),
                };
                return Ok(Self::new(x_pos, PositionComponent::Center));
            },
            Ok(PositionComponent::Length(x_lp)) => {
                let x_pos = PositionComponent::Length(x_lp);
                if let Some(y_keyword) = try_side::<VerticalPositionKeyword>(input) {
                    let y_pos = PositionComponent::Side(y_keyword, None);
                    return Ok(Self::new(x_pos, y_pos));
                }
                if let Some(y_lp) = try_length_percentage(input, quirks) {
                    let y_pos = PositionComponent::Length(y_lp);
                    return Ok(Self::new(x_pos, y_pos));
                }
                let _ = try_ident(input, "center");
                return Ok(Self::new(x_pos, PositionComponent::Center));
            },
            Err(_) => {},
        }
        let y_keyword = match try_side::<VerticalPositionKeyword>(input) {
            Some(y_keyword) => y_keyword,
            None => {
                return Err(ParseFailure::Grammar);
            },
        };
        let after_keyword = input.mark();
        let y_lp = try_length_percentage(input, quirks);
        if let Some(x_keyword) = try_side::<HorizontalPositionKeyword>(input) {
            let x_lp = try_length_percentage(input, quirks);
            let x_pos = PositionComponent::Side(x_keyword, x_lp);
            let y_pos = PositionComponent::Side(y_keyword, y_lp);
            return Ok(Self::new(x_pos, y_pos));
        }
        if try_ident(input, "center") {
            let y_pos = PositionComponent::Side(y_keyword, y_lp);
            return Ok(Self::new(PositionComponent::Center, y_pos));
        }
        input.reset(after_keyword);
        let y_pos = PositionComponent::Side(y_keyword, None);
        Ok(Self::new(PositionComponent::Center, y_pos))
    }

    /// Parses a `<position>`: the three-value form is refused, and so are
    /// lengths without unit. A failure consumes nothing.
    pub fn parse(input: &mut Cursor) -> (r: Result<Self, ParseFailure>)
        requires
            old(input).wf(),
        ensures
            final(input).wf(),
            final(input).tokens() == old(input).tokens(),
            match position_at(old(input).tokens(), old(input).position() as int, false) {
                Some((position, next)) => if position.three_value() {
                    &&& r == Err::<Self, ParseFailure>(ParseFailure::Unspecified)
                    &&& final(input).position() == old(input).position()
                } else {
                    &&& r == Ok::<Self, ParseFailure>(position)
                    &&& final(input).position() == next
                },
                None => {
                    &&& r == Err::<Self, ParseFailure>(ParseFailure::Grammar)
                    &&& final(input).position() == old(input).position()
                },
            },
    {
        let start = input.mark();
        let position = match Self::parse_three_value_quirky(input, false) {
            Ok(position) => position,
            Err(failure) => {
                return Err(failure);
            },
        };
        if position.is_three_value_syntax() {
            input.reset(start);
            return Err(ParseFailure::Unspecified);
        }
        Ok(position)
    }
}


/// What a position component comes to once the side it is measured from is
/// taken into account. Lengths stay as they were written: turning them into
/// absolute values is left to the caller.
#[derive(Debug, PartialEq, Eq, Hash)]
pub enum ComputedLengthPercentage {
    /// A percentage, by the bit pattern of its fraction.
    Percentage(u32),
    /// The length-percentage itself, measured from the start side.
    Specified(LengthPercentage),
    /// `100%` minus the length-percentage: an offset from the end side. The
    /// subtraction is kept, not carried out.
    HundredPercentMinus(LengthPercentage),
}

impl<S: Side> PositionComponent<S> {
    /// What the component comes to, measured from the start side.
    pub open spec fn computed(self) -> ComputedLengthPercentage {
        match self {
            PositionComponent::Center => ComputedLengthPercentage::Percentage(BITS_HALF),
            PositionComponent::Side(keyword, None) => ComputedLengthPercentage::Percentage(
                if keyword.starts() {
                    BITS_ZERO
                } else {
                    BITS_ONE
                },
            ),
            PositionComponent::Side(keyword, Some(length)) => if keyword.starts() {
                ComputedLengthPercentage::Specified(length)
            } else {
                ComputedLengthPercentage::HundredPercentMinus(length)
            },
            PositionComponent::Length(length) => ComputedLengthPercentage::Specified(length),
        }
    }

    /// The canonical text of the component.
    pub open spec fn text(self) -> Seq<char> {
        match self {
            PositionComponent::Center => "center"@,
            PositionComponent::Length(lp) => lp.text(),
            PositionComponent::Side(keyword, None) => keyword.name(),
            PositionComponent::Side(keyword, Some(lp)) => keyword.name() + " "@ + lp.text(),
        }
    }

    /// Measures the component from the start side: `center` is 50%, the
    /// start side 0%, the end side 100%, an offset from the start side the
    /// offset itself, and an offset from the end side 100% minus the offset.
    pub fn to_computed_value(&self) -> (r: ComputedLengthPercentage)
        ensures
            r == self.computed(),
    {
        match self {
            PositionComponent::Center => ComputedLengthPercentage::Percentage(BITS_HALF),
            PositionComponent::Side(keyword, None) => {
                let p = if keyword.is_start() {
                    BITS_ZERO
                } else {
                    BITS_ONE
                };
                ComputedLengthPercentage::Percentage(p)
            },
            PositionComponent::Side(keyword, Some(length)) => {
                if !keyword.is_start() {
                    ComputedLengthPercentage::HundredPercentMinus(length.clone())
                } else {
                    ComputedLengthPercentage::Specified(length.clone())
                }
            },
            PositionComponent::Length(length) => ComputedLengthPercentage::Specified(
                length.clone(),
            ),
        }
    }

    /// Writes the component: `center`, the length-percentage, or the side
    /// keyword with its offset after one space.
    pub fn to_css(&self) -> (r: String)
        ensures
            r@ == self.text(),
    {
        let mut dest = String::new();
        match self {
            PositionComponent::Center => {
                dest.append("center");
            },
            PositionComponent::Length(lp) => {
                dest.append(lp.to_css().as_str());
            },
            PositionComponent::Side(keyword, None) => {
                dest.append(keyword.keyword());
            },
            PositionComponent::Side(keyword, Some(lp)) => {
                dest.append(keyword.keyword());
                dest.append(" ");
                dest.append(lp.to_css().as_str());
            },
        }
        dest
    }
}

impl Position {
    /// The canonical text of the position: the horizontal component, a
    /// space, the vertical component. Where one axis has a side with an
    /// offset and the other a bare length, the bare length's side is written
    /// out, `left` or `top`.
    pub open spec fn text(self) -> Seq<char> {
        match (self.horizontal, self.vertical) {
            (PositionComponent::Side(_, Some(_)), PositionComponent::Length(y)) => {
                self.horizontal.text() + " top "@ + y.text()
            },
            (PositionComponent::Length(x), PositionComponent::Side(_, Some(_))) => {
                "left "@ + x.text() + " "@ + self.vertical.text()
            },
            _ => self.horizontal.text() + " "@ + self.vertical.text(),
        }
    }

    /// Writes the position in its canonical form.
    pub fn to_css(&self) -> (r: String)
        ensures
            r@ == self.text(),
    {
        let mut dest = String::new();
        match (&self.horizontal, &self.vertical) {
            (PositionComponent::Side(_, Some(_)), PositionComponent::Length(y_lp)) => {
                dest.append(self.horizontal.to_css().as_str());
                dest.append(" top ");
                dest.append(y_lp.to_css().as_str());
            },
            (PositionComponent::Length(x_lp), PositionComponent::Side(_, Some(_))) => {
                dest.append("left ");
                dest.append(x_lp.to_css().as_str());
                dest.append(" ");
                dest.append(self.vertical.to_css().as_str());
            },
            (x_pos, y_pos) => {
                dest.append(x_pos.to_css().as_str());
                dest.append(" ");
                dest.append(y_pos.to_css().as_str());
            },
        }
        dest
    }
}


/// No text matches two of the keywords `center`, `left`, `right`, `top` and
/// `bottom`.
pub proof fn lemma_keywords_differ(s: Seq<char>)
    ensures
        matches_ignore_ascii_case(s, "center"@) ==> !matches_ignore_ascii_case(s, "left"@)
            && !matches_ignore_ascii_case(s, "right"@) && !matches_ignore_ascii_case(s, "top"@)
            && !matches_ignore_ascii_case(s, "bottom"@),
        matches_ignore_ascii_case(s, "left"@) ==> !matches_ignore_ascii_case(s, "right"@)
            && !matches_ignore_ascii_case(s, "top"@) && !matches_ignore_ascii_case(
            s,
            "bottom"@,
        ),
        matches_ignore_ascii_case(s, "right"@) ==> !matches_ignore_ascii_case(s, "top"@)
            && !matches_ignore_ascii_case(s, "bottom"@),
        matches_ignore_ascii_case(s, "top"@) ==> !matches_ignore_ascii_case(s, "bottom"@),
{
    reveal_strlit("center");
    reveal_strlit("left");
    reveal_strlit("right");
    reveal_strlit("top");
    reveal_strlit("bottom");
    if matches_ignore_ascii_case(s, "center"@) && matches_ignore_ascii_case(s, "bottom"@) {
        let first = s[0];
        assert("center"@[0] == 'c');
        assert("bottom"@[0] == 'b');
    }
}

/// A token is at most one of: `center`, a horizontal side keyword, a
/// vertical side keyword, a length-percentage.
pub proof fn lemma_token_kinds_differ(t: Token, quirks: bool)
    ensures
        t.is_ident("center"@) ==> HorizontalPositionKeyword::of_token(t) is None
            && VerticalPositionKeyword::of_token(t) is None && length_percentage_of(t, quirks)
            is None,
        HorizontalPositionKeyword::of_token(t) is Some ==> VerticalPositionKeyword::of_token(t)
            is None && length_percentage_of(t, quirks) is None,
        VerticalPositionKeyword::of_token(t) is Some ==> length_percentage_of(t, quirks)
            is None,
{
    match t {
        Token::Ident(s) => {
            lemma_keywords_differ(s@);
        },
        _ => {},
    }
}

impl<S: Side> PositionComponent<S> {
    /// Whether the tokens from index `at` on spell this component as
    /// `to_css` writes it: the identifier `center`, the length-percentage, or
    /// the side keyword and, where there is one, its offset. `quirks` says
    /// whether a length may be written without unit.
    pub open spec fn written_at(self, tokens: Seq<Token>, at: int, quirks: bool) -> bool {
        match self {
            PositionComponent::Center => ident_at(tokens, at, "center"@),
            PositionComponent::Length(lp) => length_percentage_at(tokens, at, quirks) == Some(lp),
            PositionComponent::Side(keyword, None) => side_at::<S>(tokens, at) == Some(keyword),
            PositionComponent::Side(keyword, Some(lp)) => {
                &&& side_at::<S>(tokens, at) == Some(keyword)
                &&& length_percentage_at(tokens, at + 1, quirks) == Some(lp)
            },
        }
    }
}

impl Position {
    /// Whether the tokens are this position as `to_css` writes a position
    /// that is not in the three-value form: the horizontal component, then
    /// the vertical one, and nothing after it. `quirks` says whether a length
    /// may be written without unit.
    pub open spec fn written_as(self, tokens: Seq<Token>, quirks: bool) -> bool {
        &&& tokens.len() == self.horizontal.count() + self.vertical.count()
        &&& self.horizontal.written_at(tokens, 0, quirks)
        &&& self.vertical.written_at(tokens, self.horizontal.count() as int, quirks)
    }

    /// Whether the position is a horizontal side keyword without offset
    /// followed by a bare vertical length, such as `left 10%`. Read back, the
    /// length is taken for the keyword's offset.
    pub open spec fn keyword_then_length(self) -> bool {
        self.horizontal matches PositionComponent::Side(_, None) && self.vertical
            is Length
    }
}

/// Parsing undoes serialization: a position that is not in the three-value
/// form, written out component by component, parses back to itself in the
/// same grammar and leaves no token over. This holds of every such position
/// but a horizontal side keyword without offset followed by a bare vertical
/// length.
pub proof fn lemma_parse_inverts_to_css(position: Position, tokens: Seq<Token>, quirks: bool)
    requires
        !position.three_value(),
        !position.keyword_then_length(),
        position.written_as(tokens, quirks),
    ensures
        position_at(tokens, 0, quirks) == Some((position, tokens.len() as int)),
{
    assert forall|i: int| 0 <= i < tokens.len() implies {
        &&& tokens[i].is_ident("center"@) ==> HorizontalPositionKeyword::of_token(tokens[i])
            is None && VerticalPositionKeyword::of_token(tokens[i]) is None
            && length_percentage_of(tokens[i], quirks) is None
        &&& HorizontalPositionKeyword::of_token(tokens[i]) is Some
            ==> VerticalPositionKeyword::of_token(tokens[i]) is None && length_percentage_of(
            tokens[i],
            quirks,
        ) is None
        &&& VerticalPositionKeyword::of_token(tokens[i]) is Some ==> length_percentage_of(
            tokens[i],
            quirks,
        ) is None
    } by {
        lemma_token_kinds_differ(tokens[i], quirks);
    }
}


/// The text of a token that a position is written with: the identifier, or
/// the text of the number.
pub open spec fn word(t: Token) -> Seq<char> {
    match t {
        Token::Ident(s) => s@,
        Token::Number(n) => n.text@,
        Token::Percentage(n) => n.text@,
        Token::Dimension(n, _) => n.text@,
        _ => Seq::empty(),
    }
}

/// The words of the tokens with one space between two of them.
pub open spec fn spelling(tokens: Seq<Token>) -> Seq<char>
    decreases tokens.len(),
{
    if tokens.len() == 0 {
        Seq::empty()
    } else if tokens.len() == 1 {
        word(tokens[0])
    } else {
        spelling(tokens.drop_last()) + " "@ + word(tokens.last())
    }
}

/// Whether the token, where it is an identifier, is one of the keywords of
/// a position in lower case.
pub open spec fn lower_case_keyword(t: Token) -> bool {
    t matches Token::Ident(s) ==> s@ == "center"@ || s@ == "left"@ || s@ == "right"@ || s@
        == "top"@ || s@ == "bottom"@
}

/// What `to_css` writes is the spelling of the tokens that a position is
/// written as: the text of a position that is not in the three-value form is
/// the words of those tokens, keywords in lower case, with one space between
/// two of them.
pub proof fn lemma_to_css_spells_the_tokens(
    position: Position,
    tokens: Seq<Token>,
    quirks: bool,
)
    requires
        !position.three_value(),
        position.written_as(tokens, quirks),
        forall|i: int| 0 <= i < tokens.len() ==> lower_case_keyword(#[trigger] tokens[i]),
    ensures
        position.text() == spelling(tokens),
{
    assert forall|i: int| 0 <= i < tokens.len() implies {
        &&& tokens[i].is_ident("center"@) ==> word(tokens[i]) == "center"@
        &&& tokens[i].is_ident("left"@) ==> word(tokens[i]) == "left"@
        &&& tokens[i].is_ident("right"@) ==> word(tokens[i]) == "right"@
        &&& tokens[i].is_ident("top"@) ==> word(tokens[i]) == "top"@
        &&& tokens[i].is_ident("bottom"@) ==> word(tokens[i]) == "bottom"@
        &&& length_percentage_of(tokens[i], quirks) matches Some(lp) ==> word(tokens[i])
            == lp.text()
    } by {
        assert(lower_case_keyword(tokens[i]));
        match tokens[i] {
            Token::Ident(s) => {
                lemma_keywords_differ(s@);
                lemma_matches_itself(s@);
            },
            _ => {},
        }
    }
    reveal_with_fuel(spelling, 5);
    if tokens.len() == 2 {
        assert(tokens.drop_last().len() == 1);
        assert(tokens.drop_last()[0] == tokens[0]);
        assert(spelling(tokens) == word(tokens[0]) + " "@ + word(tokens[1]));
    } else {
        assert(tokens.len() == 4);
        let three = tokens.drop_last();
        let two = three.drop_last();
        assert(two.drop_last().len() == 1);
        assert(two.drop_last()[0] == tokens[0]);
        assert(two.last() == tokens[1]);
        assert(three.last() == tokens[2]);
        assert(spelling(two) == word(tokens[0]) + " "@ + word(tokens[1]));
        assert(spelling(three) == spelling(two) + " "@ + word(tokens[2]));
        assert(spelling(tokens) == spelling(three) + " "@ + word(tokens[3]));
        assert(position.text() =~= spelling(tokens));
    }
}

/// Every text matches itself without regard to ASCII case.
pub proof fn lemma_matches_itself(s: Seq<char>)
    ensures
        matches_ignore_ascii_case(s, s),
{
}

} // verus!
