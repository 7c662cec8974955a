use css_position::cursor::Cursor;
use css_position::error::ParseFailure;
use css_position::length::{LengthPercentage, LengthUnit};
use css_position::position::{
    ComputedLengthPercentage, HorizontalPosition, HorizontalPositionKeyword, Position,
    PositionComponent, Side, VerticalPosition, VerticalPositionKeyword,
};
use css_position::token::{Numeric, Token, BITS_HALF, BITS_ONE, BITS_ZERO};
use cssparser::Parser;

fn cursor(text: &str) -> Cursor<'_> {
    Cursor::new(Parser::new(text))
}

fn strict(text: &str) -> Result<Position, ParseFailure> {
    Position::parse(&mut cursor(text))
}

fn quirky(text: &str, quirks: bool) -> Result<Position, ParseFailure> {
    Position::parse_three_value_quirky(&mut cursor(text), quirks)
}

fn numeric(value: f32, text: &str) -> Numeric {
    Numeric { bits: value.to_bits(), text: text.to_string() }
}

fn percent(value: f32, text: &str) -> LengthPercentage {
    LengthPercentage::Percentage(numeric(value, text))
}

fn px(value: f32, text: &str) -> LengthPercentage {
    LengthPercentage::Length(numeric(value, text), LengthUnit::Px)
}

#[test]
fn center_center_is_centered_on_both_axes() {
    let p = strict("center center").unwrap();
    assert_eq!(p.horizontal, PositionComponent::Center);
    assert_eq!(p.vertical, PositionComponent::Center);
    assert!(p.horizontal.is_center());
    assert!(p.vertical.is_center());
    assert_eq!(p, Position::center());
}

#[test]
fn length_then_vertical_keyword() {
    let p = strict("10% top").unwrap();
    assert_eq!(p.horizontal, PositionComponent::Length(percent(0.1, "10%")));
    assert_eq!(p.vertical, PositionComponent::Side(VerticalPositionKeyword::Top, None));
    assert_eq!(p.to_css(), "10% top");
}

#[test]
fn four_values_parse_strictly() {
    let p = strict("right 10px bottom 20px").unwrap();
    assert_eq!(
        p.horizontal,
        PositionComponent::Side(HorizontalPositionKeyword::Right, Some(px(10.0, "10px")))
    );
    assert_eq!(
        p.vertical,
        PositionComponent::Side(VerticalPositionKeyword::Bottom, Some(px(20.0, "20px")))
    );
    assert!(!p.is_three_value_syntax());
    assert_eq!(p.to_css(), "right 10px bottom 20px");
}

#[test]
fn three_values_are_refused_strictly_and_taken_quirky() {
    assert_eq!(strict("center top 5px"), Err(ParseFailure::Unspecified));
    let p = quirky("center top 5px", false).unwrap();
    assert_eq!(p.horizontal, PositionComponent::Center);
    assert_eq!(
        p.vertical,
        PositionComponent::Side(VerticalPositionKeyword::Top, Some(px(5.0, "5px")))
    );
    assert!(p.is_three_value_syntax());
}

#[test]
fn strict_failure_consumes_nothing() {
    let mut input = cursor("center top 5px");
    assert_eq!(Position::parse(&mut input), Err(ParseFailure::Unspecified));
    assert_eq!(input.mark(), 0);
    assert!(Position::parse_three_value_quirky(&mut input, false).is_ok());
    assert_eq!(input.mark(), 3);
    assert!(input.is_exhausted());
}

#[test]
fn center_then_horizontal_side_with_offset() {
    let p = quirky("center left 10px", false).unwrap();
    assert_eq!(
        p.horizontal,
        PositionComponent::Side(HorizontalPositionKeyword::Left, Some(px(10.0, "10px")))
    );
    assert_eq!(p.vertical, PositionComponent::Center);
    assert!(p.is_three_value_syntax());
}

#[test]
fn single_center() {
    let mut input = cursor("center");
    let p = Position::parse(&mut input).unwrap();
    assert_eq!(p, Position::center());
    assert_eq!(input.mark(), 1);
}

#[test]
fn center_before_a_comma_stops_at_the_comma() {
    let mut input = cursor("center, left");
    let p = Position::parse(&mut input).unwrap();
    assert_eq!(p, Position::center());
    assert_eq!(input.mark(), 1);
    assert_eq!(input.next(), Some(Token::Comma));
}

#[test]
fn side_then_center() {
    let p = strict("right center").unwrap();
    assert_eq!(p.horizontal, PositionComponent::Side(HorizontalPositionKeyword::Right, None));
    assert_eq!(p.vertical, PositionComponent::Center);
}

#[test]
fn side_then_vertical_side() {
    let p = strict("left bottom").unwrap();
    assert_eq!(p.horizontal, PositionComponent::Side(HorizontalPositionKeyword::Left, None));
    assert_eq!(p.vertical, PositionComponent::Side(VerticalPositionKeyword::Bottom, None));
    assert_eq!(p.to_css(), "left bottom");
}

#[test]
fn side_alone_has_a_centered_vertical() {
    let p = strict("left").unwrap();
    assert_eq!(p.horizontal, PositionComponent::Side(HorizontalPositionKeyword::Left, None));
    assert_eq!(p.vertical, PositionComponent::Center);
}

#[test]
fn dangling_offset_becomes_the_horizontal_length() {
    let mut input = cursor("left 10%");
    let p = Position::parse(&mut input).unwrap();
    assert_eq!(p.horizontal, PositionComponent::Length(percent(0.1, "10%")));
    assert_eq!(p.vertical, PositionComponent::Center);
    assert_eq!(input.mark(), 2);
}

#[test]
fn two_lengths() {
    let p = strict("10px 20%").unwrap();
    assert_eq!(p.horizontal, PositionComponent::Length(px(10.0, "10px")));
    assert_eq!(p.vertical, PositionComponent::Length(percent(0.2, "20%")));
    assert_eq!(p.to_css(), "10px 20%");
}

#[test]
fn length_alone_and_length_with_center() {
    let mut input = cursor("10px");
    let p = Position::parse(&mut input).unwrap();
    assert_eq!(p.horizontal, PositionComponent::Length(px(10.0, "10px")));
    assert_eq!(p.vertical, PositionComponent::Center);
    assert_eq!(input.mark(), 1);
    let mut input = cursor("10px center");
    let q = Position::parse(&mut input).unwrap();
    assert_eq!(q, p);
    assert_eq!(input.mark(), 2);
}

#[test]
fn vertical_keyword_first() {
    let p = strict("top left").unwrap();
    assert_eq!(p.horizontal, PositionComponent::Side(HorizontalPositionKeyword::Left, None));
    assert_eq!(p.vertical, PositionComponent::Side(VerticalPositionKeyword::Top, None));
    let p = strict("bottom 5px right 6px").unwrap();
    assert_eq!(
        p.horizontal,
        PositionComponent::Side(HorizontalPositionKeyword::Right, Some(px(6.0, "6px")))
    );
    assert_eq!(
        p.vertical,
        PositionComponent::Side(VerticalPositionKeyword::Bottom, Some(px(5.0, "5px")))
    );
    let p = strict("top center").unwrap();
    assert_eq!(p.horizontal, PositionComponent::Center);
    assert_eq!(p.vertical, PositionComponent::Side(VerticalPositionKeyword::Top, None));
}

#[test]
fn vertical_keyword_falls_back_to_itself_alone() {
    let mut input = cursor("top 10% 20%");
    let p = Position::parse_three_value_quirky(&mut input, false).unwrap();
    assert_eq!(p.horizontal, PositionComponent::Center);
    assert_eq!(p.vertical, PositionComponent::Side(VerticalPositionKeyword::Top, None));
    assert_eq!(input.mark(), 1);
}

#[test]
fn vertical_keyword_with_offset_then_center() {
    let p = quirky("bottom 10% center", false).unwrap();
    assert_eq!(p.horizontal, PositionComponent::Center);
    assert_eq!(
        p.vertical,
        PositionComponent::Side(VerticalPositionKeyword::Bottom, Some(percent(0.1, "10%")))
    );
}

#[test]
fn no_position_is_a_grammar_failure() {
    assert_eq!(strict(""), Err(ParseFailure::Grammar));
    assert_eq!(strict("   "), Err(ParseFailure::Grammar));
    assert_eq!(strict("middle"), Err(ParseFailure::Grammar));
    assert_eq!(strict(", center"), Err(ParseFailure::Grammar));
    assert_eq!(quirky("10furlongs", true), Err(ParseFailure::Grammar));
}

#[test]
fn keywords_match_without_case() {
    let p = strict("CENTER Top").unwrap();
    assert_eq!(p.horizontal, PositionComponent::Center);
    assert_eq!(p.vertical, PositionComponent::Side(VerticalPositionKeyword::Top, None));
    let p = strict("LeFt 10PX bottom 1EM").unwrap();
    assert_eq!(
        p.horizontal,
        PositionComponent::Side(
            HorizontalPositionKeyword::Left,
            Some(LengthPercentage::Length(numeric(10.0, "10PX"), LengthUnit::Px))
        )
    );
    assert_eq!(
        p.vertical,
        PositionComponent::Side(
            VerticalPositionKeyword::Bottom,
            Some(LengthPercentage::Length(numeric(1.0, "1EM"), LengthUnit::Em))
        )
    );
}

#[test]
fn unitless_lengths_need_quirks_unless_zero() {
    assert_eq!(quirky("10 20", false), Err(ParseFailure::Grammar));
    let p = quirky("10 20", true).unwrap();
    assert_eq!(p.horizontal, PositionComponent::Length(px(10.0, "10")));
    assert_eq!(p.vertical, PositionComponent::Length(px(20.0, "20")));
    let p = strict("0 0").unwrap();
    assert_eq!(p.horizontal, PositionComponent::Length(px(0.0, "0")));
    assert_eq!(p.vertical, PositionComponent::Length(px(0.0, "0")));
    let p = strict("-0 0").unwrap();
    assert_eq!(p.horizontal, PositionComponent::Length(px(-0.0, "-0")));
}

#[test]
fn component_parse_takes_one_axis() {
    let mut input = cursor("left 10% top");
    let c = HorizontalPosition::parse(&mut input).unwrap();
    assert_eq!(
        c,
        PositionComponent::Side(HorizontalPositionKeyword::Left, Some(percent(0.1, "10%")))
    );
    assert_eq!(input.mark(), 2);
    let c = VerticalPosition::parse(&mut input).unwrap();
    assert_eq!(c, PositionComponent::Side(VerticalPositionKeyword::Top, None));
    assert_eq!(VerticalPosition::parse(&mut input), Err(ParseFailure::Grammar));
    assert_eq!(HorizontalPosition::parse(&mut cursor("top")), Err(ParseFailure::Grammar));
    assert_eq!(
        VerticalPosition::parse_quirky(&mut cursor("7"), true),
        Ok(PositionComponent::Length(px(7.0, "7")))
    );
}

#[test]
fn serializer_names_the_side_of_a_bare_length() {
    let p = Position::new(
        PositionComponent::Side(HorizontalPositionKeyword::Right, Some(px(10.0, "10px"))),
        PositionComponent::Length(px(20.0, "20px")),
    );
    assert_eq!(p.to_css(), "right 10px top 20px");
    let p = Position::new(
        PositionComponent::Length(px(10.0, "10px")),
        PositionComponent::Side(VerticalPositionKeyword::Bottom, Some(percent(0.2, "20%"))),
    );
    assert_eq!(p.to_css(), "left 10px bottom 20%");
    let p = Position::new(
        PositionComponent::Length(px(10.0, "10px")),
        PositionComponent::Side(VerticalPositionKeyword::Bottom, None),
    );
    assert_eq!(p.to_css(), "10px bottom");
    let p = Position::new(
        PositionComponent::Side(HorizontalPositionKeyword::Left, Some(px(1.0, "1px"))),
        PositionComponent::Center,
    );
    assert_eq!(p.to_css(), "left 1px center");
}

#[test]
fn parsing_undoes_serialization() {
    for text in [
        "center center",
        "center 10%",
        "center top",
        "10% center",
        "10% 20px",
        "10% bottom",
        "left center",
        "right top",
        "left 10px top 20px",
        "right 1em bottom 50%",
    ] {
        let p = strict(text).unwrap();
        assert_eq!(p.to_css(), text);
        assert_eq!(strict(&p.to_css()), Ok(p));
    }
}

#[test]
fn keyword_then_length_does_not_come_back() {
    let p = Position::new(
        PositionComponent::Side(HorizontalPositionKeyword::Left, None),
        PositionComponent::Length(percent(0.1, "10%")),
    );
    assert_eq!(p.to_css(), "left 10%");
    let q = strict("left 10%").unwrap();
    assert!(q != p);
}

#[test]
fn one_half_is_the_center_and_nothing_near_it() {
    let p = strict("50% 50%").unwrap();
    assert!(p.horizontal.is_center());
    assert!(p.vertical.is_center());
    let p = strict("left 50% bottom 50%").unwrap();
    assert!(p.horizontal.is_center());
    assert!(p.vertical.is_center());
    let p = strict("50.001% 49.999%").unwrap();
    assert!(!p.horizontal.is_center());
    assert!(!p.vertical.is_center());
    let p = strict("left 50px").unwrap();
    assert!(!p.horizontal.is_center());
    let p = strict("left top").unwrap();
    assert!(!p.horizontal.is_center());
    assert!(!p.vertical.is_center());
    assert_eq!(BITS_HALF, 0.5f32.to_bits());
}

#[test]
fn component_counts() {
    let p = quirky("center top 5px", false).unwrap();
    assert_eq!(p.horizontal.component_count(), 1);
    assert_eq!(p.vertical.component_count(), 2);
    let p = strict("10% top").unwrap();
    assert_eq!(p.horizontal.component_count(), 1);
    assert_eq!(p.vertical.component_count(), 1);
}

#[test]
fn computed_values() {
    let center: HorizontalPosition = PositionComponent::Center;
    assert_eq!(center.to_computed_value(), ComputedLengthPercentage::Percentage(BITS_HALF));
    let left: HorizontalPosition = PositionComponent::Side(HorizontalPositionKeyword::Left, None);
    assert_eq!(left.to_computed_value(), ComputedLengthPercentage::Percentage(BITS_ZERO));
    let bottom: VerticalPosition = PositionComponent::Side(VerticalPositionKeyword::Bottom, None);
    assert_eq!(bottom.to_computed_value(), ComputedLengthPercentage::Percentage(BITS_ONE));
    let top: VerticalPosition =
        PositionComponent::Side(VerticalPositionKeyword::Top, Some(px(3.0, "3px")));
    assert_eq!(top.to_computed_value(), ComputedLengthPercentage::Specified(px(3.0, "3px")));
    let right: HorizontalPosition =
        PositionComponent::Side(HorizontalPositionKeyword::Right, Some(px(3.0, "3px")));
    assert_eq!(
        right.to_computed_value(),
        ComputedLengthPercentage::HundredPercentMinus(px(3.0, "3px"))
    );
    let length: VerticalPosition = PositionComponent::Length(percent(0.25, "25%"));
    assert_eq!(
        length.to_computed_value(),
        ComputedLengthPercentage::Specified(percent(0.25, "25%"))
    );
    assert_eq!(BITS_ZERO, 0.0f32.to_bits());
    assert_eq!(BITS_ONE, 1.0f32.to_bits());
}

#[test]
fn sides_and_initial_values() {
    assert_eq!(HorizontalPositionKeyword::start(), HorizontalPositionKeyword::Left);
    assert_eq!(VerticalPositionKeyword::start(), VerticalPositionKeyword::Top);
    assert!(HorizontalPositionKeyword::Left.is_start());
    assert!(!HorizontalPositionKeyword::Right.is_start());
    assert!(VerticalPositionKeyword::Top.is_start());
    assert!(!VerticalPositionKeyword::Bottom.is_start());
    assert_eq!(HorizontalPositionKeyword::Right.keyword(), "right");
    assert_eq!(VerticalPositionKeyword::Bottom.keyword(), "bottom");
    assert_eq!(
        HorizontalPosition::initial_specified_value(),
        PositionComponent::Side(HorizontalPositionKeyword::Left, None)
    );
    assert_eq!(
        VerticalPosition::initial_specified_value(),
        PositionComponent::Side(VerticalPositionKeyword::Top, None)
    );
    let zero = HorizontalPosition::zero();
    assert_eq!(zero, PositionComponent::Length(percent(0.0, "0%")));
    assert_eq!(zero.to_css(), "0%");
    assert!(!zero.is_center());
}

#[test]
fn hand_written_tokens_parse_like_text() {
    let tokens = vec![
        Token::Ident("Right".to_string()),
        Token::Dimension(numeric(10.0, "10px"), "px".to_string()),
        Token::Ident("bottom".to_string()),
        Token::Percentage(numeric(0.2, "20%")),
        Token::Comma,
    ];
    let mut input = Cursor::from_tokens(tokens);
    let p = Position::parse(&mut input).unwrap();
    assert_eq!(p.to_css(), "right 10px bottom 20%");
    assert_eq!(input.mark(), 4);
    assert!(!input.is_exhausted());
    assert_eq!(input.next(), Some(Token::Comma));
    assert_eq!(input.next(), None);
    assert!(input.is_exhausted());
    input.reset(2);
    assert_eq!(input.next(), Some(Token::Ident("bottom".to_string())));
}

#[test]
fn blocks_and_functions_are_one_token() {
    let mut input = cursor("calc(1px + 2px) center");
    assert_eq!(input.next(), Some(Token::Other));
    assert_eq!(input.next(), Some(Token::Ident("center".to_string())));
    assert_eq!(input.next(), None);
    assert_eq!(strict("calc(1px + 2px) center"), Err(ParseFailure::Grammar));
}

#[test]
fn comments_and_spaces_are_no_tokens() {
    let p = strict("  left /* x */ 10px\n top\t20px ").unwrap();
    assert_eq!(p.to_css(), "left 10px top 20px");
}

#[test]
fn length_units() {
    for (text, unit) in [
        ("1px", LengthUnit::Px),
        ("1in", LengthUnit::In),
        ("1cm", LengthUnit::Cm),
        ("1mm", LengthUnit::Mm),
        ("1q", LengthUnit::Q),
        ("1pt", LengthUnit::Pt),
        ("1pc", LengthUnit::Pc),
        ("1em", LengthUnit::Em),
        ("1rem", LengthUnit::Rem),
        ("1ex", LengthUnit::Ex),
        ("1ch", LengthUnit::Ch),
        ("1vw", LengthUnit::Vw),
        ("1vh", LengthUnit::Vh),
        ("1vmin", LengthUnit::Vmin),
        ("1vmax", LengthUnit::Vmax),
    ] {
        let lp = LengthPercentage::parse_quirky(&mut cursor(text), false).unwrap();
        assert_eq!(lp, LengthPercentage::Length(numeric(1.0, text), unit));
        assert_eq!(lp.to_css(), text);
    }
    assert_eq!(LengthUnit::from_name("REM"), Some(LengthUnit::Rem));
    assert_eq!(LengthUnit::from_name("deg"), None);
    assert_eq!(
        LengthPercentage::parse_quirky(&mut cursor("1deg"), true),
        Err(ParseFailure::Grammar)
    );
    assert_eq!(
        LengthPercentage::parse_quirky(&mut cursor("center"), true),
        Err(ParseFailure::Grammar)
    );
}
