use css_position::aspect_ratio::{try_delim, try_non_negative_number, AspectRatio, Ratio};
use css_position::cursor::Cursor;
use css_position::error::ParseFailure;
use css_position::token::{is_non_negative, is_zero, Numeric};
use cssparser::Parser;

fn cursor(text: &str) -> Cursor<'_> {
    Cursor::new(Parser::new(text))
}

fn parse(text: &str) -> Result<AspectRatio, ParseFailure> {
    AspectRatio::parse(&mut cursor(text))
}

fn number(value: f32, text: &str) -> Numeric {
    Numeric { bits: value.to_bits(), text: text.to_string() }
}

#[test]
fn auto_ratio_or_both_in_either_order() {
    assert_eq!(parse("auto"), Ok(AspectRatio { auto: true, ratio: None }));
    let half = Ratio { width: number(1.0, "1"), height: Some(number(2.0, "2")) };
    assert_eq!(
        parse("1 / 2"),
        Ok(AspectRatio {
            auto: false,
            ratio: Some(Ratio { width: number(1.0, "1"), height: Some(number(2.0, "2")) })
        })
    );
    let both = parse("auto 1/2").unwrap();
    assert!(both.auto);
    assert_eq!(both.ratio, Some(half));
    assert_eq!(parse("1/2 auto"), Ok(both));
}

#[test]
fn nothing_is_refused() {
    assert_eq!(parse(""), Err(ParseFailure::Unspecified));
    assert_eq!(parse("  \n "), Err(ParseFailure::Unspecified));
    assert_eq!(parse("none"), Err(ParseFailure::Unspecified));
    assert_eq!(parse("/ 2"), Err(ParseFailure::Unspecified));
}

#[test]
fn single_number_is_a_ratio_to_one() {
    let value = parse("1.5").unwrap();
    assert_eq!(value.ratio, Some(Ratio { width: number(1.5, "1.5"), height: None }));
    assert!(!value.auto);
    assert_eq!(value.to_css(), "1.5 / 1");
    assert_eq!(parse("AUTO 3").unwrap().to_css(), "auto 3 / 1");
}

#[test]
fn negative_numbers_are_no_ratio() {
    assert_eq!(parse("-1 / 2"), Err(ParseFailure::Unspecified));
    assert_eq!(parse("-1"), Err(ParseFailure::Unspecified));
    let mut input = cursor("auto -1");
    assert_eq!(AspectRatio::parse(&mut input), Ok(AspectRatio { auto: true, ratio: None }));
    assert_eq!(input.mark(), 1);
    assert!(parse("0 / 0").is_ok());
    assert!(parse("-0 / 1").is_ok());
}

#[test]
fn slash_without_height_is_no_ratio() {
    let mut input = cursor("1 /");
    assert_eq!(AspectRatio::parse(&mut input), Err(ParseFailure::Unspecified));
    assert_eq!(input.mark(), 0);
    let mut input = cursor("1 / auto");
    assert_eq!(AspectRatio::parse(&mut input), Err(ParseFailure::Unspecified));
    assert_eq!(input.mark(), 0);
    let mut input = cursor("auto 1 / -2");
    assert_eq!(AspectRatio::parse(&mut input), Ok(AspectRatio { auto: true, ratio: None }));
    assert_eq!(input.mark(), 1);
    assert_eq!(Ratio::parse(&mut cursor("1 / x")), Err(ParseFailure::Grammar));
    assert_eq!(Ratio::parse(&mut cursor("1px")), Err(ParseFailure::Grammar));
}

#[test]
fn auto_is_taken_once() {
    let mut input = cursor("auto auto");
    assert_eq!(AspectRatio::parse(&mut input), Ok(AspectRatio { auto: true, ratio: None }));
    assert_eq!(input.mark(), 1);
    let mut input = cursor("auto 16/9 auto");
    let value = AspectRatio::parse(&mut input).unwrap();
    assert_eq!(input.mark(), 4);
    assert_eq!(value.to_css(), "auto 16 / 9");
}

#[test]
fn texts_come_back() {
    for text in ["auto", "1 / 2", "auto 1 / 2", "16 / 9", "0.5 / 1"] {
        let value = parse(text).unwrap();
        assert_eq!(value.to_css(), text);
        assert_eq!(parse(&value.to_css()), Ok(value));
    }
    assert_eq!(parse("1/2 auto").unwrap().to_css(), "auto 1 / 2");
    assert_eq!(AspectRatio { auto: false, ratio: None }.to_css(), "");
}

#[test]
fn single_tokens() {
    let mut input = cursor("3 / x");
    assert_eq!(try_non_negative_number(&mut input), Some(number(3.0, "3")));
    assert!(!try_delim(&mut input, '*'));
    assert!(try_delim(&mut input, '/'));
    assert_eq!(try_non_negative_number(&mut input), None);
    assert!(!try_delim(&mut input, '/'));
    assert_eq!(input.mark(), 2);
}

#[test]
fn comparisons_with_zero_go_by_the_value() {
    assert!(is_zero(0.0f32.to_bits()));
    assert!(is_zero((-0.0f32).to_bits()));
    assert!(!is_zero(1.0e-30f32.to_bits()));
    assert!(!is_zero(f32::NAN.to_bits()));
    for value in [0.0f32, -0.0, 1.0, 0.5, f32::MAX, f32::INFINITY, f32::MIN_POSITIVE] {
        assert!(is_non_negative(value.to_bits()));
    }
    for value in [-1.0f32, -f32::MIN_POSITIVE, f32::NEG_INFINITY, f32::NAN, -f32::NAN] {
        assert!(!is_non_negative(value.to_bits()));
    }
}
