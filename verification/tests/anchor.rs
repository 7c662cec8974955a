use css_position::anchor::{
    comma_list_to_css, parse_dashed_list, try_comma, try_dashed_ident, AnchorName, AnchorScope,
    DashedIdent,
};
use css_position::cursor::Cursor;
use css_position::error::ParseFailure;
use cssparser::Parser;

fn cursor(text: &str) -> Cursor<'_> {
    Cursor::new(Parser::new(text))
}

fn names(value: &AnchorName) -> Vec<String> {
    (0..value.len()).map(|i| value.get(i).as_str().to_string()).collect()
}

#[test]
fn anchor_name_none() {
    let value = AnchorName::parse(&mut cursor("none")).unwrap();
    assert!(value.is_none());
    assert_eq!(value, AnchorName::none());
    assert_eq!(value.len(), 0);
    assert_eq!(value.to_css(), "none");
    assert!(AnchorName::parse(&mut cursor("NONE")).unwrap().is_none());
}

#[test]
fn anchor_name_list() {
    let mut input = cursor("--a, --b ,--c d");
    let value = AnchorName::parse(&mut input).unwrap();
    assert!(!value.is_none());
    assert_eq!(names(&value), vec!["--a", "--b", "--c"]);
    assert_eq!(input.mark(), 5);
    assert_eq!(value.to_css(), "--a, --b, --c");
    assert_eq!(AnchorName::parse(&mut cursor(&value.to_css())), Ok(value));
}

#[test]
fn anchor_name_longer_than_the_inline_buffer() {
    let value = AnchorName::parse(&mut cursor("--a,--b,--c,--d,--e,--f,--g")).unwrap();
    assert_eq!(names(&value), vec!["--a", "--b", "--c", "--d", "--e", "--f", "--g"]);
    assert_eq!(value.to_css(), "--a, --b, --c, --d, --e, --f, --g");
}

#[test]
fn anchor_name_failures() {
    for text in ["", "a", "-a", "--a,", "--a, b", "--a, none", "all", "\"--a\"", ", --a", "7"] {
        let mut input = cursor(text);
        assert_eq!(AnchorName::parse(&mut input), Err(ParseFailure::Grammar));
        assert_eq!(input.mark(), 0);
    }
}

#[test]
fn anchor_name_stops_where_the_commas_stop() {
    let mut input = cursor("--a --b");
    let value = AnchorName::parse(&mut input).unwrap();
    assert_eq!(names(&value), vec!["--a"]);
    assert_eq!(input.mark(), 1);
}

#[test]
fn identifiers_are_written_escaped() {
    let value = AnchorName::parse(&mut cursor("--a\\ b, --\\31 x")).unwrap();
    assert_eq!(names(&value), vec!["--a b", "--1x"]);
    assert_eq!(value.to_css(), "--a\\ b, --1x");
    let ident = DashedIdent::from_ident("--x.y").unwrap();
    assert_eq!(ident.as_str(), "--x.y");
    assert_eq!(ident.to_css(), "--x\\.y");
}

#[test]
fn dashed_identifiers() {
    assert!(DashedIdent::from_ident("--a").is_ok());
    assert!(DashedIdent::from_ident("--").is_ok());
    assert!(DashedIdent::from_ident("--\u{e9}").is_ok());
    assert_eq!(DashedIdent::from_ident("-a"), Err(ParseFailure::Grammar));
    assert_eq!(DashedIdent::from_ident("a--"), Err(ParseFailure::Grammar));
    assert_eq!(DashedIdent::from_ident("-"), Err(ParseFailure::Grammar));
    assert_eq!(DashedIdent::from_ident(""), Err(ParseFailure::Grammar));
}

#[test]
fn anchor_scope_values() {
    assert_eq!(AnchorScope::parse(&mut cursor("none")), Ok(AnchorScope::NoScope));
    assert_eq!(AnchorScope::parse(&mut cursor("All")), Ok(AnchorScope::All));
    assert_eq!(AnchorScope::none(), AnchorScope::NoScope);
    assert!(AnchorScope::none().is_none());
    assert!(!AnchorScope::All.is_none());
    let value = AnchorScope::parse(&mut cursor("--a, --b")).unwrap();
    assert!(!value.is_none());
    assert_eq!(value.to_css(), "--a, --b");
    match &value {
        AnchorScope::Idents(idents) => {
            assert_eq!(idents.len(), 2);
            assert_eq!(idents[1].as_str(), "--b");
        }
        _ => panic!("identifiers were expected"),
    }
    assert_eq!(AnchorScope::NoScope.to_css(), "none");
    assert_eq!(AnchorScope::All.to_css(), "all");
}

#[test]
fn anchor_scope_failures() {
    for text in ["", "auto", "--a,", "--a, all", "1"] {
        let mut input = cursor(text);
        assert_eq!(AnchorScope::parse(&mut input), Err(ParseFailure::Grammar));
        assert_eq!(input.mark(), 0);
    }
}

#[test]
fn list_pieces() {
    let mut input = cursor("--a , b");
    let first = try_dashed_ident(&mut input).unwrap();
    assert_eq!(first.as_str(), "--a");
    assert!(try_dashed_ident(&mut input).is_none());
    assert!(try_comma(&mut input));
    assert!(!try_comma(&mut input));
    assert!(try_dashed_ident(&mut input).is_none());
    assert_eq!(input.mark(), 2);
    let slice = parse_dashed_list(&mut cursor("--x,--y")).unwrap();
    assert_eq!(slice.len(), 2);
    assert_eq!(comma_list_to_css(&slice), "--x, --y");
    assert_eq!(parse_dashed_list(&mut cursor("none")).unwrap_err(), ParseFailure::Grammar);
}
