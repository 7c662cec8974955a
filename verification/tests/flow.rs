use css_position::cursor::Cursor;
use css_position::error::ParseFailure;
use css_position::flow::{
    classify_flow_word, classify_masonry_word, is_item_order_definite_first,
    is_pack_with_non_default_order, FlowWord, GridAutoFlow, MasonryAutoFlow, MasonryItemOrder,
    MasonryPlacement, MasonryWord, COLUMN, DENSE, ROW,
};
use css_position::token::Token;
use cssparser::Parser;

fn cursor(text: &str) -> Cursor<'_> {
    Cursor::new(Parser::new(text))
}

fn grid(text: &str) -> Result<u8, ParseFailure> {
    GridAutoFlow::parse(&mut cursor(text)).map(|flow| flow.bits())
}

fn masonry(text: &str) -> Result<MasonryAutoFlow, ParseFailure> {
    MasonryAutoFlow::parse(&mut cursor(text))
}

#[test]
fn grid_auto_flow_keywords() {
    assert_eq!(grid("row dense"), Ok(ROW | DENSE));
    assert_eq!(grid("column"), Ok(COLUMN));
    assert_eq!(grid("dense"), Ok(ROW | DENSE));
    assert_eq!(grid("row"), Ok(ROW));
    assert_eq!(grid("dense row"), Ok(ROW | DENSE));
    assert_eq!(grid("column dense"), Ok(COLUMN | DENSE));
    assert_eq!(grid("dense column"), Ok(COLUMN | DENSE));
    assert_eq!(grid("DENSE Column"), Ok(COLUMN | DENSE));
}

#[test]
fn grid_auto_flow_refuses_row_with_column() {
    assert_eq!(grid("row column"), Err(ParseFailure::Grammar));
    assert_eq!(grid("column row"), Err(ParseFailure::Grammar));
}

#[test]
fn grid_auto_flow_refuses_a_keyword_twice() {
    assert_eq!(grid("row row"), Err(ParseFailure::Grammar));
    assert_eq!(grid("dense dense"), Err(ParseFailure::Grammar));
    assert_eq!(grid("row dense row"), Err(ParseFailure::Grammar));
    assert_eq!(grid("row dense dense"), Err(ParseFailure::Grammar));
}

#[test]
fn grid_auto_flow_refuses_what_is_no_keyword() {
    assert_eq!(grid("rows"), Err(ParseFailure::Grammar));
    assert_eq!(grid("row 1"), Err(ParseFailure::Grammar));
    assert_eq!(grid("row, dense"), Err(ParseFailure::Grammar));
    assert_eq!(grid("10px"), Err(ParseFailure::Grammar));
}

#[test]
fn grid_auto_flow_refuses_nothing() {
    assert_eq!(grid(""), Err(ParseFailure::Unspecified));
    assert_eq!(grid("  /* */ "), Err(ParseFailure::Unspecified));
}

#[test]
fn grid_auto_flow_consumes_all_or_nothing() {
    let mut input = cursor("dense column");
    assert!(GridAutoFlow::parse(&mut input).is_ok());
    assert_eq!(input.mark(), 2);
    let mut input = cursor("dense column row");
    assert!(GridAutoFlow::parse(&mut input).is_err());
    assert_eq!(input.mark(), 0);
}

#[test]
fn grid_auto_flow_text() {
    assert_eq!(GridAutoFlow::row().to_css(), "row");
    assert_eq!(GridAutoFlow::column().to_css(), "column");
    assert_eq!(GridAutoFlow::row().union(GridAutoFlow::dense()).to_css(), "dense");
    assert_eq!(GridAutoFlow::column().union(GridAutoFlow::dense()).to_css(), "column dense");
    assert_eq!(GridAutoFlow::dense().to_css(), "");
    assert_eq!(GridAutoFlow::row().union(GridAutoFlow::column()).to_css(), "");
    assert_eq!(GridAutoFlow::empty().to_css(), "");
    for text in ["row", "column", "dense", "column dense"] {
        assert_eq!(GridAutoFlow::parse(&mut cursor(text)).unwrap().to_css(), text);
    }
}

#[test]
fn grid_auto_flow_flags() {
    assert!(GridAutoFlow::empty().is_empty());
    assert!(!GridAutoFlow::row().is_empty());
    assert_eq!(GridAutoFlow::row().bits(), 1);
    assert_eq!(GridAutoFlow::column().bits(), 2);
    assert_eq!(GridAutoFlow::dense().bits(), 4);
    let both = GridAutoFlow::column().union(GridAutoFlow::dense());
    assert_eq!(both.bits(), 6);
    assert!(both.contains(GridAutoFlow::dense()));
    assert!(both.contains(GridAutoFlow::column()));
    assert!(!both.contains(GridAutoFlow::row()));
    assert_eq!(GridAutoFlow::from_bits_truncate(0xFF), both.union(GridAutoFlow::row()));
    assert_eq!(GridAutoFlow::from_bits_truncate(0xFA).bits(), 2);
    assert_eq!(GridAutoFlow::from_bits_truncate(5).to_css(), "dense");
}

#[test]
fn flow_words() {
    assert_eq!(classify_flow_word(&Token::Ident("Row".to_string())), Some(FlowWord::Row));
    assert_eq!(classify_flow_word(&Token::Ident("column".to_string())), Some(FlowWord::Column));
    assert_eq!(classify_flow_word(&Token::Ident("dense".to_string())), Some(FlowWord::Dense));
    assert_eq!(classify_flow_word(&Token::Ident("pack".to_string())), None);
    assert_eq!(classify_flow_word(&Token::QuotedString("row".to_string())), None);
    assert_eq!(
        classify_masonry_word(&Token::Ident("Definite-First".to_string())),
        Some(MasonryWord::Order(MasonryItemOrder::DefiniteFirst))
    );
    assert_eq!(
        classify_masonry_word(&Token::Ident("next".to_string())),
        Some(MasonryWord::Placement(MasonryPlacement::Next))
    );
    assert_eq!(classify_masonry_word(&Token::Comma), None);
}

#[test]
fn masonry_auto_flow_keywords() {
    let value = |placement, order| Ok(MasonryAutoFlow { placement, order });
    assert_eq!(masonry("pack"), value(MasonryPlacement::Pack, MasonryItemOrder::DefiniteFirst));
    assert_eq!(masonry("next"), value(MasonryPlacement::Next, MasonryItemOrder::DefiniteFirst));
    assert_eq!(masonry("ordered"), value(MasonryPlacement::Pack, MasonryItemOrder::Ordered));
    assert_eq!(
        masonry("definite-first"),
        value(MasonryPlacement::Pack, MasonryItemOrder::DefiniteFirst)
    );
    assert_eq!(masonry("next ordered"), value(MasonryPlacement::Next, MasonryItemOrder::Ordered));
    assert_eq!(masonry("ordered next"), value(MasonryPlacement::Next, MasonryItemOrder::Ordered));
    assert_eq!(
        masonry("definite-first NEXT"),
        value(MasonryPlacement::Next, MasonryItemOrder::DefiniteFirst)
    );
    assert_eq!(masonry("pack ordered"), value(MasonryPlacement::Pack, MasonryItemOrder::Ordered));
}

#[test]
fn masonry_auto_flow_failures() {
    assert_eq!(masonry(""), Err(ParseFailure::Unspecified));
    assert_eq!(masonry("pack next"), Err(ParseFailure::Grammar));
    assert_eq!(masonry("pack pack"), Err(ParseFailure::Grammar));
    assert_eq!(masonry("ordered definite-first"), Err(ParseFailure::Grammar));
    assert_eq!(masonry("next ordered pack"), Err(ParseFailure::Grammar));
    assert_eq!(masonry("row"), Err(ParseFailure::Grammar));
    assert_eq!(masonry("next 1"), Err(ParseFailure::Grammar));
    let mut input = cursor("next ordered pack");
    assert!(MasonryAutoFlow::parse(&mut input).is_err());
    assert_eq!(input.mark(), 0);
}

#[test]
fn masonry_auto_flow_text() {
    assert_eq!(MasonryAutoFlow::initial().to_css(), "pack");
    for text in ["pack", "next", "ordered", "next ordered"] {
        assert_eq!(masonry(text).unwrap().to_css(), text);
    }
    assert_eq!(masonry("pack ordered").unwrap().to_css(), "ordered");
    assert_eq!(masonry("definite-first next").unwrap().to_css(), "next");
    assert_eq!(masonry("definite-first").unwrap().to_css(), "pack");
}

#[test]
fn masonry_initial_value_and_skips() {
    let initial = MasonryAutoFlow::initial();
    assert_eq!(initial.placement, MasonryPlacement::Pack);
    assert_eq!(initial.order, MasonryItemOrder::DefiniteFirst);
    assert!(is_item_order_definite_first(&MasonryItemOrder::DefiniteFirst));
    assert!(!is_item_order_definite_first(&MasonryItemOrder::Ordered));
    assert!(is_pack_with_non_default_order(&MasonryPlacement::Pack, &MasonryItemOrder::Ordered));
    assert!(!is_pack_with_non_default_order(
        &MasonryPlacement::Pack,
        &MasonryItemOrder::DefiniteFirst
    ));
    assert!(!is_pack_with_non_default_order(&MasonryPlacement::Next, &MasonryItemOrder::Ordered));
}
