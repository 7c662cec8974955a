use css_position::cursor::Cursor;
use css_position::error::ParseFailure;
use css_position::grid::{
    find_area, scan_step, GridTemplateAreas, NamedArea, ScanState, TemplateAreas,
    TemplateAreasArc, TemplateAreasParser, UnsignedRange, MAX_CELLS,
};
use css_position::grid_cells::{
    chars_of, is_html_space, is_name_code_point, next_cell, scan_run, tokenize, CharClass,
    NextCell,
};
use cssparser::Parser;

fn cursor(text: &str) -> Cursor<'_> {
    Cursor::new(Parser::new(text))
}

fn area(name: &str, rows: (u32, u32), columns: (u32, u32)) -> NamedArea {
    NamedArea {
        name: name.to_string(),
        rows: UnsignedRange { start: rows.0, end: rows.1 },
        columns: UnsignedRange { start: columns.0, end: columns.1 },
    }
}

fn merge(rows: &[&str]) -> Result<TemplateAreas, ParseFailure> {
    let mut parser = TemplateAreasParser::default();
    for row in rows {
        parser.parse_string(row)?;
    }
    parser.finish()
}

#[test]
fn three_rows_make_three_areas() {
    let areas = merge(&["a a b", "a a b", "c c c"]).unwrap();
    assert_eq!(
        areas.areas,
        vec![area("a", (1, 3), (1, 3)), area("b", (1, 3), (3, 4)), area("c", (3, 4), (1, 4))]
    );
    assert_eq!(areas.width, 3);
    assert_eq!(areas.strings, vec!["a a b", "a a b", "c c c"]);
}

#[test]
fn area_that_comes_back_elsewhere_fails() {
    assert_eq!(merge(&["a b", "b a"]), Err(ParseFailure::Unspecified));
}

#[test]
fn rows_of_different_width_fail() {
    assert_eq!(merge(&["a a", "b"]), Err(ParseFailure::Unspecified));
    assert_eq!(merge(&["a", "b b"]), Err(ParseFailure::Unspecified));
}

#[test]
fn failed_row_leaves_the_merger_as_it_was() {
    let mut parser = TemplateAreasParser::default();
    assert_eq!(parser.parse_string("a b"), Ok(()));
    assert_eq!(parser.parse_string("b a"), Err(ParseFailure::Unspecified));
    assert_eq!(parser.parse_string("a !"), Err(ParseFailure::Tokenization));
    assert_eq!(parser.parse_string("a b"), Ok(()));
    let areas = parser.finish().unwrap();
    assert_eq!(areas.areas, vec![area("a", (1, 3), (1, 2)), area("b", (1, 3), (2, 3))]);
    assert_eq!(areas.strings, vec!["a b", "a b"]);
    assert_eq!(areas.width, 2);
}

#[test]
fn no_row_fails() {
    assert_eq!(TemplateAreasParser::default().finish(), Err(ParseFailure::Unspecified));
}

#[test]
fn row_without_cell_fails() {
    assert_eq!(merge(&[""]), Err(ParseFailure::Unspecified));
    assert_eq!(merge(&[" \t\n"]), Err(ParseFailure::Unspecified));
    assert_eq!(merge(&["a", ""]), Err(ParseFailure::Unspecified));
}

#[test]
fn bad_character_is_a_tokenization_failure() {
    assert_eq!(merge(&["a ! b"]), Err(ParseFailure::Tokenization));
    assert_eq!(merge(&["a,b"]), Err(ParseFailure::Tokenization));
    assert_eq!(merge(&["a\u{0B}b"]), Err(ParseFailure::Tokenization));
}

#[test]
fn null_cells_belong_to_no_area() {
    let areas = merge(&[". a .", "... a ."]).unwrap();
    assert_eq!(areas.areas, vec![area("a", (1, 3), (2, 3))]);
    assert_eq!(areas.strings, vec![". a .", ". a ."]);
    assert_eq!(areas.width, 3);
}

#[test]
fn only_null_cells() {
    let areas = merge(&[". .", ".. ...."]).unwrap();
    assert_eq!(areas.areas, vec![]);
    assert_eq!(areas.strings, vec![". .", ". ."]);
    assert_eq!(areas.width, 2);
}

#[test]
fn strings_are_normalized() {
    let areas = merge(&["  head   head head\t\r\n", "nav....main"]).unwrap();
    assert_eq!(areas.strings, vec!["head head head", "nav . main"]);
    assert_eq!(merge(&["a.b"]).unwrap().strings, vec!["a . b"]);
}

#[test]
fn shapes_that_are_no_rectangle_fail() {
    assert_eq!(merge(&["a . a"]), Err(ParseFailure::Unspecified));
    assert_eq!(merge(&["a b a"]), Err(ParseFailure::Unspecified));
    assert_eq!(merge(&["a a", "a ."]), Err(ParseFailure::Unspecified));
    assert_eq!(merge(&["a a", ". a"]), Err(ParseFailure::Unspecified));
    assert_eq!(merge(&["a .", "a a"]), Err(ParseFailure::Unspecified));
    assert_eq!(merge(&[". a", "a a"]), Err(ParseFailure::Unspecified));
    assert_eq!(merge(&["a a .", "a a a"]), Err(ParseFailure::Unspecified));
    assert_eq!(merge(&["a", "b", "a"]), Err(ParseFailure::Unspecified));
    assert_eq!(merge(&["a b", "a a"]), Err(ParseFailure::Unspecified));
    assert_eq!(merge(&["a a b", "a b b"]), Err(ParseFailure::Unspecified));
}

#[test]
fn rectangles_of_every_kind_pass() {
    let areas = merge(&["a b b", "a b b", "c c d"]).unwrap();
    assert_eq!(
        areas.areas,
        vec![
            area("a", (1, 3), (1, 2)),
            area("b", (1, 3), (2, 4)),
            area("c", (3, 4), (1, 3)),
            area("d", (3, 4), (3, 4)),
        ]
    );
    let areas = merge(&["x"]).unwrap();
    assert_eq!(areas.areas, vec![area("x", (1, 2), (1, 2))]);
    assert_eq!(areas.width, 1);
}

#[test]
fn names_hold_name_code_points() {
    let areas = merge(&["Main-1 _x caf\u{e9} \u{4e2d}\u{6587}"]).unwrap();
    assert_eq!(areas.width, 4);
    assert_eq!(areas.areas[0].name, "Main-1");
    assert_eq!(areas.areas[1].name, "_x");
    assert_eq!(areas.areas[2].name, "caf\u{e9}");
    assert_eq!(areas.areas[3].name, "\u{4e2d}\u{6587}");
    assert_eq!(merge(&["a A"]).unwrap().areas.len(), 2);
}

#[test]
fn name_code_points() {
    for c in ['A', 'Z', 'a', 'z', '0', '9', '_', '-', '\u{80}', '\u{e9}', '\u{10FFFF}'] {
        assert!(is_name_code_point(c));
    }
    for c in ['.', ' ', '!', '@', '[', '`', '{', '/', ':', '\u{7f}', '\t'] {
        assert!(!is_name_code_point(c));
    }
}

#[test]
fn html_spaces() {
    for c in [' ', '\t', '\n', '\u{0C}', '\r'] {
        assert!(is_html_space(c));
    }
    for c in ['\u{0B}', '\u{A0}', 'a', '.'] {
        assert!(!is_html_space(c));
    }
}

#[test]
fn runs_are_taken_whole() {
    let chars = chars_of("  ...ab c");
    assert_eq!(chars, vec![' ', ' ', '.', '.', '.', 'a', 'b', ' ', 'c']);
    assert_eq!(scan_run(&chars, 0, CharClass::Space), 2);
    assert_eq!(scan_run(&chars, 2, CharClass::Dot), 5);
    assert_eq!(scan_run(&chars, 5, CharClass::Name), 7);
    assert_eq!(scan_run(&chars, 5, CharClass::Dot), 5);
    assert_eq!(scan_run(&chars, 8, CharClass::Name), 9);
    assert_eq!(scan_run(&chars, 9, CharClass::Name), 9);
}

#[test]
fn tokenizer_steps() {
    let row = " ..ab\u{e9}  !";
    let chars = chars_of(row);
    assert!(matches!(next_cell(row, &chars, 0), NextCell::Found(None, 3)));
    match next_cell(row, &chars, 3) {
        NextCell::Found(Some(name), 6) => assert_eq!(name, "ab\u{e9}"),
        _ => panic!("a name was expected"),
    }
    assert!(matches!(next_cell(row, &chars, 6), NextCell::Invalid));
    assert!(matches!(next_cell("a  ", &chars_of("a  "), 1), NextCell::End));
}

#[test]
fn tokenizer_splits_rows() {
    assert_eq!(
        tokenize("a..b  c-d"),
        Ok(vec![Some("a".to_string()), None, Some("b".to_string()), Some("c-d".to_string())])
    );
    assert_eq!(tokenize(""), Ok(vec![]));
    assert_eq!(tokenize("a ?"), Err(ParseFailure::Tokenization));
}

#[test]
fn lookup_finds_the_first_area_of_a_name() {
    let areas = vec![area("a", (1, 2), (1, 2)), area("b", (1, 2), (2, 3))];
    assert_eq!(find_area(&areas, &"b".to_string()), Some(1));
    assert_eq!(find_area(&areas, &"a".to_string()), Some(0));
    assert_eq!(find_area(&areas, &"c".to_string()), None);
}

#[test]
fn transitions_of_the_automaton() {
    let mut areas = vec![];
    let start = ScanState { open: None, column: 0 };
    let s1 = scan_step(&mut areas, start, 0, 1, &Some("a".to_string())).unwrap();
    assert_eq!(s1, ScanState { open: Some(0), column: 1 });
    assert_eq!(areas, vec![area("a", (1, 2), (1, 2))]);
    let s2 = scan_step(&mut areas, s1, 0, 1, &Some("a".to_string())).unwrap();
    assert_eq!(s2, ScanState { open: Some(0), column: 2 });
    assert_eq!(areas, vec![area("a", (1, 2), (1, 3))]);
    let s3 = scan_step(&mut areas, s2, 0, 1, &None).unwrap();
    assert_eq!(s3, ScanState { open: None, column: 3 });
    assert_eq!(scan_step(&mut areas, s3, 0, 1, &Some("a".to_string())), None);
    let t1 = scan_step(&mut areas, start, 3, 2, &Some("a".to_string())).unwrap();
    assert_eq!(t1, ScanState { open: Some(0), column: 1 });
    assert_eq!(areas, vec![area("a", (1, 3), (1, 3))]);
    assert_eq!(scan_step(&mut areas, t1, 3, 2, &None), None);
    let full = ScanState { open: None, column: MAX_CELLS };
    assert_eq!(scan_step(&mut areas, full, 3, 2, &None), None);
}

#[test]
fn strings_at_the_cursor_become_rows() {
    let mut input = cursor("\"a a b\" \"a a b\" 'c c c' 10px");
    let areas = TemplateAreas::parse(&mut input).unwrap();
    assert_eq!(
        areas.areas,
        vec![area("a", (1, 3), (1, 3)), area("b", (1, 3), (3, 4)), area("c", (3, 4), (1, 4))]
    );
    assert_eq!(areas.width, 3);
    assert_eq!(input.mark(), 3);
    assert_eq!(areas.to_css(), "\"a a b\" \"a a b\" \"c c c\"");
}

#[test]
fn bad_rows_at_the_cursor_fail_and_consume_nothing() {
    let mut input = cursor("\"a b\" \"b a\"");
    assert_eq!(TemplateAreas::parse(&mut input), Err(ParseFailure::Unspecified));
    assert_eq!(input.mark(), 0);
    let mut input = cursor("\"a a\" \"b\"");
    assert_eq!(TemplateAreas::parse(&mut input), Err(ParseFailure::Unspecified));
    assert_eq!(input.mark(), 0);
    let mut input = cursor("\"a\" \"#\"");
    assert_eq!(TemplateAreas::parse(&mut input), Err(ParseFailure::Tokenization));
    assert_eq!(input.mark(), 0);
    assert_eq!(TemplateAreas::parse(&mut cursor("a")), Err(ParseFailure::Unspecified));
    assert_eq!(TemplateAreas::parse(&mut cursor("")), Err(ParseFailure::Unspecified));
}

#[test]
fn one_string_at_a_time() {
    let mut input = cursor("\"a .\" b");
    let mut parser = TemplateAreasParser::default();
    assert_eq!(parser.try_parse_string(&mut input), Ok(()));
    assert_eq!(input.mark(), 1);
    assert_eq!(parser.try_parse_string(&mut input), Err(ParseFailure::Grammar));
    assert_eq!(input.mark(), 1);
    let mut input = cursor("\"a a .\"  \". . .\"");
    assert_eq!(parser.try_parse_string(&mut input), Err(ParseFailure::Unspecified));
    assert_eq!(input.mark(), 0);
    let areas = parser.finish().unwrap();
    assert_eq!(areas.strings, vec!["a ."]);
}

#[test]
fn shared_areas_are_the_areas() {
    let areas = merge(&["a b"]).unwrap();
    let shared = TemplateAreasArc::new(merge(&["a b"]).unwrap());
    assert_eq!(*shared.areas(), areas);
    let parsed = TemplateAreasArc::parse(&mut cursor("\"a   b\"")).unwrap();
    assert_eq!(parsed, shared);
    assert_eq!(parsed.areas().width, 2);
}

#[test]
fn grid_template_areas_values() {
    assert_eq!(GridTemplateAreas::none(), GridTemplateAreas::NoAreas);
    assert_eq!(GridTemplateAreas::parse(&mut cursor("NONE")), Ok(GridTemplateAreas::NoAreas));
    assert_eq!(GridTemplateAreas::none().to_css(), "none");
    let value = GridTemplateAreas::parse(&mut cursor("\"a\\\"b\" \".\"")).unwrap_err();
    assert_eq!(value, ParseFailure::Tokenization);
    let value = GridTemplateAreas::parse(&mut cursor("\"a  b\" \"a  .\"")).unwrap();
    assert_eq!(value.to_css(), "\"a b\" \"a .\"");
    match value {
        GridTemplateAreas::Areas(areas) => {
            assert_eq!(
                areas.areas().areas,
                vec![area("a", (1, 3), (1, 2)), area("b", (1, 2), (2, 3))]
            )
        }
        GridTemplateAreas::NoAreas => panic!("areas were expected"),
    }
    assert_eq!(GridTemplateAreas::parse(&mut cursor("auto")), Err(ParseFailure::Unspecified));
}

#[test]
fn normalized_strings_read_back_as_the_same_areas() {
    for rows in [
        vec!["  a   a ..", "a a\t."],
        vec!["head head", "nav main", "nav foot"],
        vec![".. ... .", ". x .", "..\n..\r.."],
        vec!["caf\u{e9}  _-_"],
    ] {
        let areas = merge(&rows).unwrap();
        let strings: Vec<&str> = areas.strings.iter().map(|s| s.as_str()).collect();
        assert_eq!(merge(&strings), Ok(areas));
    }
}

#[test]
fn refused_cell_leaves_the_areas_alone() {
    let mut areas = vec![area("a", (1, 2), (1, 3)), area("b", (1, 2), (3, 4))];
    let before = areas.clone();
    let second_row = ScanState { open: None, column: 1 };
    assert_eq!(scan_step(&mut areas, second_row, 3, 2, &Some("a".to_string())), None);
    assert_eq!(areas, before);
    let first_row = ScanState { open: Some(1), column: 3 };
    assert_eq!(scan_step(&mut areas, first_row, 0, 1, &Some("a".to_string())), None);
    assert_eq!(areas, before);
}
