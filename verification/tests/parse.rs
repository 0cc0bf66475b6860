use show_enum::grammar::MAX_VARIANTS;
use show_enum::parser::{CEnum, EnumError};
use show_enum::source::Source;

fn names(list: &[&str]) -> Vec<String> {
    list.iter().map(|name| name.to_string()).collect()
}

fn numbered(count: usize) -> String {
    let list: Vec<String> = (0..count).map(|i| format!("V{}", i)).collect();
    format!("enum Big {{ {} }} Big;", list.join(", "))
}

#[test]
fn parses_tag_variants_and_alias() {
    let decl = CEnum::parse("enum T { A, B, C } Alias;").unwrap();
    assert_eq!(decl.tag(), "T");
    assert_eq!(decl.alias(), "Alias");
    assert_eq!(decl.variants(), names(&["A", "B", "C"]));
}

#[test]
fn parses_anonymous_enum() {
    let decl = CEnum::parse("enum { X, Y };").unwrap();
    assert_eq!(decl.tag(), "");
    assert_eq!(decl.alias(), "");
    assert_eq!(decl.variants(), names(&["X", "Y"]));
}

#[test]
fn accepts_typedef_prefix() {
    let decl = CEnum::parse("typedef enum Color { RED, GREEN } Color;").unwrap();
    assert_eq!(decl.tag(), "Color");
    assert_eq!(decl.alias(), "Color");
    assert_eq!(decl.variants(), names(&["RED", "GREEN"]));
}

#[test]
fn typedef_prefix_changes_nothing() {
    let with = CEnum::parse("typedef enum Color { RED, GREEN } Color;").unwrap();
    let without = CEnum::parse("enum Color { RED, GREEN } Color;").unwrap();
    assert_eq!(with, without);
}

#[test]
fn accepts_trailing_comma() {
    let with = CEnum::parse("enum E { A, B, };").unwrap();
    let without = CEnum::parse("enum E { A, B };").unwrap();
    assert_eq!(with, without);
    assert_eq!(with.tag(), "E");
    assert_eq!(with.alias(), "");
    assert_eq!(with.variants(), names(&["A", "B"]));
}

#[test]
fn accepts_tabs_and_newlines() {
    let decl = CEnum::parse("\n\ttypedef\tenum\nShape\n{\n\tCIRCLE,\n\tSQUARE,\n}\nShape;\n").unwrap();
    assert_eq!(decl.tag(), "Shape");
    assert_eq!(decl.alias(), "Shape");
    assert_eq!(decl.variants(), names(&["CIRCLE", "SQUARE"]));
}

#[test]
fn accepts_tag_next_to_brace() {
    let decl = CEnum::parse("enum T{ A } U;").unwrap();
    assert_eq!(decl.tag(), "T");
    assert_eq!(decl.alias(), "U");
    assert_eq!(decl.variants(), names(&["A"]));
}

#[test]
fn accepts_empty_list() {
    let decl = CEnum::parse("enum T { } U;").unwrap();
    assert_eq!(decl.tag(), "T");
    assert_eq!(decl.alias(), "U");
    assert!(decl.variants().is_empty());
}

#[test]
fn accepts_non_ascii_names() {
    let decl = CEnum::parse("enum Größe { KLEIN, GROß } Maß;").unwrap();
    assert_eq!(decl.tag(), "Größe");
    assert_eq!(decl.alias(), "Maß");
    assert_eq!(decl.variants(), names(&["KLEIN", "GROß"]));
}

#[test]
fn alias_stops_at_semicolon_or_blank() {
    assert_eq!(CEnum::parse("enum T { A } Name ;").unwrap().alias(), "Name");
    assert_eq!(CEnum::parse("enum T { A } Name").unwrap().alias(), "Name");
    assert_eq!(CEnum::parse("enum T { A } Name;rest").unwrap().alias(), "Name");
}

#[test]
fn carriage_return_is_no_blank() {
    let decl = CEnum::parse("enum T { A } U\r;").unwrap();
    assert_eq!(decl.alias(), "U\r");
}

#[test]
fn enumerator_runs_up_to_blank_or_comma_only() {
    let err = CEnum::parse("enum T {A,B}").unwrap_err();
    assert_eq!(
        err,
        EnumError::MalformedDeclaration { expected: "}".to_string(), found: "".to_string() }
    );
}

#[test]
fn empty_enumerator_before_comma_is_kept() {
    let decl = CEnum::parse("enum T { A,, B } U;").unwrap();
    assert_eq!(decl.variants(), names(&["A", "", "B"]));
}

#[test]
fn list_that_breaks_off_is_taken_as_it_stands() {
    let err = CEnum::parse("enum T { A B } U;").unwrap_err();
    assert_eq!(
        err,
        EnumError::MalformedDeclaration { expected: "}".to_string(), found: "B } U;".to_string() }
    );
}

#[test]
fn missing_brace_names_the_brace() {
    let err = CEnum::parse("enum Status OK, FAIL };").unwrap_err();
    assert_eq!(
        err,
        EnumError::MalformedDeclaration {
            expected: "{".to_string(),
            found: "OK, FAIL };".to_string()
        }
    );
}

#[test]
fn missing_keyword_names_the_keyword() {
    let err = CEnum::parse("struct S { int a; };").unwrap_err();
    assert_eq!(
        err,
        EnumError::MalformedDeclaration {
            expected: "enum".to_string(),
            found: "struct S { int a; };".to_string()
        }
    );
}

#[test]
fn missing_closing_brace_names_it() {
    let err = CEnum::parse("enum T { A, B").unwrap_err();
    assert_eq!(
        err,
        EnumError::MalformedDeclaration { expected: "}".to_string(), found: "".to_string() }
    );
}

#[test]
fn empty_text_lacks_the_keyword() {
    let err = CEnum::parse("").unwrap_err();
    assert_eq!(
        err,
        EnumError::MalformedDeclaration { expected: "enum".to_string(), found: "".to_string() }
    );
}

#[test]
fn blank_text_is_reported_from_its_start() {
    let err = CEnum::parse("  \n").unwrap_err();
    assert_eq!(
        err,
        EnumError::MalformedDeclaration { expected: "enum".to_string(), found: "  \n".to_string() }
    );
}

#[test]
fn capacity_is_fifty() {
    assert_eq!(MAX_VARIANTS, 50);
}

#[test]
fn full_capacity_parses() {
    let decl = CEnum::parse(&numbered(MAX_VARIANTS)).unwrap();
    assert_eq!(decl.variants().len(), MAX_VARIANTS);
    assert_eq!(decl.variants()[0], "V0");
    assert_eq!(decl.variants()[49], "V49");
    assert_eq!(decl.alias(), "Big");
}

#[test]
fn one_over_capacity_is_refused() {
    let err = CEnum::parse(&numbered(MAX_VARIANTS + 1)).unwrap_err();
    assert_eq!(err, EnumError::VariantCapacityExceeded);
}

#[test]
fn capacity_is_checked_before_the_closing_brace() {
    let list: Vec<String> = (0..60).map(|i| format!("V{}", i)).collect();
    let err = CEnum::parse(&format!("enum Big {{ {}", list.join(", "))).unwrap_err();
    assert_eq!(err, EnumError::VariantCapacityExceeded);
}

#[test]
fn skip_ws_stops_at_first_character() {
    let source = Source::new("ab  \t\ncd  ");
    assert_eq!(CEnum::skip_ws(&source, 0), 0);
    assert_eq!(CEnum::skip_ws(&source, 2), 6);
    assert_eq!(CEnum::skip_ws(&source, 4), 6);
    assert_eq!(CEnum::skip_ws(&source, 6), 6);
}

#[test]
fn skip_ws_stays_where_only_blanks_are_left() {
    let source = Source::new("ab  \t\ncd  ");
    assert_eq!(CEnum::skip_ws(&source, 8), 8);
    assert_eq!(CEnum::skip_ws(&source, 9), 9);
    assert_eq!(CEnum::skip_ws(&source, 10), 10);
    assert_eq!(CEnum::skip_ws(&source, 40), 40);
}

#[test]
fn expect_steps_over_the_literal() {
    let source = Source::new("  enum T");
    assert_eq!(CEnum::expect(&source, 2, "enum"), Ok(6));
    assert_eq!(
        CEnum::expect(&source, 0, "enum"),
        Err(EnumError::MalformedDeclaration {
            expected: "enum".to_string(),
            found: "  enum T".to_string()
        })
    );
    assert_eq!(
        CEnum::expect(&source, 5, "mTx"),
        Err(EnumError::MalformedDeclaration { expected: "mTx".to_string(), found: "m T".to_string() })
    );
    assert_eq!(
        CEnum::expect(&source, 9, "enum"),
        Err(EnumError::MalformedDeclaration { expected: "enum".to_string(), found: "".to_string() })
    );
}

#[test]
fn optional_steps_over_or_stays() {
    let source = Source::new("typedef enum");
    assert_eq!(CEnum::optional(&source, 0, "typedef"), 7);
    assert_eq!(CEnum::optional(&source, 1, "typedef"), 1);
    assert_eq!(CEnum::optional(&source, 8, "enum"), 12);
    assert_eq!(CEnum::optional(&source, 9, "enum"), 9);
    assert_eq!(CEnum::optional(&source, 12, ""), 12);
}

#[test]
fn scan_ident_stops_at_blank_or_delimiter() {
    let source = Source::new("abc{de f");
    assert_eq!(CEnum::scan_ident(&source, 0, '{'), 3);
    assert_eq!(CEnum::scan_ident(&source, 0, ','), 6);
    assert_eq!(CEnum::scan_ident(&source, 3, '{'), 3);
    assert_eq!(CEnum::scan_ident(&source, 7, '{'), 8);
    assert_eq!(CEnum::scan_ident(&source, 8, '{'), 8);
}

#[test]
fn parse_tag_gives_tag_and_position() {
    let source = Source::new("typedef enum Color { RED }");
    assert_eq!(CEnum::parse_tag(&source, 0), Ok(("Color".to_string(), 18)));
    let anonymous = Source::new("enum { X }");
    assert_eq!(CEnum::parse_tag(&anonymous, 0), Ok(("".to_string(), 5)));
}

#[test]
fn parse_fields_gives_list_and_position() {
    let source = Source::new("enum E { A, B, } E;");
    assert_eq!(CEnum::parse_fields(&source, 6), Ok((names(&["A", "B"]), 15)));
    let plain = Source::new("enum E { A, B } E;");
    assert_eq!(CEnum::parse_fields(&plain, 6), Ok((names(&["A", "B"]), 14)));
}

#[test]
fn parse_alias_reads_behind_the_brace() {
    assert_eq!(CEnum::parse_alias("enum E { A } Name;", 11), Ok("Name".to_string()));
    assert_eq!(CEnum::parse_alias("enum E { A } Name;", 10), Ok("Name".to_string()));
    assert_eq!(CEnum::parse_alias("};", 0), Ok("".to_string()));
    assert_eq!(
        CEnum::parse_alias("enum E { A } Name;", 12),
        Err(EnumError::MalformedDeclaration {
            expected: "}".to_string(),
            found: "Name;".to_string()
        })
    );
    assert_eq!(
        CEnum::parse_alias("}", 7),
        Err(EnumError::MalformedDeclaration { expected: "}".to_string(), found: "".to_string() })
    );
}

#[test]
fn source_holds_the_characters() {
    let source = Source::new("aßc");
    assert_eq!(source.len(), 3);
    assert_eq!(source.at(1), 'ß');
    assert_eq!(source.slice(1, 3), "ßc");
    assert_eq!(source.slice(2, 2), "");
}
