use show_enum::parser::{CEnum, EnumError};
use show_enum::render::write_function;

#[test]
fn renders_status_end_to_end() {
    let decl = CEnum::parse("enum Status { OK, FAIL } Status;").unwrap();
    let expected = "const char *show_status(Status self) {\n    switch (self) {\n        case OK: return \"OK\";\n        case FAIL: return \"FAIL\";\n        default: return \"\";\n    }\n}";
    assert_eq!(decl.render().unwrap(), expected);
}

#[test]
fn uses_tag_where_alias_is_empty() {
    let decl = CEnum::parse("enum HttpCode { OK };").unwrap();
    assert_eq!(decl.display_name(), "HttpCode");
    let text = decl.render().unwrap();
    assert!(text.starts_with("const char *show_httpcode(HttpCode self) {\n"));
}

#[test]
fn prefers_alias_over_tag() {
    let decl = CEnum::parse("typedef enum color_e { RED } Color;").unwrap();
    assert_eq!(decl.display_name(), "Color");
    let text = decl.render().unwrap();
    assert!(text.starts_with("const char *show_color(Color self) {\n"));
}

#[test]
fn lowers_non_ascii_names() {
    let decl = CEnum::parse("enum ÄNDERUNG { NEU };").unwrap();
    let text = decl.render().unwrap();
    assert!(text.starts_with("const char *show_änderung(ÄNDERUNG self) {\n"));
}

#[test]
fn renders_empty_list_as_default_only() {
    let decl = CEnum::parse("enum Void { } Void;").unwrap();
    let expected = "const char *show_void(Void self) {\n    switch (self) {\n        default: return \"\";\n    }\n}";
    assert_eq!(decl.render().unwrap(), expected);
}

#[test]
fn refuses_to_render_without_a_name() {
    let decl = CEnum::parse("enum { X, Y };").unwrap();
    assert_eq!(decl.display_name(), "");
    assert_eq!(decl.render(), Err(EnumError::EmptyDisplayName));
}

#[test]
fn writes_function_from_its_parts() {
    let variants = vec!["A".to_string(), "B".to_string()];
    let expected = "const char *show_x(Y self) {\n    switch (self) {\n        case A: return \"A\";\n        case B: return \"B\";\n        default: return \"\";\n    }\n}";
    assert_eq!(write_function("x", "Y", &variants), expected);
}

#[test]
fn keeps_the_order_of_the_declaration() {
    let decl = CEnum::parse("enum Z { C, A, B } Z;").unwrap();
    let text = decl.render().unwrap();
    let c = text.find("case C:").unwrap();
    let a = text.find("case A:").unwrap();
    let b = text.find("case B:").unwrap();
    assert!(c < a && a < b);
}
