use show_enum::options::{line_flag_of, LineFlag, Options, OptionsError};
use show_enum::parser::CEnum;

fn args(list: &[&str]) -> Vec<String> {
    list.iter().map(|arg| arg.to_string()).collect()
}

fn lines(list: &[&str]) -> Vec<String> {
    list.iter().map(|line| line.to_string()).collect()
}

#[test]
fn default_options_are_empty() {
    let options = Options::default();
    assert_eq!(options.filename, "");
    assert_eq!(options.start, None);
    assert_eq!(options.end, None);
}

#[test]
fn default_declaration_is_empty() {
    let decl = CEnum::default();
    assert_eq!(decl.tag(), "");
    assert_eq!(decl.alias(), "");
    assert!(decl.variants().is_empty());
}

#[test]
fn reads_filename_alone() {
    let options = Options::parse(args(&["colors.h"])).unwrap();
    assert_eq!(options.filename, "colors.h");
    assert_eq!(options.start, None);
    assert_eq!(options.end, None);
}

#[test]
fn reads_long_and_short_flags() {
    let long = Options::parse(args(&["--start", "3", "--end", "9", "colors.h"])).unwrap();
    assert_eq!(long.filename, "colors.h");
    assert_eq!(long.start, Some(3));
    assert_eq!(long.end, Some(9));
    let short = Options::parse(args(&["colors.h", "-e", "12", "-s", "4"])).unwrap();
    assert_eq!(short.filename, "colors.h");
    assert_eq!(short.start, Some(4));
    assert_eq!(short.end, Some(12));
}

#[test]
fn last_value_of_a_flag_wins() {
    let options = Options::parse(args(&["-s", "1", "f.h", "-s", "7"])).unwrap();
    assert_eq!(options.start, Some(7));
}

#[test]
fn flag_without_value_changes_nothing() {
    let options = Options::parse(args(&["f.h", "--end"])).unwrap();
    assert_eq!(options.filename, "f.h");
    assert_eq!(options.end, None);
}

#[test]
fn value_of_a_flag_is_not_a_filename() {
    assert_eq!(Options::parse(args(&["-s", "5"])).unwrap_err(), OptionsError::Usage);
}

#[test]
fn refuses_start_that_is_no_number() {
    assert_eq!(
        Options::parse(args(&["--start", "three", "f.h"])).unwrap_err(),
        OptionsError::InvalidStart
    );
    assert_eq!(Options::parse(args(&["-s", "-1", "f.h"])).unwrap_err(), OptionsError::InvalidStart);
    assert_eq!(
        Options::parse(args(&["-s", "4294967296", "f.h"])).unwrap_err(),
        OptionsError::InvalidStart
    );
}

#[test]
fn refuses_end_that_is_no_number() {
    assert_eq!(Options::parse(args(&["f.h", "-e", ""])).unwrap_err(), OptionsError::InvalidEnd);
    assert_eq!(Options::parse(args(&["f.h", "--end", "f.h"])).unwrap_err(), OptionsError::InvalidEnd);
}

#[test]
fn reads_largest_line_number() {
    let options = Options::parse(args(&["-e", "4294967295", "f.h"])).unwrap();
    assert_eq!(options.end, Some(u32::MAX));
}

#[test]
fn refuses_no_file_and_two_files() {
    assert_eq!(Options::parse(args(&[])).unwrap_err(), OptionsError::Usage);
    assert_eq!(Options::parse(args(&["a.h", "b.h"])).unwrap_err(), OptionsError::Usage);
    assert_eq!(Options::parse(args(&[""])).unwrap_err(), OptionsError::Usage);
}

#[test]
fn first_failure_is_reported() {
    assert_eq!(
        Options::parse(args(&["a.h", "-s", "x", "b.h"])).unwrap_err(),
        OptionsError::InvalidStart
    );
    assert_eq!(Options::parse(args(&["a.h", "b.h", "-s", "x"])).unwrap_err(), OptionsError::Usage);
}

#[test]
fn recognises_the_four_flags() {
    assert_eq!(line_flag_of(&"--start".to_string()), Some(LineFlag::Start));
    assert_eq!(line_flag_of(&"-s".to_string()), Some(LineFlag::Start));
    assert_eq!(line_flag_of(&"--end".to_string()), Some(LineFlag::End));
    assert_eq!(line_flag_of(&"-e".to_string()), Some(LineFlag::End));
    assert_eq!(line_flag_of(&"--Start".to_string()), None);
    assert_eq!(line_flag_of(&"-se".to_string()), None);
    assert_eq!(line_flag_of(&"".to_string()), None);
}

#[test]
fn with_line_stores_or_refuses() {
    let stored = Options::default().with_line(LineFlag::Start, Some(2)).unwrap();
    assert_eq!(stored.start, Some(2));
    assert_eq!(stored.end, None);
    let stored = stored.with_line(LineFlag::End, Some(8)).unwrap();
    assert_eq!(stored.start, Some(2));
    assert_eq!(stored.end, Some(8));
    assert_eq!(
        Options::default().with_line(LineFlag::Start, None).unwrap_err(),
        OptionsError::InvalidStart
    );
    assert_eq!(
        Options::default().with_line(LineFlag::End, None).unwrap_err(),
        OptionsError::InvalidEnd
    );
}

#[test]
fn selects_all_lines_by_default() {
    let options = Options::parse(args(&["f.h"])).unwrap();
    assert_eq!(options.select(&lines(&["enum T {", " A, ", "} T;"])), "enum T { A, } T;");
}

#[test]
fn selects_inclusive_window() {
    let file = lines(&["int x;", "enum T {", " A ", "} T;", "int y;"]);
    let options = Options::parse(args(&["f.h", "-s", "2", "-e", "4"])).unwrap();
    assert_eq!(options.select(&file), "enum T { A } T;");
    let one = Options::parse(args(&["f.h", "-s", "5", "-e", "5"])).unwrap();
    assert_eq!(one.select(&file), "int y;");
    let open_end = Options::parse(args(&["f.h", "-s", "4"])).unwrap();
    assert_eq!(open_end.select(&file), "} T;int y;");
    let open_start = Options::parse(args(&["f.h", "-e", "1"])).unwrap();
    assert_eq!(open_start.select(&file), "int x;");
}

#[test]
fn selects_nothing_outside_the_file() {
    let file = lines(&["a", "b", "c"]);
    let behind = Options::parse(args(&["f.h", "-s", "4"])).unwrap();
    assert_eq!(behind.select(&file), "");
    let reversed = Options::parse(args(&["f.h", "-s", "3", "-e", "2"])).unwrap();
    assert_eq!(reversed.select(&file), "");
    let zero = Options::parse(args(&["f.h", "-s", "0", "-e", "0"])).unwrap();
    assert_eq!(zero.select(&file), "");
    let wide = Options::parse(args(&["f.h", "-s", "0", "-e", "99"])).unwrap();
    assert_eq!(wide.select(&file), "abc");
    assert_eq!(wide.select(&[]), "");
}

#[test]
fn selected_lines_parse() {
    let file = lines(&["/* colours */", "typedef enum Color {", "    RED,", "    GREEN,", "} Color;"]);
    let options = Options::parse(args(&["--start", "2", "colors.h"])).unwrap();
    let decl = CEnum::parse(&options.select(&file)).unwrap();
    assert_eq!(decl.tag(), "Color");
    assert_eq!(decl.alias(), "Color");
    assert_eq!(decl.variants(), ["RED".to_string(), "GREEN".to_string()]);
}
