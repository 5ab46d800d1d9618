use embeddir::argument::{path_argument, read_argument, within_limit, Argument, EXPOSED_LIMIT};
use embeddir::locate;
use embeddir::error::EmbedError;
use embeddir::path::{is_absolute, join, resolve_directory};

#[test]
fn string_literal_denotes_its_text() {
    assert_eq!(read_argument("\"static\""), Ok(String::from("static")));
    assert_eq!(read_argument("  \"some/path\"  "), Ok(String::from("some/path")));
    assert_eq!(read_argument("\"\""), Ok(String::new()));
}

#[test]
fn escapes_of_the_literal_are_decoded() {
    assert_eq!(read_argument("\"a\\nb\""), Ok(String::from("a\nb")));
    assert_eq!(read_argument("\"quo\\\"te\""), Ok(String::from("quo\"te")));
    assert_eq!(read_argument("\"\\u{e9}t\\u{e9}\""), Ok(String::from("\u{e9}t\u{e9}")));
    assert_eq!(read_argument("\"back\\\\slash\""), Ok(String::from("back\\slash")));
}

#[test]
fn raw_string_literal_is_taken_verbatim() {
    assert_eq!(read_argument("r\"a\\b\""), Ok(String::from("a\\b")));
    assert_eq!(read_argument("r#\"say \"hi\"\"#"), Ok(String::from("say \"hi\"")));
}

#[test]
fn other_literals_are_rejected() {
    assert_eq!(read_argument("42"), Err(EmbedError::ArgumentShape));
    assert_eq!(read_argument("'c'"), Err(EmbedError::ArgumentShape));
    assert_eq!(read_argument("b\"bytes\""), Err(EmbedError::ArgumentShape));
    assert_eq!(read_argument("true"), Err(EmbedError::ArgumentShape));
    assert_eq!(read_argument("1.5"), Err(EmbedError::ArgumentShape));
}

#[test]
fn other_expressions_are_rejected() {
    assert_eq!(read_argument("directory"), Err(EmbedError::ArgumentShape));
    assert_eq!(read_argument("path()"), Err(EmbedError::ArgumentShape));
    assert_eq!(read_argument("concat!(\"a\", \"b\")"), Err(EmbedError::ArgumentShape));
    assert_eq!(read_argument("\"a\".to_string() + \"b\""), Err(EmbedError::ArgumentShape));
    assert_eq!(read_argument("(\"static\")"), Err(EmbedError::ArgumentShape));
}

#[test]
fn text_that_is_no_single_expression_is_rejected() {
    assert_eq!(read_argument(""), Err(EmbedError::ArgumentShape));
    assert_eq!(read_argument("\"a\" \"b\""), Err(EmbedError::ArgumentShape));
    assert_eq!(read_argument("\"a\", \"b\""), Err(EmbedError::ArgumentShape));
    assert_eq!(read_argument("\"unterminated"), Err(EmbedError::ArgumentShape));
    assert_eq!(read_argument("("), Err(EmbedError::ArgumentShape));
}

#[test]
fn path_argument_accepts_string_literals_alone() {
    assert_eq!(
        path_argument(Argument::StringLiteral(String::from("dir"))),
        Ok(String::from("dir"))
    );
    assert_eq!(path_argument(Argument::Other), Err(EmbedError::ArgumentShape));
}

#[test]
fn absolute_paths_begin_with_a_separator() {
    assert!(is_absolute("/"));
    assert!(is_absolute("/usr/share"));
    assert!(!is_absolute(""));
    assert!(!is_absolute("usr/share"));
    assert!(!is_absolute("./x"));
    assert!(!is_absolute("\u{e9}/x"));
}

#[test]
fn join_puts_one_separator_between_base_and_path() {
    assert_eq!(join("/project", "static"), "/project/static");
    assert_eq!(join("/project/", "static"), "/project/static");
    assert_eq!(join("/project", "static/"), "/project/static/");
    assert_eq!(join("/", "static"), "/static");
    assert_eq!(join("", "static"), "static");
    assert_eq!(join("/project", ""), "/project/");
    assert_eq!(join("/pr\u{f6}ject", "\u{e9}"), "/pr\u{f6}ject/\u{e9}");
}

#[test]
fn join_lets_an_absolute_path_stand_for_itself() {
    assert_eq!(join("/project", "/etc"), "/etc");
    assert_eq!(join("", "/"), "/");
}

#[test]
fn absolute_argument_is_used_unchanged() {
    assert_eq!(resolve_directory("/srv/www", Some("/project")), Ok(String::from("/srv/www")));
    assert_eq!(resolve_directory("/srv/www", None), Ok(String::from("/srv/www")));
    assert_eq!(resolve_directory("/srv/www", Some("")), Ok(String::from("/srv/www")));
}

#[test]
fn relative_argument_is_joined_onto_the_build_root() {
    assert_eq!(resolve_directory("static", Some("/project")), Ok(String::from("/project/static")));
    assert_eq!(resolve_directory("", Some("/project")), Ok(String::from("/project/")));
    assert_eq!(locate("\"static\"", Some("/project")), Ok(String::from("/project/static")));
    assert_eq!(locate("\"a/b\"", Some("/project/")), Ok(String::from("/project/a/b")));
}

#[test]
fn relative_argument_without_build_root_is_a_configuration_error() {
    assert_eq!(resolve_directory("static", None), Err(EmbedError::Configuration));
    assert_eq!(resolve_directory("static", Some("")), Err(EmbedError::Configuration));
    assert_eq!(locate("\"static\"", None), Err(EmbedError::Configuration));
}

#[test]
fn string_literal_of_any_length_is_read() {
    let path = "some/long/path/".repeat(4000);
    let source = format!("\"{}\"", path);
    assert_eq!(read_argument(&source), Ok(path));
    let quoted = "\\\"".repeat(5000);
    let source = format!("\"{}\"", quoted);
    assert_eq!(read_argument(&source), Ok("\"".repeat(5000)));
}

#[test]
fn deeply_nested_text_is_rejected_without_being_parsed() {
    for unit in ["-", "!", "*", "&", "<", "(", "[", "{", "||", "a=", "return "] {
        let source = format!("{}1", unit.repeat(200_000));
        assert_eq!(read_argument(&source), Err(EmbedError::ArgumentShape));
    }
    let source = format!("{}1{}", "(".repeat(200_000), ")".repeat(200_000));
    assert_eq!(read_argument(&source), Err(EmbedError::ArgumentShape));
    let source = format!("1 as {}u8", "&".repeat(200_000));
    assert_eq!(read_argument(&source), Err(EmbedError::ArgumentShape));
}

#[test]
fn nesting_after_a_literal_counts_against_the_limit() {
    let source = format!("\"x\" as {}u8", "&".repeat(200_000));
    assert_eq!(read_argument(&source), Err(EmbedError::ArgumentShape));
    let source = format!("\"x\"{}", "(".repeat(200_000));
    assert_eq!(read_argument(&source), Err(EmbedError::ArgumentShape));
    let source = format!("\"x\\\"{}", "(".repeat(200_000));
    assert_eq!(read_argument(&source), Err(EmbedError::ArgumentShape));
}

#[test]
fn nesting_up_to_the_limit_is_parsed() {
    assert_eq!(EXPOSED_LIMIT, 32);
    for unit in ["-", "!", "*", "&"] {
        let source = format!("{}1", unit.repeat(31));
        assert!(within_limit(&source));
        assert_eq!(read_argument(&source), Err(EmbedError::ArgumentShape));
    }
    let source = format!("{}1{}", "(".repeat(15), ")".repeat(15));
    assert!(within_limit(&source));
    assert_eq!(read_argument(&source), Err(EmbedError::ArgumentShape));
    let source = format!("\"x\" as {}u8", "&".repeat(26));
    assert!(within_limit(&source));
    assert_eq!(read_argument(&source), Err(EmbedError::ArgumentShape));
    let source = format!("{}u8", "<".repeat(30));
    assert!(within_limit(&source));
    assert_eq!(read_argument(&source), Err(EmbedError::ArgumentShape));
}

#[test]
fn limit_counts_the_characters_outside_a_literal_at_the_front() {
    assert!(within_limit(""));
    assert!(within_limit("\"\""));
    assert!(within_limit(&format!("\"{}\"", "a".repeat(1000))));
    assert!(within_limit(&format!("\"{}", "a".repeat(1000))));
    assert!(within_limit(&"a".repeat(32)));
    assert!(!within_limit(&"a".repeat(33)));
    assert!(within_limit(&format!("\"lit\"{}", "b".repeat(32))));
    assert!(!within_limit(&format!("\"lit\"{}", "b".repeat(33))));
    assert!(within_limit(&format!("\"a\\\"{}", "b".repeat(100))));
    assert!(!within_limit(&format!("\"a\\\\\"{}", "b".repeat(100))));
    assert!(within_limit(&format!("\"a{}\\", "b".repeat(100))));
    assert!(within_limit(&format!("\"\u{e9}\"{}", "\u{e9}".repeat(32))));
    assert!(!within_limit(&format!("\"\u{e9}\"{}", "\u{e9}".repeat(33))));
}

#[test]
fn limit_does_not_count_blanks() {
    assert!(within_limit(&" \t\r\n".repeat(1000)));
    assert!(within_limit(&format!("{}\"{}\"", " \t\r\n".repeat(100), "a".repeat(1000))));
    assert!(within_limit(&format!("\"lit\"{}", " ".repeat(1000))));
    assert!(within_limit(&format!("\"lit\"{}", " b".repeat(32))));
    assert!(!within_limit(&format!("\"lit\"{}", " b".repeat(33))));
    assert!(within_limit(&"a ".repeat(32)));
    assert!(!within_limit(&"a ".repeat(33)));
    assert!(!within_limit(&format!("\u{a0}\"{}\"", "a".repeat(32))));
}

#[test]
fn limit_does_not_count_a_raw_literal_at_the_front() {
    assert!(within_limit(&format!("r\"{}\"", "a".repeat(1000))));
    assert!(within_limit(&format!("r#\"{}\"#", "a\"b".repeat(1000))));
    assert!(within_limit(&format!(" r##\"{}\"##  ", "\"#".repeat(1000))));
    assert!(within_limit(&format!("r\"{}\"{}", "a".repeat(1000), "b".repeat(32))));
    assert!(!within_limit(&format!("r\"{}\"{}", "a".repeat(1000), "b".repeat(33))));
    assert!(within_limit(&format!("r#\"{}\"{}", "a".repeat(10), "b".repeat(1000))));
    assert!(within_limit(&format!("r#\"{}\"#{}", "a".repeat(10), "#".repeat(32))));
    assert!(!within_limit(&format!("r#\"{}\"#{}", "a".repeat(10), "#".repeat(33))));
    assert!(within_limit(&format!("r{}\"a\"{}", "#".repeat(255), "#".repeat(255))));
    assert!(!within_limit(&format!("r{}\"a\"{}", "#".repeat(256), "#".repeat(256))));
    assert!(within_limit(&format!("r{}", "#".repeat(31))));
    assert!(!within_limit(&format!("r{}", "#".repeat(32))));
    assert!(!within_limit(&format!("r#a{}", "b".repeat(30))));
    assert!(!within_limit(&format!("b\"{}\"", "a".repeat(31))));
}

#[test]
fn literal_is_read_whatever_blanks_stand_around_it() {
    let path = "static/".repeat(100);
    assert_eq!(read_argument(&format!("\"lit\"{}", " ".repeat(33))), Ok(String::from("lit")));
    assert_eq!(
        read_argument(&format!("{}\"{}\"{}", " \n".repeat(500), path, "\t ".repeat(500))),
        Ok(path.clone())
    );
    assert_eq!(read_argument(&format!(" \"{}\"", "a".repeat(36))), Ok("a".repeat(36)));
}

#[test]
fn literal_is_read_where_what_else_stands_beside_it_is_within_the_limit() {
    let path = "static/".repeat(100);
    let short = format!("\"{}\" /*{}*/", path, "c".repeat(28));
    assert!(within_limit(&short));
    assert_eq!(read_argument(&short), Ok(path.clone()));
    let long = format!("\"{}\" /*{}*/", path, "c".repeat(29));
    assert!(!within_limit(&long));
    assert_eq!(read_argument(&long), Err(EmbedError::ArgumentShape));
}

#[test]
fn raw_string_literal_is_read_whatever_its_length() {
    assert_eq!(
        read_argument("r\"/srv/www/assets/static/templates\""),
        Ok(String::from("/srv/www/assets/static/templates"))
    );
    let content = "C:\\assets\\\"quoted\"\\".repeat(500);
    assert_eq!(read_argument(&format!("r#\"{}\"#", content)), Ok(content.clone()));
    assert_eq!(read_argument(&format!("  r##\"{}\"##  ", content)), Ok(content));
    let hashed = "\"#".repeat(1000);
    assert_eq!(read_argument(&format!("r##\"{}\"##", hashed)), Ok(hashed));
}

#[test]
fn nesting_after_a_raw_literal_counts_against_the_limit() {
    let source = format!("r\"x\" as {}u8", "&".repeat(200_000));
    assert_eq!(read_argument(&source), Err(EmbedError::ArgumentShape));
    let source = format!("r#\"x\"#{}", "(".repeat(200_000));
    assert_eq!(read_argument(&source), Err(EmbedError::ArgumentShape));
    let source = format!("r\"x\" as {}u8", "&".repeat(26));
    assert!(within_limit(&source));
    assert_eq!(read_argument(&source), Err(EmbedError::ArgumentShape));
}

#[test]
fn raw_literal_that_does_not_end_is_rejected_whatever_its_length() {
    let source = format!("r\"{}", "(".repeat(200_000));
    assert_eq!(read_argument(&source), Err(EmbedError::ArgumentShape));
    let source = format!("r#\"a\"{}", "(".repeat(200_000));
    assert_eq!(read_argument(&source), Err(EmbedError::ArgumentShape));
    let source = format!("r##\"a\"#{}", "-".repeat(200_000));
    assert_eq!(read_argument(&source), Err(EmbedError::ArgumentShape));
    let source = format!("r\"a\rb\"{}", "-".repeat(20));
    assert_eq!(read_argument(&source), Err(EmbedError::ArgumentShape));
}

#[test]
fn nesting_between_blanks_is_rejected_without_being_parsed() {
    for unit in ["- ", "( ", "&\n", "<\t", "! "] {
        let source = format!("{}1", unit.repeat(200_000));
        assert_eq!(read_argument(&source), Err(EmbedError::ArgumentShape));
    }
    let source = format!("{}\"x\" as {}u8", " ".repeat(1000), "& ".repeat(200_000));
    assert_eq!(read_argument(&source), Err(EmbedError::ArgumentShape));
}

#[test]
fn unterminated_literal_is_rejected_whatever_its_length() {
    let source = format!("\"{}", "(".repeat(200_000));
    assert_eq!(read_argument(&source), Err(EmbedError::ArgumentShape));
    let source = format!("\"{}\\", "a".repeat(1000));
    assert_eq!(read_argument(&source), Err(EmbedError::ArgumentShape));
}
