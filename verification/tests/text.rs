use embeddir::argument::{read_argument, within_limit};
use embeddir::emit::emit;
use embeddir::error::EmbedError;
use embeddir::listing::FileEntry;
use embeddir::literal::{push_escaped, push_literal, string_literal};

#[test]
fn plain_text_is_put_between_quotes() {
    assert_eq!(string_literal("a.txt"), "\"a.txt\"");
    assert_eq!(string_literal(""), "\"\"");
    assert_eq!(string_literal(" ~'{}"), "\" ~'{}\"");
}

#[test]
fn quote_and_backslash_are_escaped() {
    assert_eq!(string_literal("say \"hi\""), "\"say \\\"hi\\\"\"");
    assert_eq!(string_literal("a\\b"), "\"a\\\\b\"");
}

#[test]
fn line_feed_carriage_return_and_tabulator_have_short_escapes() {
    assert_eq!(string_literal("a\nb\rc\td"), "\"a\\nb\\rc\\td\"");
}

#[test]
fn other_characters_are_written_by_their_code_point() {
    assert_eq!(string_literal("\0"), "\"\\u{0}\"");
    assert_eq!(string_literal("\u{1f}"), "\"\\u{1f}\"");
    assert_eq!(string_literal("\u{7f}"), "\"\\u{7f}\"");
    assert_eq!(string_literal("\u{e9}t\u{e9}"), "\"\\u{e9}t\\u{e9}\"");
    assert_eq!(string_literal("\u{202e}"), "\"\\u{202e}\"");
    assert_eq!(string_literal("\u{10ffff}"), "\"\\u{10ffff}\"");
    assert_eq!(string_literal("\u{10000}"), "\"\\u{10000}\"");
}

#[test]
fn escapes_are_appended_to_what_is_there() {
    let mut out = String::from("x");
    push_escaped(&mut out, 'y');
    push_escaped(&mut out, '"');
    push_escaped(&mut out, '\u{a0}');
    assert_eq!(out, "xy\\\"\\u{a0}");
    push_literal(&mut out, "z");
    assert_eq!(out, "xy\\\"\\u{a0}\"z\"");
}

#[test]
fn literal_is_read_back_by_the_parser_as_the_text() {
    let texts = [
        "a.txt",
        "",
        "with space",
        "quo\"te",
        "back\\slash",
        "line\nfeed\r\n",
        "tab\t",
        "nul\0",
        "\u{e9}\u{4e2d}\u{1f600}",
        "\u{202e}\u{feff}\u{7f}\u{80}",
        "{}u{41}\\u{41}",
        "'single'",
    ];
    for text in texts {
        let literal = string_literal(text);
        assert!(literal.is_ascii());
        let parsed = syn::parse_str::<syn::LitStr>(&literal).unwrap();
        assert_eq!(parsed.value(), text);
    }
}

#[test]
fn block_for_no_files_only_makes_the_map() {
    assert_eq!(emit(&Vec::new()), "{ let mut map = std::collections::HashMap::new(); map }");
}

#[test]
fn block_is_one_expression_with_one_insertion_per_file() {
    let files = vec![
        FileEntry { name: String::from("a \"b\""), path: String::from("/d/a \"b\"") },
        FileEntry { name: String::from("\u{e9}"), path: String::from("/d/\u{e9}") },
    ];
    let code = emit(&files);
    assert_eq!(
        code,
        "{ let mut map = std::collections::HashMap::new(); \
         map.insert(\"a \\\"b\\\"\", &include_bytes!(\"/d/a \\\"b\\\"\")[..]); \
         map.insert(\"\\u{e9}\", &include_bytes!(\"/d/\\u{e9}\")[..]); \
         map }"
    );
    let block = match syn::parse_str::<syn::Expr>(&code).unwrap() {
        syn::Expr::Block(block) => block,
        _ => panic!("the code is no block"),
    };
    assert_eq!(block.block.stmts.len(), 4);
}

#[test]
fn messages_name_the_check_the_path_and_the_entry() {
    assert_eq!(EmbedError::ArgumentShape.message(), "expected a string literal");
    assert_eq!(EmbedError::Configuration.message(), "the build root is not set");
    assert_eq!(
        EmbedError::NotFound { path: String::from("/project/absent") }.message(),
        "\"/project/absent\" does not exist or is not a directory!"
    );
    assert_eq!(
        EmbedError::Io { path: String::from("/d"), entry: None }.message(),
        "couldn't read the contents of the directory \"/d\""
    );
    assert_eq!(
        EmbedError::Io { path: String::from("/d"), entry: Some(String::from("odd")) }.message(),
        "couldn't determine the type of \"odd\" in the directory \"/d\""
    );
    assert_eq!(
        EmbedError::Encoding { path: String::from("/d"), entry: String::from("bad\u{fffd}") }
            .message(),
        "the name is not valid text: \"bad\\u{fffd}\" in the directory \"/d\""
    );
}

fn inserted_pair(statement: &syn::Stmt) -> (String, String) {
    let call = match statement {
        syn::Stmt::Expr(syn::Expr::MethodCall(call), Some(_)) => call,
        _ => panic!("the statement is no method call"),
    };
    assert_eq!(call.method.to_string(), "insert");
    assert_eq!(call.args.len(), 2);
    let name = match &call.args[0] {
        syn::Expr::Lit(syn::ExprLit { lit: syn::Lit::Str(name), .. }) => name.value(),
        _ => panic!("the key is no string literal"),
    };
    let slice = match &call.args[1] {
        syn::Expr::Reference(reference) => match &*reference.expr {
            syn::Expr::Index(slice) => slice,
            _ => panic!("the value is no slice"),
        },
        _ => panic!("the value is no reference"),
    };
    let inclusion = match &*slice.expr {
        syn::Expr::Macro(inclusion) => &inclusion.mac,
        _ => panic!("the bytes come from no macro"),
    };
    assert!(inclusion.path.is_ident("include_bytes"));
    let path = inclusion.parse_body::<syn::LitStr>().unwrap().value();
    (name, path)
}

#[test]
fn parser_reads_the_block_as_the_insertions_of_the_files() {
    let files = vec![
        FileEntry { name: String::from("a.txt"), path: String::from("/d/a.txt") },
        FileEntry { name: String::from("q\"u\\o\nte"), path: String::from("/d/q\"u\\o\nte") },
        FileEntry { name: String::from("\u{e9}\u{1f600}\0"), path: String::from("/\u{e9}/\u{1f600}\0") },
        FileEntry { name: String::from(")[..]); map }"), path: String::from("map.insert(\"") },
    ];
    let code = emit(&files);
    let block = match syn::parse_str::<syn::Expr>(&code).unwrap() {
        syn::Expr::Block(block) => block.block,
        _ => panic!("the code is no block"),
    };
    assert_eq!(block.stmts.len(), files.len() + 2);
    assert!(matches!(block.stmts[0], syn::Stmt::Local(_)));
    for (index, file) in files.iter().enumerate() {
        let (name, path) = inserted_pair(&block.stmts[index + 1]);
        assert_eq!(name, file.name);
        assert_eq!(path, file.path);
    }
    assert!(matches!(block.stmts[files.len() + 1], syn::Stmt::Expr(syn::Expr::Path(_), None)));
}

#[test]
fn written_literal_is_within_the_limit_and_read_back_as_the_text() {
    let long = "\"\\\u{e9}\n(".repeat(2000);
    let texts = [
        "a.txt",
        "",
        "quo\"te\\",
        "((((((((((((((((((((((((((((((((((((((((((((((((((",
        "\u{e9}\u{4e2d}\u{1f600}\0\r\n\t",
        long.as_str(),
    ];
    for text in texts {
        let literal = string_literal(text);
        assert!(within_limit(&literal));
        assert_eq!(read_argument(&literal), Ok(String::from(text)));
    }
}
