use store::{my_package_def, PackageDef, ParseError, Parser, Pos};

#[test]
pub fn test_packages() {
    let mut parser = Parser::init(
        r#"[mypackage@0.1.0]
url = http://localhost:8000/mypackage-0.1.0-x86_64-linux.tar.gz
"#,
    );
    assert_eq!(parser.packages().unwrap(), vec![my_package_def()]);
    assert_eq!(parser.offset, 82);
}

#[test]
pub fn test_packages_error_unknown_field() {
    let mut parser = Parser::init(
        r#"
[mypackage@0.1.0]
xxx = yyy
"#,
    );
    assert_eq!(
        parser.packages().err().unwrap(),
        ParseError {
            offset: 1,
            message: "The package [mypackage@0.1.0] must define at least a url or build field"
                .to_string(),
        }
    );
}

#[test]
pub fn test_packages_error_duplicate_definition() {
    let mut parser = Parser::init(
        r#"
[mypackage@0.1.0]
url = url1
[mypackage@0.1.0]
url = url2
"#,
    );
    assert_eq!(
        parser.packages().err().unwrap(),
        ParseError {
            offset: 30,
            message: "Package [mypackage:0.1.0] has already been defined".to_string(),
        }
    );
}

#[test]
pub fn test_mypackage() {
    let mut parser = Parser::init(
        r#"[mypackage@0.1.0]
# ignore

url = http://localhost:8000/mypackage-0.1.0-x86_64-linux.tar.gz
"#,
    );
    assert_eq!(parser.package().unwrap().unwrap(), my_package_def());
    assert_eq!(parser.offset, 92);
}

#[test]
pub fn test_error_package_missing_url_build() {
    let mut parser = Parser::init(
        r#"[mypackage@0.1.0]
"#,
    );
    assert_eq!(
        parser.package().err().unwrap(),
        ParseError {
            offset: 0,
            message: "The package [mypackage@0.1.0] must define at least a url or build field"
                .to_string(),
        }
    );
    assert_eq!(parser.offset, 18);
}

fn parse(text: &str) -> Result<Vec<PackageDef>, ParseError> {
    Parser::init(text).packages()
}

fn error(offset: usize, message: &str) -> ParseError {
    ParseError { offset, message: message.to_string() }
}

#[test]
fn parses_build_with_continuation_lines() {
    let text = "[ruby@2.7.0]\nurl = https://cache.ruby-lang.org/pub/ruby/2.7/ruby-2.7.0.tar.gz\nbuild = ./configure --prefix \"$PACKAGE_DIR\"\n        make\n        make install\n";
    let defs = parse(text).unwrap();
    assert_eq!(defs.len(), 1);
    assert_eq!(defs[0].name, "ruby");
    assert_eq!(defs[0].version, "2.7.0");
    assert_eq!(
        defs[0].url,
        Some("https://cache.ruby-lang.org/pub/ruby/2.7/ruby-2.7.0.tar.gz".to_string())
    );
    assert_eq!(
        defs[0].build,
        Some("./configure --prefix \"$PACKAGE_DIR\"\nmake\nmake install\n".to_string())
    );
    assert!(defs[0].depends.is_empty());
}

#[test]
fn parses_build_only_and_keeps_source_order() {
    let text = "# database\n\n[b@1]\nbuild = echo b\n\n# second\n[a@2]\nurl = http://host/a.zip\n";
    let defs = parse(text).unwrap();
    assert_eq!(defs.len(), 2);
    assert_eq!(defs[0].id(), "b@1");
    assert_eq!(defs[0].url, None);
    assert_eq!(defs[0].build, Some("echo b\n".to_string()));
    assert_eq!(defs[1].id(), "a@2");
    assert_eq!(defs[1].url, Some("http://host/a.zip".to_string()));
}

#[test]
fn url_is_trimmed() {
    let defs = parse("[p@1]\nurl =   http://host/p.tgz \t \n").unwrap();
    assert_eq!(defs[0].url, Some("http://host/p.tgz".to_string()));
}

#[test]
fn spaces_around_header_tokens() {
    let defs = parse("[my_pkg-x @ 1.0-rc_2 ]\nurl=u\n").unwrap();
    assert_eq!(defs[0].name, "my_pkg-x");
    assert_eq!(defs[0].version, "1.0-rc_2");
    assert_eq!(defs[0].url, Some("u".to_string()));
}

#[test]
fn same_name_other_version_is_no_duplicate() {
    let defs = parse("[p@1]\nurl = a\n[p@2]\nurl = b\n").unwrap();
    assert_eq!(defs.len(), 2);
}

#[test]
fn empty_text_has_no_packages() {
    let mut parser = Parser::init("  \n\t\n");
    assert_eq!(parser.packages().unwrap(), vec![]);
    assert_eq!(parser.offset, 5);
}

#[test]
fn error_missing_name() {
    assert_eq!(parse("[@1]\nurl = u\n").err().unwrap(), error(1, "Expecting a package name"));
}

#[test]
fn error_missing_at() {
    assert_eq!(parse("[p 1]\nurl = u\n").err().unwrap(), error(3, "Expecting @"));
}

#[test]
fn error_missing_version() {
    assert_eq!(parse("[p@]\nurl = u\n").err().unwrap(), error(3, "Expecting a package version"));
}

#[test]
fn error_missing_closing_bracket() {
    assert_eq!(parse("[p@1\nurl = u\n").err().unwrap(), error(4, "Expecting ]"));
}

#[test]
fn error_missing_newline_after_header() {
    assert_eq!(parse("[p@1]").err().unwrap(), error(5, "Expecting a newline"));
}

#[test]
fn error_missing_equal_sign() {
    assert_eq!(parse("[p@1]\nurl u\n").err().unwrap(), error(10, "Expecting ="));
}

#[test]
fn error_empty_url() {
    assert_eq!(parse("[p@1]\nurl = \n").err().unwrap(), error(12, "Expecting an url"));
}

#[test]
fn error_empty_command() {
    assert_eq!(parse("[p@1]\nbuild = \n").err().unwrap(), error(14, "Expecting a command"));
}

#[test]
fn error_build_without_final_newline() {
    assert_eq!(parse("[p@1]\nbuild = make").err().unwrap(), error(18, "Expecting a newline"));
}

#[test]
fn unicode_letters_are_name_characters() {
    let defs = parse("[café@1]\nurl = u\n").unwrap();
    assert_eq!(defs[0].name, "café");
}

#[test]
fn whitespace_reads_spaces_only() {
    let mut parser = Parser::init("   x");
    assert_eq!(parser.whitespace(), "   ");
    assert_eq!(parser.offset, 3);
    let mut parser = Parser::init("x");
    assert_eq!(parser.whitespace(), "");
    assert_eq!(parser.offset, 0);
}

#[test]
fn skip_whitespace_or_comment_stops_at_text() {
    let mut parser = Parser::init(" # note\n  \n# last");
    parser.skip_whitespace_or_comment();
    assert_eq!(parser.offset, 17);
    let mut parser = Parser::init("\n # c\nurl");
    parser.skip_whitespace_or_comment();
    assert_eq!(parser.offset, 6);
}

#[test]
fn skip_whitespace_skips_tabs_and_newlines() {
    let mut parser = Parser::init("\t \n\r x");
    parser.skip_whitespace();
    assert_eq!(parser.offset, 5);
}

#[test]
fn match_literal_moves_only_on_success() {
    let mut parser = Parser::init("@0.1.0]");
    assert!(parser.match_literal("@").is_ok());
    assert_eq!(parser.offset, 1);
    assert_eq!(parser.match_literal("@"), Err(error(1, "Expecting @")));
    assert_eq!(parser.offset, 1);
}

#[test]
fn position_of_offset() {
    let text = "[a@1]\nurl = u\n[b@1]\n";
    assert_eq!(Pos::find(text, 0), Pos { line: 1, column: 1 });
    assert_eq!(Pos::find(text, 8), Pos { line: 2, column: 3 });
    assert_eq!(Pos::find(text, 14), Pos { line: 3, column: 1 });
}

#[test]
fn text_that_is_not_a_block_is_rejected() {
    let mut parser = Parser::init("x");
    assert_eq!(parser.packages(), Err(error(0, "Expecting [")));
    assert_eq!(parser.offset, 0);
}

#[test]
fn unknown_line_after_a_block_is_rejected() {
    assert_eq!(parse("[a@1]\nurl = u\nxxx = yyy\n").err().unwrap(), error(14, "Expecting ["));
}

#[test]
fn trailing_comments_are_read_to_the_end() {
    let text = "[a@1]\nurl = u\n\n# end\n";
    let mut parser = Parser::init(text);
    assert_eq!(parser.packages().unwrap().len(), 1);
    assert_eq!(parser.offset, text.chars().count());
}
