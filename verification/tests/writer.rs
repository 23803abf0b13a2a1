use cbindgen::config::{Braces, Config, Language, LineEndingStyle};
use cbindgen::text::{bytes_eq, clone_names, push_blanks, push_bytes, push_str};
use cbindgen::writer::SourceWriter;

fn writer(language: Language, braces: Braces, tab_width: usize) -> SourceWriter {
    let mut config = Config::default();
    config.language = language;
    config.braces = braces;
    config.tab_width = tab_width;
    SourceWriter::new(&config)
}

fn text(out: SourceWriter) -> String {
    String::from_utf8(out.into_bytes()).unwrap()
}

#[test]
fn new_writer_is_empty() {
    let out = writer(Language::C, Braces::SameLine, 2);
    assert!(out.as_bytes().is_empty());
}

#[test]
fn new_line_if_not_start_does_nothing_on_the_first_line() {
    let mut out = writer(Language::C, Braces::SameLine, 2);
    out.new_line_if_not_start();
    out.write("a");
    out.new_line_if_not_start();
    assert_eq!(text(out), "a");
}

#[test]
fn new_line_if_not_start_ends_the_line_later_on() {
    let mut out = writer(Language::C, Braces::SameLine, 2);
    out.write("a");
    out.new_line();
    out.new_line_if_not_start();
    out.write("b");
    assert_eq!(text(out), "a\n\nb");
}

#[test]
fn same_line_braces_indent_the_block() {
    let mut out = writer(Language::C, Braces::SameLine, 2);
    out.write("struct S");
    out.open_brace();
    out.write("int x;");
    out.new_line();
    out.write("int");
    out.write(" y;");
    out.close_brace(true);
    out.new_line();
    out.write("after");
    assert_eq!(text(out), "struct S {\n  int x;\n  int y;\n};\nafter");
}

#[test]
fn next_line_braces_open_on_their_own_line() {
    let mut out = writer(Language::Cxx, Braces::NextLine, 4);
    out.write("void f()");
    out.open_brace();
    out.write("body();");
    out.close_brace(false);
    assert_eq!(text(out), "void f()\n{\n    body();\n}");
}

#[test]
fn cython_blocks_open_with_a_colon_and_close_silently() {
    let mut out = writer(Language::Cython, Braces::SameLine, 2);
    out.write("cdef struct S");
    out.open_brace();
    out.write("int x");
    out.new_line();
    out.close_brace(false);
    out.write("after");
    assert_eq!(text(out), "cdef struct S:\n  int x\nafter");
}

#[test]
fn nested_tabs_add_up() {
    let mut out = writer(Language::C, Braces::SameLine, 3);
    out.push_tab();
    out.push_tab();
    out.write("deep");
    out.new_line();
    out.pop_tab();
    out.write("less");
    out.new_line();
    out.pop_tab();
    out.write("none");
    assert_eq!(text(out), "      deep\n   less\nnone");
}

#[test]
fn empty_text_leaves_the_line_unstarted() {
    let mut out = writer(Language::C, Braces::SameLine, 2);
    out.push_tab();
    out.write("");
    out.write_bytes(b"");
    out.new_line();
    out.write2("", "x");
    out.write3("", "", "");
    out.write3("y", "", "z");
    assert_eq!(text(out), "\n  xyz");
}

#[test]
fn sections_are_set_off_by_a_blank_line() {
    let mut out = writer(Language::C, Braces::SameLine, 2);
    out.section("one");
    out.section("two");
    out.optional_section(&None);
    out.optional_section(&Some("three".to_string()));
    assert_eq!(text(out), "one\n\ntwo\n\nthree\n");
}

#[test]
fn declarations_end_all_their_lines() {
    let mut out = writer(Language::C, Braces::SameLine, 2);
    out.declaration(&vec!["a".to_string(), "b".to_string()]);
    out.emit(&vec!["c".to_string(), "d".to_string()]);
    out.new_line();
    out.lines(&vec!["e", "f"]);
    assert_eq!(text(out), "a\nb\nc\nd\ne\nf\n");
}

#[test]
fn line_endings_are_settable() {
    let mut config = Config::default();
    config.line_endings = LineEndingStyle::CRLF;
    let mut out = SourceWriter::new(&config);
    out.write("a");
    out.new_line();
    assert_eq!(out.as_bytes(), b"a\r\n");
    config.line_endings = LineEndingStyle::CR;
    let mut out = SourceWriter::new(&config);
    out.new_line();
    assert_eq!(out.as_bytes(), b"\r");
}

#[test]
fn byte_helpers_append() {
    let mut out = b"x".to_vec();
    push_str(&mut out, "yé");
    push_bytes(&mut out, &[1, 2]);
    push_blanks(&mut out, 3);
    push_blanks(&mut out, 0);
    assert_eq!(out, vec![b'x', b'y', 0xc3, 0xa9, 1, 2, b' ', b' ', b' ']);
}

#[test]
fn byte_strings_compare_by_content() {
    assert!(bytes_eq(b"", b""));
    assert!(bytes_eq(b"abc", b"abc"));
    assert!(!bytes_eq(b"abc", b"abd"));
    assert!(!bytes_eq(b"abc", b"ab"));
    assert!(!bytes_eq(b"", b"a"));
}

#[test]
fn names_are_copied_in_order() {
    let names = vec!["b".to_string(), "a".to_string()];
    assert_eq!(clone_names(&names), names);
    assert!(clone_names(&vec![]).is_empty());
}
