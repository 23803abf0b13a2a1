use cbindgen::bindings::Bindings;
use cbindgen::config::{Braces, Config, CythonImport, Language, LineEndingStyle};
use cbindgen::emit::NamespaceOperation;
use cbindgen::ir::{Constant, Declaration, Function, ItemContainer, ItemKind, ItemMap, Static};
use cbindgen::writer::SourceWriter;

const CXX_INCLUDES: &str =
    "#include <cstdarg>\n#include <cstdint>\n#include <cstdlib>\n#include <ostream>\n#include <new>\n";

fn decl(lines: &[&str]) -> Declaration {
    Declaration { lines: lines.iter().map(|line| line.to_string()).collect() }
}

fn constant(primitive: bool, lines: &[&str]) -> Constant {
    Constant { uses_only_primitive_types: primitive, declaration: decl(lines) }
}

fn item(kind: ItemKind, no_export: Option<bool>, lines: &[&str]) -> ItemContainer {
    ItemContainer { kind, no_export, declaration: decl(lines) }
}

fn function(lines: &[&str]) -> Function {
    Function { declaration: decl(lines) }
}

fn global(lines: &[&str]) -> Static {
    Static { declaration: decl(lines) }
}

fn config(language: Language) -> Config {
    let mut config = Config::default();
    config.language = language;
    config
}

fn bare(language: Language) -> Config {
    let mut config = config(language);
    config.no_includes = true;
    config
}

fn bindings(
    config: Config,
    constants: Vec<Constant>,
    globals: Vec<Static>,
    items: Vec<ItemContainer>,
    functions: Vec<Function>,
) -> Bindings {
    Bindings::new(
        config,
        ItemMap::new(),
        ItemMap::new(),
        constants,
        globals,
        items,
        functions,
        vec![],
        false,
        "1.2.3".to_string(),
    )
}

fn empty(config: Config) -> Bindings {
    bindings(config, vec![], vec![], vec![], vec![])
}

fn render(bindings: &Bindings) -> String {
    let mut file = Vec::new();
    bindings.write(&mut file);
    String::from_utf8(file).expect("the output is text")
}

fn headers(bindings: &Bindings) -> String {
    let mut out = SourceWriter::new(bindings.config());
    bindings.write_headers(&mut out);
    String::from_utf8(out.into_bytes()).expect("the output is text")
}

#[test]
fn default_config_is_cxx_with_two_space_tabs() {
    let config = Config::default();
    assert_eq!(config.language, Language::Cxx);
    assert_eq!(config.tab_width, 2);
    assert_eq!(config.braces, Braces::SameLine);
    assert_eq!(config.line_endings, LineEndingStyle::LF);
    assert!(!config.no_includes && !config.pragma_once && !config.cpp_compat);
    assert!(config.header.is_none() && config.namespace.is_none());
    assert!(!config.cpp_compatible_c());
}

#[test]
fn cpp_compatible_c_needs_both_the_dialect_and_the_switch() {
    let mut c = config(Language::C);
    assert!(!c.cpp_compatible_c());
    c.cpp_compat = true;
    assert!(c.cpp_compatible_c());
    c.language = Language::Cxx;
    assert!(!c.cpp_compatible_c());
    c.language = Language::Cython;
    assert!(!c.cpp_compatible_c());
}

#[test]
fn empty_cxx_bindings_hold_the_standard_includes() {
    assert_eq!(render(&empty(config(Language::Cxx))), CXX_INCLUDES);
}

#[test]
fn empty_c_bindings_hold_the_standard_includes() {
    assert_eq!(
        render(&empty(config(Language::C))),
        "#include <stdarg.h>\n#include <stdbool.h>\n#include <stdint.h>\n#include <stdlib.h>\n"
    );
}

#[test]
fn size_header_follows_the_toggle() {
    let mut c = config(Language::C);
    c.usize_is_size_t = true;
    assert_eq!(
        render(&empty(c)),
        "#include <stdarg.h>\n#include <stdbool.h>\n#include <stddef.h>\n#include <stdint.h>\n#include <stdlib.h>\n"
    );
    let mut cxx = config(Language::Cxx);
    cxx.usize_is_size_t = true;
    assert_eq!(
        render(&empty(cxx)),
        "#include <cstdarg>\n#include <cstddef>\n#include <cstdint>\n#include <cstdlib>\n#include <ostream>\n#include <new>\n"
    );
}

#[test]
fn assertion_header_needs_casts_and_no_custom_macro() {
    let mut with_casts = config(Language::Cxx);
    with_casts.enumeration.derive_const_casts = true;
    assert_eq!(render(&empty(with_casts)), format!("{}#include <cassert>\n", CXX_INCLUDES));

    let mut with_mut_casts = config(Language::Cxx);
    with_mut_casts.enumeration.derive_mut_casts = true;
    assert_eq!(render(&empty(with_mut_casts)), format!("{}#include <cassert>\n", CXX_INCLUDES));

    let mut custom = config(Language::Cxx);
    custom.enumeration.derive_const_casts = true;
    custom.enumeration.cast_assert_name = Some("MY_ASSERT".to_string());
    assert_eq!(render(&empty(custom)), CXX_INCLUDES);

    let mut in_c = config(Language::C);
    in_c.enumeration.derive_const_casts = true;
    assert_eq!(
        render(&empty(in_c)),
        "#include <stdarg.h>\n#include <stdbool.h>\n#include <stdint.h>\n#include <stdlib.h>\n"
    );
}

#[test]
fn one_function_in_cxx_is_wrapped_in_one_linkage_region() {
    let b = bindings(config(Language::Cxx), vec![], vec![], vec![], vec![function(&["void f();"])]);
    let text = render(&b);
    assert_eq!(
        text,
        format!("{}\nextern \"C\" {{\n\nvoid f();\n\n}} // extern \"C\"\n", CXX_INCLUDES)
    );
    assert_eq!(text.matches("extern \"C\" {").count(), 1);
    assert_eq!(text.matches("} // extern \"C\"").count(), 1);
}

#[test]
fn linkage_region_wraps_only_globals_and_functions() {
    let b = bindings(
        bare(Language::Cxx),
        vec![constant(true, &["static const int ONE = 1;"])],
        vec![global(&["extern int g;"])],
        vec![item(ItemKind::Struct, None, &["struct S {", "  int x;", "};"])],
        vec![function(&["void f();"]), function(&["void g();"])],
    );
    assert_eq!(
        render(&b),
        "static const int ONE = 1;\n\nstruct S {\n  int x;\n};\n\nextern \"C\" {\n\nextern int g;\n\nvoid f();\n\nvoid g();\n\n} // extern \"C\"\n"
    );
}

#[test]
fn no_functions_and_no_globals_means_no_linkage_region() {
    let b = bindings(
        bare(Language::Cxx),
        vec![constant(true, &["static const int ONE = 1;"])],
        vec![],
        vec![],
        vec![],
    );
    assert_eq!(render(&b), "static const int ONE = 1;\n");
}

#[test]
fn plain_c_has_no_linkage_region() {
    let b = bindings(bare(Language::C), vec![], vec![], vec![], vec![function(&["void f(void);"])]);
    assert_eq!(render(&b), "void f(void);\n");
}

#[test]
fn using_namespaces_come_first_inside_the_linkage_region() {
    let mut c = config(Language::Cxx);
    c.using_namespaces = Some(vec!["std".to_string(), "foo".to_string()]);
    let b = bindings(
        c,
        vec![],
        vec![global(&["extern int g;"])],
        vec![],
        vec![function(&["void f();"])],
    );
    let text = render(&b);
    assert_eq!(
        text,
        format!(
            "{}\nextern \"C\" {{\n\nusing namespace std;\nusing namespace foo;\n\nextern int g;\n\nvoid f();\n\n}} // extern \"C\"\n",
            CXX_INCLUDES
        )
    );
    let opening = text.find("extern \"C\" {").unwrap();
    let first_using = text.find("using namespace std;").unwrap();
    let second_using = text.find("using namespace foo;").unwrap();
    let first_declaration = text.find("extern int g;").unwrap();
    assert!(opening < first_using && first_using < second_using);
    assert!(second_using < first_declaration);
    assert_eq!(text.matches("using namespace ").count(), 2);
}

#[test]
fn using_namespaces_need_a_function_or_a_global() {
    let mut c = config(Language::Cxx);
    c.using_namespaces = Some(vec!["std".to_string()]);
    let b = bindings(c, vec![constant(true, &["static const int ONE = 1;"])], vec![], vec![], vec![]);
    assert_eq!(render(&b), format!("{}\nstatic const int ONE = 1;\n", CXX_INCLUDES));
}

#[test]
fn an_empty_list_of_using_namespaces_leaves_a_blank_line() {
    let mut c = bare(Language::Cxx);
    c.using_namespaces = Some(vec![]);
    let b = bindings(c, vec![], vec![], vec![], vec![function(&["void f();"])]);
    assert_eq!(render(&b), "\nextern \"C\" {\n\n\nvoid f();\n\n} // extern \"C\"\n");
}

#[test]
fn using_namespaces_are_left_out_in_c() {
    let mut c = bare(Language::C);
    c.cpp_compat = true;
    c.using_namespaces = Some(vec!["std".to_string()]);
    let b = bindings(c, vec![], vec![], vec![], vec![function(&["void f(void);"])]);
    assert_eq!(
        render(&b),
        "#ifdef __cplusplus\nextern \"C\" {\n#endif // __cplusplus\n\nvoid f(void);\n\n#ifdef __cplusplus\n} // extern \"C\"\n#endif // __cplusplus\n"
    );
}

#[test]
fn constants_and_items_come_in_their_fixed_order() {
    let b = bindings(
        bare(Language::C),
        vec![
            constant(false, &["#define ORIGIN (Point){ 0, 0 }"]),
            constant(true, &["#define ONE 1"]),
            constant(false, &["#define UNIT (Point){ 1, 1 }"]),
            constant(true, &["#define TWO 2"]),
        ],
        vec![],
        vec![
            item(ItemKind::Enum, None, &["typedef enum E {", "  A,", "} E;"]),
            item(ItemKind::Struct, Some(true), &["typedef struct Hidden Hidden;"]),
            item(ItemKind::OpaqueItem, Some(false), &["typedef struct Opaque Opaque;"]),
            item(ItemKind::Union, None, &["typedef union U U;"]),
            item(ItemKind::Typedef, None, &["typedef int T;"]),
        ],
        vec![],
    );
    assert_eq!(
        render(&b),
        "#define ONE 1\n\n#define TWO 2\n\ntypedef enum E {\n  A,\n} E;\n\ntypedef struct Opaque Opaque;\n\ntypedef union U U;\n\ntypedef int T;\n\n#define ORIGIN (Point){ 0, 0 }\n\n#define UNIT (Point){ 1, 1 }\n"
    );
}

#[test]
fn full_c_header_with_every_part() {
    let mut c = config(Language::C);
    c.cpp_compat = true;
    c.header = Some("/* head */".to_string());
    c.include_guard = Some("GUARD_H".to_string());
    c.package_version = true;
    c.pragma_once = true;
    c.include_version = true;
    c.autogen_warning = Some("/* do not edit */".to_string());
    c.usize_is_size_t = true;
    c.sys_includes = vec!["sys/types.h".to_string()];
    c.includes = vec!["local.h".to_string(), "other.h".to_string()];
    c.after_includes = Some("#define X 1".to_string());
    c.namespace = Some("ns".to_string());
    c.namespaces = Some(vec!["a".to_string(), "b".to_string()]);
    c.trailer = Some("/* end */".to_string());
    let b = bindings(
        c,
        vec![constant(true, &["#define ONE 1"]), constant(false, &["#define ORIGIN (S){ 0 }"])],
        vec![global(&["extern int g;"])],
        vec![item(ItemKind::Struct, None, &["typedef struct S {", "  int x;", "} S;"])],
        vec![function(&["void f(void);"])],
    );
    let expected = "/* head */\n\
\n#ifndef GUARD_H\n#define GUARD_H\n\
\n/* Package version: 1.2.3 */\n\
\n#pragma once\n\
\n/* Generated with cbindgen:0.27.0 */\n\
\n/* do not edit */\n\
\n#include <stdarg.h>\n#include <stdbool.h>\n#include <stddef.h>\n#include <stdint.h>\n#include <stdlib.h>\n\
#include <sys/types.h>\n#include \"local.h\"\n#include \"other.h\"\n#define X 1\n\
\n#ifdef __cplusplus\nnamespace ns {\nnamespace a {\nnamespace b {\n#endif // __cplusplus\n\
\n#define ONE 1\n\
\ntypedef struct S {\n  int x;\n} S;\n\
\n#define ORIGIN (S){ 0 }\n\
\n#ifdef __cplusplus\nextern \"C\" {\n#endif // __cplusplus\n\
\nextern int g;\n\
\nvoid f(void);\n\
\n#ifdef __cplusplus\n} // extern \"C\"\n#endif // __cplusplus\n\
\n#ifdef __cplusplus\n} // namespace b\n} // namespace a\n} // namespace ns\n#endif // __cplusplus\n\
\n#endif /* GUARD_H */\n\
\n/* end */\n";
    assert_eq!(render(&b), expected);
}

#[test]
fn cxx_namespaces_nest_and_unnest() {
    let mut c = bare(Language::Cxx);
    c.namespace = Some("outer".to_string());
    c.namespaces = Some(vec!["inner".to_string()]);
    c.include_guard = Some("G".to_string());
    let b = bindings(c, vec![], vec![], vec![], vec![function(&["void f();"])]);
    assert_eq!(
        render(&b),
        "#ifndef G\n#define G\n\nnamespace outer {\nnamespace inner {\n\nextern \"C\" {\n\nvoid f();\n\n} // extern \"C\"\n\n} // namespace inner\n} // namespace outer\n\n#endif // G\n"
    );
}

#[test]
fn close_is_the_reverse_of_open() {
    let mut c = bare(Language::C);
    c.cpp_compat = true;
    c.namespace = Some("one".to_string());
    c.namespaces = Some(vec!["two".to_string(), "three".to_string()]);
    let b = empty(c);
    assert_eq!(b.all_namespaces(), vec!["one", "two", "three"]);

    let mut open = SourceWriter::new(b.config());
    b.open_namespaces(&mut open);
    let open = String::from_utf8(open.into_bytes()).unwrap();
    let mut close = SourceWriter::new(b.config());
    b.close_namespaces(&mut close);
    let close = String::from_utf8(close.into_bytes()).unwrap();

    assert_eq!(
        open,
        "#ifdef __cplusplus\nnamespace one {\nnamespace two {\nnamespace three {\n#endif // __cplusplus\n"
    );
    assert_eq!(
        close,
        "#ifdef __cplusplus\n} // namespace three\n} // namespace two\n} // namespace one\n#endif // __cplusplus\n"
    );
    let opened: Vec<String> = open
        .lines()
        .filter(|line| line.starts_with("namespace "))
        .map(|line| line["namespace ".len()..line.len() - 2].to_string())
        .collect();
    let mut closed: Vec<String> = close
        .lines()
        .filter(|line| line.starts_with("} // namespace "))
        .map(|line| line["} // namespace ".len()..].to_string())
        .collect();
    closed.reverse();
    assert_eq!(opened, closed);
}

#[test]
fn open_close_namespaces_goes_both_ways() {
    let mut c = bare(Language::Cxx);
    c.namespaces = Some(vec!["a".to_string(), "b".to_string()]);
    let b = empty(c);
    let mut out = SourceWriter::new(b.config());
    b.open_close_namespaces(NamespaceOperation::Open, &mut out);
    b.open_close_namespaces(NamespaceOperation::Close, &mut out);
    assert_eq!(
        String::from_utf8(out.into_bytes()).unwrap(),
        "\nnamespace a {\nnamespace b {\n\n} // namespace b\n} // namespace a\n"
    );
}

#[test]
fn no_namespaces_means_no_lines() {
    let b = empty(bare(Language::Cxx));
    assert!(b.all_namespaces().is_empty());
    let mut out = SourceWriter::new(b.config());
    b.open_namespaces(&mut out);
    b.close_namespaces(&mut out);
    assert!(out.into_bytes().is_empty());
}

#[test]
fn plain_c_ignores_namespaces() {
    let mut c = bare(Language::C);
    c.namespace = Some("ns".to_string());
    c.namespaces = Some(vec!["more".to_string()]);
    let b = empty(c);
    assert!(b.all_namespaces().is_empty());
    assert_eq!(render(&b), "");
}

#[test]
fn preamble_without_includes_emits_no_include_block() {
    let mut c = bare(Language::Cxx);
    c.pragma_once = true;
    assert_eq!(headers(&empty(c)), "#pragma once\n");
    assert_eq!(headers(&empty(bare(Language::Cxx))), "");
    assert_eq!(headers(&empty(bare(Language::C))), "");
    assert_eq!(headers(&empty(bare(Language::Cython))), "");
}

#[test]
fn import_table_is_ignored_outside_cython() {
    let mut c = bare(Language::C);
    c.cython.cimports =
        vec![CythonImport { module: "libc.stdio".to_string(), names: vec!["FILE".to_string()] }];
    assert_eq!(headers(&empty(c)), "");
}

#[test]
fn after_includes_alone_keeps_the_include_block() {
    let mut c = bare(Language::C);
    c.pragma_once = true;
    c.after_includes = Some("#define AFTER".to_string());
    assert_eq!(headers(&empty(c)), "#pragma once\n\n#define AFTER\n");
}

#[test]
fn configured_includes_are_kept_without_the_standard_ones() {
    let mut c = bare(Language::Cxx);
    c.sys_includes = vec!["vector".to_string(), "string".to_string()];
    c.includes = vec!["mine.h".to_string()];
    assert_eq!(
        headers(&empty(c)),
        "#include <vector>\n#include <string>\n#include \"mine.h\"\n"
    );
}

#[test]
fn pragma_once_is_left_out_in_cython() {
    let mut c = bare(Language::Cython);
    c.pragma_once = true;
    c.header = Some("# generated".to_string());
    assert_eq!(headers(&empty(c)), "# generated\n");
}

#[test]
fn cython_preamble_declares_its_placeholders() {
    let mut c = config(Language::Cython);
    c.cython.cimports = vec![
        CythonImport {
            module: "libc.stdio".to_string(),
            names: vec!["FILE".to_string(), "printf".to_string(), "puts".to_string()],
        },
        CythonImport { module: "mod".to_string(), names: vec!["one".to_string()] },
        CythonImport { module: "none".to_string(), names: vec![] },
    ];
    assert_eq!(
        headers(&empty(c)),
        "from libc.stdint cimport int8_t, int16_t, int32_t, int64_t, intptr_t\n\
from libc.stdint cimport uint8_t, uint16_t, uint32_t, uint64_t, uintptr_t\n\
cdef extern from *:\n  ctypedef bint bool\n  ctypedef struct va_list\n\
from libc.stdio cimport FILE, printf, puts\nfrom mod cimport one\nfrom none cimport \n"
    );
}

#[test]
fn cython_import_table_alone_keeps_the_include_block() {
    let mut c = bare(Language::Cython);
    c.cython.cimports =
        vec![CythonImport { module: "m".to_string(), names: vec!["a".to_string(), "b".to_string()] }];
    assert_eq!(headers(&empty(c)), "from m cimport a, b\n");
}

#[test]
fn cython_declarations_sit_in_one_indented_block() {
    let mut c = bare(Language::Cython);
    c.cython.header = Some("\"my.h\"".to_string());
    c.tab_width = 4;
    let b = bindings(
        c,
        vec![constant(true, &["const int ONE # = 1"])],
        vec![],
        vec![item(ItemKind::Struct, None, &["ctypedef struct S:", "  int x"])],
        vec![function(&["void f()"])],
    );
    assert_eq!(
        render(&b),
        "\ncdef extern from \"my.h\":\n\n    const int ONE # = 1\n\n    ctypedef struct S:\n      int x\n\n    void f()\n"
    );
}

#[test]
fn empty_cython_block_gets_a_pass() {
    assert_eq!(render(&empty(bare(Language::Cython))), "\ncdef extern from *:\n  pass");
}

#[test]
fn cython_with_only_suppressed_items_gets_no_pass() {
    let b = bindings(
        bare(Language::Cython),
        vec![],
        vec![],
        vec![item(ItemKind::Struct, Some(true), &["ctypedef struct S"])],
        vec![],
    );
    assert_eq!(render(&b), "\ncdef extern from *:\n");
}

#[test]
fn include_guard_ends_differently_in_c_and_cxx() {
    let mut c = bare(Language::C);
    c.include_guard = Some("MY_H".to_string());
    assert_eq!(render(&empty(c)), "#ifndef MY_H\n#define MY_H\n\n#endif /* MY_H */\n");
    let mut cxx = bare(Language::Cxx);
    cxx.include_guard = Some("MY_H".to_string());
    assert_eq!(render(&empty(cxx)), "#ifndef MY_H\n#define MY_H\n\n#endif // MY_H\n");
}

#[test]
fn trailer_gets_a_line_end_only_if_it_has_none() {
    let mut with = bare(Language::C);
    with.trailer = Some("/* done */\n".to_string());
    assert_eq!(render(&empty(with)), "/* done */\n");
    let mut without = bare(Language::C);
    without.trailer = Some("/* done */".to_string());
    assert_eq!(render(&empty(without)), "/* done */\n");
    let mut blank = bare(Language::C);
    blank.trailer = Some(String::new());
    assert_eq!(render(&empty(blank)), "\n");
}

#[test]
fn banners_report_both_versions() {
    let mut c = bare(Language::C);
    c.package_version = true;
    c.include_version = true;
    assert_eq!(
        headers(&empty(c)),
        "/* Package version: 1.2.3 */\n\n/* Generated with cbindgen:0.27.0 */\n"
    );
    assert_eq!(cbindgen::render::VERSION, "0.27.0");
}

#[test]
fn line_endings_follow_the_configuration() {
    let mut crlf = bare(Language::C);
    crlf.line_endings = LineEndingStyle::CRLF;
    crlf.pragma_once = true;
    let b = bindings(crlf, vec![], vec![], vec![], vec![function(&["void f(void);"])]);
    assert_eq!(render(&b), "#pragma once\r\n\r\nvoid f(void);\r\n");
    let mut cr = bare(Language::C);
    cr.line_endings = LineEndingStyle::CR;
    cr.pragma_once = true;
    assert_eq!(render(&empty(cr)), "#pragma once\r");
}

#[test]
fn text_beyond_ascii_is_written_as_utf8() {
    let mut c = bare(Language::C);
    c.header = Some("/* Überschrift — ☃ */".to_string());
    assert_eq!(render(&empty(c)).as_bytes(), "/* Überschrift — ☃ */\n".as_bytes());
}

#[test]
fn noop_bindings_write_nothing() {
    let mut c = config(Language::Cxx);
    c.pragma_once = true;
    let b = Bindings::new(
        c,
        ItemMap::new(),
        ItemMap::new(),
        vec![],
        vec![],
        vec![],
        vec![function(&["void f();"])],
        vec![],
        true,
        "1.2.3".to_string(),
    );
    let mut file = b"kept".to_vec();
    b.write(&mut file);
    assert_eq!(file, b"kept".to_vec());
    assert_eq!(headers(&b), "");
}

#[test]
fn write_appends_to_what_the_sink_holds() {
    let b = bindings(bare(Language::C), vec![], vec![], vec![], vec![function(&["void f(void);"])]);
    let mut file = b"// before\n".to_vec();
    b.write(&mut file);
    assert_eq!(String::from_utf8(file).unwrap(), "// before\nvoid f(void);\n");
}

#[test]
fn two_passes_over_the_same_input_give_the_same_bytes() {
    let build = || {
        let mut c = config(Language::C);
        c.cpp_compat = true;
        c.namespace = Some("ns".to_string());
        c.include_guard = Some("G".to_string());
        bindings(
            c,
            vec![constant(false, &["#define B 2"]), constant(true, &["#define A 1"])],
            vec![global(&["extern int g;"])],
            vec![item(ItemKind::Typedef, None, &["typedef int T;"])],
            vec![function(&["void f(void);"]), function(&["void g(void);"])],
        )
    };
    let first = build();
    let second = build();
    assert_eq!(render(&first), render(&second));
    assert_eq!(render(&first), render(&first));
}

#[test]
fn empty_declaration_still_takes_its_place() {
    let b = bindings(
        bare(Language::C),
        vec![],
        vec![],
        vec![item(ItemKind::Typedef, None, &[]), item(ItemKind::Typedef, None, &["typedef int T;"])],
        vec![],
    );
    assert_eq!(render(&b), "\n\ntypedef int T;\n");
}

#[test]
fn bindings_hand_out_their_settings() {
    let mut c = config(Language::C);
    c.tab_width = 8;
    let b = empty(c);
    assert_eq!(b.config().language, Language::C);
    assert_eq!(b.config().tab_width, 8);
    assert!(!b.noop());
    let idle = Bindings::new(
        Config::default(),
        ItemMap::new(),
        ItemMap::new(),
        vec![],
        vec![],
        vec![],
        vec![],
        vec![],
        true,
        String::new(),
    );
    assert!(idle.noop());
}

#[test]
fn cython_standard_block_returns_to_the_outer_indentation() {
    let b = empty(config(Language::Cython));
    assert_eq!(
        render(&b),
        "from libc.stdint cimport int8_t, int16_t, int32_t, int64_t, intptr_t\n\
from libc.stdint cimport uint8_t, uint16_t, uint32_t, uint64_t, uintptr_t\n\
cdef extern from *:\n  ctypedef bint bool\n  ctypedef struct va_list\n\
\ncdef extern from *:\n  pass"
    );
}

#[test]
fn cython_needs_a_tab_width_to_be_written() {
    let mut c = bare(Language::Cython);
    c.tab_width = 0;
    assert!(!empty(c).can_be_written());
    let mut in_c = bare(Language::C);
    in_c.tab_width = 0;
    let plain = bindings(in_c, vec![], vec![], vec![], vec![function(&["void f(void);"])]);
    assert!(plain.can_be_written());
    assert_eq!(render(&plain), "void f(void);\n");
    assert!(empty(bare(Language::Cython)).can_be_written());
    let mut idle = bare(Language::Cython);
    idle.tab_width = 0;
    let idle = Bindings::new(
        idle,
        ItemMap::new(),
        ItemMap::new(),
        vec![],
        vec![],
        vec![],
        vec![],
        vec![],
        true,
        String::new(),
    );
    assert!(idle.can_be_written());
    assert_eq!(render(&idle), "");
}
