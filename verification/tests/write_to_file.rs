use cbindgen::bindings::Bindings;
use cbindgen::config::{Config, Language};
use cbindgen::ir::{Declaration, Function, ItemMap};

fn bindings(noop: bool, body: &str) -> Bindings {
    let mut config = Config::default();
    config.language = Language::C;
    config.no_includes = true;
    Bindings::new(
        config,
        ItemMap::new(),
        ItemMap::new(),
        vec![],
        vec![],
        vec![],
        vec![Function { declaration: Declaration { lines: vec![body.to_string()] } }],
        vec![],
        noop,
        String::new(),
    )
}

#[test]
fn writing_twice_changes_then_keeps() {
    let b = bindings(false, "void f(void);");
    let mut destination = None;
    assert!(b.write_to_file(&mut destination));
    assert_eq!(destination, Some(b"void f(void);\n".to_vec()));
    assert!(!b.write_to_file(&mut destination));
    assert_eq!(destination, Some(b"void f(void);\n".to_vec()));
}

#[test]
fn different_content_is_overwritten() {
    let b = bindings(false, "void f(void);");
    let mut destination = Some(b"void old(void);\n".to_vec());
    assert!(b.write_to_file(&mut destination));
    assert_eq!(destination, Some(b"void f(void);\n".to_vec()));
    assert!(!b.write_to_file(&mut destination));
}

#[test]
fn identical_content_is_left_alone() {
    let b = bindings(false, "void f(void);");
    let mut destination = Some(b"void f(void);\n".to_vec());
    assert!(!b.write_to_file(&mut destination));
    assert_eq!(destination, Some(b"void f(void);\n".to_vec()));
}

#[test]
fn content_that_differs_only_in_length_is_a_change() {
    let b = bindings(false, "void f(void);");
    let mut longer = Some(b"void f(void);\n\n".to_vec());
    assert!(b.write_to_file(&mut longer));
    let mut empty = Some(Vec::new());
    assert!(b.write_to_file(&mut empty));
    assert_eq!(empty, Some(b"void f(void);\n".to_vec()));
}

#[test]
fn noop_bindings_never_touch_the_destination() {
    let b = bindings(true, "void f(void);");
    let mut missing = None;
    assert!(!b.write_to_file(&mut missing));
    assert_eq!(missing, None);
    let mut present = Some(b"old".to_vec());
    assert!(!b.write_to_file(&mut present));
    assert_eq!(present, Some(b"old".to_vec()));
}

#[test]
fn the_same_bindings_may_write_to_several_destinations() {
    let b = bindings(false, "void f(void);");
    let mut first = None;
    let mut second = Some(b"x".to_vec());
    assert!(b.write_to_file(&mut first));
    assert!(b.write_to_file(&mut second));
    assert_eq!(first, second);
}
