use rust_codegen::{CodegenError, Module, Scope, Type};

#[test]
fn module_mut() {
    let mut scope = Scope::new();
    scope.new_module("foo").unwrap().import("bar", "Bar");

    scope
        .get_module_mut("foo")
        .expect("module_mut")
        .new_struct("Foo")
        .field("bar", Type::new("Bar"))
        .unwrap();

    let expect = r#"
mod foo {
    use bar::Bar;

    struct Foo {
        bar: Bar,
    }
}"#;

    assert_eq!(scope.to_string().unwrap(), &expect[1..]);
}

#[test]
fn get_or_new_module() {
    let mut scope = Scope::new();
    assert!(scope.get_module("foo").is_none());

    scope.get_or_new_module("foo").import("bar", "Bar");

    scope
        .get_or_new_module("foo")
        .new_struct("Foo")
        .field("bar", Type::new("Bar"))
        .unwrap();

    let expect = r#"
mod foo {
    use bar::Bar;

    struct Foo {
        bar: Bar,
    }
}"#;

    assert_eq!(scope.to_string().unwrap(), &expect[1..]);
}

#[test]
fn get_or_new_module_twice_refers_to_one_module() {
    let mut scope = Scope::new();
    scope.get_or_new_module("net").vis("pub");
    scope.get_or_new_module("net").new_struct("Socket");
    scope.raw("// end");

    assert_eq!(scope.get_module("net").unwrap().name, "net");
    let expect = "pub mod net {\n    struct Socket;\n}\n\n// end";
    assert_eq!(scope.to_string().unwrap(), expect);
}

#[test]
fn duplicate_module_is_refused() {
    let mut scope = Scope::new();
    scope.new_module("a").unwrap();
    assert!(matches!(scope.new_module("a"), Err(CodegenError::DuplicateModule)));
    assert!(matches!(scope.push_module(Module::new("a")), Err(CodegenError::DuplicateModule)));
    assert!(scope.push_module(Module::new("b")).is_ok());
    assert_eq!(scope.to_string().unwrap(), "mod a {\n}\n\nmod b {\n}");
}

#[test]
fn namespace_contents_one_level_deeper() {
    let mut scope = Scope::new();
    let m = scope.new_module("shapes").unwrap();
    m.new_struct("Point").field("x", Type::new("f64")).unwrap();

    let text = scope.to_string().unwrap();
    assert_eq!(text, "mod shapes {\n    struct Point {\n        x: f64,\n    }\n}");
    let lines: Vec<&str> = text.lines().collect();
    assert!(lines[1].starts_with("    struct"));
    assert!(lines[2].starts_with("        x"));
    assert_eq!(lines[4], "}");
}

#[test]
fn rendering_twice_gives_the_same_text() {
    let mut scope = Scope::new();
    scope.import("std::fmt", "Debug");
    scope.new_struct("A").derive("Debug");
    scope.new_fn("f").line("1");
    let first = scope.to_string().unwrap();
    let second = scope.to_string().unwrap();
    assert_eq!(first, second);
    assert_eq!(first, "use std::fmt::Debug;\n\n#[derive(Debug)]\nstruct A;\n\nfn f() {\n    1\n}");
}

#[test]
fn nested_module_in_module() {
    let mut outer = Module::new("outer");
    outer.vis("pub");
    outer.new_module("inner").unwrap().new_fn("f");
    let mut scope = Scope::new();
    scope.push_module(outer).unwrap();
    assert_eq!(
        scope.to_string().unwrap(),
        "pub mod outer {\n    mod inner {\n        fn f() {\n        }\n    }\n}"
    );
}
