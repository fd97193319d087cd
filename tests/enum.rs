use rust_codegen::{Scope, Type, Variant};

#[test]
fn enum_with_repr() {
    let mut scope = Scope::new();

    scope
        .new_enum("IpAddrKind")
        .repr("u8")
        .push_variant(Variant::new("V4"))
        .push_variant(Variant::new("V6"));

    let expect = r#"
#[repr(u8)]
enum IpAddrKind {
    V4,
    V6,
}"#;

    assert_eq!(scope.to_string().unwrap(), &expect[1..]);
}

#[test]
fn enum_with_allow() {
    let mut scope = Scope::new();

    scope
        .new_enum("IpAddrKind")
        .allow("dead_code")
        .push_variant(Variant::new("V4"))
        .push_variant(Variant::new("V6"));

    let expect = r#"
#[allow(dead_code)]
enum IpAddrKind {
    V4,
    V6,
}"#;

    assert_eq!(scope.to_string().unwrap(), &expect[1..]);
}

#[test]
fn enum_with_multiple_allow() {
    let mut scope = Scope::new();

    scope
        .new_enum("IpAddrKind")
        .allow("dead_code")
        .allow("clippy::all")
        .push_variant(Variant::new("V4"))
        .push_variant(Variant::new("V6"));

    let expect = r#"
#[allow(dead_code)]
#[allow(clippy::all)]
enum IpAddrKind {
    V4,
    V6,
}"#;

    assert_eq!(scope.to_string().unwrap(), &expect[1..]);
}

#[test]
fn enum_with_fields_derive_and_bounds() {
    let mut scope = Scope::new();
    let e = scope.new_enum("Message");
    e.vis("pub").derive("Debug").derive("Clone").bound("T", Type::new("Send"));
    e.generic("T").unwrap();

    let quit = e.new_variant("Quit");
    assert!(quit.tuple(Type::new("u8")).is_ok());
    let mv = e.new_variant("Move");
    mv.named("x", Type::new("i32")).unwrap();
    mv.named("y", Type::new("T")).unwrap();

    let expect = r#"
#[derive(Debug, Clone)]
pub enum Message<T>
where T: Send,
{
    Quit(u8),
    Move {
        x: i32,
        y: T,
    }
    ,
}"#;

    assert_eq!(scope.to_string().unwrap(), &expect[1..]);
}
