use rust_codegen::{Scope, Type};

#[test]
fn trait_with_macros() {
    let mut scope = Scope::new();
    let trt = scope.new_trait("Foo");
    trt.add_macro("#[async_trait]");
    trt.add_macro("#[toby_is_cute]");

    let f = trt.new_fn("pet_toby");
    f.set_async(true);
    f.line("println!(\"petting toby because he is a good boi\");");

    let expect = r#"
#[async_trait]
#[toby_is_cute]
trait Foo {
    async fn pet_toby() {
        println!("petting toby because he is a good boi");
    }
}"#;

    assert_eq!(scope.to_string().unwrap(), &expect[1..]);
}

#[test]
fn trait_with_parents_assoc_types_and_signatures() {
    let mut scope = Scope::new();
    let trt = scope.new_trait("Store");
    trt.vis("pub").parent(Type::new("Send")).parent(Type::new("Sync")).doc("A store.");
    trt.associated_type("Key").bound(Type::new("Eq")).bound(Type::new("Hash"));
    trt.associated_type("Value");
    trt.new_fn("get").arg_ref_self().arg("k", Type::new("Self::Key"));

    let expect = r#"
/// A store.
pub trait Store: Send + Sync {
    type Key: Eq + Hash;
    type Value;

    fn get(&self, k: Self::Key);
}"#;

    assert_eq!(scope.to_string().unwrap(), &expect[1..]);
}

#[test]
fn failed_trait_render_writes_no_visibility() {
    let mut trt = rust_codegen::Trait::new("Foo");
    trt.new_fn("bar").doc("d").vis("pub");
    let mut fmt = rust_codegen::Formatter::new();
    assert_eq!(trt.fmt(&mut fmt), Err(rust_codegen::CodegenError::VisibilityInTrait));
    assert_eq!(fmt.as_str(), "trait Foo {\n    /// d\n}\n");
    assert_eq!(fmt.depth(), 0);
}
