use rust_codegen::{CodegenError, Formatter, Scope, Type};

#[test]
fn single_fn() {
    let mut scope = Scope::new();
    scope
        .new_fn("my_fn")
        .vis("pub")
        .arg("foo", Type::new("uint"))
        .ret(Type::new("uint"))
        .line("let res = foo + 1;")
        .line("res");

    let expect = r#"
pub fn my_fn(foo: uint) -> uint {
    let res = foo + 1;
    res
}"#;

    assert_eq!(scope.to_string().unwrap(), &expect[1..]);
}

#[test]
fn function_with_async() {
    let mut scope = Scope::new();
    let trt = scope.new_trait("Foo");

    let f = trt.new_fn("pet_toby");
    f.set_async(true);
    f.line("println!(\"petting toby because he is a good boi\");");

    let expect = r#"
trait Foo {
    async fn pet_toby() {
        println!("petting toby because he is a good boi");
    }
}"#;

    assert_eq!(scope.to_string().unwrap(), &expect[1..]);
}

#[test]
fn routine_renders_exactly_with_final_line_break() {
    let mut f = rust_codegen::Function::new("my_fn");
    f.vis("pub")
        .arg("foo", Type::new("uint"))
        .ret(Type::new("uint"))
        .line("let res = foo + 1;")
        .line("res");

    let mut fmt = Formatter::new();
    f.fmt(false, &mut fmt).unwrap();
    assert_eq!(fmt.as_str(), "pub fn my_fn(foo: uint) -> uint {\n    let res = foo + 1;\n    res\n}\n");
    assert_eq!(fmt.depth(), 0);
}

#[test]
fn fn_signature_parts() {
    let mut f = rust_codegen::Function::new("apply");
    f.doc("Applies it.\nTwice.")
        .allow("unused")
        .attr("inline")
        .extern_abi("C")
        .generic("T")
        .generic("U")
        .arg_ref_self()
        .arg("a", Type::new("T"))
        .arg("b", Type::new("U"))
        .bound("T", Type::new("Copy"))
        .bound("U", Type::new("Clone"))
        .line("todo()");

    let mut fmt = Formatter::new();
    f.fmt(false, &mut fmt).unwrap();
    let expect = "/// Applies it.\n/// Twice.\n#[allow(unused)]\n#[inline]\nextern \"C\" fn apply<T, U>(&self, a: T, b: U)\nwhere T: Copy,\n      U: Clone,\n{\n    todo()\n}\n";
    assert_eq!(fmt.as_str(), expect);
}

#[test]
fn fn_receivers() {
    let mut a = rust_codegen::Function::new("a");
    a.arg_self();
    let mut b = rust_codegen::Function::new("b");
    b.arg_mut_self().arg("n", Type::new("u8"));

    let mut fmt = Formatter::new();
    a.fmt(false, &mut fmt).unwrap();
    b.fmt(false, &mut fmt).unwrap();
    assert_eq!(fmt.as_str(), "fn a(self) {\n}\nfn b(&mut self, n: u8) {\n}\n");
}

#[test]
fn trait_fn_with_visibility_fails_and_depth_returns() {
    let mut scope = Scope::new();
    let m = scope.new_module("outer").unwrap();
    let mut trt = rust_codegen::Trait::new("Foo");
    trt.new_fn("bar").vis("pub");
    m.push_trait(trt);

    assert_eq!(scope.to_string(), Err(CodegenError::VisibilityInTrait));

    let mut fmt = Formatter::new();
    assert_eq!(scope.fmt(&mut fmt), Err(CodegenError::VisibilityInTrait));
    assert_eq!(fmt.depth(), 0);
}

#[test]
fn impl_fn_without_body_fails_and_depth_returns() {
    let mut scope = Scope::new();
    let m = scope.new_module("outer").unwrap();
    let inner = m.new_module("inner").unwrap();
    let imp = inner.new_impl("Bar");
    let mut f = rust_codegen::Function::new("no_body");
    f.body = None;
    imp.push_fn(f);

    let mut fmt = Formatter::new();
    assert_eq!(scope.fmt(&mut fmt), Err(CodegenError::MissingBody));
    assert_eq!(fmt.depth(), 0);
    assert_eq!(scope.to_string(), Err(CodegenError::MissingBody));
}
