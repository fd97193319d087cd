use rust_codegen::{Scope, Type};

#[test]
fn impl_with_macros() {
    let mut scope = Scope::new();
    scope.new_struct("Bar");
    let imp = scope.new_impl("Bar");
    imp.impl_trait(Type::new("Foo"));
    imp.add_macro("#[async_trait]");
    imp.add_macro("#[toby_is_cute]");

    let f = imp.new_fn("pet_toby");
    f.set_async(true);
    f.line("println!(\"petting Toby many times because he is such a good boi\");");

    let expect = r#"
struct Bar;

#[async_trait]
#[toby_is_cute]
impl Foo for Bar {
    async fn pet_toby() {
        println!("petting Toby many times because he is such a good boi");
    }
}"#;

    assert_eq!(scope.to_string().unwrap(), &expect[1..]);
}

#[test]
fn impl_with_generics_assoc_types_and_bounds() {
    let mut scope = Scope::new();
    let imp = scope.new_impl("Wrapper");
    imp.generic("T");
    imp.target_generic(Type::new("T")).unwrap();
    imp.impl_trait(Type::new("Iterator"));
    imp.associate_type("Item", Type::new("T"));
    imp.bound("T", Type::new("Clone"));
    imp.new_fn("next").arg_mut_self().ret(Type::new("Option<T>")).line("None");
    imp.new_fn("count").arg_self().ret(Type::new("usize")).line("0");

    let expect = r#"
impl<T> Iterator for Wrapper<T>
where T: Clone,
{
    type Item = T;

    fn next(&mut self) -> Option<T> {
        None
    }

    fn count(self) -> usize {
        0
    }
}"#;

    assert_eq!(scope.to_string().unwrap(), &expect[1..]);
}
