use rust_codegen::{Block, Scope};

#[test]
fn block_one_line() {
    let mut scope = Scope::new();
    let new_fn = scope.new_fn("hello_world");

    let mut block = Block::new("");
    block.line("println!(\"Hello, world!\");");

    new_fn.push_block(block);

    let expected = r#"
fn hello_world() {
    {
        println!("Hello, world!");
    }
}"#;

    assert_eq!(scope.to_string().unwrap(), &expected[1..]);
}

#[test]
fn block_multiple_lines() {
    let mut scope = Scope::new();
    let new_fn = scope.new_fn("hello_world");

    let mut block = Block::new("");
    block.line("println!(\"Hello, world!\");");
    block.line("println!(\"from Rust!\");");

    new_fn.push_block(block);

    let expected = r#"
fn hello_world() {
    {
        println!("Hello, world!");
        println!("from Rust!");
    }
}"#;

    assert_eq!(scope.to_string().unwrap(), &expected[1..]);
}

#[test]
fn block_with_before_after_and_nesting() {
    let mut scope = Scope::new();
    let f = scope.new_fn("run");

    let mut inner = Block::new("loop");
    inner.line("break;");

    let mut outer = Block::new("let x = if ready");
    outer.line("1");
    outer.push_block(inner);
    outer.after(";");

    f.push_block(outer);

    let expected = r#"
fn run() {
    let x = if ready {
        1
        loop {
            break;
        }
    };
}"#;

    assert_eq!(scope.to_string().unwrap(), &expected[1..]);
}
