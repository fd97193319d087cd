use rust_codegen::{CodegenError, Docs, Field, Fields, Formatter, Struct, Type};

fn render(t: &Type) -> String {
    let mut fmt = Formatter::new();
    t.fmt(&mut fmt);
    fmt.as_str().to_string()
}

#[test]
fn nested_generics_balance_brackets() {
    let mut inner = Type::new("Vec");
    inner.generic(Type::new("u8")).unwrap();
    let mut outer = Type::new("HashMap");
    outer.generic(Type::new("String")).unwrap();
    outer.generic(inner).unwrap();
    let text = render(&outer);
    assert_eq!(text, "HashMap<String, Vec<u8>>");
    assert_eq!(text.matches('<').count(), text.matches('>').count());
    let mut open: i32 = 0;
    let mut deepest: i32 = 0;
    for c in text.chars() {
        if c == '<' {
            open += 1;
        } else if c == '>' {
            open -= 1;
        }
        assert!(open >= 0);
        deepest = deepest.max(open);
    }
    assert_eq!(open, 0);
    assert_eq!(deepest, 2);
}

#[test]
fn generic_on_bracketed_name_is_refused() {
    let mut t = Type::new("Vec<u8>");
    assert!(matches!(t.generic(Type::new("T")), Err(CodegenError::GenericOnBracketedName)));
    assert_eq!(render(&t), "Vec<u8>");

    let mut s = Struct::new("Pair<A>");
    assert!(matches!(s.generic("B"), Err(CodegenError::GenericOnBracketedName)));
}

#[test]
fn fields_mode_is_exclusive() {
    let mut f = Fields::Empty;
    f.push_named(Field::new("a", Type::new("u8"))).unwrap();
    assert!(matches!(f.tuple(Type::new("u16")), Err(CodegenError::FieldModeConflict)));
    match &f {
        Fields::Named(v) => {
            assert_eq!(v.len(), 1);
            assert_eq!(v[0].name, "a");
        }
        _ => panic!("fields are no longer named"),
    }

    let mut t = Fields::Empty;
    t.tuple(Type::new("u8")).unwrap();
    assert!(matches!(t.named("b", Type::new("u8")), Err(CodegenError::FieldModeConflict)));
    assert!(matches!(t, Fields::Tuple(ref v) if v.len() == 1));
}

#[test]
fn struct_field_modes() {
    let mut s = Struct::new("Point");
    s.tuple_field(Type::new("i32")).unwrap();
    s.tuple_field(Type::new("i32")).unwrap();
    assert!(matches!(s.field("x", Type::new("i32")), Err(CodegenError::FieldModeConflict)));
    let mut fmt = Formatter::new();
    s.fmt(&mut fmt);
    assert_eq!(fmt.as_str(), "struct Point(i32, i32);\n");
}

#[test]
fn struct_with_documented_fields() {
    let mut s = Struct::new("Config");
    s.vis("pub").doc("Settings.").attr("#[non_exhaustive]").repr("C");
    let mut f = Field::new("name", Type::new("String"));
    f.doc(vec!["/// The name."]).annotation(vec!["#[serde(default)]"]);
    s.push_field(f).unwrap();

    let mut fmt = Formatter::new();
    s.fmt(&mut fmt);
    let expect = "#[non_exhaustive]\n/// Settings.\n#[repr(C)]\npub struct Config {\n    /// The name.\n    #[serde(default)]\n    name: String,\n}\n";
    assert_eq!(fmt.as_str(), expect);
}

#[test]
fn field_doc_lines_are_written_as_given() {
    let mut f = Fields::Empty;
    let mut a = Field::new("a", Type::new("T"));
    a.doc(vec!["x"]);
    f.push_named(a).unwrap();
    let mut fmt = Formatter::new();
    f.fmt(&mut fmt);
    assert_eq!(fmt.as_str(), "{\n    x\n    a: T,\n}\n");
}

#[test]
fn docs_split_into_lines() {
    let d = Docs::new("first\r\nsecond\n\nfourth\n");
    let mut fmt = Formatter::new();
    d.fmt(&mut fmt);
    assert_eq!(fmt.as_str(), "/// first\n/// second\n/// \n/// fourth\n");

    let empty = Docs::new("");
    let mut fmt = Formatter::new();
    empty.fmt(&mut fmt);
    assert_eq!(fmt.as_str(), "");
}

#[test]
fn formatter_indents_each_line() {
    let mut fmt = Formatter::new();
    fmt.write("a");
    fmt.open_block();
    fmt.write("b\n\nc\n");
    fmt.close_block();
    assert_eq!(fmt.as_str(), "a {\n    b\n\n    c\n}\n");
    assert_eq!(fmt.depth(), 0);
    assert!(fmt.is_start_of_line());
}
