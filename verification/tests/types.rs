use jbcrs::{Error, MethodDescriptor, Type, TypeDescriptor};

fn td(s: &str) -> Result<TypeDescriptor, Error> {
    s.parse()
}

fn md(s: &str) -> Result<MethodDescriptor, Error> {
    s.parse()
}

fn at(result: Result<impl Sized, Error>) -> (String, usize) {
    match result {
        Err(Error::InvalidDescriptor { desc, at }) => (desc, at),
        _ => panic!("the descriptor should be invalid"),
    }
}

#[test]
fn td_parse() {
    assert_eq!(td("I").unwrap(), TypeDescriptor::new(0, Type::Int));
    assert_eq!(td("[[B").unwrap(), TypeDescriptor::new(2, Type::Byte));
    assert_eq!(
        td("[Ljava/lang/String;").unwrap(),
        TypeDescriptor::new(1, Type::Reference("java/lang/String".to_owned()))
    );
    assert_eq!(
        td(format!("{}I", "[".repeat(255)).as_ref()).unwrap(),
        TypeDescriptor::new(255, Type::Int)
    );

    // errors
    assert!(td("U").is_err()); // unknown tag
    assert!(td("IJ").is_err()); // multiple tags
    assert!(td("I[").is_err()); // array at wrong location
    assert!(td("Ljava/lang/String").is_err()); // no trailing semicolon
    assert!(td("Ljava/lang/String;;").is_err()); // too many trailing semicolons
    assert!(td("L;").is_err()); // empty name
    assert!(td("L").is_err()); // empty name and no semicolon
    assert!(td("Ljava/lang/String;I").is_err()); // multiple tags but with reference
    assert!(td(format!("{}I", "[".repeat(256)).as_ref()).is_err()); // too many dimensions
}

#[test]
fn md_parse() {
    assert_eq!(md("()V").unwrap(), MethodDescriptor::new(Vec::new(), None));
    assert_eq!(
        md("()[J").unwrap(),
        MethodDescriptor::new(Vec::new(), Some(TypeDescriptor::new(1, Type::Long)))
    );
    assert_eq!(
        md("([[Ljava/lang/String;I)V").unwrap(),
        MethodDescriptor::new(
            vec![
                TypeDescriptor::new(2, Type::Reference("java/lang/String".to_owned())),
                TypeDescriptor::new(0, Type::Int),
            ],
            None
        )
    );
    assert!(md("(U)V").is_err()); // unknown tag
    assert!(md("()U").is_err()); // unknown tag
    assert!(md("(V)V").is_err()); // void as argument
    assert!(md("()IJ").is_err()); // multiple return types
    assert!(md("(I[)V").is_err()); // array at wrong location
    assert!(md("()Ljava/lang/String").is_err()); // no trailing semicolon
    assert!(md("(Ljava/lang/String;;)V").is_err()); // too many trailing semicolons
    assert!(md("(L;)V").is_err()); // empty name
    assert!(md("(L)V").is_err()); // empty name and no semicolon
    assert!(md("()L;").is_err()); // empty name
    assert!(md("())V").is_err()); // multiple closing braces
    assert!(md("(()V").is_err()); // multiple opening braces
    assert!(md("{)V").is_err()); // invalid opening brace
    assert!(md("(V").is_err()); // no closing brace
    assert!(md(")V").is_err()); // no opening brace
    assert!(md("I").is_err()); // not a method descriptor
    assert!(md("").is_err()); // empty
    assert!(md("()[[V").is_err()); // multidimensional void
    assert!(md(format!("({}I)V", "[".repeat(256)).as_ref()).is_err()); // too many dimensions
    assert!(md(format!("({})V", "I".repeat(256)).as_ref()).is_err()); // too many parameters
}

#[test]
fn descriptor_parsing() {
    let desc = md("(Ljava/lang/String;II)[D").unwrap();
    assert_eq!(
        desc.params,
        vec![
            TypeDescriptor::new(0, Type::Reference("java/lang/String".to_owned())),
            TypeDescriptor::new(0, Type::Int),
            TypeDescriptor::new(0, Type::Int),
        ]
    );
    // one `[`: an array of one dimension
    assert_eq!(desc.return_type, Some(TypeDescriptor::new(1, Type::Double)));
    assert_eq!(desc.to_string(), "(Ljava/lang/String;II)[D");
}

#[test]
fn invalid_descriptor() {
    assert_eq!(at(td("L;")), ("L;".to_owned(), 1));
}

#[test]
fn every_primitive_tag() {
    let tags = [
        ("Z", Type::Boolean),
        ("B", Type::Byte),
        ("S", Type::Short),
        ("I", Type::Int),
        ("J", Type::Long),
        ("F", Type::Float),
        ("D", Type::Double),
        ("C", Type::Char),
    ];
    for (text, base) in tags {
        let parsed = td(text).unwrap();
        assert_eq!(parsed.dimensions, 0);
        assert_eq!(parsed.base_type, base);
        assert_eq!(parsed.to_string(), text);
        let method = md(&format!("({}){}", text, text)).unwrap();
        assert_eq!(method.params.len(), 1);
        assert_eq!(method.to_string(), format!("({}){}", text, text));
    }
    assert!(td("V").is_err());
}

#[test]
fn type_descriptor_error_offsets() {
    assert_eq!(at(td("")).1, 0);
    assert_eq!(at(td("[[")).1, 2);
    assert_eq!(at(td("U")).1, 0);
    assert_eq!(at(td("[U")).1, 1);
    assert_eq!(at(td("IJ")).1, 0);
    assert_eq!(at(td("[I[")).1, 1);
    assert_eq!(at(td("L")).1, 0);
    assert_eq!(at(td("Lab")).1, 2);
    assert_eq!(at(td("[Lab")).1, 3);
    assert_eq!(at(td("La;;")).1, 2);
    assert_eq!(at(td("La;I")).1, 2);
    assert_eq!(at(td("[L;")).1, 2);
    assert_eq!(at(td(&format!("{}I", "[".repeat(256)))).1, 255);
    assert_eq!(at(td(&"[".repeat(300))).1, 255);
    let (desc, _) = at(td("Ljava/lang/String"));
    assert_eq!(desc, "Ljava/lang/String");
}

#[test]
fn method_descriptor_error_offsets() {
    assert_eq!(at(md("")).1, 0);
    assert_eq!(at(md("I")).1, 0);
    assert_eq!(at(md(")V")).1, 0);
    assert_eq!(at(md("(")).1, 0);
    assert_eq!(at(md("(V")).1, 1);
    assert_eq!(at(md("(I")).1, 1);
    assert_eq!(at(md("()")).1, 1);
    assert_eq!(at(md("(U)V")).1, 1);
    assert_eq!(at(md("()U")).1, 2);
    assert_eq!(at(md("(V)V")).1, 1);
    assert_eq!(at(md("()IJ")).1, 2);
    assert_eq!(at(md("(I[)V")).1, 3);
    assert_eq!(at(md("()[[V")).1, 4);
    assert_eq!(at(md("())V")).1, 2);
    assert_eq!(at(md("(()V")).1, 1);
    assert_eq!(at(md("(L;)V")).1, 2);
    assert_eq!(at(md("(L)V")).1, 3);
    assert_eq!(at(md("()L;")).1, 3);
    assert_eq!(at(md("()Ljava/lang/String")).1, 18);
    assert_eq!(at(md("(Ljava/lang/String;;)V")).1, 19);
    assert_eq!(at(md(&format!("({}I)V", "[".repeat(256)))).1, 256);
    // 256 parameters: found out behind the return type
    assert_eq!(at(md(&format!("({})V", "I".repeat(256)))).1, 258);
    assert_eq!(md(&format!("({})V", "I".repeat(255))).unwrap().params.len(), 255);
}

#[test]
fn descriptors_are_written_as_they_were_read() {
    let types = ["I", "[[B", "[Ljava/lang/String;", "La;", "[[[[D", "L[;", "LL;"];
    for text in types.iter() {
        let parsed = td(text).unwrap();
        assert_eq!(parsed.to_string(), *text);
        assert_eq!(td(&parsed.to_string()).unwrap(), parsed);
    }
    let methods = [
        "()V",
        "()[J",
        "([[Ljava/lang/String;I)V",
        "(Ljava/lang/String;II)[D",
        "(ZBSIJFDC)La/b/C;",
        "([[DLjava/lang/Integer;)V",
    ];
    for text in methods.iter() {
        let parsed = md(text).unwrap();
        assert_eq!(parsed.to_string(), *text);
        assert_eq!(md(&parsed.to_string()).unwrap(), parsed);
    }
    assert_eq!(TypeDescriptor::new(2, Type::Float).to_string(), "[[F");
    assert_eq!(
        TypeDescriptor::new(2, Type::Reference("java/lang/Float".to_owned())).to_string(),
        "[[Ljava/lang/Float;"
    );
    assert_eq!(
        MethodDescriptor::new(
            vec![TypeDescriptor::new(0, Type::Reference("java/lang/Double".to_owned()))],
            Some(TypeDescriptor::new(0, Type::Long))
        )
        .to_string(),
        "(Ljava/lang/Double;)J"
    );
    assert_eq!(TypeDescriptor::from_str("[[[D").unwrap(), TypeDescriptor::new(3, Type::Double));
    assert_eq!(MethodDescriptor::from_str("()V").unwrap(), MethodDescriptor::new(Vec::new(), None));
}
