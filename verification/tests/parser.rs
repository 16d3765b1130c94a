use jbcrs::basic::parser::annotation::{
    parse_annotations, parse_element_value, parse_parameter_annotations, parse_target_type,
    parse_type_annotations, parse_type_path,
};
use jbcrs::basic::parser::class::{
    parse_bootstrap_methods, parse_enclosing_method, parse_inner_classes, parse_module,
    parse_module_packages,
};
use jbcrs::basic::parser::code::{parse_code, parse_instruction};
use jbcrs::basic::parser::decode::Decoder;
use jbcrs::basic::parser::method::{
    parse_exceptions, parse_line_number_table, parse_local_variable_table,
    parse_local_variable_type_table, parse_method_parameters, parse_stack_map_table,
    parse_verification_type,
};
use jbcrs::basic::parser::parse_attributes;
use jbcrs::basic::{
    parse, AccessFlags, ArrayType, Attribute, ElementValue, Error, Instruction, Item, Pool,
    ReferenceKind, StackMapFrame, TargetType, TypePathKind, VerificationType,
};

const HEAD: [u8; 8] = [0xCA, 0xFE, 0xBA, 0xBE, 0x00, 0x00, 0x00, 0x34];

fn class_file(pool: &[u8], rest: &[u8]) -> Vec<u8> {
    let mut bytes = HEAD.to_vec();
    bytes.extend_from_slice(pool);
    bytes.extend_from_slice(rest);
    bytes
}

fn insn(bytes: &[u8], at: u32) -> Result<(u32, Instruction), Error> {
    let mut decoder = Decoder::new(bytes);
    parse_instruction(&mut decoder, at)
}

fn show(insn: &Instruction) -> String {
    format!("{:?}", insn)
}

#[test]
fn empty_pool_header() {
    // pool count = 1, then flags, this, super, and four counts of zero
    let bytes = class_file(&[0, 1], &[0; 14]);
    let (pool, class) = parse(&bytes).unwrap();
    assert_eq!(pool.len(), 1);
    assert!(pool.is_empty());
    assert_eq!(class.name, 0);
    assert_eq!(class.super_name, 0);
    assert_eq!(class.minor_version, 0);
    assert_eq!(class.major_version, 0x34);
    assert_eq!(class.access_flags.bits(), 0);
    assert!(class.interfaces.is_empty());
    assert!(class.fields.is_empty());
    assert!(class.methods.is_empty());
    assert!(class.attributes.is_empty());
}

#[test]
fn class_that_ends_early_is_rejected() {
    // the count of the methods and that of the attributes are missing
    let bytes = class_file(&[0, 1], &[0; 10]);
    assert_eq!(parse(&bytes).err(), Some(Error::LimitExceeded));
    for len in 4..22 {
        let bytes = class_file(&[0, 1], &[0; 14]);
        assert_eq!(parse(&bytes[..len]).err(), Some(Error::LimitExceeded));
    }
}

#[test]
fn magic_gate() {
    assert_eq!(parse(&[0xCA, 0xFE, 0xBA, 0xBF, 0, 0, 0, 0x34]).err(), Some(Error::NotAClass));
    assert_eq!(parse(&[0, 0, 0, 0]).err(), Some(Error::NotAClass));
    assert_eq!(parse(b"PK\x03\x04 and more").err(), Some(Error::NotAClass));
    let mut bytes = class_file(&[0, 1], &[0; 14]);
    for i in 0..4 {
        bytes[i] ^= 0x10;
        assert_eq!(parse(&bytes).err(), Some(Error::NotAClass));
        bytes[i] ^= 0x10;
    }
    assert!(parse(&bytes).is_ok());
    // less than four bytes are no magic number at all
    assert_eq!(parse(&[]).err(), Some(Error::LimitExceeded));
    assert_eq!(parse(&[0xCA, 0xFE, 0xBA]).err(), Some(Error::LimitExceeded));
}

#[test]
fn constant_pool_items() {
    let pool_bytes = [
        0, 18, // the next free index
        1, 0, 2, 0xC0, 0x80, // 1: the string of U+0000
        3, 0xFF, 0xFF, 0xFF, 0xFE, // 2: int -2
        4, 0x3F, 0x80, 0, 0, // 3: float 1.0
        5, 0, 0, 0, 0, 0, 0, 0, 9, // 4: long 9
        6, 0x3F, 0xF0, 0, 0, 0, 0, 0, 0, // 6: double 1.0
        7, 0, 1, // 8: class
        8, 0, 1, // 9: string
        9, 0, 8, 0, 12, // 10: field
        10, 0, 8, 0, 12, // 11: method
        12, 0, 1, 0, 1, // 12: name and type
        11, 0, 8, 0, 12, // 13: interface method
        15, 9, 0, 13, // 14: method handle
        16, 0, 1, // 15: method type
        18, 0, 0, 0, 12, // 16: invoke dynamic
        19, 0, 1, // 17: module, and no package
    ];
    let (pool, _) = parse(&class_file(&pool_bytes, &[0; 14])).unwrap();
    assert_eq!(pool.len(), 18);
    assert_eq!(pool.get(1).unwrap(), &Item::UTF8("\u{0}".to_owned()));
    assert_eq!(pool.get(2).unwrap(), &Item::Integer(-2));
    assert_eq!(pool.get(3).unwrap(), &Item::Float(1.0f32.to_bits()));
    assert_eq!(pool.get(4).unwrap(), &Item::Long(9));
    assert_eq!(pool.get(5), Err(Error::InvalidCPItem(5)));
    assert_eq!(pool.get(6).unwrap(), &Item::Double(1.0f64.to_bits()));
    assert_eq!(pool.get(7), Err(Error::InvalidCPItem(7)));
    assert_eq!(pool.get(8).unwrap(), &Item::Class(1));
    assert_eq!(pool.get(9).unwrap(), &Item::String(1));
    assert_eq!(pool.get(10).unwrap(), &Item::FieldRef { class: 8, name_and_type: 12 });
    assert_eq!(pool.get(11).unwrap(), &Item::MethodRef { class: 8, name_and_type: 12 });
    assert_eq!(pool.get(12).unwrap(), &Item::NameAndType { name: 1, desc: 1 });
    assert_eq!(pool.get(13).unwrap(), &Item::InterfaceMethodRef { class: 8, name_and_type: 12 });
    assert_eq!(
        pool.get(14).unwrap(),
        &Item::MethodHandle { kind: ReferenceKind::InvokeInterface, index: 13 }
    );
    assert_eq!(pool.get(15).unwrap(), &Item::MethodType(1));
    assert_eq!(pool.get(16).unwrap(), &Item::InvokeDynamic { bootstrap_method: 0, name_and_type: 12 });
    assert_eq!(pool.get(17).unwrap(), &Item::Module(1));
    let (pool, _) = parse(&class_file(&[0, 2, 20, 0, 7], &[0; 14])).unwrap();
    assert_eq!(pool.get(1).unwrap(), &Item::Package(7));
}

#[test]
fn constant_pool_keeps_duplicates() {
    let (pool, _) = parse(&class_file(&[0, 3, 3, 0, 0, 0, 1, 3, 0, 0, 0, 1], &[0; 14])).unwrap();
    assert_eq!(pool.len(), 3);
    assert_eq!(pool.get(1).unwrap(), &Item::Integer(1));
    assert_eq!(pool.get(2).unwrap(), &Item::Integer(1));
}

#[test]
fn constant_pool_errors() {
    // an unknown tag, at the index 2
    let bytes = class_file(&[0, 3, 3, 0, 0, 0, 1, 2, 0, 0], &[0; 14]);
    assert_eq!(parse(&bytes).err(), Some(Error::InvalidCPItem(2)));
    // an unknown kind of method handle, behind a long: at the index 3
    let bytes = class_file(&[0, 4, 5, 0, 0, 0, 0, 0, 0, 0, 1, 15, 10, 0, 1], &[0; 14]);
    assert_eq!(parse(&bytes).err(), Some(Error::InvalidCPItem(3)));
    let bytes = class_file(&[0, 2, 15, 0, 0, 1], &[0; 14]);
    assert_eq!(parse(&bytes).err(), Some(Error::InvalidCPItem(1)));
    // a string that is no modified UTF-8
    let bytes = class_file(&[0, 2, 1, 0, 1, 0x00], &[0; 14]);
    assert_eq!(parse(&bytes).err(), Some(Error::InvalidUTF8));
    // a pool that ends early
    let bytes = class_file(&[0, 3, 7, 0, 1], &[]);
    assert_eq!(parse(&bytes).err(), Some(Error::LimitExceeded));
    // a full pool whose last item would take two indices
    let mut pool_bytes = vec![0xFF, 0xFF];
    for _ in 0..0xFFFD {
        pool_bytes.extend_from_slice(&[7, 0, 1]);
    }
    pool_bytes.extend_from_slice(&[5, 0, 0, 0, 0, 0, 0, 0, 1]);
    assert_eq!(parse(&class_file(&pool_bytes, &[0; 14])).err(), Some(Error::CPTooLarge));
}

#[test]
fn class_with_members() {
    let pool_bytes = [
        0, 4, //
        1, 0, 10, b'S', b'o', b'u', b'r', b'c', b'e', b'F', b'i', b'l', b'e', // 1
        1, 0, 10, b'D', b'e', b'p', b'r', b'e', b'c', b'a', b't', b'e', b'd', // 2
        1, 0, 3, b'F', b'o', b'o', // 3
    ];
    let rest = [
        0x00, 0x21, 0, 5, 0, 6, // flags, name, super name
        0, 2, 0, 7, 0, 8, // interfaces
        0, 1, // one field
        0, 2, 0, 9, 0, 10, 0, 1, 0, 2, 0, 0, 0, 0, // with the attribute Deprecated
        0, 1, // one method
        0, 1, 0, 11, 0, 12, 0, 0, // without attributes
        0, 2, // two attributes
        0, 1, 0, 0, 0, 2, 0, 3, // SourceFile
        0, 3, 0, 0, 0, 3, 1, 2, 3, // an unknown one
    ];
    let (pool, class) = parse(&class_file(&pool_bytes, &rest)).unwrap();
    assert_eq!(pool.len(), 4);
    assert_eq!(class.access_flags, AccessFlags::from_bits_truncate(0x21));
    assert!(class.access_flags.contains(AccessFlags::PUBLIC));
    assert!(class.access_flags.contains(AccessFlags::SUPER));
    assert!(!class.access_flags.contains(AccessFlags::FINAL));
    assert_eq!(class.name, 5);
    assert_eq!(class.super_name, 6);
    assert_eq!(class.interfaces, vec![7, 8]);
    assert_eq!(class.fields.len(), 1);
    assert_eq!(class.fields[0].access_flags.bits(), AccessFlags::PRIVATE);
    assert_eq!(class.fields[0].name, 9);
    assert_eq!(class.fields[0].desc, 10);
    assert!(matches!(class.fields[0].attributes[..], [Attribute::Deprecated]));
    assert_eq!(class.methods.len(), 1);
    assert_eq!(class.methods[0].name, 11);
    assert_eq!(class.methods[0].desc, 12);
    assert!(class.methods[0].attributes.is_empty());
    assert_eq!(class.attributes.len(), 2);
    assert!(matches!(class.attributes[0], Attribute::SourceFile(3)));
    match &class.attributes[1] {
        Attribute::Unknown(3, bytes) => assert_eq!(bytes, &vec![1, 2, 3]),
        _ => panic!("the attribute should be unknown"),
    }
}

fn named_pool(names: &[&str]) -> Pool {
    let mut pool = Pool::new();
    for name in names {
        pool.push_utf8((*name).to_owned()).unwrap();
    }
    pool
}

fn attributes(pool: &Pool, bytes: &[u8]) -> Result<Vec<Attribute>, Error> {
    let mut decoder = Decoder::new(bytes);
    parse_attributes(&mut decoder, pool)
}

#[test]
fn attribute_length_must_be_exact() {
    let pool = named_pool(&["SourceFile", "Deprecated", "Code"]);
    // the body takes two bytes
    assert!(matches!(
        attributes(&pool, &[0, 1, 0, 1, 0, 0, 0, 2, 0, 9]).unwrap()[..],
        [Attribute::SourceFile(9)]
    ));
    // one byte more than the body takes
    assert_eq!(
        attributes(&pool, &[0, 1, 0, 1, 0, 0, 0, 3, 0, 9, 0]).err(),
        Some(Error::LimitExceeded)
    );
    // one byte less
    assert_eq!(attributes(&pool, &[0, 1, 0, 1, 0, 0, 0, 1, 0, 9]).err(), Some(Error::LimitExceeded));
    // a body where there should be none
    assert_eq!(attributes(&pool, &[0, 1, 0, 2, 0, 0, 0, 1, 0]).err(), Some(Error::LimitExceeded));
    // a length that the input does not hold
    assert_eq!(attributes(&pool, &[0, 1, 0, 1, 0, 0, 0, 9, 0, 9]).err(), Some(Error::LimitExceeded));
    assert_eq!(
        attributes(&pool, &[0, 1, 0, 1, 0xFF, 0xFF, 0xFF, 0xFF, 0, 9]).err(),
        Some(Error::LimitExceeded)
    );
    // the name must be a string of the pool
    assert_eq!(attributes(&pool, &[0, 1, 0, 0, 0, 0, 0, 0]).err(), Some(Error::InvalidCPItem(0)));
    assert_eq!(attributes(&pool, &[0, 1, 0, 4, 0, 0, 0, 0]).err(), Some(Error::InvalidCPItem(4)));
    // two attributes, each of its own length
    let two = attributes(&pool, &[0, 2, 0, 2, 0, 0, 0, 0, 0, 1, 0, 0, 0, 2, 0, 7]).unwrap();
    assert!(matches!(two[..], [Attribute::Deprecated, Attribute::SourceFile(7)]));
}

#[test]
fn attributes_by_name() {
    let pool = named_pool(&[
        "ConstantValue",
        "Synthetic",
        "Signature",
        "ModuleMainClass",
        "SourceDebugExtension",
        "EnclosingMethod",
        "Exceptions",
        "ModulePackages",
        "AnnotationDefault",
        "EnclosingMethods",
    ]);
    let bytes = [
        0, 10, //
        0, 1, 0, 0, 0, 2, 0, 5, //
        0, 2, 0, 0, 0, 0, //
        0, 3, 0, 0, 0, 2, 0, 6, //
        0, 4, 0, 0, 0, 2, 0, 7, //
        0, 5, 0, 0, 0, 3, b'a', 0xC3, 0xA4, //
        0, 6, 0, 0, 0, 4, 0, 8, 0, 9, //
        0, 7, 0, 0, 0, 6, 0, 2, 0, 10, 0, 11, //
        0, 8, 0, 0, 0, 4, 0, 1, 0, 12, //
        0, 9, 0, 0, 0, 3, b'I', 0, 13, //
        0, 10, 0, 0, 0, 4, 0, 8, 0, 9, //
    ];
    let list = attributes(&pool, &bytes).unwrap();
    assert!(matches!(list[0], Attribute::ConstantValue(5)));
    assert!(matches!(list[1], Attribute::Synthetic));
    assert!(matches!(list[2], Attribute::Signature(6)));
    assert!(matches!(list[3], Attribute::ModuleMainClass(7)));
    match &list[4] {
        Attribute::SourceDebugExtension(text) => assert_eq!(text, "a\u{E4}"),
        _ => panic!("wrong attribute"),
    }
    assert!(matches!(list[5], Attribute::EnclosingMethod { class_index: 8, method_index: 9 }));
    match &list[6] {
        Attribute::Exceptions(v) => assert_eq!(v, &vec![10, 11]),
        _ => panic!("wrong attribute"),
    }
    match &list[7] {
        Attribute::ModulePackages(v) => assert_eq!(v, &vec![12]),
        _ => panic!("wrong attribute"),
    }
    assert!(matches!(list[8], Attribute::AnnotationDefault(ElementValue::Int(13))));
    // a name that is none of the attributes'
    assert!(matches!(list[9], Attribute::Unknown(10, _)));
}

#[test]
fn bipush() {
    let (end, parsed) = insn(&[0x10, 0x05], 0).unwrap();
    assert_eq!(end, 2);
    assert!(matches!(parsed, Instruction::BIPush(5)));
    assert!(matches!(insn(&[0x10, 0xFB], 7).unwrap(), (9, Instruction::BIPush(-5))));
}

#[test]
fn tableswitch_padding() {
    let code = [
        0x00, // nop
        0xAA, 0, 0, // the switch, and two bytes to reach the offset 4
        0, 0, 0, 0, // default
        0, 0, 0, 0, // low
        0, 0, 0, 1, // high
        0, 0, 0, 0, 0, 0, 0, 5, // the offsets
    ];
    let (end, parsed) = insn(&code[1..], 1).unwrap();
    assert_eq!(end as usize, code.len());
    match parsed {
        Instruction::TableSwitch { default, low, high, offsets } => {
            assert_eq!((default, low, high), (0, 0, 1));
            assert_eq!(offsets, vec![0, 5]);
        },
        _ => panic!("not a table switch"),
    }
    // at every offset, what follows the padding starts at a multiple of four
    for at in 0..8u32 {
        let padding = (3 - at % 4) as usize;
        let mut bytes = vec![0xAA];
        bytes.extend_from_slice(&vec![0; padding]);
        bytes.extend_from_slice(&[0, 0, 0, 9, 0, 0, 0, 3, 0, 0, 0, 2]);
        let (end, parsed) = insn(&bytes, at).unwrap();
        assert_eq!(end as usize, at as usize + bytes.len());
        assert_eq!((at as usize + 1 + padding) % 4, 0);
        // low above high: no offsets
        assert_eq!(show(&parsed), "TableSwitch { default: 9, low: 3, high: 2, offsets: [] }");
    }
    // offsets that are missing
    assert_eq!(
        insn(&[0xAA, 0, 0, 0, 0, 0, 0, 0, 0, 0, 0, 0, 0, 0, 0, 1, 0, 0, 0, 0], 0).err(),
        Some(Error::LimitExceeded)
    );
    assert_eq!(
        insn(&[0xAA, 0, 0, 0, 0, 0, 0, 0, 0x80, 0, 0, 0, 0x7F, 0xFF, 0xFF, 0xFF], 0).err(),
        Some(Error::LimitExceeded)
    );
}

#[test]
fn lookupswitch_is_sorted() {
    let bytes = [
        0xAB, 0, 0, 0, // at the offset 0: three bytes of padding
        0, 0, 0, 7, // default
        0, 0, 0, 3, // three pairs
        0, 0, 0, 9, 0, 0, 0, 1, //
        0xFF, 0xFF, 0xFF, 0xFF, 0, 0, 0, 2, //
        0, 0, 0, 9, 0, 0, 0, 3, // the match value 9 again
    ];
    let (end, parsed) = insn(&bytes, 0).unwrap();
    assert_eq!(end as usize, bytes.len());
    match parsed {
        Instruction::LookupSwitch { default, offsets } => {
            assert_eq!(default, 7);
            let pairs: Vec<(i32, i32)> = offsets.into_iter().collect();
            assert_eq!(pairs, vec![(-1, 2), (9, 3)]);
        },
        _ => panic!("not a lookup switch"),
    }
    assert_eq!(insn(&bytes[..bytes.len() - 1], 0).err(), Some(Error::LimitExceeded));
}

#[test]
fn instructions_with_operands() {
    assert_eq!(show(&insn(&[0x00], 0).unwrap().1), "NOP");
    assert_eq!(show(&insn(&[0xB1], 0).unwrap().1), "Return");
    assert_eq!(show(&insn(&[0xFF], 0).unwrap().1), "ImpDep2");
    assert_eq!(show(&insn(&[0x11, 0xFF, 0xFE], 0).unwrap().1), "SIPush(-2)");
    assert_eq!(show(&insn(&[0x12, 0xFF], 0).unwrap().1), "LDC(255)");
    assert_eq!(show(&insn(&[0x13, 0x01, 0x00], 0).unwrap().1), "LDC(256)");
    assert_eq!(show(&insn(&[0x14, 0x00, 0x02], 0).unwrap().1), "LDC(2)");
    assert_eq!(show(&insn(&[0x15, 0x07], 0).unwrap().1), "ILoad(7)");
    assert_eq!(show(&insn(&[0x19, 0xFF], 0).unwrap().1), "ALoad(255)");
    assert_eq!(show(&insn(&[0x3A, 0x01], 0).unwrap().1), "AStore(1)");
    assert_eq!(show(&insn(&[0x84, 0x02, 0xFF], 0).unwrap().1), "IInc(2, -1)");
    assert_eq!(show(&insn(&[0x99, 0x00, 0x10], 0).unwrap().1), "IfEq(16)");
    assert_eq!(show(&insn(&[0xA6, 0xFF, 0xF0], 0).unwrap().1), "IfACmpNE(-16)");
    assert_eq!(show(&insn(&[0xA7, 0xFF, 0xFF], 0).unwrap().1), "GoTo(-1)");
    assert_eq!(show(&insn(&[0xA8, 0x00, 0x03], 0).unwrap().1), "JSR(3)");
    assert_eq!(show(&insn(&[0xA9, 0x04], 0).unwrap().1), "Ret(4)");
    assert_eq!(show(&insn(&[0xB2, 0x01, 0x02], 0).unwrap().1), "GetStatic(258)");
    assert_eq!(show(&insn(&[0xB8, 0x00, 0x09], 0).unwrap().1), "InvokeStatic(9)");
    assert_eq!(show(&insn(&[0xB9, 0x00, 0x09, 0x02, 0x00], 0).unwrap().1), "InvokeInterface(9, 2)");
    assert_eq!(show(&insn(&[0xBA, 0x00, 0x09, 0x00, 0x00], 0).unwrap().1), "InvokeDynamic(9)");
    assert_eq!(show(&insn(&[0xBB, 0x00, 0x09], 0).unwrap().1), "New(9)");
    assert_eq!(show(&insn(&[0xBD, 0x00, 0x09], 0).unwrap().1), "ANewArray(9)");
    assert_eq!(show(&insn(&[0xC0, 0x00, 0x09], 0).unwrap().1), "CheckCast(9)");
    assert_eq!(show(&insn(&[0xC1, 0x00, 0x09], 0).unwrap().1), "InstanceOf(9)");
    assert_eq!(show(&insn(&[0xC5, 0x00, 0x09, 0x03], 0).unwrap().1), "MultiANewArray(9, 3)");
    assert_eq!(show(&insn(&[0xC6, 0x00, 0x09], 0).unwrap().1), "IfNull(9)");
    assert_eq!(show(&insn(&[0xC7, 0x00, 0x09], 0).unwrap().1), "IfNonNull(9)");
    assert_eq!(show(&insn(&[0xC8, 0x00, 0x01, 0x00, 0x00], 0).unwrap().1), "GoTo(65536)");
    assert_eq!(show(&insn(&[0xC9, 0xFF, 0xFF, 0xFF, 0xFF], 0).unwrap().1), "JSR(-1)");
    // the end is the offset plus the size
    assert_eq!(insn(&[0xB9, 0x00, 0x09, 0x02, 0x00, 0x00], 10).unwrap().0, 15);
    assert_eq!(insn(&[0x00, 0x00], 3).unwrap().0, 4);
}

#[test]
fn newarray_types() {
    let types = [
        (4, ArrayType::Boolean),
        (5, ArrayType::Char),
        (6, ArrayType::Float),
        (7, ArrayType::Double),
        (8, ArrayType::Byte),
        (9, ArrayType::Short),
        (10, ArrayType::Int),
        (11, ArrayType::Long),
    ];
    for (byte, array_type) in types {
        match insn(&[0xBC, byte], 0).unwrap().1 {
            Instruction::NewArray(t) => assert_eq!(t, array_type),
            _ => panic!("not a newarray"),
        }
    }
    assert_eq!(insn(&[0xBC, 3], 5).err(), Some(Error::InvalidInstruction { op_code: 0xBC, at: 5 }));
    assert_eq!(insn(&[0xBC, 12], 0).err(), Some(Error::InvalidInstruction { op_code: 0xBC, at: 0 }));
}

#[test]
fn wide_prefix() {
    assert_eq!(show(&insn(&[0xC4, 0x15, 0x01, 0x00], 0).unwrap().1), "ILoad(256)");
    assert_eq!(show(&insn(&[0xC4, 0x16, 0x01, 0x00], 0).unwrap().1), "LLoad(256)");
    assert_eq!(show(&insn(&[0xC4, 0x17, 0x01, 0x00], 0).unwrap().1), "FLoad(256)");
    assert_eq!(show(&insn(&[0xC4, 0x18, 0x01, 0x00], 0).unwrap().1), "DLoad(256)");
    assert_eq!(show(&insn(&[0xC4, 0x19, 0x01, 0x00], 0).unwrap().1), "ALoad(256)");
    assert_eq!(show(&insn(&[0xC4, 0x36, 0x01, 0x00], 0).unwrap().1), "IStore(256)");
    assert_eq!(show(&insn(&[0xC4, 0x37, 0x01, 0x00], 0).unwrap().1), "LStore(256)");
    assert_eq!(show(&insn(&[0xC4, 0x38, 0x01, 0x00], 0).unwrap().1), "FStore(256)");
    assert_eq!(show(&insn(&[0xC4, 0x39, 0x01, 0x00], 0).unwrap().1), "DStore(256)");
    assert_eq!(show(&insn(&[0xC4, 0x3A, 0x01, 0x00], 0).unwrap().1), "AStore(256)");
    assert_eq!(show(&insn(&[0xC4, 0xA9, 0x01, 0x00], 0).unwrap().1), "Ret(256)");
    assert_eq!(
        show(&insn(&[0xC4, 0x84, 0x01, 0x00, 0xFF, 0x00], 0).unwrap().1),
        "IInc(256, -256)"
    );
    assert_eq!(insn(&[0xC4, 0x84, 0x01, 0x00, 0xFF, 0x00], 4).unwrap().0, 10);
    assert_eq!(
        insn(&[0xC4, 0x00, 0, 0], 9).err(),
        Some(Error::InvalidInstruction { op_code: 0xC4, at: 9 })
    );
    assert_eq!(
        insn(&[0xC4, 0x40, 0, 0], 0).err(),
        Some(Error::InvalidInstruction { op_code: 0xC4, at: 0 })
    );
}

#[test]
fn unknown_opcodes() {
    for op in [0xCBu8, 0xD0, 0xFD] {
        assert_eq!(insn(&[op, 0, 0], 3).err(), Some(Error::InvalidInstruction { op_code: op, at: 3 }));
    }
    assert_eq!(insn(&[], 0).err(), Some(Error::LimitExceeded));
    assert_eq!(insn(&[0x11, 0x00], 0).err(), Some(Error::LimitExceeded));
    assert_eq!(insn(&[0xB9, 0, 1, 1], 0).err(), Some(Error::LimitExceeded));
    // every opcode is an instruction or an invalid one
    for op in 0..=255u8 {
        let bytes = [op, 4, 0x15, 0, 0, 0, 0, 0, 0, 0, 0, 0, 0, 0, 0, 0, 0, 0, 0, 0];
        match insn(&bytes, 0) {
            Ok((end, _)) => assert!(end >= 1 && end as usize <= bytes.len()),
            Err(e) => assert_eq!(e, Error::InvalidInstruction { op_code: op, at: 0 }),
        }
    }
}

#[test]
fn instruction_at_the_last_offsets() {
    // an instruction may end at the last offset that four bytes hold
    assert_eq!(show(&insn(&[0x00], u32::MAX - 1).unwrap().1), show(&Instruction::NOP));
    assert_eq!(insn(&[0x00], u32::MAX - 1).unwrap().0, u32::MAX);
    assert_eq!(insn(&[0x10, 0x05], u32::MAX - 2).unwrap().0, u32::MAX);
    // and not behind it
    assert_eq!(insn(&[0x00], u32::MAX).err(), Some(Error::LimitExceeded));
    assert_eq!(insn(&[0x10, 0x05], u32::MAX - 1).err(), Some(Error::LimitExceeded));
    // however much input follows
    let long = [0u8; 64];
    assert_eq!(insn(&long, u32::MAX - 1).unwrap().0, u32::MAX);
}

#[test]
fn code_attribute() {
    let pool = named_pool(&["LineNumberTable"]);
    let bytes = [
        0, 2, 0, 1, // max stack, max locals
        0, 0, 0, 5, // code length
        0x10, 0x05, 0x3C, 0x1B, 0xAC, // bipush 5; istore_1; iload_1; ireturn
        0, 1, 0, 0, 0, 4, 0, 4, 0, 9, // one exception handler
        0, 1, 0, 1, 0, 0, 0, 6, 0, 1, 0, 0, 0, 3, // the line number table
    ];
    let mut decoder = Decoder::new(&bytes);
    match parse_code(&mut decoder, &pool).unwrap() {
        Attribute::Code { max_stack, max_locals, instructions, exceptions, attributes } => {
            assert_eq!((max_stack, max_locals), (2, 1));
            // each instruction at its offset, nothing at the offsets within one
            assert_eq!(
                format!("{:?}", instructions),
                "[Some(BIPush(5)), None, Some(IStore1), Some(ILoad1), Some(IReturn)]"
            );
            assert_eq!(exceptions.len(), 1);
            assert_eq!(
                (exceptions[0].start, exceptions[0].end, exceptions[0].handler, exceptions[0].catch_type),
                (0, 4, 4, 9)
            );
            assert_eq!(format!("{:?}", attributes), "[LineNumberTable([LineNumber { start: 0, line_number: 3 }])]");
        },
        _ => panic!("not a code attribute"),
    }
    assert!(decoder.at_limit());
    // an instruction that passes the end of the code
    let bytes = [0, 0, 0, 0, 0, 0, 0, 1, 0x10, 0x05, 0, 0, 0, 0];
    assert_eq!(parse_code(&mut Decoder::new(&bytes), &pool).err(), Some(Error::LimitExceeded));
    // an unknown opcode within the code
    let bytes = [0, 0, 0, 0, 0, 0, 0, 2, 0x00, 0xCB, 0, 0, 0, 0];
    assert_eq!(
        parse_code(&mut Decoder::new(&bytes), &pool).err(),
        Some(Error::InvalidInstruction { op_code: 0xCB, at: 1 })
    );
    // a switch within a code: padded by its offset in the code
    let bytes = [
        0, 0, 0, 0, 0, 0, 0, 16, 0x00, 0xAA, 0, 0, 0, 0, 0, 1, 0, 0, 0, 1, 0, 0, 0, 0, 0, 0, 0,
        0, 0, 0,
    ];
    match parse_code(&mut Decoder::new(&bytes), &pool).unwrap() {
        Attribute::Code { instructions, .. } => {
            assert_eq!(instructions.len(), 16);
            assert!(matches!(instructions[0], Some(Instruction::NOP)));
            assert!(matches!(instructions[1], Some(Instruction::TableSwitch { .. })));
            assert!(instructions[2..].iter().all(|i| i.is_none()));
        },
        _ => panic!("not a code attribute"),
    }
}

#[test]
fn stack_map_frames() {
    let bytes = [
        0, 8, //
        10, // same
        64 + 5, 1, // same with one stack item
        247, 0, 100, 7, 0, 9, // the same, extended
        249, 0, 3, // chop two
        251, 1, 0, // same, extended
        253, 0, 4, 2, 8, 0, 6, // append two
        255, 0, 5, 0, 1, 0, 0, 2, 3, 4, // full
        63, // same
    ];
    let mut decoder = Decoder::new(&bytes);
    let table = match parse_stack_map_table(&mut decoder).unwrap() {
        Attribute::StackMapTable(table) => table,
        _ => panic!("not a stack map table"),
    };
    assert!(decoder.at_limit());
    assert!(matches!(table[0], StackMapFrame::Same { offset_delta: 10 }));
    assert!(matches!(
        table[1],
        StackMapFrame::Same1 { offset_delta: 5, stack: VerificationType::Integer }
    ));
    assert!(matches!(
        table[2],
        StackMapFrame::Same1 { offset_delta: 100, stack: VerificationType::Object(9) }
    ));
    assert!(matches!(table[3], StackMapFrame::Chop { offset_delta: 3, count: 2 }));
    assert!(matches!(table[4], StackMapFrame::Same { offset_delta: 256 }));
    match &table[5] {
        StackMapFrame::Append { offset_delta: 4, locals } => {
            assert_eq!(locals, &vec![VerificationType::Float, VerificationType::Uninitialized(6)])
        },
        _ => panic!("not an append frame"),
    }
    match &table[6] {
        StackMapFrame::Full { offset_delta: 5, locals, stack } => {
            assert_eq!(locals, &vec![VerificationType::Top]);
            assert_eq!(stack, &vec![VerificationType::Double, VerificationType::Long]);
        },
        _ => panic!("not a full frame"),
    }
    assert!(matches!(table[7], StackMapFrame::Same { offset_delta: 63 }));
    for reserved in [128u8, 200, 246] {
        assert_eq!(
            parse_stack_map_table(&mut Decoder::new(&[0, 1, reserved])).err(),
            Some(Error::ReservedStackMapFrame(reserved))
        );
    }
    assert_eq!(
        parse_stack_map_table(&mut Decoder::new(&[0, 1, 64, 9])).err(),
        Some(Error::InvalidVerificationType(9))
    );
}

#[test]
fn verification_types() {
    let types = [
        VerificationType::Top,
        VerificationType::Integer,
        VerificationType::Float,
        VerificationType::Double,
        VerificationType::Long,
        VerificationType::Null,
        VerificationType::UninitializedThis,
    ];
    for (tag, expected) in types.iter().enumerate() {
        assert_eq!(parse_verification_type(&mut Decoder::new(&[tag as u8])).unwrap(), *expected);
    }
    assert_eq!(
        parse_verification_type(&mut Decoder::new(&[7, 1, 2])).unwrap(),
        VerificationType::Object(0x0102)
    );
    assert_eq!(
        parse_verification_type(&mut Decoder::new(&[8, 1, 2])).unwrap(),
        VerificationType::Uninitialized(0x0102)
    );
    assert_eq!(
        parse_verification_type(&mut Decoder::new(&[9])).err(),
        Some(Error::InvalidVerificationType(9))
    );
    assert_eq!(
        parse_verification_type(&mut Decoder::new(&[255])).err(),
        Some(Error::InvalidVerificationType(255))
    );
    assert_eq!(parse_verification_type(&mut Decoder::new(&[7, 1])).err(), Some(Error::LimitExceeded));
}

#[test]
fn method_tables() {
    assert_eq!(
        format!("{:?}", parse_exceptions(&mut Decoder::new(&[0, 2, 0, 1, 0, 2])).unwrap()),
        "Exceptions([1, 2])"
    );
    assert_eq!(
        format!("{:?}", parse_line_number_table(&mut Decoder::new(&[0, 1, 0, 5, 0, 6])).unwrap()),
        "LineNumberTable([LineNumber { start: 5, line_number: 6 }])"
    );
    assert_eq!(
        format!(
            "{:?}",
            parse_local_variable_table(&mut Decoder::new(&[0, 1, 0, 1, 0, 2, 0, 3, 0, 4, 0, 5])).unwrap()
        ),
        "LocalVariableTable([LocalVariable { start: 1, length: 2, name: 3, descriptor: 4, index: 5 }])"
    );
    assert_eq!(
        format!(
            "{:?}",
            parse_local_variable_type_table(&mut Decoder::new(&[0, 1, 0, 1, 0, 2, 0, 3, 0, 4, 0, 5]))
                .unwrap()
        ),
        "LocalVariableTypeTable([LocalVariableType { start: 1, length: 2, name: 3, signature: 4, index: 5 }])"
    );
    assert_eq!(
        format!("{:?}", parse_method_parameters(&mut Decoder::new(&[0, 1, 0, 7, 0x80, 0x10])).unwrap()),
        "MethodParameters([MethodParameter { name: 7, access_flags: AccessFlags { bits: 32784 } }])"
    );
    assert_eq!(
        parse_line_number_table(&mut Decoder::new(&[0, 2, 0, 5, 0, 6])).err(),
        Some(Error::LimitExceeded)
    );
}

#[test]
fn class_tables() {
    assert_eq!(
        format!(
            "{:?}",
            parse_bootstrap_methods(&mut Decoder::new(&[0, 2, 0, 1, 0, 2, 0, 8, 0, 9, 0, 3, 0, 0])).unwrap()
        ),
        "BootstrapMethods([BootstrapMethod { method_ref: 1, arguments: [8, 9] }, \
         BootstrapMethod { method_ref: 3, arguments: [] }])"
    );
    assert_eq!(
        format!("{:?}", parse_enclosing_method(&mut Decoder::new(&[0, 1, 0, 2])).unwrap()),
        "EnclosingMethod { class_index: 1, method_index: 2 }"
    );
    assert_eq!(
        format!("{:?}", parse_inner_classes(&mut Decoder::new(&[0, 1, 0, 1, 0, 2, 0, 3, 0, 8])).unwrap()),
        "InnerClasses([InnerClass { inner_class_info: 1, outer_class_info: 2, inner_name: 3, \
         inner_class_access_flags: AccessFlags { bits: 8 } }])"
    );
    assert_eq!(
        format!("{:?}", parse_module_packages(&mut Decoder::new(&[0, 1, 0, 4])).unwrap()),
        "ModulePackages([4])"
    );
    let module = [
        0, 1, 0x00, 0x20, 0, 2, // name, flags, version
        0, 1, 0, 3, 0x00, 0x40, 0, 4, // requires
        0, 1, 0, 5, 0, 0, 0, 2, 0, 6, 0, 7, // exports
        0, 1, 0, 8, 0, 0, 0, 0, // opens
        0, 2, 0, 9, 0, 10, // uses
        0, 1, 0, 11, 0, 1, 0, 12, // provides
    ];
    assert_eq!(
        format!("{:?}", parse_module(&mut Decoder::new(&module)).unwrap()),
        "Module { name: 1, flags: AccessFlags { bits: 32 }, version: 2, \
         requires: [Requirement { index: 3, flags: AccessFlags { bits: 64 }, version: 4 }], \
         exports: [Export { index: 5, flags: AccessFlags { bits: 0 }, to: [6, 7] }], \
         opens: [Opening { index: 8, flags: AccessFlags { bits: 0 }, to: [] }], \
         uses: [9, 10], provides: [Provider { index: 11, with: [12] }] }"
    );
    assert_eq!(
        parse_module(&mut Decoder::new(&module[..module.len() - 1])).err(),
        Some(Error::LimitExceeded)
    );
}

#[test]
fn element_values() {
    let tags = "BSCIJFDZsc";
    let names =
        ["Byte", "Short", "Char", "Int", "Long", "Float", "Double", "Boolean", "String", "Class"];
    for (tag, name) in tags.bytes().zip(names.iter()) {
        let value = parse_element_value(&mut Decoder::new(&[tag, 0, 3])).unwrap();
        assert_eq!(format!("{:?}", value), format!("{}(3)", name));
    }
    assert_eq!(
        format!("{:?}", parse_element_value(&mut Decoder::new(&[b'e', 0, 1, 0, 2])).unwrap()),
        "Enum { enum_type: 1, const_name: 2 }"
    );
    assert_eq!(
        format!(
            "{:?}",
            parse_element_value(&mut Decoder::new(&[b'@', 0, 1, 0, 1, 0, 2, b'I', 0, 3])).unwrap()
        ),
        "Annotation(Annotation { type_index: 1, element_value_pairs: [(2, Int(3))] })"
    );
    assert_eq!(
        format!(
            "{:?}",
            parse_element_value(&mut Decoder::new(&[
                b'[', 0, 2, b'[', 0, 1, b's', 0, 4, b'[', 0, 0
            ]))
            .unwrap()
        ),
        "Array([Array([String(4)]), Array([])])"
    );
    assert_eq!(
        parse_element_value(&mut Decoder::new(&[b'x', 0, 3])).err(),
        Some(Error::InvalidElementValue(b'x'))
    );
    assert_eq!(
        parse_element_value(&mut Decoder::new(&[b'[', 0, 1, 0, 0, 0])).err(),
        Some(Error::InvalidElementValue(0))
    );
    assert_eq!(
        parse_element_value(&mut Decoder::new(&[b'[', 0, 2, b'I', 0, 1])).err(),
        Some(Error::LimitExceeded)
    );
}

#[test]
fn annotations() {
    let bytes = [0, 2, 0, 1, 0, 0, 0, 2, 0, 1, 0, 3, b'Z', 0, 4];
    assert_eq!(
        format!("{:?}", parse_annotations(&mut Decoder::new(&bytes)).unwrap()),
        "[Annotation { type_index: 1, element_value_pairs: [] }, \
         Annotation { type_index: 2, element_value_pairs: [(3, Boolean(4))] }]"
    );
    let bytes = [2, 0, 1, 0, 1, 0, 0, 0, 0];
    assert_eq!(
        format!("{:?}", parse_parameter_annotations(&mut Decoder::new(&bytes)).unwrap()),
        "[[Annotation { type_index: 1, element_value_pairs: [] }], []]"
    );
    assert_eq!(
        parse_parameter_annotations(&mut Decoder::new(&[1, 0, 1])).err(),
        Some(Error::LimitExceeded)
    );
}

#[test]
fn type_annotations() {
    let bytes = [
        0, 2, //
        0x13, 0, 0, 7, 0, 0, // on a field, no path
        0x40, 1, 0, 1, 0, 2, 0, 3, 2, 0, 0, 3, 4, 0, 8, 0, 0, // on a local variable
    ];
    assert_eq!(
        format!("{:?}", parse_type_annotations(&mut Decoder::new(&bytes)).unwrap()),
        "[TypeAnnotation { target_type: EmptyField, target_path: [], \
         annotation: Annotation { type_index: 7, element_value_pairs: [] } }, \
         TypeAnnotation { target_type: LocalVariable([LocalVariableTarget { start: 1, length: 2, index: 3 }]), \
         target_path: [TypePathElement { path_kind: ArrayType, argument_index: 0 }, \
         TypePathElement { path_kind: Type, argument_index: 4 }], \
         annotation: Annotation { type_index: 8, element_value_pairs: [] } }]"
    );
}

#[test]
fn target_types() {
    let cases: [(&[u8], &str); 22] = [
        (&[0x00, 1], "TypeParameterClass(1)"),
        (&[0x01, 2], "TypeParameterMethod(2)"),
        (&[0x10, 0xFF, 0xFF], "SuperType(65535)"),
        (&[0x11, 1, 2], "TypeParameterBoundClass { type_parameter: 1, bound_index: 2 }"),
        (&[0x12, 3, 4], "TypeParameterBoundMethod { type_parameter: 3, bound_index: 4 }"),
        (&[0x13], "EmptyField"),
        (&[0x14], "EmptyReturn"),
        (&[0x15], "EmptyReceiver"),
        (&[0x16, 5], "FormalParameter(5)"),
        (&[0x17, 0, 6], "Throws(6)"),
        (&[0x40, 0], "LocalVariable([])"),
        (&[0x41, 1, 0, 1, 0, 2, 0, 3], "ResourceVariable([LocalVariableTarget { start: 1, length: 2, index: 3 }])"),
        (&[0x42, 0, 7], "Catch(7)"),
        (&[0x43, 0, 8], "OffsetInstanceOf(8)"),
        (&[0x44, 0, 9], "OffsetNew(9)"),
        (&[0x45, 0, 10], "OffsetNewRef(10)"),
        (&[0x46, 0, 11], "OffsetRef(11)"),
        (&[0x47, 0, 1, 2], "TypeArgumentCast { offset: 1, type_argument: 2 }"),
        (&[0x48, 0, 1, 2], "TypeArgumentConstructor { offset: 1, type_argument: 2 }"),
        (&[0x49, 0, 1, 2], "TypeArgumentMethod { offset: 1, type_argument: 2 }"),
        (&[0x4A, 0, 1, 2], "TypeArgumentNewRef { offset: 1, type_argument: 2 }"),
        (&[0x4B, 0, 1, 2], "TypeArgumentRef { offset: 1, type_argument: 2 }"),
    ];
    for (bytes, expected) in cases.iter() {
        let mut decoder = Decoder::new(bytes);
        let target: TargetType = parse_target_type(&mut decoder).unwrap();
        assert_eq!(format!("{:?}", target), *expected);
        assert!(decoder.at_limit());
    }
    for byte in [0x02u8, 0x18, 0x3F, 0x4C, 0xFF] {
        assert_eq!(
            parse_target_type(&mut Decoder::new(&[byte, 0, 0, 0])).err(),
            Some(Error::InvalidTargetType)
        );
    }
}

#[test]
fn type_paths() {
    let path = parse_type_path(&mut Decoder::new(&[4, 0, 0, 1, 0, 2, 0, 3, 9])).unwrap();
    let kinds: Vec<TypePathKind> = path.iter().map(|e| e.path_kind).collect();
    assert_eq!(
        kinds,
        vec![
            TypePathKind::ArrayType,
            TypePathKind::NestedType,
            TypePathKind::WildcardType,
            TypePathKind::Type
        ]
    );
    assert_eq!(path[3].argument_index, 9);
    assert_eq!(parse_type_path(&mut Decoder::new(&[1, 4, 0])).err(), Some(Error::InvalidTypePath));
    assert_eq!(parse_type_path(&mut Decoder::new(&[1, 3])).err(), Some(Error::LimitExceeded));
}
