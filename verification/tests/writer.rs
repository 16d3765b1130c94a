use std::collections::BTreeMap;

use jbcrs::basic::parser::code::{parse_code, parse_instruction};
use jbcrs::basic::parser::decode::Decoder;
use jbcrs::basic::writer::attribute::{write_attribute, write_attributes};
use jbcrs::basic::writer::code::{write_code_stream, write_instruction};
use jbcrs::basic::writer::encode::Encoder;
use jbcrs::basic::{
    parse, AccessFlags, Annotation, ArrayType, Attribute, BootstrapMethod, Class, ElementValue,
    Error, Exception, Export, Field, InnerClass, Instruction, Item, LineNumber, LocalVariable,
    LocalVariableTarget, LocalVariableType, Method, MethodParameter, Opening, Pool, Provider,
    ReferenceKind, Requirement, StackMapFrame, TargetType, TypeAnnotation, TypePathElement,
    TypePathKind, VerificationType,
};

fn encode(insn: &Instruction, before: usize, pool: &Pool) -> Result<Vec<u8>, Error> {
    let mut encoder = Encoder::new();
    for _ in 0..before {
        encoder.write_u8(0);
    }
    write_instruction(&mut encoder, insn, pool)?;
    Ok(encoder.bytes()[before..].to_vec())
}

fn reencode(bytes: &[u8], at: u32) -> Vec<u8> {
    let (_, insn) = parse_instruction(&mut Decoder::new(bytes), at).unwrap();
    encode(&insn, at as usize, &Pool::new()).unwrap()
}

#[test]
fn bipush_is_written_as_it_was_read() {
    assert_eq!(reencode(&[0x10, 0x05], 0), vec![0x10, 0x05]);
    assert_eq!(encode(&Instruction::BIPush(5), 0, &Pool::new()).unwrap(), vec![0x10, 0x05]);
    assert_eq!(encode(&Instruction::BIPush(-1), 3, &Pool::new()).unwrap(), vec![0x10, 0xFF]);
}

#[test]
fn tableswitch_is_written_as_it_was_read() {
    let code = [
        0x00, 0xAA, 0, 0, 0, 0, 0, 0, 0, 0, 0, 0, 0, 0, 0, 1, 0, 0, 0, 0, 0, 0, 0, 5,
    ];
    assert_eq!(reencode(&code[1..], 1), code[1..].to_vec());
    let mut encoder = Encoder::new();
    let instructions = vec![
        Some(Instruction::NOP),
        Some(Instruction::TableSwitch { default: 0, low: 0, high: 1, offsets: vec![0, 5] }),
    ];
    write_code_stream(&mut encoder, &instructions, &Pool::new()).unwrap();
    let mut expected = vec![0, 0, 0, 24];
    expected.extend_from_slice(&code);
    assert_eq!(encoder.bytes(), expected);
}

#[test]
fn switches_are_padded_to_a_multiple_of_four() {
    let pool = Pool::new();
    let table = Instruction::TableSwitch { default: 1, low: 5, high: 5, offsets: vec![9] };
    let mut pairs = BTreeMap::new();
    pairs.insert(7, 70);
    pairs.insert(-3, 30);
    pairs.insert(5, 50);
    let lookup = Instruction::LookupSwitch { default: 2, offsets: pairs };
    for at in 0..9usize {
        let padding = 3 - at % 4;
        let bytes = encode(&table, at, &pool).unwrap();
        assert_eq!(bytes[0], 0xAA);
        assert!(bytes[1..1 + padding].iter().all(|b| *b == 0));
        assert_eq!((at + 1 + padding) % 4, 0);
        assert_eq!(
            bytes[1 + padding..],
            [0, 0, 0, 1, 0, 0, 0, 5, 0, 0, 0, 5, 0, 0, 0, 9]
        );
        assert_eq!(reencode(&bytes, at as u32), bytes);

        let bytes = encode(&lookup, at, &pool).unwrap();
        assert_eq!(bytes[0], 0xAB);
        assert!(bytes[1..1 + padding].iter().all(|b| *b == 0));
        // the pairs in ascending order of their match values
        assert_eq!(
            bytes[1 + padding..],
            [
                0, 0, 0, 2, 0, 0, 0, 3, 0xFF, 0xFF, 0xFF, 0xFD, 0, 0, 0, 30, 0, 0, 0, 5, 0, 0, 0,
                50, 0, 0, 0, 7, 0, 0, 0, 70
            ]
        );
        assert_eq!(reencode(&bytes, at as u32), bytes);
    }
    let empty = Instruction::LookupSwitch { default: 0, offsets: BTreeMap::new() };
    assert_eq!(encode(&empty, 3, &pool).unwrap(), vec![0xAB, 0, 0, 0, 0, 0, 0, 0, 0]);
}

#[test]
fn table_switch_needs_its_offsets() {
    let pool = Pool::new();
    let short = Instruction::TableSwitch { default: 0, low: 0, high: 2, offsets: vec![1, 2] };
    assert_eq!(
        encode(&short, 6, &pool).err(),
        Some(Error::InvalidInstruction { op_code: 0xAA, at: 6 })
    );
    let long = Instruction::TableSwitch { default: 0, low: 2, high: 0, offsets: vec![1] };
    assert_eq!(
        encode(&long, 0, &pool).err(),
        Some(Error::InvalidInstruction { op_code: 0xAA, at: 0 })
    );
    let none = Instruction::TableSwitch { default: 0, low: 2, high: 0, offsets: vec![] };
    assert_eq!(encode(&none, 3, &pool).unwrap().len(), 13);
    let extreme =
        Instruction::TableSwitch { default: 0, low: i32::MIN, high: i32::MAX, offsets: vec![] };
    assert!(encode(&extreme, 0, &pool).is_err());
}

#[test]
fn operands_take_the_opcode_of_their_size() {
    let mut pool = Pool::new();
    pool.push(Item::Integer(1)).unwrap(); // 1
    pool.push(Item::Long(2)).unwrap(); // 2
    pool.push(Item::Double(3)).unwrap(); // 4
    let cases: Vec<(Instruction, Vec<u8>)> = vec![
        (Instruction::NOP, vec![0x00]),
        (Instruction::AConstNull, vec![0x01]),
        (Instruction::DConst1, vec![0x0F]),
        (Instruction::ILoad0, vec![0x1A]),
        (Instruction::SALoad, vec![0x35]),
        (Instruction::IStore0, vec![0x3B]),
        (Instruction::LXOr, vec![0x83]),
        (Instruction::I2L, vec![0x85]),
        (Instruction::DCmpG, vec![0x98]),
        (Instruction::IReturn, vec![0xAC]),
        (Instruction::Return, vec![0xB1]),
        (Instruction::ArrayLength, vec![0xBE]),
        (Instruction::AThrow, vec![0xBF]),
        (Instruction::MonitorEnter, vec![0xC2]),
        (Instruction::MonitorExit, vec![0xC3]),
        (Instruction::BreakPoint, vec![0xCA]),
        (Instruction::ImpDep1, vec![0xFE]),
        (Instruction::ImpDep2, vec![0xFF]),
        (Instruction::SIPush(-2), vec![0x11, 0xFF, 0xFE]),
        (Instruction::LDC(1), vec![0x12, 0x01]),
        (Instruction::LDC(255), vec![0x12, 0xFF]),
        (Instruction::LDC(256), vec![0x13, 0x01, 0x00]),
        (Instruction::LDC(2), vec![0x14, 0x00, 0x02]),
        (Instruction::LDC(4), vec![0x14, 0x00, 0x04]),
        (Instruction::LDC(3), vec![0x12, 0x03]),
        (Instruction::ILoad(255), vec![0x15, 0xFF]),
        (Instruction::ILoad(256), vec![0xC4, 0x15, 0x01, 0x00]),
        (Instruction::LLoad(1), vec![0x16, 0x01]),
        (Instruction::FLoad(1), vec![0x17, 0x01]),
        (Instruction::DLoad(1), vec![0x18, 0x01]),
        (Instruction::ALoad(1), vec![0x19, 0x01]),
        (Instruction::IStore(1), vec![0x36, 0x01]),
        (Instruction::LStore(1), vec![0x37, 0x01]),
        (Instruction::FStore(1), vec![0x38, 0x01]),
        (Instruction::DStore(1), vec![0x39, 0x01]),
        (Instruction::AStore(1), vec![0x3A, 0x01]),
        (Instruction::AStore(0x1234), vec![0xC4, 0x3A, 0x12, 0x34]),
        (Instruction::Ret(2), vec![0xA9, 0x02]),
        (Instruction::Ret(0x100), vec![0xC4, 0xA9, 0x01, 0x00]),
        (Instruction::IInc(2, -1), vec![0x84, 0x02, 0xFF]),
        (Instruction::IInc(2, 127), vec![0x84, 0x02, 0x7F]),
        (Instruction::IInc(2, 128), vec![0xC4, 0x84, 0x00, 0x02, 0x00, 0x80]),
        (Instruction::IInc(2, -129), vec![0xC4, 0x84, 0x00, 0x02, 0xFF, 0x7F]),
        (Instruction::IInc(256, 1), vec![0xC4, 0x84, 0x01, 0x00, 0x00, 0x01]),
        (Instruction::IfEq(16), vec![0x99, 0x00, 0x10]),
        (Instruction::IfACmpNE(-16), vec![0xA6, 0xFF, 0xF0]),
        (Instruction::IfNull(1), vec![0xC6, 0x00, 0x01]),
        (Instruction::IfNonNull(1), vec![0xC7, 0x00, 0x01]),
        (Instruction::GoTo(-1), vec![0xA7, 0xFF, 0xFF]),
        (Instruction::GoTo(0x7FFF), vec![0xA7, 0x7F, 0xFF]),
        (Instruction::GoTo(0x8000), vec![0xC8, 0x00, 0x00, 0x80, 0x00]),
        (Instruction::GoTo(-0x8000), vec![0xA7, 0x80, 0x00]),
        (Instruction::GoTo(-0x8001), vec![0xC8, 0xFF, 0xFF, 0x7F, 0xFF]),
        (Instruction::JSR(3), vec![0xA8, 0x00, 0x03]),
        (Instruction::JSR(0x10000), vec![0xC9, 0x00, 0x01, 0x00, 0x00]),
        (Instruction::GetStatic(258), vec![0xB2, 0x01, 0x02]),
        (Instruction::PutStatic(1), vec![0xB3, 0x00, 0x01]),
        (Instruction::GetField(1), vec![0xB4, 0x00, 0x01]),
        (Instruction::PutField(1), vec![0xB5, 0x00, 0x01]),
        (Instruction::InvokeVirtual(1), vec![0xB6, 0x00, 0x01]),
        (Instruction::InvokeSpecial(1), vec![0xB7, 0x00, 0x01]),
        (Instruction::InvokeStatic(1), vec![0xB8, 0x00, 0x01]),
        (Instruction::InvokeInterface(9, 2), vec![0xB9, 0x00, 0x09, 0x02, 0x00]),
        (Instruction::InvokeDynamic(9), vec![0xBA, 0x00, 0x09, 0x00, 0x00]),
        (Instruction::New(9), vec![0xBB, 0x00, 0x09]),
        (Instruction::NewArray(ArrayType::Boolean), vec![0xBC, 4]),
        (Instruction::NewArray(ArrayType::Char), vec![0xBC, 5]),
        (Instruction::NewArray(ArrayType::Float), vec![0xBC, 6]),
        (Instruction::NewArray(ArrayType::Double), vec![0xBC, 7]),
        (Instruction::NewArray(ArrayType::Byte), vec![0xBC, 8]),
        (Instruction::NewArray(ArrayType::Short), vec![0xBC, 9]),
        (Instruction::NewArray(ArrayType::Int), vec![0xBC, 10]),
        (Instruction::NewArray(ArrayType::Long), vec![0xBC, 11]),
        (Instruction::ANewArray(9), vec![0xBD, 0x00, 0x09]),
        (Instruction::CheckCast(9), vec![0xC0, 0x00, 0x09]),
        (Instruction::InstanceOf(9), vec![0xC1, 0x00, 0x09]),
        (Instruction::MultiANewArray(9, 3), vec![0xC5, 0x00, 0x09, 0x03]),
    ];
    for (insn, bytes) in cases.iter() {
        assert_eq!(&encode(insn, 0, &pool).unwrap(), bytes);
        let (end, parsed) = parse_instruction(&mut Decoder::new(bytes), 0).unwrap();
        assert_eq!(end as usize, bytes.len());
        assert_eq!(format!("{:?}", parsed), format!("{:?}", insn));
    }
}

#[test]
fn every_opcode_is_written_as_it_was_read() {
    let pool = Pool::new();
    for op in 0..=255u8 {
        if op == 0x13 || op == 0x14 || op == 0xAA || op == 0xAB || op == 0xC4 || op == 0xC8
            || op == 0xC9
        {
            // these are written in their short form where that is enough
            continue;
        }
        let bytes = [op, 4, 0x15, 0, 0, 0, 0, 0];
        if let Ok((end, insn)) = parse_instruction(&mut Decoder::new(&bytes), 0) {
            assert_eq!(encode(&insn, 0, &pool).unwrap(), bytes[..end as usize].to_vec());
        }
    }
}

#[test]
fn code_stream_skips_entries_without_instruction() {
    let pool = Pool::new();
    let padded = vec![
        Some(Instruction::BIPush(5)),
        None,
        Some(Instruction::IStore1),
        Some(Instruction::Return),
    ];
    let dense =
        vec![Some(Instruction::BIPush(5)), Some(Instruction::IStore1), Some(Instruction::Return)];
    for instructions in [padded, dense] {
        let mut encoder = Encoder::new();
        write_code_stream(&mut encoder, &instructions, &pool).unwrap();
        assert_eq!(encoder.bytes(), vec![0, 0, 0, 4, 0x10, 0x05, 0x3C, 0xB1]);
    }
    let mut encoder = Encoder::new();
    write_code_stream(&mut encoder, &Vec::new(), &pool).unwrap();
    assert_eq!(encoder.bytes(), vec![0, 0, 0, 0]);
}

fn code_of(code: &[u8]) -> Vec<Option<Instruction>> {
    let mut body = vec![0, 1, 0, 1, 0, 0, 0, code.len() as u8];
    body.extend_from_slice(code);
    body.extend_from_slice(&[0, 0, 0, 0]);
    match parse_code(&mut Decoder::new(&body), &Pool::new()).unwrap() {
        Attribute::Code { instructions, .. } => instructions,
        other => panic!("{:?}", other),
    }
}

fn written(instructions: &Vec<Option<Instruction>>) -> Vec<u8> {
    let mut encoder = Encoder::new();
    write_code_stream(&mut encoder, instructions, &Pool::new()).unwrap();
    encoder.bytes()[4..].to_vec()
}

#[test]
fn long_forms_are_written_where_they_were_read() {
    // ldc_w, wide iload, wide iinc, goto_w and jsr_w with operands that
    // the short forms would hold, then the short forms, then return
    let code = [
        0x13, 0, 5, 0xC4, 0x15, 0, 3, 0xC4, 0x84, 0, 1, 0, 2, 0xC8, 0, 0, 0, 9, 0xC9, 0xFF, 0xFF,
        0xFF, 0xFF, 0x12, 5, 0x15, 3, 0x84, 1, 2, 0xA7, 0, 9, 0xA8, 0xFF, 0xFF, 0xB1,
    ];
    let instructions = code_of(&code);
    assert_eq!(instructions.len(), code.len());
    assert_eq!(format!("{:?}", instructions[0]), format!("{:?}", instructions[23]));
    assert_eq!(written(&instructions), code.to_vec());
    // every instruction stays at its offset
    let again = code_of(&written(&instructions));
    assert_eq!(format!("{:?}", again), format!("{:?}", instructions));
}

#[test]
fn short_forms_are_written_where_nothing_asks_for_the_long() {
    // a list without entries between the instructions
    let dense = vec![
        Some(Instruction::LDC(5)),
        Some(Instruction::ILoad(3)),
        Some(Instruction::IInc(1, 2)),
        Some(Instruction::GoTo(9)),
        Some(Instruction::JSR(-1)),
        Some(Instruction::Return),
    ];
    assert_eq!(
        written(&dense),
        vec![0x12, 5, 0x15, 3, 0x84, 1, 2, 0xA7, 0, 9, 0xA8, 0xFF, 0xFF, 0xB1]
    );
    // entries that the long form would not fill
    let loose = vec![Some(Instruction::LDC(5)), None, None, None, Some(Instruction::Return)];
    assert_eq!(written(&loose), vec![0x12, 5, 0xB1]);
    let loose = vec![Some(Instruction::ILoad(3)), None, None, Some(Instruction::Return)];
    assert_eq!(written(&loose), vec![0x15, 3, 0xB1]);
    // the long form at the end of the list
    let last = vec![Some(Instruction::Return), Some(Instruction::GoTo(-1)), None, None, None, None];
    assert_eq!(written(&last), vec![0xB1, 0xC8, 0xFF, 0xFF, 0xFF, 0xFF]);
    let last = vec![Some(Instruction::IInc(1, 2)), None, None, None, None, None];
    assert_eq!(written(&last), vec![0xC4, 0x84, 0, 1, 0, 2]);
    // operands that only the long form holds take it in any list
    let large = vec![Some(Instruction::LDC(300)), Some(Instruction::ILoad(256))];
    assert_eq!(written(&large), vec![0x13, 1, 0x2C, 0xC4, 0x15, 1, 0]);
    // write_instruction, which sees no list, writes the short form
    assert_eq!(encode(&Instruction::LDC(5), 0, &Pool::new()).unwrap(), vec![0x12, 5]);
    assert_eq!(encode(&Instruction::GoTo(9), 0, &Pool::new()).unwrap(), vec![0xA7, 0, 9]);
}

fn class_with_code(code: &[u8]) -> Vec<u8> {
    let mut bytes = vec![0xCA, 0xFE, 0xBA, 0xBE, 0, 0, 0, 0x34];
    // the pool: the name of the attribute
    bytes.extend_from_slice(&[0, 2, 1, 0, 4, b'C', b'o', b'd', b'e']);
    // flags, name, super name, no interfaces, no fields, one method
    bytes.extend_from_slice(&[0, 0x21, 0, 0, 0, 0, 0, 0, 0, 0, 0, 1]);
    // the method: flags, name, descriptor, one attribute
    bytes.extend_from_slice(&[0, 1, 0, 1, 0, 1, 0, 1]);
    // the attribute: name, length, sizes, the code behind its length
    bytes.extend_from_slice(&[0, 1, 0, 0, 0, 12 + code.len() as u8, 0, 1, 0, 1]);
    bytes.extend_from_slice(&[0, 0, 0, code.len() as u8]);
    bytes.extend_from_slice(code);
    // no exceptions, no attributes of the code, none of the class
    bytes.extend_from_slice(&[0, 0, 0, 0, 0, 0]);
    bytes
}

#[test]
fn class_with_bipush_is_written_as_it_was_read() {
    let bytes = class_with_code(&[0x10, 0x05]);
    let (pool, class) = parse(&bytes).unwrap();
    match &class.methods[0].attributes[0] {
        Attribute::Code { instructions, .. } => {
            assert_eq!(format!("{:?}", instructions), "[Some(BIPush(5)), None]")
        },
        other => panic!("{:?}", other),
    }
    let out = jbcrs::basic::writer::write(&pool, &class).unwrap();
    assert_eq!(out, bytes);
    // the length of the code, and the code
    assert_eq!(out[47..53], [0, 0, 0, 2, 0x10, 0x05]);
}

#[test]
fn class_with_tableswitch_is_written_as_it_was_read() {
    let code = [
        0x00, 0xAA, 0, 0, 0, 0, 0, 0, 0, 0, 0, 0, 0, 0, 0, 1, 0, 0, 0, 0, 0, 0, 0, 5,
    ];
    let bytes = class_with_code(&code);
    let (pool, class) = parse(&bytes).unwrap();
    let out = jbcrs::basic::writer::write(&pool, &class).unwrap();
    assert_eq!(out, bytes);
    // the operands of the switch start at a multiple of four within the code
    let start = 51;
    assert_eq!(out[start + 1], 0xAA);
    assert_eq!(out[start + 2..start + 4], [0, 0]);
    assert_eq!(out[start + 4..start + 16], [0, 0, 0, 0, 0, 0, 0, 0, 0, 0, 0, 1]);
}

#[test]
fn class_with_long_forms_is_written_as_it_was_read() {
    // goto_w of a short offset before a switch: the switch stays where it was
    let code = [
        0xC8, 0, 0, 0, 5, 0xAB, 0, 0, 0, 0, 0, 9, 0, 0, 0, 1, 0, 0, 0, 7, 0, 0, 0, 3, 0xB1,
    ];
    let bytes = class_with_code(&code);
    let (pool, class) = parse(&bytes).unwrap();
    assert_eq!(jbcrs::basic::writer::write(&pool, &class).unwrap(), bytes);
}

fn annotation(type_index: u16) -> Annotation {
    Annotation {
        type_index,
        element_value_pairs: vec![
            (1, ElementValue::Byte(2)),
            (3, ElementValue::Enum { enum_type: 4, const_name: 5 }),
            (
                6,
                ElementValue::Array(vec![
                    ElementValue::String(7),
                    ElementValue::Annotation(Box::new(Annotation {
                        type_index: 8,
                        element_value_pairs: vec![(9, ElementValue::Class(10))],
                    })),
                    ElementValue::Array(Vec::new()),
                ]),
            ),
            (11, ElementValue::Short(1)),
            (12, ElementValue::Char(1)),
            (13, ElementValue::Int(1)),
            (14, ElementValue::Long(1)),
            (15, ElementValue::Float(1)),
            (16, ElementValue::Double(1)),
            (17, ElementValue::Boolean(1)),
        ],
    }
}

fn type_annotation(target_type: TargetType) -> TypeAnnotation {
    TypeAnnotation {
        target_type,
        target_path: vec![
            TypePathElement { path_kind: TypePathKind::ArrayType, argument_index: 0 },
            TypePathElement { path_kind: TypePathKind::NestedType, argument_index: 1 },
            TypePathElement { path_kind: TypePathKind::WildcardType, argument_index: 2 },
            TypePathElement { path_kind: TypePathKind::Type, argument_index: 3 },
        ],
        annotation: annotation(20),
    }
}

fn every_target_type() -> Vec<TargetType> {
    vec![
        TargetType::TypeParameterClass(1),
        TargetType::TypeParameterMethod(2),
        TargetType::SuperType(0xFFFF),
        TargetType::TypeParameterBoundClass { type_parameter: 1, bound_index: 2 },
        TargetType::TypeParameterBoundMethod { type_parameter: 3, bound_index: 4 },
        TargetType::EmptyField,
        TargetType::EmptyReturn,
        TargetType::EmptyReceiver,
        TargetType::FormalParameter(5),
        TargetType::Throws(6),
        TargetType::LocalVariable(vec![
            LocalVariableTarget { start: 1, length: 2, index: 3 },
            LocalVariableTarget { start: 4, length: 5, index: 6 },
        ]),
        TargetType::ResourceVariable(Vec::new()),
        TargetType::Catch(7),
        TargetType::OffsetInstanceOf(8),
        TargetType::OffsetNew(9),
        TargetType::OffsetNewRef(10),
        TargetType::OffsetRef(11),
        TargetType::TypeArgumentCast { offset: 1, type_argument: 2 },
        TargetType::TypeArgumentMethod { offset: 3, type_argument: 4 },
        TargetType::TypeArgumentConstructor { offset: 5, type_argument: 6 },
        TargetType::TypeArgumentNewRef { offset: 7, type_argument: 8 },
        TargetType::TypeArgumentRef { offset: 9, type_argument: 10 },
    ]
}

fn code() -> Attribute {
    let mut pairs = BTreeMap::new();
    pairs.insert(10, 1);
    pairs.insert(-10, 2);
    Attribute::Code {
        max_stack: 2,
        max_locals: 3,
        instructions: vec![
            Some(Instruction::GetField(5)),
            Some(Instruction::BIPush(5)),
            Some(Instruction::IAdd),
            Some(Instruction::LookupSwitch { default: 3, offsets: pairs }),
            Some(Instruction::TableSwitch { default: 1, low: -1, high: 1, offsets: vec![7, 8, 9] }),
            Some(Instruction::ILoad(300)),
            Some(Instruction::GoTo(70000)),
            Some(Instruction::Return),
        ],
        exceptions: vec![Exception { start: 0, end: 4, handler: 5, catch_type: 0 }],
        attributes: vec![
            Attribute::LineNumberTable(vec![
                LineNumber { start: 0, line_number: 10 },
                LineNumber { start: 3, line_number: 11 },
            ]),
            Attribute::LocalVariableTable(vec![LocalVariable {
                start: 0,
                length: 9,
                name: 1,
                descriptor: 2,
                index: 0,
            }]),
            Attribute::LocalVariableTypeTable(vec![LocalVariableType {
                start: 0,
                length: 9,
                name: 1,
                signature: 2,
                index: 0,
            }]),
            Attribute::StackMapTable(vec![
                StackMapFrame::Same { offset_delta: 5 },
                StackMapFrame::Same { offset_delta: 500 },
                StackMapFrame::Same1 { offset_delta: 6, stack: VerificationType::Integer },
                StackMapFrame::Same1 { offset_delta: 600, stack: VerificationType::Object(4) },
                StackMapFrame::Chop { offset_delta: 7, count: 3 },
                StackMapFrame::Append {
                    offset_delta: 8,
                    locals: vec![VerificationType::Uninitialized(9), VerificationType::Null],
                },
                StackMapFrame::Full {
                    offset_delta: 9,
                    locals: vec![
                        VerificationType::Top,
                        VerificationType::Float,
                        VerificationType::Double,
                        VerificationType::Long,
                        VerificationType::UninitializedThis,
                    ],
                    stack: Vec::new(),
                },
            ]),
        ],
    }
}

fn every_attribute() -> Vec<Attribute> {
    vec![
        Attribute::AnnotationDefault(ElementValue::Array(vec![ElementValue::Int(3)])),
        Attribute::BootstrapMethods(vec![
            BootstrapMethod { method_ref: 1, arguments: vec![2, 3] },
            BootstrapMethod { method_ref: 4, arguments: Vec::new() },
        ]),
        code(),
        Attribute::ConstantValue(7),
        Attribute::Deprecated,
        Attribute::EnclosingMethod { class_index: 1, method_index: 2 },
        Attribute::Exceptions(vec![1, 2, 3]),
        Attribute::InnerClasses(vec![InnerClass {
            inner_class_info: 1,
            outer_class_info: 2,
            inner_name: 3,
            inner_class_access_flags: AccessFlags::from_bits_truncate(AccessFlags::STATIC),
        }]),
        Attribute::MethodParameters(vec![MethodParameter {
            name: 1,
            access_flags: AccessFlags::from_bits_truncate(AccessFlags::FINAL),
        }]),
        Attribute::Module {
            name: 1,
            flags: AccessFlags::from_bits_truncate(AccessFlags::OPEN),
            version: 2,
            requires: vec![Requirement {
                index: 3,
                flags: AccessFlags::from_bits_truncate(AccessFlags::STATIC_PHASE),
                version: 4,
            }],
            exports: vec![Export { index: 5, flags: AccessFlags::empty(), to: vec![6, 7] }],
            opens: vec![Opening { index: 8, flags: AccessFlags::empty(), to: vec![9] }],
            uses: vec![10, 11],
            provides: vec![Provider { index: 12, with: vec![13] }],
        },
        Attribute::ModuleMainClass(3),
        Attribute::ModulePackages(vec![4, 5]),
        Attribute::RuntimeVisibleAnnotations(vec![annotation(1), annotation(2)]),
        Attribute::RuntimeInvisibleAnnotations(Vec::new()),
        Attribute::RuntimeVisibleParameterAnnotations(vec![vec![annotation(3)], Vec::new()]),
        Attribute::RuntimeInvisibleParameterAnnotations(vec![Vec::new()]),
        Attribute::RuntimeVisibleTypeAnnotations(
            every_target_type().into_iter().map(type_annotation).collect(),
        ),
        Attribute::RuntimeInvisibleTypeAnnotations(vec![type_annotation(TargetType::EmptyField)]),
        Attribute::Signature(9),
        Attribute::Synthetic,
        Attribute::SourceFile(10),
        Attribute::SourceDebugExtension("debug \u{0} and \u{1F600}".to_owned()),
        Attribute::Unknown(1, vec![1, 2, 3, 4, 5]),
    ]
}

fn pool_with_names() -> Pool {
    let mut pool = Pool::new();
    pool.push_utf8("Mystery".to_owned()).unwrap();
    for name in [
        "AnnotationDefault",
        "BootstrapMethods",
        "Code",
        "ConstantValue",
        "Deprecated",
        "EnclosingMethod",
        "Exceptions",
        "InnerClasses",
        "LineNumberTable",
        "LocalVariableTable",
        "LocalVariableTypeTable",
        "MethodParameters",
        "Module",
        "ModuleMainClass",
        "ModulePackages",
        "RuntimeVisibleAnnotations",
        "RuntimeInvisibleAnnotations",
        "RuntimeVisibleParameterAnnotations",
        "RuntimeInvisibleParameterAnnotations",
        "RuntimeVisibleTypeAnnotations",
        "RuntimeInvisibleTypeAnnotations",
        "Signature",
        "Synthetic",
        "SourceFile",
        "SourceDebugExtension",
        "StackMapTable",
    ] {
        pool.push_utf8(name.to_owned()).unwrap();
    }
    pool.push(Item::Integer(-1)).unwrap();
    pool.push(Item::Float(2.5f32.to_bits())).unwrap();
    pool.push(Item::Long(i64::MIN)).unwrap();
    pool.push(Item::Double(f64::NAN.to_bits())).unwrap();
    pool.push(Item::String(1)).unwrap();
    pool.push(Item::FieldRef { class: 1, name_and_type: 2 }).unwrap();
    pool.push(Item::MethodRef { class: 1, name_and_type: 2 }).unwrap();
    pool.push(Item::InterfaceMethodRef { class: 1, name_and_type: 2 }).unwrap();
    pool.push(Item::NameAndType { name: 1, desc: 2 }).unwrap();
    for kind in [
        ReferenceKind::GetField,
        ReferenceKind::GetStatic,
        ReferenceKind::PutField,
        ReferenceKind::PutStatic,
        ReferenceKind::InvokeVirtual,
        ReferenceKind::InvokeStatic,
        ReferenceKind::InvokeSpecial,
        ReferenceKind::NewInvokeSpecial,
        ReferenceKind::InvokeInterface,
    ] {
        pool.push(Item::MethodHandle { kind, index: 3 }).unwrap();
    }
    pool.push(Item::MethodType(4)).unwrap();
    pool.push(Item::InvokeDynamic { bootstrap_method: 0, name_and_type: 5 }).unwrap();
    pool.push(Item::Module(6)).unwrap();
    pool.push(Item::Package(7)).unwrap();
    pool.push_utf8("\u{0}\u{7FF}\u{FFFF}\u{10FFFF}".to_owned()).unwrap();
    pool.push_class("java/lang/Object".to_owned()).unwrap();
    pool
}

fn sample_class() -> Class {
    Class {
        minor_version: 3,
        major_version: 0x35,
        access_flags: AccessFlags::from_bits_truncate(AccessFlags::PUBLIC | AccessFlags::SUPER),
        name: 1,
        super_name: 2,
        interfaces: vec![3, 4],
        fields: vec![Field {
            access_flags: AccessFlags::from_bits_truncate(AccessFlags::PRIVATE),
            name: 5,
            desc: 6,
            attributes: vec![Attribute::ConstantValue(7), Attribute::Deprecated],
        }],
        methods: vec![
            Method {
                access_flags: AccessFlags::from_bits_truncate(AccessFlags::PUBLIC),
                name: 8,
                desc: 9,
                attributes: vec![code(), Attribute::Exceptions(vec![1])],
            },
            Method {
                access_flags: AccessFlags::from_bits_truncate(AccessFlags::ABSTRACT),
                name: 10,
                desc: 11,
                attributes: Vec::new(),
            },
        ],
        attributes: every_attribute(),
    }
}

#[test]
fn class_is_read_as_it_was_written() {
    let pool = pool_with_names();
    let class = sample_class();
    let bytes = jbcrs::basic::writer::write(&pool, &class).unwrap();
    assert_eq!(bytes[..8], [0xCA, 0xFE, 0xBA, 0xBE, 0, 3, 0, 0x35]);
    let (read_pool, read_class) = parse(&bytes).unwrap();
    assert_eq!(read_pool.len(), pool.len());
    assert_eq!(read_pool.get_items(), pool.get_items());
    for index in 0..pool.len() {
        assert_eq!(read_pool.get(index), pool.get(index));
    }
    // the instructions come back at their offsets, with nothing between
    let written = format!("{:?}", class).replace("None, ", "");
    let read = format!("{:?}", read_class).replace("None, ", "");
    assert_eq!(read, written);
    // and what was read is written to the same bytes
    assert_eq!(jbcrs::basic::writer::write(&read_pool, &read_class).unwrap(), bytes);
}

#[test]
fn minimal_class_bytes() {
    let mut pool = Pool::new();
    let name = pool.push_class("A".to_owned()).unwrap();
    let source = pool.push_utf8("SourceFile".to_owned()).unwrap();
    let class = Class {
        minor_version: 0,
        major_version: 0x34,
        access_flags: AccessFlags::from_bits_truncate(AccessFlags::PUBLIC),
        name,
        super_name: 0,
        interfaces: vec![name],
        fields: Vec::new(),
        methods: Vec::new(),
        attributes: vec![Attribute::SourceFile(1)],
    };
    assert_eq!((name, source), (2, 3));
    assert_eq!(
        jbcrs::basic::writer::write(&pool, &class).unwrap(),
        vec![
            0xCA, 0xFE, 0xBA, 0xBE, 0, 0, 0, 0x34, // magic and version
            0, 4, 1, 0, 1, b'A', 7, 0, 1, // the pool, its length first
            1, 0, 10, b'S', b'o', b'u', b'r', b'c', b'e', b'F', b'i', b'l', b'e', //
            0, 1, 0, 2, 0, 0, // flags, name, super name
            0, 1, 0, 2, // interfaces
            0, 0, 0, 0, // no fields, no methods
            0, 1, 0, 3, 0, 0, 0, 2, 0, 1, // one attribute
        ]
    );
}

#[test]
fn string_length_counts_the_written_bytes() {
    let mut pool = Pool::new();
    pool.push_utf8("\u{0}\u{1F600}".to_owned()).unwrap();
    let class = Class {
        minor_version: 0,
        major_version: 0,
        access_flags: AccessFlags::empty(),
        name: 0,
        super_name: 0,
        interfaces: Vec::new(),
        fields: Vec::new(),
        methods: Vec::new(),
        attributes: Vec::new(),
    };
    let bytes = jbcrs::basic::writer::write(&pool, &class).unwrap();
    assert_eq!(
        bytes[8..],
        [0, 2, 1, 0, 8, 0xC0, 0x80, 0xED, 0xA0, 0xBD, 0xED, 0xB8, 0x80, 0, 0, 0, 0, 0, 0, 0, 0, 0,
            0, 0, 0, 0, 0]
    );
    // a string of 65535 bytes can be written, one of 65536 cannot
    let mut pool = Pool::new();
    pool.push_utf8("a".repeat(0xFFFF)).unwrap();
    assert_eq!(jbcrs::basic::writer::write(&pool, &class).unwrap().len(), 8 + 2 + 3 + 0xFFFF + 14);
    let mut pool = Pool::new();
    pool.push_utf8("a".repeat(0x10000)).unwrap();
    assert_eq!(jbcrs::basic::writer::write(&pool, &class).err(), Some(Error::LimitExceeded));
    let mut pool = Pool::new();
    pool.push_utf8("\u{0}".repeat(0x8000)).unwrap();
    assert_eq!(jbcrs::basic::writer::write(&pool, &class).err(), Some(Error::LimitExceeded));
}

#[test]
fn attribute_names_must_stand_in_the_pool() {
    let pool = Pool::new();
    let mut encoder = Encoder::new();
    assert_eq!(
        write_attribute(&mut encoder, &Attribute::Deprecated, &pool),
        Err(Error::InvalidCPItem(0))
    );
    // an unknown attribute brings its index
    let mut encoder = Encoder::new();
    write_attribute(&mut encoder, &Attribute::Unknown(9, vec![7]), &pool).unwrap();
    assert_eq!(encoder.bytes(), vec![0, 9, 0, 0, 0, 1, 7]);
    // the last of two equal names is taken
    let mut pool = Pool::new();
    pool.push_duplicate(Item::UTF8("Synthetic".to_owned())).unwrap();
    pool.push_duplicate(Item::UTF8("Synthetic".to_owned())).unwrap();
    let mut encoder = Encoder::new();
    write_attributes(&mut encoder, &vec![Attribute::Synthetic], &pool).unwrap();
    assert_eq!(encoder.bytes(), vec![0, 1, 0, 2, 0, 0, 0, 0]);
}

#[test]
fn counts_must_fit_their_fields() {
    let mut pool = Pool::new();
    pool.push_utf8("Exceptions".to_owned()).unwrap();
    pool.push_utf8("StackMapTable".to_owned()).unwrap();
    pool.push_utf8("RuntimeVisibleParameterAnnotations".to_owned()).unwrap();
    pool.push_utf8("RuntimeVisibleTypeAnnotations".to_owned()).unwrap();
    let write = |attribute: &Attribute| {
        let mut encoder = Encoder::new();
        write_attribute(&mut encoder, attribute, &pool).map(|_| encoder.bytes().len())
    };
    assert_eq!(write(&Attribute::Exceptions(vec![0; 0xFFFF])), Ok(6 + 2 + 2 * 0xFFFF));
    assert_eq!(write(&Attribute::Exceptions(vec![0; 0x10000])), Err(Error::LimitExceeded));
    let frames = |frame: StackMapFrame| write(&Attribute::StackMapTable(vec![frame]));
    assert_eq!(frames(StackMapFrame::Chop { offset_delta: 0, count: 1 }), Ok(6 + 2 + 3));
    assert_eq!(frames(StackMapFrame::Chop { offset_delta: 0, count: 0 }), Err(Error::LimitExceeded));
    assert_eq!(frames(StackMapFrame::Chop { offset_delta: 0, count: 4 }), Err(Error::LimitExceeded));
    assert_eq!(
        frames(StackMapFrame::Append { offset_delta: 0, locals: Vec::new() }),
        Err(Error::LimitExceeded)
    );
    assert_eq!(
        frames(StackMapFrame::Append { offset_delta: 0, locals: vec![VerificationType::Top; 4] }),
        Err(Error::LimitExceeded)
    );
    assert_eq!(
        frames(StackMapFrame::Append { offset_delta: 0, locals: vec![VerificationType::Top; 3] }),
        Ok(6 + 2 + 3 + 3)
    );
    let parameters: Vec<Vec<Annotation>> = (0..256).map(|_| Vec::new()).collect();
    assert_eq!(
        write(&Attribute::RuntimeVisibleParameterAnnotations(parameters)),
        Err(Error::LimitExceeded)
    );
    let mut annotation = type_annotation(TargetType::EmptyField);
    annotation.target_path =
        vec![TypePathElement { path_kind: TypePathKind::Type, argument_index: 0 }; 256];
    assert_eq!(
        write(&Attribute::RuntimeVisibleTypeAnnotations(vec![annotation])),
        Err(Error::LimitExceeded)
    );
    let class = Class {
        minor_version: 0,
        major_version: 0,
        access_flags: AccessFlags::empty(),
        name: 0,
        super_name: 0,
        interfaces: vec![0; 0x10000],
        fields: Vec::new(),
        methods: Vec::new(),
        attributes: Vec::new(),
    };
    assert_eq!(jbcrs::basic::writer::write(&pool, &class).err(), Some(Error::LimitExceeded));
}
