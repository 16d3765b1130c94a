//! The parser of class files.

pub mod annotation;
pub mod class;
pub mod code;
pub mod decode;
pub mod grammar;
pub mod method;

use vstd::prelude::*;
use vstd::slice::slice_to_vec;
use super::constpool::{appended, utf8_at, Item, ItemView, Pool, ReferenceKind, Slots};
use super::mutf8;
use super::result::Error;
use super::tree::{
    views, AccessFlags, Attribute, AttributeView, Class, ClassView, Field, MemberView, Method, magic,
};
use self::annotation::{
    annotations_at, element_value_at, parameter_annotations_at, parse_annotations,
    parse_element_value, parse_parameter_annotations, parse_type_annotations, type_annotations_at,
};
use self::class::{
    bootstrap_methods_at, enclosing_method_at, inner_classes_at, module_at, module_packages_at,
    parse_bootstrap_methods, parse_enclosing_method, parse_inner_classes, parse_module,
    parse_module_packages,
};
use self::code::{code_at, parse_code, u32_in};
use self::decode::{bytes_at, i32_at, i64_at, u16_at, u32_at, u64_at, u8_at, Decoder};
use self::grammar::{
    counted16, fits, flags_in, mapped, parse_u16_list, parses, parses_views, u16_in, u16_item,
    Parsed,
};
use self::method::{
    exceptions_at, line_number_table_at, local_variable_table_at, local_variable_type_table_at,
    method_parameters_at, parse_exceptions, parse_line_number_table, parse_local_variable_table,
    parse_local_variable_type_table, parse_method_parameters, parse_stack_map_table,
    stack_map_table_at,
};
use crate::text::str_eq;

verus! {

/// The kind of a method handle, by its byte: 1 to 9.
pub open spec fn reference_kind(kind: u8) -> Option<ReferenceKind> {
    if kind == 1 {
        Some(ReferenceKind::GetField)
    } else if kind == 2 {
        Some(ReferenceKind::GetStatic)
    } else if kind == 3 {
        Some(ReferenceKind::PutField)
    } else if kind == 4 {
        Some(ReferenceKind::PutStatic)
    } else if kind == 5 {
        Some(ReferenceKind::InvokeVirtual)
    } else if kind == 6 {
        Some(ReferenceKind::InvokeStatic)
    } else if kind == 7 {
        Some(ReferenceKind::InvokeSpecial)
    } else if kind == 8 {
        Some(ReferenceKind::NewInvokeSpecial)
    } else if kind == 9 {
        Some(ReferenceKind::InvokeInterface)
    } else {
        None
    }
}

/// The two `u16` at `pos`, as a pair.
pub open spec fn two_u16_at(s: Seq<u8>, pos: int) -> Parsed<(u16, u16)> {
    if fits(s, pos, 4) {
        Ok(((u16_in(s, pos), u16_in(s, pos + 2)), pos + 4))
    } else {
        Err(Error::LimitExceeded)
    }
}

/// The constant pool item at `pos`, which is to get the index `index`: a
/// tag of one byte, and what the tag asks for. An unknown tag, and an
/// unknown kind of a method handle, give `InvalidCPItem(index)`.
pub open spec fn item_at(s: Seq<u8>, pos: int, index: u16) -> Parsed<ItemView> {
    match u8_at(s, pos) {
        Ok((tag, p)) => if tag == 1 {
            match u16_at(s, p) {
                Ok((length, start)) => mapped(
                    mutf8::decode(s, start, length as int),
                    |chars: Seq<char>| ItemView::UTF8(chars),
                ),
                Err(e) => Err(e),
            }
        } else if tag == 3 {
            mapped(i32_at(s, p), |i: i32| ItemView::Integer(i))
        } else if tag == 4 {
            mapped(u32_at(s, p), |bits: u32| ItemView::Float(bits))
        } else if tag == 5 {
            mapped(i64_at(s, p), |i: i64| ItemView::Long(i))
        } else if tag == 6 {
            mapped(u64_at(s, p), |bits: u64| ItemView::Double(bits))
        } else if tag == 7 {
            mapped(u16_at(s, p), |i: u16| ItemView::Class(i))
        } else if tag == 8 {
            mapped(u16_at(s, p), |i: u16| ItemView::String(i))
        } else if tag == 9 {
            mapped(
                two_u16_at(s, p),
                |t: (u16, u16)| ItemView::FieldRef { class: t.0, name_and_type: t.1 },
            )
        } else if tag == 10 {
            mapped(
                two_u16_at(s, p),
                |t: (u16, u16)| ItemView::MethodRef { class: t.0, name_and_type: t.1 },
            )
        } else if tag == 11 {
            mapped(
                two_u16_at(s, p),
                |t: (u16, u16)| ItemView::InterfaceMethodRef { class: t.0, name_and_type: t.1 },
            )
        } else if tag == 12 {
            mapped(two_u16_at(s, p), |t: (u16, u16)| ItemView::NameAndType { name: t.0, desc: t.1 })
        } else if tag == 15 {
            match u8_at(s, p) {
                Ok((kind, pos2)) => match reference_kind(kind) {
                    Some(kind) => mapped(
                        u16_at(s, pos2),
                        |index: u16| ItemView::MethodHandle { kind, index },
                    ),
                    None => Err(Error::InvalidCPItem(index)),
                },
                Err(e) => Err(e),
            }
        } else if tag == 16 {
            mapped(u16_at(s, p), |i: u16| ItemView::MethodType(i))
        } else if tag == 18 {
            mapped(
                two_u16_at(s, p),
                |t: (u16, u16)| ItemView::InvokeDynamic { bootstrap_method: t.0, name_and_type: t.1 },
            )
        } else if tag == 19 {
            mapped(u16_at(s, p), |i: u16| ItemView::Module(i))
        } else if tag == 20 {
            mapped(u16_at(s, p), |i: u16| ItemView::Package(i))
        } else {
            Err(Error::InvalidCPItem(index))
        },
        Err(e) => Err(e),
    }
}

/// The items from `pos` on, appended to `pool` one after the other, until
/// the pool's next index reaches `size`. Each item gets the next index; a
/// `long` or a `double` takes two.
pub open spec fn pool_items_at(s: Seq<u8>, pos: int, size: u16, pool: Slots) -> Parsed<Slots>
    decreases size - pool.len(),
{
    if pool.len() + 1 >= size {
        Ok((pool, pos))
    } else {
        match item_at(s, pos, (pool.len() + 1) as u16) {
            Ok((item, next)) => match appended(pool, item) {
                Ok((longer, _)) => pool_items_at(s, next, size, longer),
                Err(e) => Err(e),
            },
            Err(e) => Err(e),
        }
    }
}

/// The constant pool: its size, and then its items, which get the
/// indices from 1 up to, and without, the size.
pub open spec fn constant_pool_at(s: Seq<u8>, pos: int) -> Parsed<Slots> {
    match u16_at(s, pos) {
        Ok((size, next)) => pool_items_at(s, next, size, Slots::empty()),
        Err(e) => Err(e),
    }
}

/// The head of an attribute.
pub struct AttributeHead {
    /// The index of the attribute's name in the constant pool.
    pub name_index: u16,
    /// The name.
    pub name: Seq<char>,
    /// Where the body starts.
    pub body: int,
    /// Where the body ends.
    pub end: int,
}

/// The head of the attribute at `pos`: the index of its name, which must
/// resolve to a string in the pool, and the length of its body, which
/// must lie within the input.
pub open spec fn attribute_head_at(s: Seq<u8>, pos: int, pool: Slots) -> Result<AttributeHead, Error> {
    match u16_at(s, pos) {
        Ok((name_index, p)) => match utf8_at(pool, name_index) {
            Ok(name) => match u32_at(s, p) {
                Ok((length, body)) => if body + length <= s.len() {
                    Ok(AttributeHead { name_index, name, body, end: body + length })
                } else {
                    Err(Error::LimitExceeded)
                },
                Err(e) => Err(e),
            },
            Err(e) => Err(e),
        },
        Err(e) => Err(e),
    }
}

/// The body of an attribute, by its name. `body` is all that the
/// attribute may read: it ends where the attribute's length says.
pub open spec fn attribute_body_at(
    body: Seq<u8>,
    pos: int,
    pool: Slots,
    name: Seq<char>,
    name_index: u16,
) -> Parsed<AttributeView>
    decreases body.len() - pos, 1nat,
{
    if name == "AnnotationDefault"@ {
        mapped(element_value_at(body, pos), |v| AttributeView::AnnotationDefault(v))
    } else if name == "BootstrapMethods"@ {
        bootstrap_methods_at(body, pos)
    } else if name == "Code"@ {
        code_at(body, pos, pool)
    } else if name == "ConstantValue"@ {
        mapped(u16_at(body, pos), |i: u16| AttributeView::ConstantValue(i))
    } else if name == "Deprecated"@ {
        Ok((AttributeView::Deprecated, pos))
    } else if name == "EnclosingMethod"@ {
        enclosing_method_at(body, pos)
    } else if name == "Exceptions"@ {
        exceptions_at(body, pos)
    } else if name == "InnerClasses"@ {
        inner_classes_at(body, pos)
    } else if name == "LineNumberTable"@ {
        line_number_table_at(body, pos)
    } else if name == "LocalVariableTable"@ {
        local_variable_table_at(body, pos)
    } else if name == "LocalVariableTypeTable"@ {
        local_variable_type_table_at(body, pos)
    } else if name == "MethodParameters"@ {
        method_parameters_at(body, pos)
    } else if name == "Module"@ {
        module_at(body, pos)
    } else if name == "ModuleMainClass"@ {
        mapped(u16_at(body, pos), |i: u16| AttributeView::ModuleMainClass(i))
    } else if name == "ModulePackages"@ {
        module_packages_at(body, pos)
    } else if name == "RuntimeVisibleAnnotations"@ {
        mapped(annotations_at(body, pos), |v| AttributeView::RuntimeVisibleAnnotations(v))
    } else if name == "RuntimeInvisibleAnnotations"@ {
        mapped(annotations_at(body, pos), |v| AttributeView::RuntimeInvisibleAnnotations(v))
    } else if name == "RuntimeVisibleParameterAnnotations"@ {
        mapped(
            parameter_annotations_at(body, pos),
            |v| AttributeView::RuntimeVisibleParameterAnnotations(v),
        )
    } else if name == "RuntimeInvisibleParameterAnnotations"@ {
        mapped(
            parameter_annotations_at(body, pos),
            |v| AttributeView::RuntimeInvisibleParameterAnnotations(v),
        )
    } else if name == "RuntimeVisibleTypeAnnotations"@ {
        mapped(type_annotations_at(body, pos), |v| AttributeView::RuntimeVisibleTypeAnnotations(v))
    } else if name == "RuntimeInvisibleTypeAnnotations"@ {
        mapped(type_annotations_at(body, pos), |v| AttributeView::RuntimeInvisibleTypeAnnotations(v))
    } else if name == "SourceFile"@ {
        mapped(u16_at(body, pos), |i: u16| AttributeView::SourceFile(i))
    } else if name == "Signature"@ {
        mapped(u16_at(body, pos), |i: u16| AttributeView::Signature(i))
    } else if name == "StackMapTable"@ {
        stack_map_table_at(body, pos)
    } else if name == "Synthetic"@ {
        Ok((AttributeView::Synthetic, pos))
    } else if name == "SourceDebugExtension"@ {
        mapped(
            mutf8::decode(body, pos, body.len() - pos),
            |chars: Seq<char>| AttributeView::SourceDebugExtension(chars),
        )
    } else {
        mapped(
            bytes_at(body, pos, body.len() - pos),
            |bytes: Seq<u8>| AttributeView::Unknown(name_index, bytes),
        )
    }
}

/// `count` attributes in a row, behind those of `acc`. Each has a head and
/// a body; the body must end exactly where the head says, else the
/// attribute fails with `LimitExceeded`.
pub open spec fn attributes_from(
    s: Seq<u8>,
    pos: int,
    pool: Slots,
    count: nat,
    acc: Seq<AttributeView>,
) -> Parsed<Seq<AttributeView>>
    decreases s.len() - pos, count + 2,
{
    if count == 0 {
        Ok((acc, pos))
    } else {
        match attribute_head_at(s, pos, pool) {
            Ok(head) => match attribute_body_at(
                s.take(head.end),
                head.body,
                pool,
                head.name,
                head.name_index,
            ) {
                Ok((attribute, next)) => if next == head.end {
                    attributes_from(s, head.end, pool, (count - 1) as nat, acc.push(attribute))
                } else {
                    Err(Error::LimitExceeded)
                },
                Err(e) => Err(e),
            },
            Err(e) => Err(e),
        }
    }
}

/// A counted list of attributes.
pub open spec fn attributes_at(s: Seq<u8>, pos: int, pool: Slots) -> Parsed<Seq<AttributeView>>
    decreases s.len() - pos, 0nat,
{
    match u16_at(s, pos) {
        Ok((count, next)) => attributes_from(s, next, pool, count as nat, Seq::empty()),
        Err(e) => Err(e),
    }
}

/// A field or a method: flags, name and descriptor, and its attributes.
pub open spec fn member_at(s: Seq<u8>, pos: int, pool: Slots) -> Parsed<MemberView> {
    if fits(s, pos, 6) {
        mapped(
            attributes_at(s, pos + 6, pool),
            |attributes: Seq<AttributeView>|
                MemberView {
                    access_flags: flags_in(s, pos),
                    name: u16_in(s, pos + 2),
                    desc: u16_in(s, pos + 4),
                    attributes,
                },
        )
    } else {
        Err(Error::LimitExceeded)
    }
}

/// `count` fields or methods in a row, behind those of `acc`.
pub open spec fn members_from(
    s: Seq<u8>,
    pos: int,
    pool: Slots,
    count: nat,
    acc: Seq<MemberView>,
) -> Parsed<Seq<MemberView>>
    decreases count,
{
    if count == 0 {
        Ok((acc, pos))
    } else {
        match member_at(s, pos, pool) {
            Ok((member, next)) => members_from(s, next, pool, (count - 1) as nat, acc.push(member)),
            Err(e) => Err(e),
        }
    }
}

/// A counted list of fields or of methods.
pub open spec fn members_at(s: Seq<u8>, pos: int, pool: Slots) -> Parsed<Seq<MemberView>> {
    match u16_at(s, pos) {
        Ok((count, next)) => members_from(s, next, pool, count as nat, Seq::empty()),
        Err(e) => Err(e),
    }
}

/// The class, behind its constant pool: flags, name and super name, the
/// interfaces, the fields, the methods and the attributes.
pub open spec fn class_at(s: Seq<u8>, pos: int, pool: Slots, minor_version: u16, major_version: u16) -> Parsed<
    ClassView,
> {
    if !fits(s, pos, 6) {
        Err(Error::LimitExceeded)
    } else {
        match counted16(u16_item(), s, pos + 6) {
            Ok((interfaces, pos1)) => match members_at(s, pos1, pool) {
                Ok((fields, pos2)) => match members_at(s, pos2, pool) {
                    Ok((methods, pos3)) => mapped(
                        attributes_at(s, pos3, pool),
                        |attributes: Seq<AttributeView>|
                            ClassView {
                                minor_version,
                                major_version,
                                access_flags: flags_in(s, pos),
                                name: u16_in(s, pos + 2),
                                super_name: u16_in(s, pos + 4),
                                interfaces,
                                fields,
                                methods,
                                attributes,
                            },
                    ),
                    Err(e) => Err(e),
                },
                Err(e) => Err(e),
            },
            Err(e) => Err(e),
        }
    }
}

/// What a class file holds: behind the magic number and the two version
/// numbers, the constant pool and the class. Less than four bytes give
/// `LimitExceeded`; four other bytes than the magic number, `NotAClass`.
/// Bytes behind the class are not looked at.
pub open spec fn class_file(s: Seq<u8>) -> Result<(Slots, ClassView), Error> {
    if s.len() < 4 {
        Err(Error::LimitExceeded)
    } else if s.subrange(0, 4) != magic() {
        Err(Error::NotAClass)
    } else if s.len() < 8 {
        Err(Error::LimitExceeded)
    } else {
        match constant_pool_at(s, 8) {
            Ok((pool, pos)) => match class_at(s, pos, pool, u16_in(s, 4), u16_in(s, 6)) {
                Ok((class, _)) => Ok((pool, class)),
                Err(e) => Err(e),
            },
            Err(e) => Err(e),
        }
    }
}

/// Whatever the first four bytes are, if they are not the magic number,
/// the input is no class.
pub proof fn lemma_magic_gate(s: Seq<u8>)
    requires
        s.len() >= 4,
        s.subrange(0, 4) != magic(),
    ensures
        class_file(s) == Err::<(Slots, ClassView), Error>(Error::NotAClass),
{
}

/// In a list of attributes that was read, the body of the first one took
/// exactly the bytes that its head gave it.
pub proof fn lemma_attribute_length_exact(
    s: Seq<u8>,
    pos: int,
    pool: Slots,
    count: nat,
    acc: Seq<AttributeView>,
)
    requires
        count > 0,
        attributes_from(s, pos, pool, count, acc) is Ok,
    ensures
        ({
            let head = attribute_head_at(s, pos, pool)->Ok_0;
            &&& attribute_head_at(s, pos, pool) is Ok
            &&& head.body == pos + 6
            &&& head.end == head.body + u32_in(s, pos + 2)
            &&& attribute_body_at(s.take(head.end), head.body, pool, head.name, head.name_index)
                matches Ok((_, next)) && next == head.end
        }),
{
}

/// In a list of attributes, an attribute whose body ends before the place
/// that its head gives is rejected.
pub proof fn lemma_attribute_length_mismatch(
    s: Seq<u8>,
    pos: int,
    pool: Slots,
    count: nat,
    acc: Seq<AttributeView>,
)
    requires
        count > 0,
        attribute_head_at(s, pos, pool) is Ok,
        ({
            let head = attribute_head_at(s, pos, pool)->Ok_0;
            attribute_body_at(s.take(head.end), head.body, pool, head.name, head.name_index)
                matches Ok((_, next)) && next != head.end
        }),
    ensures
        attributes_from(s, pos, pool, count, acc) == Err::<(Seq<AttributeView>, int), Error>(
            Error::LimitExceeded,
        ),
{
}

/// Parses the class file, which is represented as a byte array.
/// The constant pool and the class is returned, if no error occurred.
#[verifier::rlimit(40)]
pub fn parse(input: &[u8]) -> (r: Result<(Pool, Class), Error>)
    ensures
        match class_file(input@) {
            Ok((slots, class)) => r is Ok && r->Ok_0.0.wf() && r->Ok_0.0@ == slots && r->Ok_0.1@
                == class,
            Err(e) => r is Err && r->Err_0 == e,
        },
        input@.len() >= 4 && input@.subrange(0, 4) != magic() ==> r is Err && r->Err_0
            == Error::NotAClass,
{
    // create a new decoder from the byte array
    let mut decoder = Decoder::new(input);
    // check if input is a class file
    let header = decoder.read_bytes(4)?;
    if header[0] != 0xCA || header[1] != 0xFE || header[2] != 0xBA || header[3] != 0xBE {
        assert(input@.subrange(0, 4) != magic()) by {
            assert(input@.subrange(0, 4)[0] == header@[0]);
            assert(input@.subrange(0, 4)[1] == header@[1]);
            assert(input@.subrange(0, 4)[2] == header@[2]);
            assert(input@.subrange(0, 4)[3] == header@[3]);
        }
        return Err(Error::NotAClass);
    }
    assert(input@.subrange(0, 4) =~= magic());
    let minor_version = decoder.read_u16()?;
    let major_version = decoder.read_u16()?;
    let constant_pool = read_constant_pool(&mut decoder)?;
    let class = parse_class(&mut decoder, &constant_pool, minor_version, major_version)?;
    Ok((constant_pool, class))
}

/// Parses the class that stands behind the constant pool.
fn parse_class(
    decoder: &mut Decoder,
    constant_pool: &Pool,
    minor_version: u16,
    major_version: u16,
) -> (r: Result<Class, Error>)
    requires
        constant_pool.wf(),
    ensures
        parses(
            *old(decoder),
            *final(decoder),
            r,
            class_at(
                old(decoder).input(),
                old(decoder).pos(),
                constant_pool@,
                minor_version,
                major_version,
            ),
        ),
{
    let access_flags = AccessFlags::from_bits_truncate(decoder.read_u16()?);
    let name = decoder.read_u16()?;
    let super_name = decoder.read_u16()?;
    // Read interfaces
    let interfaces = parse_u16_list(decoder)?;
    let fields = parse_fields(decoder, constant_pool)?;
    let methods = parse_methods(decoder, constant_pool)?;
    let attributes = parse_attributes(decoder, constant_pool)?;
    Ok(
        Class {
            minor_version,
            major_version,
            access_flags,
            name,
            super_name,
            interfaces,
            fields,
            methods,
            attributes,
        },
    )
}

/// Reads one item of the constant pool, which is to get the index `index`.
fn read_item(decoder: &mut Decoder, index: u16) -> (r: Result<Item, Error>)
    ensures
        parses(
            *old(decoder),
            *final(decoder),
            r,
            item_at(old(decoder).input(), old(decoder).pos(), index),
        ),
{
    let tag = decoder.read_u8()?;
    // match a tag and read the additional information
    let item = match tag {
        1 => {
            let length = decoder.read_u16()?;
            Item::UTF8(decoder.read_str(length as usize)?)
        },
        3 => Item::Integer(decoder.read_i32()?),
        4 => Item::Float(decoder.read_f32()?),
        5 => Item::Long(decoder.read_i64()?),
        6 => Item::Double(decoder.read_f64()?),
        7 => Item::Class(decoder.read_u16()?),
        8 => Item::String(decoder.read_u16()?),
        9 => {
            let class = decoder.read_u16()?;
            let name_and_type = decoder.read_u16()?;
            Item::FieldRef { class, name_and_type }
        },
        10 => {
            let class = decoder.read_u16()?;
            let name_and_type = decoder.read_u16()?;
            Item::MethodRef { class, name_and_type }
        },
        11 => {
            let class = decoder.read_u16()?;
            let name_and_type = decoder.read_u16()?;
            Item::InterfaceMethodRef { class, name_and_type }
        },
        12 => {
            let name = decoder.read_u16()?;
            let desc = decoder.read_u16()?;
            Item::NameAndType { name, desc }
        },
        15 => {
            let kind = match decoder.read_u8()? {
                1 => ReferenceKind::GetField,
                2 => ReferenceKind::GetStatic,
                3 => ReferenceKind::PutField,
                4 => ReferenceKind::PutStatic,
                5 => ReferenceKind::InvokeVirtual,
                6 => ReferenceKind::InvokeStatic,
                7 => ReferenceKind::InvokeSpecial,
                8 => ReferenceKind::NewInvokeSpecial,
                9 => ReferenceKind::InvokeInterface,
                _ => {
                    return Err(Error::InvalidCPItem(index));
                },
            };
            let index = decoder.read_u16()?;
            Item::MethodHandle { kind, index }
        },
        16 => Item::MethodType(decoder.read_u16()?),
        18 => {
            let bootstrap_method = decoder.read_u16()?;
            let name_and_type = decoder.read_u16()?;
            Item::InvokeDynamic { bootstrap_method, name_and_type }
        },
        19 => Item::Module(decoder.read_u16()?),
        20 => Item::Package(decoder.read_u16()?),
        _ => {
            return Err(Error::InvalidCPItem(index));
        },
    };
    Ok(item)
}

/// Reads the entire constant pool.
#[verifier::loop_isolation(false)]
fn read_constant_pool(decoder: &mut Decoder) -> (r: Result<Pool, Error>)
    ensures
        parses(
            *old(decoder),
            *final(decoder),
            r,
            constant_pool_at(old(decoder).input(), old(decoder).pos()),
        ),
        r is Ok ==> r->Ok_0.wf(),
{
    let ghost s = decoder.input();
    let size = decoder.read_u16()?;
    let mut pool = Pool::with_capacity(size);
    while pool.len() < size
        invariant
            pool.wf(),
            decoder.input() == s,
            constant_pool_at(s, old(decoder).pos()) == pool_items_at(s, decoder.pos(), size, pool@),
        decreases size - pool@.len(),
    {
        let index = pool.len();
        let item = read_item(decoder, index)?;
        // long and double values take two spaces
        pool.push_duplicate(item)?;
    }
    Ok(pool)
}

/// Parses all fields and their attributes.
#[verifier::loop_isolation(false)]
fn parse_fields(decoder: &mut Decoder, constant_pool: &Pool) -> (r: Result<Vec<Field>, Error>)
    requires
        constant_pool.wf(),
    ensures
        parses_views(
            *old(decoder),
            *final(decoder),
            r,
            members_at(old(decoder).input(), old(decoder).pos(), constant_pool@),
        ),
{
    let ghost s = decoder.input();
    let count = decoder.read_u16()?;
    let mut fields: Vec<Field> = Vec::with_capacity(count as usize);
    let mut i: u16 = 0;
    assert(views(fields@) =~= Seq::<MemberView>::empty());
    while i < count
        invariant
            i <= count,
            decoder.input() == s,
            members_at(s, old(decoder).pos(), constant_pool@) == members_from(
                s,
                decoder.pos(),
                constant_pool@,
                (count - i) as nat,
                views(fields@),
            ),
        decreases count - i,
    {
        let ghost done = views(fields@);
        let access_flags = AccessFlags::from_bits_truncate(decoder.read_u16()?);
        let name = decoder.read_u16()?;
        let desc = decoder.read_u16()?;
        let attributes = parse_attributes(decoder, constant_pool)?;
        let field = Field { access_flags, name, desc, attributes };
        assert(views(fields@.push(field)) =~= done.push(field@));
        fields.push(field);
        i += 1;
    }
    Ok(fields)
}

/// Parses all methods and their attributes.
#[verifier::loop_isolation(false)]
fn parse_methods(decoder: &mut Decoder, constant_pool: &Pool) -> (r: Result<Vec<Method>, Error>)
    requires
        constant_pool.wf(),
    ensures
        parses_views(
            *old(decoder),
            *final(decoder),
            r,
            members_at(old(decoder).input(), old(decoder).pos(), constant_pool@),
        ),
{
    let ghost s = decoder.input();
    let count = decoder.read_u16()?;
    let mut methods: Vec<Method> = Vec::with_capacity(count as usize);
    let mut i: u16 = 0;
    assert(views(methods@) =~= Seq::<MemberView>::empty());
    while i < count
        invariant
            i <= count,
            decoder.input() == s,
            members_at(s, old(decoder).pos(), constant_pool@) == members_from(
                s,
                decoder.pos(),
                constant_pool@,
                (count - i) as nat,
                views(methods@),
            ),
        decreases count - i,
    {
        let ghost done = views(methods@);
        let access_flags = AccessFlags::from_bits_truncate(decoder.read_u16()?);
        let name = decoder.read_u16()?;
        let desc = decoder.read_u16()?;
        let attributes = parse_attributes(decoder, constant_pool)?;
        let method = Method { access_flags, name, desc, attributes };
        assert(views(methods@.push(method)) =~= done.push(method@));
        methods.push(method);
        i += 1;
    }
    Ok(methods)
}

/// Parses the body of the attribute with the name `name`, which stands at
/// `name_index` in the pool. The decoder is limited to the body, which is
/// `length` bytes long.
fn parse_attribute_body(
    attr_decoder: &mut Decoder,
    constant_pool: &Pool,
    name: &str,
    name_index: u16,
    length: u32,
) -> (r: Result<Attribute, Error>)
    requires
        constant_pool.wf(),
        length == old(attr_decoder).input().len() - old(attr_decoder).pos(),
    ensures
        parses(
            *old(attr_decoder),
            *final(attr_decoder),
            r,
            attribute_body_at(
                old(attr_decoder).input(),
                old(attr_decoder).pos(),
                constant_pool@,
                name@,
                name_index,
            ),
        ),
    decreases old(attr_decoder).input().len() - old(attr_decoder).pos(), 1nat,
{
    if str_eq(name, "AnnotationDefault") {
        Ok(Attribute::AnnotationDefault(parse_element_value(attr_decoder)?))
    } else if str_eq(name, "BootstrapMethods") {
        parse_bootstrap_methods(attr_decoder)
    } else if str_eq(name, "Code") {
        parse_code(attr_decoder, constant_pool)
    } else if str_eq(name, "ConstantValue") {
        let index = attr_decoder.read_u16()?;
        Ok(Attribute::ConstantValue(index))
    } else if str_eq(name, "Deprecated") {
        Ok(Attribute::Deprecated)
    } else if str_eq(name, "EnclosingMethod") {
        parse_enclosing_method(attr_decoder)
    } else if str_eq(name, "Exceptions") {
        parse_exceptions(attr_decoder)
    } else if str_eq(name, "InnerClasses") {
        parse_inner_classes(attr_decoder)
    } else if str_eq(name, "LineNumberTable") {
        parse_line_number_table(attr_decoder)
    } else if str_eq(name, "LocalVariableTable") {
        parse_local_variable_table(attr_decoder)
    } else if str_eq(name, "LocalVariableTypeTable") {
        parse_local_variable_type_table(attr_decoder)
    } else if str_eq(name, "MethodParameters") {
        parse_method_parameters(attr_decoder)
    } else if str_eq(name, "Module") {
        parse_module(attr_decoder)
    } else if str_eq(name, "ModuleMainClass") {
        let index = attr_decoder.read_u16()?;
        Ok(Attribute::ModuleMainClass(index))
    } else if str_eq(name, "ModulePackages") {
        parse_module_packages(attr_decoder)
    } else if str_eq(name, "RuntimeVisibleAnnotations") {
        let annotations = parse_annotations(attr_decoder)?;
        Ok(Attribute::RuntimeVisibleAnnotations(annotations))
    } else if str_eq(name, "RuntimeInvisibleAnnotations") {
        let annotations = parse_annotations(attr_decoder)?;
        Ok(Attribute::RuntimeInvisibleAnnotations(annotations))
    } else if str_eq(name, "RuntimeVisibleParameterAnnotations") {
        let annotations = parse_parameter_annotations(attr_decoder)?;
        Ok(Attribute::RuntimeVisibleParameterAnnotations(annotations))
    } else if str_eq(name, "RuntimeInvisibleParameterAnnotations") {
        let annotations = parse_parameter_annotations(attr_decoder)?;
        Ok(Attribute::RuntimeInvisibleParameterAnnotations(annotations))
    } else if str_eq(name, "RuntimeVisibleTypeAnnotations") {
        let annotations = parse_type_annotations(attr_decoder)?;
        Ok(Attribute::RuntimeVisibleTypeAnnotations(annotations))
    } else if str_eq(name, "RuntimeInvisibleTypeAnnotations") {
        let annotations = parse_type_annotations(attr_decoder)?;
        Ok(Attribute::RuntimeInvisibleTypeAnnotations(annotations))
    } else if str_eq(name, "SourceFile") {
        let index = attr_decoder.read_u16()?;
        Ok(Attribute::SourceFile(index))
    } else if str_eq(name, "Signature") {
        let index = attr_decoder.read_u16()?;
        Ok(Attribute::Signature(index))
    } else if str_eq(name, "StackMapTable") {
        parse_stack_map_table(attr_decoder)
    } else if str_eq(name, "Synthetic") {
        Ok(Attribute::Synthetic)
    } else if str_eq(name, "SourceDebugExtension") {
        Ok(Attribute::SourceDebugExtension(attr_decoder.read_str(length as usize)?))
    } else {
        let bytes = attr_decoder.read_bytes(length as usize)?;
        Ok(Attribute::Unknown(name_index, slice_to_vec(bytes)))
    }
}

/// Parses all attributes.
#[verifier::loop_isolation(false)]
pub fn parse_attributes(decoder: &mut Decoder, constant_pool: &Pool) -> (r: Result<
    Vec<Attribute>,
    Error,
>)
    requires
        constant_pool.wf(),
    ensures
        parses_views(
            *old(decoder),
            *final(decoder),
            r,
            attributes_at(old(decoder).input(), old(decoder).pos(), constant_pool@),
        ),
    decreases old(decoder).input().len() - old(decoder).pos(), 0nat,
{
    let ghost s = decoder.input();
    let ghost origin = decoder.pos();
    let count = decoder.read_u16()?;
    let mut attributes: Vec<Attribute> = Vec::with_capacity(count as usize);
    let mut i: u16 = 0;
    assert(views(attributes@) =~= Seq::<AttributeView>::empty());
    while i < count
        invariant
            i <= count,
            decoder.input() == s,
            origin + 2 <= decoder.pos() <= s.len(),
            attributes_at(s, origin, constant_pool@) == attributes_from(
                s,
                decoder.pos(),
                constant_pool@,
                (count - i) as nat,
                views(attributes@),
            ),
        decreases count - i,
    {
        let ghost done = views(attributes@);
        let name_index = decoder.read_u16()?;
        let name = constant_pool.get_utf8(name_index)?;
        let length = decoder.read_u32()?;
        // limit attribute length
        let outer = decoder.limit(length as usize)?;
        let body = parse_attribute_body(decoder, constant_pool, name.as_str(), name_index, length);
        // go on
        let ended = decoder.remove_limit(outer);
        let attribute = body?;
        ended?;
        assert(views(attributes@.push(attribute)) =~= done.push(attribute@));
        attributes.push(attribute);
        i += 1;
    }
    Ok(attributes)
}

} // verus!
