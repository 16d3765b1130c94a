//! The writer of class files.

pub mod annotation;
pub mod attribute;
pub mod code;
pub mod encode;
pub mod grammar;
pub mod order;
pub mod table;

use vstd::prelude::*;
use super::constpool::{items_from, views as item_views, Item, ItemView, Pool, ReferenceKind, Slots};
use super::mutf8;
use super::result::Error;
use super::tree::{magic, views, Class, ClassView, Field, MemberView, Method};
use self::attribute::{attributes_bytes, write_attributes};
use self::code::i32_bytes;
use self::encode::{as_u64, u16_bytes, u32_bytes, u64_bytes, Encoder};
use self::grammar::{
    all, count16, counted16, each, then, u16_format, write_count16, write_u16_list, wrote, Format,
    Written,
};

verus! {

/// The byte of the kind of a method handle: 1 to 9.
pub open spec fn reference_kind_byte(kind: ReferenceKind) -> u8 {
    match kind {
        ReferenceKind::GetField => 1,
        ReferenceKind::GetStatic => 2,
        ReferenceKind::PutField => 3,
        ReferenceKind::PutStatic => 4,
        ReferenceKind::InvokeVirtual => 5,
        ReferenceKind::InvokeStatic => 6,
        ReferenceKind::InvokeSpecial => 7,
        ReferenceKind::NewInvokeSpecial => 8,
        ReferenceKind::InvokeInterface => 9,
    }
}

/// A tag and two `u16`.
pub open spec fn tagged_pair(tag: u8, a: u16, b: u16) -> Seq<u8> {
    seq![tag] + u16_bytes(a) + u16_bytes(b)
}

/// A constant pool item: its tag, and what the tag asks for. A string is
/// written in modified UTF-8, behind the number of its bytes, which must
/// fit in two bytes.
#[verifier::opaque]
pub open spec fn item_bytes(item: ItemView) -> Written {
    match item {
        ItemView::UTF8(s) => then(
            then(Ok(seq![1u8]), count16(mutf8::encode(s).len())),
            Ok(mutf8::encode(s)),
        ),
        ItemView::Integer(i) => Ok(seq![3u8] + i32_bytes(i)),
        ItemView::Float(bits) => Ok(seq![4u8] + u32_bytes(bits)),
        ItemView::Long(i) => Ok(seq![5u8] + u64_bytes(as_u64(i))),
        ItemView::Double(bits) => Ok(seq![6u8] + u64_bytes(bits)),
        ItemView::Class(i) => Ok(seq![7u8] + u16_bytes(i)),
        ItemView::String(i) => Ok(seq![8u8] + u16_bytes(i)),
        ItemView::FieldRef { class, name_and_type } => Ok(tagged_pair(9, class, name_and_type)),
        ItemView::MethodRef { class, name_and_type } => Ok(tagged_pair(10, class, name_and_type)),
        ItemView::InterfaceMethodRef { class, name_and_type } => Ok(
            tagged_pair(11, class, name_and_type),
        ),
        ItemView::NameAndType { name, desc } => Ok(tagged_pair(12, name, desc)),
        ItemView::MethodHandle { kind, index } => Ok(
            seq![15u8, reference_kind_byte(kind)] + u16_bytes(index),
        ),
        ItemView::MethodType(i) => Ok(seq![16u8] + u16_bytes(i)),
        ItemView::InvokeDynamic { bootstrap_method, name_and_type } => Ok(
            tagged_pair(18, bootstrap_method, name_and_type),
        ),
        ItemView::Module(i) => Ok(seq![19u8] + u16_bytes(i)),
        ItemView::Package(i) => Ok(seq![20u8] + u16_bytes(i)),
    }
}

/// The format of an item.
pub open spec fn item_format() -> Format<ItemView> {
    |item: ItemView| item_bytes(item)
}

/// The constant pool: its length, which is the next free index, and its
/// items in the order of their indices.
#[verifier::opaque]
pub open spec fn constant_pool_bytes(pool: Slots) -> Written {
    then(count16(pool.len() + 1), all(item_format(), items_from(pool, 0)))
}

/// A field or a method: flags, name and descriptor, and its attributes.
#[verifier::opaque]
pub open spec fn member_bytes(m: MemberView, pool: Slots) -> Written {
    then(
        Ok(u16_bytes(m.access_flags.bits) + u16_bytes(m.name) + u16_bytes(m.desc)),
        attributes_bytes(m.attributes, pool),
    )
}

/// The format of a member.
pub open spec fn member_format(pool: Slots) -> Format<MemberView> {
    |m: MemberView| member_bytes(m, pool)
}

/// The head of a class file: the magic number, the two version numbers,
/// the constant pool, and flags, name and super name.
pub open spec fn head_bytes(pool: Slots, class: ClassView) -> Written {
    then(
        then(
            Ok(magic() + u16_bytes(class.minor_version) + u16_bytes(class.major_version)),
            constant_pool_bytes(pool),
        ),
        Ok(u16_bytes(class.access_flags.bits) + u16_bytes(class.name) + u16_bytes(class.super_name)),
    )
}

/// What a class file holds: its head, and the counted lists of the
/// interfaces, the fields, the methods and the attributes.
pub open spec fn class_file_bytes(pool: Slots, class: ClassView) -> Written {
    then(
        then(
            then(
                then(head_bytes(pool, class), counted16(u16_format(), class.interfaces)),
                counted16(member_format(pool), class.fields),
            ),
            counted16(member_format(pool), class.methods),
        ),
        attributes_bytes(class.attributes, pool),
    )
}

/// Writes a constant pool and class to a byte vector.
pub fn write(constant_pool: &Pool, class: &Class) -> (r: Result<Vec<u8>, Error>)
    requires
        constant_pool.wf(),
    ensures
        match class_file_bytes(constant_pool@, class@) {
            Ok(bytes) => r is Ok && r->Ok_0@ == bytes,
            Err(e) => r is Err && r->Err_0 == e,
        },
{
    let mut encoder = Encoder::new();
    write_class(&mut encoder, constant_pool, class)?;
    assert(encoder@ =~= class_file_bytes(constant_pool@, class@)->Ok_0);
    Ok(encoder.bytes())
}

/// Writes the head of a class file: magic number, versions, constant pool,
/// flags, name and super name.
fn write_head(encoder: &mut Encoder, constant_pool: &Pool, class: &Class) -> (r: Result<(), Error>)
    requires
        constant_pool.wf(),
    ensures
        wrote(*old(encoder), *final(encoder), r, head_bytes(constant_pool@, class@)),
{
    // write magic and version
    encoder.write_u8(0xCA);
    encoder.write_u8(0xFE);
    encoder.write_u8(0xBA);
    encoder.write_u8(0xBE);
    encoder.write_u16(class.minor_version);
    encoder.write_u16(class.major_version);
    let ghost b0 = magic() + u16_bytes(class.minor_version) + u16_bytes(class.major_version);
    assert(encoder@ =~= old(encoder)@ + b0);
    write_constant_pool(encoder, constant_pool)?;
    let ghost b1 = constant_pool_bytes(constant_pool@)->Ok_0;
    encoder.write_u16(class.access_flags.bits());
    encoder.write_u16(class.name);
    encoder.write_u16(class.super_name);
    let ghost b2 = u16_bytes(class.access_flags.bits) + u16_bytes(class.name) + u16_bytes(
        class.super_name,
    );
    assert(encoder@ =~= old(encoder)@ + (b0 + b1 + b2));
    Ok(())
}

/// Writes a class file behind what the encoder holds.
fn write_class(encoder: &mut Encoder, constant_pool: &Pool, class: &Class) -> (r: Result<(), Error>)
    requires
        constant_pool.wf(),
    ensures
        wrote(*old(encoder), *final(encoder), r, class_file_bytes(constant_pool@, class@)),
{
    write_head(encoder, constant_pool, class)?;
    let ghost b0 = head_bytes(constant_pool@, class@)->Ok_0;
    write_u16_list(encoder, &class.interfaces)?;
    let ghost b1 = counted16(u16_format(), class.interfaces@)->Ok_0;
    write_fields(encoder, &class.fields, constant_pool)?;
    let ghost b2 = counted16(member_format(constant_pool@), views(class.fields@))->Ok_0;
    write_methods(encoder, &class.methods, constant_pool)?;
    let ghost b3 = counted16(member_format(constant_pool@), views(class.methods@))->Ok_0;
    write_attributes(encoder, &class.attributes, constant_pool)?;
    let ghost b4 = attributes_bytes(views(class.attributes@), constant_pool@)->Ok_0;
    assert(encoder@ =~= old(encoder)@ + (b0 + b1 + b2 + b3 + b4));
    Ok(())
}

/// Writes a tag and a `u16`.
fn write_tagged(encoder: &mut Encoder, tag: u8, index: u16)
    ensures
        final(encoder)@ == old(encoder)@ + (seq![tag] + u16_bytes(index)),
{
    encoder.write_u8(tag);
    encoder.write_u16(index);
    assert(encoder@ =~= old(encoder)@ + (seq![tag] + u16_bytes(index)));
}

/// Writes a tag and two `u16`.
fn write_tagged_pair(encoder: &mut Encoder, tag: u8, a: u16, b: u16)
    ensures
        final(encoder)@ == old(encoder)@ + tagged_pair(tag, a, b),
{
    encoder.write_u8(tag);
    encoder.write_u16(a);
    encoder.write_u16(b);
    assert(encoder@ =~= old(encoder)@ + tagged_pair(tag, a, b));
}

/// Writes one item of the constant pool.
fn write_item(encoder: &mut Encoder, item: &Item) -> (r: Result<(), Error>)
    ensures
        wrote(*old(encoder), *final(encoder), r, item_bytes(item@)),
{
    reveal(item_bytes);
    match item {
        Item::UTF8(s) => {
            let mut text = Encoder::new();
            text.write_str(s.as_str());
            assert(text@ =~= mutf8::encode(s@));
            encoder.write_u8(1);
            write_count16(encoder, text.len())?;
            let bytes = text.bytes();
            encoder.write_bytes(bytes.as_slice());
            assert(encoder@ =~= old(encoder)@ + (seq![1u8] + u16_bytes(bytes@.len() as u16) + bytes@));
        },
        Item::Integer(value) => {
            encoder.write_u8(3);
            encoder.write_i32(*value);
            assert(encoder@ =~= old(encoder)@ + (seq![3u8] + i32_bytes(*value)));
        },
        Item::Float(bits) => {
            encoder.write_u8(4);
            encoder.write_f32(*bits);
            assert(encoder@ =~= old(encoder)@ + (seq![4u8] + u32_bytes(*bits)));
        },
        Item::Long(value) => {
            encoder.write_u8(5);
            encoder.write_i64(*value);
            assert(encoder@ =~= old(encoder)@ + (seq![5u8] + u64_bytes(as_u64(*value))));
        },
        Item::Double(bits) => {
            encoder.write_u8(6);
            encoder.write_f64(*bits);
            assert(encoder@ =~= old(encoder)@ + (seq![6u8] + u64_bytes(*bits)));
        },
        Item::Class(index) => write_tagged(encoder, 7, *index),
        Item::String(index) => write_tagged(encoder, 8, *index),
        Item::FieldRef { class, name_and_type } => write_tagged_pair(
            encoder,
            9,
            *class,
            *name_and_type,
        ),
        Item::MethodRef { class, name_and_type } => write_tagged_pair(
            encoder,
            10,
            *class,
            *name_and_type,
        ),
        Item::InterfaceMethodRef { class, name_and_type } => write_tagged_pair(
            encoder,
            11,
            *class,
            *name_and_type,
        ),
        Item::NameAndType { name, desc } => write_tagged_pair(encoder, 12, *name, *desc),
        Item::MethodHandle { kind, index } => {
            encoder.write_u8(15);
            encoder.write_u8(
                match kind {
                    ReferenceKind::GetField => 1,
                    ReferenceKind::GetStatic => 2,
                    ReferenceKind::PutField => 3,
                    ReferenceKind::PutStatic => 4,
                    ReferenceKind::InvokeVirtual => 5,
                    ReferenceKind::InvokeStatic => 6,
                    ReferenceKind::InvokeSpecial => 7,
                    ReferenceKind::NewInvokeSpecial => 8,
                    ReferenceKind::InvokeInterface => 9,
                },
            );
            encoder.write_u16(*index);
            assert(encoder@ =~= old(encoder)@ + (seq![15u8, reference_kind_byte(*kind)] + u16_bytes(
                *index,
            )));
        },
        Item::MethodType(index) => write_tagged(encoder, 16, *index),
        Item::InvokeDynamic { bootstrap_method, name_and_type } => write_tagged_pair(
            encoder,
            18,
            *bootstrap_method,
            *name_and_type,
        ),
        Item::Module(index) => write_tagged(encoder, 19, *index),
        Item::Package(index) => write_tagged(encoder, 20, *index),
    }
    Ok(())
}

/// Writes the constant pool.
#[verifier::loop_isolation(false)]
fn write_constant_pool(encoder: &mut Encoder, pool: &Pool) -> (r: Result<(), Error>)
    requires
        pool.wf(),
    ensures
        wrote(*old(encoder), *final(encoder), r, constant_pool_bytes(pool@)),
{
    reveal(constant_pool_bytes);
    // write length and after that the items
    encoder.write_u16(pool.len());
    let items = pool.get_items();
    let ghost v = items_from(pool@, 0);
    let ghost base = encoder@;
    let ghost mut written = Seq::<u8>::empty();
    assert(encoder@ =~= base + written);
    let mut i: usize = 0;
    while i < items.len()
        invariant
            i <= items@.len(),
            item_views(items@) == v,
            encoder@ == base + written,
            all(item_format(), v) == each(item_format(), v, i as int, written),
        decreases items@.len() - i,
    {
        write_item(encoder, items[i])?;
        proof {
            assert(v[i as int] == items@[i as int]@);
            written = written + item_bytes(v[i as int])->Ok_0;
            assert(encoder@ =~= base + written);
        }
        i += 1;
    }
    assert(encoder@ =~= old(encoder)@ + (u16_bytes((pool@.len() + 1) as u16) + written));
    Ok(())
}

/// Writes what a field or a method holds.
fn write_member(
    encoder: &mut Encoder,
    flags: u16,
    name: u16,
    desc: u16,
    attributes: &Vec<super::tree::Attribute>,
    pool: &Pool,
) -> (r: Result<(), Error>)
    requires
        pool.wf(),
    ensures
        wrote(
            *old(encoder),
            *final(encoder),
            r,
            then(
                Ok(u16_bytes(flags) + u16_bytes(name) + u16_bytes(desc)),
                attributes_bytes(views(attributes@), pool@),
            ),
        ),
{
    encoder.write_u16(flags);
    encoder.write_u16(name);
    encoder.write_u16(desc);
    let ghost head = u16_bytes(flags) + u16_bytes(name) + u16_bytes(desc);
    assert(encoder@ =~= old(encoder)@ + head);
    write_attributes(encoder, attributes, pool)?;
    assert(encoder@ =~= old(encoder)@ + (head + attributes_bytes(views(attributes@), pool@)->Ok_0));
    Ok(())
}

/// Writes all fields to the encoder.
#[verifier::loop_isolation(false)]
#[verifier::rlimit(40)]
pub fn write_fields(encoder: &mut Encoder, fields: &Vec<Field>, pool: &Pool) -> (r: Result<(), Error>)
    requires
        pool.wf(),
    ensures
        wrote(*old(encoder), *final(encoder), r, counted16(member_format(pool@), views(fields@))),
{
    let ghost v = views(fields@);
    write_count16(encoder, fields.len())?;
    let ghost base = encoder@;
    let ghost mut written = Seq::<u8>::empty();
    assert(encoder@ =~= base + written);
    let mut i: usize = 0;
    while i < fields.len()
        invariant
            i <= fields@.len(),
            encoder@ == base + written,
            all(member_format(pool@), v) == each(member_format(pool@), v, i as int, written),
        decreases fields@.len() - i,
    {
        let field = &fields[i];
        proof {
            reveal(member_bytes);
        }
        write_member(
            encoder,
            field.access_flags.bits(),
            field.name,
            field.desc,
            &field.attributes,
            pool,
        )?;
        proof {
            written = written + member_bytes(v[i as int], pool@)->Ok_0;
            assert(encoder@ =~= base + written);
        }
        i += 1;
    }
    assert(encoder@ =~= old(encoder)@ + (u16_bytes(v.len() as u16) + written));
    Ok(())
}

/// Writes all methods to the encoder.
#[verifier::loop_isolation(false)]
#[verifier::rlimit(40)]
pub fn write_methods(encoder: &mut Encoder, methods: &Vec<Method>, pool: &Pool) -> (r: Result<
    (),
    Error,
>)
    requires
        pool.wf(),
    ensures
        wrote(*old(encoder), *final(encoder), r, counted16(member_format(pool@), views(methods@))),
{
    let ghost v = views(methods@);
    write_count16(encoder, methods.len())?;
    let ghost base = encoder@;
    let ghost mut written = Seq::<u8>::empty();
    assert(encoder@ =~= base + written);
    let mut i: usize = 0;
    while i < methods.len()
        invariant
            i <= methods@.len(),
            encoder@ == base + written,
            all(member_format(pool@), v) == each(member_format(pool@), v, i as int, written),
        decreases methods@.len() - i,
    {
        let method = &methods[i];
        proof {
            reveal(member_bytes);
        }
        write_member(
            encoder,
            method.access_flags.bits(),
            method.name,
            method.desc,
            &method.attributes,
            pool,
        )?;
        proof {
            written = written + member_bytes(v[i as int], pool@)->Ok_0;
            assert(encoder@ =~= base + written);
        }
        i += 1;
    }
    assert(encoder@ =~= old(encoder)@ + (u16_bytes(v.len() as u16) + written));
    Ok(())
}

} // verus!
