//! A class is read as it was written: its fields and methods, and the
//! class behind its constant pool.

use vstd::prelude::*;
use super::super::constpool::{well_formed, Slots};
use super::super::parser::grammar::{
    counted16 as read_counted16, fits, repeat, u16_in, u16_item, Grammar,
};
use super::super::parser::{
    attributes_at, class_at, class_file, constant_pool_at, member_at, members_at, members_from,
};
use super::super::result::Error;
use super::super::tree::{magic, AttributeView, ClassView, MemberView};
use super::super::writer::attribute::attributes_bytes;
use super::super::writer::encode::u16_bytes;
use super::super::writer::grammar::{counted16, then, u16_format, Written};
use super::super::writer::{class_file_bytes, constant_pool_bytes, member_bytes, member_format};
use super::attribute::canonical;
use super::code::lemma_read_u16;
use super::frame::lemma_read_u16_list;
use super::framing::lemma_read_attributes;
use super::pool::lemma_read_pool;
use super::{holds_at, lemma_read_counted16, lemma_split, reads_back};

verus! {

/// A field or a method whose attributes are read exactly as they were
/// written.
pub open spec fn canonical_member(m: MemberView, pool: Slots) -> bool {
    forall|i: int| 0 <= i < m.attributes.len() ==> canonical(#[trigger] m.attributes[i], pool)
}

/// The grammar of a field or a method.
pub open spec fn member_item(pool: Slots) -> Grammar<MemberView> {
    |s: Seq<u8>, pos: int| member_at(s, pos, pool)
}

/// Fields or methods in a row are a field or a method, repeated.
pub proof fn lemma_members_repeat(
    s: Seq<u8>,
    pos: int,
    pool: Slots,
    count: nat,
    acc: Seq<MemberView>,
)
    ensures
        members_from(s, pos, pool, count, acc) == repeat(member_item(pool), s, pos, count, acc),
    decreases count,
{
    if count > 0 {
        match member_at(s, pos, pool) {
            Ok((member, next)) => lemma_members_repeat(
                s,
                next,
                pool,
                (count - 1) as nat,
                acc.push(member),
            ),
            Err(_) => {},
        }
    }
}

/// Where the parts of a field or a method stand, each of them stands.
proof fn lemma_member_layout(flags: u16, name: u16, desc: u16, rest: Seq<u8>, s: Seq<u8>, pos: int)
    requires
        holds_at(s, pos, u16_bytes(flags) + u16_bytes(name) + u16_bytes(desc) + rest),
    ensures
        fits(s, pos, 6),
        u16_in(s, pos) == flags,
        u16_in(s, pos + 2) == name,
        u16_in(s, pos + 4) == desc,
        holds_at(s, pos + 6, rest),
{
    let a = u16_bytes(flags);
    let b = u16_bytes(name);
    let c = u16_bytes(desc);
    lemma_split(s, pos, a + b + c, rest);
    lemma_split(s, pos, a + b, c);
    lemma_split(s, pos, a, b);
    lemma_read_u16(s, pos, flags);
    lemma_read_u16(s, pos + 2, name);
    lemma_read_u16(s, pos + 4, desc);
}

/// What a field or a method is written as: six bytes, and its attributes.
proof fn lemma_member_bytes(m: MemberView, pool: Slots)
    requires
        member_bytes(m, pool) is Ok,
    ensures
        attributes_bytes(m.attributes, pool) is Ok,
        member_bytes(m, pool)->Ok_0 == u16_bytes(m.access_flags.bits) + u16_bytes(m.name)
            + u16_bytes(m.desc) + attributes_bytes(m.attributes, pool)->Ok_0,
        member_bytes(m, pool)->Ok_0.len() == 6 + attributes_bytes(m.attributes, pool)->Ok_0.len(),
{
    reveal(member_bytes);
}

/// A field or a method is what its parts are read as.
proof fn lemma_member_of_parts(m: MemberView, pool: Slots, s: Seq<u8>, pos: int, end: int)
    requires
        fits(s, pos, 6),
        u16_in(s, pos) == m.access_flags.bits,
        u16_in(s, pos + 2) == m.name,
        u16_in(s, pos + 4) == m.desc,
        attributes_at(s, pos + 6, pool) == Ok::<(Seq<AttributeView>, int), Error>(
            (m.attributes, end),
        ),
    ensures
        member_at(s, pos, pool) == Ok::<(MemberView, int), Error>((m, end)),
{
}

/// A field or a method is read as it was written.
pub proof fn lemma_read_member(m: MemberView, pool: Slots, s: Seq<u8>, pos: int)
    requires
        pool.len() <= 0xFFFF,
        canonical_member(m, pool),
        member_bytes(m, pool) is Ok,
        holds_at(s, pos, member_bytes(m, pool)->Ok_0),
    ensures
        member_at(s, pos, pool) == Ok::<(MemberView, int), Error>(
            (m, pos + member_bytes(m, pool)->Ok_0.len()),
        ),
{
    lemma_member_bytes(m, pool);
    let rest = attributes_bytes(m.attributes, pool)->Ok_0;
    lemma_member_layout(m.access_flags.bits, m.name, m.desc, rest, s, pos);
    lemma_read_attributes(m.attributes, pool, s, pos + 6);
    lemma_member_of_parts(m, pool, s, pos, pos + 6 + rest.len());
}

/// A field or a method is read as it was written, wherever it stands.
pub proof fn lemma_member_reads_back(m: MemberView, pool: Slots)
    requires
        pool.len() <= 0xFFFF,
        canonical_member(m, pool),
    ensures
        reads_back(member_format(pool), member_item(pool), m),
{
    if member_bytes(m, pool) is Ok {
        assert forall|s: Seq<u8>, pos: int| #[trigger]
            holds_at(s, pos, member_bytes(m, pool)->Ok_0) implies member_at(s, pos, pool) == Ok::<
            (MemberView, int),
            Error,
        >((m, pos + member_bytes(m, pool)->Ok_0.len())) by {
            lemma_read_member(m, pool, s, pos);
        }
    }
}

/// A counted list of fields or of methods is read as it was written.
pub proof fn lemma_read_members(v: Seq<MemberView>, pool: Slots, s: Seq<u8>, pos: int)
    requires
        pool.len() <= 0xFFFF,
        forall|i: int| 0 <= i < v.len() ==> canonical_member(#[trigger] v[i], pool),
        counted16(member_format(pool), v) is Ok,
        holds_at(s, pos, counted16(member_format(pool), v)->Ok_0),
    ensures
        members_at(s, pos, pool) == Ok::<(Seq<MemberView>, int), Error>(
            (v, pos + counted16(member_format(pool), v)->Ok_0.len()),
        ),
{
    assert forall|i: int| 0 <= i < v.len() implies reads_back(
        member_format(pool),
        member_item(pool),
        #[trigger] v[i],
    ) by {
        lemma_member_reads_back(v[i], pool);
    }
    lemma_read_counted16(member_format(pool), member_item(pool), v, s, pos);
    lemma_members_repeat(s, pos + 2, pool, v.len(), Seq::empty());
}

/// A class whose attributes, and those of its fields and methods, are read
/// exactly as they were written.
pub open spec fn canonical_class(class: ClassView, pool: Slots) -> bool {
    &&& forall|i: int|
        0 <= i < class.fields.len() ==> canonical_member(#[trigger] class.fields[i], pool)
    &&& forall|i: int|
        0 <= i < class.methods.len() ==> canonical_member(#[trigger] class.methods[i], pool)
    &&& forall|i: int|
        0 <= i < class.attributes.len() ==> canonical(#[trigger] class.attributes[i], pool)
}

/// What stands in a class file behind the constant pool.
pub open spec fn class_bytes(pool: Slots, class: ClassView) -> Written {
    then(
        then(
            then(
                then(
                    Ok(
                        u16_bytes(class.access_flags.bits) + u16_bytes(class.name) + u16_bytes(
                            class.super_name,
                        ),
                    ),
                    counted16(u16_format(), class.interfaces),
                ),
                counted16(member_format(pool), class.fields),
            ),
            counted16(member_format(pool), class.methods),
        ),
        attributes_bytes(class.attributes, pool),
    )
}

/// Where the parts of a class stand, one behind the other, each stands.
proof fn lemma_class_layout(
    flags: u16,
    name: u16,
    super_name: u16,
    interfaces: Seq<u8>,
    fields: Seq<u8>,
    methods: Seq<u8>,
    attributes: Seq<u8>,
    s: Seq<u8>,
    pos: int,
)
    requires
        holds_at(
            s,
            pos,
            u16_bytes(flags) + u16_bytes(name) + u16_bytes(super_name) + interfaces + fields
                + methods + attributes,
        ),
    ensures
        fits(s, pos, 6),
        u16_in(s, pos) == flags,
        u16_in(s, pos + 2) == name,
        u16_in(s, pos + 4) == super_name,
        holds_at(s, pos + 6, interfaces),
        holds_at(s, pos + 6 + interfaces.len(), fields),
        holds_at(s, pos + 6 + interfaces.len() + fields.len(), methods),
        holds_at(s, pos + 6 + interfaces.len() + fields.len() + methods.len(), attributes),
{
    let head = u16_bytes(flags) + u16_bytes(name) + u16_bytes(super_name);
    lemma_split(s, pos, head + interfaces + fields + methods, attributes);
    lemma_split(s, pos, head + interfaces + fields, methods);
    lemma_split(s, pos, head + interfaces, fields);
    lemma_split(s, pos, head, interfaces);
    lemma_member_layout(flags, name, super_name, interfaces, s, pos);
}

/// A class is what its parts are read as.
proof fn lemma_class_of_parts(
    class: ClassView,
    pool: Slots,
    s: Seq<u8>,
    pos: int,
    pos1: int,
    pos2: int,
    pos3: int,
    end: int,
)
    requires
        fits(s, pos, 6),
        u16_in(s, pos) == class.access_flags.bits,
        u16_in(s, pos + 2) == class.name,
        u16_in(s, pos + 4) == class.super_name,
        read_counted16(u16_item(), s, pos + 6) == Ok::<(Seq<u16>, int), Error>(
            (class.interfaces, pos1),
        ),
        members_at(s, pos1, pool) == Ok::<(Seq<MemberView>, int), Error>((class.fields, pos2)),
        members_at(s, pos2, pool) == Ok::<(Seq<MemberView>, int), Error>((class.methods, pos3)),
        attributes_at(s, pos3, pool) == Ok::<(Seq<AttributeView>, int), Error>(
            (class.attributes, end),
        ),
    ensures
        class_at(s, pos, pool, class.minor_version, class.major_version) == Ok::<
            (ClassView, int),
            Error,
        >((class, end)),
{
}

/// The parts that a class is written as.
proof fn lemma_class_bytes(pool: Slots, class: ClassView)
    requires
        class_bytes(pool, class) is Ok,
    ensures
        counted16(u16_format(), class.interfaces) is Ok,
        counted16(member_format(pool), class.fields) is Ok,
        counted16(member_format(pool), class.methods) is Ok,
        attributes_bytes(class.attributes, pool) is Ok,
        class_bytes(pool, class)->Ok_0 == u16_bytes(class.access_flags.bits) + u16_bytes(
            class.name,
        ) + u16_bytes(class.super_name) + counted16(u16_format(), class.interfaces)->Ok_0
            + counted16(member_format(pool), class.fields)->Ok_0 + counted16(
            member_format(pool),
            class.methods,
        )->Ok_0 + attributes_bytes(class.attributes, pool)->Ok_0,
        class_bytes(pool, class)->Ok_0.len() == 6 + counted16(
            u16_format(),
            class.interfaces,
        )->Ok_0.len() + counted16(member_format(pool), class.fields)->Ok_0.len() + counted16(
            member_format(pool),
            class.methods,
        )->Ok_0.len() + attributes_bytes(class.attributes, pool)->Ok_0.len(),
{
}

/// A class is read, behind its constant pool, as it was written.
pub proof fn lemma_read_class(class: ClassView, pool: Slots, s: Seq<u8>, pos: int)
    requires
        pool.len() <= 0xFFFF,
        canonical_class(class, pool),
        class_bytes(pool, class) is Ok,
        holds_at(s, pos, class_bytes(pool, class)->Ok_0),
    ensures
        class_at(s, pos, pool, class.minor_version, class.major_version) == Ok::<
            (ClassView, int),
            Error,
        >((class, pos + class_bytes(pool, class)->Ok_0.len())),
{
    lemma_class_bytes(pool, class);
    let interfaces = counted16(u16_format(), class.interfaces)->Ok_0;
    let fields = counted16(member_format(pool), class.fields)->Ok_0;
    let methods = counted16(member_format(pool), class.methods)->Ok_0;
    let attributes = attributes_bytes(class.attributes, pool)->Ok_0;
    lemma_class_layout(
        class.access_flags.bits,
        class.name,
        class.super_name,
        interfaces,
        fields,
        methods,
        attributes,
        s,
        pos,
    );
    let pos1 = pos + 6 + interfaces.len();
    let pos2 = pos1 + fields.len();
    let pos3 = pos2 + methods.len();
    lemma_read_u16_list(class.interfaces, s, pos + 6);
    lemma_read_members(class.fields, pool, s, pos1);
    lemma_read_members(class.methods, pool, s, pos2);
    lemma_read_attributes(class.attributes, pool, s, pos3);
    lemma_class_of_parts(class, pool, s, pos, pos1, pos2, pos3, pos3 + attributes.len());
}

/// The parts that a class file is written as: the magic number, the
/// versions, the constant pool and the class.
proof fn lemma_class_file_bytes(pool: Slots, class: ClassView)
    requires
        class_file_bytes(pool, class) is Ok,
    ensures
        constant_pool_bytes(pool) is Ok,
        class_bytes(pool, class) is Ok,
        class_file_bytes(pool, class)->Ok_0 == magic() + u16_bytes(class.minor_version)
            + u16_bytes(class.major_version) + constant_pool_bytes(pool)->Ok_0 + class_bytes(
            pool,
            class,
        )->Ok_0,
{
    let front = magic() + u16_bytes(class.minor_version) + u16_bytes(class.major_version)
        + constant_pool_bytes(pool)->Ok_0;
    let head = u16_bytes(class.access_flags.bits) + u16_bytes(class.name) + u16_bytes(
        class.super_name,
    );
    let a = counted16(u16_format(), class.interfaces)->Ok_0;
    let b = counted16(member_format(pool), class.fields)->Ok_0;
    let c = counted16(member_format(pool), class.methods)->Ok_0;
    let d = attributes_bytes(class.attributes, pool)->Ok_0;
    assert(front + head + a + b + c + d =~= front + (head + a + b + c + d));
}

/// Where the parts of a class file stand, each of them stands.
proof fn lemma_class_file_layout(minor: u16, major: u16, pool: Seq<u8>, class: Seq<u8>, s: Seq<u8>)
    requires
        s == magic() + u16_bytes(minor) + u16_bytes(major) + pool + class,
    ensures
        s.len() >= 8,
        s.subrange(0, 4) == magic(),
        u16_in(s, 4) == minor,
        u16_in(s, 6) == major,
        holds_at(s, 8, pool),
        holds_at(s, 8int + pool.len(), class),
{
    assert(s.subrange(0, s.len() as int) =~= s);
    lemma_split(s, 0, magic() + u16_bytes(minor) + u16_bytes(major) + pool, class);
    lemma_split(s, 0, magic() + u16_bytes(minor) + u16_bytes(major), pool);
    lemma_split(s, 0, magic() + u16_bytes(minor), u16_bytes(major));
    lemma_split(s, 0, magic(), u16_bytes(minor));
    lemma_read_u16(s, 4, minor);
    lemma_read_u16(s, 6, major);
}

/// A class file is what its parts are read as.
proof fn lemma_class_file_of_parts(pool: Slots, class: ClassView, s: Seq<u8>, pos: int, end: int)
    requires
        s.len() >= 8,
        s.subrange(0, 4) == magic(),
        u16_in(s, 4) == class.minor_version,
        u16_in(s, 6) == class.major_version,
        constant_pool_at(s, 8) == Ok::<(Slots, int), Error>((pool, pos)),
        class_at(s, pos, pool, class.minor_version, class.major_version) == Ok::<
            (ClassView, int),
            Error,
        >((class, end)),
    ensures
        class_file(s) == Ok::<(Slots, ClassView), Error>((pool, class)),
{
}

/// What is written for a constant pool and a class is read as that pool
/// and that class.
pub proof fn lemma_read_class_file(pool: Slots, class: ClassView)
    requires
        well_formed(pool),
        canonical_class(class, pool),
        class_file_bytes(pool, class) is Ok,
    ensures
        class_file(class_file_bytes(pool, class)->Ok_0) == Ok::<(Slots, ClassView), Error>(
            (pool, class),
        ),
{
    let s = class_file_bytes(pool, class)->Ok_0;
    lemma_class_file_bytes(pool, class);
    let items = constant_pool_bytes(pool)->Ok_0;
    let rest = class_bytes(pool, class)->Ok_0;
    lemma_class_file_layout(class.minor_version, class.major_version, items, rest, s);
    lemma_read_pool(pool, s, 8);
    lemma_read_class(class, pool, s, 8int + items.len());
    lemma_class_file_of_parts(pool, class, s, 8int + items.len(), 8int + items.len() + rest.len());
}

} // verus!
