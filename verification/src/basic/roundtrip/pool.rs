//! A constant pool is read as it was written.

use vstd::prelude::*;
use super::super::constpool::{appended, items_from, well_formed, ItemView, ReferenceKind, Slots};
use super::super::mutf8;
use super::super::parser::decode::{u16_at, u32_at, u64_at, u8_at};
use super::super::parser::{constant_pool_at, item_at, pool_items_at, reference_kind, two_u16_at};
use super::super::result::Error;
use super::super::writer::encode::{
    as_u64, lemma_signed_round_trip, lemma_unsigned_round_trip, u16_bytes, u32_bytes, u64_bytes,
};
use super::super::writer::grammar::{all, each, then, Format};
use super::super::writer::{
    constant_pool_bytes, item_bytes, item_format, reference_kind_byte, tagged_pair,
};
use super::code::{lemma_read_u16, lemma_read_u8};
use super::framing::lemma_read_u32;
use super::{holds_at, lemma_between, lemma_each_behind, lemma_split};

verus! {

/// Eight bytes that a number was written as are read as the number.
pub proof fn lemma_read_u64(s: Seq<u8>, pos: int, n: u64)
    requires
        0 <= pos,
        pos + 8 <= s.len(),
        s.subrange(pos, pos + 8) == u64_bytes(n),
    ensures
        u64_at(s, pos) == Ok::<(u64, int), Error>((n, pos + 8)),
{
    lemma_unsigned_round_trip(0, 0, n);
}

/// A tag stands where the bytes stand that start with it, and the rest
/// stands behind it.
proof fn lemma_tag(tag: u8, rest: Seq<u8>, s: Seq<u8>, pos: int)
    requires
        holds_at(s, pos, seq![tag] + rest),
    ensures
        u8_at(s, pos) == Ok::<(u8, int), Error>((tag, pos + 1)),
        holds_at(s, pos + 1, rest),
{
    lemma_split(s, pos, seq![tag], rest);
    assert(s.subrange(pos, pos + 1)[0] == s[pos]);
    lemma_read_u8(s, pos, tag);
}

/// An item of a tag and one `u16` is read as it was written.
proof fn lemma_read_tagged(tag: u8, i: u16, s: Seq<u8>, pos: int)
    requires
        holds_at(s, pos, seq![tag] + u16_bytes(i)),
    ensures
        u8_at(s, pos) == Ok::<(u8, int), Error>((tag, pos + 1)),
        u16_at(s, pos + 1) == Ok::<(u16, int), Error>((i, pos + 3)),
        (seq![tag] + u16_bytes(i)).len() == 3,
{
    lemma_tag(tag, u16_bytes(i), s, pos);
    lemma_read_u16(s, pos + 1, i);
}

/// An item of a tag and two `u16` is read as it was written.
proof fn lemma_read_tagged_pair(tag: u8, a: u16, b: u16, s: Seq<u8>, pos: int)
    requires
        holds_at(s, pos, tagged_pair(tag, a, b)),
    ensures
        u8_at(s, pos) == Ok::<(u8, int), Error>((tag, pos + 1)),
        two_u16_at(s, pos + 1) == Ok::<((u16, u16), int), Error>(((a, b), pos + 5)),
        tagged_pair(tag, a, b).len() == 5,
{
    assert(tagged_pair(tag, a, b) =~= seq![tag] + (u16_bytes(a) + u16_bytes(b)));
    lemma_tag(tag, u16_bytes(a) + u16_bytes(b), s, pos);
    lemma_split(s, pos + 1, u16_bytes(a), u16_bytes(b));
    lemma_read_u16(s, pos + 1, a);
    lemma_read_u16(s, pos + 3, b);
}

/// A number of four bytes behind a tag is read as it was written.
proof fn lemma_read_tagged_u32(tag: u8, n: u32, s: Seq<u8>, pos: int)
    requires
        holds_at(s, pos, seq![tag] + u32_bytes(n)),
    ensures
        u8_at(s, pos) == Ok::<(u8, int), Error>((tag, pos + 1)),
        u32_at(s, pos + 1) == Ok::<(u32, int), Error>((n, pos + 5)),
        (seq![tag] + u32_bytes(n)).len() == 5,
{
    lemma_tag(tag, u32_bytes(n), s, pos);
    lemma_read_u32(s, pos + 1, n);
}

/// A number of eight bytes behind a tag is read as it was written.
proof fn lemma_read_tagged_u64(tag: u8, n: u64, s: Seq<u8>, pos: int)
    requires
        holds_at(s, pos, seq![tag] + u64_bytes(n)),
    ensures
        u8_at(s, pos) == Ok::<(u8, int), Error>((tag, pos + 1)),
        u64_at(s, pos + 1) == Ok::<(u64, int), Error>((n, pos + 9)),
        (seq![tag] + u64_bytes(n)).len() == 9,
{
    lemma_tag(tag, u64_bytes(n), s, pos);
    lemma_read_u64(s, pos + 1, n);
}

/// A string behind its tag and its length is read as it was written.
proof fn lemma_read_tagged_text(chars: Seq<char>, s: Seq<u8>, pos: int)
    requires
        mutf8::encode(chars).len() <= 0xFFFF,
        holds_at(
            s,
            pos,
            seq![1u8] + u16_bytes(mutf8::encode(chars).len() as u16) + mutf8::encode(chars),
        ),
    ensures
        u8_at(s, pos) == Ok::<(u8, int), Error>((1u8, pos + 1)),
        u16_at(s, pos + 1) == Ok::<(u16, int), Error>(
            (mutf8::encode(chars).len() as u16, pos + 3),
        ),
        mutf8::decode(s, pos + 3, mutf8::encode(chars).len() as int) == Ok::<
            (Seq<char>, int),
            Error,
        >((chars, pos + 3 + mutf8::encode(chars).len())),
{
    let text = mutf8::encode(chars);
    let length = u16_bytes(text.len() as u16);
    lemma_split(s, pos, seq![1u8] + length, text);
    lemma_read_tagged(1, text.len() as u16, s, pos);
    lemma_between(s, pos + 3, text);
    mutf8::lemma_round_trip_from(chars, s.take(pos + 3), s.skip(pos + 3 + text.len()), Seq::empty());
    assert(Seq::<char>::empty() + chars =~= chars);
}

/// The byte of a kind of method handle is read as the kind.
proof fn lemma_reference_kind(kind: ReferenceKind)
    ensures
        reference_kind(reference_kind_byte(kind)) == Some(kind),
{
}

/// A method handle is read as it was written.
proof fn lemma_read_handle(kind: ReferenceKind, index: u16, s: Seq<u8>, pos: int)
    requires
        holds_at(s, pos, seq![15u8, reference_kind_byte(kind)] + u16_bytes(index)),
    ensures
        u8_at(s, pos) == Ok::<(u8, int), Error>((15u8, pos + 1)),
        u8_at(s, pos + 1) == Ok::<(u8, int), Error>((reference_kind_byte(kind), pos + 2)),
        u16_at(s, pos + 2) == Ok::<(u16, int), Error>((index, pos + 4)),
        (seq![15u8, reference_kind_byte(kind)] + u16_bytes(index)).len() == 4,
{
    let byte = reference_kind_byte(kind);
    assert(seq![15u8, byte] + u16_bytes(index) =~= seq![15u8] + (seq![byte] + u16_bytes(index)));
    lemma_tag(15, seq![byte] + u16_bytes(index), s, pos);
    lemma_read_tagged(byte, index, s, pos + 1);
}

/// A constant pool item is read as it was written, whatever index it is
/// to get.
pub proof fn lemma_read_item(item: ItemView, s: Seq<u8>, pos: int, index: u16)
    requires
        item_bytes(item) is Ok,
        holds_at(s, pos, item_bytes(item)->Ok_0),
    ensures
        item_at(s, pos, index) == Ok::<(ItemView, int), Error>(
            (item, pos + item_bytes(item)->Ok_0.len()),
        ),
{
    reveal(item_bytes);
    match item {
        ItemView::UTF8(chars) => lemma_read_tagged_text(chars, s, pos),
        ItemView::Integer(i) => {
            lemma_read_tagged_u32(3, super::super::writer::encode::as_u32(i), s, pos);
            lemma_signed_round_trip(0, 0, i, 0);
        },
        ItemView::Float(bits) => lemma_read_tagged_u32(4, bits, s, pos),
        ItemView::Long(i) => {
            lemma_read_tagged_u64(5, as_u64(i), s, pos);
            lemma_signed_round_trip(0, 0, 0, i);
        },
        ItemView::Double(bits) => lemma_read_tagged_u64(6, bits, s, pos),
        ItemView::Class(i) => lemma_read_tagged(7, i, s, pos),
        ItemView::String(i) => lemma_read_tagged(8, i, s, pos),
        ItemView::FieldRef { class, name_and_type } => lemma_read_tagged_pair(
            9,
            class,
            name_and_type,
            s,
            pos,
        ),
        ItemView::MethodRef { class, name_and_type } => lemma_read_tagged_pair(
            10,
            class,
            name_and_type,
            s,
            pos,
        ),
        ItemView::InterfaceMethodRef { class, name_and_type } => lemma_read_tagged_pair(
            11,
            class,
            name_and_type,
            s,
            pos,
        ),
        ItemView::NameAndType { name, desc } => lemma_read_tagged_pair(12, name, desc, s, pos),
        ItemView::MethodHandle { kind, index: handle } => {
            lemma_read_handle(kind, handle, s, pos);
            lemma_reference_kind(kind);
        },
        ItemView::MethodType(i) => lemma_read_tagged(16, i, s, pos),
        ItemView::InvokeDynamic { bootstrap_method, name_and_type } => lemma_read_tagged_pair(
            18,
            bootstrap_method,
            name_and_type,
            s,
            pos,
        ),
        ItemView::Module(i) => lemma_read_tagged(19, i, s, pos),
        ItemView::Package(i) => lemma_read_tagged(20, i, s, pos),
    }
}

/// The values of a list from the second on are the values of the list
/// without its first.
proof fn lemma_each_shift<T>(format: Format<T>, v: Seq<T>, from: int, acc: Seq<u8>)
    requires
        0 <= from,
        v.len() > 0,
    ensures
        each(format, v, from + 1, acc) == each(format, v.skip(1), from, acc),
    decreases v.len() - from,
{
    if from + 1 < v.len() {
        assert(v.skip(1)[from] == v[from + 1]);
        match format(v[from + 1]) {
            Ok(bytes) => lemma_each_shift(format, v, from + 1, acc + bytes),
            Err(_) => {},
        }
    }
}

/// A list is written as its first value, and then the others.
proof fn lemma_all_first<T>(format: Format<T>, x: T, rest: Seq<T>)
    ensures
        all(format, seq![x] + rest) == then(format(x), all(format, rest)),
{
    let v = seq![x] + rest;
    assert(v[0] == x);
    assert(v.skip(1) =~= rest);
    match format(x) {
        Ok(bytes) => {
            lemma_each_shift(format, v, 0, Seq::empty() + bytes);
            lemma_each_behind(format, rest, 0, Seq::empty() + bytes);
            if all(format, rest) is Ok {
                assert(Seq::<u8>::empty() + bytes + all(format, rest)->Ok_0 =~= bytes + all(
                    format,
                    rest,
                )->Ok_0);
            }
        },
        Err(_) => {},
    }
}

/// The slot behind an item: the next, or for a `long` or a `double` the
/// one after it.
pub open spec fn behind(pool: Slots, k: int) -> int {
    if pool[k]->Some_0.is_double() {
        k + 2
    } else {
        k + 1
    }
}

/// A pool has fewer slots than there are indices, and its last slot holds
/// no `long` or `double`.
proof fn lemma_pool_end(pool: Slots, k: int)
    requires
        well_formed(pool),
        0 <= k < pool.len(),
        pool[k] is Some,
        pool[k]->Some_0.is_double(),
    ensures
        k + 1 < pool.len(),
{
    if k + 1 == pool.len() {
        assert(pool.last() == pool[k]);
    }
}

/// Whether a slot of a pool is empty: where it is the second slot of a
/// `long` or a `double`.
proof fn lemma_pool_slot(pool: Slots, i: int)
    requires
        well_formed(pool),
        0 < i < pool.len(),
    ensures
        pool[i] is None <==> pool[i - 1] is Some && pool[i - 1]->Some_0.is_double(),
{
    let slot = pool[i];
}

/// In a pool, the second slot of a `long` or a `double` is empty, and the
/// slot behind an item holds an item.
proof fn lemma_pool_slots(pool: Slots, k: int)
    requires
        well_formed(pool),
        0 <= k < pool.len(),
        pool[k] is Some,
    ensures
        pool.len() < 0xFFFF,
        pool[k]->Some_0.is_double() ==> k + 1 < pool.len() && pool[k + 1] is None,
        behind(pool, k) < pool.len() ==> pool[behind(pool, k)] is Some,
{
    if pool[k]->Some_0.is_double() {
        lemma_pool_end(pool, k);
        lemma_pool_slot(pool, k + 1);
        if k + 2 < pool.len() {
            lemma_pool_slot(pool, k + 2);
        }
    } else if k + 1 < pool.len() {
        lemma_pool_slot(pool, k + 1);
    }
}

/// In a pool, the slots before an item, with the item appended, are the
/// slots before the next item.
proof fn lemma_pool_step(pool: Slots, k: int)
    requires
        pool.len() < 0xFFFF,
        0 <= k < pool.len(),
        pool[k] is Some,
        pool[k]->Some_0.is_double() ==> k + 1 < pool.len() && pool[k + 1] is None,
    ensures
        behind(pool, k) <= pool.len(),
        appended(pool.take(k), pool[k]->Some_0) == Ok::<(Slots, u16), Error>(
            (pool.take(behind(pool, k)), (k + 1) as u16),
        ),
        items_from(pool, k) == seq![pool[k]->Some_0] + items_from(pool, behind(pool, k)),
{
    let item = pool[k]->Some_0;
    if item.is_double() {
        assert(pool.take(k).push(Some(item)).push(None) =~= pool.take(k + 2));
        assert(items_from(pool, k + 1) == items_from(pool, k + 2));
    } else {
        assert(pool.take(k).push(Some(item)) =~= pool.take(k + 1));
    }
}

/// The items of a pool from the slot `k` on are read as they were
/// written, behind the slots before them.
pub proof fn lemma_read_pool_from(pool: Slots, k: int, s: Seq<u8>, pos: int)
    requires
        well_formed(pool),
        0 <= k <= pool.len(),
        k < pool.len() ==> pool[k] is Some,
        all(item_format(), items_from(pool, k)) is Ok,
        holds_at(s, pos, all(item_format(), items_from(pool, k))->Ok_0),
    ensures
        pool_items_at(s, pos, (pool.len() + 1) as u16, pool.take(k)) == Ok::<(Slots, int), Error>(
            (pool, pos + all(item_format(), items_from(pool, k))->Ok_0.len()),
        ),
    decreases pool.len() - k,
{
    if k < pool.len() {
        let item = pool[k]->Some_0;
        let next = behind(pool, k);
        lemma_pool_slots(pool, k);
        lemma_pool_step(pool, k);
        lemma_all_first(item_format(), item, items_from(pool, next));
        let first = item_bytes(item)->Ok_0;
        let rest = all(item_format(), items_from(pool, next))->Ok_0;
        lemma_split(s, pos, first, rest);
        lemma_read_item(item, s, pos, (k + 1) as u16);
        lemma_read_pool_from(pool, next, s, pos + first.len());
    } else {
        assert(pool.take(k) =~= pool);
    }
}

/// A constant pool is read as it was written.
pub proof fn lemma_read_pool(pool: Slots, s: Seq<u8>, pos: int)
    requires
        well_formed(pool),
        constant_pool_bytes(pool) is Ok,
        holds_at(s, pos, constant_pool_bytes(pool)->Ok_0),
    ensures
        constant_pool_at(s, pos) == Ok::<(Slots, int), Error>(
            (pool, pos + constant_pool_bytes(pool)->Ok_0.len()),
        ),
{
    reveal(constant_pool_bytes);
    let size = u16_bytes((pool.len() + 1) as u16);
    let items = all(item_format(), items_from(pool, 0))->Ok_0;
    lemma_split(s, pos, size, items);
    lemma_read_u16(s, pos, (pool.len() + 1) as u16);
    lemma_read_pool_from(pool, 0, s, pos + 2);
    assert(pool.take(0) =~= Slots::empty());
}

} // verus!
