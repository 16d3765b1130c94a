//! The constant pool: an ordered table of tagged items, addressed from 1,
//! in which a `long` or a `double` takes two indices.

use vstd::prelude::*;
use vstd::std_specs::iter::IteratorSpec;
use std::collections::HashMap;
use super::result::Error;

verus! {

/// A constant pool item.
#[derive(Debug, Hash)]
pub enum Item {
    /// An UTF-8 encoded string.
    /// Inside the class file itself, a modified format is used.
    UTF8(String),
    /// An `int`.
    Integer(i32),
    /// A `float`, held by its IEEE-754 bit pattern.
    Float(u32),
    /// A `long`.
    /// Takes two spots, instead of one.
    Long(i64),
    /// A `double`, held by its IEEE-754 bit pattern.
    /// Takes two spots, instead of one.
    Double(u64),
    /// An index to the name of the class, or the descriptor of an array type.
    /// Always refers to an `Item::UTF8(_)`.
    Class(u16),
    /// A `java.lang.String` object.
    String(u16),
    /// Describes a field reference.
    FieldRef {
        /// The index to an `Item::Class(_)`.
        class: u16,
        /// The index to an `Item::NameAndType { .. }`.
        name_and_type: u16,
    },
    /// Describes a method reference.
    MethodRef {
        /// The index to an `Item::Class(_)`.
        class: u16,
        /// The index to an `Item::NameAndType { .. }`.
        name_and_type: u16,
    },
    /// Describes a method reference, where the class is an interface.
    InterfaceMethodRef {
        /// The index to an `Item::Class(_)`.
        class: u16,
        /// The index to an `Item::NameAndType { .. }`.
        name_and_type: u16,
    },
    /// Represents a field or method, without indicating which class or type it belongs to.
    NameAndType {
        /// The index to an `Item::UTF8(_)`.
        name: u16,
        /// The index to an `Item::UTF8(_)`.
        desc: u16,
    },
    /// Represents a method handle.
    MethodHandle {
        /// Characterizes its bytecode behaviour.
        kind: ReferenceKind,
        /// The index to the field or method reference that the handle is for.
        index: u16,
    },
    /// Describes a method type.
    /// The entry at that index must be an `Item::UTF8(_)`
    /// representing a method descriptor.
    MethodType(u16),
    /// Describes an invoke dynamic instruction,
    /// and specifies information regarding the bootstrap method.
    InvokeDynamic {
        /// The index to an entry of the BootstrapMethods attribute of the class file.
        bootstrap_method: u16,
        /// The index to an `Item::NameAndType { .. }`.
        name_and_type: u16,
    },
    /// Represents a module.
    Module(u16),
    /// Represents a package exported or opened by a module.
    Package(u16),
}

/// What an `Item` holds, with its string as a sequence of chars.
/// Two items are equal where these are: floats by their bits.
pub enum ItemView {
    UTF8(Seq<char>),
    Integer(i32),
    Float(u32),
    Long(i64),
    Double(u64),
    Class(u16),
    String(u16),
    FieldRef { class: u16, name_and_type: u16 },
    MethodRef { class: u16, name_and_type: u16 },
    InterfaceMethodRef { class: u16, name_and_type: u16 },
    NameAndType { name: u16, desc: u16 },
    MethodHandle { kind: ReferenceKind, index: u16 },
    MethodType(u16),
    InvokeDynamic { bootstrap_method: u16, name_and_type: u16 },
    Module(u16),
    Package(u16),
}

impl ItemView {
    /// Whether the item takes two indices.
    pub open spec fn is_double(self) -> bool {
        self is Long || self is Double
    }
}

impl View for Item {
    type V = ItemView;

    open spec fn view(&self) -> ItemView {
        match *self {
            Item::UTF8(s) => ItemView::UTF8(s@),
            Item::Integer(i) => ItemView::Integer(i),
            Item::Float(f) => ItemView::Float(f),
            Item::Long(i) => ItemView::Long(i),
            Item::Double(f) => ItemView::Double(f),
            Item::Class(i) => ItemView::Class(i),
            Item::String(i) => ItemView::String(i),
            Item::FieldRef { class, name_and_type } => ItemView::FieldRef { class, name_and_type },
            Item::MethodRef { class, name_and_type } => ItemView::MethodRef { class, name_and_type },
            Item::InterfaceMethodRef { class, name_and_type } => ItemView::InterfaceMethodRef {
                class,
                name_and_type,
            },
            Item::NameAndType { name, desc } => ItemView::NameAndType { name, desc },
            Item::MethodHandle { kind, index } => ItemView::MethodHandle { kind, index },
            Item::MethodType(i) => ItemView::MethodType(i),
            Item::InvokeDynamic { bootstrap_method, name_and_type } => ItemView::InvokeDynamic {
                bootstrap_method,
                name_and_type,
            },
            Item::Module(i) => ItemView::Module(i),
            Item::Package(i) => ItemView::Package(i),
        }
    }
}

impl Item {
    /// Returns true if this item takes up two spaces, false otherwise.
    pub fn is_double(&self) -> (r: bool)
        ensures
            r == self@.is_double(),
    {
        match *self {
            Item::Long(_) | Item::Double(_) => true,
            _ => false,
        }
    }
}

/// The number that the hash of every item starts from.
pub const HASH_SEED: u64 = 0xCBF2_9CE4_8422_2325;

/// The number that a hash is multiplied by at each step.
pub const HASH_PRIME: u64 = 0x0000_0100_0000_01B3;

/// A hash, with one more number mixed into it.
pub open spec fn mix(hash: u64, value: u64) -> u64 {
    (hash ^ value).wrapping_mul(HASH_PRIME)
}

/// A hash, with the chars of a string mixed into it, one after the other.
pub open spec fn mix_chars(hash: u64, s: Seq<char>) -> u64
    decreases s.len(),
{
    if s.len() == 0 {
        hash
    } else {
        mix_chars(mix(hash, s[0] as u32 as u64), s.drop_first())
    }
}

/// The hash of an item: its tag and its fields, mixed one after the
/// other. Equal items have equal hashes; floats count by their bits.
pub open spec fn hash_of(item: ItemView) -> u64 {
    match item {
        ItemView::UTF8(s) => mix_chars(mix(HASH_SEED, 1), s),
        ItemView::Integer(i) => mix(mix(HASH_SEED, 3), (i + 0x8000_0000) as u64),
        ItemView::Float(bits) => mix(mix(HASH_SEED, 4), bits as u64),
        ItemView::Long(i) => mix(mix(HASH_SEED, 5), (i + 0x8000_0000_0000_0000) as u64),
        ItemView::Double(bits) => mix(mix(HASH_SEED, 6), bits),
        ItemView::Class(i) => mix(mix(HASH_SEED, 7), i as u64),
        ItemView::String(i) => mix(mix(HASH_SEED, 8), i as u64),
        ItemView::FieldRef { class, name_and_type } => mix(
            mix(mix(HASH_SEED, 9), class as u64),
            name_and_type as u64,
        ),
        ItemView::MethodRef { class, name_and_type } => mix(
            mix(mix(HASH_SEED, 10), class as u64),
            name_and_type as u64,
        ),
        ItemView::InterfaceMethodRef { class, name_and_type } => mix(
            mix(mix(HASH_SEED, 11), class as u64),
            name_and_type as u64,
        ),
        ItemView::NameAndType { name, desc } => mix(mix(mix(HASH_SEED, 12), name as u64), desc as u64),
        ItemView::MethodHandle { kind, index } => mix(
            mix(mix(HASH_SEED, 15), kind_number(kind) as u64),
            index as u64,
        ),
        ItemView::MethodType(i) => mix(mix(HASH_SEED, 16), i as u64),
        ItemView::InvokeDynamic { bootstrap_method, name_and_type } => mix(
            mix(mix(HASH_SEED, 18), bootstrap_method as u64),
            name_and_type as u64,
        ),
        ItemView::Module(i) => mix(mix(HASH_SEED, 19), i as u64),
        ItemView::Package(i) => mix(mix(HASH_SEED, 20), i as u64),
    }
}

/// The number of the kind of a method handle: 1 to 9.
pub open spec fn kind_number(kind: ReferenceKind) -> u8 {
    match kind {
        ReferenceKind::GetField => 1,
        ReferenceKind::GetStatic => 2,
        ReferenceKind::PutField => 3,
        ReferenceKind::PutStatic => 4,
        ReferenceKind::InvokeVirtual => 5,
        ReferenceKind::InvokeStatic => 6,
        ReferenceKind::InvokeSpecial => 7,
        ReferenceKind::NewInvokeSpecial => 8,
        ReferenceKind::InvokeInterface => 9,
    }
}

/// One step of the hash: mixes `value` into `hash`.
fn mixed(hash: u64, value: u64) -> (r: u64)
    ensures
        r == mix(hash, value),
{
    (hash ^ value).wrapping_mul(HASH_PRIME)
}

/// Mixes each char of `s` into `hash`.
fn mixed_chars(hash: u64, s: &str) -> (r: u64)
    ensures
        r == mix_chars(hash, s@),
{
    broadcast use vstd::string::group_string_axioms;

    let mut h = hash;
    let mut it = s.chars();
    loop
        invariant
            it.obeys_prophetic_iter_laws(),
            it.decrease() is Some,
            mix_chars(h, it.remaining()) == mix_chars(hash, s@),
        ensures
            h == mix_chars(hash, s@),
        decreases it.decrease()->0,
    {
        match it.next() {
            Some(c) => {
                h = mixed(h, c as u32 as u64);
            },
            None => {
                break ;
            },
        }
    }
    h
}

impl Item {
    /// The hash of this item, by which a pool finds it again.
    pub fn hash_code(&self) -> (r: u64)
        ensures
            r == hash_of(self@),
    {
        match self {
            Item::UTF8(s) => mixed_chars(mixed(HASH_SEED, 1), s.as_str()),
            Item::Integer(i) => mixed(mixed(HASH_SEED, 3), (*i as i64 + 0x8000_0000) as u64),
            Item::Float(bits) => mixed(mixed(HASH_SEED, 4), *bits as u64),
            Item::Long(i) => mixed(
                mixed(HASH_SEED, 5),
                (*i as i128 + 0x8000_0000_0000_0000) as u64,
            ),
            Item::Double(bits) => mixed(mixed(HASH_SEED, 6), *bits),
            Item::Class(i) => mixed(mixed(HASH_SEED, 7), *i as u64),
            Item::String(i) => mixed(mixed(HASH_SEED, 8), *i as u64),
            Item::FieldRef { class, name_and_type } => mixed(
                mixed(mixed(HASH_SEED, 9), *class as u64),
                *name_and_type as u64,
            ),
            Item::MethodRef { class, name_and_type } => mixed(
                mixed(mixed(HASH_SEED, 10), *class as u64),
                *name_and_type as u64,
            ),
            Item::InterfaceMethodRef { class, name_and_type } => mixed(
                mixed(mixed(HASH_SEED, 11), *class as u64),
                *name_and_type as u64,
            ),
            Item::NameAndType { name, desc } => mixed(
                mixed(mixed(HASH_SEED, 12), *name as u64),
                *desc as u64,
            ),
            Item::MethodHandle { kind, index } => {
                let number: u8 = match kind {
                    ReferenceKind::GetField => 1,
                    ReferenceKind::GetStatic => 2,
                    ReferenceKind::PutField => 3,
                    ReferenceKind::PutStatic => 4,
                    ReferenceKind::InvokeVirtual => 5,
                    ReferenceKind::InvokeStatic => 6,
                    ReferenceKind::InvokeSpecial => 7,
                    ReferenceKind::NewInvokeSpecial => 8,
                    ReferenceKind::InvokeInterface => 9,
                };
                mixed(mixed(mixed(HASH_SEED, 15), number as u64), *index as u64)
            },
            Item::MethodType(i) => mixed(mixed(HASH_SEED, 16), *i as u64),
            Item::InvokeDynamic { bootstrap_method, name_and_type } => mixed(
                mixed(mixed(HASH_SEED, 18), *bootstrap_method as u64),
                *name_and_type as u64,
            ),
            Item::Module(i) => mixed(mixed(HASH_SEED, 19), *i as u64),
            Item::Package(i) => mixed(mixed(HASH_SEED, 20), *i as u64),
        }
    }
}

impl Clone for Item {
    fn clone(&self) -> (r: Item)
        ensures
            r@ == self@,
    {
        match self {
            Item::UTF8(s) => Item::UTF8(s.clone()),
            Item::Integer(i) => Item::Integer(*i),
            Item::Float(f) => Item::Float(*f),
            Item::Long(i) => Item::Long(*i),
            Item::Double(f) => Item::Double(*f),
            Item::Class(i) => Item::Class(*i),
            Item::String(i) => Item::String(*i),
            Item::FieldRef { class, name_and_type } => Item::FieldRef {
                class: *class,
                name_and_type: *name_and_type,
            },
            Item::MethodRef { class, name_and_type } => Item::MethodRef {
                class: *class,
                name_and_type: *name_and_type,
            },
            Item::InterfaceMethodRef { class, name_and_type } => Item::InterfaceMethodRef {
                class: *class,
                name_and_type: *name_and_type,
            },
            Item::NameAndType { name, desc } => Item::NameAndType { name: *name, desc: *desc },
            Item::MethodHandle { kind, index } => Item::MethodHandle { kind: *kind, index: *index },
            Item::MethodType(i) => Item::MethodType(*i),
            Item::InvokeDynamic { bootstrap_method, name_and_type } => Item::InvokeDynamic {
                bootstrap_method: *bootstrap_method,
                name_and_type: *name_and_type,
            },
            Item::Module(i) => Item::Module(*i),
            Item::Package(i) => Item::Package(*i),
        }
    }
}

impl PartialEq for Item {
    fn eq(&self, other: &Item) -> (r: bool) {
        match (self, other) {
            (Item::UTF8(s1), Item::UTF8(s2)) => *s1 == *s2,
            (Item::Integer(i1), Item::Integer(i2)) => *i1 == *i2,
            (Item::Float(f1), Item::Float(f2)) => *f1 == *f2,
            (Item::Long(i1), Item::Long(i2)) => *i1 == *i2,
            (Item::Double(f1), Item::Double(f2)) => *f1 == *f2,
            (Item::Class(i1), Item::Class(i2)) => *i1 == *i2,
            (Item::String(i1), Item::String(i2)) => *i1 == *i2,
            (
                Item::FieldRef { class: c1, name_and_type: n1 },
                Item::FieldRef { class: c2, name_and_type: n2 },
            ) => *c1 == *c2 && *n1 == *n2,
            (
                Item::MethodRef { class: c1, name_and_type: n1 },
                Item::MethodRef { class: c2, name_and_type: n2 },
            ) => *c1 == *c2 && *n1 == *n2,
            (
                Item::InterfaceMethodRef { class: c1, name_and_type: n1 },
                Item::InterfaceMethodRef { class: c2, name_and_type: n2 },
            ) => *c1 == *c2 && *n1 == *n2,
            (Item::NameAndType { name: n1, desc: d1 }, Item::NameAndType { name: n2, desc: d2 }) => *n1
                == *n2 && *d1 == *d2,
            (
                Item::MethodHandle { kind: k1, index: i1 },
                Item::MethodHandle { kind: k2, index: i2 },
            ) => *k1 == *k2 && *i1 == *i2,
            (Item::MethodType(i1), Item::MethodType(i2)) => *i1 == *i2,
            (
                Item::InvokeDynamic { bootstrap_method: b1, name_and_type: n1 },
                Item::InvokeDynamic { bootstrap_method: b2, name_and_type: n2 },
            ) => *b1 == *b2 && *n1 == *n2,
            (Item::Module(i1), Item::Module(i2)) => *i1 == *i2,
            (Item::Package(i1), Item::Package(i2)) => *i1 == *i2,
            _ => false,
        }
    }
}

impl vstd::std_specs::cmp::PartialEqSpecImpl for Item {
    open spec fn obeys_eq_spec() -> bool {
        true
    }

    open spec fn eq_spec(&self, other: &Item) -> bool {
        self@ == other@
    }
}

impl Eq for Item {

}

/// The kind of a method handle.
#[derive(Debug, Clone, Copy, PartialEq, Eq, Structural, Hash)]
pub enum ReferenceKind {
    GetField,
    GetStatic,
    PutField,
    PutStatic,
    InvokeVirtual,
    InvokeStatic,
    InvokeSpecial,
    NewInvokeSpecial,
    InvokeInterface,
}

/// The slots of a pool, as contracts see them: slot `i` stands at index
/// `i + 1`; `None` is the second slot of a `long` or a `double`.
pub type Slots = Seq<Option<ItemView>>;

/// The largest number that `Pool::len` can return.
pub const MAX_LEN: u16 = 0xFFFF;

/// The shape of every pool: its length fits in a `u16`, a slot is empty
/// exactly where a `long` or a `double` stands before it, and behind each
/// `long` or `double` there is such a slot.
pub open spec fn well_formed(p: Slots) -> bool {
    &&& p.len() + 1 <= MAX_LEN
    &&& p.len() > 0 ==> !(p.last() is Some && p.last()->Some_0.is_double())
    &&& forall|i: int|
        0 <= i < p.len() ==> ((#[trigger] p[i]) is None <==> (i > 0 && p[i - 1] is Some && p[i
            - 1]->Some_0.is_double()))
}

/// No item stands in two slots.
pub open spec fn deduplicated(p: Slots) -> bool {
    forall|i: int, j: int|
        0 <= i < j < p.len() && (#[trigger] p[i]) is Some && (#[trigger] p[j]) is Some ==> p[i] != p[j]
}

/// The last slot that holds `item`, if any does.
pub open spec fn find_last(p: Slots, item: ItemView) -> Option<int>
    decreases p.len(),
{
    if p.len() == 0 {
        None
    } else if p.last() == Some(item) {
        Some(p.len() - 1)
    } else {
        find_last(p.drop_last(), item)
    }
}

/// What `find_last` finds: a slot that holds the item, behind which none
/// does; and nothing only where no slot holds it.
pub proof fn lemma_find_last(p: Slots, item: ItemView)
    ensures
        match find_last(p, item) {
            Some(i) => 0 <= i < p.len() && p[i] == Some(item) && forall|j: int|
                i < j < p.len() ==> p[j] != Some(item),
            None => forall|j: int| 0 <= j < p.len() ==> p[j] != Some(item),
        },
    decreases p.len(),
{
    if p.len() > 0 && p.last() != Some(item) {
        let q = p.drop_last();
        lemma_find_last(q, item);
        assert(forall|j: int| 0 <= j < q.len() ==> q[j] == p[j]);
    }
}

/// Appending keeps a pool well-formed.
pub proof fn lemma_appended_well_formed(p: Slots, item: ItemView)
    requires
        well_formed(p),
        appended(p, item) is Ok,
    ensures
        well_formed(appended(p, item)->Ok_0.0),
{
    let q = appended(p, item)->Ok_0.0;
    let one = p.push(Some(item));
    assert forall|i: int| 0 <= i < q.len() implies ((#[trigger] q[i]) is None <==> (i > 0 && q[i
        - 1] is Some && q[i - 1]->Some_0.is_double())) by {
        if i < p.len() {
            assert(q[i] == p[i]);
            if i > 0 {
                assert(q[i - 1] == p[i - 1]);
            }
        } else if i == p.len() {
            assert(q[i] == Some(item));
        } else {
            assert(q[i - 1] == Some(item));
        }
    }
}

/// The item at `index`, or the error for an index that is 0, out of range,
/// or the second slot of a wide item.
pub open spec fn item_at(p: Slots, index: u16) -> Result<ItemView, Error> {
    if 1 <= index <= p.len() && p[index - 1] is Some {
        Ok(p[index - 1]->Some_0)
    } else {
        Err(Error::InvalidCPItem(index))
    }
}

/// The string at `index`, which must hold an `UTF8` item.
pub open spec fn utf8_at(p: Slots, index: u16) -> Result<Seq<char>, Error> {
    match item_at(p, index) {
        Ok(ItemView::UTF8(s)) => Ok(s),
        Ok(_) => Err(Error::InvalidCPItem(index)),
        Err(e) => Err(e),
    }
}

/// The name of the class at `index`, which must hold a `Class` item;
/// nothing where that item's name index is 0.
pub open spec fn class_name_opt_at(p: Slots, index: u16) -> Result<Option<Seq<char>>, Error> {
    match item_at(p, index) {
        Ok(ItemView::Class(utf_index)) => if utf_index == 0 {
            Ok(None)
        } else {
            match utf8_at(p, utf_index) {
                Ok(s) => Ok(Some(s)),
                Err(e) => Err(e),
            }
        },
        Ok(_) => Err(Error::InvalidCPItem(index)),
        Err(e) => Err(e),
    }
}

/// The name of the class at `index`, which must hold a `Class` item.
pub open spec fn class_name_at(p: Slots, index: u16) -> Result<Seq<char>, Error> {
    match item_at(p, index) {
        Ok(ItemView::Class(utf_index)) => utf8_at(p, utf_index),
        Ok(_) => Err(Error::InvalidCPItem(index)),
        Err(e) => Err(e),
    }
}

/// The pool after `item` was appended, and the index it got. A full pool,
/// and one with a single index left for a wide item, give `CPTooLarge`.
pub open spec fn appended(p: Slots, item: ItemView) -> Result<(Slots, u16), Error> {
    if p.len() + 1 >= MAX_LEN {
        Err(Error::CPTooLarge)
    } else if item.is_double() {
        if p.len() + 2 >= MAX_LEN {
            Err(Error::CPTooLarge)
        } else {
            Ok((p.push(Some(item)).push(None), (p.len() + 1) as u16))
        }
    } else {
        Ok((p.push(Some(item)), (p.len() + 1) as u16))
    }
}

/// The pool after a deduplicating insert of `item`, and the item's index:
/// that of the last slot that holds it already, else that of a new slot.
/// A full pool gives `CPTooLarge` in either case.
pub open spec fn pushed(p: Slots, item: ItemView) -> Result<(Slots, u16), Error> {
    if p.len() + 1 >= MAX_LEN {
        Err(Error::CPTooLarge)
    } else {
        match find_last(p, item) {
            Some(i) => Ok((p, (i + 1) as u16)),
            None => appended(p, item),
        }
    }
}

/// A wide item that is appended gets two slots: the pool grows by two, the
/// item stands at its index, and the index behind it resolves to nothing.
pub proof fn lemma_wide_item_takes_two_slots(p: Slots, item: ItemView)
    requires
        item.is_double(),
        appended(p, item) is Ok,
    ensures
        ({
            let (q, index) = appended(p, item)->Ok_0;
            &&& q.len() == p.len() + 2
            &&& item_at(q, index) == Ok::<ItemView, Error>(item)
            &&& item_at(q, (index + 1) as u16) == Err::<ItemView, Error>(
                Error::InvalidCPItem((index + 1) as u16),
            )
        }),
{
}

/// A pool whose length is `0xFFFF` takes no item, whichever way it is pushed.
pub proof fn lemma_full_pool_rejects(p: Slots, item: ItemView)
    requires
        p.len() + 1 == MAX_LEN,
    ensures
        pushed(p, item) == Err::<(Slots, u16), Error>(Error::CPTooLarge),
        appended(p, item) == Err::<(Slots, u16), Error>(Error::CPTooLarge),
{
}

/// The pool after each of `items` was pushed in turn, and the indices that
/// the pushes returned.
pub open spec fn pushed_all(p: Slots, items: Seq<ItemView>) -> Result<(Slots, Seq<u16>), Error>
    decreases items.len(),
{
    if items.len() == 0 {
        Ok((p, Seq::empty()))
    } else {
        match pushed_all(p, items.drop_last()) {
            Ok((q, indices)) => match pushed(q, items.last()) {
                Ok((r, index)) => Ok((r, indices.push(index))),
                Err(e) => Err(e),
            },
            Err(e) => Err(e),
        }
    }
}

/// What holds after pushes on a fresh pool: no item stands twice, and each
/// returned index is that of a slot with the pushed item.
proof fn lemma_pushed_all(items: Seq<ItemView>)
    requires
        pushed_all(Slots::empty(), items) is Ok,
    ensures
        ({
            let (q, indices) = pushed_all(Slots::empty(), items)->Ok_0;
            &&& deduplicated(q)
            &&& indices.len() == items.len()
            &&& forall|k: int|
                0 <= k < items.len() ==> 1 <= #[trigger] indices[k] <= q.len() && q[indices[k] - 1]
                    == Some(items[k])
        }),
    decreases items.len(),
{
    if items.len() > 0 {
        let front = items.drop_last();
        let x = items.last();
        lemma_pushed_all(front);
        let (q, indices) = pushed_all(Slots::empty(), front)->Ok_0;
        let (r, index) = pushed(q, x)->Ok_0;
        lemma_find_last(q, x);
        assert forall|k: int| 0 <= k < items.len() implies 1 <= #[trigger] indices.push(index)[k]
            <= r.len() && r[indices.push(index)[k] - 1] == Some(items[k]) by {
            if k < front.len() {
                assert(items[k] == front[k]);
                assert(r[indices[k] - 1] == q[indices[k] - 1]);
            }
        }
        assert forall|i: int, j: int|
            0 <= i < j < r.len() && (#[trigger] r[i]) is Some && (#[trigger] r[j]) is Some implies r[i]
            != r[j] by {
            if j < q.len() {
                assert(r[i] == q[i] && r[j] == q[j]);
            } else if i < q.len() {
                assert(r[i] == q[i]);
            }
        }
    }
}

/// Pushes on a fresh pool give equal items the same index, and different
/// items different indices.
pub proof fn lemma_push_deduplicates(items: Seq<ItemView>, a: int, b: int)
    requires
        pushed_all(Slots::empty(), items) is Ok,
        0 <= a < items.len(),
        0 <= b < items.len(),
    ensures
        ({
            let indices = pushed_all(Slots::empty(), items)->Ok_0.1;
            indices[a] == indices[b] <==> items[a] == items[b]
        }),
{
    lemma_pushed_all(items);
    let (q, indices) = pushed_all(Slots::empty(), items)->Ok_0;
    assert(q[indices[a] - 1] == Some(items[a]));
    assert(q[indices[b] - 1] == Some(items[b]));
}

/// The first occupied slot at or behind `from`, if there is one.
pub open spec fn next_occupied(p: Slots, from: int) -> Option<int>
    decreases p.len() - from,
{
    if from < 0 || from >= p.len() {
        None
    } else if p[from] is Some {
        Some(from)
    } else {
        next_occupied(p, from + 1)
    }
}

/// The items of the occupied slots from `from` on, in index order.
pub open spec fn items_from(p: Slots, from: int) -> Seq<ItemView>
    decreases p.len() - from,
{
    if from < 0 || from >= p.len() {
        Seq::empty()
    } else if p[from] is Some {
        seq![p[from]->Some_0] + items_from(p, from + 1)
    } else {
        items_from(p, from + 1)
    }
}

/// The views of borrowed items, in order.
pub open spec fn views(items: Seq<&Item>) -> Seq<ItemView> {
    Seq::new(items.len(), |k: int| items[k]@)
}

/// The constant pool found in every java class file.
/// Removing or modifying items is not allowed,
/// to respect already 'used' indices.
///
/// Items stand in a `Vec` by index. A `HashMap` leads from the hash of an
/// item to the indices of the items with that hash, in ascending order: an
/// insert that must not repeat an item looks for it there.
pub struct Pool {
    length: u16,
    by_index: Vec<Option<Item>>,
    by_hash: HashMap<u64, Vec<u16>>,
}

/// Whether the indices that `h` holds for `key` include `index`.
pub open spec fn lists(h: Map<u64, Vec<u16>>, key: u64, index: int) -> bool {
    h.contains_key(key) && exists|k: int| 0 <= k < h[key]@.len() && #[trigger] h[key]@[k] == index
}

/// Whether `h` leads to the items of `p`: the index of each item stands
/// under the item's hash, and what stands under a hash are indices of `p`,
/// in ascending order.
pub open spec fn leads_to(h: Map<u64, Vec<u16>>, p: Slots) -> bool {
    &&& forall|i: int|
        0 <= i < p.len() && (#[trigger] p[i]) is Some ==> lists(h, hash_of(p[i]->Some_0), i + 1)
    &&& forall|key: u64, k: int|
        h.contains_key(key) && 0 <= k < h[key]@.len() ==> 1 <= (#[trigger] h[key]@[k]) <= p.len()
    &&& forall|key: u64, j: int, k: int|
        h.contains_key(key) && 0 <= j < k < h[key]@.len() ==> (#[trigger] h[key]@[j]) < (
        #[trigger] h[key]@[k])
}

impl View for Pool {
    type V = Slots;

    closed spec fn view(&self) -> Slots {
        Seq::new(
            self.by_index@.len(),
            |i: int|
                match self.by_index@[i] {
                    Some(item) => Some(item@),
                    None => None,
                },
        )
    }
}

impl Pool {
    /// What every pool that this module hands out meets, and what its
    /// methods ask for: the length is that of the slots, the slots are
    /// `well_formed`, and the hashes lead to the items.
    pub closed spec fn wf(&self) -> bool {
        &&& self.length == self.by_index@.len() + 1
        &&& well_formed(self@)
        &&& leads_to(self.by_hash@, self@)
    }

    /// An empty pool.
    pub fn new() -> (p: Pool)
        ensures
            p.wf(),
            p@ == Slots::empty(),
    {
        let p = Pool { length: 1, by_index: Vec::new(), by_hash: HashMap::new() };
        assert(p@ =~= Slots::empty());
        p
    }

    /// An empty pool with room for `cap` items.
    pub fn with_capacity(cap: u16) -> (p: Pool)
        ensures
            p.wf(),
            p@ == Slots::empty(),
    {
        let p = Pool {
            length: 1,
            by_index: Vec::with_capacity(cap as usize),
            by_hash: HashMap::with_capacity(cap as usize),
        };
        assert(p@ =~= Slots::empty());
        p
    }

    /// Returns the *encoded* length of the pool: the next free index.
    pub fn len(&self) -> (n: u16)
        requires
            self.wf(),
        ensures
            n == self@.len() + 1,
            well_formed(self@),
    {
        self.length
    }

    /// Returns true if the pool is empty, false otherwise.
    pub fn is_empty(&self) -> (b: bool)
        requires
            self.wf(),
        ensures
            b == (self@.len() == 0),
    {
        self.len() == 1
    }

    /// Returns the item at a specified index.
    /// If the index is 0, not below the length of the pool, or the second
    /// index of a `long` or a `double`, an error is returned.
    pub fn get(&self, index: u16) -> (r: Result<&Item, Error>)
        requires
            self.wf(),
        ensures
            match item_at(self@, index) {
                Ok(item) => r is Ok && r->Ok_0@ == item,
                Err(e) => r == Err::<&Item, Error>(e),
            },
    {
        if index != 0 && index < self.length {
            if let Some(item) = &self.by_index[index as usize - 1] {
                return Ok(item);
            }
        }
        Err(Error::InvalidCPItem(index))
    }

    /// Returns a cloned String at a specified index.
    pub fn get_utf8(&self, index: u16) -> (r: Result<String, Error>)
        requires
            self.wf(),
        ensures
            match utf8_at(self@, index) {
                Ok(s) => r is Ok && r->Ok_0@ == s,
                Err(e) => r == Err::<String, Error>(e),
            },
    {
        if let Item::UTF8(s) = self.get(index)? {
            Ok(s.clone())
        } else {
            Err(Error::InvalidCPItem(index))
        }
    }

    /// Returns a class name at a specified index,
    /// but if the utf index is 0, None is returned.
    pub fn get_class_name_opt(&self, index: u16) -> (r: Result<Option<String>, Error>)
        requires
            self.wf(),
        ensures
            match class_name_opt_at(self@, index) {
                Ok(Some(s)) => r is Ok && r->Ok_0 is Some && r->Ok_0->Some_0@ == s,
                Ok(None) => r is Ok && r->Ok_0 is None,
                Err(e) => r == Err::<Option<String>, Error>(e),
            },
    {
        if let Item::Class(utf_index) = self.get(index)? {
            if *utf_index == 0 {
                Ok(None)
            } else {
                Ok(Some(self.get_utf8(*utf_index)?))
            }
        } else {
            Err(Error::InvalidCPItem(index))
        }
    }

    /// Returns a class name at a specified index.
    pub fn get_class_name(&self, index: u16) -> (r: Result<String, Error>)
        requires
            self.wf(),
        ensures
            match class_name_at(self@, index) {
                Ok(s) => r is Ok && r->Ok_0@ == s,
                Err(e) => r == Err::<String, Error>(e),
            },
    {
        if let Item::Class(utf_index) = self.get(index)? {
            self.get_utf8(*utf_index)
        } else {
            Err(Error::InvalidCPItem(index))
        }
    }

    /// The index of the last slot that holds `item`, if any does.
    pub fn index_of(&self, item: &Item) -> (r: Option<u16>)
        requires
            self.wf(),
        ensures
            match find_last(self@, item@) {
                Some(i) => r == Some((i + 1) as u16),
                None => r is None,
            },
    {
        let key = item.hash_code();
        let ghost p = self@;
        let ghost h = self.by_hash@;
        proof {
            lemma_find_last(p, item@);
        }
        match self.by_hash.get(&key) {
            None => {
                proof {
                    if find_last(p, item@) is Some {
                        let i = find_last(p, item@)->Some_0;
                        assert(lists(h, hash_of(p[i]->Some_0), i + 1));
                    }
                }
                None
            },
            Some(bucket) => {
                let mut k = bucket.len();
                while k > 0
                    invariant
                        k <= bucket@.len(),
                        self.wf(),
                        p == self@,
                        h == self.by_hash@,
                        key == hash_of(item@),
                        h.contains_key(key),
                        bucket@ == h[key]@,
                        forall|m: int| k <= m < bucket@.len() ==> p[bucket@[m] - 1] != Some(item@),
                        match find_last(p, item@) {
                            Some(i) => 0 <= i < p.len() && p[i] == Some(item@) && forall|j: int|
                                i < j < p.len() ==> p[j] != Some(item@),
                            None => forall|j: int| 0 <= j < p.len() ==> p[j] != Some(item@),
                        },
                    decreases k,
                {
                    k -= 1;
                    let index = bucket[k];
                    assert(1 <= h[key]@[k as int] <= p.len());
                    if let Some(x) = &self.by_index[index as usize - 1] {
                        if x == item {
                            proof {
                                let at = index - 1;
                                assert(p[at] == Some(item@));
                                let i = find_last(p, item@)->Some_0;
                                if i > at {
                                    assert(lists(h, hash_of(p[i]->Some_0), i + 1));
                                    let m = choose|m: int|
                                        0 <= m < h[key]@.len() && #[trigger] h[key]@[m] == i + 1;
                                    if m <= k {
                                        if m < k {
                                            assert(h[key]@[m] < h[key]@[k as int]);
                                        }
                                    }
                                }
                            }
                            return Some(index);
                        }
                    }
                }
                proof {
                    if find_last(p, item@) is Some {
                        let i = find_last(p, item@)->Some_0;
                        assert(lists(h, hash_of(p[i]->Some_0), i + 1));
                        let m = choose|m: int|
                            0 <= m < h[key]@.len() && #[trigger] h[key]@[m] == i + 1;
                        assert(p[bucket@[m] - 1] != Some(item@));
                    }
                }
                None
            },
        }
    }

    /// Pushes an item on the pool, unless the pool holds it already,
    /// and returns its index.
    pub fn push(&mut self, item: Item) -> (r: Result<u16, Error>)
        requires
            old(self).wf(),
        ensures
            final(self).wf(),
            match pushed(old(self)@, item@) {
                Ok((slots, index)) => r == Ok::<u16, Error>(index) && final(self)@ == slots,
                Err(e) => r == Err::<u16, Error>(e) && final(self)@ == old(self)@,
            },
    {
        if self.len() == MAX_LEN {
            return Err(Error::CPTooLarge);
        }
        if let Some(index) = self.index_of(&item) {
            return Ok(index);
        }
        self.push_duplicate(item)
    }

    /// Pushes an item, which might be a duplicate.
    /// A class that holds the same constant pool entry twice is read
    /// with it, so that every index stays what it was.
    pub fn push_duplicate(&mut self, item: Item) -> (r: Result<u16, Error>)
        requires
            old(self).wf(),
        ensures
            final(self).wf(),
            match appended(old(self)@, item@) {
                Ok((slots, index)) => r == Ok::<u16, Error>(index) && final(self)@ == slots,
                Err(e) => r == Err::<u16, Error>(e) && final(self)@ == old(self)@,
            },
    {
        if self.length == MAX_LEN {
            return Err(Error::CPTooLarge);
        }
        let double = item.is_double();
        if double && self.length == MAX_LEN - 1 {
            return Err(Error::CPTooLarge);
        }
        let index = self.length;
        let key = item.hash_code();
        let ghost before = self@;
        let ghost view = item@;
        let ghost h0 = self.by_hash@;
        self.by_index.push(Some(item));
        if double {
            self.by_index.push(None);
            self.length = index + 2;
            assert(self@ =~= before.push(Some(view)).push(None));
        } else {
            self.length = index + 1;
            assert(self@ =~= before.push(Some(view)));
        }
        let ghost after = self@;
        let mut bucket = match self.by_hash.remove(&key) {
            Some(bucket) => bucket,
            None => Vec::new(),
        };
        let ghost b0 = bucket@;
        bucket.push(index);
        let ghost b1 = bucket@;
        self.by_hash.insert(key, bucket);
        proof {
            lemma_appended_well_formed(before, view);
            let h1 = self.by_hash@;
            assert(self@ == after);
            assert(h1.contains_key(key) && h1[key]@ == b1);
            assert(forall|other: u64|
                other != key ==> (h1.contains_key(other) <==> h0.contains_key(other)));
            assert(forall|other: u64|
                other != key && h0.contains_key(other) ==> h1[other] == h0[other]);
            assert(h0.contains_key(key) ==> b0 == h0[key]@);
            assert(!h0.contains_key(key) ==> b0.len() == 0);
            assert forall|i: int| 0 <= i < after.len() && (#[trigger] after[i]) is Some implies lists(
                h1,
                hash_of(after[i]->Some_0),
                i + 1,
            ) by {
                if i < before.len() {
                    assert(after[i] == before[i]);
                    let hk = hash_of(before[i]->Some_0);
                    assert(lists(h0, hk, i + 1));
                    let m = choose|m: int| 0 <= m < h0[hk]@.len() && #[trigger] h0[hk]@[m] == i + 1;
                    if hk == key {
                        assert(b1[m] == b0[m]);
                        assert(h1[key]@[m] == i + 1);
                    } else {
                        assert(h1[hk]@[m] == i + 1);
                    }
                } else {
                    assert(i == before.len());
                    assert(after[i] == Some(view));
                    assert(h1[key]@[b0.len() as int] == i + 1);
                }
            }
            assert forall|other: u64, k: int|
                h1.contains_key(other) && 0 <= k < h1[other]@.len() implies 1 <= (
            #[trigger] h1[other]@[k]) <= after.len() by {
                if other == key {
                    if k < b0.len() {
                        assert(b1[k] == b0[k]);
                        assert(1 <= h0[key]@[k] <= before.len());
                    }
                } else {
                    assert(1 <= h0[other]@[k] <= before.len());
                }
            }
            assert forall|other: u64, j: int, k: int|
                h1.contains_key(other) && 0 <= j < k < h1[other]@.len() implies (
            #[trigger] h1[other]@[j]) < (#[trigger] h1[other]@[k]) by {
                if other == key {
                    assert(b1[j] == b0[j]);
                    assert(1 <= h0[key]@[j] <= before.len());
                    if k < b0.len() {
                        assert(b1[k] == b0[k]);
                        assert(h0[key]@[j] < h0[key]@[k]);
                    }
                } else {
                    assert(h0[other]@[j] < h0[other]@[k]);
                }
            }
        }
        Ok(index)
    }

    /// Pushes a new UTF-8 item on the pool and returns an index to it.
    pub fn push_utf8(&mut self, content: String) -> (r: Result<u16, Error>)
        requires
            old(self).wf(),
        ensures
            final(self).wf(),
            match pushed(old(self)@, ItemView::UTF8(content@)) {
                Ok((slots, index)) => r == Ok::<u16, Error>(index) && final(self)@ == slots,
                Err(e) => r == Err::<u16, Error>(e) && final(self)@ == old(self)@,
            },
    {
        self.push(Item::UTF8(content))
    }

    /// Pushes a new class item on the pool and returns an index to it.
    /// Its name is pushed first; where the class item finds no room, the
    /// name stays.
    pub fn push_class(&mut self, name: String) -> (r: Result<u16, Error>)
        requires
            old(self).wf(),
        ensures
            final(self).wf(),
            match pushed(old(self)@, ItemView::UTF8(name@)) {
                Ok((named, name_index)) => match pushed(named, ItemView::Class(name_index)) {
                    Ok((slots, index)) => r == Ok::<u16, Error>(index) && final(self)@ == slots,
                    Err(e) => r == Err::<u16, Error>(e) && final(self)@ == named,
                },
                Err(e) => r == Err::<u16, Error>(e) && final(self)@ == old(self)@,
            },
    {
        let name_index = self.push_utf8(name)?;
        self.push(Item::Class(name_index))
    }

    /// Returns the items of the pool, in the order of their indices.
    /// The second slots of wide items are left out.
    pub fn get_items(&self) -> (items: Vec<&Item>)
        requires
            self.wf(),
        ensures
            views(items@) == items_from(self@, 0),
    {
        let mut items: Vec<&Item> = Vec::new();
        let mut i: usize = 0;
        while i < self.by_index.len()
            invariant
                i <= self.by_index@.len(),
                items_from(self@, 0) == views(items@) + items_from(self@, i as int),
            decreases self.by_index@.len() - i,
        {
            let ghost done = views(items@);
            if let Some(item) = &self.by_index[i] {
                items.push(item);
                assert(views(items@) =~= done.push(item@));
                assert(done + (seq![item@] + items_from(self@, i + 1)) =~= done.push(item@)
                    + items_from(self@, i + 1));
            }
            i += 1;
        }
        assert(views(items@) + Seq::<ItemView>::empty() =~= views(items@));
        items
    }

    /// Iterates over the occupied slots of the pool, in index order.
    pub fn iter(&self) -> (it: PoolIter<'_>)
        requires
            self.wf(),
        ensures
            it.wf(),
            it.slots() == self@,
            it.position() == 0,
    {
        PoolIter { pool: self, index: 0 }
    }
}

impl Clone for Pool {
    fn clone(&self) -> (p: Pool)
        ensures
            p@ == self@,
            self.wf() ==> p.wf(),
    {
        let mut by_index: Vec<Option<Item>> = Vec::with_capacity(self.by_index.len());
        let mut i: usize = 0;
        while i < self.by_index.len()
            invariant
                i <= self.by_index@.len(),
                by_index@.len() == i,
                forall|k: int|
                    0 <= k < i ==> match #[trigger] by_index@[k] {
                        Some(item) => self@[k] == Some(item@),
                        None => self@[k] is None,
                    },
            decreases self.by_index@.len() - i,
        {
            let slot = match &self.by_index[i] {
                Some(item) => Some(item.clone()),
                None => None,
            };
            by_index.push(slot);
            i += 1;
        }
        let by_hash = self.by_hash.clone();
        let ghost copy = Pool { length: self.length, by_index, by_hash };
        assert(copy@ =~= self@);
        Pool { length: self.length, by_index, by_hash }
    }
}

/// Iterates over all the elements in the constant pool.
pub struct PoolIter<'a> {
    pool: &'a Pool,
    index: usize,
}

impl<'a> PoolIter<'a> {
    /// The pool that is walked is well-formed.
    pub closed spec fn wf(&self) -> bool {
        self.pool.wf()
    }

    /// The slots of the pool that is walked.
    pub closed spec fn slots(&self) -> Slots {
        self.pool@
    }

    /// The slot at which the search for the next item starts.
    pub closed spec fn position(&self) -> int {
        self.index as int
    }

    /// Returns the next item with its index, or nothing behind the last one.
    pub fn next(&mut self) -> (r: Option<(u16, &'a Item)>)
        requires
            old(self).wf(),
        ensures
            final(self).wf(),
            final(self).slots() == old(self).slots(),
            match next_occupied(old(self).slots(), old(self).position()) {
                Some(i) => r is Some && r->Some_0.0 == i + 1 && Some(r->Some_0.1@) == old(self).slots()[i]
                    && final(self).position() == i + 1,
                None => r is None,
            },
    {
        while self.index < self.pool.by_index.len()
            invariant
                self.wf(),
                self.pool == old(self).pool,
                self.pool.by_index@.len() + 1 <= MAX_LEN,
                old(self).index <= self.index,
                next_occupied(self.slots(), self.position()) == next_occupied(
                    old(self).slots(),
                    old(self).position(),
                ),
            decreases self.pool.by_index@.len() - self.index,
        {
            let at = self.index;
            self.index = self.index + 1;
            if let Some(item) = &self.pool.by_index[at] {
                return Some(((at + 1) as u16, item));
            }
        }
        None
    }
}

} // verus!
