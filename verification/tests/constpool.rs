use jbcrs::basic::{Error, Item, Pool, ReferenceKind};

const HASH_OF_ZERO: u64 = 0x0835_ED2E_34EE_5316;
const HASH_OF_AB: u64 = 0xD113_9B18_6786_3F8F;
const HASH_OF_NAME_AND_TYPE: u64 = 0xFBEF_9618_7FAC_43D4;

#[test]
fn push_and_get() {
    let mut pool = Pool::new();
    assert_eq!(pool.push(Item::Integer(123)).unwrap(), 1);
    assert_eq!(pool.push(Item::Long(32767)).unwrap(), 2);
    assert_eq!(pool.push(Item::Long(65535)).unwrap(), 4);
    assert_eq!(pool.push(Item::Float(3.8f32.to_bits())).unwrap(), 6);
    assert_eq!(pool.len(), 7);
    assert_eq!(pool.push(Item::Integer(123)).unwrap(), 1);
    assert_eq!(pool.len(), 7);

    assert_eq!(pool.get(1).unwrap(), &Item::Integer(123));
    assert_eq!(pool.get(2).unwrap(), &Item::Long(32767));
    assert_eq!(pool.get(4).unwrap(), &Item::Long(65535));
    assert_eq!(pool.get(6).unwrap(), &Item::Float(3.8f32.to_bits()));

    let mut iter = pool.iter();
    assert_eq!(iter.next(), Some((1, &Item::Integer(123))));
    assert_eq!(iter.next(), Some((2, &Item::Long(32767))));
    assert_eq!(iter.next(), Some((4, &Item::Long(65535))));
    assert_eq!(iter.next(), Some((6, &Item::Float(3.8f32.to_bits()))));
    assert_eq!(iter.next(), None);
}

#[test]
fn push_duplicate() {
    let mut pool = Pool::new();
    assert_eq!(pool.push_duplicate(Item::Integer(123)).unwrap(), 1);
    assert_eq!(pool.push_duplicate(Item::Long(32767)).unwrap(), 2);
    assert_eq!(pool.push_duplicate(Item::Long(65535)).unwrap(), 4);
    assert_eq!(pool.push_duplicate(Item::Float(3.8f32.to_bits())).unwrap(), 6);
    assert_eq!(pool.len(), 7);
    assert_eq!(pool.push_duplicate(Item::Integer(123)).unwrap(), 7);
    assert_eq!(pool.len(), 8);

    assert_eq!(pool.get(1).unwrap(), &Item::Integer(123));
    assert_eq!(pool.get(2).unwrap(), &Item::Long(32767));
    assert_eq!(pool.get(4).unwrap(), &Item::Long(65535));
    assert_eq!(pool.get(6).unwrap(), &Item::Float(3.8f32.to_bits()));
    assert_eq!(pool.get(7).unwrap(), &Item::Integer(123));
}

#[test]
fn constpool() {
    let mut pool = Pool::new();
    assert_eq!(pool.push(Item::Integer(123)).unwrap(), 1);
    assert_eq!(pool.push(Item::Long(32767)).unwrap(), 2);
    assert_eq!(pool.push(Item::Float(3.8f32.to_bits())).unwrap(), 4);
    assert_eq!(pool.push(Item::Integer(123)).unwrap(), 1);

    assert_eq!(pool.get(1).unwrap(), &Item::Integer(123));
    assert_eq!(pool.get(2).unwrap(), &Item::Long(32767));
    assert_eq!(pool.get(4).unwrap(), &Item::Float(3.8f32.to_bits()));
}

#[test]
fn new_pool_is_empty() {
    let pool = Pool::new();
    assert_eq!(pool.len(), 1);
    assert!(pool.is_empty());
    assert_eq!(pool.get(0), Err(Error::InvalidCPItem(0)));
    assert_eq!(pool.get(1), Err(Error::InvalidCPItem(1)));
    let sized = Pool::with_capacity(16);
    assert_eq!(sized.len(), 1);
    assert!(sized.is_empty());
}

#[test]
fn long_occupies_two_slots() {
    let mut pool = Pool::new();
    assert_eq!(pool.push(Item::UTF8("x".to_owned())).unwrap(), 1);
    assert_eq!(pool.push(Item::Long(0x0102030405060708)).unwrap(), 2);
    assert_eq!(pool.push(Item::UTF8("y".to_owned())).unwrap(), 4);
    assert_eq!(pool.get(3), Err(Error::InvalidCPItem(3)));
    assert_eq!(pool.len(), 5);
    assert!(!pool.is_empty());
}

#[test]
fn double_occupies_two_slots() {
    let mut pool = Pool::new();
    let before = pool.len();
    let index = pool.push(Item::Double(1.5f64.to_bits())).unwrap();
    assert_eq!(index, 1);
    assert_eq!(pool.len(), before + 2);
    assert_eq!(pool.get(index + 1), Err(Error::InvalidCPItem(index + 1)));
    assert_eq!(pool.get(index).unwrap(), &Item::Double(1.5f64.to_bits()));
}

#[test]
fn get_rejects_index_at_and_behind_the_length() {
    let mut pool = Pool::new();
    pool.push(Item::Integer(1)).unwrap();
    assert_eq!(pool.len(), 2);
    assert_eq!(pool.get(2), Err(Error::InvalidCPItem(2)));
    assert_eq!(pool.get(0xFFFF), Err(Error::InvalidCPItem(0xFFFF)));
}

#[test]
fn push_gives_equal_items_one_index() {
    let items = vec![
        Item::UTF8("a".to_owned()),
        Item::Integer(7),
        Item::UTF8("b".to_owned()),
        Item::Long(7),
        Item::UTF8("a".to_owned()),
        Item::Integer(7),
        Item::Class(1),
        Item::String(1),
        Item::Long(7),
        Item::MethodHandle { kind: ReferenceKind::GetField, index: 1 },
        Item::MethodHandle { kind: ReferenceKind::PutField, index: 1 },
        Item::MethodHandle { kind: ReferenceKind::GetField, index: 1 },
    ];
    let mut pool = Pool::new();
    let mut indices = Vec::new();
    for item in &items {
        indices.push(pool.push(item.clone()).unwrap());
    }
    for a in 0..items.len() {
        for b in 0..items.len() {
            assert_eq!(indices[a] == indices[b], items[a] == items[b]);
        }
    }
    assert_eq!(indices, vec![1, 2, 3, 4, 1, 2, 6, 7, 4, 8, 9, 8]);
}

#[test]
fn floats_are_compared_by_their_bits() {
    let mut pool = Pool::new();
    let plus = pool.push(Item::Float(0.0f32.to_bits())).unwrap();
    let minus = pool.push(Item::Float((-0.0f32).to_bits())).unwrap();
    assert_ne!(plus, minus);
    let nan = pool.push(Item::Float(f32::NAN.to_bits())).unwrap();
    assert_eq!(pool.push(Item::Float(f32::NAN.to_bits())).unwrap(), nan);
    let other_nan = pool.push(Item::Float(f32::NAN.to_bits() ^ 1)).unwrap();
    assert_ne!(nan, other_nan);
    let d_plus = pool.push(Item::Double(0.0f64.to_bits())).unwrap();
    let d_minus = pool.push(Item::Double((-0.0f64).to_bits())).unwrap();
    assert_ne!(d_plus, d_minus);
    assert_eq!(pool.push(Item::Double(0.0f64.to_bits())).unwrap(), d_plus);
}

#[test]
fn push_after_push_duplicate_returns_the_last_index() {
    let mut pool = Pool::new();
    assert_eq!(pool.push_duplicate(Item::Integer(5)).unwrap(), 1);
    assert_eq!(pool.push_duplicate(Item::Integer(5)).unwrap(), 2);
    assert_eq!(pool.push(Item::Integer(5)).unwrap(), 2);
    assert_eq!(pool.len(), 3);
    assert_eq!(pool.index_of(&Item::Integer(5)), Some(2));
    assert_eq!(pool.index_of(&Item::Integer(6)), None);
}

#[test]
fn full_pool_rejects_every_push() {
    let mut pool = Pool::new();
    for i in 0..0xFFFEu32 {
        assert_eq!(pool.push_duplicate(Item::Integer(i as i32)).unwrap() as u32, i + 1);
    }
    assert_eq!(pool.len(), 0xFFFF);
    assert_eq!(pool.push(Item::Integer(-1)), Err(Error::CPTooLarge));
    assert_eq!(pool.push_duplicate(Item::Integer(-1)), Err(Error::CPTooLarge));
    // even an item that the pool holds already
    assert_eq!(pool.push(Item::Integer(0)), Err(Error::CPTooLarge));
    assert_eq!(pool.push_utf8("x".to_owned()), Err(Error::CPTooLarge));
    assert_eq!(pool.push_class("x".to_owned()), Err(Error::CPTooLarge));
    assert_eq!(pool.len(), 0xFFFF);
    assert_eq!(pool.get(0xFFFE).unwrap(), &Item::Integer(0xFFFD));
}

#[test]
fn wide_item_needs_two_free_indices() {
    let mut pool = Pool::new();
    for i in 0..0xFFFDu32 {
        pool.push_duplicate(Item::Integer(i as i32)).unwrap();
    }
    assert_eq!(pool.len(), 0xFFFE);
    assert_eq!(pool.push(Item::Long(1)), Err(Error::CPTooLarge));
    assert_eq!(pool.push_duplicate(Item::Double(1)), Err(Error::CPTooLarge));
    assert_eq!(pool.len(), 0xFFFE);
    assert_eq!(pool.push_duplicate(Item::Integer(1)).unwrap(), 0xFFFE);
    assert_eq!(pool.len(), 0xFFFF);
}

#[test]
fn utf8_and_class_names() {
    let mut pool = Pool::new();
    let class = pool.push_class("java/lang/Object".to_owned()).unwrap();
    assert_eq!(class, 2);
    assert_eq!(pool.get_utf8(1).unwrap(), "java/lang/Object");
    assert_eq!(pool.get_class_name(2).unwrap(), "java/lang/Object");
    assert_eq!(pool.get_class_name_opt(2).unwrap(), Some("java/lang/Object".to_owned()));
    // a second class of the same name is the same class
    assert_eq!(pool.push_class("java/lang/Object".to_owned()).unwrap(), 2);
    assert_eq!(pool.push_utf8("java/lang/Object".to_owned()).unwrap(), 1);
    assert_eq!(pool.len(), 3);
    // wrong tags
    assert_eq!(pool.get_utf8(2), Err(Error::InvalidCPItem(2)));
    assert_eq!(pool.get_class_name(1), Err(Error::InvalidCPItem(1)));
    assert_eq!(pool.get_class_name_opt(1), Err(Error::InvalidCPItem(1)));
    assert_eq!(pool.get_utf8(0), Err(Error::InvalidCPItem(0)));
    assert_eq!(pool.get_utf8(9), Err(Error::InvalidCPItem(9)));
    // a class without a name
    let nameless = pool.push(Item::Class(0)).unwrap();
    assert_eq!(pool.get_class_name_opt(nameless).unwrap(), None);
    assert_eq!(pool.get_class_name(nameless), Err(Error::InvalidCPItem(0)));
    // a class whose name is no string
    let odd = pool.push(Item::Class(2)).unwrap();
    assert_eq!(pool.get_class_name(odd), Err(Error::InvalidCPItem(2)));
    assert_eq!(pool.get_class_name_opt(odd), Err(Error::InvalidCPItem(2)));
}

#[test]
fn items_come_in_index_order() {
    let mut pool = Pool::new();
    pool.push(Item::Integer(1)).unwrap();
    pool.push(Item::Double(2)).unwrap();
    pool.push(Item::UTF8("three".to_owned())).unwrap();
    let items = pool.get_items();
    assert_eq!(items, vec![&Item::Integer(1), &Item::Double(2), &Item::UTF8("three".to_owned())]);
    let mut iter = pool.iter();
    assert_eq!(iter.next(), Some((1, &Item::Integer(1))));
    assert_eq!(iter.next(), Some((2, &Item::Double(2))));
    assert_eq!(iter.next(), Some((4, &Item::UTF8("three".to_owned()))));
    assert_eq!(iter.next(), None);
    assert_eq!(iter.next(), None);
}

#[test]
fn clone_keeps_items_and_indices() {
    let mut pool = Pool::new();
    pool.push(Item::Long(9)).unwrap();
    pool.push(Item::UTF8("s".to_owned())).unwrap();
    let mut copy = pool.clone();
    assert_eq!(copy.len(), pool.len());
    assert_eq!(copy.get(1).unwrap(), &Item::Long(9));
    assert_eq!(copy.get(2), Err(Error::InvalidCPItem(2)));
    assert_eq!(copy.get(3).unwrap(), &Item::UTF8("s".to_owned()));
    assert_eq!(copy.push(Item::UTF8("s".to_owned())).unwrap(), 3);
    assert_eq!(copy.push(Item::Integer(1)).unwrap(), 4);
    assert_eq!(pool.len(), 4);
    assert!(Item::Long(1).is_double());
    assert!(Item::Double(1).is_double());
    assert!(!Item::Float(1).is_double());
    assert_eq!(Item::UTF8("a".to_owned()).clone(), Item::UTF8("a".to_owned()));
}

#[test]
fn hash_codes() {
    assert_eq!(Item::Integer(0).hash_code(), HASH_OF_ZERO);
    assert_eq!(Item::UTF8("ab".to_owned()).hash_code(), HASH_OF_AB);
    assert_eq!(Item::NameAndType { name: 1, desc: 2 }.hash_code(), HASH_OF_NAME_AND_TYPE);
    // equal items have one hash
    assert_eq!(
        Item::UTF8("java/lang/Object".to_owned()).hash_code(),
        Item::UTF8("java/lang/Object".to_owned()).clone().hash_code()
    );
    // the tag counts, and so does the order of the fields
    assert_ne!(Item::Class(1).hash_code(), Item::String(1).hash_code());
    assert_ne!(Item::Float(1).hash_code(), Item::Integer(1).hash_code());
    assert_ne!(Item::Long(-1).hash_code(), Item::Long(1).hash_code());
    assert_ne!(
        Item::FieldRef { class: 1, name_and_type: 2 }.hash_code(),
        Item::FieldRef { class: 2, name_and_type: 1 }.hash_code()
    );
    assert_ne!(Item::Integer(i32::MIN).hash_code(), Item::Integer(i32::MAX).hash_code());
    assert_ne!(Item::Long(i64::MIN).hash_code(), Item::Long(i64::MAX).hash_code());
}

#[test]
fn many_items_are_found_again() {
    let mut pool = Pool::new();
    for i in 0..60000u32 {
        assert_eq!(pool.push(Item::UTF8(format!("name{}", i))).unwrap() as u32, i + 1);
    }
    for i in (0..60000u32).rev() {
        assert_eq!(pool.push(Item::UTF8(format!("name{}", i))).unwrap() as u32, i + 1);
        assert_eq!(pool.index_of(&Item::UTF8(format!("name{}", i))), Some((i + 1) as u16));
    }
    assert_eq!(pool.len(), 60001);
    assert_eq!(pool.index_of(&Item::UTF8("name".to_owned())), None);
    let copy = pool.clone();
    assert_eq!(copy.index_of(&Item::UTF8("name59999".to_owned())), Some(60000));
}
