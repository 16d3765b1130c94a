//! What the writer writes, the parser reads: laws that hold of both.

pub mod annotation;
pub mod attribute;
pub mod class;
pub mod code;
pub mod dispatch;
pub mod frame;
pub mod framing;
pub mod names;
pub mod pool;
pub mod switches;
pub mod table;

use vstd::prelude::*;
use super::parser::grammar::{counted16, counted8, repeat, Grammar};
use super::result::Error;
use super::writer::encode::{lemma_unsigned_round_trip, u16_bytes};
use super::writer::grammar::{all, each, Format};

verus! {

/// Whether `bytes` stand in `s` at `pos`.
pub open spec fn holds_at(s: Seq<u8>, pos: int, bytes: Seq<u8>) -> bool {
    0 <= pos && pos + bytes.len() <= s.len() && s.subrange(pos, pos + bytes.len()) == bytes
}

/// Bytes that stand in `s` stand between what is before and what is behind them.
pub proof fn lemma_between(s: Seq<u8>, pos: int, bytes: Seq<u8>)
    requires
        holds_at(s, pos, bytes),
    ensures
        s == s.take(pos) + bytes + s.skip(pos + bytes.len()),
        s.take(pos).len() == pos,
{
    assert(s =~= s.take(pos) + s.subrange(pos, pos + bytes.len()) + s.skip(pos + bytes.len()));
}

/// Where two parts stand, each of them stands.
pub proof fn lemma_split(s: Seq<u8>, pos: int, a: Seq<u8>, b: Seq<u8>)
    requires
        holds_at(s, pos, a + b),
    ensures
        holds_at(s, pos, a),
        holds_at(s, pos + a.len(), b),
{
    let both = s.subrange(pos, pos + (a + b).len());
    assert(s.subrange(pos, pos + a.len()) =~= both.subrange(0, a.len() as int));
    assert(both.subrange(0, a.len() as int) =~= a);
    assert(s.subrange(pos + a.len(), pos + a.len() + b.len()) =~= both.subrange(
        a.len() as int,
        (a.len() + b.len()) as int,
    ));
    assert(both.subrange(a.len() as int, (a.len() + b.len()) as int) =~= b);
}

/// Bytes that stand within bytes that stand in `s` stand in `s`.
pub proof fn lemma_within(s: Seq<u8>, pos: int, outer: Seq<u8>, offset: int, inner: Seq<u8>)
    requires
        holds_at(s, pos, outer),
        holds_at(outer, offset, inner),
    ensures
        holds_at(s, pos + offset, inner),
{
    let part = s.subrange(pos, pos + outer.len());
    assert(s.subrange(pos + offset, pos + offset + inner.len()) =~= part.subrange(
        offset,
        offset + inner.len(),
    ));
}

/// A value is read as it was written: wherever the bytes stand that
/// `format` gives for it, `item` reads the value, and ends behind them.
pub open spec fn reads_back<T>(format: Format<T>, item: Grammar<T>, x: T) -> bool {
    format(x) is Ok ==> forall|s: Seq<u8>, pos: int| #[trigger]
        holds_at(s, pos, format(x)->Ok_0) ==> item(s, pos) == Ok::<(T, int), Error>(
            (x, pos + format(x)->Ok_0.len()),
        )
}

/// Values behind bytes are the bytes, and behind them the values.
pub proof fn lemma_each_behind<T>(format: Format<T>, v: Seq<T>, from: int, acc: Seq<u8>)
    ensures
        each(format, v, from, acc) is Ok <==> each(format, v, from, Seq::empty()) is Ok,
        each(format, v, from, acc) is Ok ==> each(format, v, from, acc)->Ok_0 == acc + each(
            format,
            v,
            from,
            Seq::empty(),
        )->Ok_0,
        each(format, v, from, acc) is Err ==> each(format, v, from, acc) == each(
            format,
            v,
            from,
            Seq::empty(),
        ),
    decreases v.len() - from,
{
    if 0 <= from < v.len() {
        match format(v[from]) {
            Ok(bytes) => {
                lemma_each_behind(format, v, from + 1, acc + bytes);
                lemma_each_behind(format, v, from + 1, Seq::<u8>::empty() + bytes);
                if each(format, v, from, acc) is Ok {
                    let rest = each(format, v, from + 1, Seq::empty())->Ok_0;
                    assert(acc + bytes + rest =~= acc + (Seq::<u8>::empty() + bytes + rest));
                }
            },
            Err(_) => {},
        }
    } else {
        assert(acc + Seq::<u8>::empty() =~= acc);
    }
}

/// Values, each of which is read as it was written, are read as they were
/// written, one after the other.
pub proof fn lemma_read_each<T>(
    format: Format<T>,
    item: Grammar<T>,
    v: Seq<T>,
    from: int,
    s: Seq<u8>,
    pos: int,
    acc: Seq<T>,
)
    requires
        0 <= from <= v.len(),
        each(format, v, from, Seq::empty()) is Ok,
        holds_at(s, pos, each(format, v, from, Seq::empty())->Ok_0),
        forall|i: int| from <= i < v.len() ==> reads_back(format, item, #[trigger] v[i]),
    ensures
        repeat(item, s, pos, (v.len() - from) as nat, acc) == Ok::<(Seq<T>, int), Error>(
            (acc + v.skip(from), pos + each(format, v, from, Seq::empty())->Ok_0.len()),
        ),
    decreases v.len() - from,
{
    if from < v.len() {
        let first = format(v[from])->Ok_0;
        lemma_each_behind(format, v, from + 1, Seq::<u8>::empty() + first);
        let rest = each(format, v, from + 1, Seq::empty())->Ok_0;
        assert(each(format, v, from, Seq::empty())->Ok_0 =~= first + rest);
        lemma_split(s, pos, first, rest);
        assert(reads_back(format, item, v[from]));
        assert(holds_at(s, pos, format(v[from])->Ok_0));
        lemma_read_each(format, item, v, from + 1, s, pos + first.len(), acc.push(v[from]));
        assert(acc.push(v[from]) + v.skip(from + 1) =~= acc + v.skip(from));
    } else {
        assert(acc + v.skip(from) =~= acc);
    }
}

/// A list with a count of two bytes is read as it was written.
pub proof fn lemma_read_counted16<T>(
    format: Format<T>,
    item: Grammar<T>,
    v: Seq<T>,
    s: Seq<u8>,
    pos: int,
)
    requires
        super::writer::grammar::counted16(format, v) is Ok,
        holds_at(s, pos, super::writer::grammar::counted16(format, v)->Ok_0),
        forall|i: int| 0 <= i < v.len() ==> reads_back(format, item, #[trigger] v[i]),
    ensures
        counted16(item, s, pos) == Ok::<(Seq<T>, int), Error>(
            (v, pos + super::writer::grammar::counted16(format, v)->Ok_0.len()),
        ),
{
    let count = u16_bytes(v.len() as u16);
    let items = all(format, v)->Ok_0;
    lemma_split(s, pos, count, items);
    lemma_unsigned_round_trip(v.len() as u16, 0, 0);
    lemma_read_each(format, item, v, 0, s, pos + 2, Seq::empty());
    assert(Seq::<T>::empty() + v.skip(0) =~= v);
}

/// A list with a count of one byte is read as it was written.
pub proof fn lemma_read_counted8<T>(
    format: Format<T>,
    item: Grammar<T>,
    v: Seq<T>,
    s: Seq<u8>,
    pos: int,
)
    requires
        super::writer::grammar::counted8(format, v) is Ok,
        holds_at(s, pos, super::writer::grammar::counted8(format, v)->Ok_0),
        forall|i: int| 0 <= i < v.len() ==> reads_back(format, item, #[trigger] v[i]),
    ensures
        counted8(item, s, pos) == Ok::<(Seq<T>, int), Error>(
            (v, pos + super::writer::grammar::counted8(format, v)->Ok_0.len()),
        ),
{
    let count = seq![v.len() as u8];
    let items = all(format, v)->Ok_0;
    lemma_split(s, pos, count, items);
    assert(s.subrange(pos, pos + 1)[0] == count[0]);
    lemma_read_each(format, item, v, 0, s, pos + 1, Seq::empty());
    assert(Seq::<T>::empty() + v.skip(0) =~= v);
}

} // verus!
