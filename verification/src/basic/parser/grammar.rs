//! What the parsers' contracts are written in: a grammar is a function from
//! the input and a position to a value and the position behind it, or an error.

use vstd::prelude::*;
use super::super::result::Error;
use super::super::tree::{views, AccessFlags};
use super::decode::{be_u16, u16_at, u8_at, Decoder};

verus! {

/// What a grammar gives: a value and the position behind it, or an error.
pub type Parsed<T> = Result<(T, int), Error>;

/// A grammar: from the input and a position in it.
pub type Grammar<T> = spec_fn(Seq<u8>, int) -> Parsed<T>;

/// The value that `r` holds, changed by `f`.
pub open spec fn mapped<A, B>(r: Parsed<A>, f: spec_fn(A) -> B) -> Parsed<B> {
    match r {
        Ok((v, next)) => Ok((f(v), next)),
        Err(e) => Err(e),
    }
}

/// `count` values in a row, each read by `item`, behind those of `acc`.
pub open spec fn repeat<T>(item: Grammar<T>, s: Seq<u8>, pos: int, count: nat, acc: Seq<T>) -> Parsed<
    Seq<T>,
>
    decreases count,
{
    if count == 0 {
        Ok((acc, pos))
    } else {
        match item(s, pos) {
            Ok((v, next)) => repeat(item, s, next, (count - 1) as nat, acc.push(v)),
            Err(e) => Err(e),
        }
    }
}

/// A count of one byte, and then that many values.
pub open spec fn counted8<T>(item: Grammar<T>, s: Seq<u8>, pos: int) -> Parsed<Seq<T>> {
    match u8_at(s, pos) {
        Ok((count, next)) => repeat(item, s, next, count as nat, Seq::empty()),
        Err(e) => Err(e),
    }
}

/// A count of two bytes, and then that many values.
pub open spec fn counted16<T>(item: Grammar<T>, s: Seq<u8>, pos: int) -> Parsed<Seq<T>> {
    match u16_at(s, pos) {
        Ok((count, next)) => repeat(item, s, next, count as nat, Seq::empty()),
        Err(e) => Err(e),
    }
}

/// The grammar of a `u16`.
pub open spec fn u16_item() -> Grammar<u16> {
    |s: Seq<u8>, pos: int| u16_at(s, pos)
}

/// The `u16` whose two bytes stand at `pos`.
pub open spec fn u16_in(s: Seq<u8>, pos: int) -> u16 {
    be_u16(s.subrange(pos, pos + 2))
}

/// The access flags whose two bytes stand at `pos`.
pub open spec fn flags_in(s: Seq<u8>, pos: int) -> AccessFlags {
    AccessFlags { bits: u16_in(s, pos) }
}

/// Whether `size` bytes stand at `pos`.
pub open spec fn fits(s: Seq<u8>, pos: int, size: int) -> bool {
    0 <= pos && pos + size <= s.len()
}

/// What a parser states: the input stays, and the result's view and the
/// new position are those that the grammar `g` gives at the old position.
pub open spec fn parses<T: View>(
    before: Decoder,
    after: Decoder,
    r: Result<T, Error>,
    g: Parsed<T::V>,
) -> bool {
    &&& after.input() == before.input()
    &&& match g {
        Ok((v, next)) => r is Ok && r->Ok_0@ == v && after.pos() == next,
        Err(e) => r == Err::<T, Error>(e),
    }
}

/// As `parses`, for a vector of values that are their own views.
pub open spec fn parses_all<T>(
    before: Decoder,
    after: Decoder,
    r: Result<Vec<T>, Error>,
    g: Parsed<Seq<T>>,
) -> bool {
    &&& after.input() == before.input()
    &&& match g {
        Ok((v, next)) => r is Ok && r->Ok_0@ == v && after.pos() == next,
        Err(e) => r == Err::<Vec<T>, Error>(e),
    }
}

/// As `parses`, for a vector of values, by their views.
pub open spec fn parses_views<T: View>(
    before: Decoder,
    after: Decoder,
    r: Result<Vec<T>, Error>,
    g: Parsed<Seq<T::V>>,
) -> bool {
    &&& after.input() == before.input()
    &&& match g {
        Ok((v, next)) => r is Ok && views(r->Ok_0@) == v && after.pos() == next,
        Err(e) => r == Err::<Vec<T>, Error>(e),
    }
}

/// Reads a count of two bytes, and then that many `u16`.
#[verifier::loop_isolation(false)]
pub fn parse_u16_list(decoder: &mut Decoder) -> (r: Result<Vec<u16>, Error>)
    ensures
        parses_all(
            *old(decoder),
            *final(decoder),
            r,
            counted16(u16_item(), old(decoder).input(), old(decoder).pos()),
        ),
{
    let ghost s = decoder.input();
    let ghost goal = counted16(u16_item(), s, decoder.pos());
    let count = decoder.read_u16()?;
    let mut list: Vec<u16> = Vec::with_capacity(count as usize);
    let mut i: u16 = 0;
    while i < count
        invariant
            i <= count,
            decoder.input() == s,
            goal == repeat(u16_item(), s, decoder.pos(), (count - i) as nat, list@),
        decreases count - i,
    {
        list.push(decoder.read_u16()?);
        i += 1;
    }
    Ok(list)
}

} // verus!
