//! Modified UTF-8, the string encoding of class files.
//!
//! It differs from UTF-8 in two places: `U+0000` takes the two bytes `C0 80`,
//! and a code point from `U+10000` on takes six bytes, a pair of three-byte
//! groups that hold its two surrogate halves.

use vstd::prelude::*;
use super::result::Error;

verus! {

/// The code points that a `char` can hold.
pub open spec fn is_scalar(v: u32) -> bool {
    v <= 0xD7FF || (0xE000 <= v && v <= 0x10FFFF)
}

/// The bytes that one code point takes.
pub open spec fn encode_scalar(u: u32) -> Seq<u8> {
    if u != 0 && u < 0x80 {
        seq![u as u8]
    } else if u < 0x800 {
        seq![(0xC0 | ((u >> 6) & 0x1F)) as u8, (0x80 | (u & 0x3F)) as u8]
    } else if u < 0x1_0000 {
        seq![
            (0xE0 | ((u >> 12) & 0x0F)) as u8,
            (0x80 | ((u >> 6) & 0x3F)) as u8,
            (0x80 | (u & 0x3F)) as u8,
        ]
    } else {
        let v = (u - 0x1_0000) as u32;
        seq![
            0xEDu8,
            (0xA0 | ((v >> 16) & 0x0F)) as u8,
            (0x80 | ((v >> 10) & 0x3F)) as u8,
            0xEDu8,
            (0xB0 | ((v >> 6) & 0x0F)) as u8,
            (0x80 | (v & 0x3F)) as u8,
        ]
    }
}

/// The bytes that a string takes: those of its code points, in order.
pub open spec fn encode(s: Seq<char>) -> Seq<u8>
    decreases s.len(),
{
    if s.len() == 0 {
        Seq::empty()
    } else {
        encode_scalar(s[0] as u32) + encode(s.drop_first())
    }
}

/// A decoded value with the number of bytes it took, if it is a code point.
pub open spec fn scalar(v: int, n: int) -> Result<(char, int), Error> {
    if (0 <= v && v <= 0xD7FF) || (0xE000 <= v && v <= 0x10FFFF) {
        Ok((v as char, n))
    } else {
        Err(Error::InvalidUTF8)
    }
}

/// The value of a two-byte group.
pub open spec fn double_value(r1: u32, r2: u32) -> int {
    (((r1 & 0x1F) << 6) | (r2 & 0x3F)) as int
}

/// The value of a three-byte group.
pub open spec fn triple_value(r1: u32, r2: u32, r3: u32) -> int {
    ((r1 & 0x0F) << 12) + ((r2 & 0x3F) << 6) + (r3 & 0x3F)
}

/// The code point of a six-byte pair, from its second, third, fifth and sixth byte.
pub open spec fn pair_value(r2: u32, r3: u32, r5: u32, r6: u32) -> int {
    0x1_0000 + ((r2 & 0x0F) << 16) + ((r3 & 0x3F) << 10) + ((r5 & 0x0F) << 6) + (r6 & 0x3F)
}

/// What the decoder finds at `pos` when `remaining` bytes of the string are
/// left: the code point and the number of bytes it took.
///
/// A byte that is missing from `s` gives `LimitExceeded`; a group that does
/// not fit into `remaining`, a lead byte that starts no group, and a value
/// that is no code point give `InvalidUTF8`. Continuation bytes are taken by
/// their low six (or four) bits.
pub open spec fn decode_scalar(s: Seq<u8>, pos: int, remaining: int) -> Result<(char, int), Error> {
    if !(0 <= pos < s.len()) {
        Err(Error::LimitExceeded)
    } else {
        let r1 = s[pos] as u32;
        if r1 != 0 && r1 < 0x80 {
            scalar(r1 as int, 1)
        } else if 0xC0 <= r1 && r1 < 0xE0 {
            if remaining < 2 {
                Err(Error::InvalidUTF8)
            } else if pos + 2 > s.len() {
                Err(Error::LimitExceeded)
            } else {
                scalar(double_value(r1, s[pos + 1] as u32), 2)
            }
        } else if 0xE0 <= r1 && r1 < 0xF0 {
            if remaining < 3 {
                Err(Error::InvalidUTF8)
            } else if pos + 3 > s.len() {
                Err(Error::LimitExceeded)
            } else {
                let r2 = s[pos + 1] as u32;
                let r3 = s[pos + 2] as u32;
                if r1 == 0xED && 0xA0 <= r2 && r2 <= 0xAF {
                    if remaining < 6 {
                        Err(Error::InvalidUTF8)
                    } else if pos + 6 > s.len() {
                        Err(Error::LimitExceeded)
                    } else {
                        scalar(pair_value(r2, r3, s[pos + 4] as u32, s[pos + 5] as u32), 6)
                    }
                } else {
                    scalar(triple_value(r1, r2, r3), 3)
                }
            }
        } else {
            Err(Error::InvalidUTF8)
        }
    }
}

/// Decoding `remaining` bytes from `pos` on, with `acc` already decoded: the
/// whole string and the position behind it.
pub open spec fn decode_from(s: Seq<u8>, pos: int, remaining: int, acc: Seq<char>) -> Result<
    (Seq<char>, int),
    Error,
>
    decreases remaining,
{
    if remaining <= 0 {
        Ok((acc, pos))
    } else {
        match decode_scalar(s, pos, remaining) {
            Ok((c, n)) => decode_from(s, pos + n, remaining - n, acc.push(c)),
            Err(e) => Err(e),
        }
    }
}

/// The string that the `length` bytes at `pos` hold, and the position behind them.
pub open spec fn decode(s: Seq<u8>, pos: int, length: int) -> Result<(Seq<char>, int), Error> {
    decode_from(s, pos, length, Seq::empty())
}

/// The two bytes of a scalar below `0x800` are a lead byte and a continuation byte.
proof fn lemma_two_bytes(u: u32)
    by (bit_vector)
    requires
        u < 0x800,
    ensures
        0xC0 <= (0xC0 | ((u >> 6) & 0x1F)) <= 0xDF,
        0x80 <= (0x80 | (u & 0x3F)) <= 0xBF,
        ((((0xC0 | ((u >> 6) & 0x1F)) as u8 as u32) & 0x1F) << 6) | (((0x80 | (u & 0x3F)) as u8 as u32)
            & 0x3F) == u,
{
}

/// The three bytes of a scalar below `0x10000` are a lead byte and two continuation bytes.
proof fn lemma_three_bytes(u: u32)
    by (bit_vector)
    requires
        0x800 <= u < 0x1_0000,
    ensures
        0xE0 <= (0xE0 | ((u >> 12) & 0x0F)) <= 0xEF,
        0x80 <= (0x80 | ((u >> 6) & 0x3F)) <= 0xBF,
        0x80 <= (0x80 | (u & 0x3F)) <= 0xBF,
        (0xE0 | ((u >> 12) & 0x0F)) == 0xED && (0x80 | ((u >> 6) & 0x3F)) >= 0xA0 ==> 0xD800 <= u
            <= 0xDFFF,
        ((((0xE0 | ((u >> 12) & 0x0F)) as u8 as u32) & 0x0F) << 12) + ((((0x80 | ((u >> 6) & 0x3F)) as u8 as u32)
            & 0x3F) << 6) + (((0x80 | (u & 0x3F)) as u8 as u32) & 0x3F) == u,
{
}

/// The six bytes of a supplementary scalar are two surrogates of three bytes each.
proof fn lemma_six_bytes(v: u32)
    by (bit_vector)
    requires
        v <= 0xF_FFFF,
    ensures
        0xA0 <= (0xA0 | ((v >> 16) & 0x0F)) <= 0xAF,
        0x80 <= (0x80 | ((v >> 10) & 0x3F)) <= 0xBF,
        0xB0 <= (0xB0 | ((v >> 6) & 0x0F)) <= 0xBF,
        0x80 <= (0x80 | (v & 0x3F)) <= 0xBF,
        ((((0xA0 | ((v >> 16) & 0x0F)) as u8 as u32) & 0x0F) << 16) + ((((0x80 | ((v >> 10) & 0x3F)) as u8 as u32)
            & 0x3F) << 10) + ((((0xB0 | ((v >> 6) & 0x0F)) as u8 as u32) & 0x0F) << 6) + (((0x80 | (v
            & 0x3F)) as u8 as u32) & 0x3F) == v,
{
}

/// One code point, encoded, is decoded to itself wherever it stands, if the
/// bytes that are left reach to its end.
pub proof fn lemma_scalar_round_trip(c: char, pre: Seq<u8>, post: Seq<u8>, remaining: int)
    requires
        remaining >= encode_scalar(c as u32).len(),
    ensures
        decode_scalar(pre + encode_scalar(c as u32) + post, pre.len() as int, remaining) == Ok::<
            (char, int),
            Error,
        >((c, encode_scalar(c as u32).len() as int)),
{
    let u = c as u32;
    let e = encode_scalar(u);
    let s = pre + e + post;
    let pos = pre.len() as int;
    assert(forall|i: int| 0 <= i < e.len() ==> s[pos + i] == e[i]);
    if u != 0 && u < 0x80 {
        assert(s[pos] == e[0]);
    } else if u < 0x800 {
        lemma_two_bytes(u);
        assert(s[pos] == e[0] && s[pos + 1] == e[1]);
    } else if u < 0x1_0000 {
        lemma_three_bytes(u);
        assert(s[pos] == e[0] && s[pos + 1] == e[1] && s[pos + 2] == e[2]);
    } else {
        let v = (u - 0x1_0000) as u32;
        lemma_six_bytes(v);
        assert(s[pos] == e[0] && s[pos + 1] == e[1] && s[pos + 2] == e[2] && s[pos + 4] == e[4]
            && s[pos + 5] == e[5]);
    }
}

/// A string, encoded, is decoded to itself wherever it stands: behind any
/// bytes `pre`, before any bytes `post`, and after any chars `acc`.
pub proof fn lemma_round_trip_from(s: Seq<char>, pre: Seq<u8>, post: Seq<u8>, acc: Seq<char>)
    ensures
        decode_from(pre + encode(s) + post, pre.len() as int, encode(s).len() as int, acc) == Ok::<
            (Seq<char>, int),
            Error,
        >((acc + s, (pre.len() + encode(s).len()) as int)),
    decreases s.len(),
{
    if s.len() == 0 {
        assert(acc + s =~= acc);
    } else {
        let c = s[0];
        let rest = s.drop_first();
        let ec = encode_scalar(c as u32);
        let er = encode(rest);
        let bytes = pre + encode(s) + post;
        assert(bytes =~= pre + ec + (er + post));
        lemma_scalar_round_trip(c, pre, er + post, encode(s).len() as int);
        assert(bytes =~= (pre + ec) + er + post);
        lemma_round_trip_from(rest, pre + ec, post, acc.push(c));
        assert(acc.push(c) + rest =~= acc + s);
    }
}

/// Decoding what `encode` gave returns the string, and consumes every byte.
pub proof fn lemma_decode_encode(s: Seq<char>)
    ensures
        decode(encode(s), 0, encode(s).len() as int) == Ok::<(Seq<char>, int), Error>(
            (s, encode(s).len() as int),
        ),
{
    lemma_round_trip_from(s, Seq::empty(), Seq::empty(), Seq::empty());
    assert(Seq::<u8>::empty() + encode(s) + Seq::<u8>::empty() =~= encode(s));
    assert(Seq::<char>::empty() + s =~= s);
}

} // verus!
