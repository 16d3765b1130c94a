//! The `decode` module decodes simple data: integers and strings.

use vstd::prelude::*;
use vstd::slice::slice_subrange;
use byteorder::{BigEndian, ByteOrder};
use super::super::mutf8;
use super::super::result::Error;
use crate::text::string_push;

verus! {

/// The number that two bytes hold, the first being the most significant.
pub open spec fn be_u16(b: Seq<u8>) -> u16 {
    (b[0] as int * 0x100 + b[1] as int) as u16
}

/// The number that four bytes hold, the first being the most significant.
pub open spec fn be_u32(b: Seq<u8>) -> u32 {
    (b[0] as int * 0x100_0000 + b[1] as int * 0x1_0000 + b[2] as int * 0x100 + b[3] as int) as u32
}

/// The number that eight bytes hold, the first being the most significant.
pub open spec fn be_u64(b: Seq<u8>) -> u64 {
    (be_u32(b.subrange(0, 4)) as int * 0x1_0000_0000 + be_u32(b.subrange(4, 8)) as int) as u64
}

/// The signed number with the bits of `u` (two's complement).
pub open spec fn as_i8(u: u8) -> i8 {
    if u < 0x80 {
        u as i8
    } else {
        (u - 0x100) as i8
    }
}

/// The signed number with the bits of `u` (two's complement).
pub open spec fn as_i16(u: u16) -> i16 {
    if u < 0x8000 {
        u as i16
    } else {
        (u - 0x1_0000) as i16
    }
}

/// The signed number with the bits of `u` (two's complement).
pub open spec fn as_i32(u: u32) -> i32 {
    if u < 0x8000_0000 {
        u as i32
    } else {
        (u - 0x1_0000_0000) as i32
    }
}

/// The signed number with the bits of `u` (two's complement).
pub open spec fn as_i64(u: u64) -> i64 {
    if u < 0x8000_0000_0000_0000 {
        u as i64
    } else {
        (u - 0x1_0000_0000_0000_0000) as i64
    }
}

/// The `count` bytes at `pos`, and the position behind them.
pub open spec fn bytes_at(s: Seq<u8>, pos: int, count: int) -> Result<(Seq<u8>, int), Error> {
    if 0 <= pos && 0 <= count && pos + count <= s.len() {
        Ok((s.subrange(pos, pos + count), pos + count))
    } else {
        Err(Error::LimitExceeded)
    }
}

/// The position behind `count` skipped bytes.
pub open spec fn skip_at(s: Seq<u8>, pos: int, count: int) -> Result<((), int), Error> {
    match bytes_at(s, pos, count) {
        Ok((_, next)) => Ok(((), next)),
        Err(e) => Err(e),
    }
}

/// The `u8` at `pos`, and the position behind it.
pub open spec fn u8_at(s: Seq<u8>, pos: int) -> Result<(u8, int), Error> {
    match bytes_at(s, pos, 1) {
        Ok((b, next)) => Ok((b[0], next)),
        Err(e) => Err(e),
    }
}

/// The `u16` at `pos`, and the position behind it.
pub open spec fn u16_at(s: Seq<u8>, pos: int) -> Result<(u16, int), Error> {
    match bytes_at(s, pos, 2) {
        Ok((b, next)) => Ok((be_u16(b), next)),
        Err(e) => Err(e),
    }
}

/// The `u32` at `pos`, and the position behind it.
pub open spec fn u32_at(s: Seq<u8>, pos: int) -> Result<(u32, int), Error> {
    match bytes_at(s, pos, 4) {
        Ok((b, next)) => Ok((be_u32(b), next)),
        Err(e) => Err(e),
    }
}

/// The `u64` at `pos`, and the position behind it.
pub open spec fn u64_at(s: Seq<u8>, pos: int) -> Result<(u64, int), Error> {
    match bytes_at(s, pos, 8) {
        Ok((b, next)) => Ok((be_u64(b), next)),
        Err(e) => Err(e),
    }
}

/// The `i8` at `pos`, and the position behind it.
pub open spec fn i8_at(s: Seq<u8>, pos: int) -> Result<(i8, int), Error> {
    match u8_at(s, pos) {
        Ok((u, next)) => Ok((as_i8(u), next)),
        Err(e) => Err(e),
    }
}

/// The `i16` at `pos`, and the position behind it.
pub open spec fn i16_at(s: Seq<u8>, pos: int) -> Result<(i16, int), Error> {
    match u16_at(s, pos) {
        Ok((u, next)) => Ok((as_i16(u), next)),
        Err(e) => Err(e),
    }
}

/// The `i32` at `pos`, and the position behind it.
pub open spec fn i32_at(s: Seq<u8>, pos: int) -> Result<(i32, int), Error> {
    match u32_at(s, pos) {
        Ok((u, next)) => Ok((as_i32(u), next)),
        Err(e) => Err(e),
    }
}

/// The `i64` at `pos`, and the position behind it.
pub open spec fn i64_at(s: Seq<u8>, pos: int) -> Result<(i64, int), Error> {
    match u64_at(s, pos) {
        Ok((u, next)) => Ok((as_i64(u), next)),
        Err(e) => Err(e),
    }
}

/// `byteorder`'s `BigEndian::read_u16`: the number in the first two bytes of
/// `buf`, most significant byte first. It panics on a shorter slice.
#[verifier::external_body]
fn be_read_u16(buf: &[u8]) -> (r: u16)
    requires
        buf@.len() >= 2,
    ensures
        r == be_u16(buf@),
{
    BigEndian::read_u16(buf)
}

/// `byteorder`'s `BigEndian::read_u32`: the number in the first four bytes of
/// `buf`, most significant byte first. It panics on a shorter slice.
#[verifier::external_body]
fn be_read_u32(buf: &[u8]) -> (r: u32)
    requires
        buf@.len() >= 4,
    ensures
        r == be_u32(buf@),
{
    BigEndian::read_u32(buf)
}

/// `byteorder`'s `BigEndian::read_u64`: the number in the first eight bytes of
/// `buf`, most significant byte first. It panics on a shorter slice.
#[verifier::external_body]
fn be_read_u64(buf: &[u8]) -> (r: u64)
    requires
        buf@.len() >= 8,
    ensures
        r == be_u64(buf@),
{
    BigEndian::read_u64(buf)
}

/// `char::from_u32`: the `char` with the code point `v`, if there is one.
#[verifier::external_body]
fn char_from_u32(v: u32) -> (r: Option<char>)
    ensures
        r == (if mutf8::is_scalar(v) {
            Some(v as char)
        } else {
            None
        }),
{
    char::from_u32(v)
}

/// The `i8` with the bits of `u`.
fn reinterpret_i8(u: u8) -> (r: i8)
    ensures
        r == as_i8(u),
{
    assert(u as i8 == (if u < 0x80u8 { u as i8 } else { (u - 0x100) as i8 })) by (bit_vector);
    #[verifier::truncate]
    (u as i8)
}

/// The `i16` with the bits of `u`.
fn reinterpret_i16(u: u16) -> (r: i16)
    ensures
        r == as_i16(u),
{
    assert(u as i16 == (if u < 0x8000u16 { u as i16 } else { (u - 0x1_0000) as i16 })) by (bit_vector);
    #[verifier::truncate]
    (u as i16)
}

/// The `i32` with the bits of `u`.
fn reinterpret_i32(u: u32) -> (r: i32)
    ensures
        r == as_i32(u),
{
    assert(u as i32 == (if u < 0x8000_0000u32 { u as i32 } else { (u - 0x1_0000_0000) as i32 }))
        by (bit_vector);
    #[verifier::truncate]
    (u as i32)
}

/// The `i64` with the bits of `u`.
fn reinterpret_i64(u: u64) -> (r: i64)
    ensures
        r == as_i64(u),
{
    assert(u as i64 == (if u < 0x8000_0000_0000_0000u64 {
        u as i64
    } else {
        (u - 0x1_0000_0000_0000_0000) as i64
    })) by (bit_vector);
    #[verifier::truncate]
    (u as i64)
}

/// A reader over a byte slice, with a cursor and an upper limit.
///
/// Every read starts at the cursor, moves it forward, and fails with
/// `LimitExceeded` where it would pass the limit. The decoder holds the
/// bytes up to the limit: `limit` narrows them where they stand, and
/// `remove_limit` puts back what `limit` handed out. There is one cursor,
/// before, within and after a limit.
pub struct Decoder<'a> {
    bytes: &'a [u8],
    cursor: usize,
}

impl<'a> Decoder<'a> {
    /// The cursor lies within the limit.
    #[verifier::type_invariant]
    spec fn inv(self) -> bool {
        self.cursor <= self.bytes@.len()
    }

    /// The bytes that this decoder may read: the slice up to the limit.
    pub closed spec fn input(&self) -> Seq<u8> {
        self.bytes@
    }

    /// The cursor, as an offset into `input()`.
    pub closed spec fn pos(&self) -> int {
        self.cursor as int
    }

    /// What a read states: the input stays, and the result and the new
    /// position are those that the grammar `g` gives at the old position;
    /// where `g` gives an error, the cursor stays too.
    pub open spec fn yields<T>(
        before: Self,
        after: Self,
        r: Result<T, Error>,
        g: Result<(T, int), Error>,
    ) -> bool {
        &&& after.input() == before.input()
        &&& match g {
            Ok((v, next)) => r == Ok::<T, Error>(v) && after.pos() == next,
            Err(e) => r == Err::<T, Error>(e) && after.pos() == before.pos(),
        }
    }

    /// Creates a decoder over all of `bytes`, with the cursor at their start.
    pub fn new(bytes: &'a [u8]) -> (d: Decoder<'a>)
        ensures
            d.input() == bytes@,
            d.pos() == 0,
    {
        Decoder { bytes, cursor: 0 }
    }

    /// Limits the decoder to `to` bytes after the cursor, and leaves the
    /// cursor where it is. An error if fewer than `to` bytes are left.
    ///
    /// What comes back are the bytes that the decoder could read before:
    /// `remove_limit` takes them, and ends the limit.
    pub fn limit(&mut self, to: usize) -> (r: Result<&'a [u8], Error>)
        ensures
            final(self).pos() == old(self).pos(),
            match r {
                Ok(outer) => {
                    &&& old(self).pos() + to <= old(self).input().len()
                    &&& outer@ == old(self).input()
                    &&& final(self).input() == old(self).input().take(old(self).pos() + to)
                },
                Err(e) => {
                    &&& old(self).pos() + to > old(self).input().len()
                    &&& e == Error::LimitExceeded
                    &&& final(self).input() == old(self).input()
                },
            },
    {
        proof {
            use_type_invariant(&*self);
        }
        if to > self.bytes.len() - self.cursor {
            return Err(Error::LimitExceeded);
        }
        let outer = self.bytes;
        let end = self.cursor + to;
        let inner = slice_subrange(outer, 0, end);
        assert(inner@ =~= outer@.take(end as int));
        self.bytes = inner;
        Ok(outer)
    }

    /// Ends a limit: the decoder may read the bytes of `outer` again, which
    /// `limit` handed out. An error unless the cursor has reached the limit
    /// exactly; the cursor stays where it is in either case.
    ///
    /// Bytes that end before the cursor are not taken: the decoder then
    /// keeps those that it has.
    pub fn remove_limit(&mut self, outer: &'a [u8]) -> (r: Result<(), Error>)
        ensures
            old(self).pos() <= old(self).input().len(),
            final(self).pos() == old(self).pos(),
            final(self).input() == (if old(self).pos() <= outer@.len() {
                outer@
            } else {
                old(self).input()
            }),
            r == (if old(self).pos() == old(self).input().len() {
                Ok::<(), Error>(())
            } else {
                Err::<(), Error>(Error::LimitExceeded)
            }),
    {
        proof {
            use_type_invariant(&*self);
        }
        let reached = self.bytes.len() == self.cursor;
        if self.cursor <= outer.len() {
            self.bytes = outer;
        }
        if reached {
            Ok(())
        } else {
            Err(Error::LimitExceeded)
        }
    }

    /// Whether the cursor has reached the limit.
    pub fn at_limit(&self) -> (b: bool)
        ensures
            b == (self.pos() == self.input().len()),
    {
        proof {
            use_type_invariant(self);
        }
        self.bytes.len() == self.cursor
    }

    /// Skips `to` bytes; an error if that exceeds the limit.
    pub fn skip(&mut self, to: usize) -> (r: Result<(), Error>)
        ensures
            Self::yields(*old(self), *final(self), r, skip_at(old(self).input(), old(self).pos(), to as int)),
    {
        proof {
            use_type_invariant(&*self);
        }
        self.check(to)?;
        self.cursor = self.cursor + to;
        Ok(())
    }

    /// Returns the current cursor.
    pub fn cursor(&self) -> (c: usize)
        ensures
            c == self.pos(),
            c <= self.input().len(),
    {
        proof {
            use_type_invariant(self);
        }
        self.cursor
    }

    /// Reads `count` bytes. If not enough bytes are left, an error is returned.
    pub fn read_bytes(&mut self, count: usize) -> (r: Result<&'a [u8], Error>)
        ensures
            final(self).input() == old(self).input(),
            match bytes_at(old(self).input(), old(self).pos(), count as int) {
                Ok((b, next)) => r is Ok && r->Ok_0@ == b && final(self).pos() == next,
                Err(e) => r == Err::<&[u8], Error>(e) && final(self).pos() == old(self).pos(),
            },
    {
        proof {
            use_type_invariant(&*self);
        }
        self.check(count)?;
        let end = self.cursor + count;
        let bytes = slice_subrange(self.bytes, self.cursor, end);
        assert(bytes@ =~= self.input().subrange(self.cursor as int, end as int));
        self.cursor = end;
        Ok(bytes)
    }

    /// Reads a `u8`.
    pub fn read_u8(&mut self) -> (r: Result<u8, Error>)
        ensures
            Self::yields(*old(self), *final(self), r, u8_at(old(self).input(), old(self).pos())),
    {
        let b = self.read_bytes(1)?;
        Ok(b[0])
    }

    /// Reads a `u16`, most significant byte first.
    pub fn read_u16(&mut self) -> (r: Result<u16, Error>)
        ensures
            Self::yields(*old(self), *final(self), r, u16_at(old(self).input(), old(self).pos())),
    {
        let b = self.read_bytes(2)?;
        Ok(be_read_u16(b))
    }

    /// Reads a `u32`, most significant byte first.
    pub fn read_u32(&mut self) -> (r: Result<u32, Error>)
        ensures
            Self::yields(*old(self), *final(self), r, u32_at(old(self).input(), old(self).pos())),
    {
        let b = self.read_bytes(4)?;
        Ok(be_read_u32(b))
    }

    /// Reads a `u64`, most significant byte first.
    pub fn read_u64(&mut self) -> (r: Result<u64, Error>)
        ensures
            Self::yields(*old(self), *final(self), r, u64_at(old(self).input(), old(self).pos())),
    {
        let b = self.read_bytes(8)?;
        Ok(be_read_u64(b))
    }

    /// Reads an `i8`.
    pub fn read_i8(&mut self) -> (r: Result<i8, Error>)
        ensures
            Self::yields(*old(self), *final(self), r, i8_at(old(self).input(), old(self).pos())),
    {
        let u = self.read_u8()?;
        Ok(reinterpret_i8(u))
    }

    /// Reads an `i16`, most significant byte first.
    pub fn read_i16(&mut self) -> (r: Result<i16, Error>)
        ensures
            Self::yields(*old(self), *final(self), r, i16_at(old(self).input(), old(self).pos())),
    {
        let u = self.read_u16()?;
        Ok(reinterpret_i16(u))
    }

    /// Reads an `i32`, most significant byte first.
    pub fn read_i32(&mut self) -> (r: Result<i32, Error>)
        ensures
            Self::yields(*old(self), *final(self), r, i32_at(old(self).input(), old(self).pos())),
    {
        let u = self.read_u32()?;
        Ok(reinterpret_i32(u))
    }

    /// Reads an `i64`, most significant byte first.
    pub fn read_i64(&mut self) -> (r: Result<i64, Error>)
        ensures
            Self::yields(*old(self), *final(self), r, i64_at(old(self).input(), old(self).pos())),
    {
        let u = self.read_u64()?;
        Ok(reinterpret_i64(u))
    }

    /// Reads the four bytes of a `float` and returns its bit pattern.
    pub fn read_f32(&mut self) -> (r: Result<u32, Error>)
        ensures
            Self::yields(*old(self), *final(self), r, u32_at(old(self).input(), old(self).pos())),
    {
        self.read_u32()
    }

    /// Reads the eight bytes of a `double` and returns its bit pattern.
    pub fn read_f64(&mut self) -> (r: Result<u64, Error>)
        ensures
            Self::yields(*old(self), *final(self), r, u64_at(old(self).input(), old(self).pos())),
    {
        self.read_u64()
    }

    /// Decodes a modified UTF-8 string.
    /// `length` is the number of bytes that the string was encoded in,
    /// which may differ from the number of its chars.
    pub fn read_str(&mut self, length: usize) -> (r: Result<String, Error>)
        ensures
            final(self).input() == old(self).input(),
            match mutf8::decode(old(self).input(), old(self).pos(), length as int) {
                Ok((chars, next)) => r is Ok && r->Ok_0@ == chars && final(self).pos() == next,
                Err(e) => r == Err::<String, Error>(e),
            },
    {
        let mut out = String::new();
        let mut i = length;
        while i > 0
            invariant
                self.input() == old(self).input(),
                mutf8::decode_from(self.input(), self.pos(), i as int, out@) == mutf8::decode(
                    old(self).input(),
                    old(self).pos(),
                    length as int,
                ),
            decreases i,
        {
            let ghost s = self.input();
            let ghost p = self.pos();
            let r1 = self.read_u8()? as u32;
            let v: u32 = if r1 != 0 && r1 < 0x80 {
                i -= 1;
                r1
            } else if r1 >= 0xC0 && r1 < 0xE0 && i >= 2 {
                i -= 2;
                let r2 = self.read_u8()? as u32;
                assert(((r1 & 0x1F) << 6) < 0x1_0000) by (bit_vector);
                (r1 & 0x1F) << 6 | (r2 & 0x3F)
            } else if r1 >= 0xE0 && r1 < 0xF0 && i >= 3 {
                i -= 3;
                let r2 = self.read_u8()? as u32;
                let r3 = self.read_u8()? as u32;
                if r1 == 0xED && r2 >= 0xA0 && r2 <= 0xAF {
                    if i >= 3 {
                        i -= 3;
                        self.read_u8()?;
                        let r5 = self.read_u8()? as u32;
                        let r6 = self.read_u8()? as u32;
                        assert(((r2 & 0x0F) << 16) <= 0xF_0000 && ((r3 & 0x3F) << 10) <= 0xFC00 && ((
                        r5 & 0x0F) << 6) <= 0x3C0 && (r6 & 0x3F) <= 0x3F) by (bit_vector);
                        0x1_0000 + ((r2 & 0x0F) << 16) + ((r3 & 0x3F) << 10) + ((r5 & 0x0F) << 6) + (r6
                            & 0x3F)
                    } else {
                        return Err(Error::InvalidUTF8);
                    }
                } else {
                    assert(((r1 & 0x0F) << 12) <= 0xF000 && ((r2 & 0x3F) << 6) <= 0xFC0 && (r3 & 0x3F)
                        <= 0x3F) by (bit_vector);
                    ((r1 & 0x0F) << 12) + ((r2 & 0x3F) << 6) + (r3 & 0x3F)
                }
            } else {
                return Err(Error::InvalidUTF8);
            };
            let ch = match char_from_u32(v) {
                Some(ch) => ch,
                None => {
                    return Err(Error::InvalidUTF8);
                },
            };
            string_push(&mut out, ch);
        }
        Ok(out)
    }

    /// `Ok` where `count` more bytes lie before the limit.
    fn check(&self, count: usize) -> (r: Result<(), Error>)
        ensures
            self.input().len() <= usize::MAX,
            r == (if self.pos() + count <= self.input().len() {
                Ok::<(), Error>(())
            } else {
                Err::<(), Error>(Error::LimitExceeded)
            }),
    {
        proof {
            use_type_invariant(self);
        }
        if count <= self.bytes.len() - self.cursor {
            Ok(())
        } else {
            Err(Error::LimitExceeded)
        }
    }
}

} // verus!
