//! The `encode` module encodes simple data: integers and strings.

use vstd::prelude::*;
use vstd::array::array_as_slice;
use vstd::std_specs::iter::IteratorSpec;
use byteorder::{BigEndian, ByteOrder};
use super::super::mutf8;
use super::super::parser::decode::{as_i16, as_i32, as_i64, as_i8, be_u16, be_u32, be_u64};

verus! {

/// The two bytes of `n`, most significant first.
pub open spec fn u16_bytes(n: u16) -> Seq<u8> {
    seq![(n / 0x100) as u8, (n % 0x100) as u8]
}

/// The four bytes of `n`, most significant first.
pub open spec fn u32_bytes(n: u32) -> Seq<u8> {
    seq![
        (n / 0x100_0000) as u8,
        (n / 0x1_0000 % 0x100) as u8,
        (n / 0x100 % 0x100) as u8,
        (n % 0x100) as u8,
    ]
}

/// The eight bytes of `n`, most significant first.
pub open spec fn u64_bytes(n: u64) -> Seq<u8> {
    u32_bytes((n / 0x1_0000_0000) as u32) + u32_bytes((n % 0x1_0000_0000) as u32)
}

/// The unsigned number with the bits of `i` (two's complement).
pub open spec fn as_u8(i: i8) -> u8 {
    if i >= 0 {
        i as u8
    } else {
        (i + 0x100) as u8
    }
}

/// The unsigned number with the bits of `i` (two's complement).
pub open spec fn as_u16(i: i16) -> u16 {
    if i >= 0 {
        i as u16
    } else {
        (i + 0x1_0000) as u16
    }
}

/// The unsigned number with the bits of `i` (two's complement).
pub open spec fn as_u32(i: i32) -> u32 {
    if i >= 0 {
        i as u32
    } else {
        (i + 0x1_0000_0000) as u32
    }
}

/// The unsigned number with the bits of `i` (two's complement).
pub open spec fn as_u64(i: i64) -> u64 {
    if i >= 0 {
        i as u64
    } else {
        (i + 0x1_0000_0000_0000_0000) as u64
    }
}

/// The bytes that a number is written as are read as the number.
pub proof fn lemma_unsigned_round_trip(a: u16, b: u32, c: u64)
    ensures
        be_u16(u16_bytes(a)) == a,
        be_u32(u32_bytes(b)) == b,
        be_u64(u64_bytes(c)) == c,
{
    let hi = (c / 0x1_0000_0000) as u32;
    let lo = (c % 0x1_0000_0000) as u32;
    assert(be_u32(u32_bytes(hi)) == hi);
    assert(be_u32(u32_bytes(lo)) == lo);
    assert(u64_bytes(c).subrange(0, 4) =~= u32_bytes(hi));
    assert(u64_bytes(c).subrange(4, 8) =~= u32_bytes(lo));
}

/// The unsigned number with the bits of a signed one is read as the signed one.
pub proof fn lemma_signed_round_trip(a: i8, b: i16, c: i32, d: i64)
    ensures
        as_i8(as_u8(a)) == a,
        as_i16(as_u16(b)) == b,
        as_i32(as_u32(c)) == c,
        as_i64(as_u64(d)) == d,
{
}

/// `byteorder`'s `BigEndian::write_u16`, on a buffer of two bytes: they hold
/// `n`, most significant byte first.
#[verifier::external_body]
fn be_write_u16(n: u16) -> (r: [u8; 2])
    ensures
        r@ == u16_bytes(n),
{
    let mut buf: [u8; 2] = [0; 2];
    BigEndian::write_u16(&mut buf, n);
    buf
}

/// `byteorder`'s `BigEndian::write_u32`, on a buffer of four bytes: they hold
/// `n`, most significant byte first.
#[verifier::external_body]
fn be_write_u32(n: u32) -> (r: [u8; 4])
    ensures
        r@ == u32_bytes(n),
{
    let mut buf: [u8; 4] = [0; 4];
    BigEndian::write_u32(&mut buf, n);
    buf
}

/// `byteorder`'s `BigEndian::write_u64`, on a buffer of eight bytes: they hold
/// `n`, most significant byte first.
#[verifier::external_body]
fn be_write_u64(n: u64) -> (r: [u8; 8])
    ensures
        r@ == u64_bytes(n),
{
    let mut buf: [u8; 8] = [0; 8];
    BigEndian::write_u64(&mut buf, n);
    buf
}

/// `byteorder`'s `BigEndian::write_i16`, on a buffer of two bytes: they hold
/// the two's complement of `n`, most significant byte first.
#[verifier::external_body]
fn be_write_i16(n: i16) -> (r: [u8; 2])
    ensures
        r@ == u16_bytes(as_u16(n)),
{
    let mut buf: [u8; 2] = [0; 2];
    BigEndian::write_i16(&mut buf, n);
    buf
}

/// `byteorder`'s `BigEndian::write_i32`, on a buffer of four bytes: they hold
/// the two's complement of `n`, most significant byte first.
#[verifier::external_body]
fn be_write_i32(n: i32) -> (r: [u8; 4])
    ensures
        r@ == u32_bytes(as_u32(n)),
{
    let mut buf: [u8; 4] = [0; 4];
    BigEndian::write_i32(&mut buf, n);
    buf
}

/// `byteorder`'s `BigEndian::write_i64`, on a buffer of eight bytes: they hold
/// the two's complement of `n`, most significant byte first.
#[verifier::external_body]
fn be_write_i64(n: i64) -> (r: [u8; 8])
    ensures
        r@ == u64_bytes(as_u64(n)),
{
    let mut buf: [u8; 8] = [0; 8];
    BigEndian::write_i64(&mut buf, n);
    buf
}

/// Encodes primitive types to a byte vector.
pub struct Encoder {
    buf: Vec<u8>,
}

impl View for Encoder {
    type V = Seq<u8>;

    /// The bytes written so far.
    closed spec fn view(&self) -> Seq<u8> {
        self.buf@
    }
}

impl Encoder {
    /// An empty encoder.
    pub fn new() -> (e: Encoder)
        ensures
            e@ == Seq::<u8>::empty(),
    {
        Encoder { buf: Vec::new() }
    }

    /// An empty encoder with room for `cap` bytes.
    pub fn with_capacity(cap: usize) -> (e: Encoder)
        ensures
            e@ == Seq::<u8>::empty(),
    {
        Encoder { buf: Vec::with_capacity(cap) }
    }

    /// The number of bytes written.
    pub fn len(&self) -> (n: usize)
        ensures
            n == self@.len(),
    {
        self.buf.len()
    }

    /// The bytes written.
    pub fn bytes(self) -> (b: Vec<u8>)
        ensures
            b@ == self@,
    {
        self.buf
    }

    /// Writes a byte slice to the buffer.
    pub fn write_bytes(&mut self, bytes: &[u8])
        ensures
            final(self)@ == old(self)@ + bytes@,
    {
        self.buf.extend_from_slice(bytes);
    }

    /// Writes a u8 to the buffer.
    pub fn write_u8(&mut self, u: u8)
        ensures
            final(self)@ == old(self)@.push(u),
    {
        self.buf.push(u);
    }

    /// Writes a u16 to the buffer.
    pub fn write_u16(&mut self, u: u16)
        ensures
            final(self)@ == old(self)@ + u16_bytes(u),
    {
        let buf = be_write_u16(u);
        self.write_bytes(array_as_slice(&buf));
    }

    /// Writes a u32 to the buffer.
    pub fn write_u32(&mut self, u: u32)
        ensures
            final(self)@ == old(self)@ + u32_bytes(u),
    {
        let buf = be_write_u32(u);
        self.write_bytes(array_as_slice(&buf));
    }

    /// Writes a u64 to the buffer.
    pub fn write_u64(&mut self, u: u64)
        ensures
            final(self)@ == old(self)@ + u64_bytes(u),
    {
        let buf = be_write_u64(u);
        self.write_bytes(array_as_slice(&buf));
    }

    /// Writes an i8 to the buffer.
    pub fn write_i8(&mut self, u: i8)
        ensures
            final(self)@ == old(self)@.push(as_u8(u)),
    {
        assert(u as u8 == (if u >= 0i8 { u as u8 } else { (u + 0x100) as u8 })) by (bit_vector);
        self.buf.push(
            #[verifier::truncate]
            (u as u8),
        );
    }

    /// Writes an i16 to the buffer.
    pub fn write_i16(&mut self, u: i16)
        ensures
            final(self)@ == old(self)@ + u16_bytes(as_u16(u)),
    {
        let buf = be_write_i16(u);
        self.write_bytes(array_as_slice(&buf));
    }

    /// Writes an i32 to the buffer.
    pub fn write_i32(&mut self, u: i32)
        ensures
            final(self)@ == old(self)@ + u32_bytes(as_u32(u)),
    {
        let buf = be_write_i32(u);
        self.write_bytes(array_as_slice(&buf));
    }

    /// Writes an i64 to the buffer.
    pub fn write_i64(&mut self, u: i64)
        ensures
            final(self)@ == old(self)@ + u64_bytes(as_u64(u)),
    {
        let buf = be_write_i64(u);
        self.write_bytes(array_as_slice(&buf));
    }

    /// Writes a `float`, given by its bit pattern, to the buffer.
    pub fn write_f32(&mut self, bits: u32)
        ensures
            final(self)@ == old(self)@ + u32_bytes(bits),
    {
        self.write_u32(bits);
    }

    /// Writes a `double`, given by its bit pattern, to the buffer.
    pub fn write_f64(&mut self, bits: u64)
        ensures
            final(self)@ == old(self)@ + u64_bytes(bits),
    {
        self.write_u64(bits);
    }

    /// Writes a modified UTF-8 string to the buffer.
    pub fn write_str(&mut self, s: &str)
        ensures
            final(self)@ == old(self)@ + mutf8::encode(s@),
    {
        broadcast use vstd::string::group_string_axioms;

        let mut it = s.chars();
        loop
            invariant
                it.obeys_prophetic_iter_laws(),
                it.decrease() is Some,
                self@ + mutf8::encode(it.remaining()) == old(self)@ + mutf8::encode(s@),
            ensures
                self@ == old(self)@ + mutf8::encode(s@),
            decreases it.decrease()->0,
        {
            let ghost rest = it.remaining();
            let ghost before = self@;
            let c = match it.next() {
                Some(c) => c,
                None => {
                    break ;
                },
            };
            let u = c as u32;
            if u != 0x00 && u < 0x80 {
                self.buf.push(u as u8);
            } else if u < 0x0800 {
                assert((0xC0 | ((u >> 6) & 0x1F)) <= 0xFF && (0x80 | (u & 0x3F)) <= 0xFF)
                    by (bit_vector);
                self.buf.push((0xC0 | ((u >> 6) & 0x1F)) as u8);
                self.buf.push((0x80 | (u & 0x3F)) as u8);
            } else if u < 0x1_0000 {
                assert((0xE0 | ((u >> 12) & 0x0F)) <= 0xFF && (0x80 | ((u >> 6) & 0x3F)) <= 0xFF && (
                0x80 | (u & 0x3F)) <= 0xFF) by (bit_vector);
                self.buf.push((0xE0 | ((u >> 12) & 0x0F)) as u8);
                self.buf.push((0x80 | ((u >> 6) & 0x3F)) as u8);
                self.buf.push((0x80 | (u & 0x3F)) as u8);
            } else {
                let v: u32 = u - 0x1_0000;
                assert((0xA0 | ((v >> 16) & 0x0F)) <= 0xFF && (0x80 | ((v >> 10) & 0x3F)) <= 0xFF && (
                0xB0 | ((v >> 6) & 0x0F)) <= 0xFF && (0x80 | (v & 0x3F)) <= 0xFF) by (bit_vector);
                self.buf.push(0xED);
                self.buf.push((0xA0 | ((v >> 16) & 0x0F)) as u8);
                self.buf.push((0x80 | ((v >> 10) & 0x3F)) as u8);
                self.buf.push(0xED);
                self.buf.push((0xB0 | ((v >> 6) & 0x0F)) as u8);
                self.buf.push((0x80 | (v & 0x3F)) as u8);
            }
            assert(self@ =~= before + mutf8::encode_scalar(c as u32));
            assert(before + mutf8::encode(rest) =~= self@ + mutf8::encode(rest.drop_first()));
        }
    }
}

} // verus!
