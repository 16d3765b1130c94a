//! What the writers' contracts are written in: the bytes that a value is
//! written as, or the error that it cannot be written for.

use vstd::prelude::*;
use super::super::result::Error;
use super::encode::{u16_bytes, u32_bytes, Encoder};

verus! {

/// The bytes that a value is written as, or why it cannot be written.
pub type Written = Result<Seq<u8>, Error>;

/// How a value of `T` is written.
pub type Format<T> = spec_fn(T) -> Written;

/// `a`, and behind it `b`; the first error of the two.
pub open spec fn then(a: Written, b: Written) -> Written {
    match a {
        Ok(x) => match b {
            Ok(y) => Ok(x + y),
            Err(e) => Err(e),
        },
        Err(e) => Err(e),
    }
}

/// The values of `v` from `from` on, each written by `item`, behind `acc`.
pub open spec fn each<T>(item: Format<T>, v: Seq<T>, from: int, acc: Seq<u8>) -> Written
    decreases v.len() - from,
{
    if from < 0 || from >= v.len() {
        Ok(acc)
    } else {
        match item(v[from]) {
            Ok(bytes) => each(item, v, from + 1, acc + bytes),
            Err(e) => Err(e),
        }
    }
}

/// The values from `from` on are the value at `from`, and then the others.
pub proof fn lemma_each_step<T>(item: Format<T>, v: Seq<T>, from: int, acc: Seq<u8>)
    requires
        0 <= from < v.len(),
    ensures
        each(item, v, from, acc) == match item(v[from]) {
            Ok(bytes) => each(item, v, from + 1, acc + bytes),
            Err(e) => Err(e),
        },
{
}

/// The values of `v`, each written by `item`, one behind the other.
pub open spec fn all<T>(item: Format<T>, v: Seq<T>) -> Written {
    each(item, v, 0, Seq::empty())
}

/// A count in one byte: more than 255 cannot be written.
pub open spec fn count8(n: nat) -> Written {
    if n <= 0xFF {
        Ok(seq![n as u8])
    } else {
        Err(Error::LimitExceeded)
    }
}

/// A count in two bytes: more than 65535 cannot be written.
pub open spec fn count16(n: nat) -> Written {
    if n <= 0xFFFF {
        Ok(u16_bytes(n as u16))
    } else {
        Err(Error::LimitExceeded)
    }
}

/// A length in four bytes: more than `u32::MAX` cannot be written.
pub open spec fn count32(n: nat) -> Written {
    if n <= 0xFFFF_FFFF {
        Ok(u32_bytes(n as u32))
    } else {
        Err(Error::LimitExceeded)
    }
}

/// A count of one byte, and then the values.
pub open spec fn counted8<T>(item: Format<T>, v: Seq<T>) -> Written {
    then(count8(v.len()), all(item, v))
}

/// A count of two bytes, and then the values.
pub open spec fn counted16<T>(item: Format<T>, v: Seq<T>) -> Written {
    then(count16(v.len()), all(item, v))
}

/// A `u16`, as a value that is written.
pub open spec fn u16_format() -> Format<u16> {
    |n: u16| Ok::<Seq<u8>, Error>(u16_bytes(n))
}

/// What a writer states: either `g` gave bytes, and they now stand behind
/// what the encoder held, or `g` gave an error, and that is returned.
pub open spec fn wrote(before: Encoder, after: Encoder, r: Result<(), Error>, g: Written) -> bool {
    match g {
        Ok(bytes) => r is Ok && after@ == before@ + bytes,
        Err(e) => r == Err::<(), Error>(e),
    }
}

/// Writes a count of one byte.
pub fn write_count8(encoder: &mut Encoder, n: usize) -> (r: Result<(), Error>)
    ensures
        wrote(*old(encoder), *final(encoder), r, count8(n as nat)),
{
    if n > 0xFF {
        return Err(Error::LimitExceeded);
    }
    encoder.write_u8(n as u8);
    assert(final(encoder)@ =~= old(encoder)@ + seq![n as u8]);
    Ok(())
}

/// Writes a count of two bytes.
pub fn write_count16(encoder: &mut Encoder, n: usize) -> (r: Result<(), Error>)
    ensures
        wrote(*old(encoder), *final(encoder), r, count16(n as nat)),
{
    if n > 0xFFFF {
        return Err(Error::LimitExceeded);
    }
    encoder.write_u16(n as u16);
    Ok(())
}

/// Writes a length of four bytes.
pub fn write_count32(encoder: &mut Encoder, n: usize) -> (r: Result<(), Error>)
    ensures
        wrote(*old(encoder), *final(encoder), r, count32(n as nat)),
{
    if n > 0xFFFF_FFFF {
        return Err(Error::LimitExceeded);
    }
    encoder.write_u32(n as u32);
    Ok(())
}

/// Writes a count of two bytes, and then that many `u16`.
#[verifier::loop_isolation(false)]
pub fn write_u16_list(encoder: &mut Encoder, list: &Vec<u16>) -> (r: Result<(), Error>)
    ensures
        wrote(*old(encoder), *final(encoder), r, counted16(u16_format(), list@)),
{
    write_count16(encoder, list.len())?;
    let ghost base = encoder@;
    let ghost mut written = Seq::<u8>::empty();
    assert(encoder@ =~= base + written);
    let mut i: usize = 0;
    while i < list.len()
        invariant
            i <= list@.len(),
            encoder@ == base + written,
            all(u16_format(), list@) == each(u16_format(), list@, i as int, written),
        decreases list@.len() - i,
    {
        encoder.write_u16(list[i]);
        proof {
            written = written + u16_bytes(list@[i as int]);
            assert(encoder@ =~= base + written);
        }
        i += 1;
    }
    assert(encoder@ =~= old(encoder)@ + (u16_bytes(list@.len() as u16) + written));
    Ok(())
}

} // verus!
