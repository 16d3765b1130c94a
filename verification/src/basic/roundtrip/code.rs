//! Instructions are read as they were written.

use vstd::prelude::*;
use super::super::constpool::Slots;
use super::{holds_at, lemma_between, lemma_split, lemma_within};
use super::super::parser::code::{
    array_type, padded, instruction_at, instructions_from, lemma_instruction_advances, local,
    lookup_switch_at, match_pairs_at, offsets_at, operands_at, padding, pool_operand, short_operand,
    simple, table_size, table_switch_at, wide_at,
};
use super::super::parser::decode::{as_i8, i16_at, i32_at, i8_at, u16_at, u8_at};
use super::super::parser::grammar::{fits, u16_in};
use super::super::result::Error;
use super::super::tree::{Instruction, InstructionView};
use super::super::writer::code::{
    array_type_byte, code_bytes, empty_run, entry_bytes, i32_bytes, instruction_bytes,
    jump_bytes, lemma_pairs_bytes_behind, local_bytes, local_opcode, long_bytes, long_of_size,
    offsets_bytes, pairs_between, pairs_bytes, plain_bytes, pool_opcode, short_opcode,
    simple_opcode, sorted_pairs, zeros,
};
use super::super::writer::encode::{
    as_u16, as_u32, as_u8, lemma_signed_round_trip, lemma_unsigned_round_trip, u16_bytes, u32_bytes,
};

verus! {

/// A byte that stands in the input is read as it stands.
pub proof fn lemma_read_u8(s: Seq<u8>, pos: int, b: u8)
    requires
        0 <= pos < s.len(),
        s[pos] == b,
    ensures
        u8_at(s, pos) == Ok::<(u8, int), Error>((b, pos + 1)),
        i8_at(s, pos) == Ok::<(i8, int), Error>((as_i8(b), pos + 1)),
{
    assert(s.subrange(pos, pos + 1)[0] == s[pos]);
}

/// Two bytes that a number was written as are read as the number.
pub proof fn lemma_read_u16(s: Seq<u8>, pos: int, n: u16)
    requires
        0 <= pos,
        pos + 2 <= s.len(),
        s.subrange(pos, pos + 2) == u16_bytes(n),
    ensures
        u16_at(s, pos) == Ok::<(u16, int), Error>((n, pos + 2)),
        u16_in(s, pos) == n,
{
    lemma_unsigned_round_trip(n, 0, 0);
}

/// Two bytes that a signed number was written as are read as the number.
pub proof fn lemma_read_i16(s: Seq<u8>, pos: int, n: i16)
    requires
        0 <= pos,
        pos + 2 <= s.len(),
        s.subrange(pos, pos + 2) == u16_bytes(as_u16(n)),
    ensures
        i16_at(s, pos) == Ok::<(i16, int), Error>((n, pos + 2)),
{
    lemma_read_u16(s, pos, as_u16(n));
    lemma_signed_round_trip(0, n, 0, 0);
}

/// Four bytes that a signed number was written as are read as the number.
pub proof fn lemma_read_i32(s: Seq<u8>, pos: int, n: i32)
    requires
        0 <= pos,
        pos + 4 <= s.len(),
        s.subrange(pos, pos + 4) == i32_bytes(n),
    ensures
        i32_at(s, pos) == Ok::<(i32, int), Error>((n, pos + 4)),
{
    lemma_unsigned_round_trip(0, as_u32(n), 0);
    lemma_signed_round_trip(0, 0, n, 0);
}

/// The part of `pre + bytes + post` that is `bytes`.
pub proof fn lemma_middle(pre: Seq<u8>, bytes: Seq<u8>, post: Seq<u8>, from: int, to: int)
    requires
        0 <= from <= to <= bytes.len(),
    ensures
        (pre + bytes + post).subrange(pre.len() + from, pre.len() + to) == bytes.subrange(from, to),
        forall|i: int| 0 <= i < bytes.len() ==> (pre + bytes + post)[pre.len() + i] == bytes[i],
{
    assert((pre + bytes + post).subrange(pre.len() + from, pre.len() + to) =~= bytes.subrange(
        from,
        to,
    ));
}

/// An instruction that stands alone is read as it was written.
proof fn lemma_read_simple(insn: Instruction, s: Seq<u8>, pos: int, at: u32)
    requires
        simple_opcode(insn) is Some,
        0 <= pos < s.len(),
        s[pos] == simple_opcode(insn)->Some_0,
    ensures
        instruction_at(s, pos, at) == Ok::<(InstructionView, int), Error>(
            (InstructionView::Plain(insn), pos + 1),
        ),
{
    reveal(simple);
    reveal(simple_opcode);
    lemma_read_u8(s, pos, s[pos]);
}

/// An instruction with a signed 16-bit value is read as it was written.
proof fn lemma_read_short(insn: Instruction, s: Seq<u8>, pos: int, at: u32)
    requires
        short_opcode(insn) is Some,
        0 <= pos,
        pos + 3 <= s.len(),
        s[pos] == short_opcode(insn)->Some_0.0,
        s.subrange(pos + 1, pos + 3) == u16_bytes(as_u16(short_opcode(insn)->Some_0.1)),
    ensures
        instruction_at(s, pos, at) == Ok::<(InstructionView, int), Error>(
            (InstructionView::Plain(insn), pos + 3),
        ),
{
    reveal(simple);
    reveal(short_operand);
    reveal(short_opcode);
    lemma_read_u8(s, pos, s[pos]);
    lemma_read_i16(s, pos + 1, short_opcode(insn)->Some_0.1);
}

/// An instruction with a constant pool index of two bytes is read as it
/// was written.
proof fn lemma_read_pool(insn: Instruction, s: Seq<u8>, pos: int, at: u32)
    requires
        pool_opcode(insn) is Some,
        0 <= pos,
        pos + 3 <= s.len(),
        s[pos] == pool_opcode(insn)->Some_0.0,
        s.subrange(pos + 1, pos + 3) == u16_bytes(pool_opcode(insn)->Some_0.1),
    ensures
        instruction_at(s, pos, at) == Ok::<(InstructionView, int), Error>(
            (InstructionView::Plain(insn), pos + 3),
        ),
{
    reveal(simple);
    reveal(short_operand);
    reveal(local);
    reveal(pool_operand);
    reveal(pool_opcode);
    lemma_read_u8(s, pos, s[pos]);
    lemma_read_u16(s, pos + 1, pool_opcode(insn)->Some_0.1);
}

/// An instruction on a local variable is read as it was written, in its
/// short form and behind the `wide` prefix.
proof fn lemma_read_local(insn: Instruction, s: Seq<u8>, pos: int, at: u32)
    requires
        local_opcode(insn) is Some,
        0 <= pos,
        pos + local_bytes(local_opcode(insn)->Some_0.0, local_opcode(insn)->Some_0.1).len()
            <= s.len(),
        s.subrange(
            pos,
            pos + local_bytes(local_opcode(insn)->Some_0.0, local_opcode(insn)->Some_0.1).len(),
        ) == local_bytes(local_opcode(insn)->Some_0.0, local_opcode(insn)->Some_0.1),
    ensures
        instruction_at(s, pos, at) == Ok::<(InstructionView, int), Error>(
            (
                InstructionView::Plain(insn),
                pos + local_bytes(local_opcode(insn)->Some_0.0, local_opcode(insn)->Some_0.1).len(),
            ),
        ),
{
    reveal(simple);
    reveal(short_operand);
    reveal(local);
    reveal(local_opcode);
    reveal(pool_operand);
    let (op, index) = local_opcode(insn)->Some_0;
    let bytes = local_bytes(op, index);
    let part = s.subrange(pos, pos + bytes.len());
    assert(forall|i: int| 0 <= i < bytes.len() ==> s[pos + i] == #[trigger] part[i]);
    if index <= 0xFF {
        assert(s[pos] == bytes[0] && s[pos + 1] == bytes[1]);
        lemma_read_u8(s, pos, op);
        lemma_read_u8(s, pos + 1, index as u8);
    } else {
        assert(s[pos] == bytes[0] && s[pos + 1] == bytes[1]);
        lemma_read_u8(s, pos, 0xC4);
        lemma_read_u8(s, pos + 1, op);
        assert(s[pos + 2] == part[2] && s[pos + 3] == part[3]);
        assert(bytes[2] == u16_bytes(index)[0] && bytes[3] == u16_bytes(index)[1]);
        assert(s.subrange(pos + 2, pos + 4) =~= u16_bytes(index));
        lemma_read_u16(s, pos + 2, index);
    }
}

/// What the opcodes lead to that stand in no table.
proof fn lemma_other_opcodes(s: Seq<u8>, p: int, at: u32)
    ensures
        operands_at(s, p, 0x10, at) == super::super::parser::grammar::mapped(
            i8_at(s, p),
            |value: i8| InstructionView::Plain(Instruction::BIPush(value)),
        ),
        operands_at(s, p, 0x12, at) == super::super::parser::grammar::mapped(
            u8_at(s, p),
            |index: u8| InstructionView::Plain(Instruction::LDC(index as u16)),
        ),
        operands_at(s, p, 0x13, at) == operands_at(s, p, 0x14, at),
        operands_at(s, p, 0x14, at) == super::super::parser::grammar::mapped(
            u16_at(s, p),
            |index: u16| InstructionView::Plain(Instruction::LDC(index)),
        ),
        operands_at(s, p, 0x84, at) == (if fits(s, p, 2) {
            Ok::<(InstructionView, int), Error>(
                (InstructionView::Plain(Instruction::IInc(s[p] as u16, as_i8(s[p + 1]) as i16)), p + 2),
            )
        } else {
            Err::<(InstructionView, int), Error>(Error::LimitExceeded)
        }),
        operands_at(s, p, 0xA7, at) == super::super::parser::grammar::mapped(
            i16_at(s, p),
            |offset: i16| InstructionView::Plain(Instruction::GoTo(offset as i32)),
        ),
        operands_at(s, p, 0xA8, at) == super::super::parser::grammar::mapped(
            i16_at(s, p),
            |offset: i16| InstructionView::Plain(Instruction::JSR(offset as i32)),
        ),
        operands_at(s, p, 0xB9, at) == (if fits(s, p, 4) {
            Ok::<(InstructionView, int), Error>(
                (InstructionView::Plain(Instruction::InvokeInterface(u16_in(s, p), s[p + 2])), p + 4),
            )
        } else {
            Err::<(InstructionView, int), Error>(Error::LimitExceeded)
        }),
        operands_at(s, p, 0xBA, at) == (if fits(s, p, 4) {
            Ok::<(InstructionView, int), Error>(
                (InstructionView::Plain(Instruction::InvokeDynamic(u16_in(s, p))), p + 4),
            )
        } else {
            Err::<(InstructionView, int), Error>(Error::LimitExceeded)
        }),
        operands_at(s, p, 0xBC, at) == (match u8_at(s, p) {
            Ok((atype, next)) => match array_type(atype) {
                Some(t) => Ok::<(InstructionView, int), Error>(
                    (InstructionView::Plain(Instruction::NewArray(t)), next),
                ),
                None => Err::<(InstructionView, int), Error>(
                    Error::InvalidInstruction { op_code: 0xBC, at },
                ),
            },
            Err(e) => Err::<(InstructionView, int), Error>(e),
        }),
        operands_at(s, p, 0xC4, at) == wide_at(s, p, at),
        operands_at(s, p, 0xC5, at) == (if fits(s, p, 3) {
            Ok::<(InstructionView, int), Error>(
                (InstructionView::Plain(Instruction::MultiANewArray(u16_in(s, p), s[p + 2])), p + 3),
            )
        } else {
            Err::<(InstructionView, int), Error>(Error::LimitExceeded)
        }),
        operands_at(s, p, 0xC8, at) == super::super::parser::grammar::mapped(
            i32_at(s, p),
            |offset: i32| InstructionView::Plain(Instruction::GoTo(offset)),
        ),
        operands_at(s, p, 0xC9, at) == super::super::parser::grammar::mapped(
            i32_at(s, p),
            |offset: i32| InstructionView::Plain(Instruction::JSR(offset)),
        ),
        local(0x84, 0) is None,
{
    reveal(simple);
    reveal(short_operand);
    reveal(local);
    reveal(pool_operand);
}

/// An instruction that stands in no table of the writer is one of these,
/// or a switch.
proof fn lemma_other_kinds(insn: Instruction)
    requires
        simple_opcode(insn) is None,
        short_opcode(insn) is None,
        local_opcode(insn) is None,
        pool_opcode(insn) is None,
    ensures
        insn is BIPush || insn is LDC || insn is IInc || insn is GoTo || insn is JSR || insn
            is InvokeInterface || insn is InvokeDynamic || insn is NewArray || insn
            is MultiANewArray || insn is TableSwitch || insn is LookupSwitch,
{
    reveal(simple_opcode);
    reveal(short_opcode);
    reveal(local_opcode);
    reveal(pool_opcode);
}

/// The other instructions that are no switch are read as they were written.
#[verifier::rlimit(40)]
proof fn lemma_read_other(insn: Instruction, pool: Slots, s: Seq<u8>, pos: int, at: u32)
    requires
        simple_opcode(insn) is None,
        short_opcode(insn) is None,
        local_opcode(insn) is None,
        pool_opcode(insn) is None,
        !(insn is TableSwitch),
        !(insn is LookupSwitch),
        0 <= pos,
        pos + plain_bytes(insn, pool).len() <= s.len(),
        s.subrange(pos, pos + plain_bytes(insn, pool).len()) == plain_bytes(insn, pool),
    ensures
        plain_bytes(insn, pool).len() > 0,
        instruction_at(s, pos, at) == Ok::<(InstructionView, int), Error>(
            (InstructionView::Plain(insn), pos + plain_bytes(insn, pool).len()),
        ),
{
    lemma_other_kinds(insn);
    lemma_other_opcodes(s, pos + 1, at);
    let bytes = plain_bytes(insn, pool);
    let part = s.subrange(pos, pos + bytes.len());
    assert(forall|i: int| 0 <= i < bytes.len() ==> s[pos + i] == #[trigger] part[i]);
    match insn {
        Instruction::BIPush(value) => {
            assert(s[pos] == part[0] && s[pos + 1] == part[1]);
            lemma_read_u8(s, pos, 0x10);
            lemma_read_u8(s, pos + 1, as_u8(value));
            lemma_signed_round_trip(value, 0, 0, 0);
        },
        Instruction::LDC(index) => {
            assert(s[pos] == part[0] && s[pos + 1] == part[1]);
            lemma_read_u8(s, pos, bytes[0]);
            if bytes.len() == 2 {
                lemma_read_u8(s, pos + 1, index as u8);
            } else {
                assert(s[pos + 2] == part[2]);
                assert(s.subrange(pos + 1, pos + 3) =~= u16_bytes(index));
                lemma_read_u16(s, pos + 1, index);
            }
        },
        Instruction::IInc(index, value) => {
            assert(s[pos] == part[0] && s[pos + 1] == part[1] && s[pos + 2] == part[2]);
            lemma_read_u8(s, pos, bytes[0]);
            if index <= 0xFF && -0x80 <= value <= 0x7F {
                lemma_signed_round_trip(value as i8, 0, 0, 0);
            } else {
                lemma_read_u8(s, pos + 1, 0x84);
                assert(s[pos + 3] == part[3] && s[pos + 4] == part[4] && s[pos + 5] == part[5]);
                assert(s.subrange(pos + 2, pos + 4) =~= u16_bytes(index));
                assert(s.subrange(pos + 4, pos + 6) =~= u16_bytes(as_u16(value)));
                lemma_read_u16(s, pos + 2, index);
                lemma_read_u16(s, pos + 4, as_u16(value));
                lemma_signed_round_trip(0, value, 0, 0);
            }
        },
        Instruction::GoTo(offset) => {
            lemma_read_jump(0xA7, 0xC8, offset, s, pos);
        },
        Instruction::JSR(offset) => {
            lemma_read_jump(0xA8, 0xC9, offset, s, pos);
        },
        Instruction::InvokeInterface(index, count) => {
            assert(s[pos] == part[0] && s[pos + 1] == part[1] && s[pos + 2] == part[2] && s[pos + 3]
                == part[3] && s[pos + 4] == part[4]);
            lemma_read_u8(s, pos, 0xB9);
            assert(s.subrange(pos + 1, pos + 3) =~= u16_bytes(index));
            lemma_read_u16(s, pos + 1, index);
        },
        Instruction::InvokeDynamic(index) => {
            assert(s[pos] == part[0] && s[pos + 1] == part[1] && s[pos + 2] == part[2]);
            lemma_read_u8(s, pos, 0xBA);
            assert(s.subrange(pos + 1, pos + 3) =~= u16_bytes(index));
            lemma_read_u16(s, pos + 1, index);
        },
        Instruction::NewArray(t) => {
            assert(s[pos] == part[0] && s[pos + 1] == part[1]);
            lemma_read_u8(s, pos, 0xBC);
            lemma_read_u8(s, pos + 1, array_type_byte(t));
        },
        Instruction::MultiANewArray(index, dimensions) => {
            assert(s[pos] == part[0] && s[pos + 1] == part[1] && s[pos + 2] == part[2] && s[pos + 3]
                == part[3]);
            lemma_read_u8(s, pos, 0xC5);
            assert(s.subrange(pos + 1, pos + 3) =~= u16_bytes(index));
            lemma_read_u16(s, pos + 1, index);
        },
        _ => {},
    }
}

/// A jump is read as it was written, in two bytes and in four.
proof fn lemma_read_jump(narrow: u8, wide: u8, offset: i32, s: Seq<u8>, pos: int)
    requires
        0 <= pos,
        pos + jump_bytes(narrow, wide, offset).len() <= s.len(),
        s.subrange(pos, pos + jump_bytes(narrow, wide, offset).len()) == jump_bytes(
            narrow,
            wide,
            offset,
        ),
    ensures
        -0x8000 <= offset <= 0x7FFF ==> u8_at(s, pos) == Ok::<(u8, int), Error>((narrow, pos + 1))
            && i16_at(s, pos + 1) == Ok::<(i16, int), Error>((offset as i16, pos + 3))
            && jump_bytes(narrow, wide, offset).len() == 3,
        !(-0x8000 <= offset <= 0x7FFF) ==> u8_at(s, pos) == Ok::<(u8, int), Error>((wide, pos + 1))
            && i32_at(s, pos + 1) == Ok::<(i32, int), Error>((offset, pos + 5)) && jump_bytes(
            narrow,
            wide,
            offset,
        ).len() == 5,
{
    let bytes = jump_bytes(narrow, wide, offset);
    let part = s.subrange(pos, pos + bytes.len());
    assert(forall|i: int| 0 <= i < bytes.len() ==> s[pos + i] == #[trigger] part[i]);
    assert(s[pos] == part[0] && s[pos + 1] == part[1] && s[pos + 2] == part[2]);
    lemma_read_u8(s, pos, bytes[0]);
    if -0x8000 <= offset <= 0x7FFF {
        assert(s.subrange(pos + 1, pos + 3) =~= u16_bytes(as_u16(offset as i16)));
        lemma_read_i16(s, pos + 1, offset as i16);
    } else {
        assert(s[pos + 3] == part[3] && s[pos + 4] == part[4]);
        assert(s.subrange(pos + 1, pos + 5) =~= i32_bytes(offset));
        lemma_read_i32(s, pos + 1, offset);
    }
}

/// An instruction that is no switch is read as it was written, whatever
/// stands before and behind it.
pub proof fn lemma_read_written_plain(
    insn: Instruction,
    pool: Slots,
    at: u32,
    pre: Seq<u8>,
    post: Seq<u8>,
)
    requires
        !(insn is TableSwitch),
        !(insn is LookupSwitch),
    ensures
        instruction_at(pre + plain_bytes(insn, pool) + post, pre.len() as int, at) == Ok::<
            (InstructionView, int),
            Error,
        >((InstructionView::Plain(insn), (pre.len() + plain_bytes(insn, pool).len()) as int)),
{
    let bytes = plain_bytes(insn, pool);
    let s = pre + bytes + post;
    let pos = pre.len() as int;
    lemma_middle(pre, bytes, post, 0, bytes.len() as int);
    assert(bytes.subrange(0, bytes.len() as int) =~= bytes);
    if simple_opcode(insn) is Some {
        lemma_read_simple(insn, s, pos, at);
    } else if short_opcode(insn) is Some {
        lemma_middle(pre, bytes, post, 1, 3);
        assert(bytes.subrange(1, 3) =~= u16_bytes(as_u16(short_opcode(insn)->Some_0.1)));
        lemma_read_short(insn, s, pos, at);
    } else if local_opcode(insn) is Some {
        lemma_read_local(insn, s, pos, at);
    } else if pool_opcode(insn) is Some {
        lemma_middle(pre, bytes, post, 1, 3);
        assert(bytes.subrange(1, 3) =~= u16_bytes(pool_opcode(insn)->Some_0.1));
        lemma_read_pool(insn, s, pos, at);
    } else {
        lemma_read_other(insn, pool, s, pos, at);
    }
}

/// Jump offsets behind `acc` are `acc`, and behind it the offsets.
pub proof fn lemma_offsets_bytes_behind(v: Seq<i32>, from: int, acc: Seq<u8>)
    ensures
        offsets_bytes(v, from, acc) == acc + offsets_bytes(v, from, Seq::empty()),
    decreases v.len() - from,
{
    if 0 <= from < v.len() {
        lemma_offsets_bytes_behind(v, from + 1, acc + i32_bytes(v[from]));
        lemma_offsets_bytes_behind(v, from + 1, Seq::<u8>::empty() + i32_bytes(v[from]));
        assert(acc + i32_bytes(v[from]) + offsets_bytes(v, from + 1, Seq::empty()) =~= acc + (
        Seq::<u8>::empty() + i32_bytes(v[from]) + offsets_bytes(v, from + 1, Seq::empty())));
    } else {
        assert(acc + Seq::<u8>::empty() =~= acc);
    }
}

/// Jump offsets are read as they were written.
pub proof fn lemma_read_offsets(v: Seq<i32>, from: int, s: Seq<u8>, pos: int, acc: Seq<i32>)
    requires
        0 <= from <= v.len(),
        0 <= pos,
        pos + offsets_bytes(v, from, Seq::empty()).len() <= s.len(),
        s.subrange(pos, pos + offsets_bytes(v, from, Seq::empty()).len()) == offsets_bytes(
            v,
            from,
            Seq::empty(),
        ),
    ensures
        offsets_at(s, pos, (v.len() - from) as nat, acc) == Ok::<(Seq<i32>, int), Error>(
            (acc + v.skip(from), pos + offsets_bytes(v, from, Seq::empty()).len()),
        ),
    decreases v.len() - from,
{
    let tail = offsets_bytes(v, from, Seq::empty());
    if from < v.len() {
        let first = i32_bytes(v[from]);
        let rest = offsets_bytes(v, from + 1, Seq::empty());
        lemma_offsets_bytes_behind(v, from + 1, Seq::<u8>::empty() + first);
        assert(tail =~= first + rest);
        let part = s.subrange(pos, pos + tail.len());
        assert(s.subrange(pos, pos + 4) =~= part.subrange(0, 4));
        assert(part.subrange(0, 4) =~= first);
        lemma_read_i32(s, pos, v[from]);
        assert(s.subrange(pos + 4, pos + 4 + rest.len()) =~= part.subrange(4, 4 + rest.len() as int));
        assert(part.subrange(4, 4 + rest.len() as int) =~= rest);
        lemma_read_offsets(v, from + 1, s, pos + 4, acc.push(v[from]));
        assert(acc.push(v[from]) + v.skip(from + 1) =~= acc + v.skip(from));
    } else {
        assert(acc + v.skip(from) =~= acc);
    }
}

/// The opcodes of the switches lead to the switches.
proof fn lemma_switch_opcodes(s: Seq<u8>, pos: int, at: u32)
    ensures
        operands_at(s, pos, 0xAA, at) == table_switch_at(s, pos, at),
        operands_at(s, pos, 0xAB, at) == lookup_switch_at(s, pos, at),
{
    reveal(simple);
    reveal(short_operand);
    reveal(local);
}

/// A table switch behind its opcode is read as it was written.
proof fn lemma_read_table_switch(
    default: i32,
    low: i32,
    high: i32,
    offsets: Seq<i32>,
    at: u32,
    s: Seq<u8>,
    pos: int,
)
    requires
        offsets.len() == table_size(low, high),
        0 <= pos,
        pos + padding(at) + 12 + offsets_bytes(offsets, 0, Seq::empty()).len() <= s.len(),
        s.subrange(pos + padding(at), pos + padding(at) + 4) == i32_bytes(default),
        s.subrange(pos + padding(at) + 4, pos + padding(at) + 8) == i32_bytes(low),
        s.subrange(pos + padding(at) + 8, pos + padding(at) + 12) == i32_bytes(high),
        s.subrange(
            pos + padding(at) + 12,
            pos + padding(at) + 12 + offsets_bytes(offsets, 0, Seq::empty()).len(),
        ) == offsets_bytes(offsets, 0, Seq::empty()),
    ensures
        table_switch_at(s, pos, at) == Ok::<(InstructionView, int), Error>(
            (
                InstructionView::TableSwitch { default, low, high, offsets },
                pos + padding(at) + 12 + offsets_bytes(offsets, 0, Seq::empty()).len(),
            ),
        ),
{
    let q = pos + padding(at);
    lemma_read_i32(s, q, default);
    lemma_read_i32(s, q + 4, low);
    lemma_read_i32(s, q + 8, high);
    lemma_read_offsets(offsets, 0, s, q + 12, Seq::empty());
    assert(Seq::<i32>::empty() + offsets.skip(0) =~= offsets);
}

/// A table switch is read as it was written, where its bytes stand.
pub proof fn lemma_read_written_table_switch(
    default: i32,
    low: i32,
    high: i32,
    offsets: Seq<i32>,
    pool: Slots,
    at: u32,
    s: Seq<u8>,
    pos: int,
)
    requires
        offsets.len() == table_size(low, high),
        holds_at(
            s,
            pos,
            instruction_bytes(
                InstructionView::TableSwitch { default, low, high, offsets },
                at,
                pool,
            )->Ok_0,
        ),
    ensures
        ({
            let insn = InstructionView::TableSwitch { default, low, high, offsets };
            let bytes = instruction_bytes(insn, at, pool)->Ok_0;
            &&& instruction_bytes(insn, at, pool) is Ok
            &&& instruction_at(s, pos, at) == Ok::<(InstructionView, int), Error>(
                (insn, pos + bytes.len()),
            )
        }),
{
    let start = seq![0xAAu8] + zeros(padding(at));
    let d = i32_bytes(default);
    let l = i32_bytes(low);
    let h = i32_bytes(high);
    let tail = offsets_bytes(offsets, 0, Seq::empty());
    lemma_offsets_bytes_behind(offsets, 0, start + d + l + h);
    lemma_split(s, pos, start + d + l + h, tail);
    lemma_split(s, pos, start + d + l, h);
    lemma_split(s, pos, start + d, l);
    lemma_split(s, pos, start, d);
    assert(s[pos] == s.subrange(pos, pos + start.len())[0]);
    lemma_read_u8(s, pos, 0xAA);
    lemma_switch_opcodes(s, pos + 1, at);
    lemma_read_table_switch(default, low, high, offsets, at, s, pos + 1);
}

/// The map that holds the pairs of `v` from `from` on, put into `acc` one
/// after the other.
pub open spec fn inserted(v: Seq<(i32, i32)>, from: int, acc: Map<i32, i32>) -> Map<i32, i32>
    decreases v.len() - from,
{
    if from < 0 || from >= v.len() {
        acc
    } else {
        inserted(v, from + 1, acc.insert(v[from].0, v[from].1))
    }
}

/// A pair that is added at the end is put in last.
pub proof fn lemma_inserted_push(v: Seq<(i32, i32)>, pair: (i32, i32), from: int, acc: Map<i32, i32>)
    requires
        0 <= from <= v.len(),
    ensures
        inserted(v.push(pair), from, acc) == inserted(v, from, acc).insert(pair.0, pair.1),
    decreases v.len() - from,
{
    if from < v.len() {
        assert(v.push(pair)[from] == v[from]);
        lemma_inserted_push(v, pair, from + 1, acc.insert(v[from].0, v[from].1));
    } else {
        assert(v.push(pair)[from] == pair);
        assert(inserted(v.push(pair), from + 1, acc.insert(pair.0, pair.1)) == acc.insert(
            pair.0,
            pair.1,
        ));
    }
}

/// The pairs of a map between two match values, put into an empty map,
/// give the map between those values.
pub proof fn lemma_inserted_pairs_between(m: Map<i32, i32>, lo: int, hi: int)
    requires
        i32::MIN <= lo <= hi <= i32::MAX + 1,
    ensures
        forall|k: i32| #[trigger]
            inserted(pairs_between(m, lo, hi), 0, Map::empty()).contains_key(k) <==> lo <= k < hi
                && m.contains_key(k),
        forall|k: i32|
            lo <= k < hi && m.contains_key(k) ==> #[trigger] inserted(
                pairs_between(m, lo, hi),
                0,
                Map::empty(),
            )[k] == m[k],
    decreases hi - lo,
{
    if lo < hi {
        lemma_inserted_pairs_between(m, lo, hi - 1);
        let key = (hi - 1) as i32;
        if m.contains_key(key) {
            lemma_inserted_push(pairs_between(m, lo, hi - 1), (key, m[key]), 0, Map::empty());
        }
    }
}

/// All the pairs of a map, put into an empty map, give the map.
pub proof fn lemma_inserted_sorted_pairs(m: Map<i32, i32>)
    ensures
        inserted(sorted_pairs(m), 0, Map::empty()) == m,
{
    lemma_inserted_pairs_between(m, i32::MIN as int, i32::MAX + 1);
    assert(inserted(sorted_pairs(m), 0, Map::empty()) =~= m);
}

/// Match pairs are read as they were written.
pub proof fn lemma_read_pairs(
    v: Seq<(i32, i32)>,
    from: int,
    s: Seq<u8>,
    pos: int,
    acc: Map<i32, i32>,
)
    requires
        0 <= from <= v.len(),
        0 <= pos,
        pos + pairs_bytes(v, from, Seq::empty()).len() <= s.len(),
        s.subrange(pos, pos + pairs_bytes(v, from, Seq::empty()).len()) == pairs_bytes(
            v,
            from,
            Seq::empty(),
        ),
    ensures
        match_pairs_at(s, pos, (v.len() - from) as nat, acc) == Ok::<(Map<i32, i32>, int), Error>(
            (inserted(v, from, acc), pos + pairs_bytes(v, from, Seq::empty()).len()),
        ),
    decreases v.len() - from,
{
    let tail = pairs_bytes(v, from, Seq::empty());
    if from < v.len() {
        let first = i32_bytes(v[from].0) + i32_bytes(v[from].1);
        let rest = pairs_bytes(v, from + 1, Seq::empty());
        lemma_pairs_bytes_behind(
            v,
            from + 1,
            Seq::<u8>::empty() + i32_bytes(v[from].0) + i32_bytes(v[from].1),
        );
        assert(tail =~= first + rest);
        let part = s.subrange(pos, pos + tail.len());
        assert(s.subrange(pos, pos + 4) =~= part.subrange(0, 4));
        assert(part.subrange(0, 4) =~= i32_bytes(v[from].0));
        assert(s.subrange(pos + 4, pos + 8) =~= part.subrange(4, 8));
        assert(part.subrange(4, 8) =~= i32_bytes(v[from].1));
        lemma_read_i32(s, pos, v[from].0);
        lemma_read_i32(s, pos + 4, v[from].1);
        assert(s.subrange(pos + 8, pos + 8 + rest.len()) =~= part.subrange(8, 8 + rest.len() as int));
        assert(part.subrange(8, 8 + rest.len() as int) =~= rest);
        lemma_read_pairs(v, from + 1, s, pos + 8, acc.insert(v[from].0, v[from].1));
    }
}

/// A lookup switch behind its opcode is read as it was written.
proof fn lemma_read_lookup_switch(
    default: i32,
    offsets: Map<i32, i32>,
    at: u32,
    s: Seq<u8>,
    pos: int,
)
    requires
        sorted_pairs(offsets).len() <= 0xFFFF_FFFF,
        0 <= pos,
        pos + padding(at) + 8 + pairs_bytes(sorted_pairs(offsets), 0, Seq::empty()).len() <= s.len(),
        s.subrange(pos + padding(at), pos + padding(at) + 4) == i32_bytes(default),
        s.subrange(pos + padding(at) + 4, pos + padding(at) + 8) == u32_bytes(
            sorted_pairs(offsets).len() as u32,
        ),
        s.subrange(
            pos + padding(at) + 8,
            pos + padding(at) + 8 + pairs_bytes(sorted_pairs(offsets), 0, Seq::empty()).len(),
        ) == pairs_bytes(sorted_pairs(offsets), 0, Seq::empty()),
    ensures
        lookup_switch_at(s, pos, at) == Ok::<(InstructionView, int), Error>(
            (
                InstructionView::LookupSwitch { default, offsets },
                pos + padding(at) + 8 + pairs_bytes(sorted_pairs(offsets), 0, Seq::empty()).len(),
            ),
        ),
{
    let q = pos + padding(at);
    lemma_read_i32(s, q, default);
    lemma_unsigned_round_trip(0, sorted_pairs(offsets).len() as u32, 0);
    lemma_read_pairs(sorted_pairs(offsets), 0, s, q + 8, Map::empty());
    lemma_inserted_sorted_pairs(offsets);
}

/// A lookup switch is read as it was written, where its bytes stand.
pub proof fn lemma_read_written_lookup_switch(
    default: i32,
    offsets: Map<i32, i32>,
    pool: Slots,
    at: u32,
    s: Seq<u8>,
    pos: int,
)
    requires
        sorted_pairs(offsets).len() <= 0xFFFF_FFFF,
        holds_at(
            s,
            pos,
            instruction_bytes(InstructionView::LookupSwitch { default, offsets }, at, pool)->Ok_0,
        ),
    ensures
        ({
            let insn = InstructionView::LookupSwitch { default, offsets };
            let bytes = instruction_bytes(insn, at, pool)->Ok_0;
            &&& instruction_bytes(insn, at, pool) is Ok
            &&& instruction_at(s, pos, at) == Ok::<(InstructionView, int), Error>(
                (insn, pos + bytes.len()),
            )
        }),
{
    let pairs = sorted_pairs(offsets);
    let start = seq![0xABu8] + zeros(padding(at));
    let d = i32_bytes(default);
    let n = u32_bytes(pairs.len() as u32);
    let tail = pairs_bytes(pairs, 0, Seq::empty());
    lemma_pairs_bytes_behind(pairs, 0, start + d + n);
    lemma_split(s, pos, start + d + n, tail);
    lemma_split(s, pos, start + d, n);
    lemma_split(s, pos, start, d);
    assert(s[pos] == s.subrange(pos, pos + start.len())[0]);
    lemma_read_u8(s, pos, 0xAB);
    lemma_switch_opcodes(s, pos + 1, at);
    lemma_read_lookup_switch(default, offsets, at, s, pos + 1);
}

/// An instruction as the tree holds it: the two switches stand as such.
pub open spec fn proper(insn: InstructionView) -> bool {
    insn matches InstructionView::Plain(plain) ==> !(plain is TableSwitch) && !(plain
        is LookupSwitch)
}

/// An instruction that can be written is read as it was written, where
/// its bytes stand.
pub proof fn lemma_read_instruction(insn: InstructionView, pool: Slots, at: u32, s: Seq<u8>, pos: int)
    requires
        proper(insn),
        instruction_bytes(insn, at, pool) is Ok,
        holds_at(s, pos, instruction_bytes(insn, at, pool)->Ok_0),
    ensures
        instruction_at(s, pos, at) == Ok::<(InstructionView, int), Error>(
            (insn, pos + instruction_bytes(insn, at, pool)->Ok_0.len()),
        ),
{
    match insn {
        InstructionView::Plain(plain) => {
            let bytes = plain_bytes(plain, pool);
            lemma_between(s, pos, bytes);
            lemma_read_written_plain(plain, pool, at, s.take(pos), s.skip(pos + bytes.len()));
        },
        InstructionView::TableSwitch { default, low, high, offsets } => {
            lemma_read_written_table_switch(default, low, high, offsets, pool, at, s, pos)
        },
        InstructionView::LookupSwitch { default, offsets } => lemma_read_written_lookup_switch(
            default,
            offsets,
            pool,
            at,
            s,
            pos,
        ),
    }
}

/// An instruction that can be written is read as it was written, whatever
/// stands before and behind it.
pub proof fn lemma_read_written_instruction(
    insn: InstructionView,
    pool: Slots,
    at: u32,
    pre: Seq<u8>,
    post: Seq<u8>,
)
    requires
        proper(insn),
        instruction_bytes(insn, at, pool) is Ok,
    ensures
        instruction_at(
            pre + instruction_bytes(insn, at, pool)->Ok_0 + post,
            pre.len() as int,
            at,
        ) == Ok::<(InstructionView, int), Error>(
            (insn, (pre.len() + instruction_bytes(insn, at, pool)->Ok_0.len()) as int),
        ),
{
    let bytes = instruction_bytes(insn, at, pool)->Ok_0;
    lemma_middle(pre, bytes, post, 0, bytes.len() as int);
    assert(bytes.subrange(0, bytes.len() as int) =~= bytes);
    lemma_read_instruction(insn, pool, at, pre + bytes + post, pre.len() as int);
}

/// An instruction on a local variable is read as it was written behind
/// the `wide` prefix, whatever its index.
proof fn lemma_read_long_local(insn: Instruction, s: Seq<u8>, pos: int, at: u32)
    requires
        local_opcode(insn) is Some,
        holds_at(
            s,
            pos,
            seq![0xC4u8, local_opcode(insn)->Some_0.0] + u16_bytes(local_opcode(insn)->Some_0.1),
        ),
    ensures
        instruction_at(s, pos, at) == Ok::<(InstructionView, int), Error>(
            (InstructionView::Plain(insn), pos + 4),
        ),
{
    reveal(simple);
    reveal(short_operand);
    reveal(local);
    reveal(local_opcode);
    reveal(pool_operand);
    let (op, index) = local_opcode(insn)->Some_0;
    lemma_split(s, pos, seq![0xC4u8, op], u16_bytes(index));
    let head = s.subrange(pos, pos + 2);
    assert(s[pos] == head[0] && s[pos + 1] == head[1]);
    lemma_read_u8(s, pos, 0xC4);
    lemma_read_u8(s, pos + 1, op);
    lemma_read_u16(s, pos + 2, index);
}

/// `ldc_w` is read as it was written, whatever its index.
proof fn lemma_read_long_ldc(index: u16, s: Seq<u8>, pos: int, at: u32)
    requires
        holds_at(s, pos, seq![0x13u8] + u16_bytes(index)),
    ensures
        instruction_at(s, pos, at) == Ok::<(InstructionView, int), Error>(
            (InstructionView::Plain(Instruction::LDC(index)), pos + 3),
        ),
{
    lemma_other_opcodes(s, pos + 1, at);
    lemma_split(s, pos, seq![0x13u8], u16_bytes(index));
    let head = s.subrange(pos, pos + 1);
    assert(s[pos] == head[0]);
    lemma_read_u8(s, pos, 0x13);
    lemma_read_u16(s, pos + 1, index);
}

/// `iinc` is read as it was written behind the `wide` prefix, whatever
/// its index and its value.
proof fn lemma_read_long_iinc(index: u16, value: i16, s: Seq<u8>, pos: int, at: u32)
    requires
        holds_at(s, pos, seq![0xC4u8, 0x84u8] + u16_bytes(index) + u16_bytes(as_u16(value))),
    ensures
        instruction_at(s, pos, at) == Ok::<(InstructionView, int), Error>(
            (InstructionView::Plain(Instruction::IInc(index, value)), pos + 6),
        ),
{
    reveal(local);
    lemma_other_opcodes(s, pos + 1, at);
    lemma_split(s, pos, seq![0xC4u8, 0x84u8] + u16_bytes(index), u16_bytes(as_u16(value)));
    lemma_split(s, pos, seq![0xC4u8, 0x84u8], u16_bytes(index));
    let head = s.subrange(pos, pos + 2);
    assert(s[pos] == head[0] && s[pos + 1] == head[1]);
    lemma_read_u8(s, pos, 0xC4);
    lemma_read_u8(s, pos + 1, 0x84);
    lemma_read_u16(s, pos + 2, index);
    lemma_read_u16(s, pos + 4, as_u16(value));
    lemma_signed_round_trip(0, value, 0, 0);
}

/// `goto_w` and `jsr_w` are read as they were written, whatever the
/// offset.
proof fn lemma_read_long_jump(wide: u8, offset: i32, s: Seq<u8>, pos: int, at: u32)
    requires
        wide == 0xC8 || wide == 0xC9,
        holds_at(s, pos, seq![wide] + i32_bytes(offset)),
    ensures
        instruction_at(s, pos, at) == Ok::<(InstructionView, int), Error>(
            (
                InstructionView::Plain(
                    if wide == 0xC8 {
                        Instruction::GoTo(offset)
                    } else {
                        Instruction::JSR(offset)
                    },
                ),
                pos + 5,
            ),
        ),
{
    lemma_other_opcodes(s, pos + 1, at);
    lemma_split(s, pos, seq![wide], i32_bytes(offset));
    let head = s.subrange(pos, pos + 1);
    assert(s[pos] == head[0]);
    lemma_read_u8(s, pos, wide);
    lemma_read_i32(s, pos + 1, offset);
}

/// The long form of an instruction is read as the instruction.
pub proof fn lemma_read_long(insn: Instruction, pool: Slots, at: u32, s: Seq<u8>, pos: int)
    requires
        long_bytes(insn, pool) is Some,
        holds_at(s, pos, long_bytes(insn, pool)->Some_0),
    ensures
        instruction_at(s, pos, at) == Ok::<(InstructionView, int), Error>(
            (InstructionView::Plain(insn), pos + long_bytes(insn, pool)->Some_0.len()),
        ),
{
    if local_opcode(insn) is Some {
        lemma_read_long_local(insn, s, pos, at);
    } else {
        match insn {
            Instruction::LDC(index) => lemma_read_long_ldc(index, s, pos, at),
            Instruction::IInc(index, value) => lemma_read_long_iinc(index, value, s, pos, at),
            Instruction::GoTo(offset) => lemma_read_long_jump(0xC8, offset, s, pos, at),
            Instruction::JSR(offset) => lemma_read_long_jump(0xC9, offset, s, pos, at),
            _ => {},
        }
    }
}

/// The instruction of an entry is read as it was written, in whichever
/// form.
pub proof fn lemma_read_entry(
    v: Seq<Option<InstructionView>>,
    from: int,
    pool: Slots,
    code: Seq<u8>,
    s: Seq<u8>,
    pos: int,
)
    requires
        0 <= from < v.len(),
        v[from] is Some,
        proper(v[from]->Some_0),
        entry_bytes(v, from, pool, code) is Ok,
        holds_at(s, pos, entry_bytes(v, from, pool, code)->Ok_0),
    ensures
        instruction_at(s, pos, code.len() as u32) == Ok::<(InstructionView, int), Error>(
            (v[from]->Some_0, pos + entry_bytes(v, from, pool, code)->Ok_0.len()),
        ),
{
    let insn = v[from]->Some_0;
    match long_of_size(insn, pool, 1 + empty_run(v, from + 1)) {
        Some(long) => lemma_read_long(insn->Plain_0, pool, code.len() as u32, s, pos),
        None => lemma_read_instruction(insn, pool, code.len() as u32, s, pos),
    }
}

/// The instructions of `v` from `from` on as they are read from the code
/// that they are written to, behind those of `acc`: each at the index that
/// is its offset, with nothing at the indices of its further bytes.
/// `code` is the code before them.
pub open spec fn at_offsets(
    v: Seq<Option<InstructionView>>,
    from: int,
    pool: Slots,
    code: Seq<u8>,
    acc: Seq<Option<InstructionView>>,
) -> Seq<Option<InstructionView>>
    decreases v.len() - from,
{
    if from < 0 || from >= v.len() {
        acc
    } else {
        match v[from] {
            None => at_offsets(v, from + 1, pool, code, acc),
            Some(insn) => match entry_bytes(v, from, pool, code) {
                Ok(bytes) => at_offsets(
                    v,
                    from + 1,
                    pool,
                    code + bytes,
                    acc + padded(insn, bytes.len() as int),
                ),
                Err(_) => acc,
            },
        }
    }
}

/// Code is written behind what stands already.
pub proof fn lemma_code_keeps(v: Seq<Option<InstructionView>>, from: int, pool: Slots, acc: Seq<u8>)
    requires
        code_bytes(v, from, pool, acc) is Ok,
    ensures
        holds_at(code_bytes(v, from, pool, acc)->Ok_0, 0, acc),
    decreases v.len() - from,
{
    let code = code_bytes(v, from, pool, acc)->Ok_0;
    if 0 <= from < v.len() {
        match v[from] {
            None => lemma_code_keeps(v, from + 1, pool, acc),
            Some(insn) => {
                let bytes = entry_bytes(v, from, pool, acc)->Ok_0;
                lemma_code_keeps(v, from + 1, pool, acc + bytes);
                lemma_split(code, 0, acc, bytes);
            },
        }
    } else {
        assert(code.subrange(0, acc.len() as int) =~= acc);
    }
}

/// The code that instructions are written to is read as the instructions,
/// each at its offset. The code stands in `s` from `start` to the end.
pub proof fn lemma_read_code(
    v: Seq<Option<InstructionView>>,
    from: int,
    pool: Slots,
    done: Seq<u8>,
    acc: Seq<Option<InstructionView>>,
    s: Seq<u8>,
    start: int,
)
    requires
        0 <= from <= v.len(),
        code_bytes(v, from, pool, done) is Ok,
        forall|i: int| from <= i < v.len() && v[i] is Some ==> proper(#[trigger] v[i]->Some_0),
        holds_at(s, start, code_bytes(v, from, pool, done)->Ok_0),
        s.len() == start + code_bytes(v, from, pool, done)->Ok_0.len(),
    ensures
        instructions_from(s, start, start + done.len(), acc) == Ok::<
            (Seq<Option<InstructionView>>, int),
            Error,
        >((at_offsets(v, from, pool, done, acc), s.len() as int)),
    decreases v.len() - from,
{
    let code = code_bytes(v, from, pool, done)->Ok_0;
    lemma_code_keeps(v, from, pool, done);
    if from < v.len() {
        match v[from] {
            None => lemma_read_code(v, from + 1, pool, done, acc, s, start),
            Some(insn) => {
                let bytes = entry_bytes(v, from, pool, done)->Ok_0;
                let at = done.len() as u32;
                lemma_code_keeps(v, from + 1, pool, done + bytes);
                lemma_split(code, 0, done, bytes);
                lemma_within(s, start, code, done.len() as int, bytes);
                assert(proper(v[from]->Some_0));
                lemma_read_entry(v, from, pool, done, s, start + done.len());
                lemma_instruction_advances(s, start + done.len(), at);
                lemma_read_code(
                    v,
                    from + 1,
                    pool,
                    done + bytes,
                    acc + padded(insn, bytes.len() as int),
                    s,
                    start,
                );
            },
        }
    }
}

/// Instructions that stand at their offsets: as they are read from the
/// code that they are written to.
pub open spec fn offset_indexed(v: Seq<Option<InstructionView>>, pool: Slots) -> bool {
    &&& forall|i: int| 0 <= i < v.len() && v[i] is Some ==> proper(#[trigger] v[i]->Some_0)
    &&& at_offsets(v, 0, pool, Seq::empty(), Seq::empty()) == v
}

} // verus!
