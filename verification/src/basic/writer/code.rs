//! The code of a method, as it is written.

use vstd::prelude::*;
use vstd::std_specs::iter::{IteratorSpec, VerusForLoopWrapper};
use std::collections::BTreeMap;
use super::super::constpool::{item_at, Pool, Slots};
use super::super::parser::code::{local, padding, pool_operand, short_operand, simple, table_size};
use super::super::result::Error;
use super::super::tree::{code_view, ArrayType, Instruction, InstructionView};
use super::encode::{as_u16, as_u32, as_u8, u16_bytes, u32_bytes, Encoder};
use super::grammar::{count32, then, write_count32, wrote, Written};
use super::order::lemma_increasing_is_ascending;

verus! {

/// The opcode of an instruction that stands alone.
#[verifier::opaque]
pub open spec fn simple_opcode(insn: Instruction) -> Option<u8> {
    match insn {
        Instruction::NOP => Some(0x00),
        Instruction::AConstNull => Some(0x01),
        Instruction::IConstM1 => Some(0x02),
        Instruction::IConst0 => Some(0x03),
        Instruction::IConst1 => Some(0x04),
        Instruction::IConst2 => Some(0x05),
        Instruction::IConst3 => Some(0x06),
        Instruction::IConst4 => Some(0x07),
        Instruction::IConst5 => Some(0x08),
        Instruction::LConst0 => Some(0x09),
        Instruction::LConst1 => Some(0x0A),
        Instruction::FConst0 => Some(0x0B),
        Instruction::FConst1 => Some(0x0C),
        Instruction::FConst2 => Some(0x0D),
        Instruction::DConst0 => Some(0x0E),
        Instruction::DConst1 => Some(0x0F),
        Instruction::ILoad0 => Some(0x1A),
        Instruction::ILoad1 => Some(0x1B),
        Instruction::ILoad2 => Some(0x1C),
        Instruction::ILoad3 => Some(0x1D),
        Instruction::LLoad0 => Some(0x1E),
        Instruction::LLoad1 => Some(0x1F),
        Instruction::LLoad2 => Some(0x20),
        Instruction::LLoad3 => Some(0x21),
        Instruction::FLoad0 => Some(0x22),
        Instruction::FLoad1 => Some(0x23),
        Instruction::FLoad2 => Some(0x24),
        Instruction::FLoad3 => Some(0x25),
        Instruction::DLoad0 => Some(0x26),
        Instruction::DLoad1 => Some(0x27),
        Instruction::DLoad2 => Some(0x28),
        Instruction::DLoad3 => Some(0x29),
        Instruction::ALoad0 => Some(0x2A),
        Instruction::ALoad1 => Some(0x2B),
        Instruction::ALoad2 => Some(0x2C),
        Instruction::ALoad3 => Some(0x2D),
        Instruction::IALoad => Some(0x2E),
        Instruction::LALoad => Some(0x2F),
        Instruction::FALoad => Some(0x30),
        Instruction::DALoad => Some(0x31),
        Instruction::AALoad => Some(0x32),
        Instruction::BALoad => Some(0x33),
        Instruction::CALoad => Some(0x34),
        Instruction::SALoad => Some(0x35),
        Instruction::IStore0 => Some(0x3B),
        Instruction::IStore1 => Some(0x3C),
        Instruction::IStore2 => Some(0x3D),
        Instruction::IStore3 => Some(0x3E),
        Instruction::LStore0 => Some(0x3F),
        Instruction::LStore1 => Some(0x40),
        Instruction::LStore2 => Some(0x41),
        Instruction::LStore3 => Some(0x42),
        Instruction::FStore0 => Some(0x43),
        Instruction::FStore1 => Some(0x44),
        Instruction::FStore2 => Some(0x45),
        Instruction::FStore3 => Some(0x46),
        Instruction::DStore0 => Some(0x47),
        Instruction::DStore1 => Some(0x48),
        Instruction::DStore2 => Some(0x49),
        Instruction::DStore3 => Some(0x4A),
        Instruction::AStore0 => Some(0x4B),
        Instruction::AStore1 => Some(0x4C),
        Instruction::AStore2 => Some(0x4D),
        Instruction::AStore3 => Some(0x4E),
        Instruction::IAStore => Some(0x4F),
        Instruction::LAStore => Some(0x50),
        Instruction::FAStore => Some(0x51),
        Instruction::DAStore => Some(0x52),
        Instruction::AAStore => Some(0x53),
        Instruction::BAStore => Some(0x54),
        Instruction::CAStore => Some(0x55),
        Instruction::SAStore => Some(0x56),
        Instruction::Pop => Some(0x57),
        Instruction::Pop2 => Some(0x58),
        Instruction::Dup => Some(0x59),
        Instruction::DupX1 => Some(0x5A),
        Instruction::DupX2 => Some(0x5B),
        Instruction::Dup2 => Some(0x5C),
        Instruction::Dup2X1 => Some(0x5D),
        Instruction::Dup2X2 => Some(0x5E),
        Instruction::Swap => Some(0x5F),
        Instruction::IAdd => Some(0x60),
        Instruction::LAdd => Some(0x61),
        Instruction::FAdd => Some(0x62),
        Instruction::DAdd => Some(0x63),
        Instruction::ISub => Some(0x64),
        Instruction::LSub => Some(0x65),
        Instruction::FSub => Some(0x66),
        Instruction::DSub => Some(0x67),
        Instruction::IMul => Some(0x68),
        Instruction::LMul => Some(0x69),
        Instruction::FMul => Some(0x6A),
        Instruction::DMul => Some(0x6B),
        Instruction::IDiv => Some(0x6C),
        Instruction::LDiv => Some(0x6D),
        Instruction::FDiv => Some(0x6E),
        Instruction::DDiv => Some(0x6F),
        Instruction::IRem => Some(0x70),
        Instruction::LRem => Some(0x71),
        Instruction::FRem => Some(0x72),
        Instruction::DRem => Some(0x73),
        Instruction::INeg => Some(0x74),
        Instruction::LNeg => Some(0x75),
        Instruction::FNeg => Some(0x76),
        Instruction::DNeg => Some(0x77),
        Instruction::IShL => Some(0x78),
        Instruction::LShL => Some(0x79),
        Instruction::IShR => Some(0x7A),
        Instruction::LShR => Some(0x7B),
        Instruction::IUShR => Some(0x7C),
        Instruction::LUShR => Some(0x7D),
        Instruction::IAnd => Some(0x7E),
        Instruction::LAnd => Some(0x7F),
        Instruction::IOr => Some(0x80),
        Instruction::LOr => Some(0x81),
        Instruction::IXOr => Some(0x82),
        Instruction::LXOr => Some(0x83),
        Instruction::I2L => Some(0x85),
        Instruction::I2F => Some(0x86),
        Instruction::I2D => Some(0x87),
        Instruction::L2I => Some(0x88),
        Instruction::L2F => Some(0x89),
        Instruction::L2D => Some(0x8A),
        Instruction::F2I => Some(0x8B),
        Instruction::F2L => Some(0x8C),
        Instruction::F2D => Some(0x8D),
        Instruction::D2I => Some(0x8E),
        Instruction::D2L => Some(0x8F),
        Instruction::D2F => Some(0x90),
        Instruction::I2B => Some(0x91),
        Instruction::I2C => Some(0x92),
        Instruction::I2S => Some(0x93),
        Instruction::LCmp => Some(0x94),
        Instruction::FCmpL => Some(0x95),
        Instruction::FCmpG => Some(0x96),
        Instruction::DCmpL => Some(0x97),
        Instruction::DCmpG => Some(0x98),
        Instruction::IReturn => Some(0xAC),
        Instruction::LReturn => Some(0xAD),
        Instruction::FReturn => Some(0xAE),
        Instruction::DReturn => Some(0xAF),
        Instruction::AReturn => Some(0xB0),
        Instruction::Return => Some(0xB1),
        Instruction::ArrayLength => Some(0xBE),
        Instruction::AThrow => Some(0xBF),
        Instruction::MonitorEnter => Some(0xC2),
        Instruction::MonitorExit => Some(0xC3),
        Instruction::BreakPoint => Some(0xCA),
        Instruction::ImpDep1 => Some(0xFE),
        Instruction::ImpDep2 => Some(0xFF),
        _ => None,
    }
}

/// The opcode and the value of an instruction that takes a signed 16-bit value.
#[verifier::opaque]
pub open spec fn short_opcode(insn: Instruction) -> Option<(u8, i16)> {
    match insn {
        Instruction::SIPush(v) => Some((0x11, v)),
        Instruction::IfEq(v) => Some((0x99, v)),
        Instruction::IfNE(v) => Some((0x9A, v)),
        Instruction::IfLT(v) => Some((0x9B, v)),
        Instruction::IfGE(v) => Some((0x9C, v)),
        Instruction::IfGT(v) => Some((0x9D, v)),
        Instruction::IfLE(v) => Some((0x9E, v)),
        Instruction::IfICmpEq(v) => Some((0x9F, v)),
        Instruction::IfICmpNE(v) => Some((0xA0, v)),
        Instruction::IfICmpLT(v) => Some((0xA1, v)),
        Instruction::IfICmpGE(v) => Some((0xA2, v)),
        Instruction::IfICmpGT(v) => Some((0xA3, v)),
        Instruction::IfICmpLE(v) => Some((0xA4, v)),
        Instruction::IfACmpEq(v) => Some((0xA5, v)),
        Instruction::IfACmpNE(v) => Some((0xA6, v)),
        Instruction::IfNull(v) => Some((0xC6, v)),
        Instruction::IfNonNull(v) => Some((0xC7, v)),
        _ => None,
    }
}

/// The opcode and the index of an instruction that takes the index of a local variable.
#[verifier::opaque]
pub open spec fn local_opcode(insn: Instruction) -> Option<(u8, u16)> {
    match insn {
        Instruction::ILoad(v) => Some((0x15, v)),
        Instruction::LLoad(v) => Some((0x16, v)),
        Instruction::FLoad(v) => Some((0x17, v)),
        Instruction::DLoad(v) => Some((0x18, v)),
        Instruction::ALoad(v) => Some((0x19, v)),
        Instruction::IStore(v) => Some((0x36, v)),
        Instruction::LStore(v) => Some((0x37, v)),
        Instruction::FStore(v) => Some((0x38, v)),
        Instruction::DStore(v) => Some((0x39, v)),
        Instruction::AStore(v) => Some((0x3A, v)),
        Instruction::Ret(v) => Some((0xA9, v)),
        _ => None,
    }
}

/// The opcode and the index of an instruction that takes a constant pool index of two bytes.
#[verifier::opaque]
pub open spec fn pool_opcode(insn: Instruction) -> Option<(u8, u16)> {
    match insn {
        Instruction::GetStatic(v) => Some((0xB2, v)),
        Instruction::PutStatic(v) => Some((0xB3, v)),
        Instruction::GetField(v) => Some((0xB4, v)),
        Instruction::PutField(v) => Some((0xB5, v)),
        Instruction::InvokeVirtual(v) => Some((0xB6, v)),
        Instruction::InvokeSpecial(v) => Some((0xB7, v)),
        Instruction::InvokeStatic(v) => Some((0xB8, v)),
        Instruction::New(v) => Some((0xBB, v)),
        Instruction::ANewArray(v) => Some((0xBD, v)),
        Instruction::CheckCast(v) => Some((0xC0, v)),
        Instruction::InstanceOf(v) => Some((0xC1, v)),
        _ => None,
    }
}

/// The selector of an array type.
pub open spec fn array_type_byte(t: ArrayType) -> u8 {
    match t {
        ArrayType::Boolean => 4,
        ArrayType::Char => 5,
        ArrayType::Float => 6,
        ArrayType::Double => 7,
        ArrayType::Byte => 8,
        ArrayType::Short => 9,
        ArrayType::Int => 10,
        ArrayType::Long => 11,
    }
}

/// The opcodes that are written are those that are read: each table of
/// the writer is the inverse of the reader's.
pub proof fn lemma_opcode_tables_agree(op: u8, insn: Instruction, index: u16, value: i16)
    ensures
        simple(op) == Some(insn) <==> simple_opcode(insn) == Some(op),
        short_operand(op, value) == Some(insn) <==> short_opcode(insn) == Some((op, value)),
        local(op, index) == Some(insn) <==> local_opcode(insn) == Some((op, index)),
        pool_operand(op, index) == Some(insn) <==> pool_opcode(insn) == Some((op, index)),
{
    reveal(simple);
    reveal(simple_opcode);
    reveal(short_operand);
    reveal(short_opcode);
    reveal(local);
    reveal(local_opcode);
    reveal(pool_operand);
    reveal(pool_opcode);
}

/// Whether the item at `index` is a `long` or a `double`.
pub open spec fn is_wide_at(pool: Slots, index: u16) -> bool {
    item_at(pool, index) matches Ok(item) && item.is_double()
}

/// `n` bytes that are zero.
pub open spec fn zeros(n: int) -> Seq<u8> {
    Seq::new(n as nat, |i: int| 0u8)
}

/// The four bytes of an `i32`, most significant first.
pub open spec fn i32_bytes(n: i32) -> Seq<u8> {
    u32_bytes(as_u32(n))
}

/// A jump: with the offset in two bytes where they hold it, behind the
/// opcode `narrow`, else in four bytes, behind the opcode `wide`.
pub open spec fn jump_bytes(narrow: u8, wide: u8, offset: i32) -> Seq<u8> {
    if -0x8000 <= offset <= 0x7FFF {
        seq![narrow] + u16_bytes(as_u16(offset as i16))
    } else {
        seq![wide] + i32_bytes(offset)
    }
}

/// The load of a constant: `ldc2_w` for a `long` or a `double`, else `ldc`
/// where the index fits in a byte, else `ldc_w`.
pub open spec fn ldc_bytes(index: u16, pool: Slots) -> Seq<u8> {
    if is_wide_at(pool, index) {
        seq![0x14u8] + u16_bytes(index)
    } else if index <= 0xFF {
        seq![0x12u8, index as u8]
    } else {
        seq![0x13u8] + u16_bytes(index)
    }
}

/// An instruction on a local variable: with the index in one byte where
/// it fits, else behind the `wide` prefix with the index in two bytes.
pub open spec fn local_bytes(op: u8, index: u16) -> Seq<u8> {
    if index <= 0xFF {
        seq![op, index as u8]
    } else {
        seq![0xC4u8, op] + u16_bytes(index)
    }
}

/// `iinc`: with index and value in one byte each where they fit, else
/// behind the `wide` prefix with two bytes each.
pub open spec fn iinc_bytes(index: u16, value: i16) -> Seq<u8> {
    if index <= 0xFF && -0x80 <= value <= 0x7F {
        seq![0x84u8, index as u8, as_u8(value as i8)]
    } else {
        seq![0xC4u8, 0x84u8] + u16_bytes(index) + u16_bytes(as_u16(value))
    }
}

/// An instruction that is no switch: its opcode and its operands. (For a
/// switch, nothing.)
pub open spec fn plain_bytes(insn: Instruction, pool: Slots) -> Seq<u8> {
    if simple_opcode(insn) is Some {
        seq![simple_opcode(insn)->Some_0]
    } else if short_opcode(insn) is Some {
        seq![short_opcode(insn)->Some_0.0] + u16_bytes(as_u16(short_opcode(insn)->Some_0.1))
    } else if local_opcode(insn) is Some {
        local_bytes(local_opcode(insn)->Some_0.0, local_opcode(insn)->Some_0.1)
    } else if pool_opcode(insn) is Some {
        seq![pool_opcode(insn)->Some_0.0] + u16_bytes(pool_opcode(insn)->Some_0.1)
    } else {
        match insn {
            Instruction::BIPush(value) => seq![0x10u8, as_u8(value)],
            Instruction::LDC(index) => ldc_bytes(index, pool),
            Instruction::IInc(index, value) => iinc_bytes(index, value),
            Instruction::GoTo(offset) => jump_bytes(0xA7, 0xC8, offset),
            Instruction::JSR(offset) => jump_bytes(0xA8, 0xC9, offset),
            Instruction::InvokeInterface(index, count) => seq![0xB9u8] + u16_bytes(index) + seq![
                count,
                0u8,
            ],
            Instruction::InvokeDynamic(index) => seq![0xBAu8] + u16_bytes(index) + seq![0u8, 0u8],
            Instruction::NewArray(t) => seq![0xBCu8, array_type_byte(t)],
            Instruction::MultiANewArray(index, dimensions) => seq![0xC5u8] + u16_bytes(index) + seq![
                dimensions,
            ],
            _ => Seq::empty(),
        }
    }
}

/// The jump offsets of `v` from `from` on, of four bytes each, behind `acc`.
pub open spec fn offsets_bytes(v: Seq<i32>, from: int, acc: Seq<u8>) -> Seq<u8>
    decreases v.len() - from,
{
    if from < 0 || from >= v.len() {
        acc
    } else {
        offsets_bytes(v, from + 1, acc + i32_bytes(v[from]))
    }
}

/// The pairs of `m` whose match values lie from `lo` up to, and without,
/// `hi`, in ascending order of the match values.
pub open spec fn pairs_between(m: Map<i32, i32>, lo: int, hi: int) -> Seq<(i32, i32)>
    decreases hi - lo,
{
    if lo >= hi {
        Seq::empty()
    } else if m.contains_key((hi - 1) as i32) {
        pairs_between(m, lo, hi - 1).push(((hi - 1) as i32, m[(hi - 1) as i32]))
    } else {
        pairs_between(m, lo, hi - 1)
    }
}

/// All the pairs of `m`, in ascending order of the match values.
pub open spec fn sorted_pairs(m: Map<i32, i32>) -> Seq<(i32, i32)> {
    pairs_between(m, i32::MIN as int, i32::MAX + 1)
}

/// The pairs of `v` from `from` on, of eight bytes each, behind `acc`.
pub open spec fn pairs_bytes(v: Seq<(i32, i32)>, from: int, acc: Seq<u8>) -> Seq<u8>
    decreases v.len() - from,
{
    if from < 0 || from >= v.len() {
        acc
    } else {
        pairs_bytes(v, from + 1, acc + i32_bytes(v[from].0) + i32_bytes(v[from].1))
    }
}

/// An instruction that stands at the offset `at` of the code.
///
/// A table switch must hold one jump offset for each value from `low` to
/// `high`, else it is an invalid instruction; the pairs of a lookup switch
/// must be countable in four bytes. Behind the opcode of a switch stand as
/// many zeros as make the next offset a multiple of four.
pub open spec fn instruction_bytes(insn: InstructionView, at: u32, pool: Slots) -> Written {
    match insn {
        InstructionView::Plain(plain) => Ok(plain_bytes(plain, pool)),
        InstructionView::TableSwitch { default, low, high, offsets } => if offsets.len() == table_size(
            low,
            high,
        ) {
            Ok(
                offsets_bytes(
                    offsets,
                    0,
                    seq![0xAAu8] + zeros(padding(at)) + i32_bytes(default) + i32_bytes(low) + i32_bytes(
                        high,
                    ),
                ),
            )
        } else {
            Err(Error::InvalidInstruction { op_code: 0xAA, at })
        },
        InstructionView::LookupSwitch { default, offsets } => if sorted_pairs(offsets).len()
            <= 0xFFFF_FFFF {
            Ok(
                pairs_bytes(
                    sorted_pairs(offsets),
                    0,
                    seq![0xABu8] + zeros(padding(at)) + i32_bytes(default) + u32_bytes(
                        sorted_pairs(offsets).len() as u32,
                    ),
                ),
            )
        } else {
            Err(Error::LimitExceeded)
        },
    }
}

/// An instruction behind the code `code`: its offset is the length of the
/// code, which needs to fit in four bytes.
pub open spec fn next_instruction_bytes(code: Seq<u8>, insn: InstructionView, pool: Slots) -> Written {
    if code.len() > u32::MAX {
        Err(Error::LimitExceeded)
    } else {
        instruction_bytes(insn, code.len() as u32, pool)
    }
}

/// The long form of an instruction that has a short form too: `ldc_w`
/// for the load of a constant that is no `long` or `double`, `goto_w` and
/// `jsr_w` for a jump, and the `wide` prefix before an instruction on a
/// local variable and before `iinc`. Nothing for the other instructions.
pub open spec fn long_bytes(insn: Instruction, pool: Slots) -> Option<Seq<u8>> {
    if simple_opcode(insn) is Some || short_opcode(insn) is Some {
        None
    } else if local_opcode(insn) is Some {
        Some(seq![0xC4u8, local_opcode(insn)->Some_0.0] + u16_bytes(local_opcode(insn)->Some_0.1))
    } else if pool_opcode(insn) is Some {
        None
    } else {
        match insn {
            Instruction::LDC(index) => if is_wide_at(pool, index) {
                None
            } else {
                Some(seq![0x13u8] + u16_bytes(index))
            },
            Instruction::IInc(index, value) => Some(
                seq![0xC4u8, 0x84u8] + u16_bytes(index) + u16_bytes(as_u16(value)),
            ),
            Instruction::GoTo(offset) => Some(seq![0xC8u8] + i32_bytes(offset)),
            Instruction::JSR(offset) => Some(seq![0xC9u8] + i32_bytes(offset)),
            _ => None,
        }
    }
}

/// The long form of `insn`, where it has one and that takes `size` bytes.
pub open spec fn long_of_size(insn: InstructionView, pool: Slots, size: int) -> Option<Seq<u8>> {
    match insn {
        InstructionView::Plain(plain) => match long_bytes(plain, pool) {
            Some(long) => if long.len() == size {
                Some(long)
            } else {
                None
            },
            None => None,
        },
        _ => None,
    }
}

/// The number of entries without an instruction that follow one another
/// from `from` on.
pub open spec fn empty_run(v: Seq<Option<InstructionView>>, from: int) -> int
    decreases v.len() - from,
{
    if from < 0 || from >= v.len() || v[from] is Some {
        0
    } else {
        1 + empty_run(v, from + 1)
    }
}

/// The instruction of the entry `from`, behind the code `code`. Where
/// the list holds the instructions at their offsets, an instruction is
/// followed by an entry without one for each further byte of it: so an
/// instruction whose long form fills its entry and those that follow, up
/// to the next instruction, is written in that form. Any other is written
/// as `next_instruction_bytes` says.
pub open spec fn entry_bytes(v: Seq<Option<InstructionView>>, from: int, pool: Slots, code: Seq<u8>) -> Written {
    if code.len() > u32::MAX {
        Err(Error::LimitExceeded)
    } else {
        match long_of_size(v[from]->Some_0, pool, 1 + empty_run(v, from + 1)) {
            Some(long) => Ok(long),
            None => instruction_bytes(v[from]->Some_0, code.len() as u32, pool),
        }
    }
}

/// The instructions of `v` from `from` on, behind the code `acc`: each at
/// the offset that is the number of bytes before it, as `entry_bytes`
/// says. Entries without an instruction are passed over. An offset needs
/// to fit in four bytes.
pub open spec fn code_bytes(v: Seq<Option<InstructionView>>, from: int, pool: Slots, acc: Seq<u8>) -> Written
    decreases v.len() - from,
{
    if from < 0 || from >= v.len() {
        Ok(acc)
    } else {
        match v[from] {
            None => code_bytes(v, from + 1, pool, acc),
            Some(insn) => match entry_bytes(v, from, pool, acc) {
                Ok(bytes) => code_bytes(v, from + 1, pool, acc + bytes),
                Err(e) => Err(e),
            },
        }
    }
}

/// The code of a method, behind its length in four bytes.
pub open spec fn code_stream_bytes(v: Seq<Option<InstructionView>>, pool: Slots) -> Written {
    match code_bytes(v, 0, pool, Seq::empty()) {
        Ok(code) => then(count32(code.len()), Ok(code)),
        Err(e) => Err(e),
    }
}

/// The opcode of a switch.
pub open spec fn switch_opcode(insn: InstructionView) -> u8 {
    if insn is TableSwitch {
        0xAA
    } else {
        0xAB
    }
}

/// A switch that is written at the offset `at` starts with its opcode and
/// the padding, and what stands behind them starts at a multiple of four,
/// counted from the start of the code.
pub proof fn lemma_switch_padding(insn: InstructionView, at: u32, pool: Slots)
    requires
        insn is TableSwitch || insn is LookupSwitch,
        instruction_bytes(insn, at, pool) is Ok,
    ensures
        0 <= padding(at) <= 3,
        (at + 1 + padding(at)) % 4 == 0,
        instruction_bytes(insn, at, pool)->Ok_0.len() >= 1 + padding(at),
        instruction_bytes(insn, at, pool)->Ok_0.subrange(0, 1 + padding(at)) == seq![
            switch_opcode(insn),
        ] + zeros(padding(at)),
{
    let bytes = instruction_bytes(insn, at, pool)->Ok_0;
    let start = seq![switch_opcode(insn)] + zeros(padding(at));
    match insn {
        InstructionView::TableSwitch { default, low, high, offsets } => {
            let head = start + i32_bytes(default) + i32_bytes(low) + i32_bytes(high);
            lemma_offsets_keep(offsets, 0, head);
            assert(bytes.subrange(0, head.len() as int) == head);
            assert(head.subrange(0, start.len() as int) =~= start);
            assert(bytes.subrange(0, start.len() as int) =~= bytes.subrange(
                0,
                head.len() as int,
            ).subrange(0, start.len() as int));
        },
        InstructionView::LookupSwitch { default, offsets } => {
            let head = start + i32_bytes(default) + u32_bytes(sorted_pairs(offsets).len() as u32);
            lemma_pairs_keep(sorted_pairs(offsets), 0, head);
            assert(bytes.subrange(0, head.len() as int) == head);
            assert(head.subrange(0, start.len() as int) =~= start);
            assert(bytes.subrange(0, start.len() as int) =~= bytes.subrange(
                0,
                head.len() as int,
            ).subrange(0, start.len() as int));
        },
        _ => {},
    }
}

/// Jump offsets are written behind what stands already.
pub proof fn lemma_offsets_keep(v: Seq<i32>, from: int, acc: Seq<u8>)
    ensures
        offsets_bytes(v, from, acc).len() >= acc.len(),
        offsets_bytes(v, from, acc).subrange(0, acc.len() as int) == acc,
    decreases v.len() - from,
{
    if 0 <= from < v.len() {
        lemma_offsets_keep(v, from + 1, acc + i32_bytes(v[from]));
        assert((acc + i32_bytes(v[from])).subrange(0, acc.len() as int) =~= acc);
        assert(offsets_bytes(v, from, acc).subrange(0, acc.len() as int) =~= offsets_bytes(
            v,
            from,
            acc,
        ).subrange(0, (acc + i32_bytes(v[from])).len() as int).subrange(0, acc.len() as int));
    } else {
        assert(acc.subrange(0, acc.len() as int) =~= acc);
    }
}

/// Pairs are written behind what stands already.
pub proof fn lemma_pairs_keep(v: Seq<(i32, i32)>, from: int, acc: Seq<u8>)
    ensures
        pairs_bytes(v, from, acc).len() >= acc.len(),
        pairs_bytes(v, from, acc).subrange(0, acc.len() as int) == acc,
    decreases v.len() - from,
{
    if 0 <= from < v.len() {
        let next = acc + i32_bytes(v[from].0) + i32_bytes(v[from].1);
        lemma_pairs_keep(v, from + 1, next);
        assert(next.subrange(0, acc.len() as int) =~= acc);
        assert(pairs_bytes(v, from, acc).subrange(0, acc.len() as int) =~= pairs_bytes(
            v,
            from,
            acc,
        ).subrange(0, next.len() as int).subrange(0, acc.len() as int));
    } else {
        assert(acc.subrange(0, acc.len() as int) =~= acc);
    }
}

/// The opcode of an instruction that stands alone.
fn simple_opcode_of(insn: &Instruction) -> (r: Option<u8>)
    ensures
        r == simple_opcode(*insn),
{
    reveal(simple_opcode);
    match insn {
        Instruction::NOP => Some(0x00),
        Instruction::AConstNull => Some(0x01),
        Instruction::IConstM1 => Some(0x02),
        Instruction::IConst0 => Some(0x03),
        Instruction::IConst1 => Some(0x04),
        Instruction::IConst2 => Some(0x05),
        Instruction::IConst3 => Some(0x06),
        Instruction::IConst4 => Some(0x07),
        Instruction::IConst5 => Some(0x08),
        Instruction::LConst0 => Some(0x09),
        Instruction::LConst1 => Some(0x0A),
        Instruction::FConst0 => Some(0x0B),
        Instruction::FConst1 => Some(0x0C),
        Instruction::FConst2 => Some(0x0D),
        Instruction::DConst0 => Some(0x0E),
        Instruction::DConst1 => Some(0x0F),
        Instruction::ILoad0 => Some(0x1A),
        Instruction::ILoad1 => Some(0x1B),
        Instruction::ILoad2 => Some(0x1C),
        Instruction::ILoad3 => Some(0x1D),
        Instruction::LLoad0 => Some(0x1E),
        Instruction::LLoad1 => Some(0x1F),
        Instruction::LLoad2 => Some(0x20),
        Instruction::LLoad3 => Some(0x21),
        Instruction::FLoad0 => Some(0x22),
        Instruction::FLoad1 => Some(0x23),
        Instruction::FLoad2 => Some(0x24),
        Instruction::FLoad3 => Some(0x25),
        Instruction::DLoad0 => Some(0x26),
        Instruction::DLoad1 => Some(0x27),
        Instruction::DLoad2 => Some(0x28),
        Instruction::DLoad3 => Some(0x29),
        Instruction::ALoad0 => Some(0x2A),
        Instruction::ALoad1 => Some(0x2B),
        Instruction::ALoad2 => Some(0x2C),
        Instruction::ALoad3 => Some(0x2D),
        Instruction::IALoad => Some(0x2E),
        Instruction::LALoad => Some(0x2F),
        Instruction::FALoad => Some(0x30),
        Instruction::DALoad => Some(0x31),
        Instruction::AALoad => Some(0x32),
        Instruction::BALoad => Some(0x33),
        Instruction::CALoad => Some(0x34),
        Instruction::SALoad => Some(0x35),
        Instruction::IStore0 => Some(0x3B),
        Instruction::IStore1 => Some(0x3C),
        Instruction::IStore2 => Some(0x3D),
        Instruction::IStore3 => Some(0x3E),
        Instruction::LStore0 => Some(0x3F),
        Instruction::LStore1 => Some(0x40),
        Instruction::LStore2 => Some(0x41),
        Instruction::LStore3 => Some(0x42),
        Instruction::FStore0 => Some(0x43),
        Instruction::FStore1 => Some(0x44),
        Instruction::FStore2 => Some(0x45),
        Instruction::FStore3 => Some(0x46),
        Instruction::DStore0 => Some(0x47),
        Instruction::DStore1 => Some(0x48),
        Instruction::DStore2 => Some(0x49),
        Instruction::DStore3 => Some(0x4A),
        Instruction::AStore0 => Some(0x4B),
        Instruction::AStore1 => Some(0x4C),
        Instruction::AStore2 => Some(0x4D),
        Instruction::AStore3 => Some(0x4E),
        Instruction::IAStore => Some(0x4F),
        Instruction::LAStore => Some(0x50),
        Instruction::FAStore => Some(0x51),
        Instruction::DAStore => Some(0x52),
        Instruction::AAStore => Some(0x53),
        Instruction::BAStore => Some(0x54),
        Instruction::CAStore => Some(0x55),
        Instruction::SAStore => Some(0x56),
        Instruction::Pop => Some(0x57),
        Instruction::Pop2 => Some(0x58),
        Instruction::Dup => Some(0x59),
        Instruction::DupX1 => Some(0x5A),
        Instruction::DupX2 => Some(0x5B),
        Instruction::Dup2 => Some(0x5C),
        Instruction::Dup2X1 => Some(0x5D),
        Instruction::Dup2X2 => Some(0x5E),
        Instruction::Swap => Some(0x5F),
        Instruction::IAdd => Some(0x60),
        Instruction::LAdd => Some(0x61),
        Instruction::FAdd => Some(0x62),
        Instruction::DAdd => Some(0x63),
        Instruction::ISub => Some(0x64),
        Instruction::LSub => Some(0x65),
        Instruction::FSub => Some(0x66),
        Instruction::DSub => Some(0x67),
        Instruction::IMul => Some(0x68),
        Instruction::LMul => Some(0x69),
        Instruction::FMul => Some(0x6A),
        Instruction::DMul => Some(0x6B),
        Instruction::IDiv => Some(0x6C),
        Instruction::LDiv => Some(0x6D),
        Instruction::FDiv => Some(0x6E),
        Instruction::DDiv => Some(0x6F),
        Instruction::IRem => Some(0x70),
        Instruction::LRem => Some(0x71),
        Instruction::FRem => Some(0x72),
        Instruction::DRem => Some(0x73),
        Instruction::INeg => Some(0x74),
        Instruction::LNeg => Some(0x75),
        Instruction::FNeg => Some(0x76),
        Instruction::DNeg => Some(0x77),
        Instruction::IShL => Some(0x78),
        Instruction::LShL => Some(0x79),
        Instruction::IShR => Some(0x7A),
        Instruction::LShR => Some(0x7B),
        Instruction::IUShR => Some(0x7C),
        Instruction::LUShR => Some(0x7D),
        Instruction::IAnd => Some(0x7E),
        Instruction::LAnd => Some(0x7F),
        Instruction::IOr => Some(0x80),
        Instruction::LOr => Some(0x81),
        Instruction::IXOr => Some(0x82),
        Instruction::LXOr => Some(0x83),
        Instruction::I2L => Some(0x85),
        Instruction::I2F => Some(0x86),
        Instruction::I2D => Some(0x87),
        Instruction::L2I => Some(0x88),
        Instruction::L2F => Some(0x89),
        Instruction::L2D => Some(0x8A),
        Instruction::F2I => Some(0x8B),
        Instruction::F2L => Some(0x8C),
        Instruction::F2D => Some(0x8D),
        Instruction::D2I => Some(0x8E),
        Instruction::D2L => Some(0x8F),
        Instruction::D2F => Some(0x90),
        Instruction::I2B => Some(0x91),
        Instruction::I2C => Some(0x92),
        Instruction::I2S => Some(0x93),
        Instruction::LCmp => Some(0x94),
        Instruction::FCmpL => Some(0x95),
        Instruction::FCmpG => Some(0x96),
        Instruction::DCmpL => Some(0x97),
        Instruction::DCmpG => Some(0x98),
        Instruction::IReturn => Some(0xAC),
        Instruction::LReturn => Some(0xAD),
        Instruction::FReturn => Some(0xAE),
        Instruction::DReturn => Some(0xAF),
        Instruction::AReturn => Some(0xB0),
        Instruction::Return => Some(0xB1),
        Instruction::ArrayLength => Some(0xBE),
        Instruction::AThrow => Some(0xBF),
        Instruction::MonitorEnter => Some(0xC2),
        Instruction::MonitorExit => Some(0xC3),
        Instruction::BreakPoint => Some(0xCA),
        Instruction::ImpDep1 => Some(0xFE),
        Instruction::ImpDep2 => Some(0xFF),
        _ => None,
    }
}

/// The opcode and the value of an instruction that takes a signed 16-bit value.
fn short_opcode_of(insn: &Instruction) -> (r: Option<(u8, i16)>)
    ensures
        r == short_opcode(*insn),
{
    reveal(short_opcode);
    match insn {
        Instruction::SIPush(v) => Some((0x11, *v)),
        Instruction::IfEq(v) => Some((0x99, *v)),
        Instruction::IfNE(v) => Some((0x9A, *v)),
        Instruction::IfLT(v) => Some((0x9B, *v)),
        Instruction::IfGE(v) => Some((0x9C, *v)),
        Instruction::IfGT(v) => Some((0x9D, *v)),
        Instruction::IfLE(v) => Some((0x9E, *v)),
        Instruction::IfICmpEq(v) => Some((0x9F, *v)),
        Instruction::IfICmpNE(v) => Some((0xA0, *v)),
        Instruction::IfICmpLT(v) => Some((0xA1, *v)),
        Instruction::IfICmpGE(v) => Some((0xA2, *v)),
        Instruction::IfICmpGT(v) => Some((0xA3, *v)),
        Instruction::IfICmpLE(v) => Some((0xA4, *v)),
        Instruction::IfACmpEq(v) => Some((0xA5, *v)),
        Instruction::IfACmpNE(v) => Some((0xA6, *v)),
        Instruction::IfNull(v) => Some((0xC6, *v)),
        Instruction::IfNonNull(v) => Some((0xC7, *v)),
        _ => None,
    }
}

/// The opcode and the index of an instruction that takes the index of a local variable.
fn local_opcode_of(insn: &Instruction) -> (r: Option<(u8, u16)>)
    ensures
        r == local_opcode(*insn),
{
    reveal(local_opcode);
    match insn {
        Instruction::ILoad(v) => Some((0x15, *v)),
        Instruction::LLoad(v) => Some((0x16, *v)),
        Instruction::FLoad(v) => Some((0x17, *v)),
        Instruction::DLoad(v) => Some((0x18, *v)),
        Instruction::ALoad(v) => Some((0x19, *v)),
        Instruction::IStore(v) => Some((0x36, *v)),
        Instruction::LStore(v) => Some((0x37, *v)),
        Instruction::FStore(v) => Some((0x38, *v)),
        Instruction::DStore(v) => Some((0x39, *v)),
        Instruction::AStore(v) => Some((0x3A, *v)),
        Instruction::Ret(v) => Some((0xA9, *v)),
        _ => None,
    }
}

/// The opcode and the index of an instruction that takes a constant pool index of two bytes.
fn pool_opcode_of(insn: &Instruction) -> (r: Option<(u8, u16)>)
    ensures
        r == pool_opcode(*insn),
{
    reveal(pool_opcode);
    match insn {
        Instruction::GetStatic(v) => Some((0xB2, *v)),
        Instruction::PutStatic(v) => Some((0xB3, *v)),
        Instruction::GetField(v) => Some((0xB4, *v)),
        Instruction::PutField(v) => Some((0xB5, *v)),
        Instruction::InvokeVirtual(v) => Some((0xB6, *v)),
        Instruction::InvokeSpecial(v) => Some((0xB7, *v)),
        Instruction::InvokeStatic(v) => Some((0xB8, *v)),
        Instruction::New(v) => Some((0xBB, *v)),
        Instruction::ANewArray(v) => Some((0xBD, *v)),
        Instruction::CheckCast(v) => Some((0xC0, *v)),
        Instruction::InstanceOf(v) => Some((0xC1, *v)),
        _ => None,
    }
}

/// Writes a jump, with the opcode that the size of its offset asks for.
fn write_jump(encoder: &mut Encoder, narrow: u8, wide: u8, offset: i32)
    ensures
        final(encoder)@ == old(encoder)@ + jump_bytes(narrow, wide, offset),
{
    if -0x8000 <= offset && offset <= 0x7FFF {
        encoder.write_u8(narrow);
        encoder.write_i16(offset as i16);
    } else {
        encoder.write_u8(wide);
        encoder.write_i32(offset);
    }
    assert(encoder@ =~= old(encoder)@ + jump_bytes(narrow, wide, offset));
}

/// Writes an instruction on a local variable.
fn write_local(encoder: &mut Encoder, op: u8, index: u16)
    ensures
        final(encoder)@ == old(encoder)@ + local_bytes(op, index),
{
    if index <= 0xFF {
        encoder.write_u8(op);
        encoder.write_u8(index as u8);
    } else {
        encoder.write_u8(0xC4);
        encoder.write_u8(op);
        encoder.write_u16(index);
    }
    assert(encoder@ =~= old(encoder)@ + local_bytes(op, index));
}

/// Writes an instruction that is no switch.
fn write_plain(encoder: &mut Encoder, insn: &Instruction, pool: &Pool)
    requires
        pool.wf(),
    ensures
        final(encoder)@ == old(encoder)@ + plain_bytes(*insn, pool@),
{
    if let Some(op) = simple_opcode_of(insn) {
        encoder.write_u8(op);
        assert(encoder@ =~= old(encoder)@ + plain_bytes(*insn, pool@));
        return ;
    }
    if let Some((op, value)) = short_opcode_of(insn) {
        encoder.write_u8(op);
        encoder.write_i16(value);
        assert(encoder@ =~= old(encoder)@ + plain_bytes(*insn, pool@));
        return ;
    }
    if let Some((op, index)) = local_opcode_of(insn) {
        write_local(encoder, op, index);
        return ;
    }
    if let Some((op, index)) = pool_opcode_of(insn) {
        encoder.write_u8(op);
        encoder.write_u16(index);
        assert(encoder@ =~= old(encoder)@ + plain_bytes(*insn, pool@));
        return ;
    }
    match insn {
        Instruction::BIPush(value) => {
            encoder.write_u8(0x10);
            encoder.write_i8(*value);
        },
        Instruction::LDC(index) => {
            let wide = match pool.get(*index) {
                Ok(item) => item.is_double(),
                Err(_) => false,
            };
            if wide {
                encoder.write_u8(0x14);
                encoder.write_u16(*index);
            } else if *index <= 0xFF {
                encoder.write_u8(0x12);
                encoder.write_u8(*index as u8);
            } else {
                encoder.write_u8(0x13);
                encoder.write_u16(*index);
            }
        },
        Instruction::IInc(index, value) => {
            if *index <= 0xFF && -0x80 <= *value && *value <= 0x7F {
                encoder.write_u8(0x84);
                encoder.write_u8(*index as u8);
                encoder.write_i8(*value as i8);
            } else {
                encoder.write_u8(0xC4);
                encoder.write_u8(0x84);
                encoder.write_u16(*index);
                encoder.write_i16(*value);
            }
        },
        Instruction::GoTo(offset) => write_jump(encoder, 0xA7, 0xC8, *offset),
        Instruction::JSR(offset) => write_jump(encoder, 0xA8, 0xC9, *offset),
        Instruction::InvokeInterface(index, count) => {
            encoder.write_u8(0xB9);
            encoder.write_u16(*index);
            encoder.write_u8(*count);
            encoder.write_u8(0);
        },
        Instruction::InvokeDynamic(index) => {
            encoder.write_u8(0xBA);
            encoder.write_u16(*index);
            encoder.write_u8(0);
            encoder.write_u8(0);
        },
        Instruction::NewArray(array_type) => {
            encoder.write_u8(0xBC);
            encoder.write_u8(
                match array_type {
                    ArrayType::Boolean => 4,
                    ArrayType::Char => 5,
                    ArrayType::Float => 6,
                    ArrayType::Double => 7,
                    ArrayType::Byte => 8,
                    ArrayType::Short => 9,
                    ArrayType::Int => 10,
                    ArrayType::Long => 11,
                },
            );
        },
        Instruction::MultiANewArray(index, dimensions) => {
            encoder.write_u8(0xC5);
            encoder.write_u16(*index);
            encoder.write_u8(*dimensions);
        },
        _ => {},
    }
    assert(encoder@ =~= old(encoder)@ + plain_bytes(*insn, pool@));
}

/// Writes the opcode of a switch that stands at the offset `at`, and the
/// padding behind it.
#[verifier::loop_isolation(false)]
fn write_switch_head(encoder: &mut Encoder, op: u8, at: u32)
    ensures
        final(encoder)@ == old(encoder)@ + (seq![op] + zeros(padding(at))),
{
    encoder.write_u8(op);
    let count = 3 - at % 4;
    let mut i: u32 = 0;
    while i < count
        invariant
            i <= count,
            encoder@ == old(encoder)@ + (seq![op] + zeros(i as int)),
        decreases count - i,
    {
        encoder.write_u8(0);
        i += 1;
        assert(encoder@ =~= old(encoder)@ + (seq![op] + zeros(i as int)));
    }
}

/// Writes the jump offsets of a table switch.
#[verifier::loop_isolation(false)]
fn write_offsets(encoder: &mut Encoder, offsets: &Vec<i32>)
    ensures
        final(encoder)@ == offsets_bytes(offsets@, 0, old(encoder)@),
{
    let mut i: usize = 0;
    while i < offsets.len()
        invariant
            i <= offsets@.len(),
            offsets_bytes(offsets@, 0, old(encoder)@) == offsets_bytes(offsets@, i as int, encoder@),
        decreases offsets@.len() - i,
    {
        encoder.write_i32(offsets[i]);
        i += 1;
    }
}

/// A pair that is added at the end is written at the end.
pub proof fn lemma_pairs_bytes_push(v: Seq<(i32, i32)>, pair: (i32, i32), from: int, acc: Seq<u8>)
    requires
        0 <= from <= v.len(),
    ensures
        pairs_bytes(v.push(pair), from, acc) == pairs_bytes(v, from, acc) + i32_bytes(pair.0)
            + i32_bytes(pair.1),
    decreases v.len() - from,
{
    if from < v.len() {
        assert(v.push(pair)[from] == v[from]);
        lemma_pairs_bytes_push(v, pair, from + 1, acc + i32_bytes(v[from].0) + i32_bytes(v[from].1));
    } else {
        assert(v.push(pair)[from] == pair);
        assert(pairs_bytes(v.push(pair), from + 1, acc + i32_bytes(pair.0) + i32_bytes(pair.1)) == acc
            + i32_bytes(pair.0) + i32_bytes(pair.1));
    }
}

/// Where no match value lies from `a` up to `b`, the pairs up to `b` are
/// those up to `a`.
pub proof fn lemma_pairs_gap(m: Map<i32, i32>, lo: int, a: int, b: int)
    requires
        i32::MIN <= a <= b <= i32::MAX + 1,
        forall|k: i32| a <= k < b ==> !m.contains_key(k),
    ensures
        pairs_between(m, lo, b) == pairs_between(m, lo, a),
    decreases b - a,
{
    if a < b {
        lemma_pairs_gap(m, lo, a, b - 1);
        assert(!m.contains_key((b - 1) as i32));
        if lo >= b {
        }
    }
}

/// There are no more pairs than match values.
pub proof fn lemma_pairs_between_len(m: Map<i32, i32>, lo: int, hi: int)
    requires
        lo <= hi,
    ensures
        pairs_between(m, lo, hi).len() <= hi - lo,
    decreases hi - lo,
{
    if lo < hi {
        lemma_pairs_between_len(m, lo, hi - 1);
    }
}

/// Writes the pairs of a lookup switch, in ascending order of their match
/// values, and returns their number.
fn write_match_pairs(encoder: &mut Encoder, offsets: &BTreeMap<i32, i32>) -> (n: u64)
    ensures
        final(encoder)@ == pairs_bytes(sorted_pairs(offsets@), 0, old(encoder)@),
        n == sorted_pairs(offsets@).len(),
{
    broadcast use vstd::std_specs::btree::group_btree_axioms;

    let ghost m = offsets@;
    let ghost start = encoder@;
    let ghost mut bound: int = i32::MIN as int;
    let ghost mut done: Seq<(i32, i32)> = Seq::empty();
    let mut n: u64 = 0;
    let walk = offsets.iter();
    proof {
        let rem = walk.remaining();
        assert forall|keys: Seq<i32>|
            #[trigger] vstd::std_specs::btree::increasing_seq(keys) && keys.len() == rem.len() && (
            forall|i: int| 0 <= i < keys.len() ==> keys[i] == *rem[i].0) implies (forall|
            i: int,
            j: int,
        | 0 <= i < j < rem.len() ==> *rem[i].0 < *rem[j].0) by {
            lemma_increasing_is_ascending(keys);
            assert forall|i: int, j: int| 0 <= i < j < rem.len() implies *rem[i].0 < *rem[j].0 by {
                assert(keys[i] < keys[j]);
            }
        }
        assert(forall|i: int, j: int| 0 <= i < j < rem.len() ==> *rem[i].0 < *rem[j].0);
        assert forall|k: i32| m.contains_key(k) implies exists|i: int|
            0 <= i < rem.len() && *rem[i].0 == k by {
            assert(rem.contains((&k, &m[k])));
            let i = choose|i: int| 0 <= i < rem.len() && rem[i] == (&k, &m[k]);
            assert(*rem[i].0 == k);
        }
    }
    let mut it = VerusForLoopWrapper::new(walk, Ghost(None));
    loop
        invariant
            it.wf(),
            it.iter.obeys_prophetic_iter_laws(),
            it.iter.decrease() is Some,
            m == offsets@,
            i32::MIN <= bound <= i32::MAX + 1,
            done == pairs_between(m, i32::MIN as int, bound),
            n == done.len(),
            encoder@ == pairs_bytes(done, 0, start),
            forall|i: int, j: int|
                0 <= i < j < it.iter.remaining().len() ==> *it.iter.remaining()[i].0 < *it.iter.remaining()[j].0,
            forall|i: int|
                0 <= i < it.iter.remaining().len() ==> m.contains_key(*(#[trigger] it.iter.remaining()[i]).0)
                    && m[*it.iter.remaining()[i].0] == *it.iter.remaining()[i].1 && *it.iter.remaining()[i].0
                    >= bound,
            forall|k: i32|
                m.contains_key(k) && k >= bound ==> exists|i: int|
                    0 <= i < it.iter.remaining().len() && *it.iter.remaining()[i].0 == k,
        ensures
            encoder@ == pairs_bytes(sorted_pairs(m), 0, start),
            n == sorted_pairs(m).len(),
        decreases it.iter.decrease()->0,
    {
        let ghost rem = it.iter.remaining();
        let ghost before = encoder@;
        match it.next() {
            Some((key, offset)) => {
                proof {
                    assert(rem[0] == (key, offset));
                    assert forall|k: i32| bound <= k < *key implies !m.contains_key(k) by {
                        if m.contains_key(k) {
                            let i = choose|i: int| 0 <= i < rem.len() && *rem[i].0 == k;
                            if i > 0 {
                                assert(*rem[0].0 < *rem[i].0);
                            }
                        }
                    }
                    lemma_pairs_gap(m, i32::MIN as int, bound, *key as int);
                    lemma_pairs_bytes_push(done, (*key, *offset), 0, start);
                    lemma_pairs_between_len(m, i32::MIN as int, bound);
                    done = done.push((*key, *offset));
                    bound = *key + 1;
                    let rest = it.iter.remaining();
                    assert forall|i: int| 0 <= i < rest.len() implies m.contains_key(
                        *(#[trigger] rest[i]).0,
                    ) && m[*rest[i].0] == *rest[i].1 && *rest[i].0 >= bound by {
                        assert(rest[i] == rem[i + 1]);
                        assert(*rem[0].0 < *rem[i + 1].0);
                    }
                    assert forall|i: int, j: int| 0 <= i < j < rest.len() implies *rest[i].0
                        < *rest[j].0 by {
                        assert(rest[i] == rem[i + 1]);
                        assert(rest[j] == rem[j + 1]);
                    }
                    assert forall|k: i32| m.contains_key(k) && k >= bound implies exists|i: int|
                        0 <= i < rest.len() && *rest[i].0 == k by {
                        let i = choose|i: int| 0 <= i < rem.len() && *rem[i].0 == k;
                        assert(i > 0);
                        assert(rest[i - 1] == rem[i]);
                    }
                }
                encoder.write_i32(*key);
                encoder.write_i32(*offset);
                n += 1;
            },
            None => {
                proof {
                    assert forall|k: i32| bound <= k < i32::MAX + 1 implies !m.contains_key(k) by {
                        if m.contains_key(k) {
                            let i = choose|i: int| 0 <= i < rem.len() && *rem[i].0 == k;
                        }
                    }
                    lemma_pairs_gap(m, i32::MIN as int, bound, i32::MAX + 1);
                }
                break ;
            },
        }
    }
    n
}

/// Pairs behind `acc` are `acc`, and behind it the pairs.
pub proof fn lemma_pairs_bytes_behind(v: Seq<(i32, i32)>, from: int, acc: Seq<u8>)
    ensures
        pairs_bytes(v, from, acc) == acc + pairs_bytes(v, from, Seq::empty()),
    decreases v.len() - from,
{
    if 0 <= from < v.len() {
        let pair = i32_bytes(v[from].0) + i32_bytes(v[from].1);
        lemma_pairs_bytes_behind(v, from + 1, acc + i32_bytes(v[from].0) + i32_bytes(v[from].1));
        lemma_pairs_bytes_behind(
            v,
            from + 1,
            Seq::<u8>::empty() + i32_bytes(v[from].0) + i32_bytes(v[from].1),
        );
        assert(acc + i32_bytes(v[from].0) + i32_bytes(v[from].1) + pairs_bytes(
            v,
            from + 1,
            Seq::empty(),
        ) =~= acc + (Seq::<u8>::empty() + i32_bytes(v[from].0) + i32_bytes(v[from].1) + pairs_bytes(
            v,
            from + 1,
            Seq::empty(),
        )));
    } else {
        assert(acc + Seq::<u8>::empty() =~= acc);
    }
}

/// Writes a table switch at the offset `at`.
fn write_table_switch(
    encoder: &mut Encoder,
    at: u32,
    default: i32,
    low: i32,
    high: i32,
    offsets: &Vec<i32>,
) -> (r: Result<(), Error>)
    ensures
        wrote(
            *old(encoder),
            *final(encoder),
            r,
            instruction_bytes(
                InstructionView::TableSwitch { default, low, high, offsets: offsets@ },
                at,
                Slots::empty(),
            ),
        ),
{
    let size: u64 = if low <= high {
        (high as i64 - low as i64 + 1) as u64
    } else {
        0
    };
    if offsets.len() as u64 != size {
        return Err(Error::InvalidInstruction { op_code: 0xAA, at });
    }
    let mut switch = Encoder::new();
    write_switch_head(&mut switch, 0xAA, at);
    switch.write_i32(default);
    switch.write_i32(low);
    switch.write_i32(high);
    assert(switch@ =~= seq![0xAAu8] + zeros(padding(at)) + i32_bytes(default) + i32_bytes(low)
        + i32_bytes(high));
    write_offsets(&mut switch, offsets);
    let bytes = switch.bytes();
    encoder.write_bytes(bytes.as_slice());
    Ok(())
}

/// Writes a lookup switch at the offset `at`.
fn write_lookup_switch(encoder: &mut Encoder, at: u32, default: i32, offsets: &BTreeMap<i32, i32>) -> (r:
    Result<(), Error>)
    ensures
        wrote(
            *old(encoder),
            *final(encoder),
            r,
            instruction_bytes(
                InstructionView::LookupSwitch { default, offsets: offsets@ },
                at,
                Slots::empty(),
            ),
        ),
{
    let mut pairs = Encoder::new();
    let count = write_match_pairs(&mut pairs, offsets);
    if count > 0xFFFF_FFFF {
        return Err(Error::LimitExceeded);
    }
    let mut switch = Encoder::new();
    write_switch_head(&mut switch, 0xAB, at);
    switch.write_i32(default);
    switch.write_u32(count as u32);
    let ghost head = seq![0xABu8] + zeros(padding(at)) + i32_bytes(default) + u32_bytes(count as u32);
    assert(switch@ =~= head);
    let bytes = pairs.bytes();
    switch.write_bytes(bytes.as_slice());
    proof {
        lemma_pairs_bytes_behind(sorted_pairs(offsets@), 0, head);
    }
    let bytes = switch.bytes();
    encoder.write_bytes(bytes.as_slice());
    Ok(())
}

/// Writes the long form of an instruction, where it has one of `size`
/// bytes, and says whether it did.
fn write_long(encoder: &mut Encoder, insn: &Instruction, pool: &Pool, size: usize) -> (done: bool)
    requires
        pool.wf(),
    ensures
        match long_of_size(insn@, pool@, size as int) {
            Some(long) => done && final(encoder)@ == old(encoder)@ + long,
            None => !done && final(encoder)@ == old(encoder)@,
        },
{
    match insn {
        Instruction::TableSwitch { .. } => {
            return false;
        },
        Instruction::LookupSwitch { .. } => {
            return false;
        },
        _ => {},
    }
    if simple_opcode_of(insn).is_some() || short_opcode_of(insn).is_some() {
        return false;
    }
    if let Some((op, index)) = local_opcode_of(insn) {
        if size != 4 {
            return false;
        }
        encoder.write_u8(0xC4);
        encoder.write_u8(op);
        encoder.write_u16(index);
        assert(encoder@ =~= old(encoder)@ + (seq![0xC4u8, op] + u16_bytes(index)));
        return true;
    }
    if pool_opcode_of(insn).is_some() {
        return false;
    }
    match insn {
        Instruction::LDC(index) => {
            let wide = match pool.get(*index) {
                Ok(item) => item.is_double(),
                Err(_) => false,
            };
            if wide || size != 3 {
                return false;
            }
            encoder.write_u8(0x13);
            encoder.write_u16(*index);
            assert(encoder@ =~= old(encoder)@ + (seq![0x13u8] + u16_bytes(*index)));
            true
        },
        Instruction::IInc(index, value) => {
            if size != 6 {
                return false;
            }
            encoder.write_u8(0xC4);
            encoder.write_u8(0x84);
            encoder.write_u16(*index);
            encoder.write_i16(*value);
            assert(encoder@ =~= old(encoder)@ + (seq![0xC4u8, 0x84u8] + u16_bytes(*index)
                + u16_bytes(as_u16(*value))));
            true
        },
        Instruction::GoTo(offset) => {
            if size != 5 {
                return false;
            }
            encoder.write_u8(0xC8);
            encoder.write_i32(*offset);
            assert(encoder@ =~= old(encoder)@ + (seq![0xC8u8] + i32_bytes(*offset)));
            true
        },
        Instruction::JSR(offset) => {
            if size != 5 {
                return false;
            }
            encoder.write_u8(0xC9);
            encoder.write_i32(*offset);
            assert(encoder@ =~= old(encoder)@ + (seq![0xC9u8] + i32_bytes(*offset)));
            true
        },
        _ => false,
    }
}

/// Writes an instruction behind the code that `encoder` holds.
pub fn write_instruction(encoder: &mut Encoder, insn: &Instruction, pool: &Pool) -> (r: Result<
    (),
    Error,
>)
    requires
        pool.wf(),
    ensures
        wrote(
            *old(encoder),
            *final(encoder),
            r,
            next_instruction_bytes(old(encoder)@, insn@, pool@),
        ),
{
    let len = encoder.len();
    if len > 0xFFFF_FFFF {
        return Err(Error::LimitExceeded);
    }
    let at = len as u32;
    match insn {
        Instruction::TableSwitch { default, low, high, offsets } => write_table_switch(
            encoder,
            at,
            *default,
            *low,
            *high,
            offsets,
        ),
        Instruction::LookupSwitch { default, offsets } => write_lookup_switch(
            encoder,
            at,
            *default,
            offsets,
        ),
        _ => {
            write_plain(encoder, insn, pool);
            Ok(())
        },
    }
}

/// Writes the code of a method, behind its length in four bytes.
#[verifier::loop_isolation(false)]
pub fn write_code_stream(
    encoder: &mut Encoder,
    instructions: &Vec<Option<Instruction>>,
    pool: &Pool,
) -> (r: Result<(), Error>)
    requires
        pool.wf(),
    ensures
        wrote(
            *old(encoder),
            *final(encoder),
            r,
            code_stream_bytes(code_view(instructions@), pool@),
        ),
{
    let ghost v = code_view(instructions@);
    let mut code = Encoder::new();
    let mut i: usize = 0;
    while i < instructions.len()
        invariant
            i <= instructions@.len(),
            code_bytes(v, 0, pool@, Seq::empty()) == code_bytes(v, i as int, pool@, code@),
        decreases instructions@.len() - i,
    {
        if let Some(insn) = &instructions[i] {
            if code.len() > 0xFFFF_FFFF {
                return Err(Error::LimitExceeded);
            }
            // the entries up to the next instruction
            let mut next = i + 1;
            while next < instructions.len() && instructions[next].is_none()
                invariant
                    i < next <= instructions@.len(),
                    empty_run(v, i + 1) == next - (i + 1) + empty_run(v, next as int),
                decreases instructions@.len() - next,
            {
                next += 1;
            }
            assert(v[i as int] == Some(insn@));
            if !write_long(&mut code, insn, pool, next - i) {
                write_instruction(&mut code, insn, pool)?;
            }
        }
        i += 1;
    }
    write_count32(encoder, code.len())?;
    let bytes = code.bytes();
    encoder.write_bytes(bytes.as_slice());
    assert(encoder@ =~= old(encoder)@ + (u32_bytes(bytes@.len() as u32) + bytes@));
    Ok(())
}

} // verus!
