//! The code of a method: its instructions, each at its offset.

use vstd::prelude::*;
use std::collections::BTreeMap;
use super::super::constpool::{Pool, Slots};
use super::super::result::Error;
use super::super::tree::{
    code_view, views, ArrayType, Attribute, AttributeView, Exception, Instruction, InstructionView,
};
use super::decode::{
    as_i16, as_i32, as_i8, be_u32, i16_at, i32_at, i8_at, u16_at, u8_at, Decoder,
};
use super::grammar::{counted16, fits, mapped, parses, repeat, u16_in, Grammar, Parsed};
use super::{attributes_at, parse_attributes};

verus! {

/// The instruction of an opcode that stands alone.
#[verifier::opaque]
pub open spec fn simple(op: u8) -> Option<Instruction> {
    if op == 0x00 {
        Some(Instruction::NOP)
    } else if op == 0x01 {
        Some(Instruction::AConstNull)
    } else if op == 0x02 {
        Some(Instruction::IConstM1)
    } else if op == 0x03 {
        Some(Instruction::IConst0)
    } else if op == 0x04 {
        Some(Instruction::IConst1)
    } else if op == 0x05 {
        Some(Instruction::IConst2)
    } else if op == 0x06 {
        Some(Instruction::IConst3)
    } else if op == 0x07 {
        Some(Instruction::IConst4)
    } else if op == 0x08 {
        Some(Instruction::IConst5)
    } else if op == 0x09 {
        Some(Instruction::LConst0)
    } else if op == 0x0A {
        Some(Instruction::LConst1)
    } else if op == 0x0B {
        Some(Instruction::FConst0)
    } else if op == 0x0C {
        Some(Instruction::FConst1)
    } else if op == 0x0D {
        Some(Instruction::FConst2)
    } else if op == 0x0E {
        Some(Instruction::DConst0)
    } else if op == 0x0F {
        Some(Instruction::DConst1)
    } else if op == 0x1A {
        Some(Instruction::ILoad0)
    } else if op == 0x1B {
        Some(Instruction::ILoad1)
    } else if op == 0x1C {
        Some(Instruction::ILoad2)
    } else if op == 0x1D {
        Some(Instruction::ILoad3)
    } else if op == 0x1E {
        Some(Instruction::LLoad0)
    } else if op == 0x1F {
        Some(Instruction::LLoad1)
    } else if op == 0x20 {
        Some(Instruction::LLoad2)
    } else if op == 0x21 {
        Some(Instruction::LLoad3)
    } else if op == 0x22 {
        Some(Instruction::FLoad0)
    } else if op == 0x23 {
        Some(Instruction::FLoad1)
    } else if op == 0x24 {
        Some(Instruction::FLoad2)
    } else if op == 0x25 {
        Some(Instruction::FLoad3)
    } else if op == 0x26 {
        Some(Instruction::DLoad0)
    } else if op == 0x27 {
        Some(Instruction::DLoad1)
    } else if op == 0x28 {
        Some(Instruction::DLoad2)
    } else if op == 0x29 {
        Some(Instruction::DLoad3)
    } else if op == 0x2A {
        Some(Instruction::ALoad0)
    } else if op == 0x2B {
        Some(Instruction::ALoad1)
    } else if op == 0x2C {
        Some(Instruction::ALoad2)
    } else if op == 0x2D {
        Some(Instruction::ALoad3)
    } else if op == 0x2E {
        Some(Instruction::IALoad)
    } else if op == 0x2F {
        Some(Instruction::LALoad)
    } else if op == 0x30 {
        Some(Instruction::FALoad)
    } else if op == 0x31 {
        Some(Instruction::DALoad)
    } else if op == 0x32 {
        Some(Instruction::AALoad)
    } else if op == 0x33 {
        Some(Instruction::BALoad)
    } else if op == 0x34 {
        Some(Instruction::CALoad)
    } else if op == 0x35 {
        Some(Instruction::SALoad)
    } else if op == 0x3B {
        Some(Instruction::IStore0)
    } else if op == 0x3C {
        Some(Instruction::IStore1)
    } else if op == 0x3D {
        Some(Instruction::IStore2)
    } else if op == 0x3E {
        Some(Instruction::IStore3)
    } else if op == 0x3F {
        Some(Instruction::LStore0)
    } else if op == 0x40 {
        Some(Instruction::LStore1)
    } else if op == 0x41 {
        Some(Instruction::LStore2)
    } else if op == 0x42 {
        Some(Instruction::LStore3)
    } else if op == 0x43 {
        Some(Instruction::FStore0)
    } else if op == 0x44 {
        Some(Instruction::FStore1)
    } else if op == 0x45 {
        Some(Instruction::FStore2)
    } else if op == 0x46 {
        Some(Instruction::FStore3)
    } else if op == 0x47 {
        Some(Instruction::DStore0)
    } else if op == 0x48 {
        Some(Instruction::DStore1)
    } else if op == 0x49 {
        Some(Instruction::DStore2)
    } else if op == 0x4A {
        Some(Instruction::DStore3)
    } else if op == 0x4B {
        Some(Instruction::AStore0)
    } else if op == 0x4C {
        Some(Instruction::AStore1)
    } else if op == 0x4D {
        Some(Instruction::AStore2)
    } else if op == 0x4E {
        Some(Instruction::AStore3)
    } else if op == 0x4F {
        Some(Instruction::IAStore)
    } else if op == 0x50 {
        Some(Instruction::LAStore)
    } else if op == 0x51 {
        Some(Instruction::FAStore)
    } else if op == 0x52 {
        Some(Instruction::DAStore)
    } else if op == 0x53 {
        Some(Instruction::AAStore)
    } else if op == 0x54 {
        Some(Instruction::BAStore)
    } else if op == 0x55 {
        Some(Instruction::CAStore)
    } else if op == 0x56 {
        Some(Instruction::SAStore)
    } else if op == 0x57 {
        Some(Instruction::Pop)
    } else if op == 0x58 {
        Some(Instruction::Pop2)
    } else if op == 0x59 {
        Some(Instruction::Dup)
    } else if op == 0x5A {
        Some(Instruction::DupX1)
    } else if op == 0x5B {
        Some(Instruction::DupX2)
    } else if op == 0x5C {
        Some(Instruction::Dup2)
    } else if op == 0x5D {
        Some(Instruction::Dup2X1)
    } else if op == 0x5E {
        Some(Instruction::Dup2X2)
    } else if op == 0x5F {
        Some(Instruction::Swap)
    } else if op == 0x60 {
        Some(Instruction::IAdd)
    } else if op == 0x61 {
        Some(Instruction::LAdd)
    } else if op == 0x62 {
        Some(Instruction::FAdd)
    } else if op == 0x63 {
        Some(Instruction::DAdd)
    } else if op == 0x64 {
        Some(Instruction::ISub)
    } else if op == 0x65 {
        Some(Instruction::LSub)
    } else if op == 0x66 {
        Some(Instruction::FSub)
    } else if op == 0x67 {
        Some(Instruction::DSub)
    } else if op == 0x68 {
        Some(Instruction::IMul)
    } else if op == 0x69 {
        Some(Instruction::LMul)
    } else if op == 0x6A {
        Some(Instruction::FMul)
    } else if op == 0x6B {
        Some(Instruction::DMul)
    } else if op == 0x6C {
        Some(Instruction::IDiv)
    } else if op == 0x6D {
        Some(Instruction::LDiv)
    } else if op == 0x6E {
        Some(Instruction::FDiv)
    } else if op == 0x6F {
        Some(Instruction::DDiv)
    } else if op == 0x70 {
        Some(Instruction::IRem)
    } else if op == 0x71 {
        Some(Instruction::LRem)
    } else if op == 0x72 {
        Some(Instruction::FRem)
    } else if op == 0x73 {
        Some(Instruction::DRem)
    } else if op == 0x74 {
        Some(Instruction::INeg)
    } else if op == 0x75 {
        Some(Instruction::LNeg)
    } else if op == 0x76 {
        Some(Instruction::FNeg)
    } else if op == 0x77 {
        Some(Instruction::DNeg)
    } else if op == 0x78 {
        Some(Instruction::IShL)
    } else if op == 0x79 {
        Some(Instruction::LShL)
    } else if op == 0x7A {
        Some(Instruction::IShR)
    } else if op == 0x7B {
        Some(Instruction::LShR)
    } else if op == 0x7C {
        Some(Instruction::IUShR)
    } else if op == 0x7D {
        Some(Instruction::LUShR)
    } else if op == 0x7E {
        Some(Instruction::IAnd)
    } else if op == 0x7F {
        Some(Instruction::LAnd)
    } else if op == 0x80 {
        Some(Instruction::IOr)
    } else if op == 0x81 {
        Some(Instruction::LOr)
    } else if op == 0x82 {
        Some(Instruction::IXOr)
    } else if op == 0x83 {
        Some(Instruction::LXOr)
    } else if op == 0x85 {
        Some(Instruction::I2L)
    } else if op == 0x86 {
        Some(Instruction::I2F)
    } else if op == 0x87 {
        Some(Instruction::I2D)
    } else if op == 0x88 {
        Some(Instruction::L2I)
    } else if op == 0x89 {
        Some(Instruction::L2F)
    } else if op == 0x8A {
        Some(Instruction::L2D)
    } else if op == 0x8B {
        Some(Instruction::F2I)
    } else if op == 0x8C {
        Some(Instruction::F2L)
    } else if op == 0x8D {
        Some(Instruction::F2D)
    } else if op == 0x8E {
        Some(Instruction::D2I)
    } else if op == 0x8F {
        Some(Instruction::D2L)
    } else if op == 0x90 {
        Some(Instruction::D2F)
    } else if op == 0x91 {
        Some(Instruction::I2B)
    } else if op == 0x92 {
        Some(Instruction::I2C)
    } else if op == 0x93 {
        Some(Instruction::I2S)
    } else if op == 0x94 {
        Some(Instruction::LCmp)
    } else if op == 0x95 {
        Some(Instruction::FCmpL)
    } else if op == 0x96 {
        Some(Instruction::FCmpG)
    } else if op == 0x97 {
        Some(Instruction::DCmpL)
    } else if op == 0x98 {
        Some(Instruction::DCmpG)
    } else if op == 0xAC {
        Some(Instruction::IReturn)
    } else if op == 0xAD {
        Some(Instruction::LReturn)
    } else if op == 0xAE {
        Some(Instruction::FReturn)
    } else if op == 0xAF {
        Some(Instruction::DReturn)
    } else if op == 0xB0 {
        Some(Instruction::AReturn)
    } else if op == 0xB1 {
        Some(Instruction::Return)
    } else if op == 0xBE {
        Some(Instruction::ArrayLength)
    } else if op == 0xBF {
        Some(Instruction::AThrow)
    } else if op == 0xC2 {
        Some(Instruction::MonitorEnter)
    } else if op == 0xC3 {
        Some(Instruction::MonitorExit)
    } else if op == 0xCA {
        Some(Instruction::BreakPoint)
    } else if op == 0xFE {
        Some(Instruction::ImpDep1)
    } else if op == 0xFF {
        Some(Instruction::ImpDep2)
    } else {
        None
    }
}

/// The instruction of an opcode that takes the index of a local variable.
#[verifier::opaque]
pub open spec fn local(op: u8, index: u16) -> Option<Instruction> {
    if op == 0x15 {
        Some(Instruction::ILoad(index))
    } else if op == 0x16 {
        Some(Instruction::LLoad(index))
    } else if op == 0x17 {
        Some(Instruction::FLoad(index))
    } else if op == 0x18 {
        Some(Instruction::DLoad(index))
    } else if op == 0x19 {
        Some(Instruction::ALoad(index))
    } else if op == 0x36 {
        Some(Instruction::IStore(index))
    } else if op == 0x37 {
        Some(Instruction::LStore(index))
    } else if op == 0x38 {
        Some(Instruction::FStore(index))
    } else if op == 0x39 {
        Some(Instruction::DStore(index))
    } else if op == 0x3A {
        Some(Instruction::AStore(index))
    } else if op == 0xA9 {
        Some(Instruction::Ret(index))
    } else {
        None
    }
}

/// The instruction of an opcode that takes a signed 16-bit value.
#[verifier::opaque]
pub open spec fn short_operand(op: u8, value: i16) -> Option<Instruction> {
    if op == 0x11 {
        Some(Instruction::SIPush(value))
    } else if op == 0x99 {
        Some(Instruction::IfEq(value))
    } else if op == 0x9A {
        Some(Instruction::IfNE(value))
    } else if op == 0x9B {
        Some(Instruction::IfLT(value))
    } else if op == 0x9C {
        Some(Instruction::IfGE(value))
    } else if op == 0x9D {
        Some(Instruction::IfGT(value))
    } else if op == 0x9E {
        Some(Instruction::IfLE(value))
    } else if op == 0x9F {
        Some(Instruction::IfICmpEq(value))
    } else if op == 0xA0 {
        Some(Instruction::IfICmpNE(value))
    } else if op == 0xA1 {
        Some(Instruction::IfICmpLT(value))
    } else if op == 0xA2 {
        Some(Instruction::IfICmpGE(value))
    } else if op == 0xA3 {
        Some(Instruction::IfICmpGT(value))
    } else if op == 0xA4 {
        Some(Instruction::IfICmpLE(value))
    } else if op == 0xA5 {
        Some(Instruction::IfACmpEq(value))
    } else if op == 0xA6 {
        Some(Instruction::IfACmpNE(value))
    } else if op == 0xC6 {
        Some(Instruction::IfNull(value))
    } else if op == 0xC7 {
        Some(Instruction::IfNonNull(value))
    } else {
        None
    }
}

/// The instruction of an opcode that takes a constant pool index of two bytes.
#[verifier::opaque]
pub open spec fn pool_operand(op: u8, index: u16) -> Option<Instruction> {
    if op == 0xB2 {
        Some(Instruction::GetStatic(index))
    } else if op == 0xB3 {
        Some(Instruction::PutStatic(index))
    } else if op == 0xB4 {
        Some(Instruction::GetField(index))
    } else if op == 0xB5 {
        Some(Instruction::PutField(index))
    } else if op == 0xB6 {
        Some(Instruction::InvokeVirtual(index))
    } else if op == 0xB7 {
        Some(Instruction::InvokeSpecial(index))
    } else if op == 0xB8 {
        Some(Instruction::InvokeStatic(index))
    } else if op == 0xBB {
        Some(Instruction::New(index))
    } else if op == 0xBD {
        Some(Instruction::ANewArray(index))
    } else if op == 0xC0 {
        Some(Instruction::CheckCast(index))
    } else if op == 0xC1 {
        Some(Instruction::InstanceOf(index))
    } else {
        None
    }
}

/// The array type of a `newarray` selector.
pub open spec fn array_type(atype: u8) -> Option<ArrayType> {
    if atype == 4 {
        Some(ArrayType::Boolean)
    } else if atype == 5 {
        Some(ArrayType::Char)
    } else if atype == 6 {
        Some(ArrayType::Float)
    } else if atype == 7 {
        Some(ArrayType::Double)
    } else if atype == 8 {
        Some(ArrayType::Byte)
    } else if atype == 9 {
        Some(ArrayType::Short)
    } else if atype == 10 {
        Some(ArrayType::Int)
    } else if atype == 11 {
        Some(ArrayType::Long)
    } else {
        None
    }
}

/// The `u32` whose four bytes stand at `pos`.
pub open spec fn u32_in(s: Seq<u8>, pos: int) -> u32 {
    be_u32(s.subrange(pos, pos + 4))
}

/// The `i32` whose four bytes stand at `pos`.
pub open spec fn i32_in(s: Seq<u8>, pos: int) -> i32 {
    as_i32(u32_in(s, pos))
}

/// The number of padding bytes behind the opcode of a switch at the code
/// offset `at`: with them, what follows starts at a multiple of four.
pub open spec fn padding(at: u32) -> int {
    3 - at % 4
}

/// The number of jump offsets of a table switch.
pub open spec fn table_size(low: i32, high: i32) -> nat {
    if low <= high {
        (high - low + 1) as nat
    } else {
        0
    }
}

/// `count` jump offsets of four bytes each, behind those of `acc`.
pub open spec fn offsets_at(s: Seq<u8>, pos: int, count: nat, acc: Seq<i32>) -> Parsed<Seq<i32>>
    decreases count,
{
    if count == 0 {
        Ok((acc, pos))
    } else {
        match i32_at(s, pos) {
            Ok((offset, next)) => offsets_at(s, next, (count - 1) as nat, acc.push(offset)),
            Err(e) => Err(e),
        }
    }
}

/// `count` pairs of a match value and a jump offset, of four bytes each,
/// put into `acc` one after the other: of two pairs with one match value,
/// the later one stays.
pub open spec fn match_pairs_at(s: Seq<u8>, pos: int, count: nat, acc: Map<i32, i32>) -> Parsed<
    Map<i32, i32>,
>
    decreases count,
{
    if count == 0 {
        Ok((acc, pos))
    } else if fits(s, pos, 8) {
        match_pairs_at(s, pos + 8, (count - 1) as nat, acc.insert(i32_in(s, pos), i32_in(s, pos + 4)))
    } else {
        Err(Error::LimitExceeded)
    }
}

/// A table switch behind its opcode: the padding, `default`, `low` and
/// `high`, and one jump offset for each value from `low` to `high`.
pub open spec fn table_switch_at(s: Seq<u8>, pos: int, at: u32) -> Parsed<InstructionView> {
    let p = pos + padding(at);
    if fits(s, pos, padding(at) + 12) {
        mapped(
            offsets_at(s, p + 12, table_size(i32_in(s, p + 4), i32_in(s, p + 8)), Seq::empty()),
            |offsets: Seq<i32>|
                InstructionView::TableSwitch {
                    default: i32_in(s, p),
                    low: i32_in(s, p + 4),
                    high: i32_in(s, p + 8),
                    offsets,
                },
        )
    } else {
        Err(Error::LimitExceeded)
    }
}

/// A lookup switch behind its opcode: the padding, `default`, the number
/// of pairs, and the pairs.
pub open spec fn lookup_switch_at(s: Seq<u8>, pos: int, at: u32) -> Parsed<InstructionView> {
    let p = pos + padding(at);
    if fits(s, pos, padding(at) + 8) {
        mapped(
            match_pairs_at(s, p + 8, u32_in(s, p + 4) as nat, Map::empty()),
            |offsets: Map<i32, i32>| InstructionView::LookupSwitch { default: i32_in(s, p), offsets },
        )
    } else {
        Err(Error::LimitExceeded)
    }
}

/// What stands behind the `wide` prefix: an instruction on a local
/// variable with an index of two bytes, or `iinc` with two values of two
/// bytes.
pub open spec fn wide_at(s: Seq<u8>, pos: int, at: u32) -> Parsed<InstructionView> {
    match u8_at(s, pos) {
        Ok((op, p)) => if local(op, 0) is Some {
            mapped(u16_at(s, p), |index: u16| InstructionView::Plain(local(op, index)->Some_0))
        } else if op == 0x84 {
            if fits(s, p, 4) {
                Ok(
                    (
                        InstructionView::Plain(
                            Instruction::IInc(u16_in(s, p), as_i16(u16_in(s, p + 2))),
                        ),
                        p + 4,
                    ),
                )
            } else {
                Err(Error::LimitExceeded)
            }
        } else {
            Err(Error::InvalidInstruction { op_code: 0xC4, at })
        },
        Err(e) => Err(e),
    }
}

/// What stands behind the opcode `op`, whose own offset in the code is
/// `at`: the operands, and with them the instruction.
pub open spec fn operands_at(s: Seq<u8>, p: int, op: u8, at: u32) -> Parsed<InstructionView> {
    if simple(op) is Some {
        Ok((InstructionView::Plain(simple(op)->Some_0), p))
    } else if op == 0x10 {
        mapped(i8_at(s, p), |value: i8| InstructionView::Plain(Instruction::BIPush(value)))
    } else if short_operand(op, 0) is Some {
        mapped(i16_at(s, p), |value: i16| InstructionView::Plain(short_operand(op, value)->Some_0))
    } else if op == 0x12 {
        mapped(u8_at(s, p), |index: u8| InstructionView::Plain(Instruction::LDC(index as u16)))
    } else if op == 0x13 || op == 0x14 {
        mapped(u16_at(s, p), |index: u16| InstructionView::Plain(Instruction::LDC(index)))
    } else if local(op, 0) is Some {
        mapped(u8_at(s, p), |index: u8| InstructionView::Plain(local(op, index as u16)->Some_0))
    } else if op == 0x84 {
        if fits(s, p, 2) {
            Ok((InstructionView::Plain(Instruction::IInc(s[p] as u16, as_i8(s[p + 1]) as i16)), p + 2))
        } else {
            Err(Error::LimitExceeded)
        }
    } else if op == 0xA7 {
        mapped(i16_at(s, p), |offset: i16| InstructionView::Plain(Instruction::GoTo(offset as i32)))
    } else if op == 0xA8 {
        mapped(i16_at(s, p), |offset: i16| InstructionView::Plain(Instruction::JSR(offset as i32)))
    } else if op == 0xAA {
        table_switch_at(s, p, at)
    } else if op == 0xAB {
        lookup_switch_at(s, p, at)
    } else if pool_operand(op, 0) is Some {
        mapped(u16_at(s, p), |index: u16| InstructionView::Plain(pool_operand(op, index)->Some_0))
    } else if op == 0xB9 {
        if fits(s, p, 4) {
            Ok((InstructionView::Plain(Instruction::InvokeInterface(u16_in(s, p), s[p + 2])), p + 4))
        } else {
            Err(Error::LimitExceeded)
        }
    } else if op == 0xBA {
        if fits(s, p, 4) {
            Ok((InstructionView::Plain(Instruction::InvokeDynamic(u16_in(s, p))), p + 4))
        } else {
            Err(Error::LimitExceeded)
        }
    } else if op == 0xBC {
        match u8_at(s, p) {
            Ok((atype, next)) => match array_type(atype) {
                Some(t) => Ok((InstructionView::Plain(Instruction::NewArray(t)), next)),
                None => Err(Error::InvalidInstruction { op_code: 0xBC, at }),
            },
            Err(e) => Err(e),
        }
    } else if op == 0xC4 {
        wide_at(s, p, at)
    } else if op == 0xC5 {
        if fits(s, p, 3) {
            Ok((InstructionView::Plain(Instruction::MultiANewArray(u16_in(s, p), s[p + 2])), p + 3))
        } else {
            Err(Error::LimitExceeded)
        }
    } else if op == 0xC8 {
        mapped(i32_at(s, p), |offset: i32| InstructionView::Plain(Instruction::GoTo(offset)))
    } else if op == 0xC9 {
        mapped(i32_at(s, p), |offset: i32| InstructionView::Plain(Instruction::JSR(offset)))
    } else {
        Err(Error::InvalidInstruction { op_code: op, at })
    }
}

/// The instruction whose opcode stands at `pos`, which is the offset `at`
/// of the code.
pub open spec fn instruction_at(s: Seq<u8>, pos: int, at: u32) -> Parsed<InstructionView> {
    match u8_at(s, pos) {
        Ok((op, p)) => operands_at(s, p, op, at),
        Err(e) => Err(e),
    }
}

/// Jump offsets end behind where they start, within the input.
pub proof fn lemma_offsets_advance(s: Seq<u8>, pos: int, count: nat, acc: Seq<i32>)
    requires
        0 <= pos <= s.len(),
    ensures
        offsets_at(s, pos, count, acc) matches Ok((_, next)) ==> pos <= next <= s.len(),
    decreases count,
{
    if count > 0 && i32_at(s, pos) is Ok {
        lemma_offsets_advance(s, pos + 4, (count - 1) as nat, acc.push(i32_at(s, pos)->Ok_0.0));
    }
}

/// Match pairs end behind where they start, within the input.
pub proof fn lemma_match_pairs_advance(s: Seq<u8>, pos: int, count: nat, acc: Map<i32, i32>)
    requires
        0 <= pos <= s.len(),
    ensures
        match_pairs_at(s, pos, count, acc) matches Ok((_, next)) ==> pos <= next <= s.len(),
    decreases count,
{
    if count > 0 && fits(s, pos, 8) {
        lemma_match_pairs_advance(
            s,
            pos + 8,
            (count - 1) as nat,
            acc.insert(i32_in(s, pos), i32_in(s, pos + 4)),
        );
    }
}

/// An instruction takes at least its opcode, and ends within the input.
pub proof fn lemma_instruction_advances(s: Seq<u8>, pos: int, at: u32)
    ensures
        instruction_at(s, pos, at) matches Ok((_, next)) ==> pos < next <= s.len(),
{
    if u8_at(s, pos) is Ok {
        let (op, p) = u8_at(s, pos)->Ok_0;
        let q = p + padding(at);
        if op == 0xAA && fits(s, p, padding(at) + 12) {
            lemma_offsets_advance(
                s,
                q + 12,
                table_size(i32_in(s, q + 4), i32_in(s, q + 8)),
                Seq::empty(),
            );
        }
        if op == 0xAB && fits(s, p, padding(at) + 8) {
            lemma_match_pairs_advance(s, q + 8, u32_in(s, q + 4) as nat, Map::empty());
        }
    }
}

/// The entries that an instruction takes in the list of a code: itself,
/// and nothing for each further byte of it.
pub open spec fn padded(insn: InstructionView, size: int) -> Seq<Option<InstructionView>> {
    seq![Some(insn)] + Seq::new((size - 1) as nat, |i: int| None::<InstructionView>)
}

/// The instructions from `pos` to the end of `code`, which started at
/// `start`, behind those of `acc`: each stands at the index that is its
/// offset.
pub open spec fn instructions_from(
    code: Seq<u8>,
    start: int,
    pos: int,
    acc: Seq<Option<InstructionView>>,
) -> Parsed<Seq<Option<InstructionView>>>
    decreases code.len() - pos,
{
    if pos >= code.len() {
        Ok((acc, pos))
    } else {
        match instruction_at(code, pos, (pos - start) as u32) {
            Ok((insn, next)) => {
                proof {
                    lemma_instruction_advances(code, pos, (pos - start) as u32);
                }
                instructions_from(code, start, next, acc + padded(insn, next - pos))
            },
            Err(e) => Err(e),
        }
    }
}

/// An entry of the exception table of a code: eight bytes.
pub open spec fn exception_at(s: Seq<u8>, pos: int) -> Parsed<Exception> {
    if fits(s, pos, 8) {
        Ok(
            (
                Exception {
                    start: u16_in(s, pos),
                    end: u16_in(s, pos + 2),
                    handler: u16_in(s, pos + 4),
                    catch_type: u16_in(s, pos + 6),
                },
                pos + 8,
            ),
        )
    } else {
        Err(Error::LimitExceeded)
    }
}

/// The grammar of an exception.
pub open spec fn exception_item() -> Grammar<Exception> {
    |s: Seq<u8>, pos: int| exception_at(s, pos)
}

/// Exception entries end behind where they start, within the input.
pub proof fn lemma_exceptions_advance(s: Seq<u8>, pos: int, count: nat, acc: Seq<Exception>)
    requires
        0 <= pos <= s.len(),
    ensures
        repeat(exception_item(), s, pos, count, acc) matches Ok((_, next)) ==> pos <= next <= s.len(),
    decreases count,
{
    if count > 0 && exception_at(s, pos) is Ok {
        lemma_exceptions_advance(s, pos + 8, (count - 1) as nat, acc.push(exception_at(s, pos)->Ok_0.0));
    }
}

/// The `Code` attribute: the sizes of stack and locals, the length of the
/// code and the code itself, in which instruction follows instruction up
/// to its last byte, the exception table, and the attributes of the code.
pub open spec fn code_at(s: Seq<u8>, pos: int, pool: Slots) -> Parsed<AttributeView>
    decreases s.len() - pos, 0nat,
{
    let start = pos + 8;
    let end = start + u32_in(s, pos + 4);
    if !fits(s, pos, 8) || end > s.len() {
        Err(Error::LimitExceeded)
    } else {
        match instructions_from(s.take(end), start, start, Seq::empty()) {
            Ok((instructions, _)) => match counted16(exception_item(), s, end) {
                Ok((exceptions, p)) => {
                    proof {
                        if u16_at(s, end) is Ok {
                            lemma_exceptions_advance(
                                s,
                                end + 2,
                                u16_at(s, end)->Ok_0.0 as nat,
                                Seq::empty(),
                            );
                        }
                    }
                    mapped(
                        attributes_at(s, p, pool),
                        |attributes: Seq<AttributeView>|
                            AttributeView::Code {
                                max_stack: u16_in(s, pos),
                                max_locals: u16_in(s, pos + 2),
                                instructions,
                                exceptions,
                                attributes,
                            },
                    )
                },
                Err(e) => Err(e),
            },
            Err(e) => Err(e),
        }
    }
}

/// The instruction of an opcode that stands alone.
fn simple_instruction(op: u8) -> (r: Option<Instruction>)
    ensures
        r == simple(op),
{
    reveal(simple);
    match op {
        0x00 => Some(Instruction::NOP),
        0x01 => Some(Instruction::AConstNull),
        0x02 => Some(Instruction::IConstM1),
        0x03 => Some(Instruction::IConst0),
        0x04 => Some(Instruction::IConst1),
        0x05 => Some(Instruction::IConst2),
        0x06 => Some(Instruction::IConst3),
        0x07 => Some(Instruction::IConst4),
        0x08 => Some(Instruction::IConst5),
        0x09 => Some(Instruction::LConst0),
        0x0A => Some(Instruction::LConst1),
        0x0B => Some(Instruction::FConst0),
        0x0C => Some(Instruction::FConst1),
        0x0D => Some(Instruction::FConst2),
        0x0E => Some(Instruction::DConst0),
        0x0F => Some(Instruction::DConst1),
        0x1A => Some(Instruction::ILoad0),
        0x1B => Some(Instruction::ILoad1),
        0x1C => Some(Instruction::ILoad2),
        0x1D => Some(Instruction::ILoad3),
        0x1E => Some(Instruction::LLoad0),
        0x1F => Some(Instruction::LLoad1),
        0x20 => Some(Instruction::LLoad2),
        0x21 => Some(Instruction::LLoad3),
        0x22 => Some(Instruction::FLoad0),
        0x23 => Some(Instruction::FLoad1),
        0x24 => Some(Instruction::FLoad2),
        0x25 => Some(Instruction::FLoad3),
        0x26 => Some(Instruction::DLoad0),
        0x27 => Some(Instruction::DLoad1),
        0x28 => Some(Instruction::DLoad2),
        0x29 => Some(Instruction::DLoad3),
        0x2A => Some(Instruction::ALoad0),
        0x2B => Some(Instruction::ALoad1),
        0x2C => Some(Instruction::ALoad2),
        0x2D => Some(Instruction::ALoad3),
        0x2E => Some(Instruction::IALoad),
        0x2F => Some(Instruction::LALoad),
        0x30 => Some(Instruction::FALoad),
        0x31 => Some(Instruction::DALoad),
        0x32 => Some(Instruction::AALoad),
        0x33 => Some(Instruction::BALoad),
        0x34 => Some(Instruction::CALoad),
        0x35 => Some(Instruction::SALoad),
        0x3B => Some(Instruction::IStore0),
        0x3C => Some(Instruction::IStore1),
        0x3D => Some(Instruction::IStore2),
        0x3E => Some(Instruction::IStore3),
        0x3F => Some(Instruction::LStore0),
        0x40 => Some(Instruction::LStore1),
        0x41 => Some(Instruction::LStore2),
        0x42 => Some(Instruction::LStore3),
        0x43 => Some(Instruction::FStore0),
        0x44 => Some(Instruction::FStore1),
        0x45 => Some(Instruction::FStore2),
        0x46 => Some(Instruction::FStore3),
        0x47 => Some(Instruction::DStore0),
        0x48 => Some(Instruction::DStore1),
        0x49 => Some(Instruction::DStore2),
        0x4A => Some(Instruction::DStore3),
        0x4B => Some(Instruction::AStore0),
        0x4C => Some(Instruction::AStore1),
        0x4D => Some(Instruction::AStore2),
        0x4E => Some(Instruction::AStore3),
        0x4F => Some(Instruction::IAStore),
        0x50 => Some(Instruction::LAStore),
        0x51 => Some(Instruction::FAStore),
        0x52 => Some(Instruction::DAStore),
        0x53 => Some(Instruction::AAStore),
        0x54 => Some(Instruction::BAStore),
        0x55 => Some(Instruction::CAStore),
        0x56 => Some(Instruction::SAStore),
        0x57 => Some(Instruction::Pop),
        0x58 => Some(Instruction::Pop2),
        0x59 => Some(Instruction::Dup),
        0x5A => Some(Instruction::DupX1),
        0x5B => Some(Instruction::DupX2),
        0x5C => Some(Instruction::Dup2),
        0x5D => Some(Instruction::Dup2X1),
        0x5E => Some(Instruction::Dup2X2),
        0x5F => Some(Instruction::Swap),
        0x60 => Some(Instruction::IAdd),
        0x61 => Some(Instruction::LAdd),
        0x62 => Some(Instruction::FAdd),
        0x63 => Some(Instruction::DAdd),
        0x64 => Some(Instruction::ISub),
        0x65 => Some(Instruction::LSub),
        0x66 => Some(Instruction::FSub),
        0x67 => Some(Instruction::DSub),
        0x68 => Some(Instruction::IMul),
        0x69 => Some(Instruction::LMul),
        0x6A => Some(Instruction::FMul),
        0x6B => Some(Instruction::DMul),
        0x6C => Some(Instruction::IDiv),
        0x6D => Some(Instruction::LDiv),
        0x6E => Some(Instruction::FDiv),
        0x6F => Some(Instruction::DDiv),
        0x70 => Some(Instruction::IRem),
        0x71 => Some(Instruction::LRem),
        0x72 => Some(Instruction::FRem),
        0x73 => Some(Instruction::DRem),
        0x74 => Some(Instruction::INeg),
        0x75 => Some(Instruction::LNeg),
        0x76 => Some(Instruction::FNeg),
        0x77 => Some(Instruction::DNeg),
        0x78 => Some(Instruction::IShL),
        0x79 => Some(Instruction::LShL),
        0x7A => Some(Instruction::IShR),
        0x7B => Some(Instruction::LShR),
        0x7C => Some(Instruction::IUShR),
        0x7D => Some(Instruction::LUShR),
        0x7E => Some(Instruction::IAnd),
        0x7F => Some(Instruction::LAnd),
        0x80 => Some(Instruction::IOr),
        0x81 => Some(Instruction::LOr),
        0x82 => Some(Instruction::IXOr),
        0x83 => Some(Instruction::LXOr),
        0x85 => Some(Instruction::I2L),
        0x86 => Some(Instruction::I2F),
        0x87 => Some(Instruction::I2D),
        0x88 => Some(Instruction::L2I),
        0x89 => Some(Instruction::L2F),
        0x8A => Some(Instruction::L2D),
        0x8B => Some(Instruction::F2I),
        0x8C => Some(Instruction::F2L),
        0x8D => Some(Instruction::F2D),
        0x8E => Some(Instruction::D2I),
        0x8F => Some(Instruction::D2L),
        0x90 => Some(Instruction::D2F),
        0x91 => Some(Instruction::I2B),
        0x92 => Some(Instruction::I2C),
        0x93 => Some(Instruction::I2S),
        0x94 => Some(Instruction::LCmp),
        0x95 => Some(Instruction::FCmpL),
        0x96 => Some(Instruction::FCmpG),
        0x97 => Some(Instruction::DCmpL),
        0x98 => Some(Instruction::DCmpG),
        0xAC => Some(Instruction::IReturn),
        0xAD => Some(Instruction::LReturn),
        0xAE => Some(Instruction::FReturn),
        0xAF => Some(Instruction::DReturn),
        0xB0 => Some(Instruction::AReturn),
        0xB1 => Some(Instruction::Return),
        0xBE => Some(Instruction::ArrayLength),
        0xBF => Some(Instruction::AThrow),
        0xC2 => Some(Instruction::MonitorEnter),
        0xC3 => Some(Instruction::MonitorExit),
        0xCA => Some(Instruction::BreakPoint),
        0xFE => Some(Instruction::ImpDep1),
        0xFF => Some(Instruction::ImpDep2),
        _ => None,
    }
}

/// The instruction of an opcode that takes the index of a local variable.
fn local_instruction(op: u8, index: u16) -> (r: Option<Instruction>)
    ensures
        r == local(op, index),
        r is Some <==> local(op, 0) is Some,
{
    reveal(local);
    match op {
        0x15 => Some(Instruction::ILoad(index)),
        0x16 => Some(Instruction::LLoad(index)),
        0x17 => Some(Instruction::FLoad(index)),
        0x18 => Some(Instruction::DLoad(index)),
        0x19 => Some(Instruction::ALoad(index)),
        0x36 => Some(Instruction::IStore(index)),
        0x37 => Some(Instruction::LStore(index)),
        0x38 => Some(Instruction::FStore(index)),
        0x39 => Some(Instruction::DStore(index)),
        0x3A => Some(Instruction::AStore(index)),
        0xA9 => Some(Instruction::Ret(index)),
        _ => None,
    }
}

/// The instruction of an opcode that takes a signed 16-bit value.
fn short_instruction(op: u8, value: i16) -> (r: Option<Instruction>)
    ensures
        r == short_operand(op, value),
        r is Some <==> short_operand(op, 0) is Some,
{
    reveal(short_operand);
    match op {
        0x11 => Some(Instruction::SIPush(value)),
        0x99 => Some(Instruction::IfEq(value)),
        0x9A => Some(Instruction::IfNE(value)),
        0x9B => Some(Instruction::IfLT(value)),
        0x9C => Some(Instruction::IfGE(value)),
        0x9D => Some(Instruction::IfGT(value)),
        0x9E => Some(Instruction::IfLE(value)),
        0x9F => Some(Instruction::IfICmpEq(value)),
        0xA0 => Some(Instruction::IfICmpNE(value)),
        0xA1 => Some(Instruction::IfICmpLT(value)),
        0xA2 => Some(Instruction::IfICmpGE(value)),
        0xA3 => Some(Instruction::IfICmpGT(value)),
        0xA4 => Some(Instruction::IfICmpLE(value)),
        0xA5 => Some(Instruction::IfACmpEq(value)),
        0xA6 => Some(Instruction::IfACmpNE(value)),
        0xC6 => Some(Instruction::IfNull(value)),
        0xC7 => Some(Instruction::IfNonNull(value)),
        _ => None,
    }
}

/// The instruction of an opcode that takes a constant pool index of two bytes.
fn pool_instruction(op: u8, index: u16) -> (r: Option<Instruction>)
    ensures
        r == pool_operand(op, index),
        r is Some <==> pool_operand(op, 0) is Some,
{
    reveal(pool_operand);
    match op {
        0xB2 => Some(Instruction::GetStatic(index)),
        0xB3 => Some(Instruction::PutStatic(index)),
        0xB4 => Some(Instruction::GetField(index)),
        0xB5 => Some(Instruction::PutField(index)),
        0xB6 => Some(Instruction::InvokeVirtual(index)),
        0xB7 => Some(Instruction::InvokeSpecial(index)),
        0xB8 => Some(Instruction::InvokeStatic(index)),
        0xBB => Some(Instruction::New(index)),
        0xBD => Some(Instruction::ANewArray(index)),
        0xC0 => Some(Instruction::CheckCast(index)),
        0xC1 => Some(Instruction::InstanceOf(index)),
        _ => None,
    }
}

/// Reads the jump offsets of a table switch.
#[verifier::loop_isolation(false)]
fn parse_offsets(decoder: &mut Decoder, low: i32, high: i32) -> (r: Result<Vec<i32>, Error>)
    ensures
        final(decoder).input() == old(decoder).input(),
        match offsets_at(old(decoder).input(), old(decoder).pos(), table_size(low, high), Seq::empty()) {
            Ok((v, next)) => r is Ok && r->Ok_0@ == v && final(decoder).pos() == next,
            Err(e) => r == Err::<Vec<i32>, Error>(e),
        },
{
    let ghost s = decoder.input();
    let count: i64 = if low <= high {
        high as i64 - low as i64 + 1
    } else {
        0
    };
    let mut offsets: Vec<i32> = Vec::new();
    let mut i: i64 = 0;
    while i < count
        invariant
            0 <= i <= count,
            count == table_size(low, high),
            decoder.input() == s,
            offsets_at(s, old(decoder).pos(), table_size(low, high), Seq::empty()) == offsets_at(
                s,
                decoder.pos(),
                (count - i) as nat,
                offsets@,
            ),
        decreases count - i,
    {
        offsets.push(decoder.read_i32()?);
        i += 1;
    }
    Ok(offsets)
}

/// Reads the pairs of a lookup switch.
#[verifier::loop_isolation(false)]
fn parse_match_pairs(decoder: &mut Decoder, count: u32) -> (r: Result<BTreeMap<i32, i32>, Error>)
    ensures
        final(decoder).input() == old(decoder).input(),
        match match_pairs_at(old(decoder).input(), old(decoder).pos(), count as nat, Map::empty()) {
            Ok((m, next)) => r is Ok && r->Ok_0@ == m && final(decoder).pos() == next,
            Err(e) => r == Err::<BTreeMap<i32, i32>, Error>(e),
        },
{
    let ghost s = decoder.input();
    let mut offsets: BTreeMap<i32, i32> = BTreeMap::new();
    let mut i: u32 = 0;
    while i < count
        invariant
            i <= count,
            decoder.input() == s,
            match_pairs_at(s, old(decoder).pos(), count as nat, Map::empty()) == match_pairs_at(
                s,
                decoder.pos(),
                (count - i) as nat,
                offsets@,
            ),
        decreases count - i,
    {
        let key = decoder.read_i32()?;
        let offset = decoder.read_i32()?;
        offsets.insert(key, offset);
        i += 1;
    }
    Ok(offsets)
}

/// Reads a table switch behind its opcode.
fn parse_table_switch(decoder: &mut Decoder, at: u32) -> (r: Result<Instruction, Error>)
    ensures
        parses(
            *old(decoder),
            *final(decoder),
            r,
            table_switch_at(old(decoder).input(), old(decoder).pos(), at),
        ),
{
    // skip padding
    decoder.skip(3 - (at % 4) as usize)?;
    let default = decoder.read_i32()?;
    let low = decoder.read_i32()?;
    let high = decoder.read_i32()?;
    let offsets = parse_offsets(decoder, low, high)?;
    Ok(Instruction::TableSwitch { default, low, high, offsets })
}

/// Reads a lookup switch behind its opcode.
fn parse_lookup_switch(decoder: &mut Decoder, at: u32) -> (r: Result<Instruction, Error>)
    ensures
        parses(
            *old(decoder),
            *final(decoder),
            r,
            lookup_switch_at(old(decoder).input(), old(decoder).pos(), at),
        ),
{
    // skip padding
    decoder.skip(3 - (at % 4) as usize)?;
    let default = decoder.read_i32()?;
    let count = decoder.read_u32()?;
    let offsets = parse_match_pairs(decoder, count)?;
    Ok(Instruction::LookupSwitch { default, offsets })
}

/// Reads what stands behind the `wide` prefix.
fn parse_wide(decoder: &mut Decoder, at: u32) -> (r: Result<Instruction, Error>)
    ensures
        parses(*old(decoder), *final(decoder), r, wide_at(old(decoder).input(), old(decoder).pos(), at)),
{
    let op_code = decoder.read_u8()?;
    if local_instruction(op_code, 0).is_some() {
        let index = decoder.read_u16()?;
        proof {
            reveal(local);
        }
        Ok(local_instruction(op_code, index).unwrap())
    } else if op_code == 0x84 {
        let index = decoder.read_u16()?;
        let value = decoder.read_i16()?;
        Ok(Instruction::IInc(index, value))
    } else {
        Err(Error::InvalidInstruction { op_code: 0xC4, at })
    }
}

/// Reads the operands of the opcode `op_code`, which stands at the offset
/// `at` of the code.
fn parse_operands(decoder: &mut Decoder, op_code: u8, at: u32) -> (r: Result<Instruction, Error>)
    ensures
        parses(
            *old(decoder),
            *final(decoder),
            r,
            operands_at(old(decoder).input(), old(decoder).pos(), op_code, at),
        ),
{
    proof {
        reveal(simple);
        reveal(short_operand);
        reveal(local);
        reveal(pool_operand);
    }
    if let Some(insn) = simple_instruction(op_code) {
        return Ok(insn);
    }
    if op_code == 0x10 {
        return Ok(Instruction::BIPush(decoder.read_i8()?));
    }
    if short_instruction(op_code, 0).is_some() {
        let value = decoder.read_i16()?;
        return Ok(short_instruction(op_code, value).unwrap());
    }
    if op_code == 0x12 {
        return Ok(Instruction::LDC(decoder.read_u8()? as u16));
    }
    if op_code == 0x13 || op_code == 0x14 {
        return Ok(Instruction::LDC(decoder.read_u16()?));
    }
    if local_instruction(op_code, 0).is_some() {
        let index = decoder.read_u8()? as u16;
        return Ok(local_instruction(op_code, index).unwrap());
    }
    if op_code == 0x84 {
        let index = decoder.read_u8()? as u16;
        let value = decoder.read_i8()? as i16;
        return Ok(Instruction::IInc(index, value));
    }
    if op_code == 0xA7 {
        return Ok(Instruction::GoTo(decoder.read_i16()? as i32));
    }
    if op_code == 0xA8 {
        return Ok(Instruction::JSR(decoder.read_i16()? as i32));
    }
    if op_code == 0xAA {
        return parse_table_switch(decoder, at);
    }
    if op_code == 0xAB {
        return parse_lookup_switch(decoder, at);
    }
    if pool_instruction(op_code, 0).is_some() {
        let index = decoder.read_u16()?;
        return Ok(pool_instruction(op_code, index).unwrap());
    }
    if op_code == 0xB9 {
        let index = decoder.read_u16()?;
        let count = decoder.read_u8()?;
        decoder.skip(1)?;
        return Ok(Instruction::InvokeInterface(index, count));
    }
    if op_code == 0xBA {
        let index = decoder.read_u16()?;
        decoder.skip(2)?;
        return Ok(Instruction::InvokeDynamic(index));
    }
    if op_code == 0xBC {
        let array_type = match decoder.read_u8()? {
            0x04 => ArrayType::Boolean,
            0x05 => ArrayType::Char,
            0x06 => ArrayType::Float,
            0x07 => ArrayType::Double,
            0x08 => ArrayType::Byte,
            0x09 => ArrayType::Short,
            0x0A => ArrayType::Int,
            0x0B => ArrayType::Long,
            _ => {
                return Err(Error::InvalidInstruction { op_code: 0xBC, at });
            },
        };
        return Ok(Instruction::NewArray(array_type));
    }
    if op_code == 0xC4 {
        return parse_wide(decoder, at);
    }
    if op_code == 0xC5 {
        let array_type = decoder.read_u16()?;
        let dimensions = decoder.read_u8()?;
        return Ok(Instruction::MultiANewArray(array_type, dimensions));
    }
    if op_code == 0xC8 {
        return Ok(Instruction::GoTo(decoder.read_i32()?));
    }
    if op_code == 0xC9 {
        return Ok(Instruction::JSR(decoder.read_i32()?));
    }
    Err(Error::InvalidInstruction { op_code, at })
}

/// Parses a single instruction, which stands at the offset `at` of the
/// code, and returns the offset of its end with it. An instruction whose
/// end has no offset of four bytes is rejected with `LimitExceeded`.
pub fn parse_instruction(decoder: &mut Decoder, at: u32) -> (r: Result<(u32, Instruction), Error>)
    ensures
        final(decoder).input() == old(decoder).input(),
        match instruction_at(old(decoder).input(), old(decoder).pos(), at) {
            Ok((insn, next)) => if at + (next - old(decoder).pos()) <= u32::MAX {
                &&& r is Ok
                &&& r->Ok_0.1@ == insn
                &&& r->Ok_0.0 == at + (next - old(decoder).pos())
                &&& final(decoder).pos() == next
                &&& old(decoder).pos() < next <= old(decoder).input().len()
            } else {
                r == Err::<(u32, Instruction), Error>(Error::LimitExceeded)
            },
            Err(e) => r == Err::<(u32, Instruction), Error>(e),
        },
{
    proof {
        lemma_instruction_advances(decoder.input(), decoder.pos(), at);
    }
    let prev_cursor = decoder.cursor();
    let op_code = decoder.read_u8()?;
    let insn = parse_operands(decoder, op_code, at)?;
    let end = decoder.cursor();
    let size = end - prev_cursor;
    let room = u32::MAX - at;
    if size > room as usize {
        return Err(Error::LimitExceeded);
    }
    Ok((at + size as u32, insn))
}

/// Reads the instructions of a code, up to the decoder's limit.
#[verifier::loop_isolation(false)]
fn parse_instructions(code_decoder: &mut Decoder) -> (r: Result<Vec<Option<Instruction>>, Error>)
    requires
        old(code_decoder).input().len() - old(code_decoder).pos() <= u32::MAX,
    ensures
        final(code_decoder).input() == old(code_decoder).input(),
        match instructions_from(
            old(code_decoder).input(),
            old(code_decoder).pos(),
            old(code_decoder).pos(),
            Seq::empty(),
        ) {
            Ok((v, next)) => r is Ok && code_view(r->Ok_0@) == v && final(code_decoder).pos()
                == old(code_decoder).input().len(),
            Err(e) => r == Err::<Vec<Option<Instruction>>, Error>(e),
        },
{
    let ghost code = code_decoder.input();
    let start = code_decoder.cursor();
    let mut instructions: Vec<Option<Instruction>> = Vec::new();
    assert(code_view(instructions@) =~= Seq::<Option<InstructionView>>::empty());
    while !code_decoder.at_limit()
        invariant
            code_decoder.input() == code,
            start <= code_decoder.pos() <= code.len(),
            instructions_from(code, start as int, start as int, Seq::empty()) == instructions_from(
                code,
                start as int,
                code_decoder.pos(),
                code_view(instructions@),
            ),
        decreases code.len() - code_decoder.pos(),
    {
        let cursor = code_decoder.cursor();
        let at = (cursor - start) as u32;
        let ghost done = code_view(instructions@);
        proof {
            lemma_instruction_advances(code, code_decoder.pos(), at);
        }
        let (end, insn) = parse_instruction(code_decoder, at)?;
        let ghost view = insn@;
        instructions.push(Some(insn));
        assert(code_view(instructions@) =~= done + padded(view, 1));
        let mut k = at + 1;
        while k < end
            invariant
                at < k <= end,
                code_view(instructions@) == done + padded(view, k - at),
            decreases end - k,
        {
            let ghost part = code_view(instructions@);
            instructions.push(None);
            k += 1;
            assert(code_view(instructions@) =~= part.push(None));
            assert(padded(view, k - at) =~= padded(view, k - at - 1).push(None));
            assert(code_view(instructions@) =~= done + padded(view, k - at));
        }
    }
    Ok(instructions)
}

/// Reads the exception table of a code.
#[verifier::loop_isolation(false)]
fn parse_exception_table(decoder: &mut Decoder) -> (r: Result<Vec<Exception>, Error>)
    ensures
        final(decoder).input() == old(decoder).input(),
        match counted16(exception_item(), old(decoder).input(), old(decoder).pos()) {
            Ok((v, next)) => r is Ok && r->Ok_0@ == v && final(decoder).pos() == next,
            Err(e) => r == Err::<Vec<Exception>, Error>(e),
        },
        r is Ok ==> old(decoder).pos() <= final(decoder).pos() <= old(decoder).input().len(),
{
    let ghost s = decoder.input();
    let exception_count = decoder.read_u16()?;
    let mut exceptions: Vec<Exception> = Vec::with_capacity(exception_count as usize);
    let mut i: u16 = 0;
    while i < exception_count
        invariant
            i <= exception_count,
            decoder.input() == s,
            old(decoder).pos() + 2 <= decoder.pos() <= s.len(),
            counted16(exception_item(), s, old(decoder).pos()) == repeat(
                exception_item(),
                s,
                decoder.pos(),
                (exception_count - i) as nat,
                exceptions@,
            ),
        decreases exception_count - i,
    {
        let start = decoder.read_u16()?;
        let end = decoder.read_u16()?;
        let handler = decoder.read_u16()?;
        let catch_type = decoder.read_u16()?;
        exceptions.push(Exception { start, end, handler, catch_type });
        i += 1;
    }
    Ok(exceptions)
}

/// Reads the code of a code attribute: its length, and its instructions.
fn parse_code_stream(decoder: &mut Decoder) -> (r: Result<Vec<Option<Instruction>>, Error>)
    ensures
        final(decoder).input() == old(decoder).input(),
        ({
            let s = old(decoder).input();
            let start = old(decoder).pos() + 4;
            let end = start + u32_in(s, old(decoder).pos());
            if !fits(s, old(decoder).pos(), 4) || end > s.len() {
                r == Err::<Vec<Option<Instruction>>, Error>(Error::LimitExceeded)
            } else {
                match instructions_from(s.take(end), start, start, Seq::empty()) {
                    Ok((v, _)) => r is Ok && code_view(r->Ok_0@) == v && final(decoder).pos() == end,
                    Err(e) => r == Err::<Vec<Option<Instruction>>, Error>(e),
                }
            }
        }),
{
    let code_length = decoder.read_u32()?;
    let outer = decoder.limit(code_length as usize)?;
    let read = parse_instructions(decoder);
    let ended = decoder.remove_limit(outer);
    let instructions = read?;
    ended?;
    Ok(instructions)
}

/// Parses the code attribute.
pub fn parse_code(decoder: &mut Decoder, constant_pool: &Pool) -> (r: Result<Attribute, Error>)
    requires
        constant_pool.wf(),
    ensures
        parses(
            *old(decoder),
            *final(decoder),
            r,
            code_at(old(decoder).input(), old(decoder).pos(), constant_pool@),
        ),
    decreases old(decoder).input().len() - old(decoder).pos(), 0nat,
{
    let max_stack = decoder.read_u16()?;
    let max_locals = decoder.read_u16()?;
    let instructions = parse_code_stream(decoder)?;
    let exceptions = parse_exception_table(decoder)?;
    let attributes = parse_attributes(decoder, constant_pool)?;
    let ghost nested = views(attributes@);
    let code = Attribute::Code { max_stack, max_locals, instructions, exceptions, attributes };
    proof {
        reveal_with_fuel(<Attribute as View>::view, 2);
        assert(code@ matches AttributeView::Code { attributes: a, .. } && a =~= nested);
    }
    Ok(code)
}

} // verus!
