//! Where the switches stand in a code that was written.

use vstd::prelude::*;
use super::super::constpool::Slots;
use super::super::parser::code::padding;
use super::super::result::Error;
use super::super::tree::{AttributeView, Exception, InstructionView};
use super::super::writer::attribute::{attribute_body_bytes, attributes_bytes, body_bytes};
use super::super::writer::code::{
    code_bytes, code_stream_bytes, entry_bytes, lemma_switch_padding, switch_opcode, zeros,
};
use super::super::writer::encode::{u16_bytes, u32_bytes};
use super::super::writer::grammar::{counted16, then};
use super::super::writer::table::exception_format;
use super::code::lemma_code_keeps;
use super::{holds_at, lemma_split, lemma_within};

verus! {

/// The offset at which the entry `i` of `v` is written, when the entries
/// from `from` on are written behind the code `acc`: the number of bytes
/// that stand before it.
pub open spec fn offset_of(
    v: Seq<Option<InstructionView>>,
    from: int,
    pool: Slots,
    acc: Seq<u8>,
    i: int,
) -> int
    decreases i - from,
{
    if from >= i {
        acc.len() as int
    } else {
        match v[from] {
            None => offset_of(v, from + 1, pool, acc, i),
            Some(_) => offset_of(v, from + 1, pool, acc + entry_bytes(v, from, pool, acc)->Ok_0, i),
        }
    }
}

/// In every code that is written, each switch stands as its opcode and
/// then zeros, and what follows them, the operands of the switch, starts
/// at an offset that is a multiple of four, counted from the start of the
/// code.
pub proof fn lemma_switches_aligned(
    v: Seq<Option<InstructionView>>,
    from: int,
    pool: Slots,
    acc: Seq<u8>,
    i: int,
)
    requires
        0 <= from <= i < v.len(),
        v[i] matches Some(insn) && (insn is TableSwitch || insn is LookupSwitch),
        code_bytes(v, from, pool, acc) is Ok,
    ensures
        ({
            let code = code_bytes(v, from, pool, acc)->Ok_0;
            let at = offset_of(v, from, pool, acc, i);
            &&& 0 <= at <= u32::MAX
            &&& 0 <= padding(at as u32) <= 3
            &&& (at + 1 + padding(at as u32)) % 4 == 0
            &&& holds_at(code, at, seq![switch_opcode(v[i]->Some_0)] + zeros(padding(at as u32)))
        }),
    decreases i - from,
{
    let code = code_bytes(v, from, pool, acc)->Ok_0;
    if from == i {
        let insn = v[i]->Some_0;
        let bytes = entry_bytes(v, from, pool, acc)->Ok_0;
        let at = acc.len() as u32;
        lemma_switch_padding(insn, at, pool);
        let start = seq![switch_opcode(insn)] + zeros(padding(at));
        lemma_code_keeps(v, from + 1, pool, acc + bytes);
        lemma_split(code, 0, acc, bytes);
        assert(holds_at(bytes, 0, start));
        lemma_within(code, acc.len() as int, bytes, 0, start);
    } else {
        match v[from] {
            None => lemma_switches_aligned(v, from + 1, pool, acc, i),
            Some(_) => lemma_switches_aligned(
                v,
                from + 1,
                pool,
                acc + entry_bytes(v, from, pool, acc)->Ok_0,
                i,
            ),
        }
    }
}

/// The body of a `Code` attribute that is written holds the code of its
/// instructions from its ninth byte on, behind the two sizes and the
/// length of the code: the offsets of `lemma_switches_aligned` are
/// counted from there.
pub proof fn lemma_code_in_body(
    max_stack: u16,
    max_locals: u16,
    instructions: Seq<Option<InstructionView>>,
    exceptions: Seq<Exception>,
    attributes: Seq<AttributeView>,
    pool: Slots,
)
    requires
        attribute_body_bytes(
            AttributeView::Code { max_stack, max_locals, instructions, exceptions, attributes },
            pool,
        ) is Ok,
    ensures
        code_bytes(instructions, 0, pool, Seq::empty()) is Ok,
        holds_at(
            attribute_body_bytes(
                AttributeView::Code { max_stack, max_locals, instructions, exceptions, attributes },
                pool,
            )->Ok_0,
            8,
            code_bytes(instructions, 0, pool, Seq::empty())->Ok_0,
        ),
{
    let a = AttributeView::Code { max_stack, max_locals, instructions, exceptions, attributes };
    let head = u16_bytes(max_stack) + u16_bytes(max_locals);
    let stream = code_stream_bytes(instructions, pool);
    let table = counted16(exception_format(), exceptions);
    let nested = attributes_bytes(attributes, pool);
    assert(attribute_body_bytes(a, pool) == body_bytes(a, pool, nested));
    assert(body_bytes(a, pool, nested) == then(then(then(Ok(head), stream), table), nested)) by {
        reveal(body_bytes);
    }
    let code = code_bytes(instructions, 0, pool, Seq::empty())->Ok_0;
    let length = u32_bytes(code.len() as u32);
    let body = attribute_body_bytes(a, pool)->Ok_0;
    assert(stream == Ok::<Seq<u8>, Error>(length + code));
    assert(body == head + (length + code) + table->Ok_0 + nested->Ok_0);
    assert(body.subrange(8, 8int + code.len()) =~= code);
}

} // verus!
