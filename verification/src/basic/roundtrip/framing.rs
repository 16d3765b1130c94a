//! Attributes are read as they were written: the frame of an attribute, the
//! body of a code, and lists of attributes.

use vstd::prelude::*;
use super::super::constpool::{lemma_find_last, utf8_at, ItemView, Slots};
use super::super::parser::code::{code_at, exception_item, instructions_from, u32_in};
use super::super::parser::decode::u32_at;
use super::super::parser::grammar::{counted16 as read_counted16, fits, u16_in};
use super::super::parser::{
    attribute_body_at, attribute_head_at, attributes_at, attributes_from, AttributeHead,
};
use super::super::result::Error;
use super::super::tree::{AttributeView, Exception, InstructionView};
use super::super::writer::attribute::{
    attribute_body_bytes, attribute_bytes, attribute_name, attribute_name_index, attributes_bytes,
    attributes_bytes_from, body_bytes, framed,
};
use super::super::writer::code::{code_bytes, code_stream_bytes};
use super::super::writer::encode::{lemma_unsigned_round_trip, u16_bytes, u32_bytes};
use super::super::writer::grammar::{counted16, then, Written};
use super::super::writer::table::exception_format;
use super::attribute::{canonical, known_name};
use super::code::{lemma_read_code, lemma_read_u16, offset_indexed};
use super::table::lemma_exception_reads_back;
use super::{holds_at, lemma_read_counted16, lemma_split, reads_back};

verus! {

/// Four bytes that a number was written as are read as the number.
pub proof fn lemma_read_u32(s: Seq<u8>, pos: int, n: u32)
    requires
        0 <= pos,
        pos + 4 <= s.len(),
        s.subrange(pos, pos + 4) == u32_bytes(n),
    ensures
        u32_at(s, pos) == Ok::<(u32, int), Error>((n, pos + 4)),
        u32_in(s, pos) == n,
{
    lemma_unsigned_round_trip(0, n, 0);
}

/// The start of what stands in `s` stands in every part of `s` that holds it.
pub proof fn lemma_taken(s: Seq<u8>, pos: int, bytes: Seq<u8>, end: int)
    requires
        holds_at(s, pos, bytes),
        pos + bytes.len() <= end <= s.len(),
    ensures
        holds_at(s.take(end), pos, bytes),
        s.take(end).len() == end,
{
    assert(s.take(end).subrange(pos, pos + bytes.len()) =~= s.subrange(pos, pos + bytes.len()));
}

/// Where the parts of a code stand, one behind the other, each stands.
proof fn lemma_code_layout(
    max_stack: u16,
    max_locals: u16,
    code: Seq<u8>,
    table: Seq<u8>,
    nested: Seq<u8>,
    w: Seq<u8>,
    pos: int,
)
    requires
        code.len() <= 0xFFFF_FFFF,
        holds_at(
            w,
            pos,
            u16_bytes(max_stack) + u16_bytes(max_locals) + u32_bytes(code.len() as u32) + code
                + table + nested,
        ),
    ensures
        fits(w, pos, 8),
        u16_in(w, pos) == max_stack,
        u16_in(w, pos + 2) == max_locals,
        u32_in(w, pos + 4) == code.len(),
        holds_at(w, pos + 8, code),
        holds_at(w, pos + 8 + code.len(), table),
        holds_at(w, pos + 8 + code.len() + table.len(), nested),
{
    let a = u16_bytes(max_stack);
    let b = u16_bytes(max_locals);
    let c = u32_bytes(code.len() as u32);
    lemma_split(w, pos, a + b + c + code + table, nested);
    lemma_split(w, pos, a + b + c + code, table);
    lemma_split(w, pos, a + b + c, code);
    lemma_split(w, pos, a + b, c);
    lemma_split(w, pos, a, b);
    lemma_read_u16(w, pos, max_stack);
    lemma_read_u16(w, pos + 2, max_locals);
    lemma_read_u32(w, pos + 4, code.len() as u32);
}

/// The instructions of a code are read as they were written.
proof fn lemma_read_stream(
    instructions: Seq<Option<InstructionView>>,
    code: Seq<u8>,
    pool: Slots,
    w: Seq<u8>,
    start: int,
)
    requires
        code_bytes(instructions, 0, pool, Seq::empty()) == Ok::<Seq<u8>, Error>(code),
        offset_indexed(instructions, pool),
        holds_at(w, start, code),
    ensures
        instructions_from(w.take(start + code.len()), start, start, Seq::empty()) == Ok::<
            (Seq<Option<InstructionView>>, int),
            Error,
        >((instructions, start + code.len())),
{
    lemma_taken(w, start, code, start + code.len());
    lemma_read_code(
        instructions,
        0,
        pool,
        Seq::empty(),
        Seq::empty(),
        w.take(start + code.len()),
        start,
    );
}

/// The exception table of a code is read as it was written.
proof fn lemma_read_exception_table(exceptions: Seq<Exception>, w: Seq<u8>, pos: int)
    requires
        counted16(exception_format(), exceptions) is Ok,
        holds_at(w, pos, counted16(exception_format(), exceptions)->Ok_0),
    ensures
        read_counted16(exception_item(), w, pos) == Ok::<(Seq<Exception>, int), Error>(
            (exceptions, pos + counted16(exception_format(), exceptions)->Ok_0.len()),
        ),
{
    assert forall|i: int| 0 <= i < exceptions.len() implies reads_back(
        exception_format(),
        exception_item(),
        #[trigger] exceptions[i],
    ) by {
        lemma_exception_reads_back(exceptions[i]);
    }
    lemma_read_counted16(exception_format(), exception_item(), exceptions, w, pos);
}

/// A code is what its parts are read as.
proof fn lemma_code_of_parts(
    max_stack: u16,
    max_locals: u16,
    instructions: Seq<Option<InstructionView>>,
    exceptions: Seq<Exception>,
    attributes: Seq<AttributeView>,
    pool: Slots,
    w: Seq<u8>,
    pos: int,
    end: int,
    behind: int,
    last: int,
)
    requires
        fits(w, pos, 8),
        u16_in(w, pos) == max_stack,
        u16_in(w, pos + 2) == max_locals,
        end == pos + 8 + u32_in(w, pos + 4),
        end <= w.len(),
        instructions_from(w.take(end), pos + 8, pos + 8, Seq::empty()) == Ok::<
            (Seq<Option<InstructionView>>, int),
            Error,
        >((instructions, end)),
        read_counted16(exception_item(), w, end) == Ok::<(Seq<Exception>, int), Error>(
            (exceptions, behind),
        ),
        attributes_at(w, behind, pool) == Ok::<(Seq<AttributeView>, int), Error>(
            (attributes, last),
        ),
    ensures
        code_at(w, pos, pool) == Ok::<(AttributeView, int), Error>(
            (
                AttributeView::Code { max_stack, max_locals, instructions, exceptions, attributes },
                last,
            ),
        ),
{
}

/// The parts of a code are read as they were written, given that the
/// attributes behind them are.
proof fn lemma_read_code_parts(
    max_stack: u16,
    max_locals: u16,
    instructions: Seq<Option<InstructionView>>,
    exceptions: Seq<Exception>,
    attributes: Seq<AttributeView>,
    code: Seq<u8>,
    table: Seq<u8>,
    nested: Seq<u8>,
    pool: Slots,
    w: Seq<u8>,
    pos: int,
)
    requires
        code_bytes(instructions, 0, pool, Seq::empty()) == Ok::<Seq<u8>, Error>(code),
        code.len() <= 0xFFFF_FFFF,
        counted16(exception_format(), exceptions) == Ok::<Seq<u8>, Error>(table),
        offset_indexed(instructions, pool),
        holds_at(
            w,
            pos,
            u16_bytes(max_stack) + u16_bytes(max_locals) + u32_bytes(code.len() as u32) + code
                + table + nested,
        ),
        attributes_at(w, pos + 8 + code.len() + table.len(), pool) == Ok::<
            (Seq<AttributeView>, int),
            Error,
        >((attributes, pos + 8 + code.len() + table.len() + nested.len())),
    ensures
        code_at(w, pos, pool) == Ok::<(AttributeView, int), Error>(
            (
                AttributeView::Code { max_stack, max_locals, instructions, exceptions, attributes },
                pos + 8 + code.len() + table.len() + nested.len(),
            ),
        ),
{
    lemma_code_layout(max_stack, max_locals, code, table, nested, w, pos);
    lemma_read_stream(instructions, code, pool, w, pos + 8);
    lemma_read_exception_table(exceptions, w, pos + 8 + code.len());
    lemma_code_of_parts(
        max_stack,
        max_locals,
        instructions,
        exceptions,
        attributes,
        pool,
        w,
        pos,
        pos + 8 + code.len(),
        pos + 8 + code.len() + table.len(),
        pos + 8 + code.len() + table.len() + nested.len(),
    );
}

/// The length of a code's body up to the attributes within it.
#[verifier::opaque]
pub open spec fn code_front(
    instructions: Seq<Option<InstructionView>>,
    exceptions: Seq<Exception>,
    pool: Slots,
) -> int {
    8int + code_bytes(instructions, 0, pool, Seq::empty())->Ok_0.len() as int + counted16(
        exception_format(),
        exceptions,
    )->Ok_0.len() as int
}

/// The parts that the body of a code is written as.
proof fn lemma_code_body_bytes(
    max_stack: u16,
    max_locals: u16,
    instructions: Seq<Option<InstructionView>>,
    exceptions: Seq<Exception>,
    nested: Seq<u8>,
    pool: Slots,
)
    requires
        then(
            then(
                then(
                    Ok(u16_bytes(max_stack) + u16_bytes(max_locals)),
                    code_stream_bytes(instructions, pool),
                ),
                counted16(exception_format(), exceptions),
            ),
            Ok(nested),
        ) is Ok,
    ensures
        code_bytes(instructions, 0, pool, Seq::empty()) is Ok,
        code_bytes(instructions, 0, pool, Seq::empty())->Ok_0.len() <= 0xFFFF_FFFF,
        counted16(exception_format(), exceptions) is Ok,
        then(
            then(
                then(
                    Ok(u16_bytes(max_stack) + u16_bytes(max_locals)),
                    code_stream_bytes(instructions, pool),
                ),
                counted16(exception_format(), exceptions),
            ),
            Ok(nested),
        )->Ok_0 == u16_bytes(max_stack) + u16_bytes(max_locals) + u32_bytes(
            code_bytes(instructions, 0, pool, Seq::empty())->Ok_0.len() as u32,
        ) + code_bytes(instructions, 0, pool, Seq::empty())->Ok_0 + counted16(
            exception_format(),
            exceptions,
        )->Ok_0 + nested,
        then(
            then(
                then(
                    Ok(u16_bytes(max_stack) + u16_bytes(max_locals)),
                    code_stream_bytes(instructions, pool),
                ),
                counted16(exception_format(), exceptions),
            ),
            Ok(nested),
        )->Ok_0.len() == code_front(instructions, exceptions, pool) + nested.len(),
{
    reveal(code_front);
    let head = u16_bytes(max_stack) + u16_bytes(max_locals);
    let code = code_bytes(instructions, 0, pool, Seq::empty())->Ok_0;
    let table = counted16(exception_format(), exceptions)->Ok_0;
    let length = u32_bytes(code.len() as u32);
    assert(head + (length + code) + table + nested =~= head + length + code + table + nested);
}

/// The body of the attribute `Code` is read as it was written, given that
/// the attributes within it are.
pub proof fn lemma_read_code_body(
    max_stack: u16,
    max_locals: u16,
    instructions: Seq<Option<InstructionView>>,
    exceptions: Seq<Exception>,
    attributes: Seq<AttributeView>,
    nested: Seq<u8>,
    pool: Slots,
    w: Seq<u8>,
    pos: int,
    index: u16,
)
    requires
        offset_indexed(instructions, pool),
        body_bytes(
            AttributeView::Code { max_stack, max_locals, instructions, exceptions, attributes },
            pool,
            Ok(nested),
        ) is Ok,
        holds_at(
            w,
            pos,
            body_bytes(
                AttributeView::Code { max_stack, max_locals, instructions, exceptions, attributes },
                pool,
                Ok(nested),
            )->Ok_0,
        ),
        attributes_at(w, pos + code_front(instructions, exceptions, pool), pool) == Ok::<
            (Seq<AttributeView>, int),
            Error,
        >((attributes, pos + code_front(instructions, exceptions, pool) + nested.len())),
    ensures
        attribute_body_at(w, pos, pool, "Code"@, index) == Ok::<(AttributeView, int), Error>(
            (
                AttributeView::Code { max_stack, max_locals, instructions, exceptions, attributes },
                pos + code_front(instructions, exceptions, pool) + nested.len(),
            ),
        ),
        body_bytes(
            AttributeView::Code { max_stack, max_locals, instructions, exceptions, attributes },
            pool,
            Ok(nested),
        )->Ok_0.len() == code_front(instructions, exceptions, pool) + nested.len(),
{
    reveal(code_front);
    super::dispatch::lemma_named_code(w, pos, pool, index);
    let a = AttributeView::Code { max_stack, max_locals, instructions, exceptions, attributes };
    assert(body_bytes(a, pool, Ok(nested)) == then(
        then(
            then(
                Ok(u16_bytes(max_stack) + u16_bytes(max_locals)),
                code_stream_bytes(instructions, pool),
            ),
            counted16(exception_format(), exceptions),
        ),
        Ok(nested),
    )) by {
        reveal(body_bytes);
    }
    lemma_code_body_bytes(max_stack, max_locals, instructions, exceptions, nested, pool);
    lemma_read_code_parts(
        max_stack,
        max_locals,
        instructions,
        exceptions,
        attributes,
        code_bytes(instructions, 0, pool, Seq::empty())->Ok_0,
        counted16(exception_format(), exceptions)->Ok_0,
        nested,
        pool,
        w,
        pos,
    );
}

/// The body of an attribute that the parser does not know is read as it
/// was written.
pub proof fn lemma_read_unknown_body(
    name: Seq<char>,
    index: u16,
    bytes: Seq<u8>,
    pool: Slots,
    w: Seq<u8>,
    pos: int,
)
    requires
        !known_name(name),
        holds_at(w, pos, bytes),
        w.len() == pos + bytes.len(),
    ensures
        attribute_body_at(w, pos, pool, name, index) == Ok::<(AttributeView, int), Error>(
            (AttributeView::Unknown(index, bytes), w.len() as int),
        ),
{
}

/// The index that a known attribute's name is written as holds that name.
pub proof fn lemma_name_found(a: AttributeView, pool: Slots)
    requires
        pool.len() <= 0xFFFF,
        attribute_name(a) is Some,
        attribute_name_index(a, pool) is Ok,
    ensures
        utf8_at(pool, attribute_name_index(a, pool)->Ok_0) == Ok::<Seq<char>, Error>(
            attribute_name(a)->Some_0,
        ),
{
    reveal(attribute_name_index);
    lemma_find_last(pool, ItemView::UTF8(attribute_name(a)->Some_0));
}

/// The head of an attribute is read as it was written, and the body
/// stands behind it, in the part of the input that ends with it.
pub proof fn lemma_read_head(index: u16, body: Seq<u8>, pool: Slots, s: Seq<u8>, pos: int)
    requires
        utf8_at(pool, index) is Ok,
        framed(Ok(index), Ok(body)) is Ok,
        holds_at(s, pos, framed(Ok(index), Ok(body))->Ok_0),
    ensures
        framed(Ok(index), Ok(body))->Ok_0.len() == 6 + body.len(),
        attribute_head_at(s, pos, pool) == Ok::<AttributeHead, Error>(
            AttributeHead {
                name_index: index,
                name: utf8_at(pool, index)->Ok_0,
                body: pos + 6,
                end: pos + 6 + body.len(),
            },
        ),
        holds_at(s.take(pos + 6 + body.len()), pos + 6, body),
        s.take(pos + 6 + body.len()).len() == pos + 6 + body.len(),
{
    let a = u16_bytes(index);
    let b = u32_bytes(body.len() as u32);
    assert(framed(Ok(index), Ok(body))->Ok_0 == a + b + body);
    lemma_split(s, pos, a + b, body);
    lemma_split(s, pos, a, b);
    lemma_read_u16(s, pos, index);
    lemma_read_u32(s, pos + 2, body.len() as u32);
    lemma_taken(s, pos + 6, body, pos + 6 + body.len());
}

/// The body of an attribute that the parser knows, and that holds no
/// attributes, is read as it was written.
pub proof fn lemma_read_body(a: AttributeView, pool: Slots, w: Seq<u8>, pos: int, index: u16)
    requires
        !(a is Code),
        !(a is Unknown),
        canonical(a, pool),
        attribute_body_bytes(a, pool) is Ok,
        holds_at(w, pos, attribute_body_bytes(a, pool)->Ok_0),
        w.len() == pos + attribute_body_bytes(a, pool)->Ok_0.len(),
    ensures
        attribute_body_at(w, pos, pool, attribute_name(a)->Some_0, index) == Ok::<
            (AttributeView, int),
            Error,
        >((a, w.len() as int)),
{
    match a {
        AttributeView::BootstrapMethods(x) => super::attribute::lemma_read_bootstrap_methods_body(
            x,
            pool,
            w,
            pos,
            index,
        ),
        AttributeView::Exceptions(x) => super::attribute::lemma_read_exceptions_body(
            x,
            pool,
            w,
            pos,
            index,
        ),
        AttributeView::ModulePackages(x) => super::attribute::lemma_read_module_packages_body(
            x,
            pool,
            w,
            pos,
            index,
        ),
        AttributeView::InnerClasses(x) => super::attribute::lemma_read_inner_classes_body(
            x,
            pool,
            w,
            pos,
            index,
        ),
        AttributeView::LineNumberTable(x) => super::attribute::lemma_read_line_number_table_body(
            x,
            pool,
            w,
            pos,
            index,
        ),
        AttributeView::LocalVariableTable(x) => super::attribute::lemma_read_local_variable_table_body(
            x,
            pool,
            w,
            pos,
            index,
        ),
        AttributeView::LocalVariableTypeTable(x) => super::attribute::lemma_read_local_variable_type_table_body(
            x,
            pool,
            w,
            pos,
            index,
        ),
        AttributeView::MethodParameters(x) => super::attribute::lemma_read_method_parameters_body(
            x,
            pool,
            w,
            pos,
            index,
        ),
        AttributeView::StackMapTable(x) => super::attribute::lemma_read_stack_map_table_body(
            x,
            pool,
            w,
            pos,
            index,
        ),
        AttributeView::ConstantValue(x) => super::attribute::lemma_read_constant_value_body(
            x,
            pool,
            w,
            pos,
            index,
        ),
        AttributeView::ModuleMainClass(x) => super::attribute::lemma_read_module_main_class_body(
            x,
            pool,
            w,
            pos,
            index,
        ),
        AttributeView::Signature(x) => super::attribute::lemma_read_signature_body(
            x,
            pool,
            w,
            pos,
            index,
        ),
        AttributeView::SourceFile(x) => super::attribute::lemma_read_source_file_body(
            x,
            pool,
            w,
            pos,
            index,
        ),
        AttributeView::SourceDebugExtension(x) => super::attribute::lemma_read_source_debug_extension_body(
            x,
            pool,
            w,
            pos,
            index,
        ),
        AttributeView::AnnotationDefault(x) => super::attribute::lemma_read_annotation_default_body(
            x,
            pool,
            w,
            pos,
            index,
        ),
        AttributeView::RuntimeVisibleAnnotations(x) => super::attribute::lemma_read_runtime_visible_annotations_body(
            x,
            pool,
            w,
            pos,
            index,
        ),
        AttributeView::RuntimeInvisibleAnnotations(x) => super::attribute::lemma_read_runtime_invisible_annotations_body(
            x,
            pool,
            w,
            pos,
            index,
        ),
        AttributeView::RuntimeVisibleParameterAnnotations(x) => super::attribute::lemma_read_runtime_visible_parameter_annotations_body(
            x,
            pool,
            w,
            pos,
            index,
        ),
        AttributeView::RuntimeInvisibleParameterAnnotations(x) => super::attribute::lemma_read_runtime_invisible_parameter_annotations_body(
            x,
            pool,
            w,
            pos,
            index,
        ),
        AttributeView::RuntimeVisibleTypeAnnotations(x) => super::attribute::lemma_read_runtime_visible_type_annotations_body(
            x,
            pool,
            w,
            pos,
            index,
        ),
        AttributeView::RuntimeInvisibleTypeAnnotations(x) => super::attribute::lemma_read_runtime_invisible_type_annotations_body(
            x,
            pool,
            w,
            pos,
            index,
        ),
        AttributeView::Deprecated => super::attribute::lemma_read_deprecated_body(
            pool,
            w,
            pos,
            index,
        ),
        AttributeView::Synthetic => super::attribute::lemma_read_synthetic_body(
            pool,
            w,
            pos,
            index,
        ),
        AttributeView::EnclosingMethod { class_index, method_index } => super::attribute::lemma_read_enclosing_method_body(
            class_index,
            method_index,
            pool,
            w,
            pos,
            index,
        ),
        AttributeView::Module { name, flags, version, requires: requirements, exports, opens, uses, provides } => super::attribute::lemma_read_module_body(
            name,
            flags,
            version,
            requirements,
            exports,
            opens,
            uses,
            provides,
            pool,
            w,
            pos,
            index,
        ),
        _ => {},
    }
}

/// Attributes behind bytes are the bytes, and behind them the attributes.
pub proof fn lemma_attributes_behind(v: Seq<AttributeView>, from: int, pool: Slots, acc: Seq<u8>)
    ensures
        attributes_bytes_from(v, from, pool, acc) is Ok <==> attributes_bytes_from(
            v,
            from,
            pool,
            Seq::empty(),
        ) is Ok,
        attributes_bytes_from(v, from, pool, acc) is Ok ==> attributes_bytes_from(
            v,
            from,
            pool,
            acc,
        )->Ok_0 == acc + attributes_bytes_from(v, from, pool, Seq::empty())->Ok_0,
    decreases v.len() - from,
{
    if 0 <= from < v.len() {
        match attribute_bytes(v[from], pool) {
            Ok(bytes) => {
                lemma_attributes_behind(v, from + 1, pool, acc + bytes);
                lemma_attributes_behind(v, from + 1, pool, Seq::empty() + bytes);
                let rest = attributes_bytes_from(v, from + 1, pool, Seq::empty());
                if rest is Ok {
                    assert(acc + bytes + rest->Ok_0 =~= acc + (Seq::empty() + bytes + rest->Ok_0));
                }
            },
            Err(_) => {},
        }
    } else {
        assert(acc + Seq::<u8>::empty() =~= acc);
    }
}

/// Whether the attribute `a` is read at `pos` as it was written: its head,
/// and its body in the part of the input that ends with it.
#[verifier::opaque]
pub open spec fn attribute_read(a: AttributeView, pool: Slots, s: Seq<u8>, pos: int) -> bool {
    &&& attribute_head_at(s, pos, pool) is Ok
    &&& attribute_head_at(s, pos, pool)->Ok_0.end == pos + attribute_bytes(a, pool)->Ok_0.len()
    &&& attribute_body_at(
        s.take(attribute_head_at(s, pos, pool)->Ok_0.end),
        attribute_head_at(s, pos, pool)->Ok_0.body,
        pool,
        attribute_head_at(s, pos, pool)->Ok_0.name,
        attribute_head_at(s, pos, pool)->Ok_0.name_index,
    ) == Ok::<(AttributeView, int), Error>((a, attribute_head_at(s, pos, pool)->Ok_0.end))
}

/// What a code with attributes within it is written as: the attributes
/// are written, and stand behind the rest.
proof fn lemma_code_nested(
    max_stack: u16,
    max_locals: u16,
    instructions: Seq<Option<InstructionView>>,
    exceptions: Seq<Exception>,
    attributes: Seq<AttributeView>,
    nested: Written,
    pool: Slots,
    w: Seq<u8>,
    pos: int,
)
    requires
        body_bytes(
            AttributeView::Code { max_stack, max_locals, instructions, exceptions, attributes },
            pool,
            nested,
        ) is Ok,
        holds_at(
            w,
            pos,
            body_bytes(
                AttributeView::Code { max_stack, max_locals, instructions, exceptions, attributes },
                pool,
                nested,
            )->Ok_0,
        ),
    ensures
        nested is Ok,
        holds_at(w, pos + code_front(instructions, exceptions, pool), nested->Ok_0),
{
    let a = AttributeView::Code { max_stack, max_locals, instructions, exceptions, attributes };
    assert(body_bytes(a, pool, nested) == then(
        then(
            then(
                Ok(u16_bytes(max_stack) + u16_bytes(max_locals)),
                code_stream_bytes(instructions, pool),
            ),
            counted16(exception_format(), exceptions),
        ),
        nested,
    )) by {
        reveal(body_bytes);
    }
    lemma_code_body_bytes(max_stack, max_locals, instructions, exceptions, nested->Ok_0, pool);
    let code = code_bytes(instructions, 0, pool, Seq::empty())->Ok_0;
    reveal(code_front);
    lemma_split(
        w,
        pos,
        u16_bytes(max_stack) + u16_bytes(max_locals) + u32_bytes(code.len() as u32) + code
            + counted16(exception_format(), exceptions)->Ok_0,
        nested->Ok_0,
    );
}

/// An attribute that the parser does not know is read as it was written.
proof fn lemma_read_unknown(name_index: u16, bytes: Seq<u8>, pool: Slots, s: Seq<u8>, pos: int)
    requires
        canonical(AttributeView::Unknown(name_index, bytes), pool),
        attribute_bytes(AttributeView::Unknown(name_index, bytes), pool) is Ok,
        holds_at(s, pos, attribute_bytes(AttributeView::Unknown(name_index, bytes), pool)->Ok_0),
    ensures
        attribute_read(AttributeView::Unknown(name_index, bytes), pool, s, pos),
{
    reveal(attribute_read);
    let a = AttributeView::Unknown(name_index, bytes);
    assert(attribute_name_index(a, pool) == Ok::<u16, Error>(name_index)) by {
        reveal(attribute_name_index);
    }
    assert(attribute_body_bytes(a, pool) == Ok::<Seq<u8>, Error>(bytes)) by {
        reveal(body_bytes);
    }
    lemma_read_head(name_index, bytes, pool, s, pos);
    lemma_read_unknown_body(
        utf8_at(pool, name_index)->Ok_0,
        name_index,
        bytes,
        pool,
        s.take(pos + 6 + bytes.len()),
        pos + 6,
    );
}

/// An attribute that the parser knows, and that holds no attributes, is
/// read as it was written.
proof fn lemma_read_known(a: AttributeView, pool: Slots, s: Seq<u8>, pos: int)
    requires
        pool.len() <= 0xFFFF,
        !(a is Code),
        !(a is Unknown),
        canonical(a, pool),
        attribute_bytes(a, pool) is Ok,
        holds_at(s, pos, attribute_bytes(a, pool)->Ok_0),
    ensures
        attribute_read(a, pool, s, pos),
{
    reveal(attribute_read);
    let index = attribute_name_index(a, pool)->Ok_0;
    let body = attribute_body_bytes(a, pool)->Ok_0;
    assert(attribute_name_index(a, pool) == Ok::<u16, Error>(index));
    assert(attribute_body_bytes(a, pool) == Ok::<Seq<u8>, Error>(body));
    lemma_name_found(a, pool);
    lemma_read_head(index, body, pool, s, pos);
    lemma_read_body(a, pool, s.take(pos + 6 + body.len()), pos + 6, index);
}

/// Whether the body of the attribute `a`, which has the name `name`, is
/// read at `pos` and ends at `end`.
#[verifier::opaque]
pub open spec fn body_read(
    a: AttributeView,
    pool: Slots,
    w: Seq<u8>,
    pos: int,
    name: Seq<char>,
    index: u16,
    end: int,
) -> bool {
    attribute_body_at(w, pos, pool, name, index) == Ok::<(AttributeView, int), Error>((a, end))
}

/// Whether attributes, where they can be written, are read as they were
/// written, wherever they stand.
#[verifier::opaque]
pub open spec fn read_anywhere(attributes: Seq<AttributeView>, pool: Slots) -> bool {
    attributes_bytes(attributes, pool) is Ok ==> forall|w: Seq<u8>, p: int| #[trigger]
        holds_at(w, p, attributes_bytes(attributes, pool)->Ok_0) ==> attributes_at(w, p, pool)
            == Ok::<(Seq<AttributeView>, int), Error>(
            (attributes, p + attributes_bytes(attributes, pool)->Ok_0.len()),
        )
}

/// The length of the body of a code: that of the attributes within it, and
/// of what stands before them.
proof fn lemma_code_body_length(
    max_stack: u16,
    max_locals: u16,
    instructions: Seq<Option<InstructionView>>,
    exceptions: Seq<Exception>,
    attributes: Seq<AttributeView>,
    pool: Slots,
    w: Seq<u8>,
    pos: int,
    index: u16,
)
    requires
        offset_indexed(instructions, pool),
        attribute_body_bytes(
            AttributeView::Code { max_stack, max_locals, instructions, exceptions, attributes },
            pool,
        ) is Ok,
        holds_at(
            w,
            pos,
            attribute_body_bytes(
                AttributeView::Code { max_stack, max_locals, instructions, exceptions, attributes },
                pool,
            )->Ok_0,
        ),
        read_anywhere(attributes, pool),
    ensures
        attribute_body_bytes(
            AttributeView::Code { max_stack, max_locals, instructions, exceptions, attributes },
            pool,
        )->Ok_0.len() == code_front(instructions, exceptions, pool) + attributes_bytes(
            attributes,
            pool,
        )->Ok_0.len(),
{
    let a = AttributeView::Code { max_stack, max_locals, instructions, exceptions, attributes };
    reveal(read_anywhere);
    let nested = attributes_bytes(attributes, pool);
    assert(attribute_body_bytes(a, pool) == body_bytes(a, pool, nested));
    lemma_code_nested(
        max_stack,
        max_locals,
        instructions,
        exceptions,
        attributes,
        nested,
        pool,
        w,
        pos,
    );
    assert(nested == Ok::<Seq<u8>, Error>(nested->Ok_0));
    lemma_read_code_body(
        max_stack,
        max_locals,
        instructions,
        exceptions,
        attributes,
        nested->Ok_0,
        pool,
        w,
        pos,
        index,
    );
}

/// The body of a code is read as it was written, given that the
/// attributes within it are, wherever they stand.
proof fn lemma_read_whole_code_body(
    max_stack: u16,
    max_locals: u16,
    instructions: Seq<Option<InstructionView>>,
    exceptions: Seq<Exception>,
    attributes: Seq<AttributeView>,
    pool: Slots,
    w: Seq<u8>,
    pos: int,
    index: u16,
)
    requires
        offset_indexed(instructions, pool),
        attribute_body_bytes(
            AttributeView::Code { max_stack, max_locals, instructions, exceptions, attributes },
            pool,
        ) is Ok,
        holds_at(
            w,
            pos,
            attribute_body_bytes(
                AttributeView::Code { max_stack, max_locals, instructions, exceptions, attributes },
                pool,
            )->Ok_0,
        ),
        read_anywhere(attributes, pool),
    ensures
        body_read(
            AttributeView::Code { max_stack, max_locals, instructions, exceptions, attributes },
            pool,
            w,
            pos,
            "Code"@,
            index,
            pos + code_front(instructions, exceptions, pool) + attributes_bytes(
                attributes,
                pool,
            )->Ok_0.len(),
        ),
{
    let a = AttributeView::Code { max_stack, max_locals, instructions, exceptions, attributes };
    reveal(read_anywhere);
    reveal(body_read);
    let nested = attributes_bytes(attributes, pool);
    assert(attribute_body_bytes(a, pool) == body_bytes(a, pool, nested));
    lemma_code_nested(
        max_stack,
        max_locals,
        instructions,
        exceptions,
        attributes,
        nested,
        pool,
        w,
        pos,
    );
    assert(nested == Ok::<Seq<u8>, Error>(nested->Ok_0));
    lemma_read_code_body(
        max_stack,
        max_locals,
        instructions,
        exceptions,
        attributes,
        nested->Ok_0,
        pool,
        w,
        pos,
        index,
    );
}

/// An attribute is read as it was written where its body is.
proof fn lemma_framed(
    a: AttributeView,
    pool: Slots,
    s: Seq<u8>,
    pos: int,
    name: Seq<char>,
    end: int,
)
    requires
        attribute_bytes(a, pool) is Ok,
        holds_at(s, pos, attribute_bytes(a, pool)->Ok_0),
        utf8_at(pool, attribute_name_index(a, pool)->Ok_0) == Ok::<Seq<char>, Error>(name),
        end == pos + 6 + attribute_body_bytes(a, pool)->Ok_0.len(),
        body_read(a, pool, s.take(end), pos + 6, name, attribute_name_index(a, pool)->Ok_0, end),
    ensures
        attribute_read(a, pool, s, pos),
{
    reveal(attribute_read);
    reveal(body_read);
    let index = attribute_name_index(a, pool)->Ok_0;
    let body = attribute_body_bytes(a, pool)->Ok_0;
    assert(attribute_name_index(a, pool) == Ok::<u16, Error>(index));
    assert(attribute_body_bytes(a, pool) == Ok::<Seq<u8>, Error>(body));
    lemma_read_head(index, body, pool, s, pos);
}

/// The body of an attribute stands behind its head, in the part of the
/// input that ends with it.
proof fn lemma_body_stands(a: AttributeView, pool: Slots, s: Seq<u8>, pos: int)
    requires
        attribute_bytes(a, pool) is Ok,
        holds_at(s, pos, attribute_bytes(a, pool)->Ok_0),
    ensures
        attribute_body_bytes(a, pool) is Ok,
        attribute_name_index(a, pool) is Ok,
        holds_at(
            s.take(pos + 6 + attribute_body_bytes(a, pool)->Ok_0.len()),
            pos + 6,
            attribute_body_bytes(a, pool)->Ok_0,
        ),
{
    let index = attribute_name_index(a, pool)->Ok_0;
    let body = attribute_body_bytes(a, pool)->Ok_0;
    assert(attribute_name_index(a, pool) == Ok::<u16, Error>(index));
    assert(attribute_body_bytes(a, pool) == Ok::<Seq<u8>, Error>(body));
    let x = u16_bytes(index);
    let y = u32_bytes(body.len() as u32);
    assert(framed(Ok(index), Ok(body))->Ok_0 == x + y + body);
    lemma_split(s, pos, x + y, body);
    lemma_taken(s, pos + 6, body, pos + 6 + body.len());
}

/// A code is read as it was written, given that the attributes within it
/// are, wherever they stand.
proof fn lemma_read_code_attribute(
    max_stack: u16,
    max_locals: u16,
    instructions: Seq<Option<InstructionView>>,
    exceptions: Seq<Exception>,
    attributes: Seq<AttributeView>,
    pool: Slots,
    s: Seq<u8>,
    pos: int,
)
    requires
        pool.len() <= 0xFFFF,
        offset_indexed(instructions, pool),
        attribute_bytes(
            AttributeView::Code { max_stack, max_locals, instructions, exceptions, attributes },
            pool,
        ) is Ok,
        holds_at(
            s,
            pos,
            attribute_bytes(
                AttributeView::Code { max_stack, max_locals, instructions, exceptions, attributes },
                pool,
            )->Ok_0,
        ),
        read_anywhere(attributes, pool),
    ensures
        attribute_read(
            AttributeView::Code { max_stack, max_locals, instructions, exceptions, attributes },
            pool,
            s,
            pos,
        ),
{
    let a = AttributeView::Code { max_stack, max_locals, instructions, exceptions, attributes };
    lemma_body_stands(a, pool, s, pos);
    lemma_name_found(a, pool);
    let index = attribute_name_index(a, pool)->Ok_0;
    let end = pos + 6 + attribute_body_bytes(a, pool)->Ok_0.len();
    let w = s.take(end);
    lemma_read_whole_code_body(
        max_stack,
        max_locals,
        instructions,
        exceptions,
        attributes,
        pool,
        w,
        pos + 6,
        index,
    );
    lemma_code_body_length(
        max_stack,
        max_locals,
        instructions,
        exceptions,
        attributes,
        pool,
        w,
        pos + 6,
        index,
    );
    lemma_framed(a, pool, s, pos, "Code"@, end);
}

/// An attribute is read as it was written.
pub proof fn lemma_read_attribute(a: AttributeView, pool: Slots, s: Seq<u8>, pos: int)
    requires
        pool.len() <= 0xFFFF,
        canonical(a, pool),
        attribute_bytes(a, pool) is Ok,
        holds_at(s, pos, attribute_bytes(a, pool)->Ok_0),
    ensures
        attribute_read(a, pool, s, pos),
    decreases a, 1int,
{
    match a {
        AttributeView::Unknown(name_index, bytes) => lemma_read_unknown(
            name_index,
            bytes,
            pool,
            s,
            pos,
        ),
        AttributeView::Code { max_stack, max_locals, instructions, exceptions, attributes } => {
            assert(read_anywhere(attributes, pool)) by {
                reveal(read_anywhere);
                if attributes_bytes(attributes, pool) is Ok {
                    assert forall|w: Seq<u8>, p: int| #[trigger]
                        holds_at(w, p, attributes_bytes(attributes, pool)->Ok_0) implies attributes_at(
                        w,
                        p,
                        pool,
                    ) == Ok::<(Seq<AttributeView>, int), Error>(
                        (attributes, p + attributes_bytes(attributes, pool)->Ok_0.len()),
                    ) by {
                        lemma_read_attributes(attributes, pool, w, p);
                    }
                }
            }
            lemma_read_code_attribute(
                max_stack,
                max_locals,
                instructions,
                exceptions,
                attributes,
                pool,
                s,
                pos,
            );
        },
        _ => lemma_read_known(a, pool, s, pos),
    }
}

/// Where attributes stand, the first of them stands, and the rest behind it.
proof fn lemma_attributes_stand(v: Seq<AttributeView>, from: int, pool: Slots, s: Seq<u8>, pos: int)
    requires
        0 <= from < v.len(),
        attributes_bytes_from(v, from, pool, Seq::empty()) is Ok,
        holds_at(s, pos, attributes_bytes_from(v, from, pool, Seq::empty())->Ok_0),
    ensures
        attribute_bytes(v[from], pool) is Ok,
        attributes_bytes_from(v, from + 1, pool, Seq::empty()) is Ok,
        attributes_bytes_from(v, from, pool, Seq::empty())->Ok_0.len() == attribute_bytes(
            v[from],
            pool,
        )->Ok_0.len() + attributes_bytes_from(v, from + 1, pool, Seq::empty())->Ok_0.len(),
        holds_at(s, pos, attribute_bytes(v[from], pool)->Ok_0),
        holds_at(
            s,
            pos + attribute_bytes(v[from], pool)->Ok_0.len(),
            attributes_bytes_from(v, from + 1, pool, Seq::empty())->Ok_0,
        ),
{
    let bytes = attribute_bytes(v[from], pool)->Ok_0;
    lemma_attributes_behind(v, from + 1, pool, Seq::empty() + bytes);
    let rest = attributes_bytes_from(v, from + 1, pool, Seq::empty())->Ok_0;
    assert(attributes_bytes_from(v, from, pool, Seq::empty())->Ok_0 =~= bytes + rest);
    lemma_split(s, pos, bytes, rest);
}

/// Behind an attribute that is read as it was written, the attributes
/// that follow are read.
proof fn lemma_attributes_step(
    a: AttributeView,
    pool: Slots,
    s: Seq<u8>,
    pos: int,
    count: nat,
    acc: Seq<AttributeView>,
)
    requires
        count > 0,
        attribute_read(a, pool, s, pos),
    ensures
        attributes_from(s, pos, pool, count, acc) == attributes_from(
            s,
            pos + attribute_bytes(a, pool)->Ok_0.len(),
            pool,
            (count - 1) as nat,
            acc.push(a),
        ),
{
    reveal(attribute_read);
}

/// One attribute that is read as it was written, and behind it the rest.
proof fn lemma_attributes_chain(
    v: Seq<AttributeView>,
    from: int,
    pool: Slots,
    s: Seq<u8>,
    pos: int,
    acc: Seq<AttributeView>,
    first: int,
    rest: int,
)
    requires
        0 <= from < v.len(),
        first == attribute_bytes(v[from], pool)->Ok_0.len(),
        attribute_read(v[from], pool, s, pos),
        attributes_from(s, pos + first, pool, (v.len() - (from + 1)) as nat, acc.push(v[from]))
            == Ok::<(Seq<AttributeView>, int), Error>(
            (acc.push(v[from]) + v.skip(from + 1), pos + first + rest),
        ),
    ensures
        attributes_from(s, pos, pool, (v.len() - from) as nat, acc) == Ok::<
            (Seq<AttributeView>, int),
            Error,
        >((acc + v.skip(from), pos + first + rest)),
{
    lemma_attributes_step(v[from], pool, s, pos, (v.len() - from) as nat, acc);
    assert(acc.push(v[from]) + v.skip(from + 1) =~= acc + v.skip(from));
}

/// The attributes of `v` from `from` on are read as they were written,
/// behind those of `acc`.
pub proof fn lemma_read_attributes_from(
    v: Seq<AttributeView>,
    from: int,
    pool: Slots,
    s: Seq<u8>,
    pos: int,
    acc: Seq<AttributeView>,
)
    requires
        pool.len() <= 0xFFFF,
        0 <= from <= v.len(),
        forall|i: int| 0 <= i < v.len() ==> canonical(#[trigger] v[i], pool),
        attributes_bytes_from(v, from, pool, Seq::empty()) is Ok,
        holds_at(s, pos, attributes_bytes_from(v, from, pool, Seq::empty())->Ok_0),
    ensures
        attributes_from(s, pos, pool, (v.len() - from) as nat, acc) == Ok::<
            (Seq<AttributeView>, int),
            Error,
        >(
            (
                acc + v.skip(from),
                pos + attributes_bytes_from(v, from, pool, Seq::empty())->Ok_0.len(),
            ),
        ),
    decreases v, v.len() - from,
{
    if from < v.len() {
        lemma_attributes_stand(v, from, pool, s, pos);
        let first = attribute_bytes(v[from], pool)->Ok_0.len() as int;
        let rest = attributes_bytes_from(v, from + 1, pool, Seq::empty())->Ok_0.len() as int;
        lemma_read_attribute(v[from], pool, s, pos);
        lemma_read_attributes_from(v, from + 1, pool, s, pos + first, acc.push(v[from]));
        lemma_attributes_chain(v, from, pool, s, pos, acc, first, rest);
    } else {
        assert(acc + v.skip(from) =~= acc);
    }
}

/// A counted list of attributes is read as it was written.
pub proof fn lemma_read_attributes(v: Seq<AttributeView>, pool: Slots, s: Seq<u8>, pos: int)
    requires
        pool.len() <= 0xFFFF,
        forall|i: int| 0 <= i < v.len() ==> canonical(#[trigger] v[i], pool),
        attributes_bytes(v, pool) is Ok,
        holds_at(s, pos, attributes_bytes(v, pool)->Ok_0),
    ensures
        attributes_at(s, pos, pool) == Ok::<(Seq<AttributeView>, int), Error>(
            (v, pos + attributes_bytes(v, pool)->Ok_0.len()),
        ),
    decreases v, v.len() + 1,
{
    let rest = attributes_bytes_from(v, 0, pool, Seq::empty())->Ok_0;
    lemma_split(s, pos, u16_bytes(v.len() as u16), rest);
    lemma_read_u16(s, pos, v.len() as u16);
    lemma_read_attributes_from(v, 0, pool, s, pos + 2, Seq::empty());
    assert(Seq::<AttributeView>::empty() + v.skip(0) =~= v);
}

} // verus!
