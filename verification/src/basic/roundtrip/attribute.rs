//! Attributes are read as they were written.

use vstd::prelude::*;
use super::super::constpool::{utf8_at, Slots};
use super::super::mutf8;
use super::super::parser::class::{
    bootstrap_method_item, enclosing_method_at, export_item, inner_class_item, module_at,
    provider_item, requirement_item,
};
use super::super::parser::method::{
    line_number_item, local_variable_item, local_variable_type_item, method_parameter_item,
    stack_map_frame_item,
};
use super::super::parser::attribute_body_at;
use super::super::result::Error;
use super::super::tree::{
    AccessFlags, AnnotationView, AttributeView, BootstrapMethodView, ElementValueView, ExportView,
    InnerClass, LineNumber, LocalVariable, LocalVariableType, MethodParameter, ProviderView,
    Requirement, StackMapFrameView, TypeAnnotationView,
};
use super::super::writer::attribute::{
    attribute_body_bytes, body_bytes, bootstrap_method_format, export_format, provider_format,
    stack_map_frame_format,
};
use super::super::writer::encode::u16_bytes;
use super::super::writer::grammar::{counted16, then, u16_format, Written};
use super::super::writer::table::{
    inner_class_format, line_number_format, local_variable_format, local_variable_type_format,
    method_parameter_format, requirement_format,
};
use super::annotation::{
    lemma_read_annotations, lemma_read_element_value, lemma_read_parameter_annotations,
    lemma_read_type_annotations, proper_type_annotation,
};
use super::code::{lemma_read_u16, offset_indexed};
use super::frame::{
    lemma_bootstrap_method_reads_back, lemma_export_reads_back, lemma_provider_reads_back,
    lemma_read_u16_list, lemma_stack_map_frame_reads_back,
};
use super::table::{
    lemma_inner_class_reads_back, lemma_line_number_reads_back, lemma_local_variable_reads_back,
    lemma_local_variable_type_reads_back, lemma_method_parameter_reads_back,
    lemma_requirement_reads_back,
};
use super::{holds_at, lemma_between, lemma_read_counted16, lemma_split, reads_back};

verus! {

/// Whether a name is that of an attribute that the parser knows.
pub open spec fn known_name(name: Seq<char>) -> bool {
    ||| name == "AnnotationDefault"@
    ||| name == "BootstrapMethods"@
    ||| name == "Code"@
    ||| name == "ConstantValue"@
    ||| name == "Deprecated"@
    ||| name == "EnclosingMethod"@
    ||| name == "Exceptions"@
    ||| name == "InnerClasses"@
    ||| name == "LineNumberTable"@
    ||| name == "LocalVariableTable"@
    ||| name == "LocalVariableTypeTable"@
    ||| name == "MethodParameters"@
    ||| name == "Module"@
    ||| name == "ModuleMainClass"@
    ||| name == "ModulePackages"@
    ||| name == "RuntimeVisibleAnnotations"@
    ||| name == "RuntimeInvisibleAnnotations"@
    ||| name == "RuntimeVisibleParameterAnnotations"@
    ||| name == "RuntimeInvisibleParameterAnnotations"@
    ||| name == "RuntimeVisibleTypeAnnotations"@
    ||| name == "RuntimeInvisibleTypeAnnotations"@
    ||| name == "SourceFile"@
    ||| name == "Signature"@
    ||| name == "StackMapTable"@
    ||| name == "Synthetic"@
    ||| name == "SourceDebugExtension"@
}

/// An attribute that is read exactly as it was written: the instructions
/// of a code stand at their offsets, the target types of type annotations
/// stand as the tree holds them, the name of an attribute that is not known
/// is a string of the pool that is no known name, and the attributes
/// within a code are such attributes too.
pub open spec fn canonical(a: AttributeView, pool: Slots) -> bool
    decreases a,
{
    match a {
        AttributeView::Code { instructions, attributes, .. } => {
            &&& offset_indexed(instructions, pool)
            &&& forall|i: int| 0 <= i < attributes.len() ==> canonical(
                #[trigger] attributes[i],
                pool,
            )
        },
        AttributeView::RuntimeVisibleTypeAnnotations(v) => forall|i: int|
            0 <= i < v.len() ==> proper_type_annotation(#[trigger] v[i]),
        AttributeView::RuntimeInvisibleTypeAnnotations(v) => forall|i: int|
            0 <= i < v.len() ==> proper_type_annotation(#[trigger] v[i]),
        AttributeView::Unknown(name_index, _) => utf8_at(pool, name_index) matches Ok(name)
            && !known_name(name),
        _ => true,
    }
}

/// A string that fills the input from `pos` on is read as it was written.
proof fn lemma_read_text(chars: Seq<char>, w: Seq<u8>, pos: int)
    requires
        holds_at(w, pos, mutf8::encode(chars)),
        w.len() == pos + mutf8::encode(chars).len(),
    ensures
        mutf8::decode(w, pos, w.len() - pos) == Ok::<(Seq<char>, int), Error>(
            (chars, w.len() as int),
        ),
{
    let bytes = mutf8::encode(chars);
    lemma_between(w, pos, bytes);
    mutf8::lemma_round_trip_from(chars, w.take(pos), w.skip(pos + bytes.len()), Seq::empty());
    assert(Seq::<char>::empty() + chars =~= chars);
}

/// Two `u16` are read as they were written.
proof fn lemma_read_two(a: u16, b: u16, w: Seq<u8>, pos: int)
    requires
        holds_at(w, pos, u16_bytes(a) + u16_bytes(b)),
    ensures
        enclosing_method_at(w, pos) == Ok::<(AttributeView, int), Error>(
            (AttributeView::EnclosingMethod { class_index: a, method_index: b }, pos + 4),
        ),
{
    lemma_split(w, pos, u16_bytes(a), u16_bytes(b));
    lemma_read_u16(w, pos, a);
    lemma_read_u16(w, pos + 2, b);
}

/// Six parts written one behind the other are all written, and stand in
/// that order.
proof fn lemma_six_parts(
    head: Seq<u8>,
    b1: Written,
    b2: Written,
    b3: Written,
    b4: Written,
    b5: Written,
)
    requires
        then(then(then(then(then(Ok(head), b1), b2), b3), b4), b5) is Ok,
    ensures
        b1 is Ok,
        b2 is Ok,
        b3 is Ok,
        b4 is Ok,
        b5 is Ok,
        then(then(then(then(then(Ok(head), b1), b2), b3), b4), b5)->Ok_0 == head + b1->Ok_0
            + b2->Ok_0 + b3->Ok_0 + b4->Ok_0 + b5->Ok_0,
{
}

/// The parts of a module are read as they were written.
proof fn lemma_read_module(
    name: u16,
    flags: AccessFlags,
    version: u16,
    requirements: Seq<Requirement>,
    exports: Seq<ExportView>,
    opens: Seq<ExportView>,
    uses: Seq<u16>,
    provides: Seq<ProviderView>,
    w: Seq<u8>,
    pos: int,
)
    requires
        counted16(requirement_format(), requirements) is Ok,
        counted16(export_format(), exports) is Ok,
        counted16(export_format(), opens) is Ok,
        counted16(u16_format(), uses) is Ok,
        counted16(provider_format(), provides) is Ok,
        holds_at(
            w,
            pos,
            u16_bytes(name) + u16_bytes(flags.bits) + u16_bytes(version) + counted16(
                requirement_format(),
                requirements,
            )->Ok_0 + counted16(export_format(), exports)->Ok_0 + counted16(
                export_format(),
                opens,
            )->Ok_0 + counted16(u16_format(), uses)->Ok_0 + counted16(
                provider_format(),
                provides,
            )->Ok_0,
        ),
    ensures
        module_at(w, pos) == Ok::<(AttributeView, int), Error>(
            (
                AttributeView::Module {
                    name,
                    flags,
                    version,
                    requires: requirements,
                    exports,
                    opens,
                    uses,
                    provides,
                },
                pos + 6 + counted16(requirement_format(), requirements)->Ok_0.len() + counted16(
                    export_format(),
                    exports,
                )->Ok_0.len() + counted16(export_format(), opens)->Ok_0.len() + counted16(
                    u16_format(),
                    uses,
                )->Ok_0.len() + counted16(provider_format(), provides)->Ok_0.len(),
            ),
        ),
{
    let head = u16_bytes(name) + u16_bytes(flags.bits) + u16_bytes(version);
    let b1 = counted16(requirement_format(), requirements)->Ok_0;
    let b2 = counted16(export_format(), exports)->Ok_0;
    let b3 = counted16(export_format(), opens)->Ok_0;
    let b4 = counted16(u16_format(), uses)->Ok_0;
    let b5 = counted16(provider_format(), provides)->Ok_0;
    lemma_split(w, pos, head + b1 + b2 + b3 + b4, b5);
    lemma_split(w, pos, head + b1 + b2 + b3, b4);
    lemma_split(w, pos, head + b1 + b2, b3);
    lemma_split(w, pos, head + b1, b2);
    lemma_split(w, pos, head, b1);
    lemma_split(w, pos, u16_bytes(name) + u16_bytes(flags.bits), u16_bytes(version));
    lemma_split(w, pos, u16_bytes(name), u16_bytes(flags.bits));
    lemma_read_u16(w, pos, name);
    lemma_read_u16(w, pos + 2, flags.bits);
    lemma_read_u16(w, pos + 4, version);
    assert forall|i: int| 0 <= i < requirements.len() implies reads_back(
        requirement_format(),
        requirement_item(),
        #[trigger] requirements[i],
    ) by {
        lemma_requirement_reads_back(requirements[i]);
    }
    assert forall|i: int| 0 <= i < exports.len() implies reads_back(
        export_format(),
        export_item(),
        #[trigger] exports[i],
    ) by {
        lemma_export_reads_back(exports[i]);
    }
    assert forall|i: int| 0 <= i < opens.len() implies reads_back(
        export_format(),
        export_item(),
        #[trigger] opens[i],
    ) by {
        lemma_export_reads_back(opens[i]);
    }
    assert forall|i: int| 0 <= i < provides.len() implies reads_back(
        provider_format(),
        provider_item(),
        #[trigger] provides[i],
    ) by {
        lemma_provider_reads_back(provides[i]);
    }
    let q1 = pos + 6;
    let q2 = q1 + b1.len();
    let q3 = q2 + b2.len();
    let q4 = q3 + b3.len();
    let q5 = q4 + b4.len();
    lemma_read_counted16(requirement_format(), requirement_item(), requirements, w, q1);
    lemma_read_counted16(export_format(), export_item(), exports, w, q2);
    lemma_read_counted16(export_format(), export_item(), opens, w, q3);
    lemma_read_u16_list(uses, w, q4);
    lemma_read_counted16(provider_format(), provider_item(), provides, w, q5);
}

/// The body of the attribute `BootstrapMethods` is read as it was written.
pub proof fn lemma_read_bootstrap_methods_body(
    v: Seq<BootstrapMethodView>,
    pool: Slots,
    w: Seq<u8>,
    pos: int,
    index: u16,
)
    requires
        attribute_body_bytes(AttributeView::BootstrapMethods(v), pool) is Ok,
        holds_at(w, pos, attribute_body_bytes(AttributeView::BootstrapMethods(v), pool)->Ok_0),
    ensures
        attribute_body_at(w, pos, pool, "BootstrapMethods"@, index) == Ok::<(AttributeView, int), Error>(
            (
                AttributeView::BootstrapMethods(v),
                pos + attribute_body_bytes(AttributeView::BootstrapMethods(v), pool)->Ok_0.len(),
            ),
        ),
{
    super::dispatch::lemma_named_bootstrap_methods(w, pos, pool, index);
    reveal(body_bytes);
    assert forall|i: int| 0 <= i < v.len() implies reads_back(bootstrap_method_format(), bootstrap_method_item(), #[trigger] v[i]) by {
        lemma_bootstrap_method_reads_back(v[i]);
    }
    lemma_read_counted16(bootstrap_method_format(), bootstrap_method_item(), v, w, pos);
}

/// The body of the attribute `Exceptions` is read as it was written.
pub proof fn lemma_read_exceptions_body(
    v: Seq<u16>,
    pool: Slots,
    w: Seq<u8>,
    pos: int,
    index: u16,
)
    requires
        attribute_body_bytes(AttributeView::Exceptions(v), pool) is Ok,
        holds_at(w, pos, attribute_body_bytes(AttributeView::Exceptions(v), pool)->Ok_0),
    ensures
        attribute_body_at(w, pos, pool, "Exceptions"@, index) == Ok::<(AttributeView, int), Error>(
            (
                AttributeView::Exceptions(v),
                pos + attribute_body_bytes(AttributeView::Exceptions(v), pool)->Ok_0.len(),
            ),
        ),
{
    super::dispatch::lemma_named_exceptions(w, pos, pool, index);
    reveal(body_bytes);
    lemma_read_u16_list(v, w, pos);
}

/// The body of the attribute `ModulePackages` is read as it was written.
pub proof fn lemma_read_module_packages_body(
    v: Seq<u16>,
    pool: Slots,
    w: Seq<u8>,
    pos: int,
    index: u16,
)
    requires
        attribute_body_bytes(AttributeView::ModulePackages(v), pool) is Ok,
        holds_at(w, pos, attribute_body_bytes(AttributeView::ModulePackages(v), pool)->Ok_0),
    ensures
        attribute_body_at(w, pos, pool, "ModulePackages"@, index) == Ok::<(AttributeView, int), Error>(
            (
                AttributeView::ModulePackages(v),
                pos + attribute_body_bytes(AttributeView::ModulePackages(v), pool)->Ok_0.len(),
            ),
        ),
{
    super::dispatch::lemma_named_module_packages(w, pos, pool, index);
    reveal(body_bytes);
    lemma_read_u16_list(v, w, pos);
}

/// The body of the attribute `InnerClasses` is read as it was written.
pub proof fn lemma_read_inner_classes_body(
    v: Seq<InnerClass>,
    pool: Slots,
    w: Seq<u8>,
    pos: int,
    index: u16,
)
    requires
        attribute_body_bytes(AttributeView::InnerClasses(v), pool) is Ok,
        holds_at(w, pos, attribute_body_bytes(AttributeView::InnerClasses(v), pool)->Ok_0),
    ensures
        attribute_body_at(w, pos, pool, "InnerClasses"@, index) == Ok::<(AttributeView, int), Error>(
            (
                AttributeView::InnerClasses(v),
                pos + attribute_body_bytes(AttributeView::InnerClasses(v), pool)->Ok_0.len(),
            ),
        ),
{
    super::dispatch::lemma_named_inner_classes(w, pos, pool, index);
    reveal(body_bytes);
    assert forall|i: int| 0 <= i < v.len() implies reads_back(inner_class_format(), inner_class_item(), #[trigger] v[i]) by {
        lemma_inner_class_reads_back(v[i]);
    }
    lemma_read_counted16(inner_class_format(), inner_class_item(), v, w, pos);
}

/// The body of the attribute `LineNumberTable` is read as it was written.
pub proof fn lemma_read_line_number_table_body(
    v: Seq<LineNumber>,
    pool: Slots,
    w: Seq<u8>,
    pos: int,
    index: u16,
)
    requires
        attribute_body_bytes(AttributeView::LineNumberTable(v), pool) is Ok,
        holds_at(w, pos, attribute_body_bytes(AttributeView::LineNumberTable(v), pool)->Ok_0),
    ensures
        attribute_body_at(w, pos, pool, "LineNumberTable"@, index) == Ok::<(AttributeView, int), Error>(
            (
                AttributeView::LineNumberTable(v),
                pos + attribute_body_bytes(AttributeView::LineNumberTable(v), pool)->Ok_0.len(),
            ),
        ),
{
    super::dispatch::lemma_named_line_number_table(w, pos, pool, index);
    reveal(body_bytes);
    assert forall|i: int| 0 <= i < v.len() implies reads_back(line_number_format(), line_number_item(), #[trigger] v[i]) by {
        lemma_line_number_reads_back(v[i]);
    }
    lemma_read_counted16(line_number_format(), line_number_item(), v, w, pos);
}

/// The body of the attribute `LocalVariableTable` is read as it was written.
pub proof fn lemma_read_local_variable_table_body(
    v: Seq<LocalVariable>,
    pool: Slots,
    w: Seq<u8>,
    pos: int,
    index: u16,
)
    requires
        attribute_body_bytes(AttributeView::LocalVariableTable(v), pool) is Ok,
        holds_at(w, pos, attribute_body_bytes(AttributeView::LocalVariableTable(v), pool)->Ok_0),
    ensures
        attribute_body_at(w, pos, pool, "LocalVariableTable"@, index) == Ok::<(AttributeView, int), Error>(
            (
                AttributeView::LocalVariableTable(v),
                pos + attribute_body_bytes(AttributeView::LocalVariableTable(v), pool)->Ok_0.len(),
            ),
        ),
{
    super::dispatch::lemma_named_local_variable_table(w, pos, pool, index);
    reveal(body_bytes);
    assert forall|i: int| 0 <= i < v.len() implies reads_back(local_variable_format(), local_variable_item(), #[trigger] v[i]) by {
        lemma_local_variable_reads_back(v[i]);
    }
    lemma_read_counted16(local_variable_format(), local_variable_item(), v, w, pos);
}

/// The body of the attribute `LocalVariableTypeTable` is read as it was written.
pub proof fn lemma_read_local_variable_type_table_body(
    v: Seq<LocalVariableType>,
    pool: Slots,
    w: Seq<u8>,
    pos: int,
    index: u16,
)
    requires
        attribute_body_bytes(AttributeView::LocalVariableTypeTable(v), pool) is Ok,
        holds_at(
            w,
            pos,
            attribute_body_bytes(AttributeView::LocalVariableTypeTable(v), pool)->Ok_0,
        ),
    ensures
        attribute_body_at(w, pos, pool, "LocalVariableTypeTable"@, index) == Ok::<(AttributeView, int), Error>(
            (
                AttributeView::LocalVariableTypeTable(v),
                pos + attribute_body_bytes(
                    AttributeView::LocalVariableTypeTable(v),
                    pool,
                )->Ok_0.len(),
            ),
        ),
{
    super::dispatch::lemma_named_local_variable_type_table(w, pos, pool, index);
    reveal(body_bytes);
    assert forall|i: int| 0 <= i < v.len() implies reads_back(local_variable_type_format(), local_variable_type_item(), #[trigger] v[i]) by {
        lemma_local_variable_type_reads_back(v[i]);
    }
    lemma_read_counted16(local_variable_type_format(), local_variable_type_item(), v, w, pos);
}

/// The body of the attribute `MethodParameters` is read as it was written.
pub proof fn lemma_read_method_parameters_body(
    v: Seq<MethodParameter>,
    pool: Slots,
    w: Seq<u8>,
    pos: int,
    index: u16,
)
    requires
        attribute_body_bytes(AttributeView::MethodParameters(v), pool) is Ok,
        holds_at(w, pos, attribute_body_bytes(AttributeView::MethodParameters(v), pool)->Ok_0),
    ensures
        attribute_body_at(w, pos, pool, "MethodParameters"@, index) == Ok::<(AttributeView, int), Error>(
            (
                AttributeView::MethodParameters(v),
                pos + attribute_body_bytes(AttributeView::MethodParameters(v), pool)->Ok_0.len(),
            ),
        ),
{
    super::dispatch::lemma_named_method_parameters(w, pos, pool, index);
    reveal(body_bytes);
    assert forall|i: int| 0 <= i < v.len() implies reads_back(method_parameter_format(), method_parameter_item(), #[trigger] v[i]) by {
        lemma_method_parameter_reads_back(v[i]);
    }
    lemma_read_counted16(method_parameter_format(), method_parameter_item(), v, w, pos);
}

/// The body of the attribute `StackMapTable` is read as it was written.
pub proof fn lemma_read_stack_map_table_body(
    v: Seq<StackMapFrameView>,
    pool: Slots,
    w: Seq<u8>,
    pos: int,
    index: u16,
)
    requires
        attribute_body_bytes(AttributeView::StackMapTable(v), pool) is Ok,
        holds_at(w, pos, attribute_body_bytes(AttributeView::StackMapTable(v), pool)->Ok_0),
    ensures
        attribute_body_at(w, pos, pool, "StackMapTable"@, index) == Ok::<(AttributeView, int), Error>(
            (
                AttributeView::StackMapTable(v),
                pos + attribute_body_bytes(AttributeView::StackMapTable(v), pool)->Ok_0.len(),
            ),
        ),
{
    super::dispatch::lemma_named_stack_map_table(w, pos, pool, index);
    reveal(body_bytes);
    assert forall|i: int| 0 <= i < v.len() implies reads_back(stack_map_frame_format(), stack_map_frame_item(), #[trigger] v[i]) by {
        lemma_stack_map_frame_reads_back(v[i]);
    }
    lemma_read_counted16(stack_map_frame_format(), stack_map_frame_item(), v, w, pos);
}

/// The body of the attribute `ConstantValue` is read as it was written.
pub proof fn lemma_read_constant_value_body(
    i: u16,
    pool: Slots,
    w: Seq<u8>,
    pos: int,
    index: u16,
)
    requires
        attribute_body_bytes(AttributeView::ConstantValue(i), pool) is Ok,
        holds_at(w, pos, attribute_body_bytes(AttributeView::ConstantValue(i), pool)->Ok_0),
    ensures
        attribute_body_at(w, pos, pool, "ConstantValue"@, index) == Ok::<(AttributeView, int), Error>(
            (
                AttributeView::ConstantValue(i),
                pos + attribute_body_bytes(AttributeView::ConstantValue(i), pool)->Ok_0.len(),
            ),
        ),
{
    super::dispatch::lemma_named_constant_value(w, pos, pool, index);
    assert(attribute_body_bytes(AttributeView::ConstantValue(i), pool) == Ok::<Seq<u8>, Error>(u16_bytes(i))) by {
        reveal(body_bytes);
    }
    assert(u16_bytes(i).len() == 2);
    lemma_read_u16(w, pos, i);
}

/// The body of the attribute `ModuleMainClass` is read as it was written.
pub proof fn lemma_read_module_main_class_body(
    i: u16,
    pool: Slots,
    w: Seq<u8>,
    pos: int,
    index: u16,
)
    requires
        attribute_body_bytes(AttributeView::ModuleMainClass(i), pool) is Ok,
        holds_at(w, pos, attribute_body_bytes(AttributeView::ModuleMainClass(i), pool)->Ok_0),
    ensures
        attribute_body_at(w, pos, pool, "ModuleMainClass"@, index) == Ok::<(AttributeView, int), Error>(
            (
                AttributeView::ModuleMainClass(i),
                pos + attribute_body_bytes(AttributeView::ModuleMainClass(i), pool)->Ok_0.len(),
            ),
        ),
{
    super::dispatch::lemma_named_module_main_class(w, pos, pool, index);
    assert(attribute_body_bytes(AttributeView::ModuleMainClass(i), pool) == Ok::<Seq<u8>, Error>(u16_bytes(i))) by {
        reveal(body_bytes);
    }
    assert(u16_bytes(i).len() == 2);
    lemma_read_u16(w, pos, i);
}

/// The body of the attribute `Signature` is read as it was written.
pub proof fn lemma_read_signature_body(
    i: u16,
    pool: Slots,
    w: Seq<u8>,
    pos: int,
    index: u16,
)
    requires
        attribute_body_bytes(AttributeView::Signature(i), pool) is Ok,
        holds_at(w, pos, attribute_body_bytes(AttributeView::Signature(i), pool)->Ok_0),
    ensures
        attribute_body_at(w, pos, pool, "Signature"@, index) == Ok::<(AttributeView, int), Error>(
            (
                AttributeView::Signature(i),
                pos + attribute_body_bytes(AttributeView::Signature(i), pool)->Ok_0.len(),
            ),
        ),
{
    super::dispatch::lemma_named_signature(w, pos, pool, index);
    assert(attribute_body_bytes(AttributeView::Signature(i), pool) == Ok::<Seq<u8>, Error>(u16_bytes(i))) by {
        reveal(body_bytes);
    }
    assert(u16_bytes(i).len() == 2);
    lemma_read_u16(w, pos, i);
}

/// The body of the attribute `SourceFile` is read as it was written.
pub proof fn lemma_read_source_file_body(
    i: u16,
    pool: Slots,
    w: Seq<u8>,
    pos: int,
    index: u16,
)
    requires
        attribute_body_bytes(AttributeView::SourceFile(i), pool) is Ok,
        holds_at(w, pos, attribute_body_bytes(AttributeView::SourceFile(i), pool)->Ok_0),
    ensures
        attribute_body_at(w, pos, pool, "SourceFile"@, index) == Ok::<(AttributeView, int), Error>(
            (
                AttributeView::SourceFile(i),
                pos + attribute_body_bytes(AttributeView::SourceFile(i), pool)->Ok_0.len(),
            ),
        ),
{
    super::dispatch::lemma_named_source_file(w, pos, pool, index);
    assert(attribute_body_bytes(AttributeView::SourceFile(i), pool) == Ok::<Seq<u8>, Error>(u16_bytes(i))) by {
        reveal(body_bytes);
    }
    assert(u16_bytes(i).len() == 2);
    lemma_read_u16(w, pos, i);
}

/// The body of the attribute `Deprecated` is read as it was written.
pub proof fn lemma_read_deprecated_body(
    pool: Slots,
    w: Seq<u8>,
    pos: int,
    index: u16,
)
    requires
        attribute_body_bytes(AttributeView::Deprecated, pool) is Ok,
        holds_at(w, pos, attribute_body_bytes(AttributeView::Deprecated, pool)->Ok_0),
    ensures
        attribute_body_at(w, pos, pool, "Deprecated"@, index) == Ok::<(AttributeView, int), Error>(
            (
                AttributeView::Deprecated,
                pos + attribute_body_bytes(AttributeView::Deprecated, pool)->Ok_0.len(),
            ),
        ),
{
    super::dispatch::lemma_named_deprecated(w, pos, pool, index);
    reveal(body_bytes);
}

/// The body of the attribute `Synthetic` is read as it was written.
pub proof fn lemma_read_synthetic_body(
    pool: Slots,
    w: Seq<u8>,
    pos: int,
    index: u16,
)
    requires
        attribute_body_bytes(AttributeView::Synthetic, pool) is Ok,
        holds_at(w, pos, attribute_body_bytes(AttributeView::Synthetic, pool)->Ok_0),
    ensures
        attribute_body_at(w, pos, pool, "Synthetic"@, index) == Ok::<(AttributeView, int), Error>(
            (
                AttributeView::Synthetic,
                pos + attribute_body_bytes(AttributeView::Synthetic, pool)->Ok_0.len(),
            ),
        ),
{
    super::dispatch::lemma_named_synthetic(w, pos, pool, index);
    reveal(body_bytes);
}

/// The body of the attribute `EnclosingMethod` is read as it was written.
pub proof fn lemma_read_enclosing_method_body(
    class_index: u16, method_index: u16,
    pool: Slots,
    w: Seq<u8>,
    pos: int,
    index: u16,
)
    requires
        attribute_body_bytes(
            AttributeView::EnclosingMethod { class_index, method_index },
            pool,
        ) is Ok,
        holds_at(
            w,
            pos,
            attribute_body_bytes(
                AttributeView::EnclosingMethod { class_index, method_index },
                pool,
            )->Ok_0,
        ),
    ensures
        attribute_body_at(w, pos, pool, "EnclosingMethod"@, index) == Ok::<(AttributeView, int), Error>(
            (
                AttributeView::EnclosingMethod { class_index, method_index },
                pos + attribute_body_bytes(
                    AttributeView::EnclosingMethod { class_index, method_index },
                    pool,
                )->Ok_0.len(),
            ),
        ),
{
    super::dispatch::lemma_named_enclosing_method(w, pos, pool, index);
    assert(attribute_body_bytes(AttributeView::EnclosingMethod { class_index, method_index }, pool)
        == Ok::<Seq<u8>, Error>(u16_bytes(class_index) + u16_bytes(method_index))) by {
        reveal(body_bytes);
    }
    lemma_read_two(class_index, method_index, w, pos);
}

/// The body of the attribute `SourceDebugExtension` is read as it was written.
pub proof fn lemma_read_source_debug_extension_body(
    chars: Seq<char>,
    pool: Slots,
    w: Seq<u8>,
    pos: int,
    index: u16,
)
    requires
        attribute_body_bytes(AttributeView::SourceDebugExtension(chars), pool) is Ok,
        holds_at(
            w,
            pos,
            attribute_body_bytes(AttributeView::SourceDebugExtension(chars), pool)->Ok_0,
        ),
        w.len() == pos + attribute_body_bytes(
            AttributeView::SourceDebugExtension(chars),
            pool,
        )->Ok_0.len(),
    ensures
        attribute_body_at(w, pos, pool, "SourceDebugExtension"@, index) == Ok::<(AttributeView, int), Error>(
            (
                AttributeView::SourceDebugExtension(chars),
                pos + attribute_body_bytes(
                    AttributeView::SourceDebugExtension(chars),
                    pool,
                )->Ok_0.len(),
            ),
        ),
{
    super::dispatch::lemma_named_source_debug_extension(w, pos, pool, index);
    assert(attribute_body_bytes(AttributeView::SourceDebugExtension(chars), pool) == Ok::<
        Seq<u8>,
        Error,
    >(mutf8::encode(chars))) by {
        reveal(body_bytes);
    }
    lemma_read_text(chars, w, pos);
}

/// The body of the attribute `AnnotationDefault` is read as it was written.
pub proof fn lemma_read_annotation_default_body(
    value: ElementValueView,
    pool: Slots,
    w: Seq<u8>,
    pos: int,
    index: u16,
)
    requires
        attribute_body_bytes(AttributeView::AnnotationDefault(value), pool) is Ok,
        holds_at(w, pos, attribute_body_bytes(AttributeView::AnnotationDefault(value), pool)->Ok_0),
    ensures
        attribute_body_at(w, pos, pool, "AnnotationDefault"@, index) == Ok::<(AttributeView, int), Error>(
            (
                AttributeView::AnnotationDefault(value),
                pos + attribute_body_bytes(
                    AttributeView::AnnotationDefault(value),
                    pool,
                )->Ok_0.len(),
            ),
        ),
{
    super::dispatch::lemma_named_annotation_default(w, pos, pool, index);
    reveal(body_bytes);
    lemma_read_element_value(value, w, pos);
}

/// The body of the attribute `RuntimeVisibleAnnotations` is read as it was written.
pub proof fn lemma_read_runtime_visible_annotations_body(
    v: Seq<AnnotationView>,
    pool: Slots,
    w: Seq<u8>,
    pos: int,
    index: u16,
)
    requires
        attribute_body_bytes(AttributeView::RuntimeVisibleAnnotations(v), pool) is Ok,
        holds_at(
            w,
            pos,
            attribute_body_bytes(AttributeView::RuntimeVisibleAnnotations(v), pool)->Ok_0,
        ),
    ensures
        attribute_body_at(w, pos, pool, "RuntimeVisibleAnnotations"@, index) == Ok::<(AttributeView, int), Error>(
            (
                AttributeView::RuntimeVisibleAnnotations(v),
                pos + attribute_body_bytes(
                    AttributeView::RuntimeVisibleAnnotations(v),
                    pool,
                )->Ok_0.len(),
            ),
        ),
{
    super::dispatch::lemma_named_runtime_visible_annotations(w, pos, pool, index);
    reveal(body_bytes);
    lemma_read_annotations(v, w, pos);
}

/// The body of the attribute `RuntimeInvisibleAnnotations` is read as it was written.
pub proof fn lemma_read_runtime_invisible_annotations_body(
    v: Seq<AnnotationView>,
    pool: Slots,
    w: Seq<u8>,
    pos: int,
    index: u16,
)
    requires
        attribute_body_bytes(AttributeView::RuntimeInvisibleAnnotations(v), pool) is Ok,
        holds_at(
            w,
            pos,
            attribute_body_bytes(AttributeView::RuntimeInvisibleAnnotations(v), pool)->Ok_0,
        ),
    ensures
        attribute_body_at(w, pos, pool, "RuntimeInvisibleAnnotations"@, index) == Ok::<(AttributeView, int), Error>(
            (
                AttributeView::RuntimeInvisibleAnnotations(v),
                pos + attribute_body_bytes(
                    AttributeView::RuntimeInvisibleAnnotations(v),
                    pool,
                )->Ok_0.len(),
            ),
        ),
{
    super::dispatch::lemma_named_runtime_invisible_annotations(w, pos, pool, index);
    reveal(body_bytes);
    lemma_read_annotations(v, w, pos);
}

/// The body of the attribute `RuntimeVisibleParameterAnnotations` is read as it was written.
pub proof fn lemma_read_runtime_visible_parameter_annotations_body(
    v: Seq<Seq<AnnotationView>>,
    pool: Slots,
    w: Seq<u8>,
    pos: int,
    index: u16,
)
    requires
        attribute_body_bytes(AttributeView::RuntimeVisibleParameterAnnotations(v), pool) is Ok,
        holds_at(
            w,
            pos,
            attribute_body_bytes(AttributeView::RuntimeVisibleParameterAnnotations(v), pool)->Ok_0,
        ),
    ensures
        attribute_body_at(w, pos, pool, "RuntimeVisibleParameterAnnotations"@, index) == Ok::<(AttributeView, int), Error>(
            (
                AttributeView::RuntimeVisibleParameterAnnotations(v),
                pos + attribute_body_bytes(
                    AttributeView::RuntimeVisibleParameterAnnotations(v),
                    pool,
                )->Ok_0.len(),
            ),
        ),
{
    super::dispatch::lemma_named_runtime_visible_parameter_annotations(w, pos, pool, index);
    reveal(body_bytes);
    lemma_read_parameter_annotations(v, w, pos);
}

/// The body of the attribute `RuntimeInvisibleParameterAnnotations` is read as it was written.
pub proof fn lemma_read_runtime_invisible_parameter_annotations_body(
    v: Seq<Seq<AnnotationView>>,
    pool: Slots,
    w: Seq<u8>,
    pos: int,
    index: u16,
)
    requires
        attribute_body_bytes(AttributeView::RuntimeInvisibleParameterAnnotations(v), pool) is Ok,
        holds_at(
            w,
            pos,
            attribute_body_bytes(
                AttributeView::RuntimeInvisibleParameterAnnotations(v),
                pool,
            )->Ok_0,
        ),
    ensures
        attribute_body_at(w, pos, pool, "RuntimeInvisibleParameterAnnotations"@, index) == Ok::<(AttributeView, int), Error>(
            (
                AttributeView::RuntimeInvisibleParameterAnnotations(v),
                pos + attribute_body_bytes(
                    AttributeView::RuntimeInvisibleParameterAnnotations(v),
                    pool,
                )->Ok_0.len(),
            ),
        ),
{
    super::dispatch::lemma_named_runtime_invisible_parameter_annotations(w, pos, pool, index);
    reveal(body_bytes);
    lemma_read_parameter_annotations(v, w, pos);
}

/// The body of the attribute `RuntimeVisibleTypeAnnotations` is read as it was written.
pub proof fn lemma_read_runtime_visible_type_annotations_body(
    v: Seq<TypeAnnotationView>,
    pool: Slots,
    w: Seq<u8>,
    pos: int,
    index: u16,
)
    requires
        attribute_body_bytes(AttributeView::RuntimeVisibleTypeAnnotations(v), pool) is Ok,
        holds_at(
            w,
            pos,
            attribute_body_bytes(AttributeView::RuntimeVisibleTypeAnnotations(v), pool)->Ok_0,
        ),
        forall|i: int| 0 <= i < v.len() ==> proper_type_annotation(#[trigger] v[i]),
    ensures
        attribute_body_at(w, pos, pool, "RuntimeVisibleTypeAnnotations"@, index) == Ok::<(AttributeView, int), Error>(
            (
                AttributeView::RuntimeVisibleTypeAnnotations(v),
                pos + attribute_body_bytes(
                    AttributeView::RuntimeVisibleTypeAnnotations(v),
                    pool,
                )->Ok_0.len(),
            ),
        ),
{
    super::dispatch::lemma_named_runtime_visible_type_annotations(w, pos, pool, index);
    reveal(body_bytes);
    lemma_read_type_annotations(v, w, pos);
}

/// The body of the attribute `RuntimeInvisibleTypeAnnotations` is read as it was written.
pub proof fn lemma_read_runtime_invisible_type_annotations_body(
    v: Seq<TypeAnnotationView>,
    pool: Slots,
    w: Seq<u8>,
    pos: int,
    index: u16,
)
    requires
        attribute_body_bytes(AttributeView::RuntimeInvisibleTypeAnnotations(v), pool) is Ok,
        holds_at(
            w,
            pos,
            attribute_body_bytes(AttributeView::RuntimeInvisibleTypeAnnotations(v), pool)->Ok_0,
        ),
        forall|i: int| 0 <= i < v.len() ==> proper_type_annotation(#[trigger] v[i]),
    ensures
        attribute_body_at(w, pos, pool, "RuntimeInvisibleTypeAnnotations"@, index) == Ok::<(AttributeView, int), Error>(
            (
                AttributeView::RuntimeInvisibleTypeAnnotations(v),
                pos + attribute_body_bytes(
                    AttributeView::RuntimeInvisibleTypeAnnotations(v),
                    pool,
                )->Ok_0.len(),
            ),
        ),
{
    super::dispatch::lemma_named_runtime_invisible_type_annotations(w, pos, pool, index);
    reveal(body_bytes);
    lemma_read_type_annotations(v, w, pos);
}

/// The body of the attribute `Module` is read as it was written.
pub proof fn lemma_read_module_body(
    name: u16,
    flags: AccessFlags,
    version: u16,
    requirements: Seq<Requirement>,
    exports: Seq<ExportView>,
    opens: Seq<ExportView>,
    uses: Seq<u16>,
    provides: Seq<ProviderView>,
    pool: Slots,
    w: Seq<u8>,
    pos: int,
    index: u16,
)
    requires
        attribute_body_bytes(
            AttributeView::Module { name, flags, version, requires: requirements, exports, opens, uses, provides },
            pool,
        ) is Ok,
        holds_at(
            w,
            pos,
            attribute_body_bytes(
                AttributeView::Module { name, flags, version, requires: requirements, exports, opens, uses, provides },
                pool,
            )->Ok_0,
        ),
    ensures
        attribute_body_at(w, pos, pool, "Module"@, index) == Ok::<(AttributeView, int), Error>(
            (
                AttributeView::Module { name, flags, version, requires: requirements, exports, opens, uses, provides },
                pos + attribute_body_bytes(
                    AttributeView::Module { name, flags, version, requires: requirements, exports, opens, uses, provides },
                    pool,
                )->Ok_0.len(),
            ),
        ),
{
    super::dispatch::lemma_named_module(w, pos, pool, index);
    let a = AttributeView::Module {
        name,
        flags,
        version,
        requires: requirements,
        exports,
        opens,
        uses,
        provides,
    };
    let head = u16_bytes(name) + u16_bytes(flags.bits) + u16_bytes(version);
    let b1 = counted16(requirement_format(), requirements);
    let b2 = counted16(export_format(), exports);
    let b3 = counted16(export_format(), opens);
    let b4 = counted16(u16_format(), uses);
    let b5 = counted16(provider_format(), provides);
    assert(attribute_body_bytes(a, pool) == then(
        then(then(then(then(Ok(head), b1), b2), b3), b4),
        b5,
    )) by {
        reveal(body_bytes);
    }
    lemma_six_parts(head, b1, b2, b3, b4, b5);
    lemma_read_module(name, flags, version, requirements, exports, opens, uses, provides, w, pos);
}

} // verus!
