//! What the name of an attribute leads to.

use vstd::prelude::*;
use super::super::constpool::Slots;
use super::super::mutf8;
use super::super::parser::annotation::{
    annotations_at, element_value_at, parameter_annotations_at, type_annotations_at,
};
use super::super::parser::class::{
    bootstrap_methods_at, enclosing_method_at, inner_classes_at, module_at, module_packages_at,
};
use super::super::parser::code::code_at;
use super::super::parser::decode::u16_at;
use super::super::parser::grammar::mapped;
use super::super::parser::method::{
    exceptions_at, line_number_table_at, local_variable_table_at, local_variable_type_table_at,
    method_parameters_at, stack_map_table_at,
};
use super::super::parser::attribute_body_at;
use super::super::result::Error;
use super::super::tree::AttributeView;
use super::names::lemma_name_marks;

verus! {

/// What the name `AnnotationDefault` leads to.
pub proof fn lemma_named_annotation_default(w: Seq<u8>, pos: int, pool: Slots, index: u16)
    ensures
        attribute_body_at(w, pos, pool, "AnnotationDefault"@, index) == mapped(
            element_value_at(w, pos),
            |v| AttributeView::AnnotationDefault(v),
        ),
{
    lemma_name_marks();
}

/// What the name `BootstrapMethods` leads to.
pub proof fn lemma_named_bootstrap_methods(w: Seq<u8>, pos: int, pool: Slots, index: u16)
    ensures
        attribute_body_at(w, pos, pool, "BootstrapMethods"@, index) == bootstrap_methods_at(w, pos),
{
    lemma_name_marks();
}

/// What the name `Code` leads to.
pub proof fn lemma_named_code(w: Seq<u8>, pos: int, pool: Slots, index: u16)
    ensures
        attribute_body_at(w, pos, pool, "Code"@, index) == code_at(w, pos, pool),
{
    lemma_name_marks();
}

/// What the name `ConstantValue` leads to.
pub proof fn lemma_named_constant_value(w: Seq<u8>, pos: int, pool: Slots, index: u16)
    ensures
        attribute_body_at(w, pos, pool, "ConstantValue"@, index) == mapped(
            u16_at(w, pos),
            |i: u16| AttributeView::ConstantValue(i),
        ),
{
    lemma_name_marks();
}

/// What the name `Deprecated` leads to.
pub proof fn lemma_named_deprecated(w: Seq<u8>, pos: int, pool: Slots, index: u16)
    ensures
        attribute_body_at(w, pos, pool, "Deprecated"@, index) == Ok::<(AttributeView, int), Error>(
            (AttributeView::Deprecated, pos),
        ),
{
    lemma_name_marks();
}

/// What the name `EnclosingMethod` leads to.
pub proof fn lemma_named_enclosing_method(w: Seq<u8>, pos: int, pool: Slots, index: u16)
    ensures
        attribute_body_at(w, pos, pool, "EnclosingMethod"@, index) == enclosing_method_at(w, pos),
{
    lemma_name_marks();
}

/// What the name `Exceptions` leads to.
pub proof fn lemma_named_exceptions(w: Seq<u8>, pos: int, pool: Slots, index: u16)
    ensures
        attribute_body_at(w, pos, pool, "Exceptions"@, index) == exceptions_at(w, pos),
{
    lemma_name_marks();
}

/// What the name `InnerClasses` leads to.
pub proof fn lemma_named_inner_classes(w: Seq<u8>, pos: int, pool: Slots, index: u16)
    ensures
        attribute_body_at(w, pos, pool, "InnerClasses"@, index) == inner_classes_at(w, pos),
{
    lemma_name_marks();
}

/// What the name `LineNumberTable` leads to.
pub proof fn lemma_named_line_number_table(w: Seq<u8>, pos: int, pool: Slots, index: u16)
    ensures
        attribute_body_at(w, pos, pool, "LineNumberTable"@, index) == line_number_table_at(w, pos),
{
    lemma_name_marks();
}

/// What the name `LocalVariableTable` leads to.
pub proof fn lemma_named_local_variable_table(w: Seq<u8>, pos: int, pool: Slots, index: u16)
    ensures
        attribute_body_at(w, pos, pool, "LocalVariableTable"@, index) == local_variable_table_at(
            w,
            pos,
        ),
{
    lemma_name_marks();
}

/// What the name `LocalVariableTypeTable` leads to.
pub proof fn lemma_named_local_variable_type_table(w: Seq<u8>, pos: int, pool: Slots, index: u16)
    ensures
        attribute_body_at(w, pos, pool, "LocalVariableTypeTable"@, index)
            == local_variable_type_table_at(w, pos),
{
    lemma_name_marks();
}

/// What the name `MethodParameters` leads to.
pub proof fn lemma_named_method_parameters(w: Seq<u8>, pos: int, pool: Slots, index: u16)
    ensures
        attribute_body_at(w, pos, pool, "MethodParameters"@, index) == method_parameters_at(w, pos),
{
    lemma_name_marks();
}

/// What the name `Module` leads to.
pub proof fn lemma_named_module(w: Seq<u8>, pos: int, pool: Slots, index: u16)
    ensures
        attribute_body_at(w, pos, pool, "Module"@, index) == module_at(w, pos),
{
    lemma_name_marks();
}

/// What the name `ModuleMainClass` leads to.
pub proof fn lemma_named_module_main_class(w: Seq<u8>, pos: int, pool: Slots, index: u16)
    ensures
        attribute_body_at(w, pos, pool, "ModuleMainClass"@, index) == mapped(
            u16_at(w, pos),
            |i: u16| AttributeView::ModuleMainClass(i),
        ),
{
    lemma_name_marks();
}

/// What the name `ModulePackages` leads to.
pub proof fn lemma_named_module_packages(w: Seq<u8>, pos: int, pool: Slots, index: u16)
    ensures
        attribute_body_at(w, pos, pool, "ModulePackages"@, index) == module_packages_at(w, pos),
{
    lemma_name_marks();
}

/// What the name `RuntimeVisibleAnnotations` leads to.
pub proof fn lemma_named_runtime_visible_annotations(w: Seq<u8>, pos: int, pool: Slots, index: u16)
    ensures
        attribute_body_at(w, pos, pool, "RuntimeVisibleAnnotations"@, index) == mapped(
            annotations_at(w, pos),
            |v| AttributeView::RuntimeVisibleAnnotations(v),
        ),
{
    lemma_name_marks();
}

/// What the name `RuntimeInvisibleAnnotations` leads to.
pub proof fn lemma_named_runtime_invisible_annotations(
    w: Seq<u8>,
    pos: int,
    pool: Slots,
    index: u16,
)
    ensures
        attribute_body_at(w, pos, pool, "RuntimeInvisibleAnnotations"@, index) == mapped(
            annotations_at(w, pos),
            |v| AttributeView::RuntimeInvisibleAnnotations(v),
        ),
{
    lemma_name_marks();
}

/// What the name `RuntimeVisibleParameterAnnotations` leads to.
pub proof fn lemma_named_runtime_visible_parameter_annotations(
    w: Seq<u8>,
    pos: int,
    pool: Slots,
    index: u16,
)
    ensures
        attribute_body_at(w, pos, pool, "RuntimeVisibleParameterAnnotations"@, index) == mapped(
            parameter_annotations_at(w, pos),
            |v| AttributeView::RuntimeVisibleParameterAnnotations(v),
        ),
{
    lemma_name_marks();
}

/// What the name `RuntimeInvisibleParameterAnnotations` leads to.
pub proof fn lemma_named_runtime_invisible_parameter_annotations(
    w: Seq<u8>,
    pos: int,
    pool: Slots,
    index: u16,
)
    ensures
        attribute_body_at(w, pos, pool, "RuntimeInvisibleParameterAnnotations"@, index) == mapped(
            parameter_annotations_at(w, pos),
            |v| AttributeView::RuntimeInvisibleParameterAnnotations(v),
        ),
{
    lemma_name_marks();
}

/// What the name `RuntimeVisibleTypeAnnotations` leads to.
pub proof fn lemma_named_runtime_visible_type_annotations(
    w: Seq<u8>,
    pos: int,
    pool: Slots,
    index: u16,
)
    ensures
        attribute_body_at(w, pos, pool, "RuntimeVisibleTypeAnnotations"@, index) == mapped(
            type_annotations_at(w, pos),
            |v| AttributeView::RuntimeVisibleTypeAnnotations(v),
        ),
{
    lemma_name_marks();
}

/// What the name `RuntimeInvisibleTypeAnnotations` leads to.
pub proof fn lemma_named_runtime_invisible_type_annotations(
    w: Seq<u8>,
    pos: int,
    pool: Slots,
    index: u16,
)
    ensures
        attribute_body_at(w, pos, pool, "RuntimeInvisibleTypeAnnotations"@, index) == mapped(
            type_annotations_at(w, pos),
            |v| AttributeView::RuntimeInvisibleTypeAnnotations(v),
        ),
{
    lemma_name_marks();
}

/// What the name `SourceFile` leads to.
pub proof fn lemma_named_source_file(w: Seq<u8>, pos: int, pool: Slots, index: u16)
    ensures
        attribute_body_at(w, pos, pool, "SourceFile"@, index) == mapped(
            u16_at(w, pos),
            |i: u16| AttributeView::SourceFile(i),
        ),
{
    lemma_name_marks();
}

/// What the name `Signature` leads to.
pub proof fn lemma_named_signature(w: Seq<u8>, pos: int, pool: Slots, index: u16)
    ensures
        attribute_body_at(w, pos, pool, "Signature"@, index) == mapped(
            u16_at(w, pos),
            |i: u16| AttributeView::Signature(i),
        ),
{
    lemma_name_marks();
}

/// What the name `StackMapTable` leads to.
pub proof fn lemma_named_stack_map_table(w: Seq<u8>, pos: int, pool: Slots, index: u16)
    ensures
        attribute_body_at(w, pos, pool, "StackMapTable"@, index) == stack_map_table_at(w, pos),
{
    lemma_name_marks();
}

/// What the name `Synthetic` leads to.
pub proof fn lemma_named_synthetic(w: Seq<u8>, pos: int, pool: Slots, index: u16)
    ensures
        attribute_body_at(w, pos, pool, "Synthetic"@, index) == Ok::<(AttributeView, int), Error>(
            (AttributeView::Synthetic, pos),
        ),
{
    lemma_name_marks();
}

/// What the name `SourceDebugExtension` leads to.
pub proof fn lemma_named_source_debug_extension(w: Seq<u8>, pos: int, pool: Slots, index: u16)
    ensures
        attribute_body_at(w, pos, pool, "SourceDebugExtension"@, index) == mapped(
            mutf8::decode(w, pos, w.len() - pos),
            |chars: Seq<char>| AttributeView::SourceDebugExtension(chars),
        ),
{
    lemma_name_marks();
}

} // verus!
