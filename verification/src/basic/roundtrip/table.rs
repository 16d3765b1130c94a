//! The entries of tables are read as they were written.

use vstd::prelude::*;
use super::super::parser::annotation::{local_variable_target_at, local_variable_target_item};
use super::super::parser::class::{
    inner_class_at, inner_class_item, requirement_at, requirement_item,
};
use super::super::parser::code::{exception_at, exception_item};
use super::super::parser::method::{
    line_number_at, line_number_item, local_variable_at, local_variable_item,
    local_variable_type_at, local_variable_type_item, method_parameter_at, method_parameter_item,
};
use super::super::result::Error;
use super::super::tree::{
    Exception, InnerClass, LineNumber, LocalVariable, LocalVariableTarget, LocalVariableType,
    MethodParameter, Requirement,
};
use super::super::writer::encode::u16_bytes;
use super::super::writer::table::{
    exception_bytes, exception_format, inner_class_bytes, inner_class_format, line_number_bytes,
    line_number_format, local_variable_bytes, local_variable_format, local_variable_target_bytes,
    local_variable_target_format, local_variable_type_bytes, local_variable_type_format,
    method_parameter_bytes, method_parameter_format, requirement_bytes, requirement_format,
};
use super::code::lemma_read_u16;
use super::{holds_at, lemma_split, reads_back};

verus! {

/// An entry of the exception table of a code is read as it was written.
pub proof fn lemma_exception_reads_back(x: Exception)
    ensures
        reads_back(exception_format(), exception_item(), x),
{
    assert forall|s: Seq<u8>, pos: int| #[trigger] holds_at(s, pos, exception_bytes(x)) implies exception_at(
        s,
        pos,
    ) == Ok::<(Exception, int), Error>((x, pos + exception_bytes(x).len())) by {
        lemma_split(
            s,
            pos,
            u16_bytes(x.start) + u16_bytes(x.end) + u16_bytes(x.handler),
            u16_bytes(x.catch_type),
        );
        lemma_split(s, pos, u16_bytes(x.start) + u16_bytes(x.end), u16_bytes(x.handler));
        lemma_split(s, pos, u16_bytes(x.start), u16_bytes(x.end));
        lemma_read_u16(s, pos, x.start);
        lemma_read_u16(s, pos + 2, x.end);
        lemma_read_u16(s, pos + 4, x.handler);
        lemma_read_u16(s, pos + 6, x.catch_type);
    }
}

/// An entry of the `LineNumberTable` is read as it was written.
pub proof fn lemma_line_number_reads_back(x: LineNumber)
    ensures
        reads_back(line_number_format(), line_number_item(), x),
{
    assert forall|s: Seq<u8>, pos: int| #[trigger] holds_at(s, pos, line_number_bytes(x)) implies line_number_at(
        s,
        pos,
    ) == Ok::<(LineNumber, int), Error>((x, pos + line_number_bytes(x).len())) by {
        lemma_split(s, pos, u16_bytes(x.start), u16_bytes(x.line_number));
        lemma_read_u16(s, pos, x.start);
        lemma_read_u16(s, pos + 2, x.line_number);
    }
}

/// An entry of the `LocalVariableTable` is read as it was written.
pub proof fn lemma_local_variable_reads_back(x: LocalVariable)
    ensures
        reads_back(local_variable_format(), local_variable_item(), x),
{
    assert forall|s: Seq<u8>, pos: int| #[trigger] holds_at(s, pos, local_variable_bytes(x)) implies local_variable_at(
        s,
        pos,
    ) == Ok::<(LocalVariable, int), Error>((x, pos + local_variable_bytes(x).len())) by {
        lemma_split(
            s,
            pos,
            u16_bytes(x.start) + u16_bytes(x.length) + u16_bytes(x.name) + u16_bytes(x.descriptor),
            u16_bytes(x.index),
        );
        lemma_split(
            s,
            pos,
            u16_bytes(x.start) + u16_bytes(x.length) + u16_bytes(x.name),
            u16_bytes(x.descriptor),
        );
        lemma_split(s, pos, u16_bytes(x.start) + u16_bytes(x.length), u16_bytes(x.name));
        lemma_split(s, pos, u16_bytes(x.start), u16_bytes(x.length));
        lemma_read_u16(s, pos, x.start);
        lemma_read_u16(s, pos + 2, x.length);
        lemma_read_u16(s, pos + 4, x.name);
        lemma_read_u16(s, pos + 6, x.descriptor);
        lemma_read_u16(s, pos + 8, x.index);
    }
}

/// An entry of the `LocalVariableTypeTable` is read as it was written.
pub proof fn lemma_local_variable_type_reads_back(x: LocalVariableType)
    ensures
        reads_back(local_variable_type_format(), local_variable_type_item(), x),
{
    assert forall|s: Seq<u8>, pos: int| #[trigger] holds_at(s, pos, local_variable_type_bytes(x)) implies local_variable_type_at(
        s,
        pos,
    ) == Ok::<(LocalVariableType, int), Error>((x, pos + local_variable_type_bytes(x).len())) by {
        lemma_split(
            s,
            pos,
            u16_bytes(x.start) + u16_bytes(x.length) + u16_bytes(x.name) + u16_bytes(x.signature),
            u16_bytes(x.index),
        );
        lemma_split(
            s,
            pos,
            u16_bytes(x.start) + u16_bytes(x.length) + u16_bytes(x.name),
            u16_bytes(x.signature),
        );
        lemma_split(s, pos, u16_bytes(x.start) + u16_bytes(x.length), u16_bytes(x.name));
        lemma_split(s, pos, u16_bytes(x.start), u16_bytes(x.length));
        lemma_read_u16(s, pos, x.start);
        lemma_read_u16(s, pos + 2, x.length);
        lemma_read_u16(s, pos + 4, x.name);
        lemma_read_u16(s, pos + 6, x.signature);
        lemma_read_u16(s, pos + 8, x.index);
    }
}

/// An entry of the `MethodParameters` attribute is read as it was written.
pub proof fn lemma_method_parameter_reads_back(x: MethodParameter)
    ensures
        reads_back(method_parameter_format(), method_parameter_item(), x),
{
    assert forall|s: Seq<u8>, pos: int| #[trigger] holds_at(s, pos, method_parameter_bytes(x)) implies method_parameter_at(
        s,
        pos,
    ) == Ok::<(MethodParameter, int), Error>((x, pos + method_parameter_bytes(x).len())) by {
        lemma_split(s, pos, u16_bytes(x.name), u16_bytes(x.access_flags.bits));
        lemma_read_u16(s, pos, x.name);
        lemma_read_u16(s, pos + 2, x.access_flags.bits);
    }
}

/// An entry of the `InnerClasses` attribute is read as it was written.
pub proof fn lemma_inner_class_reads_back(x: InnerClass)
    ensures
        reads_back(inner_class_format(), inner_class_item(), x),
{
    assert forall|s: Seq<u8>, pos: int| #[trigger] holds_at(s, pos, inner_class_bytes(x)) implies inner_class_at(
        s,
        pos,
    ) == Ok::<(InnerClass, int), Error>((x, pos + inner_class_bytes(x).len())) by {
        lemma_split(
            s,
            pos,
            u16_bytes(x.inner_class_info) + u16_bytes(x.outer_class_info) + u16_bytes(x.inner_name),
            u16_bytes(x.inner_class_access_flags.bits),
        );
        lemma_split(
            s,
            pos,
            u16_bytes(x.inner_class_info) + u16_bytes(x.outer_class_info),
            u16_bytes(x.inner_name),
        );
        lemma_split(s, pos, u16_bytes(x.inner_class_info), u16_bytes(x.outer_class_info));
        lemma_read_u16(s, pos, x.inner_class_info);
        lemma_read_u16(s, pos + 2, x.outer_class_info);
        lemma_read_u16(s, pos + 4, x.inner_name);
        lemma_read_u16(s, pos + 6, x.inner_class_access_flags.bits);
    }
}

/// A dependency of a module is read as it was written.
pub proof fn lemma_requirement_reads_back(x: Requirement)
    ensures
        reads_back(requirement_format(), requirement_item(), x),
{
    assert forall|s: Seq<u8>, pos: int| #[trigger] holds_at(s, pos, requirement_bytes(x)) implies requirement_at(
        s,
        pos,
    ) == Ok::<(Requirement, int), Error>((x, pos + requirement_bytes(x).len())) by {
        lemma_split(s, pos, u16_bytes(x.index) + u16_bytes(x.flags.bits), u16_bytes(x.version));
        lemma_split(s, pos, u16_bytes(x.index), u16_bytes(x.flags.bits));
        lemma_read_u16(s, pos, x.index);
        lemma_read_u16(s, pos + 2, x.flags.bits);
        lemma_read_u16(s, pos + 4, x.version);
    }
}

/// An entry of a local variable target is read as it was written.
pub proof fn lemma_local_variable_target_reads_back(x: LocalVariableTarget)
    ensures
        reads_back(local_variable_target_format(), local_variable_target_item(), x),
{
    assert forall|s: Seq<u8>, pos: int| #[trigger] holds_at(s, pos, local_variable_target_bytes(x)) implies local_variable_target_at(
        s,
        pos,
    ) == Ok::<(LocalVariableTarget, int), Error>((x, pos + local_variable_target_bytes(x).len())) by {
        lemma_split(s, pos, u16_bytes(x.start) + u16_bytes(x.length), u16_bytes(x.index));
        lemma_split(s, pos, u16_bytes(x.start), u16_bytes(x.length));
        lemma_read_u16(s, pos, x.start);
        lemma_read_u16(s, pos + 2, x.length);
        lemma_read_u16(s, pos + 4, x.index);
    }
}

} // verus!
