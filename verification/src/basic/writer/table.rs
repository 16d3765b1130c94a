//! The tables of attributes whose entries have a fixed size.

use vstd::prelude::*;
use super::super::result::Error;
use super::super::tree::{
    Exception, InnerClass, LineNumber, LocalVariable, LocalVariableTarget, LocalVariableType,
    MethodParameter, Requirement,
};
use super::encode::{u16_bytes, Encoder};
use super::grammar::{all, counted16, counted8, each, write_count16, write_count8, wrote, Format};

verus! {

/// An entry of the exception table of a code: 8 bytes.
pub open spec fn exception_bytes(x: Exception) -> Seq<u8> {
    u16_bytes(x.start) + u16_bytes(x.end) + u16_bytes(x.handler) + u16_bytes(x.catch_type)
}

/// The format of an exception.
pub open spec fn exception_format() -> Format<Exception> {
    |x: Exception| Ok::<Seq<u8>, Error>(exception_bytes(x))
}

/// Writes an exception.
fn write_exception(encoder: &mut Encoder, x: &Exception)
    ensures
        final(encoder)@ == old(encoder)@ + exception_bytes(*x),
{
    encoder.write_u16(x.start);
    encoder.write_u16(x.end);
    encoder.write_u16(x.handler);
    encoder.write_u16(x.catch_type);
    assert(encoder@ =~= old(encoder)@ + exception_bytes(*x));
}

/// Writes a count of two bytes, and then the entries.
#[verifier::loop_isolation(false)]
pub fn write_exception_list(encoder: &mut Encoder, list: &Vec<Exception>) -> (r: Result<(), Error>)
    ensures
        wrote(*old(encoder), *final(encoder), r, counted16(exception_format(), list@)),
{
    write_count16(encoder, list.len())?;
    let ghost base = encoder@;
    let ghost mut written = Seq::<u8>::empty();
    assert(encoder@ =~= base + written);
    let mut i: usize = 0;
    while i < list.len()
        invariant
            i <= list@.len(),
            encoder@ == base + written,
            all(exception_format(), list@) == each(exception_format(), list@, i as int, written),
        decreases list@.len() - i,
    {
        write_exception(encoder, &list[i]);
        proof {
            written = written + exception_bytes(list@[i as int]);
            assert(encoder@ =~= base + written);
        }
        i += 1;
    }
    assert(encoder@ =~= old(encoder)@ + (u16_bytes(list@.len() as u16) + written));
    Ok(())
}

/// An entry of the `LineNumberTable`: 4 bytes.
pub open spec fn line_number_bytes(x: LineNumber) -> Seq<u8> {
    u16_bytes(x.start) + u16_bytes(x.line_number)
}

/// The format of a line number.
pub open spec fn line_number_format() -> Format<LineNumber> {
    |x: LineNumber| Ok::<Seq<u8>, Error>(line_number_bytes(x))
}

/// Writes a line number.
fn write_line_number(encoder: &mut Encoder, x: &LineNumber)
    ensures
        final(encoder)@ == old(encoder)@ + line_number_bytes(*x),
{
    encoder.write_u16(x.start);
    encoder.write_u16(x.line_number);
    assert(encoder@ =~= old(encoder)@ + line_number_bytes(*x));
}

/// Writes a count of two bytes, and then the entries.
#[verifier::loop_isolation(false)]
pub fn write_line_number_list(encoder: &mut Encoder, list: &Vec<LineNumber>) -> (r: Result<(), Error>)
    ensures
        wrote(*old(encoder), *final(encoder), r, counted16(line_number_format(), list@)),
{
    write_count16(encoder, list.len())?;
    let ghost base = encoder@;
    let ghost mut written = Seq::<u8>::empty();
    assert(encoder@ =~= base + written);
    let mut i: usize = 0;
    while i < list.len()
        invariant
            i <= list@.len(),
            encoder@ == base + written,
            all(line_number_format(), list@) == each(line_number_format(), list@, i as int, written),
        decreases list@.len() - i,
    {
        write_line_number(encoder, &list[i]);
        proof {
            written = written + line_number_bytes(list@[i as int]);
            assert(encoder@ =~= base + written);
        }
        i += 1;
    }
    assert(encoder@ =~= old(encoder)@ + (u16_bytes(list@.len() as u16) + written));
    Ok(())
}

/// An entry of the `LocalVariableTable`: 10 bytes.
pub open spec fn local_variable_bytes(x: LocalVariable) -> Seq<u8> {
    u16_bytes(x.start) + u16_bytes(x.length) + u16_bytes(x.name) + u16_bytes(x.descriptor) + u16_bytes(x.index)
}

/// The format of a local variable.
pub open spec fn local_variable_format() -> Format<LocalVariable> {
    |x: LocalVariable| Ok::<Seq<u8>, Error>(local_variable_bytes(x))
}

/// Writes a local variable.
fn write_local_variable(encoder: &mut Encoder, x: &LocalVariable)
    ensures
        final(encoder)@ == old(encoder)@ + local_variable_bytes(*x),
{
    encoder.write_u16(x.start);
    encoder.write_u16(x.length);
    encoder.write_u16(x.name);
    encoder.write_u16(x.descriptor);
    encoder.write_u16(x.index);
    assert(encoder@ =~= old(encoder)@ + local_variable_bytes(*x));
}

/// Writes a count of two bytes, and then the entries.
#[verifier::loop_isolation(false)]
pub fn write_local_variable_list(encoder: &mut Encoder, list: &Vec<LocalVariable>) -> (r: Result<(), Error>)
    ensures
        wrote(*old(encoder), *final(encoder), r, counted16(local_variable_format(), list@)),
{
    write_count16(encoder, list.len())?;
    let ghost base = encoder@;
    let ghost mut written = Seq::<u8>::empty();
    assert(encoder@ =~= base + written);
    let mut i: usize = 0;
    while i < list.len()
        invariant
            i <= list@.len(),
            encoder@ == base + written,
            all(local_variable_format(), list@) == each(local_variable_format(), list@, i as int, written),
        decreases list@.len() - i,
    {
        write_local_variable(encoder, &list[i]);
        proof {
            written = written + local_variable_bytes(list@[i as int]);
            assert(encoder@ =~= base + written);
        }
        i += 1;
    }
    assert(encoder@ =~= old(encoder)@ + (u16_bytes(list@.len() as u16) + written));
    Ok(())
}

/// An entry of the `LocalVariableTypeTable`: 10 bytes.
pub open spec fn local_variable_type_bytes(x: LocalVariableType) -> Seq<u8> {
    u16_bytes(x.start) + u16_bytes(x.length) + u16_bytes(x.name) + u16_bytes(x.signature) + u16_bytes(x.index)
}

/// The format of a local variable type.
pub open spec fn local_variable_type_format() -> Format<LocalVariableType> {
    |x: LocalVariableType| Ok::<Seq<u8>, Error>(local_variable_type_bytes(x))
}

/// Writes a local variable type.
fn write_local_variable_type(encoder: &mut Encoder, x: &LocalVariableType)
    ensures
        final(encoder)@ == old(encoder)@ + local_variable_type_bytes(*x),
{
    encoder.write_u16(x.start);
    encoder.write_u16(x.length);
    encoder.write_u16(x.name);
    encoder.write_u16(x.signature);
    encoder.write_u16(x.index);
    assert(encoder@ =~= old(encoder)@ + local_variable_type_bytes(*x));
}

/// Writes a count of two bytes, and then the entries.
#[verifier::loop_isolation(false)]
pub fn write_local_variable_type_list(encoder: &mut Encoder, list: &Vec<LocalVariableType>) -> (r: Result<(), Error>)
    ensures
        wrote(*old(encoder), *final(encoder), r, counted16(local_variable_type_format(), list@)),
{
    write_count16(encoder, list.len())?;
    let ghost base = encoder@;
    let ghost mut written = Seq::<u8>::empty();
    assert(encoder@ =~= base + written);
    let mut i: usize = 0;
    while i < list.len()
        invariant
            i <= list@.len(),
            encoder@ == base + written,
            all(local_variable_type_format(), list@) == each(local_variable_type_format(), list@, i as int, written),
        decreases list@.len() - i,
    {
        write_local_variable_type(encoder, &list[i]);
        proof {
            written = written + local_variable_type_bytes(list@[i as int]);
            assert(encoder@ =~= base + written);
        }
        i += 1;
    }
    assert(encoder@ =~= old(encoder)@ + (u16_bytes(list@.len() as u16) + written));
    Ok(())
}

/// An entry of the `MethodParameters` attribute: 4 bytes.
pub open spec fn method_parameter_bytes(x: MethodParameter) -> Seq<u8> {
    u16_bytes(x.name) + u16_bytes(x.access_flags.bits)
}

/// The format of a method parameter.
pub open spec fn method_parameter_format() -> Format<MethodParameter> {
    |x: MethodParameter| Ok::<Seq<u8>, Error>(method_parameter_bytes(x))
}

/// Writes a method parameter.
fn write_method_parameter(encoder: &mut Encoder, x: &MethodParameter)
    ensures
        final(encoder)@ == old(encoder)@ + method_parameter_bytes(*x),
{
    encoder.write_u16(x.name);
    encoder.write_u16(x.access_flags.bits());
    assert(encoder@ =~= old(encoder)@ + method_parameter_bytes(*x));
}

/// Writes a count of two bytes, and then the entries.
#[verifier::loop_isolation(false)]
pub fn write_method_parameter_list(encoder: &mut Encoder, list: &Vec<MethodParameter>) -> (r: Result<(), Error>)
    ensures
        wrote(*old(encoder), *final(encoder), r, counted16(method_parameter_format(), list@)),
{
    write_count16(encoder, list.len())?;
    let ghost base = encoder@;
    let ghost mut written = Seq::<u8>::empty();
    assert(encoder@ =~= base + written);
    let mut i: usize = 0;
    while i < list.len()
        invariant
            i <= list@.len(),
            encoder@ == base + written,
            all(method_parameter_format(), list@) == each(method_parameter_format(), list@, i as int, written),
        decreases list@.len() - i,
    {
        write_method_parameter(encoder, &list[i]);
        proof {
            written = written + method_parameter_bytes(list@[i as int]);
            assert(encoder@ =~= base + written);
        }
        i += 1;
    }
    assert(encoder@ =~= old(encoder)@ + (u16_bytes(list@.len() as u16) + written));
    Ok(())
}

/// An entry of the `InnerClasses` attribute: 8 bytes.
pub open spec fn inner_class_bytes(x: InnerClass) -> Seq<u8> {
    u16_bytes(x.inner_class_info) + u16_bytes(x.outer_class_info) + u16_bytes(x.inner_name) + u16_bytes(x.inner_class_access_flags.bits)
}

/// The format of an inner class.
pub open spec fn inner_class_format() -> Format<InnerClass> {
    |x: InnerClass| Ok::<Seq<u8>, Error>(inner_class_bytes(x))
}

/// Writes an inner class.
fn write_inner_class(encoder: &mut Encoder, x: &InnerClass)
    ensures
        final(encoder)@ == old(encoder)@ + inner_class_bytes(*x),
{
    encoder.write_u16(x.inner_class_info);
    encoder.write_u16(x.outer_class_info);
    encoder.write_u16(x.inner_name);
    encoder.write_u16(x.inner_class_access_flags.bits());
    assert(encoder@ =~= old(encoder)@ + inner_class_bytes(*x));
}

/// Writes a count of two bytes, and then the entries.
#[verifier::loop_isolation(false)]
pub fn write_inner_class_list(encoder: &mut Encoder, list: &Vec<InnerClass>) -> (r: Result<(), Error>)
    ensures
        wrote(*old(encoder), *final(encoder), r, counted16(inner_class_format(), list@)),
{
    write_count16(encoder, list.len())?;
    let ghost base = encoder@;
    let ghost mut written = Seq::<u8>::empty();
    assert(encoder@ =~= base + written);
    let mut i: usize = 0;
    while i < list.len()
        invariant
            i <= list@.len(),
            encoder@ == base + written,
            all(inner_class_format(), list@) == each(inner_class_format(), list@, i as int, written),
        decreases list@.len() - i,
    {
        write_inner_class(encoder, &list[i]);
        proof {
            written = written + inner_class_bytes(list@[i as int]);
            assert(encoder@ =~= base + written);
        }
        i += 1;
    }
    assert(encoder@ =~= old(encoder)@ + (u16_bytes(list@.len() as u16) + written));
    Ok(())
}

/// A dependency of a module: 6 bytes.
pub open spec fn requirement_bytes(x: Requirement) -> Seq<u8> {
    u16_bytes(x.index) + u16_bytes(x.flags.bits) + u16_bytes(x.version)
}

/// The format of a requirement.
pub open spec fn requirement_format() -> Format<Requirement> {
    |x: Requirement| Ok::<Seq<u8>, Error>(requirement_bytes(x))
}

/// Writes a requirement.
fn write_requirement(encoder: &mut Encoder, x: &Requirement)
    ensures
        final(encoder)@ == old(encoder)@ + requirement_bytes(*x),
{
    encoder.write_u16(x.index);
    encoder.write_u16(x.flags.bits());
    encoder.write_u16(x.version);
    assert(encoder@ =~= old(encoder)@ + requirement_bytes(*x));
}

/// Writes a count of two bytes, and then the entries.
#[verifier::loop_isolation(false)]
pub fn write_requirement_list(encoder: &mut Encoder, list: &Vec<Requirement>) -> (r: Result<(), Error>)
    ensures
        wrote(*old(encoder), *final(encoder), r, counted16(requirement_format(), list@)),
{
    write_count16(encoder, list.len())?;
    let ghost base = encoder@;
    let ghost mut written = Seq::<u8>::empty();
    assert(encoder@ =~= base + written);
    let mut i: usize = 0;
    while i < list.len()
        invariant
            i <= list@.len(),
            encoder@ == base + written,
            all(requirement_format(), list@) == each(requirement_format(), list@, i as int, written),
        decreases list@.len() - i,
    {
        write_requirement(encoder, &list[i]);
        proof {
            written = written + requirement_bytes(list@[i as int]);
            assert(encoder@ =~= base + written);
        }
        i += 1;
    }
    assert(encoder@ =~= old(encoder)@ + (u16_bytes(list@.len() as u16) + written));
    Ok(())
}

/// An entry of a local variable target: 6 bytes.
pub open spec fn local_variable_target_bytes(x: LocalVariableTarget) -> Seq<u8> {
    u16_bytes(x.start) + u16_bytes(x.length) + u16_bytes(x.index)
}

/// The format of a local variable target.
pub open spec fn local_variable_target_format() -> Format<LocalVariableTarget> {
    |x: LocalVariableTarget| Ok::<Seq<u8>, Error>(local_variable_target_bytes(x))
}

/// Writes a local variable target.
fn write_local_variable_target(encoder: &mut Encoder, x: &LocalVariableTarget)
    ensures
        final(encoder)@ == old(encoder)@ + local_variable_target_bytes(*x),
{
    encoder.write_u16(x.start);
    encoder.write_u16(x.length);
    encoder.write_u16(x.index);
    assert(encoder@ =~= old(encoder)@ + local_variable_target_bytes(*x));
}

/// Writes a count of one byte, and then the entries.
#[verifier::loop_isolation(false)]
pub fn write_local_variable_target_list(encoder: &mut Encoder, list: &Vec<LocalVariableTarget>) -> (r: Result<(), Error>)
    ensures
        wrote(*old(encoder), *final(encoder), r, counted8(local_variable_target_format(), list@)),
{
    write_count8(encoder, list.len())?;
    let ghost base = encoder@;
    let ghost mut written = Seq::<u8>::empty();
    assert(encoder@ =~= base + written);
    let mut i: usize = 0;
    while i < list.len()
        invariant
            i <= list@.len(),
            encoder@ == base + written,
            all(local_variable_target_format(), list@) == each(local_variable_target_format(), list@, i as int, written),
        decreases list@.len() - i,
    {
        write_local_variable_target(encoder, &list[i]);
        proof {
            written = written + local_variable_target_bytes(list@[i as int]);
            assert(encoder@ =~= base + written);
        }
        i += 1;
    }
    assert(encoder@ =~= old(encoder)@ + (seq![list@.len() as u8] + written));
    Ok(())
}

} // verus!
