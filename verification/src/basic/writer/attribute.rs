//! Attributes, as they are written.

use vstd::prelude::*;
use vstd::string::StringExecFns;
use super::super::constpool::{find_last, Item, ItemView, Pool, Slots};
use super::super::mutf8;
use super::super::result::Error;
use super::super::tree::{
    code_view, views, Attribute, AttributeView, BootstrapMethod,
    BootstrapMethodView, Export, ExportView, Opening, Provider, ProviderView, StackMapFrame,
    StackMapFrameView, VerificationType,
};
use super::annotation::{
    annotations_bytes, element_value_bytes, parameter_annotations_bytes, type_annotations_bytes,
    write_annotations, write_element_value, write_parameter_annotations, write_type_annotations,
};
use super::code::{code_stream_bytes, write_code_stream};
use super::encode::{u16_bytes, Encoder};
use super::grammar::{
    all, count16, count32, counted16, each, then, u16_format, write_count16, write_count32,
    write_u16_list, wrote, Format, Written,
};
use super::table::{
    exception_format, inner_class_format, line_number_format, local_variable_format,
    local_variable_type_format, method_parameter_format, requirement_format, write_exception_list,
    write_inner_class_list, write_line_number_list, write_local_variable_list,
    write_local_variable_type_list, write_method_parameter_list, write_requirement_list,
};

verus! {

/// A verification type: its tag, and for an object or an uninitialized
/// value a `u16`.
pub open spec fn verification_type_bytes(t: VerificationType) -> Seq<u8> {
    match t {
        VerificationType::Top => seq![0u8],
        VerificationType::Integer => seq![1u8],
        VerificationType::Float => seq![2u8],
        VerificationType::Double => seq![3u8],
        VerificationType::Long => seq![4u8],
        VerificationType::Null => seq![5u8],
        VerificationType::UninitializedThis => seq![6u8],
        VerificationType::Object(i) => seq![7u8] + u16_bytes(i),
        VerificationType::Uninitialized(i) => seq![8u8] + u16_bytes(i),
    }
}

/// The format of a verification type.
pub open spec fn verification_type_format() -> Format<VerificationType> {
    |t: VerificationType| Ok::<Seq<u8>, Error>(verification_type_bytes(t))
}

/// A stack map frame. An offset delta up to 63 stands in the first byte
/// of a `Same` or a `Same1` frame. A `Chop` frame must chop one to three
/// locals, and an `Append` frame append one to three, else they cannot be
/// written.
pub open spec fn stack_map_frame_bytes(f: StackMapFrameView) -> Written {
    match f {
        StackMapFrameView::Same { offset_delta } => Ok(
            if offset_delta <= 63 {
                seq![offset_delta as u8]
            } else {
                seq![251u8] + u16_bytes(offset_delta)
            },
        ),
        StackMapFrameView::Same1 { offset_delta, stack } => Ok(
            if offset_delta <= 63 {
                seq![(64 + offset_delta) as u8] + verification_type_bytes(stack)
            } else {
                seq![247u8] + u16_bytes(offset_delta) + verification_type_bytes(stack)
            },
        ),
        StackMapFrameView::Chop { offset_delta, count } => if 1 <= count <= 3 {
            Ok(seq![(251 - count) as u8] + u16_bytes(offset_delta))
        } else {
            Err(Error::LimitExceeded)
        },
        StackMapFrameView::Append { offset_delta, locals } => if 1 <= locals.len() <= 3 {
            then(
                Ok(seq![(251 + locals.len()) as u8] + u16_bytes(offset_delta)),
                all(verification_type_format(), locals),
            )
        } else {
            Err(Error::LimitExceeded)
        },
        StackMapFrameView::Full { offset_delta, locals, stack } => then(
            then(
                Ok(seq![255u8] + u16_bytes(offset_delta)),
                counted16(verification_type_format(), locals),
            ),
            counted16(verification_type_format(), stack),
        ),
    }
}

/// The format of a stack map frame.
pub open spec fn stack_map_frame_format() -> Format<StackMapFrameView> {
    |f: StackMapFrameView| stack_map_frame_bytes(f)
}

/// A bootstrap method: the index of its handle, and a counted list of arguments.
pub open spec fn bootstrap_method_bytes(b: BootstrapMethodView) -> Written {
    then(Ok(u16_bytes(b.method_ref)), counted16(u16_format(), b.arguments))
}

/// The format of a bootstrap method.
pub open spec fn bootstrap_method_format() -> Format<BootstrapMethodView> {
    |b: BootstrapMethodView| bootstrap_method_bytes(b)
}

/// An exported or opened package: its index, its flags, and a counted
/// list of the modules it is exported or opened to.
pub open spec fn export_bytes(e: ExportView) -> Written {
    then(Ok(u16_bytes(e.index) + u16_bytes(e.flags.bits)), counted16(u16_format(), e.to))
}

/// The format of an export.
pub open spec fn export_format() -> Format<ExportView> {
    |e: ExportView| export_bytes(e)
}

/// A provided service: its index, and a counted list of its implementations.
pub open spec fn provider_bytes(p: ProviderView) -> Written {
    then(Ok(u16_bytes(p.index)), counted16(u16_format(), p.with))
}

/// The format of a provider.
pub open spec fn provider_format() -> Format<ProviderView> {
    |p: ProviderView| provider_bytes(p)
}

/// The name of an attribute; none for one that is not known.
pub open spec fn attribute_name(a: AttributeView) -> Option<Seq<char>> {
    match a {
        AttributeView::AnnotationDefault(_) => Some("AnnotationDefault"@),
        AttributeView::BootstrapMethods(_) => Some("BootstrapMethods"@),
        AttributeView::Code { .. } => Some("Code"@),
        AttributeView::ConstantValue(_) => Some("ConstantValue"@),
        AttributeView::Deprecated => Some("Deprecated"@),
        AttributeView::EnclosingMethod { .. } => Some("EnclosingMethod"@),
        AttributeView::Exceptions(_) => Some("Exceptions"@),
        AttributeView::InnerClasses(_) => Some("InnerClasses"@),
        AttributeView::LineNumberTable(_) => Some("LineNumberTable"@),
        AttributeView::LocalVariableTable(_) => Some("LocalVariableTable"@),
        AttributeView::LocalVariableTypeTable(_) => Some("LocalVariableTypeTable"@),
        AttributeView::MethodParameters(_) => Some("MethodParameters"@),
        AttributeView::Module { .. } => Some("Module"@),
        AttributeView::ModuleMainClass(_) => Some("ModuleMainClass"@),
        AttributeView::ModulePackages(_) => Some("ModulePackages"@),
        AttributeView::RuntimeVisibleAnnotations(_) => Some("RuntimeVisibleAnnotations"@),
        AttributeView::RuntimeInvisibleAnnotations(_) => Some("RuntimeInvisibleAnnotations"@),
        AttributeView::RuntimeVisibleParameterAnnotations(_) => Some(
            "RuntimeVisibleParameterAnnotations"@,
        ),
        AttributeView::RuntimeInvisibleParameterAnnotations(_) => Some(
            "RuntimeInvisibleParameterAnnotations"@,
        ),
        AttributeView::RuntimeVisibleTypeAnnotations(_) => Some("RuntimeVisibleTypeAnnotations"@),
        AttributeView::RuntimeInvisibleTypeAnnotations(_) => Some("RuntimeInvisibleTypeAnnotations"@),
        AttributeView::Signature(_) => Some("Signature"@),
        AttributeView::Synthetic => Some("Synthetic"@),
        AttributeView::SourceFile(_) => Some("SourceFile"@),
        AttributeView::SourceDebugExtension(_) => Some("SourceDebugExtension"@),
        AttributeView::StackMapTable(_) => Some("StackMapTable"@),
        AttributeView::Unknown(_, _) => None,
    }
}

/// The index of an attribute's name: that of the last pool item that is
/// the name, which must be there; for an attribute that is not known, the
/// index that it holds.
#[verifier::opaque]
pub open spec fn attribute_name_index(a: AttributeView, pool: Slots) -> Result<u16, Error> {
    match a {
        AttributeView::Unknown(name_index, _) => Ok(name_index),
        _ => match find_last(pool, ItemView::UTF8(attribute_name(a)->Some_0)) {
            Some(i) => Ok((i + 1) as u16),
            None => Err(Error::InvalidCPItem(0)),
        },
    }
}

/// The attributes within an attribute: a `Code` has them.
pub open spec fn nested_bytes(a: AttributeView, pool: Slots) -> Written
    decreases a, 0int,
{
    match a {
        AttributeView::Code { attributes, .. } => attributes_bytes(attributes, pool),
        _ => Ok(Seq::empty()),
    }
}

/// The body of an attribute.
pub open spec fn attribute_body_bytes(a: AttributeView, pool: Slots) -> Written
    decreases a, 1int,
{
    body_bytes(a, pool, nested_bytes(a, pool))
}

/// The body of an attribute; `nested` is what the attributes within it
/// are written as.
#[verifier::opaque]
pub open spec fn body_bytes(a: AttributeView, pool: Slots, nested: Written) -> Written {
    match a {
        AttributeView::AnnotationDefault(value) => element_value_bytes(value),
        AttributeView::BootstrapMethods(v) => counted16(bootstrap_method_format(), v),
        AttributeView::Code { max_stack, max_locals, instructions, exceptions, attributes } => then(
            then(
                then(
                    Ok(u16_bytes(max_stack) + u16_bytes(max_locals)),
                    code_stream_bytes(instructions, pool),
                ),
                counted16(exception_format(), exceptions),
            ),
            nested,
        ),
        AttributeView::ConstantValue(i) => Ok(u16_bytes(i)),
        AttributeView::Deprecated => Ok(Seq::empty()),
        AttributeView::EnclosingMethod { class_index, method_index } => Ok(
            u16_bytes(class_index) + u16_bytes(method_index),
        ),
        AttributeView::Exceptions(v) => counted16(u16_format(), v),
        AttributeView::InnerClasses(v) => counted16(inner_class_format(), v),
        AttributeView::LineNumberTable(v) => counted16(line_number_format(), v),
        AttributeView::LocalVariableTable(v) => counted16(local_variable_format(), v),
        AttributeView::LocalVariableTypeTable(v) => counted16(local_variable_type_format(), v),
        AttributeView::MethodParameters(v) => counted16(method_parameter_format(), v),
        AttributeView::Module { name, flags, version, requires: requirements, exports, opens, uses, provides } => then(
            then(
                then(
                    then(
                        then(
                            Ok(u16_bytes(name) + u16_bytes(flags.bits) + u16_bytes(version)),
                            counted16(requirement_format(), requirements),
                        ),
                        counted16(export_format(), exports),
                    ),
                    counted16(export_format(), opens),
                ),
                counted16(u16_format(), uses),
            ),
            counted16(provider_format(), provides),
        ),
        AttributeView::ModuleMainClass(i) => Ok(u16_bytes(i)),
        AttributeView::ModulePackages(v) => counted16(u16_format(), v),
        AttributeView::RuntimeVisibleAnnotations(v) => annotations_bytes(v),
        AttributeView::RuntimeInvisibleAnnotations(v) => annotations_bytes(v),
        AttributeView::RuntimeVisibleParameterAnnotations(v) => parameter_annotations_bytes(v),
        AttributeView::RuntimeInvisibleParameterAnnotations(v) => parameter_annotations_bytes(v),
        AttributeView::RuntimeVisibleTypeAnnotations(v) => type_annotations_bytes(v),
        AttributeView::RuntimeInvisibleTypeAnnotations(v) => type_annotations_bytes(v),
        AttributeView::Signature(i) => Ok(u16_bytes(i)),
        AttributeView::Synthetic => Ok(Seq::empty()),
        AttributeView::SourceFile(i) => Ok(u16_bytes(i)),
        AttributeView::SourceDebugExtension(s) => Ok(mutf8::encode(s)),
        AttributeView::StackMapTable(v) => counted16(stack_map_frame_format(), v),
        AttributeView::Unknown(_, bytes) => Ok(bytes),
    }
}

/// The index of a name, the length of a body in four bytes, and the body.
pub open spec fn framed(name_index: Result<u16, Error>, body: Written) -> Written {
    match name_index {
        Ok(index) => match body {
            Ok(bytes) => then(then(Ok(u16_bytes(index)), count32(bytes.len())), Ok(bytes)),
            Err(e) => Err(e),
        },
        Err(e) => Err(e),
    }
}

/// An attribute: the index of its name, the length of its body in four
/// bytes, and the body.
pub open spec fn attribute_bytes(a: AttributeView, pool: Slots) -> Written {
    framed(attribute_name_index(a, pool), attribute_body_bytes(a, pool))
}

/// The attributes of `v` from `from` on, behind `acc`.
pub open spec fn attributes_bytes_from(v: Seq<AttributeView>, from: int, pool: Slots, acc: Seq<u8>) -> Written
    decreases v, v.len() - from,
{
    if from < 0 || from >= v.len() {
        Ok(acc)
    } else {
        match framed(attribute_name_index(v[from], pool), attribute_body_bytes(v[from], pool)) {
            Ok(bytes) => attributes_bytes_from(v, from + 1, pool, acc + bytes),
            Err(e) => Err(e),
        }
    }
}

/// A counted list of attributes.
pub open spec fn attributes_bytes(v: Seq<AttributeView>, pool: Slots) -> Written
    decreases v, v.len() + 1,
{
    then(count16(v.len()), attributes_bytes_from(v, 0, pool, Seq::empty()))
}

/// Writes a verification type.
fn write_verification_type(encoder: &mut Encoder, t: &VerificationType)
    ensures
        final(encoder)@ == old(encoder)@ + verification_type_bytes(*t),
{
    match t {
        VerificationType::Top => encoder.write_u8(0),
        VerificationType::Integer => encoder.write_u8(1),
        VerificationType::Float => encoder.write_u8(2),
        VerificationType::Double => encoder.write_u8(3),
        VerificationType::Long => encoder.write_u8(4),
        VerificationType::Null => encoder.write_u8(5),
        VerificationType::UninitializedThis => encoder.write_u8(6),
        VerificationType::Object(i) => {
            encoder.write_u8(7);
            encoder.write_u16(*i);
        },
        VerificationType::Uninitialized(i) => {
            encoder.write_u8(8);
            encoder.write_u16(*i);
        },
    }
    assert(encoder@ =~= old(encoder)@ + verification_type_bytes(*t));
}

/// Writes verification types, one behind the other.
#[verifier::loop_isolation(false)]
fn write_verification_types(encoder: &mut Encoder, list: &Vec<VerificationType>)
    ensures
        all(verification_type_format(), list@) is Ok,
        final(encoder)@ == old(encoder)@ + all(verification_type_format(), list@)->Ok_0,
{
    let ghost base = encoder@;
    let ghost mut written = Seq::<u8>::empty();
    assert(encoder@ =~= base + written);
    let mut i: usize = 0;
    while i < list.len()
        invariant
            i <= list@.len(),
            encoder@ == base + written,
            all(verification_type_format(), list@) == each(
                verification_type_format(),
                list@,
                i as int,
                written,
            ),
        decreases list@.len() - i,
    {
        write_verification_type(encoder, &list[i]);
        proof {
            written = written + verification_type_bytes(list@[i as int]);
            assert(encoder@ =~= base + written);
        }
        i += 1;
    }
}

/// Writes a count of two bytes, and then the verification types.
fn write_counted_verification_types(encoder: &mut Encoder, list: &Vec<VerificationType>) -> (r: Result<
    (),
    Error,
>)
    ensures
        wrote(*old(encoder), *final(encoder), r, counted16(verification_type_format(), list@)),
{
    write_count16(encoder, list.len())?;
    write_verification_types(encoder, list);
    assert(encoder@ =~= old(encoder)@ + (u16_bytes(list@.len() as u16) + all(
        verification_type_format(),
        list@,
    )->Ok_0));
    Ok(())
}

/// Writes a stack map frame.
fn write_stack_map_frame(encoder: &mut Encoder, frame: &StackMapFrame) -> (r: Result<(), Error>)
    ensures
        wrote(*old(encoder), *final(encoder), r, stack_map_frame_bytes(frame@)),
{
    match frame {
        StackMapFrame::Same { offset_delta } => {
            if *offset_delta <= 63 {
                encoder.write_u8(*offset_delta as u8);
            } else {
                encoder.write_u8(251);
                encoder.write_u16(*offset_delta);
            }
            assert(encoder@ =~= old(encoder)@ + stack_map_frame_bytes(frame@)->Ok_0);
        },
        StackMapFrame::Same1 { offset_delta, stack } => {
            if *offset_delta <= 63 {
                encoder.write_u8((64 + *offset_delta) as u8);
            } else {
                encoder.write_u8(247);
                encoder.write_u16(*offset_delta);
            }
            write_verification_type(encoder, stack);
            assert(encoder@ =~= old(encoder)@ + stack_map_frame_bytes(frame@)->Ok_0);
        },
        StackMapFrame::Chop { offset_delta, count } => {
            if *count < 1 || *count > 3 {
                return Err(Error::LimitExceeded);
            }
            encoder.write_u8(251 - *count);
            encoder.write_u16(*offset_delta);
            assert(encoder@ =~= old(encoder)@ + stack_map_frame_bytes(frame@)->Ok_0);
        },
        StackMapFrame::Append { offset_delta, locals } => {
            if locals.len() < 1 || locals.len() > 3 {
                return Err(Error::LimitExceeded);
            }
            encoder.write_u8((251 + locals.len()) as u8);
            encoder.write_u16(*offset_delta);
            write_verification_types(encoder, locals);
            assert(encoder@ =~= old(encoder)@ + stack_map_frame_bytes(frame@)->Ok_0);
        },
        StackMapFrame::Full { offset_delta, locals, stack } => {
            encoder.write_u8(255);
            encoder.write_u16(*offset_delta);
            write_counted_verification_types(encoder, locals)?;
            write_counted_verification_types(encoder, stack)?;
            assert(encoder@ =~= old(encoder)@ + stack_map_frame_bytes(frame@)->Ok_0);
        },
    }
    Ok(())
}

/// Writes the `StackMapTable` attribute's body.
#[verifier::loop_isolation(false)]
fn write_stack_map_table(encoder: &mut Encoder, list: &Vec<StackMapFrame>) -> (r: Result<(), Error>)
    ensures
        wrote(*old(encoder), *final(encoder), r, counted16(stack_map_frame_format(), views(list@))),
{
    let ghost v = views(list@);
    write_count16(encoder, list.len())?;
    let ghost base = encoder@;
    let ghost mut written = Seq::<u8>::empty();
    assert(encoder@ =~= base + written);
    let mut i: usize = 0;
    while i < list.len()
        invariant
            i <= list@.len(),
            encoder@ == base + written,
            all(stack_map_frame_format(), v) == each(stack_map_frame_format(), v, i as int, written),
        decreases list@.len() - i,
    {
        write_stack_map_frame(encoder, &list[i])?;
        proof {
            written = written + stack_map_frame_bytes(v[i as int])->Ok_0;
            assert(encoder@ =~= base + written);
        }
        i += 1;
    }
    assert(encoder@ =~= old(encoder)@ + (u16_bytes(v.len() as u16) + written));
    Ok(())
}

/// Writes the `BootstrapMethods` attribute's body.
#[verifier::loop_isolation(false)]
fn write_bootstrap_methods(encoder: &mut Encoder, list: &Vec<BootstrapMethod>) -> (r: Result<
    (),
    Error,
>)
    ensures
        wrote(*old(encoder), *final(encoder), r, counted16(bootstrap_method_format(), views(list@))),
{
    let ghost v = views(list@);
    write_count16(encoder, list.len())?;
    let ghost base = encoder@;
    let ghost mut written = Seq::<u8>::empty();
    assert(encoder@ =~= base + written);
    let mut i: usize = 0;
    while i < list.len()
        invariant
            i <= list@.len(),
            encoder@ == base + written,
            all(bootstrap_method_format(), v) == each(bootstrap_method_format(), v, i as int, written),
        decreases list@.len() - i,
    {
        encoder.write_u16(list[i].method_ref);
        write_u16_list(encoder, &list[i].arguments)?;
        proof {
            written = written + bootstrap_method_bytes(v[i as int])->Ok_0;
            assert(encoder@ =~= base + written);
        }
        i += 1;
    }
    assert(encoder@ =~= old(encoder)@ + (u16_bytes(v.len() as u16) + written));
    Ok(())
}

/// Writes the exported packages of a module.
#[verifier::loop_isolation(false)]
fn write_exports(encoder: &mut Encoder, list: &Vec<Export>) -> (r: Result<(), Error>)
    ensures
        wrote(*old(encoder), *final(encoder), r, counted16(export_format(), views(list@))),
{
    let ghost v = views(list@);
    write_count16(encoder, list.len())?;
    let ghost base = encoder@;
    let ghost mut written = Seq::<u8>::empty();
    assert(encoder@ =~= base + written);
    let mut i: usize = 0;
    while i < list.len()
        invariant
            i <= list@.len(),
            encoder@ == base + written,
            all(export_format(), v) == each(export_format(), v, i as int, written),
        decreases list@.len() - i,
    {
        encoder.write_u16(list[i].index);
        encoder.write_u16(list[i].flags.bits());
        write_u16_list(encoder, &list[i].to)?;
        proof {
            written = written + export_bytes(v[i as int])->Ok_0;
            assert(encoder@ =~= base + written);
        }
        i += 1;
    }
    assert(encoder@ =~= old(encoder)@ + (u16_bytes(v.len() as u16) + written));
    Ok(())
}

/// Writes the opened packages of a module.
#[verifier::loop_isolation(false)]
fn write_opens(encoder: &mut Encoder, list: &Vec<Opening>) -> (r: Result<(), Error>)
    ensures
        wrote(*old(encoder), *final(encoder), r, counted16(export_format(), views(list@))),
{
    let ghost v = views(list@);
    write_count16(encoder, list.len())?;
    let ghost base = encoder@;
    let ghost mut written = Seq::<u8>::empty();
    assert(encoder@ =~= base + written);
    let mut i: usize = 0;
    while i < list.len()
        invariant
            i <= list@.len(),
            encoder@ == base + written,
            all(export_format(), v) == each(export_format(), v, i as int, written),
        decreases list@.len() - i,
    {
        encoder.write_u16(list[i].index);
        encoder.write_u16(list[i].flags.bits());
        write_u16_list(encoder, &list[i].to)?;
        proof {
            written = written + export_bytes(v[i as int])->Ok_0;
            assert(encoder@ =~= base + written);
        }
        i += 1;
    }
    assert(encoder@ =~= old(encoder)@ + (u16_bytes(v.len() as u16) + written));
    Ok(())
}

/// Writes the provided services of a module.
#[verifier::loop_isolation(false)]
fn write_provides(encoder: &mut Encoder, list: &Vec<Provider>) -> (r: Result<(), Error>)
    ensures
        wrote(*old(encoder), *final(encoder), r, counted16(provider_format(), views(list@))),
{
    let ghost v = views(list@);
    write_count16(encoder, list.len())?;
    let ghost base = encoder@;
    let ghost mut written = Seq::<u8>::empty();
    assert(encoder@ =~= base + written);
    let mut i: usize = 0;
    while i < list.len()
        invariant
            i <= list@.len(),
            encoder@ == base + written,
            all(provider_format(), v) == each(provider_format(), v, i as int, written),
        decreases list@.len() - i,
    {
        encoder.write_u16(list[i].index);
        write_u16_list(encoder, &list[i].with)?;
        proof {
            written = written + provider_bytes(v[i as int])->Ok_0;
            assert(encoder@ =~= base + written);
        }
        i += 1;
    }
    assert(encoder@ =~= old(encoder)@ + (u16_bytes(v.len() as u16) + written));
    Ok(())
}

/// The name of an attribute; none for one that is not known.
fn name_of(attribute: &Attribute) -> (r: Option<&'static str>)
    ensures
        match attribute_name(attribute@) {
            Some(name) => r is Some && r->Some_0@ == name,
            None => r is None,
        },
{
    match attribute {
        Attribute::AnnotationDefault(_) => Some("AnnotationDefault"),
        Attribute::BootstrapMethods(_) => Some("BootstrapMethods"),
        Attribute::Code { .. } => Some("Code"),
        Attribute::ConstantValue(_) => Some("ConstantValue"),
        Attribute::Deprecated => Some("Deprecated"),
        Attribute::EnclosingMethod { .. } => Some("EnclosingMethod"),
        Attribute::Exceptions(_) => Some("Exceptions"),
        Attribute::InnerClasses(_) => Some("InnerClasses"),
        Attribute::LineNumberTable(_) => Some("LineNumberTable"),
        Attribute::LocalVariableTable(_) => Some("LocalVariableTable"),
        Attribute::LocalVariableTypeTable(_) => Some("LocalVariableTypeTable"),
        Attribute::MethodParameters(_) => Some("MethodParameters"),
        Attribute::Module { .. } => Some("Module"),
        Attribute::ModuleMainClass(_) => Some("ModuleMainClass"),
        Attribute::ModulePackages(_) => Some("ModulePackages"),
        Attribute::RuntimeVisibleAnnotations(_) => Some("RuntimeVisibleAnnotations"),
        Attribute::RuntimeInvisibleAnnotations(_) => Some("RuntimeInvisibleAnnotations"),
        Attribute::RuntimeVisibleParameterAnnotations(_) => Some(
            "RuntimeVisibleParameterAnnotations",
        ),
        Attribute::RuntimeInvisibleParameterAnnotations(_) => Some(
            "RuntimeInvisibleParameterAnnotations",
        ),
        Attribute::RuntimeVisibleTypeAnnotations(_) => Some("RuntimeVisibleTypeAnnotations"),
        Attribute::RuntimeInvisibleTypeAnnotations(_) => Some("RuntimeInvisibleTypeAnnotations"),
        Attribute::Signature(_) => Some("Signature"),
        Attribute::Synthetic => Some("Synthetic"),
        Attribute::SourceFile(_) => Some("SourceFile"),
        Attribute::SourceDebugExtension(_) => Some("SourceDebugExtension"),
        Attribute::StackMapTable(_) => Some("StackMapTable"),
        Attribute::Unknown(_, _) => None,
    }
}

/// Looks up the index of an attribute's name.
fn name_index_of(attribute: &Attribute, pool: &Pool) -> (r: Result<u16, Error>)
    requires
        pool.wf(),
    ensures
        r == attribute_name_index(attribute@, pool@),
{
    reveal(attribute_name_index);
    match name_of(attribute) {
        Some(name) => {
            let item = Item::UTF8(String::from_str(name));
            match pool.index_of(&item) {
                Some(index) => Ok(index),
                None => Err(Error::InvalidCPItem(0)),
            }
        },
        None => match attribute {
            Attribute::Unknown(name_index, _) => Ok(*name_index),
            _ => Err(Error::InvalidCPItem(0)),
        },
    }
}

/// Writes the body of the `Module` attribute.
fn write_module(
    encoder: &mut Encoder,
    name: u16,
    flags: u16,
    version: u16,
    requirements: &Vec<super::super::tree::Requirement>,
    exports: &Vec<Export>,
    opens: &Vec<Opening>,
    uses: &Vec<u16>,
    provides: &Vec<Provider>,
) -> (r: Result<(), Error>)
    ensures
        wrote(
            *old(encoder),
            *final(encoder),
            r,
            then(
                then(
                    then(
                        then(
                            then(
                                Ok(u16_bytes(name) + u16_bytes(flags) + u16_bytes(version)),
                                counted16(requirement_format(), requirements@),
                            ),
                            counted16(export_format(), views(exports@)),
                        ),
                        counted16(export_format(), views(opens@)),
                    ),
                    counted16(u16_format(), uses@),
                ),
                counted16(provider_format(), views(provides@)),
            ),
        ),
{
    encoder.write_u16(name);
    encoder.write_u16(flags);
    encoder.write_u16(version);
    let ghost head = u16_bytes(name) + u16_bytes(flags) + u16_bytes(version);
    assert(encoder@ =~= old(encoder)@ + head);
    write_requirement_list(encoder, requirements)?;
    let ghost b1 = counted16(requirement_format(), requirements@)->Ok_0;
    assert(encoder@ =~= old(encoder)@ + (head + b1));
    write_exports(encoder, exports)?;
    let ghost b2 = counted16(export_format(), views(exports@))->Ok_0;
    assert(encoder@ =~= old(encoder)@ + (head + b1 + b2));
    write_opens(encoder, opens)?;
    let ghost b3 = counted16(export_format(), views(opens@))->Ok_0;
    assert(encoder@ =~= old(encoder)@ + (head + b1 + b2 + b3));
    write_u16_list(encoder, uses)?;
    let ghost b4 = counted16(u16_format(), uses@)->Ok_0;
    assert(encoder@ =~= old(encoder)@ + (head + b1 + b2 + b3 + b4));
    write_provides(encoder, provides)?;
    let ghost b5 = counted16(provider_format(), views(provides@))->Ok_0;
    assert(encoder@ =~= old(encoder)@ + (head + b1 + b2 + b3 + b4 + b5));
    Ok(())
}

/// Writes the body of an attribute.
pub fn write_attribute_body(encoder: &mut Encoder, attribute: &Attribute, pool: &Pool) -> (r: Result<
    (),
    Error,
>)
    requires
        pool.wf(),
    ensures
        wrote(*old(encoder), *final(encoder), r, attribute_body_bytes(attribute@, pool@)),
    decreases attribute, 0int,
{
    reveal(body_bytes);
    match attribute {
        Attribute::AnnotationDefault(value) => write_element_value(encoder, value),
        Attribute::BootstrapMethods(v) => write_bootstrap_methods(encoder, v),
        Attribute::Code { max_stack, max_locals, instructions, exceptions, attributes } => {
            proof {
                reveal_with_fuel(<Attribute as View>::view, 2);
                assert(attribute@ matches AttributeView::Code { attributes: a, .. } && a =~= views(
                    attributes@,
                ));
            }
            encoder.write_u16(*max_stack);
            encoder.write_u16(*max_locals);
            let ghost head = u16_bytes(*max_stack) + u16_bytes(*max_locals);
            assert(encoder@ =~= old(encoder)@ + head);
            write_code_stream(encoder, instructions, pool)?;
            let ghost b1 = code_stream_bytes(code_view(instructions@), pool@)->Ok_0;
            assert(encoder@ =~= old(encoder)@ + (head + b1));
            write_exception_list(encoder, exceptions)?;
            let ghost b2 = counted16(exception_format(), exceptions@)->Ok_0;
            assert(encoder@ =~= old(encoder)@ + (head + b1 + b2));
            write_attributes(encoder, attributes, pool)?;
            let ghost b3 = attributes_bytes(views(attributes@), pool@)->Ok_0;
            assert(encoder@ =~= old(encoder)@ + (head + b1 + b2 + b3));
            Ok(())
        },
        Attribute::ConstantValue(i) => {
            encoder.write_u16(*i);
            Ok(())
        },
        Attribute::Deprecated => {
            assert(encoder@ =~= old(encoder)@ + Seq::<u8>::empty());
            Ok(())
        },
        Attribute::EnclosingMethod { class_index, method_index } => {
            encoder.write_u16(*class_index);
            encoder.write_u16(*method_index);
            assert(encoder@ =~= old(encoder)@ + (u16_bytes(*class_index) + u16_bytes(*method_index)));
            Ok(())
        },
        Attribute::Exceptions(v) => write_u16_list(encoder, v),
        Attribute::InnerClasses(v) => write_inner_class_list(encoder, v),
        Attribute::LineNumberTable(v) => write_line_number_list(encoder, v),
        Attribute::LocalVariableTable(v) => write_local_variable_list(encoder, v),
        Attribute::LocalVariableTypeTable(v) => write_local_variable_type_list(encoder, v),
        Attribute::MethodParameters(v) => write_method_parameter_list(encoder, v),
        Attribute::Module {
            name,
            flags,
            version,
            requires: requirements,
            exports,
            opens,
            uses,
            provides,
        } => write_module(
            encoder,
            *name,
            flags.bits(),
            *version,
            requirements,
            exports,
            opens,
            uses,
            provides,
        ),
        Attribute::ModuleMainClass(i) => {
            encoder.write_u16(*i);
            Ok(())
        },
        Attribute::ModulePackages(v) => write_u16_list(encoder, v),
        Attribute::RuntimeVisibleAnnotations(v) => write_annotations(encoder, v),
        Attribute::RuntimeInvisibleAnnotations(v) => write_annotations(encoder, v),
        Attribute::RuntimeVisibleParameterAnnotations(v) => write_parameter_annotations(encoder, v),
        Attribute::RuntimeInvisibleParameterAnnotations(v) => write_parameter_annotations(encoder, v),
        Attribute::RuntimeVisibleTypeAnnotations(v) => write_type_annotations(encoder, v),
        Attribute::RuntimeInvisibleTypeAnnotations(v) => write_type_annotations(encoder, v),
        Attribute::Signature(i) => {
            encoder.write_u16(*i);
            Ok(())
        },
        Attribute::Synthetic => {
            assert(encoder@ =~= old(encoder)@ + Seq::<u8>::empty());
            Ok(())
        },
        Attribute::SourceFile(i) => {
            encoder.write_u16(*i);
            Ok(())
        },
        Attribute::SourceDebugExtension(s) => {
            encoder.write_str(s.as_str());
            Ok(())
        },
        Attribute::StackMapTable(v) => write_stack_map_table(encoder, v),
        Attribute::Unknown(_, bytes) => {
            encoder.write_bytes(bytes.as_slice());
            Ok(())
        },
    }
}

/// Writes the index of an attribute's name, the length of its body, and
/// the body.
fn write_framed(encoder: &mut Encoder, name_index: u16, body: &Vec<u8>) -> (r: Result<(), Error>)
    ensures
        wrote(
            *old(encoder),
            *final(encoder),
            r,
            framed(Ok(name_index), Ok(body@)),
        ),
{
    encoder.write_u16(name_index);
    write_count32(encoder, body.len())?;
    encoder.write_bytes(body.as_slice());
    assert(encoder@ =~= old(encoder)@ + (u16_bytes(name_index) + count32(body@.len())->Ok_0
        + body@));
    Ok(())
}

/// Writes an attribute. Its body is written aside first, so that its length
/// can stand before it.
pub fn write_attribute(encoder: &mut Encoder, attribute: &Attribute, pool: &Pool) -> (r: Result<
    (),
    Error,
>)
    requires
        pool.wf(),
    ensures
        wrote(*old(encoder), *final(encoder), r, attribute_bytes(attribute@, pool@)),
{
    let name_index = name_index_of(attribute, pool)?;
    let mut body = Encoder::new();
    write_attribute_body(&mut body, attribute, pool)?;
    assert(body@ =~= attribute_body_bytes(attribute@, pool@)->Ok_0);
    let bytes = body.bytes();
    write_framed(encoder, name_index, &bytes)
}

/// Writes all attributes to the encoder.
#[verifier::loop_isolation(false)]
pub fn write_attributes(encoder: &mut Encoder, attributes: &Vec<Attribute>, pool: &Pool) -> (r: Result<
    (),
    Error,
>)
    requires
        pool.wf(),
    ensures
        wrote(*old(encoder), *final(encoder), r, attributes_bytes(views(attributes@), pool@)),
    decreases attributes, 0int,
{
    let ghost v = views(attributes@);
    write_count16(encoder, attributes.len())?;
    let ghost base = encoder@;
    let ghost mut written = Seq::<u8>::empty();
    assert(encoder@ =~= base + written);
    let mut i: usize = 0;
    while i < attributes.len()
        invariant
            i <= attributes@.len(),
            encoder@ == base + written,
            attributes_bytes_from(v, 0, pool@, Seq::empty()) == attributes_bytes_from(
                v,
                i as int,
                pool@,
                written,
            ),
        decreases attributes@.len() - i,
    {
        let name_index = name_index_of(&attributes[i], pool)?;
        let mut body = Encoder::new();
        write_attribute_body(&mut body, &attributes[i], pool)?;
        assert(body@ =~= attribute_body_bytes(v[i as int], pool@)->Ok_0);
        let bytes = body.bytes();
        write_framed(encoder, name_index, &bytes)?;
        proof {
            written = written + attribute_bytes(v[i as int], pool@)->Ok_0;
            assert(encoder@ =~= base + written);
        }
        i += 1;
    }
    assert(encoder@ =~= old(encoder)@ + (u16_bytes(v.len() as u16) + written));
    Ok(())
}

} // verus!
