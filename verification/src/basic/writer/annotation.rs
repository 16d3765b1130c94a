//! Annotations, element values and type annotations, as they are written.

use vstd::prelude::*;
use super::super::result::Error;
use super::super::tree::{
    parameter_views, views, Annotation, AnnotationView, ElementValue, ElementValueView, TargetType,
    TargetTypeView, TypeAnnotation, TypeAnnotationView, TypePathElement, TypePathKind,
};
use super::encode::{u16_bytes, Encoder};
use super::grammar::{
    all, count16, counted16, counted8, each, lemma_each_step, then, write_count16, write_count8,
    wrote, Format, Written,
};
use super::table::{local_variable_target_format, write_local_variable_target_list};

verus! {

/// A tag and a `u16`.
pub open spec fn tagged(tag: u8, index: u16) -> Seq<u8> {
    seq![tag] + u16_bytes(index)
}

/// An element value: its tag, and what the tag asks for.
pub open spec fn element_value_bytes(e: ElementValueView) -> Written
    decreases e, 0int,
{
    match e {
        ElementValueView::Byte(i) => Ok(tagged(0x42, i)),
        ElementValueView::Short(i) => Ok(tagged(0x53, i)),
        ElementValueView::Char(i) => Ok(tagged(0x43, i)),
        ElementValueView::Int(i) => Ok(tagged(0x49, i)),
        ElementValueView::Long(i) => Ok(tagged(0x4A, i)),
        ElementValueView::Float(i) => Ok(tagged(0x46, i)),
        ElementValueView::Double(i) => Ok(tagged(0x44, i)),
        ElementValueView::Boolean(i) => Ok(tagged(0x5A, i)),
        ElementValueView::String(i) => Ok(tagged(0x73, i)),
        ElementValueView::Enum { enum_type, const_name } => Ok(
            tagged(0x65, enum_type) + u16_bytes(const_name),
        ),
        ElementValueView::Class(i) => Ok(tagged(0x63, i)),
        ElementValueView::Annotation(a) => then(Ok(seq![0x40u8]), annotation_bytes(*a)),
        ElementValueView::Array(v) => then(
            then(Ok(seq![0x5Bu8]), count16(v.len())),
            element_values_bytes(v, 0, Seq::empty()),
        ),
    }
}

/// The element values of `v` from `from` on, behind `acc`.
pub open spec fn element_values_bytes(v: Seq<ElementValueView>, from: int, acc: Seq<u8>) -> Written
    decreases v, v.len() - from,
{
    if from < 0 || from >= v.len() {
        Ok(acc)
    } else {
        match element_value_bytes(v[from]) {
            Ok(bytes) => element_values_bytes(v, from + 1, acc + bytes),
            Err(e) => Err(e),
        }
    }
}

/// An annotation: the index of its type, a count of two bytes, and its pairs.
pub open spec fn annotation_bytes(a: AnnotationView) -> Written
    decreases a, 0int,
{
    then(
        then(Ok(u16_bytes(a.type_index)), count16(a.element_value_pairs.len())),
        pairs_bytes(a.element_value_pairs, 0, Seq::empty()),
    )
}

/// The pairs of `v` from `from` on, behind `acc`: each a name index and an
/// element value.
pub open spec fn pairs_bytes(v: Seq<(u16, ElementValueView)>, from: int, acc: Seq<u8>) -> Written
    decreases v, v.len() - from,
{
    if from < 0 || from >= v.len() {
        Ok(acc)
    } else {
        match element_value_bytes(v[from].1) {
            Ok(bytes) => pairs_bytes(v, from + 1, acc + u16_bytes(v[from].0) + bytes),
            Err(e) => Err(e),
        }
    }
}

/// The format of an annotation.
pub open spec fn annotation_format() -> Format<AnnotationView> {
    |a: AnnotationView| annotation_bytes(a)
}

/// A counted list of annotations.
pub open spec fn annotations_bytes(v: Seq<AnnotationView>) -> Written {
    counted16(annotation_format(), v)
}

/// The format of a counted list of annotations.
pub open spec fn annotations_format() -> Format<Seq<AnnotationView>> {
    |v: Seq<AnnotationView>| annotations_bytes(v)
}

/// The annotations of each parameter: a count of one byte, and then that
/// many counted lists of annotations.
pub open spec fn parameter_annotations_bytes(v: Seq<Seq<AnnotationView>>) -> Written {
    counted8(annotations_format(), v)
}

/// The byte of a type path kind.
pub open spec fn type_path_kind_byte(kind: TypePathKind) -> u8 {
    match kind {
        TypePathKind::ArrayType => 0,
        TypePathKind::NestedType => 1,
        TypePathKind::WildcardType => 2,
        TypePathKind::Type => 3,
    }
}

/// An element of a type path: two bytes.
pub open spec fn type_path_element_bytes(e: TypePathElement) -> Seq<u8> {
    seq![type_path_kind_byte(e.path_kind), e.argument_index]
}

/// The format of a type path element.
pub open spec fn type_path_element_format() -> Format<TypePathElement> {
    |e: TypePathElement| Ok::<Seq<u8>, Error>(type_path_element_bytes(e))
}

/// The target type of a type annotation: its first byte, and what that asks for.
pub open spec fn target_type_bytes(t: TargetTypeView) -> Written {
    match t {
        TargetTypeView::LocalVariable(table) => then(
            Ok(seq![0x40u8]),
            counted8(local_variable_target_format(), table),
        ),
        TargetTypeView::ResourceVariable(table) => then(
            Ok(seq![0x41u8]),
            counted8(local_variable_target_format(), table),
        ),
        TargetTypeView::Plain(plain) => Ok(plain_target_bytes(plain)),
    }
}

/// A target type without a table.
pub open spec fn plain_target_bytes(t: TargetType) -> Seq<u8> {
    match t {
        TargetType::TypeParameterClass(i) => seq![0x00u8, i],
        TargetType::TypeParameterMethod(i) => seq![0x01u8, i],
        TargetType::SuperType(i) => tagged(0x10, i),
        TargetType::TypeParameterBoundClass { type_parameter, bound_index } => seq![
            0x11u8,
            type_parameter,
            bound_index,
        ],
        TargetType::TypeParameterBoundMethod { type_parameter, bound_index } => seq![
            0x12u8,
            type_parameter,
            bound_index,
        ],
        TargetType::EmptyField => seq![0x13u8],
        TargetType::EmptyReturn => seq![0x14u8],
        TargetType::EmptyReceiver => seq![0x15u8],
        TargetType::FormalParameter(i) => seq![0x16u8, i],
        TargetType::Throws(i) => tagged(0x17, i),
        TargetType::LocalVariable(_) => seq![0x40u8, 0u8],
        TargetType::ResourceVariable(_) => seq![0x41u8, 0u8],
        TargetType::Catch(i) => tagged(0x42, i),
        TargetType::OffsetInstanceOf(i) => tagged(0x43, i),
        TargetType::OffsetNew(i) => tagged(0x44, i),
        TargetType::OffsetNewRef(i) => tagged(0x45, i),
        TargetType::OffsetRef(i) => tagged(0x46, i),
        TargetType::TypeArgumentCast { offset, type_argument } => tagged(0x47, offset).push(
            type_argument,
        ),
        TargetType::TypeArgumentConstructor { offset, type_argument } => tagged(0x48, offset).push(
            type_argument,
        ),
        TargetType::TypeArgumentMethod { offset, type_argument } => tagged(0x49, offset).push(
            type_argument,
        ),
        TargetType::TypeArgumentNewRef { offset, type_argument } => tagged(0x4A, offset).push(
            type_argument,
        ),
        TargetType::TypeArgumentRef { offset, type_argument } => tagged(0x4B, offset).push(
            type_argument,
        ),
    }
}

/// A type annotation: its target type, its type path with a count of one
/// byte, and its annotation.
pub open spec fn type_annotation_bytes(t: TypeAnnotationView) -> Written {
    then(
        then(target_type_bytes(t.target_type), counted8(type_path_element_format(), t.target_path)),
        annotation_bytes(t.annotation),
    )
}

/// The format of a type annotation.
pub open spec fn type_annotation_format() -> Format<TypeAnnotationView> {
    |t: TypeAnnotationView| type_annotation_bytes(t)
}

/// A counted list of type annotations.
pub open spec fn type_annotations_bytes(v: Seq<TypeAnnotationView>) -> Written {
    counted16(type_annotation_format(), v)
}

/// Writes a tag and a `u16`.
fn write_tagged(encoder: &mut Encoder, tag: u8, index: u16)
    ensures
        final(encoder)@ == old(encoder)@ + tagged(tag, index),
{
    encoder.write_u8(tag);
    encoder.write_u16(index);
    assert(encoder@ =~= old(encoder)@ + tagged(tag, index));
}

/// Writes an element value.
#[verifier::loop_isolation(false)]
pub fn write_element_value(encoder: &mut Encoder, value: &ElementValue) -> (r: Result<(), Error>)
    ensures
        wrote(*old(encoder), *final(encoder), r, element_value_bytes(value@)),
    decreases value,
{
    match value {
        ElementValue::Byte(i) => write_tagged(encoder, 0x42, *i),
        ElementValue::Short(i) => write_tagged(encoder, 0x53, *i),
        ElementValue::Char(i) => write_tagged(encoder, 0x43, *i),
        ElementValue::Int(i) => write_tagged(encoder, 0x49, *i),
        ElementValue::Long(i) => write_tagged(encoder, 0x4A, *i),
        ElementValue::Float(i) => write_tagged(encoder, 0x46, *i),
        ElementValue::Double(i) => write_tagged(encoder, 0x44, *i),
        ElementValue::Boolean(i) => write_tagged(encoder, 0x5A, *i),
        ElementValue::String(i) => write_tagged(encoder, 0x73, *i),
        ElementValue::Enum { enum_type, const_name } => {
            write_tagged(encoder, 0x65, *enum_type);
            encoder.write_u16(*const_name);
            assert(encoder@ =~= old(encoder)@ + (tagged(0x65, *enum_type) + u16_bytes(*const_name)));
        },
        ElementValue::Class(i) => write_tagged(encoder, 0x63, *i),
        ElementValue::Annotation(annotation) => {
            proof {
                reveal_with_fuel(<ElementValue as View>::view, 2);
            }
            encoder.write_u8(0x40);
            let ghost base = encoder@;
            write_annotation(encoder, annotation)?;
            assert(encoder@ =~= old(encoder)@ + (seq![0x40u8] + annotation_bytes(
                annotation@,
            )->Ok_0));
        },
        ElementValue::Array(values) => {
            proof {
                reveal_with_fuel(<ElementValue as View>::view, 3);
            }
            let ghost v = value@->Array_0;
            assert(v.len() == values@.len());
            assert forall|k: int| 0 <= k < v.len() implies v[k] == values@[k]@ by {}
            encoder.write_u8(0x5B);
            write_count16(encoder, values.len())?;
            let ghost base = encoder@;
            let ghost mut written = Seq::<u8>::empty();
            assert(encoder@ =~= base + written);
            let mut i: usize = 0;
            while i < values.len()
                invariant
                    i <= values@.len(),
                    encoder@ == base + written,
                    element_values_bytes(v, 0, Seq::empty()) == element_values_bytes(
                        v,
                        i as int,
                        written,
                    ),
                decreases values@.len() - i,
            {
                let ghost before = encoder@;
                write_element_value(encoder, &values[i])?;
                proof {
                    written = written + element_value_bytes(v[i as int])->Ok_0;
                    assert(encoder@ =~= base + written);
                }
                i += 1;
            }
            assert(encoder@ =~= old(encoder)@ + (seq![0x5Bu8] + u16_bytes(v.len() as u16) + written));
        },
    }
    Ok(())
}

/// Writes an annotation.
#[verifier::loop_isolation(false)]
pub fn write_annotation(encoder: &mut Encoder, annotation: &Annotation) -> (r: Result<(), Error>)
    ensures
        wrote(*old(encoder), *final(encoder), r, annotation_bytes(annotation@)),
    decreases annotation,
{
    proof {
        reveal_with_fuel(<Annotation as View>::view, 2);
    }
    let ghost v = annotation@.element_value_pairs;
    assert(v.len() == annotation.element_value_pairs@.len());
    assert forall|k: int| 0 <= k < v.len() implies v[k] == (
        annotation.element_value_pairs@[k].0,
        annotation.element_value_pairs@[k].1@,
    ) by {}
    encoder.write_u16(annotation.type_index);
    write_count16(encoder, annotation.element_value_pairs.len())?;
    let ghost base = encoder@;
    let ghost mut written = Seq::<u8>::empty();
    assert(encoder@ =~= base + written);
    let mut i: usize = 0;
    while i < annotation.element_value_pairs.len()
        invariant
            i <= v.len(),
            encoder@ == base + written,
            pairs_bytes(v, 0, Seq::empty()) == pairs_bytes(v, i as int, written),
        decreases v.len() - i,
    {
        let pair = &annotation.element_value_pairs[i];
        encoder.write_u16(pair.0);
        write_element_value(encoder, &pair.1)?;
        proof {
            written = written + u16_bytes(v[i as int].0) + element_value_bytes(v[i as int].1)->Ok_0;
            assert(encoder@ =~= base + written);
        }
        i += 1;
    }
    assert(encoder@ =~= old(encoder)@ + (u16_bytes(annotation.type_index) + u16_bytes(
        v.len() as u16,
    ) + written));
    Ok(())
}

/// Writes a counted list of annotations.
#[verifier::loop_isolation(false)]
pub fn write_annotations(encoder: &mut Encoder, list: &Vec<Annotation>) -> (r: Result<(), Error>)
    ensures
        wrote(*old(encoder), *final(encoder), r, annotations_bytes(views(list@))),
{
    let ghost v = views(list@);
    write_count16(encoder, list.len())?;
    let ghost base = encoder@;
    let ghost mut written = Seq::<u8>::empty();
    assert(encoder@ =~= base + written);
    let mut i: usize = 0;
    while i < list.len()
        invariant
            i <= list@.len(),
            encoder@ == base + written,
            all(annotation_format(), v) == each(annotation_format(), v, i as int, written),
        decreases list@.len() - i,
    {
        write_annotation(encoder, &list[i])?;
        proof {
            written = written + annotation_bytes(v[i as int])->Ok_0;
            assert(encoder@ =~= base + written);
        }
        i += 1;
    }
    assert(encoder@ =~= old(encoder)@ + (u16_bytes(v.len() as u16) + written));
    Ok(())
}

/// Writes the annotations of each parameter.
#[verifier::loop_isolation(false)]
pub fn write_parameter_annotations(encoder: &mut Encoder, list: &Vec<Vec<Annotation>>) -> (r: Result<
    (),
    Error,
>)
    ensures
        wrote(*old(encoder), *final(encoder), r, parameter_annotations_bytes(parameter_views(list@))),
{
    let ghost v = parameter_views(list@);
    write_count8(encoder, list.len())?;
    let ghost base = encoder@;
    let ghost mut written = Seq::<u8>::empty();
    assert(encoder@ =~= base + written);
    let mut i: usize = 0;
    while i < list.len()
        invariant
            i <= list@.len(),
            encoder@ == base + written,
            all(annotations_format(), v) == each(annotations_format(), v, i as int, written),
        decreases list@.len() - i,
    {
        proof {
            assert(v[i as int] == views(list@[i as int]@));
            lemma_each_step(annotations_format(), v, i as int, written);
        }
        write_annotations(encoder, &list[i])?;
        proof {
            written = written + annotations_bytes(v[i as int])->Ok_0;
            assert(encoder@ =~= base + written);
        }
        i += 1;
    }
    assert(encoder@ =~= old(encoder)@ + (seq![v.len() as u8] + written));
    Ok(())
}

/// Writes the type path of a type annotation.
#[verifier::loop_isolation(false)]
fn write_type_path(encoder: &mut Encoder, path: &Vec<TypePathElement>) -> (r: Result<(), Error>)
    ensures
        wrote(*old(encoder), *final(encoder), r, counted8(type_path_element_format(), path@)),
{
    write_count8(encoder, path.len())?;
    let ghost base = encoder@;
    let ghost mut written = Seq::<u8>::empty();
    assert(encoder@ =~= base + written);
    let mut i: usize = 0;
    while i < path.len()
        invariant
            i <= path@.len(),
            encoder@ == base + written,
            all(type_path_element_format(), path@) == each(
                type_path_element_format(),
                path@,
                i as int,
                written,
            ),
        decreases path@.len() - i,
    {
        let kind: u8 = match path[i].path_kind {
            TypePathKind::ArrayType => 0,
            TypePathKind::NestedType => 1,
            TypePathKind::WildcardType => 2,
            TypePathKind::Type => 3,
        };
        encoder.write_u8(kind);
        encoder.write_u8(path[i].argument_index);
        proof {
            written = written + type_path_element_bytes(path@[i as int]);
            assert(encoder@ =~= base + written);
        }
        i += 1;
    }
    assert(encoder@ =~= old(encoder)@ + (seq![path@.len() as u8] + written));
    Ok(())
}

/// Writes a tag and two bytes.
fn write_two(encoder: &mut Encoder, tag: u8, a: u8, b: u8)
    ensures
        final(encoder)@ == old(encoder)@ + seq![tag, a, b],
{
    encoder.write_u8(tag);
    encoder.write_u8(a);
    encoder.write_u8(b);
    assert(encoder@ =~= old(encoder)@ + seq![tag, a, b]);
}

/// Writes a tag and one byte.
fn write_one(encoder: &mut Encoder, tag: u8, a: u8)
    ensures
        final(encoder)@ == old(encoder)@ + seq![tag, a],
{
    encoder.write_u8(tag);
    encoder.write_u8(a);
    assert(encoder@ =~= old(encoder)@ + seq![tag, a]);
}

/// Writes a tag, a `u16` and one byte.
fn write_offset_argument(encoder: &mut Encoder, tag: u8, offset: u16, type_argument: u8)
    ensures
        final(encoder)@ == old(encoder)@ + tagged(tag, offset).push(type_argument),
{
    write_tagged(encoder, tag, offset);
    encoder.write_u8(type_argument);
    assert(encoder@ =~= old(encoder)@ + tagged(tag, offset).push(type_argument));
}

/// Writes the target type of a type annotation.
pub fn write_target_type(encoder: &mut Encoder, target: &TargetType) -> (r: Result<(), Error>)
    ensures
        wrote(*old(encoder), *final(encoder), r, target_type_bytes(target@)),
{
    match target {
        TargetType::TypeParameterClass(i) => write_one(encoder, 0x00, *i),
        TargetType::TypeParameterMethod(i) => write_one(encoder, 0x01, *i),
        TargetType::SuperType(i) => write_tagged(encoder, 0x10, *i),
        TargetType::TypeParameterBoundClass { type_parameter, bound_index } => write_two(
            encoder,
            0x11,
            *type_parameter,
            *bound_index,
        ),
        TargetType::TypeParameterBoundMethod { type_parameter, bound_index } => write_two(
            encoder,
            0x12,
            *type_parameter,
            *bound_index,
        ),
        TargetType::EmptyField => {
            encoder.write_u8(0x13);
            assert(encoder@ =~= old(encoder)@ + seq![0x13u8]);
        },
        TargetType::EmptyReturn => {
            encoder.write_u8(0x14);
            assert(encoder@ =~= old(encoder)@ + seq![0x14u8]);
        },
        TargetType::EmptyReceiver => {
            encoder.write_u8(0x15);
            assert(encoder@ =~= old(encoder)@ + seq![0x15u8]);
        },
        TargetType::FormalParameter(i) => write_one(encoder, 0x16, *i),
        TargetType::Throws(i) => write_tagged(encoder, 0x17, *i),
        TargetType::LocalVariable(table) => {
            encoder.write_u8(0x40);
            write_local_variable_target_list(encoder, table)?;
            assert(encoder@ =~= old(encoder)@ + (seq![0x40u8] + counted8(
                local_variable_target_format(),
                table@,
            )->Ok_0));
        },
        TargetType::ResourceVariable(table) => {
            encoder.write_u8(0x41);
            write_local_variable_target_list(encoder, table)?;
            assert(encoder@ =~= old(encoder)@ + (seq![0x41u8] + counted8(
                local_variable_target_format(),
                table@,
            )->Ok_0));
        },
        TargetType::Catch(i) => write_tagged(encoder, 0x42, *i),
        TargetType::OffsetInstanceOf(i) => write_tagged(encoder, 0x43, *i),
        TargetType::OffsetNew(i) => write_tagged(encoder, 0x44, *i),
        TargetType::OffsetNewRef(i) => write_tagged(encoder, 0x45, *i),
        TargetType::OffsetRef(i) => write_tagged(encoder, 0x46, *i),
        TargetType::TypeArgumentCast { offset, type_argument } => write_offset_argument(
            encoder,
            0x47,
            *offset,
            *type_argument,
        ),
        TargetType::TypeArgumentConstructor { offset, type_argument } => write_offset_argument(
            encoder,
            0x48,
            *offset,
            *type_argument,
        ),
        TargetType::TypeArgumentMethod { offset, type_argument } => write_offset_argument(
            encoder,
            0x49,
            *offset,
            *type_argument,
        ),
        TargetType::TypeArgumentNewRef { offset, type_argument } => write_offset_argument(
            encoder,
            0x4A,
            *offset,
            *type_argument,
        ),
        TargetType::TypeArgumentRef { offset, type_argument } => write_offset_argument(
            encoder,
            0x4B,
            *offset,
            *type_argument,
        ),
    }
    Ok(())
}

/// Writes a type annotation.
pub fn write_type_annotation(encoder: &mut Encoder, annotation: &TypeAnnotation) -> (r: Result<
    (),
    Error,
>)
    ensures
        wrote(*old(encoder), *final(encoder), r, type_annotation_bytes(annotation@)),
{
    write_target_type(encoder, &annotation.target_type)?;
    write_type_path(encoder, &annotation.target_path)?;
    write_annotation(encoder, &annotation.annotation)?;
    assert(encoder@ =~= old(encoder)@ + (target_type_bytes(annotation@.target_type)->Ok_0 + counted8(
        type_path_element_format(),
        annotation@.target_path,
    )->Ok_0 + annotation_bytes(annotation@.annotation)->Ok_0));
    Ok(())
}

/// Writes a counted list of type annotations.
#[verifier::loop_isolation(false)]
pub fn write_type_annotations(encoder: &mut Encoder, list: &Vec<TypeAnnotation>) -> (r: Result<
    (),
    Error,
>)
    ensures
        wrote(*old(encoder), *final(encoder), r, type_annotations_bytes(views(list@))),
{
    let ghost v = views(list@);
    write_count16(encoder, list.len())?;
    let ghost base = encoder@;
    let ghost mut written = Seq::<u8>::empty();
    assert(encoder@ =~= base + written);
    let mut i: usize = 0;
    while i < list.len()
        invariant
            i <= list@.len(),
            encoder@ == base + written,
            all(type_annotation_format(), v) == each(type_annotation_format(), v, i as int, written),
        decreases list@.len() - i,
    {
        write_type_annotation(encoder, &list[i])?;
        proof {
            written = written + type_annotation_bytes(v[i as int])->Ok_0;
            assert(encoder@ =~= base + written);
        }
        i += 1;
    }
    assert(encoder@ =~= old(encoder)@ + (u16_bytes(v.len() as u16) + written));
    Ok(())
}

} // verus!
