//! Annotations, element values and type annotations.

use vstd::prelude::*;
use super::super::result::Error;
use super::super::tree::{
    parameter_views, views, Annotation, AnnotationView, ElementValue, ElementValueView,
    LocalVariableTarget, TargetType, TargetTypeView, TypeAnnotation, TypeAnnotationView,
    TypePathElement, TypePathKind,
};
use super::decode::{u16_at, u8_at, Decoder};
use super::grammar::{
    counted16, counted8, fits, mapped, parses, parses_views, repeat, u16_in, Grammar, Parsed,
};

verus! {

/// An element value: a tag of one byte, and what the tag asks for. The tags
/// are the ASCII codes of `B S C I J F D Z` for the constants of the
/// primitive types, of `s` for a string, `c` for a class, `e` for an enum
/// constant, `@` for an annotation and `[` for an array.
pub open spec fn element_value_at(s: Seq<u8>, pos: int) -> Parsed<ElementValueView>
    decreases s.len() - pos, 0nat,
{
    match u8_at(s, pos) {
        Ok((tag, p)) => if tag == 0x42 {
            mapped(u16_at(s, p), |i: u16| ElementValueView::Byte(i))
        } else if tag == 0x53 {
            mapped(u16_at(s, p), |i: u16| ElementValueView::Short(i))
        } else if tag == 0x43 {
            mapped(u16_at(s, p), |i: u16| ElementValueView::Char(i))
        } else if tag == 0x49 {
            mapped(u16_at(s, p), |i: u16| ElementValueView::Int(i))
        } else if tag == 0x4A {
            mapped(u16_at(s, p), |i: u16| ElementValueView::Long(i))
        } else if tag == 0x46 {
            mapped(u16_at(s, p), |i: u16| ElementValueView::Float(i))
        } else if tag == 0x44 {
            mapped(u16_at(s, p), |i: u16| ElementValueView::Double(i))
        } else if tag == 0x5A {
            mapped(u16_at(s, p), |i: u16| ElementValueView::Boolean(i))
        } else if tag == 0x73 {
            mapped(u16_at(s, p), |i: u16| ElementValueView::String(i))
        } else if tag == 0x63 {
            mapped(u16_at(s, p), |i: u16| ElementValueView::Class(i))
        } else if tag == 0x65 {
            if fits(s, p, 4) {
                Ok(
                    (
                        ElementValueView::Enum {
                            enum_type: u16_in(s, p),
                            const_name: u16_in(s, p + 2),
                        },
                        p + 4,
                    ),
                )
            } else {
                Err(Error::LimitExceeded)
            }
        } else if tag == 0x40 {
            mapped(annotation_at(s, p), |a: AnnotationView| ElementValueView::Annotation(Box::new(a)))
        } else if tag == 0x5B {
            match u16_at(s, p) {
                Ok((count, start)) => mapped(
                    element_values_at(s, start, count as nat, Seq::empty()),
                    |v: Seq<ElementValueView>| ElementValueView::Array(v),
                ),
                Err(e) => Err(e),
            }
        } else {
            Err(Error::InvalidElementValue(tag))
        },
        Err(e) => Err(e),
    }
}

/// `count` element values in a row, behind those of `acc`.
pub open spec fn element_values_at(
    s: Seq<u8>,
    pos: int,
    count: nat,
    acc: Seq<ElementValueView>,
) -> Parsed<Seq<ElementValueView>>
    decreases s.len() - pos, count + 1,
{
    if count == 0 {
        Ok((acc, pos))
    } else {
        match element_value_at(s, pos) {
            Ok((v, next)) => if pos < next <= s.len() {
                element_values_at(s, next, (count - 1) as nat, acc.push(v))
            } else {
                Err(Error::LimitExceeded)
            },
            Err(e) => Err(e),
        }
    }
}

/// An annotation: the index of its type, and a counted list of pairs of a
/// name index and an element value.
pub open spec fn annotation_at(s: Seq<u8>, pos: int) -> Parsed<AnnotationView>
    decreases s.len() - pos, 0nat,
{
    if fits(s, pos, 4) {
        mapped(
            pairs_at(s, pos + 4, u16_in(s, pos + 2) as nat, Seq::empty()),
            |pairs: Seq<(u16, ElementValueView)>|
                AnnotationView { type_index: u16_in(s, pos), element_value_pairs: pairs },
        )
    } else {
        Err(Error::LimitExceeded)
    }
}

/// `count` pairs of a name index and an element value, behind those of `acc`.
pub open spec fn pairs_at(
    s: Seq<u8>,
    pos: int,
    count: nat,
    acc: Seq<(u16, ElementValueView)>,
) -> Parsed<Seq<(u16, ElementValueView)>>
    decreases s.len() - pos, count + 1,
{
    if count == 0 {
        Ok((acc, pos))
    } else {
        match u16_at(s, pos) {
            Ok((name_index, p)) => match element_value_at(s, p) {
                Ok((v, next)) => if p < next <= s.len() {
                    pairs_at(s, next, (count - 1) as nat, acc.push((name_index, v)))
                } else {
                    Err(Error::LimitExceeded)
                },
                Err(e) => Err(e),
            },
            Err(e) => Err(e),
        }
    }
}

/// The grammar of an annotation.
pub open spec fn annotation_item() -> Grammar<AnnotationView> {
    |s: Seq<u8>, pos: int| annotation_at(s, pos)
}

/// A counted list of annotations.
pub open spec fn annotations_at(s: Seq<u8>, pos: int) -> Parsed<Seq<AnnotationView>> {
    counted16(annotation_item(), s, pos)
}

/// The grammar of a counted list of annotations.
pub open spec fn annotations_item() -> Grammar<Seq<AnnotationView>> {
    |s: Seq<u8>, pos: int| annotations_at(s, pos)
}

/// The annotations of each parameter: a count of one byte, and then that
/// many counted lists of annotations.
pub open spec fn parameter_annotations_at(s: Seq<u8>, pos: int) -> Parsed<Seq<Seq<AnnotationView>>> {
    counted8(annotations_item(), s, pos)
}

/// An entry of a local variable target: six bytes.
pub open spec fn local_variable_target_at(s: Seq<u8>, pos: int) -> Parsed<LocalVariableTarget> {
    if fits(s, pos, 6) {
        Ok(
            (
                LocalVariableTarget {
                    start: u16_in(s, pos),
                    length: u16_in(s, pos + 2),
                    index: u16_in(s, pos + 4),
                },
                pos + 6,
            ),
        )
    } else {
        Err(Error::LimitExceeded)
    }
}

/// The grammar of a local variable target.
pub open spec fn local_variable_target_item() -> Grammar<LocalVariableTarget> {
    |s: Seq<u8>, pos: int| local_variable_target_at(s, pos)
}

/// The table of a local variable target: a count of one byte, and then
/// that many entries.
pub open spec fn local_variable_targets_at(s: Seq<u8>, pos: int) -> Parsed<Seq<LocalVariableTarget>> {
    counted8(local_variable_target_item(), s, pos)
}

/// The target type of a type annotation, by its first byte.
pub open spec fn target_type_at(s: Seq<u8>, pos: int) -> Parsed<TargetTypeView> {
    match u8_at(s, pos) {
        Ok((kind, p)) => if kind == 0x00 {
            mapped(u8_at(s, p), |i: u8| TargetTypeView::Plain(TargetType::TypeParameterClass(i)))
        } else if kind == 0x01 {
            mapped(u8_at(s, p), |i: u8| TargetTypeView::Plain(TargetType::TypeParameterMethod(i)))
        } else if kind == 0x10 {
            mapped(u16_at(s, p), |i: u16| TargetTypeView::Plain(TargetType::SuperType(i)))
        } else if kind == 0x11 {
            if fits(s, p, 2) {
                Ok(
                    (
                        TargetTypeView::Plain(
                            TargetType::TypeParameterBoundClass {
                                type_parameter: s[p],
                                bound_index: s[p + 1],
                            },
                        ),
                        p + 2,
                    ),
                )
            } else {
                Err(Error::LimitExceeded)
            }
        } else if kind == 0x12 {
            if fits(s, p, 2) {
                Ok(
                    (
                        TargetTypeView::Plain(
                            TargetType::TypeParameterBoundMethod {
                                type_parameter: s[p],
                                bound_index: s[p + 1],
                            },
                        ),
                        p + 2,
                    ),
                )
            } else {
                Err(Error::LimitExceeded)
            }
        } else if kind == 0x13 {
            Ok((TargetTypeView::Plain(TargetType::EmptyField), p))
        } else if kind == 0x14 {
            Ok((TargetTypeView::Plain(TargetType::EmptyReturn), p))
        } else if kind == 0x15 {
            Ok((TargetTypeView::Plain(TargetType::EmptyReceiver), p))
        } else if kind == 0x16 {
            mapped(u8_at(s, p), |i: u8| TargetTypeView::Plain(TargetType::FormalParameter(i)))
        } else if kind == 0x17 {
            mapped(u16_at(s, p), |i: u16| TargetTypeView::Plain(TargetType::Throws(i)))
        } else if kind == 0x40 {
            mapped(
                local_variable_targets_at(s, p),
                |t: Seq<LocalVariableTarget>| TargetTypeView::LocalVariable(t),
            )
        } else if kind == 0x41 {
            mapped(
                local_variable_targets_at(s, p),
                |t: Seq<LocalVariableTarget>| TargetTypeView::ResourceVariable(t),
            )
        } else if kind == 0x42 {
            mapped(u16_at(s, p), |i: u16| TargetTypeView::Plain(TargetType::Catch(i)))
        } else if kind == 0x43 {
            mapped(u16_at(s, p), |i: u16| TargetTypeView::Plain(TargetType::OffsetInstanceOf(i)))
        } else if kind == 0x44 {
            mapped(u16_at(s, p), |i: u16| TargetTypeView::Plain(TargetType::OffsetNew(i)))
        } else if kind == 0x45 {
            mapped(u16_at(s, p), |i: u16| TargetTypeView::Plain(TargetType::OffsetNewRef(i)))
        } else if kind == 0x46 {
            mapped(u16_at(s, p), |i: u16| TargetTypeView::Plain(TargetType::OffsetRef(i)))
        } else if 0x47 <= kind && kind <= 0x4B {
            if fits(s, p, 3) {
                Ok((TargetTypeView::Plain(type_argument(kind, u16_in(s, p), s[p + 2])), p + 3))
            } else {
                Err(Error::LimitExceeded)
            }
        } else {
            Err(Error::InvalidTargetType)
        },
        Err(e) => Err(e),
    }
}

/// The target type for a type argument, by its first byte: `0x47` to `0x4B`.
pub open spec fn type_argument(kind: u8, offset: u16, type_argument: u8) -> TargetType {
    if kind == 0x47 {
        TargetType::TypeArgumentCast { offset, type_argument }
    } else if kind == 0x48 {
        TargetType::TypeArgumentConstructor { offset, type_argument }
    } else if kind == 0x49 {
        TargetType::TypeArgumentMethod { offset, type_argument }
    } else if kind == 0x4A {
        TargetType::TypeArgumentNewRef { offset, type_argument }
    } else {
        TargetType::TypeArgumentRef { offset, type_argument }
    }
}

/// The kind of a type path element, by its byte.
pub open spec fn type_path_kind(kind: u8) -> Option<TypePathKind> {
    if kind == 0 {
        Some(TypePathKind::ArrayType)
    } else if kind == 1 {
        Some(TypePathKind::NestedType)
    } else if kind == 2 {
        Some(TypePathKind::WildcardType)
    } else if kind == 3 {
        Some(TypePathKind::Type)
    } else {
        None
    }
}

/// An element of a type path: its kind, and then its argument index.
pub open spec fn type_path_element_at(s: Seq<u8>, pos: int) -> Parsed<TypePathElement> {
    match u8_at(s, pos) {
        Ok((kind, p)) => match type_path_kind(kind) {
            Some(path_kind) => mapped(
                u8_at(s, p),
                |argument_index: u8| TypePathElement { path_kind, argument_index },
            ),
            None => Err(Error::InvalidTypePath),
        },
        Err(e) => Err(e),
    }
}

/// The grammar of a type path element.
pub open spec fn type_path_element_item() -> Grammar<TypePathElement> {
    |s: Seq<u8>, pos: int| type_path_element_at(s, pos)
}

/// A type path: a count of one byte, and then that many elements.
pub open spec fn type_path_at(s: Seq<u8>, pos: int) -> Parsed<Seq<TypePathElement>> {
    counted8(type_path_element_item(), s, pos)
}

/// A type annotation: a target type, a type path, and an annotation.
pub open spec fn type_annotation_at(s: Seq<u8>, pos: int) -> Parsed<TypeAnnotationView> {
    match target_type_at(s, pos) {
        Ok((target_type, pos1)) => match type_path_at(s, pos1) {
            Ok((target_path, pos2)) => mapped(
                annotation_at(s, pos2),
                |annotation: AnnotationView|
                    TypeAnnotationView { target_type, target_path, annotation },
            ),
            Err(e) => Err(e),
        },
        Err(e) => Err(e),
    }
}

/// The grammar of a type annotation.
pub open spec fn type_annotation_item() -> Grammar<TypeAnnotationView> {
    |s: Seq<u8>, pos: int| type_annotation_at(s, pos)
}

/// A counted list of type annotations.
pub open spec fn type_annotations_at(s: Seq<u8>, pos: int) -> Parsed<Seq<TypeAnnotationView>> {
    counted16(type_annotation_item(), s, pos)
}

/// Reads the next few parameter annotations.
#[verifier::loop_isolation(false)]
pub fn parse_parameter_annotations(decoder: &mut Decoder) -> (r: Result<Vec<Vec<Annotation>>, Error>)
    ensures
        final(decoder).input() == old(decoder).input(),
        match parameter_annotations_at(old(decoder).input(), old(decoder).pos()) {
            Ok((v, next)) => r is Ok && parameter_views(r->Ok_0@) == v && final(decoder).pos() == next,
            Err(e) => r == Err::<Vec<Vec<Annotation>>, Error>(e),
        },
{
    let ghost s = decoder.input();
    let count = decoder.read_u8()?;
    let mut annotations: Vec<Vec<Annotation>> = Vec::with_capacity(count as usize);
    let mut i: u8 = 0;
    assert(parameter_views(annotations@) =~= Seq::<Seq<AnnotationView>>::empty());
    while i < count
        invariant
            i <= count,
            decoder.input() == s,
            counted8(annotations_item(), s, old(decoder).pos()) == repeat(
                annotations_item(),
                s,
                decoder.pos(),
                (count - i) as nat,
                parameter_views(annotations@),
            ),
        decreases count - i,
    {
        let ghost done = parameter_views(annotations@);
        let list = parse_annotations(decoder)?;
        assert(parameter_views(annotations@.push(list)) =~= done.push(views(list@)));
        annotations.push(list);
        i += 1;
    }
    Ok(annotations)
}

/// Reads the next few annotations.
#[verifier::loop_isolation(false)]
pub fn parse_annotations(decoder: &mut Decoder) -> (r: Result<Vec<Annotation>, Error>)
    ensures
        parses_views(
            *old(decoder),
            *final(decoder),
            r,
            annotations_at(old(decoder).input(), old(decoder).pos()),
        ),
{
    let ghost s = decoder.input();
    let count = decoder.read_u16()?;
    let mut annotations: Vec<Annotation> = Vec::with_capacity(count as usize);
    let mut i: u16 = 0;
    assert(views(annotations@) =~= Seq::<AnnotationView>::empty());
    while i < count
        invariant
            i <= count,
            decoder.input() == s,
            counted16(annotation_item(), s, old(decoder).pos()) == repeat(
                annotation_item(),
                s,
                decoder.pos(),
                (count - i) as nat,
                views(annotations@),
            ),
        decreases count - i,
    {
        let ghost done = views(annotations@);
        let annotation = parse_annotation(decoder)?;
        assert(views(annotations@.push(annotation)) =~= done.push(annotation@));
        annotations.push(annotation);
        i += 1;
    }
    Ok(annotations)
}

/// Reads the next few type annotations.
#[verifier::loop_isolation(false)]
pub fn parse_type_annotations(decoder: &mut Decoder) -> (r: Result<Vec<TypeAnnotation>, Error>)
    ensures
        parses_views(
            *old(decoder),
            *final(decoder),
            r,
            type_annotations_at(old(decoder).input(), old(decoder).pos()),
        ),
{
    let ghost s = decoder.input();
    let count = decoder.read_u16()?;
    let mut annotations: Vec<TypeAnnotation> = Vec::with_capacity(count as usize);
    let mut i: u16 = 0;
    assert(views(annotations@) =~= Seq::<TypeAnnotationView>::empty());
    while i < count
        invariant
            i <= count,
            decoder.input() == s,
            counted16(type_annotation_item(), s, old(decoder).pos()) == repeat(
                type_annotation_item(),
                s,
                decoder.pos(),
                (count - i) as nat,
                views(annotations@),
            ),
        decreases count - i,
    {
        let ghost done = views(annotations@);
        let annotation = parse_type_annotation(decoder)?;
        assert(views(annotations@.push(annotation)) =~= done.push(annotation@));
        annotations.push(annotation);
        i += 1;
    }
    Ok(annotations)
}

/// Reads a single annotation.
#[verifier::loop_isolation(false)]
pub fn parse_annotation(decoder: &mut Decoder) -> (r: Result<Annotation, Error>)
    ensures
        parses(*old(decoder), *final(decoder), r, annotation_at(old(decoder).input(), old(decoder).pos())),
        r is Ok ==> old(decoder).pos() < final(decoder).pos() <= old(decoder).input().len(),
    decreases old(decoder).input().len() - old(decoder).pos(),
{
    let ghost s = decoder.input();
    let ghost origin = decoder.pos();
    let type_index = decoder.read_u16()?;
    let count = decoder.read_u16()?;
    let mut element_value_pairs: Vec<(u16, ElementValue)> = Vec::with_capacity(count as usize);
    let ghost mut acc: Seq<(u16, ElementValueView)> = Seq::empty();
    let mut i: u16 = 0;
    while i < count
        invariant
            i <= count,
            decoder.input() == s,
            origin + 4 <= decoder.pos() <= s.len(),
            acc.len() == element_value_pairs@.len(),
            forall|k: int|
                0 <= k < acc.len() ==> acc[k] == (
                    element_value_pairs@[k].0,
                    element_value_pairs@[k].1@,
                ),
            pairs_at(s, origin + 4, count as nat, Seq::empty()) == pairs_at(
                s,
                decoder.pos(),
                (count - i) as nat,
                acc,
            ),
        decreases count - i,
    {
        let name_index = decoder.read_u16()?;
        let value = parse_element_value(decoder)?;
        proof {
            acc = acc.push((name_index, value@));
        }
        element_value_pairs.push((name_index, value));
        i += 1;
    }
    let annotation = Annotation { type_index, element_value_pairs };
    assert(annotation@.element_value_pairs =~= acc) by {
        reveal_with_fuel(<Annotation as View>::view, 2);
    }
    Ok(annotation)
}

/// Reads an element value.
#[verifier::loop_isolation(false)]
pub fn parse_element_value(decoder: &mut Decoder) -> (r: Result<ElementValue, Error>)
    ensures
        parses(
            *old(decoder),
            *final(decoder),
            r,
            element_value_at(old(decoder).input(), old(decoder).pos()),
        ),
        r is Ok ==> old(decoder).pos() < final(decoder).pos() <= old(decoder).input().len(),
    decreases old(decoder).input().len() - old(decoder).pos(),
{
    let ghost s = decoder.input();
    let ghost origin = decoder.pos();
    let tag = decoder.read_u8()?;
    match tag {
        0x42 => Ok(ElementValue::Byte(decoder.read_u16()?)),
        0x53 => Ok(ElementValue::Short(decoder.read_u16()?)),
        0x43 => Ok(ElementValue::Char(decoder.read_u16()?)),
        0x49 => Ok(ElementValue::Int(decoder.read_u16()?)),
        0x4A => Ok(ElementValue::Long(decoder.read_u16()?)),
        0x46 => Ok(ElementValue::Float(decoder.read_u16()?)),
        0x44 => Ok(ElementValue::Double(decoder.read_u16()?)),
        0x5A => Ok(ElementValue::Boolean(decoder.read_u16()?)),
        0x73 => Ok(ElementValue::String(decoder.read_u16()?)),
        0x63 => Ok(ElementValue::Class(decoder.read_u16()?)),
        0x65 => {
            let enum_type = decoder.read_u16()?;
            let const_name = decoder.read_u16()?;
            Ok(ElementValue::Enum { enum_type, const_name })
        },
        0x40 => {
            let annotation = parse_annotation(decoder)?;
            Ok(ElementValue::Annotation(Box::new(annotation)))
        },
        0x5B => {
            let count = decoder.read_u16()?;
            let mut element_values: Vec<ElementValue> = Vec::with_capacity(count as usize);
            let ghost mut acc: Seq<ElementValueView> = Seq::empty();
            let mut i: u16 = 0;
            while i < count
                invariant
                    i <= count,
                    decoder.input() == s,
                    origin + 3 <= decoder.pos() <= s.len(),
                    acc.len() == element_values@.len(),
                    forall|k: int| 0 <= k < acc.len() ==> acc[k] == element_values@[k]@,
                    element_values_at(s, origin + 3, count as nat, Seq::empty()) == element_values_at(
                        s,
                        decoder.pos(),
                        (count - i) as nat,
                        acc,
                    ),
                decreases count - i,
            {
                let value = parse_element_value(decoder)?;
                proof {
                    acc = acc.push(value@);
                }
                element_values.push(value);
                i += 1;
            }
            let value = ElementValue::Array(element_values);
            assert(value@ == ElementValueView::Array(acc)) by {
                reveal_with_fuel(<ElementValue as View>::view, 3);
                assert(value@->Array_0.len() == acc.len());
                assert forall|k: int| 0 <= k < acc.len() implies value@->Array_0[k] == acc[k] by {
                    assert(acc[k] == element_values@[k]@);
                }
                assert(value@->Array_0 =~= acc);
            }
            Ok(value)
        },
        _ => Err(Error::InvalidElementValue(tag)),
    }
}

/// Parses a type annotation.
pub fn parse_type_annotation(decoder: &mut Decoder) -> (r: Result<TypeAnnotation, Error>)
    ensures
        parses(
            *old(decoder),
            *final(decoder),
            r,
            type_annotation_at(old(decoder).input(), old(decoder).pos()),
        ),
{
    let target_type = parse_target_type(decoder)?;
    let target_path = parse_type_path(decoder)?;
    let annotation = parse_annotation(decoder)?;
    Ok(TypeAnnotation { target_type, target_path, annotation })
}

/// Parses the target type of a type annotation.
pub fn parse_target_type(decoder: &mut Decoder) -> (r: Result<TargetType, Error>)
    ensures
        parses(*old(decoder), *final(decoder), r, target_type_at(old(decoder).input(), old(decoder).pos())),
{
    let kind = decoder.read_u8()?;
    match kind {
        0x00 => Ok(TargetType::TypeParameterClass(decoder.read_u8()?)),
        0x01 => Ok(TargetType::TypeParameterMethod(decoder.read_u8()?)),
        0x10 => Ok(TargetType::SuperType(decoder.read_u16()?)),
        0x11 => {
            let type_parameter = decoder.read_u8()?;
            let bound_index = decoder.read_u8()?;
            Ok(TargetType::TypeParameterBoundClass { type_parameter, bound_index })
        },
        0x12 => {
            let type_parameter = decoder.read_u8()?;
            let bound_index = decoder.read_u8()?;
            Ok(TargetType::TypeParameterBoundMethod { type_parameter, bound_index })
        },
        0x13 => Ok(TargetType::EmptyField),
        0x14 => Ok(TargetType::EmptyReturn),
        0x15 => Ok(TargetType::EmptyReceiver),
        0x16 => Ok(TargetType::FormalParameter(decoder.read_u8()?)),
        0x17 => Ok(TargetType::Throws(decoder.read_u16()?)),
        0x40 => Ok(TargetType::LocalVariable(parse_local_variable(decoder)?)),
        0x41 => Ok(TargetType::ResourceVariable(parse_local_variable(decoder)?)),
        0x42 => Ok(TargetType::Catch(decoder.read_u16()?)),
        0x43 => Ok(TargetType::OffsetInstanceOf(decoder.read_u16()?)),
        0x44 => Ok(TargetType::OffsetNew(decoder.read_u16()?)),
        0x45 => Ok(TargetType::OffsetNewRef(decoder.read_u16()?)),
        0x46 => Ok(TargetType::OffsetRef(decoder.read_u16()?)),
        0x47 => {
            let offset = decoder.read_u16()?;
            let type_argument = decoder.read_u8()?;
            Ok(TargetType::TypeArgumentCast { offset, type_argument })
        },
        0x48 => {
            let offset = decoder.read_u16()?;
            let type_argument = decoder.read_u8()?;
            Ok(TargetType::TypeArgumentConstructor { offset, type_argument })
        },
        0x49 => {
            let offset = decoder.read_u16()?;
            let type_argument = decoder.read_u8()?;
            Ok(TargetType::TypeArgumentMethod { offset, type_argument })
        },
        0x4A => {
            let offset = decoder.read_u16()?;
            let type_argument = decoder.read_u8()?;
            Ok(TargetType::TypeArgumentNewRef { offset, type_argument })
        },
        0x4B => {
            let offset = decoder.read_u16()?;
            let type_argument = decoder.read_u8()?;
            Ok(TargetType::TypeArgumentRef { offset, type_argument })
        },
        _ => Err(Error::InvalidTargetType),
    }
}

/// Parses the local variables of a local variable target type.
#[verifier::loop_isolation(false)]
pub fn parse_local_variable(decoder: &mut Decoder) -> (r: Result<Vec<LocalVariableTarget>, Error>)
    ensures
        final(decoder).input() == old(decoder).input(),
        match local_variable_targets_at(old(decoder).input(), old(decoder).pos()) {
            Ok((v, next)) => r is Ok && r->Ok_0@ == v && final(decoder).pos() == next,
            Err(e) => r == Err::<Vec<LocalVariableTarget>, Error>(e),
        },
{
    let ghost s = decoder.input();
    let count = decoder.read_u8()?;
    let mut table: Vec<LocalVariableTarget> = Vec::with_capacity(count as usize);
    let mut i: u8 = 0;
    while i < count
        invariant
            i <= count,
            decoder.input() == s,
            counted8(local_variable_target_item(), s, old(decoder).pos()) == repeat(
                local_variable_target_item(),
                s,
                decoder.pos(),
                (count - i) as nat,
                table@,
            ),
        decreases count - i,
    {
        let start = decoder.read_u16()?;
        let length = decoder.read_u16()?;
        let index = decoder.read_u16()?;
        table.push(LocalVariableTarget { start, length, index });
        i += 1;
    }
    Ok(table)
}

/// Parses the type path of a type annotation.
#[verifier::loop_isolation(false)]
pub fn parse_type_path(decoder: &mut Decoder) -> (r: Result<Vec<TypePathElement>, Error>)
    ensures
        final(decoder).input() == old(decoder).input(),
        match type_path_at(old(decoder).input(), old(decoder).pos()) {
            Ok((v, next)) => r is Ok && r->Ok_0@ == v && final(decoder).pos() == next,
            Err(e) => r == Err::<Vec<TypePathElement>, Error>(e),
        },
{
    let ghost s = decoder.input();
    let count = decoder.read_u8()?;
    let mut type_path: Vec<TypePathElement> = Vec::with_capacity(count as usize);
    let mut i: u8 = 0;
    while i < count
        invariant
            i <= count,
            decoder.input() == s,
            counted8(type_path_element_item(), s, old(decoder).pos()) == repeat(
                type_path_element_item(),
                s,
                decoder.pos(),
                (count - i) as nat,
                type_path@,
            ),
        decreases count - i,
    {
        let path_kind = match decoder.read_u8()? {
            0x00 => TypePathKind::ArrayType,
            0x01 => TypePathKind::NestedType,
            0x02 => TypePathKind::WildcardType,
            0x03 => TypePathKind::Type,
            _ => {
                return Err(Error::InvalidTypePath);
            },
        };
        let argument_index = decoder.read_u8()?;
        type_path.push(TypePathElement { path_kind, argument_index });
        i += 1;
    }
    Ok(type_path)
}

} // verus!
