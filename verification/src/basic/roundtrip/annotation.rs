//! Annotations are read as they were written.

use vstd::prelude::*;
use super::super::parser::annotation::{
    annotation_at, annotation_item, annotations_at, annotations_item, element_value_at,
    element_values_at, local_variable_target_item, local_variable_targets_at, pairs_at,
    parameter_annotations_at, target_type_at, type_annotation_at, type_annotation_item,
    type_annotations_at, type_path_element_at, type_path_element_item,
};
use super::super::result::Error;
use super::super::tree::{
    AnnotationView, ElementValueView, LocalVariableTarget, TargetType, TargetTypeView,
    TypeAnnotationView, TypePathElement,
};
use super::super::writer::annotation::{
    annotation_bytes, annotation_format, annotations_bytes, annotations_format, element_value_bytes,
    element_values_bytes, pairs_bytes, parameter_annotations_bytes, plain_target_bytes, tagged,
    target_type_bytes, type_annotation_bytes, type_annotation_format, type_annotations_bytes,
    type_path_element_bytes, type_path_element_format,
};
use super::super::writer::encode::u16_bytes;
use super::super::writer::grammar::counted8;
use super::super::writer::table::local_variable_target_format;
use super::code::{lemma_read_u16, lemma_read_u8};
use super::table::lemma_local_variable_target_reads_back;
use super::{holds_at, lemma_read_counted16, lemma_read_counted8, lemma_split, reads_back};

verus! {

/// A tag and a `u16` are read as they were written.
proof fn lemma_read_tagged(tag: u8, index: u16, s: Seq<u8>, pos: int)
    requires
        holds_at(s, pos, tagged(tag, index)),
    ensures
        super::super::parser::decode::u8_at(s, pos) == Ok::<(u8, int), Error>((tag, pos + 1)),
        super::super::parser::decode::u16_at(s, pos + 1) == Ok::<(u16, int), Error>((index, pos + 3)),
        super::super::parser::grammar::u16_in(s, pos + 1) == index,
        tagged(tag, index).len() == 3,
{
    lemma_split(s, pos, seq![tag], u16_bytes(index));
    assert(s[pos] == s.subrange(pos, pos + 1)[0]);
    lemma_read_u8(s, pos, tag);
    lemma_read_u16(s, pos + 1, index);
}

/// Element values behind bytes are the bytes, and behind them the values.
pub proof fn lemma_element_values_behind(v: Seq<ElementValueView>, from: int, acc: Seq<u8>)
    ensures
        element_values_bytes(v, from, acc) is Ok <==> element_values_bytes(v, from, Seq::empty())
            is Ok,
        element_values_bytes(v, from, acc) is Ok ==> element_values_bytes(v, from, acc)->Ok_0 == acc
            + element_values_bytes(v, from, Seq::empty())->Ok_0,
    decreases v.len() - from,
{
    if 0 <= from < v.len() {
        match element_value_bytes(v[from]) {
            Ok(bytes) => {
                lemma_element_values_behind(v, from + 1, acc + bytes);
                lemma_element_values_behind(v, from + 1, Seq::<u8>::empty() + bytes);
                if element_values_bytes(v, from, acc) is Ok {
                    let rest = element_values_bytes(v, from + 1, Seq::empty())->Ok_0;
                    assert(acc + bytes + rest =~= acc + (Seq::<u8>::empty() + bytes + rest));
                }
            },
            Err(_) => {},
        }
    } else {
        assert(acc + Seq::<u8>::empty() =~= acc);
    }
}

/// Pairs behind bytes are the bytes, and behind them the pairs.
pub proof fn lemma_pairs_behind(v: Seq<(u16, ElementValueView)>, from: int, acc: Seq<u8>)
    ensures
        pairs_bytes(v, from, acc) is Ok <==> pairs_bytes(v, from, Seq::empty()) is Ok,
        pairs_bytes(v, from, acc) is Ok ==> pairs_bytes(v, from, acc)->Ok_0 == acc + pairs_bytes(
            v,
            from,
            Seq::empty(),
        )->Ok_0,
    decreases v.len() - from,
{
    if 0 <= from < v.len() {
        match element_value_bytes(v[from].1) {
            Ok(bytes) => {
                let name = u16_bytes(v[from].0);
                lemma_pairs_behind(v, from + 1, acc + name + bytes);
                lemma_pairs_behind(v, from + 1, Seq::<u8>::empty() + name + bytes);
                if pairs_bytes(v, from, acc) is Ok {
                    let rest = pairs_bytes(v, from + 1, Seq::empty())->Ok_0;
                    assert(acc + name + bytes + rest =~= acc + (Seq::<u8>::empty() + name + bytes
                        + rest));
                }
            },
            Err(_) => {},
        }
    } else {
        assert(acc + Seq::<u8>::empty() =~= acc);
    }
}

/// An element value is read as it was written.
pub proof fn lemma_read_element_value(e: ElementValueView, s: Seq<u8>, pos: int)
    requires
        element_value_bytes(e) is Ok,
        holds_at(s, pos, element_value_bytes(e)->Ok_0),
    ensures
        element_value_bytes(e)->Ok_0.len() >= 1,
        element_value_at(s, pos) == Ok::<(ElementValueView, int), Error>(
            (e, pos + element_value_bytes(e)->Ok_0.len()),
        ),
    decreases e, 0int,
{
    match e {
        ElementValueView::Byte(i) => lemma_read_tagged(0x42, i, s, pos),
        ElementValueView::Short(i) => lemma_read_tagged(0x53, i, s, pos),
        ElementValueView::Char(i) => lemma_read_tagged(0x43, i, s, pos),
        ElementValueView::Int(i) => lemma_read_tagged(0x49, i, s, pos),
        ElementValueView::Long(i) => lemma_read_tagged(0x4A, i, s, pos),
        ElementValueView::Float(i) => lemma_read_tagged(0x46, i, s, pos),
        ElementValueView::Double(i) => lemma_read_tagged(0x44, i, s, pos),
        ElementValueView::Boolean(i) => lemma_read_tagged(0x5A, i, s, pos),
        ElementValueView::String(i) => lemma_read_tagged(0x73, i, s, pos),
        ElementValueView::Class(i) => lemma_read_tagged(0x63, i, s, pos),
        ElementValueView::Enum { enum_type, const_name } => {
            lemma_split(s, pos, tagged(0x65, enum_type), u16_bytes(const_name));
            lemma_read_tagged(0x65, enum_type, s, pos);
            lemma_read_u16(s, pos + 3, const_name);
        },
        ElementValueView::Annotation(a) => {
            let inner = annotation_bytes(*a)->Ok_0;
            lemma_split(s, pos, seq![0x40u8], inner);
            assert(s[pos] == s.subrange(pos, pos + 1)[0]);
            lemma_read_u8(s, pos, 0x40);
            lemma_read_annotation(*a, s, pos + 1);
        },
        ElementValueView::Array(v) => {
            let items = element_values_bytes(v, 0, Seq::empty())->Ok_0;
            let head = seq![0x5Bu8] + u16_bytes(v.len() as u16);
            lemma_split(s, pos, head, items);
            lemma_split(s, pos, seq![0x5Bu8], u16_bytes(v.len() as u16));
            assert(s[pos] == s.subrange(pos, pos + 1)[0]);
            lemma_read_u8(s, pos, 0x5B);
            lemma_read_u16(s, pos + 1, v.len() as u16);
            lemma_read_element_values(v, 0, s, pos + 3, Seq::empty());
            assert(Seq::<ElementValueView>::empty() + v.skip(0) =~= v);
        },
    }
}

/// Element values are read as they were written.
pub proof fn lemma_read_element_values(
    v: Seq<ElementValueView>,
    from: int,
    s: Seq<u8>,
    pos: int,
    acc: Seq<ElementValueView>,
)
    requires
        0 <= from <= v.len(),
        element_values_bytes(v, from, Seq::empty()) is Ok,
        holds_at(s, pos, element_values_bytes(v, from, Seq::empty())->Ok_0),
    ensures
        element_values_at(s, pos, (v.len() - from) as nat, acc) == Ok::<
            (Seq<ElementValueView>, int),
            Error,
        >((acc + v.skip(from), pos + element_values_bytes(v, from, Seq::empty())->Ok_0.len())),
    decreases v, v.len() - from,
{
    if from < v.len() {
        let first = element_value_bytes(v[from])->Ok_0;
        lemma_element_values_behind(v, from + 1, Seq::<u8>::empty() + first);
        let rest = element_values_bytes(v, from + 1, Seq::empty())->Ok_0;
        assert(element_values_bytes(v, from, Seq::empty())->Ok_0 =~= first + rest);
        lemma_split(s, pos, first, rest);
        lemma_read_element_value(v[from], s, pos);
        lemma_read_element_values(v, from + 1, s, pos + first.len(), acc.push(v[from]));
        assert(acc.push(v[from]) + v.skip(from + 1) =~= acc + v.skip(from));
    } else {
        assert(acc + v.skip(from) =~= acc);
    }
}

/// An annotation is read as it was written.
pub proof fn lemma_read_annotation(a: AnnotationView, s: Seq<u8>, pos: int)
    requires
        annotation_bytes(a) is Ok,
        holds_at(s, pos, annotation_bytes(a)->Ok_0),
    ensures
        annotation_at(s, pos) == Ok::<(AnnotationView, int), Error>(
            (a, pos + annotation_bytes(a)->Ok_0.len()),
        ),
    decreases a, 0int,
{
    let pairs = a.element_value_pairs;
    let items = pairs_bytes(pairs, 0, Seq::empty())->Ok_0;
    let head = u16_bytes(a.type_index) + u16_bytes(pairs.len() as u16);
    lemma_split(s, pos, head, items);
    lemma_split(s, pos, u16_bytes(a.type_index), u16_bytes(pairs.len() as u16));
    lemma_read_u16(s, pos, a.type_index);
    lemma_read_u16(s, pos + 2, pairs.len() as u16);
    lemma_read_pairs(pairs, 0, s, pos + 4, Seq::empty());
    assert(Seq::<(u16, ElementValueView)>::empty() + pairs.skip(0) =~= pairs);
}

/// The pairs of an annotation are read as they were written.
pub proof fn lemma_read_pairs(
    v: Seq<(u16, ElementValueView)>,
    from: int,
    s: Seq<u8>,
    pos: int,
    acc: Seq<(u16, ElementValueView)>,
)
    requires
        0 <= from <= v.len(),
        pairs_bytes(v, from, Seq::empty()) is Ok,
        holds_at(s, pos, pairs_bytes(v, from, Seq::empty())->Ok_0),
    ensures
        pairs_at(s, pos, (v.len() - from) as nat, acc) == Ok::<
            (Seq<(u16, ElementValueView)>, int),
            Error,
        >((acc + v.skip(from), pos + pairs_bytes(v, from, Seq::empty())->Ok_0.len())),
    decreases v, v.len() - from,
{
    if from < v.len() {
        let name = u16_bytes(v[from].0);
        let value = element_value_bytes(v[from].1)->Ok_0;
        lemma_pairs_behind(v, from + 1, Seq::<u8>::empty() + name + value);
        let rest = pairs_bytes(v, from + 1, Seq::empty())->Ok_0;
        assert(pairs_bytes(v, from, Seq::empty())->Ok_0 =~= name + value + rest);
        lemma_split(s, pos, name + value, rest);
        lemma_split(s, pos, name, value);
        lemma_read_u16(s, pos, v[from].0);
        lemma_read_element_value(v[from].1, s, pos + 2);
        lemma_read_pairs(v, from + 1, s, pos + 2 + value.len(), acc.push(v[from]));
        assert(acc.push(v[from]) + v.skip(from + 1) =~= acc + v.skip(from));
    } else {
        assert(acc + v.skip(from) =~= acc);
    }
}

/// An annotation is read as it was written.
pub proof fn lemma_annotation_reads_back(a: AnnotationView)
    ensures
        reads_back(annotation_format(), annotation_item(), a),
{
    if annotation_bytes(a) is Ok {
        assert forall|s: Seq<u8>, pos: int| #[trigger]
            holds_at(s, pos, annotation_bytes(a)->Ok_0) implies annotation_at(s, pos) == Ok::<
            (AnnotationView, int),
            Error,
        >((a, pos + annotation_bytes(a)->Ok_0.len())) by {
            lemma_read_annotation(a, s, pos);
        }
    }
}

/// A counted list of annotations is read as it was written.
pub proof fn lemma_read_annotations(v: Seq<AnnotationView>, s: Seq<u8>, pos: int)
    requires
        annotations_bytes(v) is Ok,
        holds_at(s, pos, annotations_bytes(v)->Ok_0),
    ensures
        annotations_at(s, pos) == Ok::<(Seq<AnnotationView>, int), Error>(
            (v, pos + annotations_bytes(v)->Ok_0.len()),
        ),
{
    assert forall|i: int| 0 <= i < v.len() implies reads_back(
        annotation_format(),
        annotation_item(),
        #[trigger] v[i],
    ) by {
        lemma_annotation_reads_back(v[i]);
    }
    lemma_read_counted16(annotation_format(), annotation_item(), v, s, pos);
}

/// The annotations of each parameter are read as they were written.
pub proof fn lemma_read_parameter_annotations(v: Seq<Seq<AnnotationView>>, s: Seq<u8>, pos: int)
    requires
        parameter_annotations_bytes(v) is Ok,
        holds_at(s, pos, parameter_annotations_bytes(v)->Ok_0),
    ensures
        parameter_annotations_at(s, pos) == Ok::<(Seq<Seq<AnnotationView>>, int), Error>(
            (v, pos + parameter_annotations_bytes(v)->Ok_0.len()),
        ),
{
    assert forall|i: int| 0 <= i < v.len() implies reads_back(
        annotations_format(),
        annotations_item(),
        #[trigger] v[i],
    ) by {
        let list = v[i];
        if annotations_bytes(list) is Ok {
            assert forall|s2: Seq<u8>, pos2: int| #[trigger]
                holds_at(s2, pos2, annotations_bytes(list)->Ok_0) implies annotations_at(s2, pos2)
                == Ok::<(Seq<AnnotationView>, int), Error>(
                (list, pos2 + annotations_bytes(list)->Ok_0.len()),
            ) by {
                lemma_read_annotations(list, s2, pos2);
            }
        }
    }
    lemma_read_counted8(annotations_format(), annotations_item(), v, s, pos);
}

/// A target type as the tree holds it: those with a table stand as such.
pub open spec fn proper_target(t: TargetTypeView) -> bool {
    t matches TargetTypeView::Plain(plain) ==> !(plain is LocalVariable) && !(plain
        is ResourceVariable)
}

/// The table of a local variable target is read as it was written.
proof fn lemma_read_targets(table: Seq<LocalVariableTarget>, s: Seq<u8>, pos: int)
    requires
        counted8(local_variable_target_format(), table) is Ok,
        holds_at(s, pos, counted8(local_variable_target_format(), table)->Ok_0),
    ensures
        local_variable_targets_at(s, pos) == Ok::<(Seq<LocalVariableTarget>, int), Error>(
            (table, pos + counted8(local_variable_target_format(), table)->Ok_0.len()),
        ),
{
    assert forall|i: int| 0 <= i < table.len() implies reads_back(
        local_variable_target_format(),
        local_variable_target_item(),
        #[trigger] table[i],
    ) by {
        lemma_local_variable_target_reads_back(table[i]);
    }
    lemma_read_counted8(
        local_variable_target_format(),
        local_variable_target_item(),
        table,
        s,
        pos,
    );
}

/// A target type without a table is read as it was written.
proof fn lemma_read_plain_target(t: TargetType, s: Seq<u8>, pos: int)
    requires
        !(t is LocalVariable),
        !(t is ResourceVariable),
        holds_at(s, pos, plain_target_bytes(t)),
    ensures
        target_type_at(s, pos) == Ok::<(TargetTypeView, int), Error>(
            (TargetTypeView::Plain(t), pos + plain_target_bytes(t).len()),
        ),
{
    let bytes = plain_target_bytes(t);
    let part = s.subrange(pos, pos + bytes.len());
    assert(forall|i: int| 0 <= i < bytes.len() ==> s[pos + i] == #[trigger] part[i]);
    assert(s[pos] == part[0]);
    lemma_read_u8(s, pos, bytes[0]);
    match t {
        TargetType::TypeParameterClass(i) => {
            assert(s[pos + 1] == part[1]);
            lemma_read_u8(s, pos + 1, i);
        },
        TargetType::TypeParameterMethod(i) => {
            assert(s[pos + 1] == part[1]);
            lemma_read_u8(s, pos + 1, i);
        },
        TargetType::FormalParameter(i) => {
            assert(s[pos + 1] == part[1]);
            lemma_read_u8(s, pos + 1, i);
        },
        TargetType::TypeParameterBoundClass { type_parameter, bound_index } => {
            assert(s[pos + 1] == part[1] && s[pos + 2] == part[2]);
        },
        TargetType::TypeParameterBoundMethod { type_parameter, bound_index } => {
            assert(s[pos + 1] == part[1] && s[pos + 2] == part[2]);
        },
        TargetType::SuperType(i) => lemma_read_tagged(0x10, i, s, pos),
        TargetType::Throws(i) => lemma_read_tagged(0x17, i, s, pos),
        TargetType::Catch(i) => lemma_read_tagged(0x42, i, s, pos),
        TargetType::OffsetInstanceOf(i) => lemma_read_tagged(0x43, i, s, pos),
        TargetType::OffsetNew(i) => lemma_read_tagged(0x44, i, s, pos),
        TargetType::OffsetNewRef(i) => lemma_read_tagged(0x45, i, s, pos),
        TargetType::OffsetRef(i) => lemma_read_tagged(0x46, i, s, pos),
        TargetType::TypeArgumentCast { offset, type_argument } => {
            lemma_read_offset_argument(0x47, offset, type_argument, s, pos);
        },
        TargetType::TypeArgumentConstructor { offset, type_argument } => {
            lemma_read_offset_argument(0x48, offset, type_argument, s, pos);
        },
        TargetType::TypeArgumentMethod { offset, type_argument } => {
            lemma_read_offset_argument(0x49, offset, type_argument, s, pos);
        },
        TargetType::TypeArgumentNewRef { offset, type_argument } => {
            lemma_read_offset_argument(0x4A, offset, type_argument, s, pos);
        },
        TargetType::TypeArgumentRef { offset, type_argument } => {
            lemma_read_offset_argument(0x4B, offset, type_argument, s, pos);
        },
        _ => {},
    }
}

/// A tag, a `u16` and a byte are read as they were written.
proof fn lemma_read_offset_argument(tag: u8, offset: u16, argument: u8, s: Seq<u8>, pos: int)
    requires
        holds_at(s, pos, tagged(tag, offset).push(argument)),
    ensures
        super::super::parser::grammar::fits(s, pos + 1, 3),
        super::super::parser::grammar::u16_in(s, pos + 1) == offset,
        s[pos + 3] == argument,
{
    let bytes = tagged(tag, offset).push(argument);
    assert(bytes =~= tagged(tag, offset) + seq![argument]);
    lemma_split(s, pos, tagged(tag, offset), seq![argument]);
    lemma_read_tagged(tag, offset, s, pos);
    assert(s[pos + 3] == s.subrange(pos + 3, pos + 4)[0]);
}

/// A target type is read as it was written.
pub proof fn lemma_read_target_type(t: TargetTypeView, s: Seq<u8>, pos: int)
    requires
        proper_target(t),
        target_type_bytes(t) is Ok,
        holds_at(s, pos, target_type_bytes(t)->Ok_0),
    ensures
        target_type_at(s, pos) == Ok::<(TargetTypeView, int), Error>(
            (t, pos + target_type_bytes(t)->Ok_0.len()),
        ),
{
    match t {
        TargetTypeView::LocalVariable(table) => {
            let list = counted8(local_variable_target_format(), table)->Ok_0;
            lemma_split(s, pos, seq![0x40u8], list);
            assert(s[pos] == s.subrange(pos, pos + 1)[0]);
            lemma_read_u8(s, pos, 0x40);
            lemma_read_targets(table, s, pos + 1);
        },
        TargetTypeView::ResourceVariable(table) => {
            let list = counted8(local_variable_target_format(), table)->Ok_0;
            lemma_split(s, pos, seq![0x41u8], list);
            assert(s[pos] == s.subrange(pos, pos + 1)[0]);
            lemma_read_u8(s, pos, 0x41);
            lemma_read_targets(table, s, pos + 1);
        },
        TargetTypeView::Plain(plain) => lemma_read_plain_target(plain, s, pos),
    }
}

/// An element of a type path is read as it was written.
pub proof fn lemma_type_path_element_reads_back(e: TypePathElement)
    ensures
        reads_back(type_path_element_format(), type_path_element_item(), e),
{
    assert forall|s: Seq<u8>, pos: int| #[trigger]
        holds_at(s, pos, type_path_element_bytes(e)) implies type_path_element_at(s, pos) == Ok::<
        (TypePathElement, int),
        Error,
    >((e, pos + 2)) by {
        let part = s.subrange(pos, pos + 2);
        assert(s[pos] == part[0] && s[pos + 1] == part[1]);
        lemma_read_u8(s, pos, part[0]);
        lemma_read_u8(s, pos + 1, e.argument_index);
    }
}

/// A type annotation as the tree holds it.
pub open spec fn proper_type_annotation(t: TypeAnnotationView) -> bool {
    proper_target(t.target_type)
}

/// A type annotation is read as it was written.
pub proof fn lemma_read_type_annotation(t: TypeAnnotationView, s: Seq<u8>, pos: int)
    requires
        proper_type_annotation(t),
        type_annotation_bytes(t) is Ok,
        holds_at(s, pos, type_annotation_bytes(t)->Ok_0),
    ensures
        type_annotation_at(s, pos) == Ok::<(TypeAnnotationView, int), Error>(
            (t, pos + type_annotation_bytes(t)->Ok_0.len()),
        ),
{
    let a = target_type_bytes(t.target_type)->Ok_0;
    let b = counted8(type_path_element_format(), t.target_path)->Ok_0;
    let c = annotation_bytes(t.annotation)->Ok_0;
    lemma_split(s, pos, a + b, c);
    lemma_split(s, pos, a, b);
    lemma_read_target_type(t.target_type, s, pos);
    assert forall|i: int| 0 <= i < t.target_path.len() implies reads_back(
        type_path_element_format(),
        type_path_element_item(),
        #[trigger] t.target_path[i],
    ) by {
        lemma_type_path_element_reads_back(t.target_path[i]);
    }
    lemma_read_counted8(
        type_path_element_format(),
        type_path_element_item(),
        t.target_path,
        s,
        pos + a.len(),
    );
    lemma_read_annotation(t.annotation, s, pos + a.len() + b.len());
}

/// A counted list of type annotations is read as it was written.
pub proof fn lemma_read_type_annotations(v: Seq<TypeAnnotationView>, s: Seq<u8>, pos: int)
    requires
        forall|i: int| 0 <= i < v.len() ==> proper_type_annotation(#[trigger] v[i]),
        type_annotations_bytes(v) is Ok,
        holds_at(s, pos, type_annotations_bytes(v)->Ok_0),
    ensures
        type_annotations_at(s, pos) == Ok::<(Seq<TypeAnnotationView>, int), Error>(
            (v, pos + type_annotations_bytes(v)->Ok_0.len()),
        ),
{
    assert forall|i: int| 0 <= i < v.len() implies reads_back(
        type_annotation_format(),
        type_annotation_item(),
        #[trigger] v[i],
    ) by {
        let t = v[i];
        if type_annotation_bytes(t) is Ok {
            assert forall|s2: Seq<u8>, pos2: int| #[trigger]
                holds_at(s2, pos2, type_annotation_bytes(t)->Ok_0) implies type_annotation_at(
                s2,
                pos2,
            ) == Ok::<(TypeAnnotationView, int), Error>(
                (t, pos2 + type_annotation_bytes(t)->Ok_0.len()),
            ) by {
                lemma_read_type_annotation(t, s2, pos2);
            }
        }
    }
    lemma_read_counted16(type_annotation_format(), type_annotation_item(), v, s, pos);
}

} // verus!
