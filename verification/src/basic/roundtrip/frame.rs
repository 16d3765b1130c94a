//! Stack map frames and the parts of a module are read as they were written.

use vstd::prelude::*;
use super::super::parser::class::{
    bootstrap_method_at, bootstrap_method_item, export_at, export_item, provider_at, provider_item,
};
use super::super::parser::grammar::{counted16 as read_counted16, u16_item};
use super::super::parser::method::{
    stack_map_frame_at, stack_map_frame_item, verification_type_at, verification_type_item,
};
use super::super::result::Error;
use super::super::tree::{
    BootstrapMethodView, ExportView, ProviderView, StackMapFrameView, VerificationType,
};
use super::super::writer::attribute::{
    bootstrap_method_bytes, bootstrap_method_format, export_bytes, export_format, provider_bytes,
    provider_format, stack_map_frame_bytes, stack_map_frame_format, verification_type_bytes,
    verification_type_format,
};
use super::super::writer::encode::u16_bytes;
use super::super::writer::grammar::{all, counted16, u16_format};
use super::code::{lemma_read_u16, lemma_read_u8};
use super::{holds_at, lemma_read_counted16, lemma_read_each, lemma_split, reads_back};

verus! {

/// A `u16` is read as it was written.
pub proof fn lemma_u16_reads_back(n: u16)
    ensures
        reads_back(u16_format(), u16_item(), n),
{
    assert forall|s: Seq<u8>, pos: int| #[trigger] holds_at(s, pos, u16_bytes(n)) implies u16_item()(
        s,
        pos,
    ) == Ok::<(u16, int), Error>((n, pos + 2)) by {
        lemma_read_u16(s, pos, n);
    }
}

/// A counted list of `u16` is read as it was written.
pub proof fn lemma_read_u16_list(v: Seq<u16>, s: Seq<u8>, pos: int)
    requires
        counted16(u16_format(), v) is Ok,
        holds_at(s, pos, counted16(u16_format(), v)->Ok_0),
    ensures
        read_counted16(u16_item(), s, pos) == Ok::<(Seq<u16>, int), Error>(
            (v, pos + counted16(u16_format(), v)->Ok_0.len()),
        ),
{
    assert forall|i: int| 0 <= i < v.len() implies reads_back(
        u16_format(),
        u16_item(),
        #[trigger] v[i],
    ) by {
        lemma_u16_reads_back(v[i]);
    }
    lemma_read_counted16(u16_format(), u16_item(), v, s, pos);
}

/// A verification type is read as it was written.
pub proof fn lemma_read_verification_type(t: VerificationType, s: Seq<u8>, pos: int)
    requires
        holds_at(s, pos, verification_type_bytes(t)),
    ensures
        verification_type_at(s, pos) == Ok::<(VerificationType, int), Error>(
            (t, pos + verification_type_bytes(t).len()),
        ),
{
    let bytes = verification_type_bytes(t);
    assert(s[pos] == s.subrange(pos, pos + bytes.len())[0]);
    lemma_read_u8(s, pos, bytes[0]);
    match t {
        VerificationType::Object(i) => {
            lemma_split(s, pos, seq![7u8], u16_bytes(i));
            lemma_read_u16(s, pos + 1, i);
        },
        VerificationType::Uninitialized(i) => {
            lemma_split(s, pos, seq![8u8], u16_bytes(i));
            lemma_read_u16(s, pos + 1, i);
        },
        _ => {},
    }
}

/// A verification type is read as it was written.
pub proof fn lemma_verification_type_reads_back(t: VerificationType)
    ensures
        reads_back(verification_type_format(), verification_type_item(), t),
{
    assert forall|s: Seq<u8>, pos: int| #[trigger]
        holds_at(s, pos, verification_type_bytes(t)) implies verification_type_at(s, pos) == Ok::<
        (VerificationType, int),
        Error,
    >((t, pos + verification_type_bytes(t).len())) by {
        lemma_read_verification_type(t, s, pos);
    }
}

/// Each of some verification types is read as it was written.
pub proof fn lemma_verification_types_read_back(v: Seq<VerificationType>)
    ensures
        forall|i: int|
            0 <= i < v.len() ==> reads_back(
                verification_type_format(),
                verification_type_item(),
                #[trigger] v[i],
            ),
{
    assert forall|i: int| 0 <= i < v.len() implies reads_back(
        verification_type_format(),
        verification_type_item(),
        #[trigger] v[i],
    ) by {
        lemma_verification_type_reads_back(v[i]);
    }
}

/// A stack map frame is read as it was written.
pub proof fn lemma_read_stack_map_frame(f: StackMapFrameView, s: Seq<u8>, pos: int)
    requires
        stack_map_frame_bytes(f) is Ok,
        holds_at(s, pos, stack_map_frame_bytes(f)->Ok_0),
    ensures
        stack_map_frame_at(s, pos) == Ok::<(StackMapFrameView, int), Error>(
            (f, pos + stack_map_frame_bytes(f)->Ok_0.len()),
        ),
{
    let bytes = stack_map_frame_bytes(f)->Ok_0;
    match f {
        StackMapFrameView::Same { offset_delta } => {
            if offset_delta <= 63 {
                assert(s[pos] == s.subrange(pos, pos + 1)[0]);
                lemma_read_u8(s, pos, offset_delta as u8);
            } else {
                lemma_split(s, pos, seq![251u8], u16_bytes(offset_delta));
                assert(s[pos] == s.subrange(pos, pos + 1)[0]);
                lemma_read_u8(s, pos, 251);
                lemma_read_u16(s, pos + 1, offset_delta);
            }
        },
        StackMapFrameView::Same1 { offset_delta, stack } => {
            let t = verification_type_bytes(stack);
            if offset_delta <= 63 {
                lemma_split(s, pos, seq![(64 + offset_delta) as u8], t);
                assert(s[pos] == s.subrange(pos, pos + 1)[0]);
                lemma_read_u8(s, pos, (64 + offset_delta) as u8);
                lemma_read_verification_type(stack, s, pos + 1);
            } else {
                lemma_split(s, pos, seq![247u8] + u16_bytes(offset_delta), t);
                lemma_split(s, pos, seq![247u8], u16_bytes(offset_delta));
                assert(s[pos] == s.subrange(pos, pos + 1)[0]);
                lemma_read_u8(s, pos, 247);
                lemma_read_u16(s, pos + 1, offset_delta);
                lemma_read_verification_type(stack, s, pos + 3);
            }
        },
        StackMapFrameView::Chop { offset_delta, count } => {
            lemma_split(s, pos, seq![(251 - count) as u8], u16_bytes(offset_delta));
            assert(s[pos] == s.subrange(pos, pos + 1)[0]);
            lemma_read_u8(s, pos, (251 - count) as u8);
            lemma_read_u16(s, pos + 1, offset_delta);
        },
        StackMapFrameView::Append { offset_delta, locals } => {
            let items = all(verification_type_format(), locals)->Ok_0;
            let head = seq![(251 + locals.len()) as u8];
            lemma_split(s, pos, head + u16_bytes(offset_delta), items);
            lemma_split(s, pos, head, u16_bytes(offset_delta));
            assert(s[pos] == s.subrange(pos, pos + 1)[0]);
            lemma_read_u8(s, pos, (251 + locals.len()) as u8);
            lemma_read_u16(s, pos + 1, offset_delta);
            lemma_verification_types_read_back(locals);
            lemma_read_each(
                verification_type_format(),
                verification_type_item(),
                locals,
                0,
                s,
                pos + 3,
                Seq::empty(),
            );
            assert(Seq::<VerificationType>::empty() + locals.skip(0) =~= locals);
        },
        StackMapFrameView::Full { offset_delta, locals, stack } => {
            let a = counted16(verification_type_format(), locals)->Ok_0;
            let b = counted16(verification_type_format(), stack)->Ok_0;
            let head = seq![255u8] + u16_bytes(offset_delta);
            lemma_split(s, pos, head + a, b);
            lemma_split(s, pos, head, a);
            lemma_split(s, pos, seq![255u8], u16_bytes(offset_delta));
            assert(s[pos] == s.subrange(pos, pos + 1)[0]);
            lemma_read_u8(s, pos, 255);
            lemma_read_u16(s, pos + 1, offset_delta);
            lemma_verification_types_read_back(locals);
            lemma_verification_types_read_back(stack);
            lemma_read_counted16(
                verification_type_format(),
                verification_type_item(),
                locals,
                s,
                pos + 3,
            );
            lemma_read_counted16(
                verification_type_format(),
                verification_type_item(),
                stack,
                s,
                pos + 3 + a.len(),
            );
        },
    }
}

/// A stack map frame is read as it was written.
pub proof fn lemma_stack_map_frame_reads_back(f: StackMapFrameView)
    ensures
        reads_back(stack_map_frame_format(), stack_map_frame_item(), f),
{
    if stack_map_frame_bytes(f) is Ok {
        assert forall|s: Seq<u8>, pos: int| #[trigger]
            holds_at(s, pos, stack_map_frame_bytes(f)->Ok_0) implies stack_map_frame_at(s, pos)
            == Ok::<(StackMapFrameView, int), Error>(
            (f, pos + stack_map_frame_bytes(f)->Ok_0.len()),
        ) by {
            lemma_read_stack_map_frame(f, s, pos);
        }
    }
}

/// A bootstrap method is read as it was written.
pub proof fn lemma_bootstrap_method_reads_back(b: BootstrapMethodView)
    ensures
        reads_back(bootstrap_method_format(), bootstrap_method_item(), b),
{
    if bootstrap_method_bytes(b) is Ok {
        assert forall|s: Seq<u8>, pos: int| #[trigger]
            holds_at(s, pos, bootstrap_method_bytes(b)->Ok_0) implies bootstrap_method_at(s, pos)
            == Ok::<(BootstrapMethodView, int), Error>(
            (b, pos + bootstrap_method_bytes(b)->Ok_0.len()),
        ) by {
            let list = counted16(u16_format(), b.arguments)->Ok_0;
            lemma_split(s, pos, u16_bytes(b.method_ref), list);
            lemma_read_u16(s, pos, b.method_ref);
            lemma_read_u16_list(b.arguments, s, pos + 2);
        }
    }
}

/// An exported or opened package is read as it was written.
pub proof fn lemma_export_reads_back(e: ExportView)
    ensures
        reads_back(export_format(), export_item(), e),
{
    if export_bytes(e) is Ok {
        assert forall|s: Seq<u8>, pos: int| #[trigger]
            holds_at(s, pos, export_bytes(e)->Ok_0) implies export_at(s, pos) == Ok::<
            (ExportView, int),
            Error,
        >((e, pos + export_bytes(e)->Ok_0.len())) by {
            let list = counted16(u16_format(), e.to)->Ok_0;
            lemma_split(s, pos, u16_bytes(e.index) + u16_bytes(e.flags.bits), list);
            lemma_split(s, pos, u16_bytes(e.index), u16_bytes(e.flags.bits));
            lemma_read_u16(s, pos, e.index);
            lemma_read_u16(s, pos + 2, e.flags.bits);
            lemma_read_u16_list(e.to, s, pos + 4);
        }
    }
}

/// A provided service is read as it was written.
pub proof fn lemma_provider_reads_back(p: ProviderView)
    ensures
        reads_back(provider_format(), provider_item(), p),
{
    if provider_bytes(p) is Ok {
        assert forall|s: Seq<u8>, pos: int| #[trigger]
            holds_at(s, pos, provider_bytes(p)->Ok_0) implies provider_at(s, pos) == Ok::<
            (ProviderView, int),
            Error,
        >((p, pos + provider_bytes(p)->Ok_0.len())) by {
            let list = counted16(u16_format(), p.with)->Ok_0;
            lemma_split(s, pos, u16_bytes(p.index), list);
            lemma_read_u16(s, pos, p.index);
            lemma_read_u16_list(p.with, s, pos + 2);
        }
    }
}

} // verus!
