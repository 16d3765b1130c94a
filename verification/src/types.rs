//! Field and method descriptors: their grammar, read from a string and
//! written back to one.

use vstd::prelude::*;
use vstd::string::StringExecFns;
use std::str::FromStr;
use crate::result::Error;
use crate::text::{collect, string_push, to_chars};

verus! {

/// All types present in a type descriptor.
#[derive(Eq, PartialEq, Debug)]
pub enum Type {
    Boolean,
    Byte,
    Short,
    Int,
    Long,
    Float,
    Double,
    Char,
    Reference(String),
}

/// A `Type`, with the name of a reference as a sequence of chars.
pub enum TypeView {
    Boolean,
    Byte,
    Short,
    Int,
    Long,
    Float,
    Double,
    Char,
    Reference(Seq<char>),
}

impl View for Type {
    type V = TypeView;

    open spec fn view(&self) -> TypeView {
        match *self {
            Type::Boolean => TypeView::Boolean,
            Type::Byte => TypeView::Byte,
            Type::Short => TypeView::Short,
            Type::Int => TypeView::Int,
            Type::Long => TypeView::Long,
            Type::Float => TypeView::Float,
            Type::Double => TypeView::Double,
            Type::Char => TypeView::Char,
            Type::Reference(name) => TypeView::Reference(name@),
        }
    }
}

/// A `TypeDescriptor` is either a field descriptor,
/// a single type (parameter or return type) of a method,
/// or an element value of an annotation.
#[derive(Eq, PartialEq, Debug)]
pub struct TypeDescriptor {
    /// The dimensions of the type.
    pub dimensions: u8,
    /// The base type.
    pub base_type: Type,
}

/// What a type descriptor holds, as mathematical values.
pub struct TypeDescriptorView {
    pub dimensions: u8,
    pub base_type: TypeView,
}

impl View for TypeDescriptor {
    type V = TypeDescriptorView;

    open spec fn view(&self) -> TypeDescriptorView {
        TypeDescriptorView { dimensions: self.dimensions, base_type: self.base_type@ }
    }
}

/// The descriptor of a method: the types of its parameters, and the type it returns, if any.
#[derive(Eq, PartialEq, Debug)]
pub struct MethodDescriptor {
    /// The parameter types of the method.
    pub params: Vec<TypeDescriptor>,
    /// The return type of the method.
    /// None indicates 'void'.
    pub return_type: Option<TypeDescriptor>,
}

/// What a method descriptor holds, as mathematical values.
pub struct MethodDescriptorView {
    pub params: Seq<TypeDescriptorView>,
    pub return_type: Option<TypeDescriptorView>,
}

impl View for MethodDescriptor {
    type V = MethodDescriptorView;

    open spec fn view(&self) -> MethodDescriptorView {
        MethodDescriptorView {
            params: Seq::new(self.params@.len(), |i: int| self.params@[i]@),
            return_type: match self.return_type {
                Some(t) => Some(t@),
                None => None,
            },
        }
    }
}

/// The number of `[` that stand at `pos` in a row.
pub open spec fn brackets(s: Seq<char>, pos: int) -> nat
    decreases s.len() - pos,
{
    if 0 <= pos < s.len() && s[pos] == '[' {
        1 + brackets(s, pos + 1)
    } else {
        0
    }
}

/// The offset of the first `;` at or behind `pos`.
pub open spec fn semicolon(s: Seq<char>, pos: int) -> Option<int>
    decreases s.len() - pos,
{
    if pos < 0 || pos >= s.len() {
        None
    } else if s[pos] == ';' {
        Some(pos)
    } else {
        semicolon(s, pos + 1)
    }
}

/// The primitive type that a tag stands for.
pub open spec fn primitive(c: char) -> Option<TypeView> {
    if c == 'Z' {
        Some(TypeView::Boolean)
    } else if c == 'B' {
        Some(TypeView::Byte)
    } else if c == 'S' {
        Some(TypeView::Short)
    } else if c == 'I' {
        Some(TypeView::Int)
    } else if c == 'J' {
        Some(TypeView::Long)
    } else if c == 'F' {
        Some(TypeView::Float)
    } else if c == 'D' {
        Some(TypeView::Double)
    } else if c == 'C' {
        Some(TypeView::Char)
    } else {
        None
    }
}

/// Where `brackets` stops: every char that it counted is a `[`, and the
/// one behind them is none.
pub proof fn lemma_brackets(s: Seq<char>, pos: int)
    requires
        0 <= pos,
    ensures
        pos + brackets(s, pos) <= s.len() || brackets(s, pos) == 0,
        forall|k: int| pos <= k < pos + brackets(s, pos) ==> s[k] == '[',
        pos + brackets(s, pos) < s.len() ==> s[pos + brackets(s, pos)] != '[',
    decreases s.len() - pos,
{
    if pos < s.len() && s[pos] == '[' {
        lemma_brackets(s, pos + 1);
    }
}

/// What `semicolon` finds: the first `;` from `pos` on.
pub proof fn lemma_semicolon(s: Seq<char>, pos: int)
    ensures
        match semicolon(s, pos) {
            Some(k) => 0 <= pos <= k < s.len() && s[k] == ';' && forall|j: int|
                pos <= j < k ==> s[j] != ';',
            None => 0 <= pos ==> forall|j: int| pos <= j < s.len() ==> s[j] != ';',
        },
    decreases s.len() - pos,
{
    if 0 <= pos < s.len() && s[pos] != ';' {
        lemma_semicolon(s, pos + 1);
    }
}

/// A type takes at least one char, and ends within the string.
pub proof fn lemma_type_at_bounds(s: Seq<char>, pos: int)
    ensures
        match type_at(s, pos) {
            Ok((t, next)) => pos < next <= s.len(),
            Err(at) => true,
        },
{
    lemma_semicolon(s, pos + brackets(s, pos) + 1);
}

/// The type that starts at `pos`, and the offset behind it; or the offset
/// at which the string stops being one.
///
/// More than 255 `[` fail at the 256th; a missing tag or a missing `;`
/// fails at the last char of the string; an empty name fails at its `;`;
/// any other tag than a primitive one or `L` fails where it stands.
pub open spec fn type_at(s: Seq<char>, pos: int) -> Result<(TypeDescriptorView, int), int> {
    let d = brackets(s, pos);
    if d > 255 {
        Err(pos + 255)
    } else if pos + d >= s.len() {
        Err(s.len() - 1)
    } else {
        let c = s[pos + d];
        if c == 'L' {
            match semicolon(s, pos + d + 1) {
                None => Err(s.len() - 1),
                Some(k) => if k == pos + d + 1 {
                    Err(k)
                } else {
                    Ok(
                        (
                            TypeDescriptorView {
                                dimensions: d as u8,
                                base_type: TypeView::Reference(s.subrange(pos + d + 1, k)),
                            },
                            k + 1,
                        ),
                    )
                },
            }
        } else {
            match primitive(c) {
                Some(t) => Ok((TypeDescriptorView { dimensions: d as u8, base_type: t }, pos + d + 1)),
                None => Err(pos + d),
            }
        }
    }
}

/// The type descriptor that a string is, or the offset at which it stops
/// being one: a string of nothing but `[` fails at its end, and chars
/// behind the type fail at the type's last char.
pub open spec fn type_descriptor(s: Seq<char>) -> Result<TypeDescriptorView, int> {
    if brackets(s, 0) <= 255 && brackets(s, 0) == s.len() {
        Err(s.len() as int)
    } else {
        match type_at(s, 0) {
            Ok((t, next)) => if next == s.len() {
                Ok(t)
            } else {
                Err(next - 1)
            },
            Err(at) => Err(at),
        }
    }
}

/// The parameter types from `pos` up to the closing `)`, behind those of
/// `acc`, and the offset behind the `)`.
pub open spec fn params_from(s: Seq<char>, pos: int, acc: Seq<TypeDescriptorView>) -> Result<
    (Seq<TypeDescriptorView>, int),
    int,
>
    decreases s.len() - pos,
{
    if 0 <= pos < s.len() && s[pos] == ')' {
        Ok((acc, pos + 1))
    } else {
        match type_at(s, pos) {
            Ok((t, next)) => {
                proof {
                    lemma_type_at_bounds(s, pos);
                }
                params_from(s, next, acc.push(t))
            },
            Err(at) => Err(at),
        }
    }
}

/// The return type at `pos`: `V` for none, or a type.
pub open spec fn return_at(s: Seq<char>, pos: int) -> Result<(Option<TypeDescriptorView>, int), int> {
    if 0 <= pos < s.len() && s[pos] == 'V' {
        Ok((None, pos + 1))
    } else {
        match type_at(s, pos) {
            Ok((t, next)) => Ok((Some(t), next)),
            Err(at) => Err(at),
        }
    }
}

/// The method descriptor that a string is, or the offset at which it
/// stops being one: `(`, the parameter types, `)`, the return type, and
/// nothing else; more than 255 parameters, and chars behind the return
/// type, fail at the return type's last char.
pub open spec fn method_descriptor(s: Seq<char>) -> Result<MethodDescriptorView, int> {
    if s.len() == 0 || s[0] != '(' {
        Err(0)
    } else {
        match params_from(s, 1, Seq::empty()) {
            Ok((params, pos)) => match return_at(s, pos) {
                Ok((return_type, next)) => if next != s.len() || params.len() > 255 {
                    Err(next - 1)
                } else {
                    Ok(MethodDescriptorView { params, return_type })
                },
                Err(at) => Err(at),
            },
            Err(at) => Err(at),
        }
    }
}

/// `n` times `[`.
pub open spec fn open_brackets(n: nat) -> Seq<char> {
    Seq::new(n, |i: int| '[')
}

/// A base type as it is written.
pub open spec fn format_base(t: TypeView) -> Seq<char> {
    match t {
        TypeView::Boolean => seq!['Z'],
        TypeView::Byte => seq!['B'],
        TypeView::Short => seq!['S'],
        TypeView::Int => seq!['I'],
        TypeView::Long => seq!['J'],
        TypeView::Float => seq!['F'],
        TypeView::Double => seq!['D'],
        TypeView::Char => seq!['C'],
        TypeView::Reference(name) => seq!['L'] + name + seq![';'],
    }
}

/// A type descriptor as it is written.
pub open spec fn format_type(t: TypeDescriptorView) -> Seq<char> {
    open_brackets(t.dimensions as nat) + format_base(t.base_type)
}

/// Parameter types as they are written, one behind the other.
pub open spec fn format_params(params: Seq<TypeDescriptorView>) -> Seq<char>
    decreases params.len(),
{
    if params.len() == 0 {
        Seq::empty()
    } else {
        format_params(params.drop_last()) + format_type(params.last())
    }
}

/// A method descriptor as it is written.
pub open spec fn format_method(m: MethodDescriptorView) -> Seq<char> {
    seq!['('] + format_params(m.params) + seq![')'] + (match m.return_type {
        Some(t) => format_type(t),
        None => seq!['V'],
    })
}

/// A type that was read is, written again, the chars it was read from.
pub proof fn lemma_type_at_format(s: Seq<char>, pos: int)
    requires
        0 <= pos,
        type_at(s, pos) is Ok,
    ensures
        format_type(type_at(s, pos)->Ok_0.0) == s.subrange(pos, type_at(s, pos)->Ok_0.1),
{
    let d = brackets(s, pos);
    let (t, next) = type_at(s, pos)->Ok_0;
    lemma_brackets(s, pos);
    lemma_semicolon(s, pos + d + 1);
    assert(s.subrange(pos, pos + d) =~= open_brackets(d));
    assert(s.subrange(pos, next) =~= s.subrange(pos, pos + d) + s.subrange(pos + d, next));
    if s[pos + d] == 'L' {
        let k = semicolon(s, pos + d + 1)->Some_0;
        assert(s.subrange(pos + d, next) =~= seq!['L'] + s.subrange(pos + d + 1, k) + seq![';']);
    } else {
        assert(s.subrange(pos + d, next) =~= seq![s[pos + d]]);
    }
}

/// A string that is a type descriptor is what its descriptor is written as.
pub proof fn lemma_format_type_descriptor(s: Seq<char>)
    requires
        type_descriptor(s) is Ok,
    ensures
        format_type(type_descriptor(s)->Ok_0) == s,
{
    lemma_type_at_format(s, 0);
    assert(s.subrange(0, s.len() as int) =~= s);
}

/// A type descriptor that was read from some string is read again from what
/// it is written as.
pub proof fn lemma_type_descriptor_round_trip(s: Seq<char>)
    requires
        type_descriptor(s) is Ok,
    ensures
        type_descriptor(format_type(type_descriptor(s)->Ok_0)) == type_descriptor(s),
{
    lemma_format_type_descriptor(s);
}

/// Parameter types that were read are, written again, the chars they were
/// read from: those up to the closing `)`.
pub proof fn lemma_params_format(s: Seq<char>, pos: int, acc: Seq<TypeDescriptorView>)
    requires
        0 <= pos,
        params_from(s, pos, acc) is Ok,
    ensures
        ({
            let (params, next) = params_from(s, pos, acc)->Ok_0;
            &&& pos < next <= s.len()
            &&& format_params(params) + seq![')'] == format_params(acc) + s.subrange(pos, next)
        }),
    decreases s.len() - pos,
{
    let (params, end) = params_from(s, pos, acc)->Ok_0;
    if pos < s.len() && s[pos] == ')' {
        assert(s.subrange(pos, pos + 1) =~= seq![')']);
    } else {
        let (t, next) = type_at(s, pos)->Ok_0;
        lemma_type_at_bounds(s, pos);
        lemma_type_at_format(s, pos);
        lemma_params_format(s, next, acc.push(t));
        assert(acc.push(t).drop_last() =~= acc);
        assert(format_params(acc.push(t)) == format_params(acc) + format_type(t));
        assert(format_params(acc) + s.subrange(pos, end) =~= format_params(acc) + s.subrange(
            pos,
            next,
        ) + s.subrange(next, end));
    }
}

/// A string that is a method descriptor is what its descriptor is written as.
pub proof fn lemma_format_method_descriptor(s: Seq<char>)
    requires
        method_descriptor(s) is Ok,
    ensures
        format_method(method_descriptor(s)->Ok_0) == s,
{
    let m = method_descriptor(s)->Ok_0;
    let (params, pos) = params_from(s, 1, Seq::empty())->Ok_0;
    let (return_type, next) = return_at(s, pos)->Ok_0;
    lemma_params_format(s, 1, Seq::empty());
    assert(format_params(Seq::<TypeDescriptorView>::empty()) + s.subrange(1, pos) =~= s.subrange(
        1,
        pos,
    ));
    if s[pos] == 'V' {
        assert(s.subrange(pos, next) =~= seq!['V']);
    } else {
        lemma_type_at_format(s, pos);
    }
    assert(s =~= seq!['('] + s.subrange(1, pos) + s.subrange(pos, next));
    assert(format_method(m) =~= seq!['('] + (format_params(params) + seq![')']) + s.subrange(
        pos,
        next,
    ));
}

/// A method descriptor that was read from some string is read again from
/// what it is written as.
pub proof fn lemma_method_descriptor_round_trip(s: Seq<char>)
    requires
        method_descriptor(s) is Ok,
    ensures
        method_descriptor(format_method(method_descriptor(s)->Ok_0)) == method_descriptor(s),
{
    lemma_format_method_descriptor(s);
}

/// A type descriptor that can be written and read again: a reference has a
/// name, and no `;` in it.
pub open spec fn valid_type(t: TypeDescriptorView) -> bool {
    t.base_type matches TypeView::Reference(name) ==> name.len() > 0 && forall|i: int|
        0 <= i < name.len() ==> name[i] != ';'
}

/// A method descriptor that can be written and read again: it has at most
/// 255 parameters, and each of its types is valid.
pub open spec fn valid_method(m: MethodDescriptorView) -> bool {
    &&& m.params.len() <= 255
    &&& forall|i: int| 0 <= i < m.params.len() ==> valid_type(#[trigger] m.params[i])
    &&& m.return_type matches Some(t) ==> valid_type(t)
}

/// `d` times `[`, and then another char, are counted as `d`.
proof fn lemma_brackets_count(s: Seq<char>, pos: int, d: nat)
    requires
        0 <= pos,
        pos + d < s.len(),
        forall|k: int| pos <= k < pos + d ==> s[k] == '[',
        s[pos + d] != '[',
    ensures
        brackets(s, pos) == d,
    decreases d,
{
    if d > 0 {
        lemma_brackets_count(s, pos + 1, (d - 1) as nat);
    }
}

/// A `;` with none before it, from `pos` on, is the one that is found.
proof fn lemma_semicolon_found(s: Seq<char>, pos: int, k: int)
    requires
        0 <= pos <= k < s.len(),
        forall|j: int| pos <= j < k ==> s[j] != ';',
        s[k] == ';',
    ensures
        semicolon(s, pos) == Some(k),
    decreases k - pos,
{
    if pos < k {
        lemma_semicolon_found(s, pos + 1, k);
    }
}

/// A base type is written with a first char that is no `[`, no `)` and no `V`.
proof fn lemma_format_base_first(t: TypeView)
    ensures
        format_base(t).len() >= 1,
        format_base(t)[0] != '[',
        format_base(t)[0] != ')',
        format_base(t)[0] != 'V',
        !(t is Reference) ==> format_base(t).len() == 1 && primitive(format_base(t)[0]) == Some(t)
            && format_base(t)[0] != 'L',
        t is Reference ==> format_base(t)[0] == 'L',
{
}

/// A valid type, written, is read as itself, whatever stands before and
/// behind it.
pub proof fn lemma_read_written_type(t: TypeDescriptorView, pre: Seq<char>, post: Seq<char>)
    requires
        valid_type(t),
    ensures
        type_at(pre + format_type(t) + post, pre.len() as int) == Ok::<(TypeDescriptorView, int), int>(
            (t, (pre.len() + format_type(t).len()) as int),
        ),
{
    let s = pre + format_type(t) + post;
    let pos = pre.len() as int;
    let d = t.dimensions as nat;
    let base = format_base(t.base_type);
    lemma_format_base_first(t.base_type);
    assert(forall|k: int| 0 <= k < d ==> s[pos + k] == open_brackets(d)[k]);
    assert(forall|k: int| 0 <= k < base.len() ==> s[pos + d + k] == base[k]);
    assert(s[pos + d] == base[0]);
    lemma_brackets_count(s, pos, d);
    match t.base_type {
        TypeView::Reference(name) => {
            let k = pos + d + 1 + name.len();
            assert(base[1 + name.len() as int] == ';');
            assert(s[k] == base[1 + name.len() as int]);
            assert forall|j: int| pos + d + 1 <= j < k implies s[j] != ';' by {
                assert(s[j] == base[j - pos - d]);
                assert(base[j - pos - d] == name[j - pos - d - 1]);
            }
            lemma_semicolon_found(s, pos + d + 1, k);
            assert(s.subrange(pos + d + 1, k) =~= name);
        },
        _ => {},
    }
}

/// A valid type descriptor, written, is read as itself.
pub proof fn lemma_type_descriptor_read_back(t: TypeDescriptorView)
    requires
        valid_type(t),
    ensures
        type_descriptor(format_type(t)) == Ok::<TypeDescriptorView, int>(t),
{
    let s = format_type(t);
    lemma_read_written_type(t, Seq::empty(), Seq::empty());
    assert(Seq::<char>::empty() + s + Seq::<char>::empty() =~= s);
    lemma_format_base_first(t.base_type);
    lemma_brackets(s, 0);
    if brackets(s, 0) == s.len() {
        let d = t.dimensions as int;
        assert(s[d] == format_base(t.base_type)[0]);
    }
}

/// Parameters are written one behind the other.
proof fn lemma_format_params_front(t: TypeDescriptorView, rest: Seq<TypeDescriptorView>)
    ensures
        format_params(seq![t] + rest) == format_type(t) + format_params(rest),
    decreases rest.len(),
{
    let all = seq![t] + rest;
    if rest.len() == 0 {
        assert(all.drop_last() =~= Seq::<TypeDescriptorView>::empty());
        assert(all.last() == t);
        assert(format_params(Seq::<TypeDescriptorView>::empty()) =~= Seq::<char>::empty());
        assert(format_params(all) =~= format_type(t));
        assert(format_type(t) + format_params(rest) =~= format_type(t));
    } else {
        lemma_format_params_front(t, rest.drop_last());
        assert(all.drop_last() =~= seq![t] + rest.drop_last());
        assert(all.last() == rest.last());
        assert(format_params(all) =~= format_type(t) + (format_params(rest.drop_last())
            + format_type(rest.last())));
    }
}

/// Valid parameters, written and closed by `)`, are read as themselves.
proof fn lemma_read_written_params(
    rest: Seq<TypeDescriptorView>,
    pre: Seq<char>,
    post: Seq<char>,
    acc: Seq<TypeDescriptorView>,
)
    requires
        forall|i: int| 0 <= i < rest.len() ==> valid_type(#[trigger] rest[i]),
    ensures
        params_from(pre + format_params(rest) + seq![')'] + post, pre.len() as int, acc) == Ok::<
            (Seq<TypeDescriptorView>, int),
            int,
        >((acc + rest, (pre.len() + format_params(rest).len() + 1) as int)),
    decreases rest.len(),
{
    let s = pre + format_params(rest) + seq![')'] + post;
    let pos = pre.len() as int;
    if rest.len() == 0 {
        assert(s[pos] == ')');
        assert(acc + rest =~= acc);
    } else {
        let t = rest[0];
        let tail = rest.drop_first();
        assert(rest =~= seq![t] + tail);
        lemma_format_params_front(t, tail);
        let written = format_type(t);
        lemma_format_base_first(t.base_type);
        assert(written[0] != ')') by {
            if t.dimensions == 0 {
                assert(written[0] == format_base(t.base_type)[0]);
            } else {
                assert(written[0] == open_brackets(t.dimensions as nat)[0]);
            }
        }
        assert(s[pos] == written[0]);
        let behind = format_params(tail) + seq![')'] + post;
        assert(s =~= pre + written + behind);
        lemma_read_written_type(t, pre, behind);
        assert(s =~= (pre + written) + format_params(tail) + seq![')'] + post);
        lemma_read_written_params(tail, pre + written, post, acc.push(t));
        assert(acc.push(t) + tail =~= acc + rest);
    }
}

/// A valid method descriptor, written, is read as itself.
pub proof fn lemma_method_descriptor_read_back(m: MethodDescriptorView)
    requires
        valid_method(m),
    ensures
        method_descriptor(format_method(m)) == Ok::<MethodDescriptorView, int>(m),
{
    let s = format_method(m);
    let params = format_params(m.params);
    let ret = match m.return_type {
        Some(t) => format_type(t),
        None => seq!['V'],
    };
    assert(s[0] == '(');
    assert(s =~= seq!['('] + params + seq![')'] + ret);
    lemma_read_written_params(m.params, seq!['('], ret, Seq::empty());
    assert(Seq::<TypeDescriptorView>::empty() + m.params =~= m.params);
    let pos = 1 + params.len() + 1;
    match m.return_type {
        Some(t) => {
            lemma_format_base_first(t.base_type);
            assert(ret[0] != 'V') by {
                if t.dimensions == 0 {
                    assert(ret[0] == format_base(t.base_type)[0]);
                } else {
                    assert(ret[0] == open_brackets(t.dimensions as nat)[0]);
                }
            }
            assert(s[pos as int] == ret[0]);
            assert(s =~= (seq!['('] + params + seq![')']) + ret + Seq::<char>::empty());
            lemma_read_written_type(t, seq!['('] + params + seq![')'], Seq::empty());
        },
        None => {
            assert(s[pos as int] == 'V');
        },
    }
}

/// The number of `[` from `pos` on.
fn count_brackets(s: &Vec<char>, pos: usize) -> (d: usize)
    requires
        pos <= s@.len(),
    ensures
        d == brackets(s@, pos as int),
        pos + d <= s@.len(),
{
    let mut i = pos;
    while i < s.len() && s[i] == '['
        invariant
            pos <= i <= s@.len(),
            brackets(s@, pos as int) == (i - pos) + brackets(s@, i as int),
        decreases s@.len() - i,
    {
        i += 1;
    }
    i - pos
}

/// The position of the first `;` at or behind `pos`, if there is one.
fn find_semicolon(s: &Vec<char>, pos: usize) -> (r: Option<usize>)
    requires
        pos <= s@.len(),
    ensures
        match semicolon(s@, pos as int) {
            Some(k) => r == Some(k as usize) && pos <= k < s@.len(),
            None => r is None,
        },
{
    let mut i = pos;
    while i < s.len()
        invariant
            pos <= i <= s@.len(),
            semicolon(s@, pos as int) == semicolon(s@, i as int),
        decreases s@.len() - i,
    {
        if s[i] == ';' {
            return Some(i);
        }
        i += 1;
    }
    None
}

/// The primitive type of a letter, if it is one.
fn primitive_of(c: char) -> (r: Option<Type>)
    ensures
        match primitive(c) {
            Some(t) => r is Some && r->Some_0@ == t,
            None => r is None,
        },
{
    if c == 'Z' {
        Some(Type::Boolean)
    } else if c == 'B' {
        Some(Type::Byte)
    } else if c == 'S' {
        Some(Type::Short)
    } else if c == 'I' {
        Some(Type::Int)
    } else if c == 'J' {
        Some(Type::Long)
    } else if c == 'F' {
        Some(Type::Float)
    } else if c == 'D' {
        Some(Type::Double)
    } else if c == 'C' {
        Some(Type::Char)
    } else {
        None
    }
}

/// Reads the type that starts at `pos`.
fn parse_type_at(s: &Vec<char>, pos: usize) -> (r: Result<(TypeDescriptor, usize), usize>)
    requires
        pos <= s@.len(),
        s@.len() > 0,
    ensures
        match type_at(s@, pos as int) {
            Ok((t, next)) => r is Ok && r->Ok_0.0@ == t && r->Ok_0.1 == next && pos < next <= s@.len(),
            Err(at) => r is Err && r->Err_0 == at && at < s@.len(),
        },
{
    proof {
        lemma_type_at_bounds(s@, pos as int);
    }
    let len = s.len();
    let d = count_brackets(s, pos);
    if d > 255 {
        return Err(pos + 255);
    }
    if pos + d >= s.len() {
        return Err(s.len() - 1);
    }
    let c = s[pos + d];
    if c == 'L' {
        match find_semicolon(s, pos + d + 1) {
            None => Err(s.len() - 1),
            Some(k) => if k == pos + d + 1 {
                Err(k)
            } else {
                let name = collect(s, pos + d + 1, k);
                Ok((TypeDescriptor { dimensions: d as u8, base_type: Type::Reference(name) }, k + 1))
            },
        }
    } else {
        match primitive_of(c) {
            Some(t) => Ok((TypeDescriptor { dimensions: d as u8, base_type: t }, pos + d + 1)),
            None => Err(pos + d),
        }
    }
}

/// The error for the descriptor `desc`, found at `at`.
fn invalid(desc: &str, at: usize) -> (e: Error)
    ensures
        e matches Error::InvalidDescriptor { desc: d, at: a } && d@ == desc@ && a == at,
{
    Error::InvalidDescriptor { desc: desc.to_owned(), at }
}

impl TypeDescriptor {
    /// A descriptor of these parts.
    pub fn new(dimensions: u8, base_type: Type) -> (t: TypeDescriptor)
        ensures
            t.dimensions == dimensions,
            t.base_type == base_type,
    {
        TypeDescriptor { dimensions, base_type }
    }

    /// Parses a string and returns a TypeDescriptor if it is one; else
    /// `InvalidDescriptor` with the string and the offset of the char at
    /// which it stops being one.
    pub fn from_str(desc: &str) -> (r: Result<TypeDescriptor, Error>)
        ensures
            match type_descriptor(desc@) {
                Ok(t) => r is Ok && r->Ok_0@ == t,
                Err(at) => r matches Err(Error::InvalidDescriptor { desc: d, at: a }) && d@ == desc@
                    && a == at,
            },
    {
        let chars = to_chars(desc);
        let d = count_brackets(&chars, 0);
        if d <= 255 && d == chars.len() {
            return Err(invalid(desc, d));
        }
        match parse_type_at(&chars, 0) {
            Ok((t, next)) => if next == chars.len() {
                Ok(t)
            } else {
                Err(invalid(desc, next - 1))
            },
            Err(at) => Err(invalid(desc, at)),
        }
    }

    /// Appends this descriptor, as it is written, to `out`.
    fn write_to(&self, out: &mut String)
        ensures
            final(out)@ == old(out)@ + format_type(self@),
    {
        let mut i: u8 = 0;
        while i < self.dimensions
            invariant
                i <= self.dimensions,
                out@ == old(out)@ + open_brackets(i as nat),
            decreases self.dimensions - i,
        {
            string_push(out, '[');
            i += 1;
            assert(out@ =~= old(out)@ + open_brackets(i as nat));
        }
        let ghost before = out@;
        match &self.base_type {
            Type::Boolean => string_push(out, 'Z'),
            Type::Byte => string_push(out, 'B'),
            Type::Short => string_push(out, 'S'),
            Type::Int => string_push(out, 'I'),
            Type::Long => string_push(out, 'J'),
            Type::Float => string_push(out, 'F'),
            Type::Double => string_push(out, 'D'),
            Type::Char => string_push(out, 'C'),
            Type::Reference(name) => {
                string_push(out, 'L');
                out.append(name.as_str());
                string_push(out, ';');
            },
        }
        assert(out@ =~= before + format_base(self.base_type@));
        assert(out@ =~= old(out)@ + format_type(self@));
    }

    /// Formats this descriptor.
    pub fn to_string(&self) -> (r: String)
        ensures
            r@ == format_type(self@),
    {
        let mut out = String::new();
        self.write_to(&mut out);
        assert(Seq::<char>::empty() + format_type(self@) =~= format_type(self@));
        out
    }
}

impl FromStr for TypeDescriptor {
    type Err = Error;

    /// Parses a string as the function of this name on the type does.
    fn from_str(desc: &str) -> (r: Result<TypeDescriptor, Error>)
        ensures
            match type_descriptor(desc@) {
                Ok(t) => r is Ok && r->Ok_0@ == t,
                Err(at) => r matches Err(Error::InvalidDescriptor { desc: d, at: a }) && d@ == desc@
                    && a == at,
            },
    {
        TypeDescriptor::from_str(desc)
    }
}

impl MethodDescriptor {
    /// A descriptor of these parts.
    pub fn new(params: Vec<TypeDescriptor>, return_type: Option<TypeDescriptor>) -> (m:
        MethodDescriptor)
        ensures
            m.params == params,
            m.return_type == return_type,
    {
        MethodDescriptor { params, return_type }
    }

    /// Parses a string and returns a MethodDescriptor if it is one; else
    /// `InvalidDescriptor` with the string and the offset of the char at
    /// which it stops being one.
    pub fn from_str(desc: &str) -> (r: Result<MethodDescriptor, Error>)
        ensures
            match method_descriptor(desc@) {
                Ok(m) => r is Ok && r->Ok_0@ == m,
                Err(at) => r matches Err(Error::InvalidDescriptor { desc: d, at: a }) && d@ == desc@
                    && a == at,
            },
    {
        let chars = to_chars(desc);
        if chars.len() == 0 || chars[0] != '(' {
            return Err(invalid(desc, 0));
        }
        let mut params: Vec<TypeDescriptor> = Vec::new();
        let mut pos: usize = 1;
        let ghost mut acc: Seq<TypeDescriptorView> = Seq::empty();
        loop
            invariant_except_break
                1 <= pos <= chars@.len(),
                chars@[0] == '(',
                chars@ == desc@,
                acc == Seq::new(params@.len(), |i: int| params@[i]@),
                params_from(chars@, 1, Seq::empty()) == params_from(chars@, pos as int, acc),
            ensures
                1 <= pos <= chars@.len(),
                chars@[0] == '(',
                chars@ == desc@,
                acc == Seq::new(params@.len(), |i: int| params@[i]@),
                params_from(chars@, 1, Seq::empty()) == Ok::<(Seq<TypeDescriptorView>, int), int>(
                    (acc, pos as int),
                ),
            decreases chars@.len() - pos,
        {
            if pos < chars.len() && chars[pos] == ')' {
                pos += 1;
                break ;
            }
            match parse_type_at(&chars, pos) {
                Ok((t, next)) => {
                    proof {
                        acc = acc.push(t@);
                    }
                    params.push(t);
                    pos = next;
                    assert(acc =~= Seq::new(params@.len(), |i: int| params@[i]@));
                },
                Err(at) => {
                    return Err(invalid(desc, at));
                },
            }
        }
        let (return_type, next) = if pos < chars.len() && chars[pos] == 'V' {
            (None, pos + 1)
        } else {
            match parse_type_at(&chars, pos) {
                Ok((t, next)) => (Some(t), next),
                Err(at) => {
                    return Err(invalid(desc, at));
                },
            }
        };
        if next != chars.len() || params.len() > 255 {
            return Err(invalid(desc, next - 1));
        }
        Ok(MethodDescriptor { params, return_type })
    }

    /// Formats this descriptor.
    pub fn to_string(&self) -> (r: String)
        ensures
            r@ == format_method(self@),
    {
        let mut out = String::new();
        string_push(&mut out, '(');
        let mut i: usize = 0;
        while i < self.params.len()
            invariant
                i <= self.params@.len(),
                out@ == seq!['('] + format_params(self@.params.take(i as int)),
            decreases self.params@.len() - i,
        {
            self.params[i].write_to(&mut out);
            assert(self@.params.take(i + 1).drop_last() =~= self@.params.take(i as int));
            assert(out@ =~= seq!['('] + format_params(self@.params.take(i + 1)));
            i += 1;
        }
        assert(self@.params.take(i as int) =~= self@.params);
        string_push(&mut out, ')');
        match &self.return_type {
            Some(t) => t.write_to(&mut out),
            None => string_push(&mut out, 'V'),
        }
        assert(out@ =~= format_method(self@));
        out
    }
}

impl FromStr for MethodDescriptor {
    type Err = Error;

    /// Parses a string as the function of this name on the type does.
    fn from_str(desc: &str) -> (r: Result<MethodDescriptor, Error>)
        ensures
            match method_descriptor(desc@) {
                Ok(m) => r is Ok && r->Ok_0@ == m,
                Err(at) => r matches Err(Error::InvalidDescriptor { desc: d, at: a }) && d@ == desc@
                    && a == at,
            },
    {
        MethodDescriptor::from_str(desc)
    }
}

} // verus!
