//! The attributes of methods and of their code.

use vstd::prelude::*;
use super::super::result::Error;
use super::super::tree::{
    views, AccessFlags, Attribute, AttributeView, LineNumber, LocalVariable, LocalVariableType,
    MethodParameter, StackMapFrame, StackMapFrameView, VerificationType,
};
use super::decode::{u16_at, u8_at, Decoder};
use super::grammar::{
    counted16, fits, flags_in, mapped, parse_u16_list, parses, repeat, u16_in, u16_item, Grammar, Parsed,
};

verus! {

/// The `Exceptions` attribute: a counted list of class indices.
pub open spec fn exceptions_at(s: Seq<u8>, pos: int) -> Parsed<AttributeView> {
    mapped(counted16(u16_item(), s, pos), |v: Seq<u16>| AttributeView::Exceptions(v))
}

/// An entry of the `LineNumberTable`: four bytes.
pub open spec fn line_number_at(s: Seq<u8>, pos: int) -> Parsed<LineNumber> {
    if fits(s, pos, 4) {
        Ok((LineNumber { start: u16_in(s, pos), line_number: u16_in(s, pos + 2) }, pos + 4))
    } else {
        Err(Error::LimitExceeded)
    }
}

/// The grammar of a line number.
pub open spec fn line_number_item() -> Grammar<LineNumber> {
    |s: Seq<u8>, pos: int| line_number_at(s, pos)
}

/// The `LineNumberTable` attribute: a counted list of its entries.
pub open spec fn line_number_table_at(s: Seq<u8>, pos: int) -> Parsed<AttributeView> {
    mapped(
        counted16(line_number_item(), s, pos),
        |v: Seq<LineNumber>| AttributeView::LineNumberTable(v),
    )
}

/// An entry of the `LocalVariableTable`: ten bytes.
pub open spec fn local_variable_at(s: Seq<u8>, pos: int) -> Parsed<LocalVariable> {
    if fits(s, pos, 10) {
        Ok(
            (
                LocalVariable {
                    start: u16_in(s, pos),
                    length: u16_in(s, pos + 2),
                    name: u16_in(s, pos + 4),
                    descriptor: u16_in(s, pos + 6),
                    index: u16_in(s, pos + 8),
                },
                pos + 10,
            ),
        )
    } else {
        Err(Error::LimitExceeded)
    }
}

/// The grammar of a local variable.
pub open spec fn local_variable_item() -> Grammar<LocalVariable> {
    |s: Seq<u8>, pos: int| local_variable_at(s, pos)
}

/// The `LocalVariableTable` attribute: a counted list of its entries.
pub open spec fn local_variable_table_at(s: Seq<u8>, pos: int) -> Parsed<AttributeView> {
    mapped(
        counted16(local_variable_item(), s, pos),
        |v: Seq<LocalVariable>| AttributeView::LocalVariableTable(v),
    )
}

/// An entry of the `LocalVariableTypeTable`: ten bytes.
pub open spec fn local_variable_type_at(s: Seq<u8>, pos: int) -> Parsed<LocalVariableType> {
    if fits(s, pos, 10) {
        Ok(
            (
                LocalVariableType {
                    start: u16_in(s, pos),
                    length: u16_in(s, pos + 2),
                    name: u16_in(s, pos + 4),
                    signature: u16_in(s, pos + 6),
                    index: u16_in(s, pos + 8),
                },
                pos + 10,
            ),
        )
    } else {
        Err(Error::LimitExceeded)
    }
}

/// The grammar of a local variable type.
pub open spec fn local_variable_type_item() -> Grammar<LocalVariableType> {
    |s: Seq<u8>, pos: int| local_variable_type_at(s, pos)
}

/// The `LocalVariableTypeTable` attribute: a counted list of its entries.
pub open spec fn local_variable_type_table_at(s: Seq<u8>, pos: int) -> Parsed<AttributeView> {
    mapped(
        counted16(local_variable_type_item(), s, pos),
        |v: Seq<LocalVariableType>| AttributeView::LocalVariableTypeTable(v),
    )
}

/// A verification type: a tag from 0 to 8; 7 and 8 come with a `u16`.
pub open spec fn verification_type_at(s: Seq<u8>, pos: int) -> Parsed<VerificationType> {
    match u8_at(s, pos) {
        Ok((tag, next)) => if tag == 0 {
            Ok((VerificationType::Top, next))
        } else if tag == 1 {
            Ok((VerificationType::Integer, next))
        } else if tag == 2 {
            Ok((VerificationType::Float, next))
        } else if tag == 3 {
            Ok((VerificationType::Double, next))
        } else if tag == 4 {
            Ok((VerificationType::Long, next))
        } else if tag == 5 {
            Ok((VerificationType::Null, next))
        } else if tag == 6 {
            Ok((VerificationType::UninitializedThis, next))
        } else if tag == 7 {
            mapped(u16_at(s, next), |i: u16| VerificationType::Object(i))
        } else if tag == 8 {
            mapped(u16_at(s, next), |i: u16| VerificationType::Uninitialized(i))
        } else {
            Err(Error::InvalidVerificationType(tag))
        },
        Err(e) => Err(e),
    }
}

/// The grammar of a verification type.
pub open spec fn verification_type_item() -> Grammar<VerificationType> {
    |s: Seq<u8>, pos: int| verification_type_at(s, pos)
}

/// A stack map frame, by its first byte.
pub open spec fn stack_map_frame_at(s: Seq<u8>, pos: int) -> Parsed<StackMapFrameView> {
    match u8_at(s, pos) {
        Ok((frame_type, p)) => if frame_type <= 63 {
            Ok((StackMapFrameView::Same { offset_delta: frame_type as u16 }, p))
        } else if frame_type <= 127 {
            mapped(
                verification_type_at(s, p),
                |stack: VerificationType|
                    StackMapFrameView::Same1 { offset_delta: (frame_type - 64) as u16, stack },
            )
        } else if frame_type <= 246 {
            Err(Error::ReservedStackMapFrame(frame_type))
        } else if frame_type == 247 {
            match u16_at(s, p) {
                Ok((offset_delta, pos2)) => mapped(
                    verification_type_at(s, pos2),
                    |stack: VerificationType| StackMapFrameView::Same1 { offset_delta, stack },
                ),
                Err(e) => Err(e),
            }
        } else if frame_type <= 250 {
            mapped(
                u16_at(s, p),
                |offset_delta: u16|
                    StackMapFrameView::Chop { offset_delta, count: (251 - frame_type) as u8 },
            )
        } else if frame_type == 251 {
            mapped(u16_at(s, p), |offset_delta: u16| StackMapFrameView::Same { offset_delta })
        } else if frame_type <= 254 {
            match u16_at(s, p) {
                Ok((offset_delta, pos2)) => mapped(
                    repeat(
                        verification_type_item(),
                        s,
                        pos2,
                        (frame_type - 251) as nat,
                        Seq::empty(),
                    ),
                    |locals: Seq<VerificationType>| StackMapFrameView::Append { offset_delta, locals },
                ),
                Err(e) => Err(e),
            }
        } else {
            match u16_at(s, p) {
                Ok((offset_delta, pos2)) => match counted16(verification_type_item(), s, pos2) {
                    Ok((locals, pos3)) => mapped(
                        counted16(verification_type_item(), s, pos3),
                        |stack: Seq<VerificationType>|
                            StackMapFrameView::Full { offset_delta, locals, stack },
                    ),
                    Err(e) => Err(e),
                },
                Err(e) => Err(e),
            }
        },
        Err(e) => Err(e),
    }
}

/// The grammar of a stack map frame.
pub open spec fn stack_map_frame_item() -> Grammar<StackMapFrameView> {
    |s: Seq<u8>, pos: int| stack_map_frame_at(s, pos)
}

/// The `StackMapTable` attribute: a counted list of frames.
pub open spec fn stack_map_table_at(s: Seq<u8>, pos: int) -> Parsed<AttributeView> {
    mapped(
        counted16(stack_map_frame_item(), s, pos),
        |v: Seq<StackMapFrameView>| AttributeView::StackMapTable(v),
    )
}

/// An entry of the `MethodParameters` attribute: four bytes.
pub open spec fn method_parameter_at(s: Seq<u8>, pos: int) -> Parsed<MethodParameter> {
    if fits(s, pos, 4) {
        Ok((MethodParameter { name: u16_in(s, pos), access_flags: flags_in(s, pos + 2) }, pos + 4))
    } else {
        Err(Error::LimitExceeded)
    }
}

/// The grammar of a method parameter.
pub open spec fn method_parameter_item() -> Grammar<MethodParameter> {
    |s: Seq<u8>, pos: int| method_parameter_at(s, pos)
}

/// The `MethodParameters` attribute: a counted list of its entries.
pub open spec fn method_parameters_at(s: Seq<u8>, pos: int) -> Parsed<AttributeView> {
    mapped(
        counted16(method_parameter_item(), s, pos),
        |v: Seq<MethodParameter>| AttributeView::MethodParameters(v),
    )
}

/// Parses the `Exceptions` attribute.
pub fn parse_exceptions(decoder: &mut Decoder) -> (r: Result<Attribute, Error>)
    ensures
        parses(*old(decoder), *final(decoder), r, exceptions_at(old(decoder).input(), old(decoder).pos())),
{
    let exceptions = parse_u16_list(decoder)?;
    Ok(Attribute::Exceptions(exceptions))
}

/// Parses the `LineNumberTable` attribute.
#[verifier::loop_isolation(false)]
pub fn parse_line_number_table(decoder: &mut Decoder) -> (r: Result<Attribute, Error>)
    ensures
        parses(
            *old(decoder),
            *final(decoder),
            r,
            line_number_table_at(old(decoder).input(), old(decoder).pos()),
        ),
{
    let ghost s = decoder.input();
    let count = decoder.read_u16()?;
    let mut table: Vec<LineNumber> = Vec::with_capacity(count as usize);
    let mut i: u16 = 0;
    while i < count
        invariant
            i <= count,
            decoder.input() == s,
            counted16(line_number_item(), s, old(decoder).pos()) == repeat(
                line_number_item(),
                s,
                decoder.pos(),
                (count - i) as nat,
                table@,
            ),
        decreases count - i,
    {
        let start = decoder.read_u16()?;
        let line_number = decoder.read_u16()?;
        table.push(LineNumber { start, line_number });
        i += 1;
    }
    Ok(Attribute::LineNumberTable(table))
}

/// Parses the `LocalVariableTable` attribute.
#[verifier::loop_isolation(false)]
pub fn parse_local_variable_table(decoder: &mut Decoder) -> (r: Result<Attribute, Error>)
    ensures
        parses(
            *old(decoder),
            *final(decoder),
            r,
            local_variable_table_at(old(decoder).input(), old(decoder).pos()),
        ),
{
    let ghost s = decoder.input();
    let count = decoder.read_u16()?;
    let mut table: Vec<LocalVariable> = Vec::with_capacity(count as usize);
    let mut i: u16 = 0;
    while i < count
        invariant
            i <= count,
            decoder.input() == s,
            counted16(local_variable_item(), s, old(decoder).pos()) == repeat(
                local_variable_item(),
                s,
                decoder.pos(),
                (count - i) as nat,
                table@,
            ),
        decreases count - i,
    {
        let start = decoder.read_u16()?;
        let length = decoder.read_u16()?;
        let name = decoder.read_u16()?;
        let descriptor = decoder.read_u16()?;
        let index = decoder.read_u16()?;
        table.push(LocalVariable { start, length, name, descriptor, index });
        i += 1;
    }
    Ok(Attribute::LocalVariableTable(table))
}

/// Parses the `LocalVariableTypeTable` attribute.
#[verifier::loop_isolation(false)]
pub fn parse_local_variable_type_table(decoder: &mut Decoder) -> (r: Result<Attribute, Error>)
    ensures
        parses(
            *old(decoder),
            *final(decoder),
            r,
            local_variable_type_table_at(old(decoder).input(), old(decoder).pos()),
        ),
{
    let ghost s = decoder.input();
    let count = decoder.read_u16()?;
    let mut table: Vec<LocalVariableType> = Vec::with_capacity(count as usize);
    let mut i: u16 = 0;
    while i < count
        invariant
            i <= count,
            decoder.input() == s,
            counted16(local_variable_type_item(), s, old(decoder).pos()) == repeat(
                local_variable_type_item(),
                s,
                decoder.pos(),
                (count - i) as nat,
                table@,
            ),
        decreases count - i,
    {
        let start = decoder.read_u16()?;
        let length = decoder.read_u16()?;
        let name = decoder.read_u16()?;
        let signature = decoder.read_u16()?;
        let index = decoder.read_u16()?;
        table.push(LocalVariableType { start, length, name, signature, index });
        i += 1;
    }
    Ok(Attribute::LocalVariableTypeTable(table))
}

/// Reads `count` verification types.
#[verifier::loop_isolation(false)]
fn parse_verification_types(decoder: &mut Decoder, count: u16) -> (r: Result<
    Vec<VerificationType>,
    Error,
>)
    ensures
        final(decoder).input() == old(decoder).input(),
        match repeat(
            verification_type_item(),
            old(decoder).input(),
            old(decoder).pos(),
            count as nat,
            Seq::empty(),
        ) {
            Ok((v, next)) => r is Ok && r->Ok_0@ == v && final(decoder).pos() == next,
            Err(e) => r == Err::<Vec<VerificationType>, Error>(e),
        },
{
    let ghost s = decoder.input();
    let mut types: Vec<VerificationType> = Vec::with_capacity(count as usize);
    let mut i: u16 = 0;
    while i < count
        invariant
            i <= count,
            decoder.input() == s,
            repeat(verification_type_item(), s, old(decoder).pos(), count as nat, Seq::empty())
                == repeat(verification_type_item(), s, decoder.pos(), (count - i) as nat, types@),
        decreases count - i,
    {
        types.push(parse_verification_type(decoder)?);
        i += 1;
    }
    Ok(types)
}

/// Parses one stack map frame.
fn parse_stack_map_frame(decoder: &mut Decoder) -> (r: Result<StackMapFrame, Error>)
    ensures
        parses(
            *old(decoder),
            *final(decoder),
            r,
            stack_map_frame_at(old(decoder).input(), old(decoder).pos()),
        ),
{
    let frame_type = decoder.read_u8()?;
    if frame_type <= 63 {
        Ok(StackMapFrame::Same { offset_delta: frame_type as u16 })
    } else if frame_type <= 127 {
        let stack = parse_verification_type(decoder)?;
        Ok(StackMapFrame::Same1 { offset_delta: frame_type as u16 - 64, stack })
    } else if frame_type <= 246 {
        Err(Error::ReservedStackMapFrame(frame_type))
    } else if frame_type == 247 {
        let offset_delta = decoder.read_u16()?;
        let stack = parse_verification_type(decoder)?;
        Ok(StackMapFrame::Same1 { offset_delta, stack })
    } else if frame_type <= 250 {
        let offset_delta = decoder.read_u16()?;
        Ok(StackMapFrame::Chop { offset_delta, count: 251 - frame_type })
    } else if frame_type == 251 {
        let offset_delta = decoder.read_u16()?;
        Ok(StackMapFrame::Same { offset_delta })
    } else if frame_type <= 254 {
        let offset_delta = decoder.read_u16()?;
        let locals = parse_verification_types(decoder, (frame_type - 251) as u16)?;
        Ok(StackMapFrame::Append { offset_delta, locals })
    } else {
        let offset_delta = decoder.read_u16()?;
        let local_count = decoder.read_u16()?;
        let locals = parse_verification_types(decoder, local_count)?;
        let stack_size = decoder.read_u16()?;
        let stack = parse_verification_types(decoder, stack_size)?;
        Ok(StackMapFrame::Full { offset_delta, locals, stack })
    }
}

/// Parses the `StackMapTable` attribute.
#[verifier::loop_isolation(false)]
pub fn parse_stack_map_table(decoder: &mut Decoder) -> (r: Result<Attribute, Error>)
    ensures
        parses(
            *old(decoder),
            *final(decoder),
            r,
            stack_map_table_at(old(decoder).input(), old(decoder).pos()),
        ),
{
    let ghost s = decoder.input();
    let count = decoder.read_u16()?;
    let mut table: Vec<StackMapFrame> = Vec::with_capacity(count as usize);
    let mut i: u16 = 0;
    assert(views(table@) =~= Seq::<StackMapFrameView>::empty());
    while i < count
        invariant
            i <= count,
            decoder.input() == s,
            counted16(stack_map_frame_item(), s, old(decoder).pos()) == repeat(
                stack_map_frame_item(),
                s,
                decoder.pos(),
                (count - i) as nat,
                views(table@),
            ),
        decreases count - i,
    {
        let ghost done = views(table@);
        let frame = parse_stack_map_frame(decoder)?;
        assert(views(table@.push(frame)) =~= done.push(frame@));
        table.push(frame);
        i += 1;
    }
    Ok(Attribute::StackMapTable(table))
}

/// Parses a verification type.
pub fn parse_verification_type(decoder: &mut Decoder) -> (r: Result<VerificationType, Error>)
    ensures
        final(decoder).input() == old(decoder).input(),
        match verification_type_at(old(decoder).input(), old(decoder).pos()) {
            Ok((t, next)) => r == Ok::<VerificationType, Error>(t) && final(decoder).pos() == next,
            Err(e) => r == Err::<VerificationType, Error>(e),
        },
{
    let tag = decoder.read_u8()?;
    match tag {
        0 => Ok(VerificationType::Top),
        1 => Ok(VerificationType::Integer),
        2 => Ok(VerificationType::Float),
        3 => Ok(VerificationType::Double),
        4 => Ok(VerificationType::Long),
        5 => Ok(VerificationType::Null),
        6 => Ok(VerificationType::UninitializedThis),
        7 => Ok(VerificationType::Object(decoder.read_u16()?)),
        8 => Ok(VerificationType::Uninitialized(decoder.read_u16()?)),
        _ => Err(Error::InvalidVerificationType(tag)),
    }
}

/// Parses the `MethodParameters` attribute.
#[verifier::loop_isolation(false)]
pub fn parse_method_parameters(decoder: &mut Decoder) -> (r: Result<Attribute, Error>)
    ensures
        parses(
            *old(decoder),
            *final(decoder),
            r,
            method_parameters_at(old(decoder).input(), old(decoder).pos()),
        ),
{
    let ghost s = decoder.input();
    let count = decoder.read_u16()?;
    let mut params: Vec<MethodParameter> = Vec::with_capacity(count as usize);
    let mut i: u16 = 0;
    while i < count
        invariant
            i <= count,
            decoder.input() == s,
            counted16(method_parameter_item(), s, old(decoder).pos()) == repeat(
                method_parameter_item(),
                s,
                decoder.pos(),
                (count - i) as nat,
                params@,
            ),
        decreases count - i,
    {
        let name = decoder.read_u16()?;
        let access_flags = AccessFlags::from_bits_truncate(decoder.read_u16()?);
        params.push(MethodParameter { name, access_flags });
        i += 1;
    }
    Ok(Attribute::MethodParameters(params))
}

} // verus!
