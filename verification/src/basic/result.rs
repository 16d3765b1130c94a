use vstd::prelude::*;

verus! {

/// Everything that can go wrong while a class file is read or written.
#[derive(Debug, Clone, Copy, PartialEq, Eq, Structural)]
pub enum Error {
    /// A modified UTF-8 string could not be read.
    InvalidUTF8,
    /// The decoder has come to the end of the input or of its limit, or a
    /// limited region was not consumed exactly.
    LimitExceeded,
    /// Not a class file: the header does not equal `0xCAFEBABE`.
    NotAClass,
    /// Invalid constant pool entry.
    InvalidCPItem(u16),
    /// The constant pool cannot be larger than `u16::MAX`.
    CPTooLarge,
    /// Invalid instruction (an unknown op code, for example).
    InvalidInstruction { op_code: u8, at: u32 },
    /// Reserved (invalid) stack map frame.
    ReservedStackMapFrame(u8),
    /// Invalid verification type in a stack map table.
    InvalidVerificationType(u8),
    /// Invalid element value of an annotation; the `u8` is the tag.
    InvalidElementValue(u8),
    /// Invalid target type of a type annotation.
    InvalidTargetType,
    /// Invalid type path element kind of a type annotation.
    InvalidTypePath,
}

} // verus!
