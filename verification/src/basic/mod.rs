//! The basic module provides basic read and write capabilities.

pub mod constpool;
pub mod mutf8;
pub mod parser;
pub mod result;
pub mod roundtrip;
pub mod tree;
pub mod writer;

pub use self::constpool::{Item, Pool, PoolIter, ReferenceKind};
pub use self::parser::decode::Decoder;
pub use self::parser::parse;
pub use self::result::Error;
pub use self::tree::{
    AccessFlags, Annotation, ArrayType, Attribute, BootstrapMethod, Class, ElementValue, Exception,
    Export, Field, InnerClass, Instruction, LineNumber, LocalVariable, LocalVariableTarget,
    LocalVariableType, Method, MethodParameter, Opening, Provider, Requirement, StackMapFrame,
    TargetType, TypeAnnotation, TypePathElement, TypePathKind, VerificationType,
};
pub use self::writer::encode::Encoder;
