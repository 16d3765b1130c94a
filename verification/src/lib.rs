//! Reading and writing of Java class files.
//!
//! The `basic` module holds the constant pool, the class tree, the parser and
//! the writer. The crate root adds the descriptor grammar.

pub mod basic;
pub mod result;
pub mod text;
pub mod types;

pub use result::Error;
pub use types::{MethodDescriptor, Type, TypeDescriptor};
