use vstd::prelude::*;
use crate::basic::Error as BasicError;

verus! {

/// An error of this crate.
#[derive(Debug)]
pub enum Error {
    /// An error coming from the `basic` module.
    Basic(BasicError),
    /// Not a valid descriptor: `at` is the offset of the char at which it
    /// was found out.
    InvalidDescriptor { desc: String, at: usize },
}

} // verus!
