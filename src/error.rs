//! The errors that the library reports.

use vstd::prelude::*;

verus! {

/// The diagnostic code of a reference to a name that is not defined.
pub const UNDEFINED_VARIABLE: u32 = 1065;

#[derive(Debug)]
pub enum Error {
    /// A name that no domain of the chain defines: the diagnostic code and
    /// the local name.
    Reference { code: u32, name: String },
    /// A multiname without a local name, where one is required.
    UnnamedMultiname,
    /// A memory access, or a text index, outside the current bounds.
    Range,
    /// Type arguments applied to a value that is not a generic class.
    NotGeneric,
    /// A type argument that is neither a class nor `null`.
    BadTypeArgument,
    /// A text field type other than `input` or `dynamic`.
    InvalidTextFieldType(String),
}

} // verus!
