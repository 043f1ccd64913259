use vstd::prelude::*;

verus! {

/// Why a batch could not be compiled.
#[derive(Clone, Copy, Debug, PartialEq, Eq, Structural)]
pub enum CompileError {
    /// No instructions were supplied.
    EmptyInput,
    /// An address was missing from the account table.
    InvalidReference,
    /// An address would have received two table positions.
    DuplicateIdentity,
    /// A class count or a table position does not fit in a byte.
    Overflow,
}

} // verus!
