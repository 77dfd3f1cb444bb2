//! Errors raised while binding rows.

use vstd::prelude::*;

verus! {

/// A cell failed to decode as its target scalar kind.
///
/// `WasNull` marks a cell that was present but held no value; it is absorbed
/// by the optional and repeated adapters and only escapes as an ordinary
/// decode failure when no adapter stands above it. `WrongType` marks a cell
/// whose value has a different shape than the target kind.
#[derive(Clone, Copy, PartialEq, Eq, Structural, Debug)]
pub enum DecodeError {
    WasNull { index: usize },
    WrongType { index: usize },
}

/// Whether a decode failure only reports an explicit null.
pub fn is_was_null(e: &DecodeError) -> (r: bool)
    ensures
        r == (e is WasNull),
{
    match e {
        DecodeError::WasNull { .. } => true,
        DecodeError::WrongType { .. } => false,
    }
}

} // verus!
