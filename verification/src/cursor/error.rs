//! The error of the cursor.
use vstd::prelude::*;

verus! {

/// Why a cursor refused to hand out bytes.
#[derive(Debug, Clone, Copy, PartialEq, Eq, Structural)]
pub enum CursorError {
    /// The bytes asked for end past the length of the cursor.
    InvalidRange,
}

impl CursorError {
    /// Whether this is [`CursorError::InvalidRange`].
    pub fn is_invalid_range(&self) -> (yes: bool)
        ensures
            yes == (*self == CursorError::InvalidRange),
    {
        match self {
            CursorError::InvalidRange => true,
        }
    }
}

} // verus!
