//! The store's error taxonomy. Every operation either succeeds or reports
//! one of these conditions; none is fatal.

use vstd::prelude::*;

verus! {

/// Why a store operation failed.
#[derive(Clone, Copy, Debug, PartialEq, Eq, Structural)]
pub enum CatalogError {
    /// A lookup, removal or annotation named an identifier the store does
    /// not hold.
    NotFound(u64),
    /// An insertion supplied a blank (empty or all-whitespace) name.
    EmptyName,
    /// The export encoder failed; the verified encoder never reports this.
    SerializationError,
}

} // verus!
