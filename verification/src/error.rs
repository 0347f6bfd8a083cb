//! The error values that the library's operations return.

use vstd::prelude::*;

verus! {

/// A dialogue-table operation addressed a position that the table does not
/// hold: replacing the first or last entry of an empty table, or replacing
/// at an index at or past the table's length.
#[derive(Debug, Clone, Copy, PartialEq, Eq, Structural)]
pub struct IndexNotFound;

/// Why a decode or encode refused its input.  Every decode failure is
/// terminal for that call: no partial document is ever returned.
#[derive(Debug, Clone, Copy, PartialEq, Eq, Structural)]
pub enum AssError {
    /// A required bracketed section header is absent from the source text,
    /// so the section extractor handed the decoder an empty line group.
    MissingSection,
    /// A fixed-arity record holds fewer fields than its arity asks: a style
    /// line with fewer than 23 values, a dialogue line with fewer than 10
    /// fields, a SubRip block without its timestamp line, or a record with
    /// an absent field at encode time.
    MalformedFixedArity,
}

} // verus!
