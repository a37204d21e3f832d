use vstd::prelude::*;

verus! {

/// Why an insert into an index page was refused.
#[derive(Clone, Copy, Debug, PartialEq, Eq, Structural)]
pub enum IndexError {
    /// The payer did not sign the operation.
    NotAuthenticated,
    /// A slot that should belong to this program belongs to another.
    NotOwnedByProgram,
    /// The storage allocator supplied is not the system allocator.
    InvalidAllocator,
    /// An address does not match the address derived from its seeds.
    InvalidDerivation,
    /// The page slot holds bytes that are not an index page.
    InvalidPageData,
    /// The offset lies past the end of the page.
    InvalidOffset,
    /// A neighbor record is not the one stored next to the offset.
    NeighborMismatch,
    /// The record after the offset is needed and was not supplied.
    MissingAboveNeighbor,
    /// The record before the offset is needed and was not supplied.
    MissingBelowNeighbor,
    /// The record after the offset is newer than the one inserted.
    AboveIsNewer,
    /// The record before the offset is older than the one inserted.
    BelowIsOlder,
    /// The page already holds as many references as it can.
    PageFull,
}

} // verus!
