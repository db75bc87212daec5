use crate::docset::DocId;
use vstd::prelude::*;

verus! {

/// Why a query could not be answered. Every failure ends the operation in
/// which it occurs; nothing is retried.
#[derive(Clone, Copy, Debug, PartialEq, Eq, Hash, Structural)]
pub enum QueryError {
    /// The index lacks what the query needs: the field is not indexed, or its
    /// values are of a type that the query cannot match.
    Unsupported,
    /// The segment cannot be read: its data is corrupted or its term
    /// dictionary is missing.
    CorruptedSegment,
    /// An explanation was asked for a document that the query does not match.
    DocumentNotMatching(DocId),
}

} // verus!
