use crate::docset::DocId;
use crate::error::QueryError;
use crate::explanation::ExplanationView;
use crate::score::Score;
use crate::segment::{Searcher, SegmentReader, Term};
use crate::weight::Weight;
use std::collections::BTreeSet;
use vstd::prelude::*;

verus! {

/// A query that does not depend on any segment and can be combined with
/// others; it is compiled into a weight for each search.
///
/// The model of a query says whether it compiles for a searcher, and what the
/// weight that it compiles to does in each segment. Both may depend on
/// whether scores are asked for.
pub trait Query: Send + Sync {
    /// The weights that this query compiles to.
    type Weight: Weight;

    /// What the implementation keeps true of its own state.
    spec fn inv(&self) -> bool;

    /// Why the query cannot be compiled for the searcher, if it cannot.
    spec fn refusal(&self, searcher: &Searcher, scoring_enabled: bool) -> Option<QueryError>;

    /// The matches in the segment, or the failure of the segment.
    spec fn outcome(
        &self,
        searcher: &Searcher,
        scoring_enabled: bool,
        reader: &SegmentReader,
    ) -> Result<Seq<DocId>, QueryError>;

    /// The score of `doc` in the segment.
    spec fn score_of(
        &self,
        searcher: &Searcher,
        scoring_enabled: bool,
        reader: &SegmentReader,
        doc: DocId,
    ) -> Score;

    /// The explanation of the match `doc` in the segment.
    spec fn explanation(
        &self,
        searcher: &Searcher,
        scoring_enabled: bool,
        reader: &SegmentReader,
        doc: DocId,
    ) -> ExplanationView;

    /// The terms that the query and the queries in it look up.
    spec fn terms(&self) -> Set<Term>;

    /// Compiles the query for one search. Without `scoring_enabled` the
    /// weight need not give scores that mean anything.
    fn weight(&self, searcher: &Searcher, scoring_enabled: bool) -> (result: Result<
        Self::Weight,
        QueryError,
    >)
        requires
            self.inv(),
        ensures
            match result {
                Ok(weight) => {
                    &&& self.refusal(searcher, scoring_enabled) is None
                    &&& weight.inv()
                    &&& forall|reader: &SegmentReader| #[trigger]
                        weight.outcome(reader) == self.outcome(searcher, scoring_enabled, reader)
                    &&& forall|reader: &SegmentReader, doc: DocId| #[trigger]
                        weight.score_of(reader, doc) == self.score_of(
                            searcher,
                            scoring_enabled,
                            reader,
                            doc,
                        )
                    &&& forall|reader: &SegmentReader, doc: DocId| #[trigger]
                        weight.explanation(reader, doc) == self.explanation(
                            searcher,
                            scoring_enabled,
                            reader,
                            doc,
                        )
                },
                Err(error) => self.refusal(searcher, scoring_enabled) == Some(error),
            },
    ;

    /// Adds to `term_set` the terms that the query and the queries in it look
    /// up. A query without terms adds none.
    fn query_terms(&self, term_set: &mut BTreeSet<Term>)
        requires
            self.inv(),
        ensures
            final(term_set)@ == old(term_set)@.union(self.terms()),
    ;
}

} // verus!
