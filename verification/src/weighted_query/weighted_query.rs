use super::weighted_weight::WeightedWeight;
use crate::docset::DocId;
use crate::error::QueryError;
use crate::explanation::ExplanationView;
use crate::query::Query;
use crate::score::Score;
use crate::segment::{Searcher, SegmentReader, Term};
use std::collections::BTreeSet;
use vstd::prelude::*;

verus! {

/// A query that matches what another query matches, and adds a fixed offset
/// to the score of every match: a boost of rank, of relevance, or of both.
#[derive(Clone, Debug)]
pub struct WeightedQuery<Q: Query> {
    query: Q,
    score_weight: Score,
}

impl<Q: Query> WeightedQuery<Q> {
    /// The query with the given parts.
    pub closed spec fn spec_new(query: Q, score_weight: Score) -> WeightedQuery<Q> {
        WeightedQuery { query, score_weight }
    }

    /// The query that is wrapped.
    pub closed spec fn inner(&self) -> Q {
        self.query
    }

    /// The score that is added to that of every match.
    pub closed spec fn offset(&self) -> Score {
        self.score_weight
    }

    /// The parts of a query are those that it was made of.
    pub proof fn lemma_parts(query: Q, score_weight: Score)
        ensures
            Self::spec_new(query, score_weight).inner() == query,
            Self::spec_new(query, score_weight).offset() == score_weight,
    {
    }

    /// Creates a new weighted query.
    pub fn new(query: Q, score_weight: Score) -> (weighted: WeightedQuery<Q>)
        ensures
            weighted == Self::spec_new(query, score_weight),
            weighted.inner() == query,
            weighted.offset() == score_weight,
    {
        WeightedQuery { query: query, score_weight: score_weight }
    }
}

impl<Q: Query> Query for WeightedQuery<Q> {
    type Weight = WeightedWeight<Q::Weight>;

    open spec fn inv(&self) -> bool {
        self.inner().inv()
    }

    open spec fn refusal(&self, searcher: &Searcher, scoring_enabled: bool) -> Option<QueryError> {
        self.inner().refusal(searcher, scoring_enabled)
    }

    open spec fn outcome(
        &self,
        searcher: &Searcher,
        scoring_enabled: bool,
        reader: &SegmentReader,
    ) -> Result<Seq<DocId>, QueryError> {
        self.inner().outcome(searcher, scoring_enabled, reader)
    }

    open spec fn score_of(
        &self,
        searcher: &Searcher,
        scoring_enabled: bool,
        reader: &SegmentReader,
        doc: DocId,
    ) -> Score {
        self.inner().score_of(searcher, scoring_enabled, reader, doc).sum(self.offset())
    }

    open spec fn explanation(
        &self,
        searcher: &Searcher,
        scoring_enabled: bool,
        reader: &SegmentReader,
        doc: DocId,
    ) -> ExplanationView {
        self.inner().explanation(searcher, scoring_enabled, reader, doc)
    }

    open spec fn terms(&self) -> Set<Term> {
        self.inner().terms()
    }

    fn weight(&self, searcher: &Searcher, scoring_enabled: bool) -> (result: Result<
        Self::Weight,
        QueryError,
    >)
        ensures
            result matches Ok(weight) ==> weight.score_weight == self.offset(),
    {
        let weight = self.query.weight(searcher, scoring_enabled)?;
        Ok(WeightedWeight::new(weight, self.score_weight))
    }

    fn query_terms(&self, term_set: &mut BTreeSet<Term>) {
        self.query.query_terms(term_set)
    }
}

/// Two offsets, one wrapped around the other, score a document as one
/// wrapper with their sum does, as long as no sum leaves its range; and
/// however a query is wrapped, what it matches in a segment stays, and so
/// does whether it compiles.
pub proof fn lemma_offsets_add<Q: Query>(
    query: Q,
    a: Score,
    b: Score,
    searcher: &Searcher,
    scoring_enabled: bool,
    reader: &SegmentReader,
    doc: DocId,
)
    ensures
        ({
            let once = WeightedQuery::spec_new(query, a);
            let twice = WeightedQuery::spec_new(once, b);
            let summed = WeightedQuery::spec_new(query, a.sum(b));
            let matched = query.outcome(searcher, scoring_enabled, reader);
            let refused = query.refusal(searcher, scoring_enabled);
            let score = query.score_of(searcher, scoring_enabled, reader, doc);
            &&& once.outcome(searcher, scoring_enabled, reader) == matched
            &&& twice.outcome(searcher, scoring_enabled, reader) == matched
            &&& summed.outcome(searcher, scoring_enabled, reader) == matched
            &&& once.refusal(searcher, scoring_enabled) == refused
            &&& twice.refusal(searcher, scoring_enabled) == refused
            &&& summed.refusal(searcher, scoring_enabled) == refused
            &&& score.sums_exactly(a) && a.sums_exactly(b) && score.sum(a).sums_exactly(b)
                ==> twice.score_of(searcher, scoring_enabled, reader, doc) == summed.score_of(
                searcher,
                scoring_enabled,
                reader,
                doc,
            )
        }),
{
}

} // verus!
