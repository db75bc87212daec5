use crate::docset::{sound, DocId, DocSet};
use crate::error::QueryError;
use crate::explanation::{Explanation, ExplanationView};
use crate::query::Query;
use crate::score::Score;
use crate::scorer::Scorer;
use crate::segment::{Searcher, SegmentReader, Term};
use crate::weight::Weight;
use std::collections::BTreeSet;
use vstd::prelude::*;

verus! {

/// The documents of a segment of `max_doc` documents: every id below it.
pub open spec fn all_docs(max_doc: DocId) -> Seq<DocId> {
    Seq::new(max_doc as nat, |i: int| i as DocId)
}

/// The score of every match of [`AllQuery`]: one unit of relevance, rank 0.
pub open spec fn unit_score() -> Score {
    Score { rank: 0, relevance: Score::UNIT }
}

/// How [`AllQuery`] explains its matches.
pub open spec fn all_explanation() -> ExplanationView {
    ExplanationView { value: unit_score(), description: "AllQuery"@, details: Seq::empty() }
}

/// The query that matches every document.
#[derive(Clone, Copy, Debug)]
pub struct AllQuery;

/// The weight of [`AllQuery`].
#[derive(Clone, Copy, Debug)]
pub struct AllWeight;

/// The stream of all documents of one segment.
pub struct AllScorer {
    started: bool,
    doc: DocId,
    max_doc: DocId,
}

impl AllScorer {
    /// A fresh stream over a segment of `max_doc` documents.
    pub fn new(max_doc: DocId) -> (scorer: AllScorer)
        ensures
            scorer.inv(),
            scorer.matches() == all_docs(max_doc),
            scorer.position() == -1,
            sound(scorer.matches(), scorer.position()),
    {
        AllScorer { started: false, doc: 0, max_doc }
    }
}

impl DocSet for AllScorer {
    closed spec fn inv(&self) -> bool {
        &&& self.doc <= self.max_doc
        &&& !self.started ==> self.doc == 0
    }

    closed spec fn matches(&self) -> Seq<DocId> {
        all_docs(self.max_doc)
    }

    closed spec fn position(&self) -> int {
        if self.started {
            self.doc as int
        } else {
            -1
        }
    }

    closed spec fn hint(&self) -> u32 {
        self.max_doc
    }

    closed spec fn continues(&self, earlier: &Self) -> bool {
        self.max_doc == earlier.max_doc
    }

    proof fn lemma_continues_self(&self) {
    }

    proof fn lemma_continues_chain(&self, middle: &Self, earlier: &Self) {
    }

    fn advance(&mut self) -> (found: bool) {
        if !self.started {
            self.started = true;
        } else if self.doc < self.max_doc {
            self.doc = self.doc + 1;
        }
        self.doc < self.max_doc
    }

    fn doc(&self) -> (doc: DocId) {
        self.doc
    }

    fn size_hint(&self) -> (hint: u32) {
        self.max_doc
    }
}

impl Scorer for AllScorer {
    open spec fn score_of(&self, doc: DocId) -> Score {
        unit_score()
    }

    proof fn lemma_scores_continue(&self, earlier: &Self, doc: DocId) {
    }

    fn score(&mut self) -> (score: Score) {
        proof {
            self.lemma_continues_self();
        }
        Score::new(0, Score::UNIT)
    }
}

impl Weight for AllWeight {
    type Scorer = AllScorer;

    open spec fn inv(&self) -> bool {
        true
    }

    open spec fn outcome(&self, reader: &SegmentReader) -> Result<Seq<DocId>, QueryError> {
        Ok(all_docs(reader.spec_max_doc()))
    }

    open spec fn score_of(&self, reader: &SegmentReader, doc: DocId) -> Score {
        unit_score()
    }

    open spec fn explanation(&self, reader: &SegmentReader, doc: DocId) -> ExplanationView {
        all_explanation()
    }

    fn scorer(&self, reader: &SegmentReader) -> (result: Result<AllScorer, QueryError>) {
        let scorer = AllScorer::new(reader.max_doc());
        assert(forall|doc: DocId| #[trigger] scorer.score_of(doc) == self.score_of(reader, doc));
        Ok(scorer)
    }

    fn explain(&self, reader: &SegmentReader, doc: DocId) -> (result: Result<
        Explanation,
        QueryError,
    >) {
        proof {
            let docs = all_docs(reader.spec_max_doc());
            if doc < reader.spec_max_doc() {
                assert(docs[doc as int] == doc);
            }
        }
        if doc >= reader.max_doc() {
            Err(QueryError::DocumentNotMatching(doc))
        } else {
            Ok(Explanation::new("AllQuery".to_owned(), Score::new(0, Score::UNIT)))
        }
    }
}

impl Query for AllQuery {
    type Weight = AllWeight;

    open spec fn inv(&self) -> bool {
        true
    }

    open spec fn refusal(&self, searcher: &Searcher, scoring_enabled: bool) -> Option<QueryError> {
        None
    }

    open spec fn outcome(
        &self,
        searcher: &Searcher,
        scoring_enabled: bool,
        reader: &SegmentReader,
    ) -> Result<Seq<DocId>, QueryError> {
        Ok(all_docs(reader.spec_max_doc()))
    }

    open spec fn score_of(
        &self,
        searcher: &Searcher,
        scoring_enabled: bool,
        reader: &SegmentReader,
        doc: DocId,
    ) -> Score {
        unit_score()
    }

    open spec fn explanation(
        &self,
        searcher: &Searcher,
        scoring_enabled: bool,
        reader: &SegmentReader,
        doc: DocId,
    ) -> ExplanationView {
        all_explanation()
    }

    open spec fn terms(&self) -> Set<Term> {
        Set::empty()
    }

    fn weight(&self, searcher: &Searcher, scoring_enabled: bool) -> (result: Result<
        AllWeight,
        QueryError,
    >) {
        Ok(AllWeight)
    }

    fn query_terms(&self, term_set: &mut BTreeSet<Term>) {
        proof {
            assert(term_set@.union(Set::empty()) =~= term_set@);
        }
    }
}

} // verus!
