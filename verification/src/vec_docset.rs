use crate::docset::{sound, strictly_increasing, DocId, DocSet, SkipResult};
use crate::score::Score;
use crate::scorer::Scorer;
use vstd::prelude::*;

verus! {

/// Every document is below the one that follows it.
pub open spec fn stepwise_increasing(docs: Seq<DocId>) -> bool {
    forall|i: int| 0 <= i < docs.len() - 1 ==> docs[i] < #[trigger] docs[i + 1]
}

/// A list that rises from each document to the next rises from each
/// document to every later one.
pub proof fn lemma_stepwise_increasing(docs: Seq<DocId>)
    requires
        stepwise_increasing(docs),
    ensures
        strictly_increasing(docs),
{
    assert forall|i: int, j: int| 0 <= i < j < docs.len() implies docs[i] < docs[j] by {
        lemma_rises(docs, i, j);
    }
}

proof fn lemma_rises(docs: Seq<DocId>, i: int, j: int)
    requires
        stepwise_increasing(docs),
        0 <= i < j < docs.len(),
    ensures
        docs[i] < docs[j],
    decreases j - i,
{
    assert(docs[j - 1] < docs[(j - 1) + 1]);
    if i < j - 1 {
        lemma_rises(docs, i, j - 1);
    }
}

/// A stream over a list of documents.
pub struct VecDocSet {
    doc_ids: Vec<DocId>,
    started: bool,
    cursor: usize,
}

impl VecDocSet {
    /// A fresh stream over `doc_ids`, if they increase strictly and are no
    /// more than a counter of document ids can hold; else nothing.
    pub fn new(doc_ids: Vec<DocId>) -> (stream: Option<VecDocSet>)
        ensures
            match stream {
                Some(docset) => {
                    &&& sound(doc_ids@, -1)
                    &&& docset.inv()
                    &&& docset.matches() == doc_ids@
                    &&& docset.position() == -1
                },
                None => !sound(doc_ids@, -1),
            },
    {
        if doc_ids.len() > 0xffff_ffff {
            return None;
        }
        let mut i: usize = 1;
        while i < doc_ids.len()
            invariant
                1 <= i,
                forall|k: int| 0 <= k < i - 1 ==> doc_ids[k] < #[trigger] doc_ids[k + 1],
            decreases doc_ids.len() - i,
        {
            if doc_ids[i - 1] >= doc_ids[i] {
                return None;
            }
            i = i + 1;
        }
        proof {
            lemma_stepwise_increasing(doc_ids@);
        }
        Some(VecDocSet { doc_ids, started: false, cursor: 0 })
    }
}

impl DocSet for VecDocSet {
    closed spec fn inv(&self) -> bool {
        &&& self.cursor <= self.doc_ids.len()
        &&& !self.started ==> self.cursor == 0
    }

    closed spec fn matches(&self) -> Seq<DocId> {
        self.doc_ids@
    }

    closed spec fn position(&self) -> int {
        if self.started {
            self.cursor as int
        } else {
            -1
        }
    }

    closed spec fn hint(&self) -> u32 {
        self.doc_ids.len() as u32
    }

    closed spec fn continues(&self, earlier: &Self) -> bool {
        self.doc_ids@ == earlier.doc_ids@
    }

    proof fn lemma_continues_self(&self) {
    }

    proof fn lemma_continues_chain(&self, middle: &Self, earlier: &Self) {
    }

    fn advance(&mut self) -> (found: bool) {
        if !self.started {
            self.started = true;
        } else if self.cursor < self.doc_ids.len() {
            self.cursor = self.cursor + 1;
        }
        self.cursor < self.doc_ids.len()
    }

    fn doc(&self) -> (doc: DocId) {
        self.doc_ids[self.cursor]
    }

    fn size_hint(&self) -> (hint: u32) {
        self.doc_ids.len() as u32
    }
}

/// A stream that gives one fixed score to every document of another stream.
pub struct ConstScorer<D: DocSet> {
    docset: D,
    score: Score,
}

impl<D: DocSet> ConstScorer<D> {
    /// The stream that is scored.
    pub closed spec fn inner(&self) -> D {
        self.docset
    }

    /// The score of every document.
    pub closed spec fn fixed_score(&self) -> Score {
        self.score
    }

    /// Scores every document of `docset`, which stays where it stands, with
    /// `score`.
    pub fn new(docset: D, score: Score) -> (scorer: ConstScorer<D>)
        ensures
            scorer.inner() == docset,
            scorer.fixed_score() == score,
    {
        ConstScorer { docset, score }
    }
}

impl<D: DocSet> DocSet for ConstScorer<D> {
    open spec fn inv(&self) -> bool {
        self.inner().inv()
    }

    open spec fn matches(&self) -> Seq<DocId> {
        self.inner().matches()
    }

    open spec fn position(&self) -> int {
        self.inner().position()
    }

    open spec fn hint(&self) -> u32 {
        self.inner().hint()
    }

    open spec fn continues(&self, earlier: &Self) -> bool {
        &&& self.inner().continues(&earlier.inner())
        &&& self.fixed_score() == earlier.fixed_score()
    }

    proof fn lemma_continues_self(&self) {
        self.inner().lemma_continues_self();
    }

    proof fn lemma_continues_chain(&self, middle: &Self, earlier: &Self) {
        self.inner().lemma_continues_chain(&middle.inner(), &earlier.inner());
    }

    fn advance(&mut self) -> (found: bool) {
        self.docset.advance()
    }

    fn skip_next(&mut self, target: DocId) -> (result: SkipResult) {
        self.docset.skip_next(target)
    }

    fn doc(&self) -> (doc: DocId) {
        self.docset.doc()
    }

    fn size_hint(&self) -> (hint: u32) {
        self.docset.size_hint()
    }
}

impl<D: DocSet> Scorer for ConstScorer<D> {
    open spec fn score_of(&self, doc: DocId) -> Score {
        self.fixed_score()
    }

    proof fn lemma_scores_continue(&self, earlier: &Self, doc: DocId) {
    }

    fn score(&mut self) -> (score: Score) {
        proof {
            self.lemma_continues_self();
        }
        self.score
    }
}

} // verus!
