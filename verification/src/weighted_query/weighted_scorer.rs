use crate::docset::{DocId, DocSet, SkipResult};
use crate::score::Score;
use crate::scorer::Scorer;
use vstd::prelude::*;

verus! {

/// A stream that visits what another stream visits, and scores each document
/// with that stream's score plus a fixed offset.
pub struct WeightedScorer<S: DocSet + Scorer> {
    scorer: S,
    score_weight: Score,
}

impl<S: DocSet + Scorer> WeightedScorer<S> {
    /// The stream with the given parts.
    pub closed spec fn spec_new(scorer: S, score_weight: Score) -> WeightedScorer<S> {
        WeightedScorer { scorer, score_weight }
    }

    /// The stream that is wrapped.
    pub closed spec fn inner(&self) -> S {
        self.scorer
    }

    /// The score that is added to that of every document.
    pub closed spec fn offset(&self) -> Score {
        self.score_weight
    }

    /// The parts of a stream are those that it was made of.
    pub proof fn lemma_parts(scorer: S, score_weight: Score)
        ensures
            Self::spec_new(scorer, score_weight).inner() == scorer,
            Self::spec_new(scorer, score_weight).offset() == score_weight,
    {
    }

    /// Wraps `scorer`, which stays where it stands.
    pub fn new(scorer: S, score_weight: Score) -> (weighted: WeightedScorer<S>)
        ensures
            weighted == Self::spec_new(scorer, score_weight),
            weighted.inner() == scorer,
            weighted.offset() == score_weight,
    {
        WeightedScorer { scorer: scorer, score_weight: score_weight }
    }
}

impl<S: DocSet + Scorer> DocSet for WeightedScorer<S> {
    open spec fn inv(&self) -> bool {
        self.inner().inv()
    }

    open spec fn matches(&self) -> Seq<DocId> {
        self.inner().matches()
    }

    open spec fn position(&self) -> int {
        self.inner().position()
    }

    open spec fn hint(&self) -> u32 {
        self.inner().hint()
    }

    open spec fn continues(&self, earlier: &Self) -> bool {
        &&& self.inner().continues(&earlier.inner())
        &&& self.offset() == earlier.offset()
    }

    proof fn lemma_continues_self(&self) {
        self.inner().lemma_continues_self();
    }

    proof fn lemma_continues_chain(&self, middle: &Self, earlier: &Self) {
        self.inner().lemma_continues_chain(&middle.inner(), &earlier.inner());
    }

    fn advance(&mut self) -> (found: bool) {
        self.scorer.advance()
    }

    fn skip_next(&mut self, target: DocId) -> (result: SkipResult) {
        self.scorer.skip_next(target)
    }

    fn doc(&self) -> (doc: DocId) {
        self.scorer.doc()
    }

    fn size_hint(&self) -> (hint: u32) {
        self.scorer.size_hint()
    }
}

impl<S: DocSet + Scorer> Scorer for WeightedScorer<S> {
    open spec fn score_of(&self, doc: DocId) -> Score {
        self.inner().score_of(doc).sum(self.offset())
    }

    proof fn lemma_scores_continue(&self, earlier: &Self, doc: DocId) {
        self.inner().lemma_scores_continue(&earlier.inner(), doc);
    }

    fn score(&mut self) -> (score: Score) {
        self.scorer.score().plus(self.score_weight)
    }
}

/// The wrapper changes nothing of the traversal: it is sound when the stream
/// in it is, has the same matches, stands where that stream stands and gives
/// the same estimate.
pub proof fn lemma_pass_through<S: DocSet + Scorer>(weighted: WeightedScorer<S>)
    ensures
        weighted.inv() == weighted.inner().inv(),
        weighted.matches() == weighted.inner().matches(),
        weighted.position() == weighted.inner().position(),
        weighted.hint() == weighted.inner().hint(),
{
}

/// Two offsets, one wrapped around the other, score a document as one
/// wrapper with their sum does, as long as no sum leaves its range; and
/// however a stream is wrapped, its matches and its position stay.
pub proof fn lemma_offsets_add<S: DocSet + Scorer>(scorer: S, a: Score, b: Score, doc: DocId)
    ensures
        ({
            let once = WeightedScorer::spec_new(scorer, a);
            let twice = WeightedScorer::spec_new(once, b);
            let summed = WeightedScorer::spec_new(scorer, a.sum(b));
            &&& once.matches() == scorer.matches()
            &&& twice.matches() == scorer.matches()
            &&& summed.matches() == scorer.matches()
            &&& once.position() == scorer.position()
            &&& twice.position() == scorer.position()
            &&& summed.position() == scorer.position()
            &&& scorer.score_of(doc).sums_exactly(a) && a.sums_exactly(b) && scorer.score_of(
                doc,
            ).sum(a).sums_exactly(b) ==> twice.score_of(doc) == summed.score_of(doc)
        }),
{
}

} // verus!
