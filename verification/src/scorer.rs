use crate::docset::{sound, DocId, DocSet, SkipResult};
use crate::score::Score;
use crate::segment::DeleteBitSet;
use vstd::prelude::*;

verus! {

/// A stream of matching documents that can score the one it stands on.
pub trait Scorer: DocSet {
    /// The score that the stream gives to `doc`.
    spec fn score_of(&self, doc: DocId) -> Score;

    /// The score of a document is one of the things that a stream fixes: a
    /// later state gives it the score that an earlier state gave it.
    proof fn lemma_scores_continue(&self, earlier: &Self, doc: DocId)
        requires
            self.continues(earlier),
        ensures
            self.score_of(doc) == earlier.score_of(doc),
    ;

    /// The score of the document that the stream stands on. Neither the
    /// stream nor the score of any document changes.
    fn score(&mut self) -> (score: Score)
        requires
            old(self).inv(),
            sound(old(self).matches(), old(self).position()),
            0 <= old(self).position() < old(self).matches().len(),
        ensures
            final(self).inv(),
            final(self).continues(old(self)),
            final(self).matches() == old(self).matches(),
            final(self).position() == old(self).position(),
            final(self).hint() == old(self).hint(),
            score == old(self).score_of(old(self).matches()[old(self).position()]),
    ;
}

/// A boxed stream is the stream in the box: every call is handed on.
impl<D: DocSet + ?Sized> DocSet for Box<D> {
    open spec fn inv(&self) -> bool {
        (**self).inv()
    }

    open spec fn matches(&self) -> Seq<DocId> {
        (**self).matches()
    }

    open spec fn position(&self) -> int {
        (**self).position()
    }

    open spec fn hint(&self) -> u32 {
        (**self).hint()
    }

    open spec fn continues(&self, earlier: &Self) -> bool {
        (**self).continues(&**earlier)
    }

    proof fn lemma_continues_self(&self) {
        (**self).lemma_continues_self();
    }

    proof fn lemma_continues_chain(&self, middle: &Self, earlier: &Self) {
        (**self).lemma_continues_chain(&**middle, &**earlier);
    }

    fn advance(&mut self) -> (found: bool) {
        (**self).advance()
    }

    fn skip_next(&mut self, target: DocId) -> (result: SkipResult) {
        (**self).skip_next(target)
    }

    fn doc(&self) -> (doc: DocId) {
        (**self).doc()
    }

    fn size_hint(&self) -> (hint: u32) {
        (**self).size_hint()
    }

    fn count(&mut self, delete_bitset: &DeleteBitSet) -> (count: u32) {
        (**self).count(delete_bitset)
    }

    fn count_including_deleted(&mut self) -> (count: u32) {
        (**self).count_including_deleted()
    }
}

/// A boxed scorer is the scorer in the box.
impl<S: Scorer + ?Sized> Scorer for Box<S> {
    open spec fn score_of(&self, doc: DocId) -> Score {
        (**self).score_of(doc)
    }

    proof fn lemma_scores_continue(&self, earlier: &Self, doc: DocId) {
        (**self).lemma_scores_continue(&**earlier, doc);
    }

    fn score(&mut self) -> (score: Score) {
        (**self).score()
    }
}

} // verus!
