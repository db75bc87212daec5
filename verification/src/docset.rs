use crate::segment::{alive, is_alive, DeleteBitSet};
use vstd::prelude::*;

verus! {

/// Identifies a document by its place in one segment.
pub type DocId = u32;

/// How a skip to a target document ended.
#[derive(Clone, Copy, Debug, PartialEq, Eq, Structural)]
pub enum SkipResult {
    /// The stream stands on the target.
    Reached,
    /// The target does not match; the stream stands on the first match after it.
    OverStep,
    /// No match at or after the target is left; the stream is exhausted.
    End,
}

/// Every document has a greater id than the documents before it.
pub open spec fn strictly_increasing(docs: Seq<DocId>) -> bool {
    forall|i: int, j: int| 0 <= i < j < docs.len() ==> docs[i] < docs[j]
}

/// The position that one `advance` leads to: the next match, or the end.
/// Position `-1` is that of a fresh stream, position `docs.len()` that of an
/// exhausted one.
pub open spec fn stepped(docs: Seq<DocId>, position: int) -> int {
    if position < docs.len() {
        position + 1
    } else {
        docs.len() as int
    }
}

/// The first position at or after `from` whose document is at least `target`,
/// or the end: where advancing from `from` one match at a time stops.
pub open spec fn sought(docs: Seq<DocId>, from: int, target: DocId) -> int
    decreases docs.len() - from,
{
    if from < 0 || from >= docs.len() {
        docs.len() as int
    } else if docs[from] >= target {
        from
    } else {
        sought(docs, from + 1, target)
    }
}

/// What a skip reports when it has led to `position`.
pub open spec fn skip_outcome(docs: Seq<DocId>, position: int, target: DocId) -> SkipResult {
    if position < 0 || position >= docs.len() {
        SkipResult::End
    } else if docs[position] == target {
        SkipResult::Reached
    } else {
        SkipResult::OverStep
    }
}

/// The matches that lie after `position`, in order.
pub open spec fn rest(docs: Seq<DocId>, position: int) -> Seq<DocId> {
    if position < docs.len() {
        docs.skip(position + 1)
    } else {
        Seq::empty()
    }
}

/// The model of a stream is sound: its matches increase strictly, there are
/// no more of them than a counter of document ids can hold, and the position
/// lies between that of a fresh stream and that of an exhausted one.
pub open spec fn sound(docs: Seq<DocId>, position: int) -> bool {
    &&& strictly_increasing(docs)
    &&& docs.len() <= u32::MAX
    &&& -1 <= position <= docs.len()
}

/// Where a search for `target` from `from` stops: not before `from`, past
/// every document below `target`, and on a document that is at least
/// `target` unless it stops at the end.
pub proof fn lemma_sought(docs: Seq<DocId>, from: int, target: DocId)
    requires
        0 <= from <= docs.len(),
    ensures
        from <= sought(docs, from, target) <= docs.len(),
        forall|i: int| from <= i < sought(docs, from, target) ==> docs[i] < target,
        sought(docs, from, target) < docs.len() ==> docs[sought(docs, from, target)] >= target,
    decreases docs.len() - from,
{
    if from < docs.len() && docs[from] < target {
        lemma_sought(docs, from + 1, target);
    }
}

/// A stream that advances onto a match has left a smaller document behind.
pub proof fn lemma_advance_increases(docs: Seq<DocId>, position: int)
    requires
        sound(docs, position),
        0 <= position,
        stepped(docs, position) < docs.len(),
    ensures
        docs[position] < docs[stepped(docs, position)],
{
}

/// A skip never goes back: it leads past the position it starts from unless
/// the stream is exhausted already, every document it passes is below the
/// target, the document it lands on is at least the target, and greater than
/// the document it started from.
pub proof fn lemma_skip_increases(docs: Seq<DocId>, position: int, target: DocId)
    requires
        sound(docs, position),
    ensures
        ({
            let landing = sought(docs, stepped(docs, position), target);
            &&& position < landing || (position == landing && landing == docs.len())
            &&& landing <= docs.len()
            &&& forall|i: int| position < i < landing ==> docs[i] < target
            &&& landing < docs.len() ==> docs[landing] >= target
            &&& 0 <= position && landing < docs.len() ==> docs[position] < docs[landing]
        }),
{
    lemma_sought(docs, stepped(docs, position), target);
}

/// A stream of matching documents, visited in increasing order.
///
/// The model of a stream is the sequence of all its matches and a position in
/// it, which starts at `-1` and ends at the length of the sequence.
pub trait DocSet {
    /// What the implementation keeps true of its own state.
    spec fn inv(&self) -> bool;

    /// All matches of the stream, visited or not.
    spec fn matches(&self) -> Seq<DocId>;

    /// Where the stream stands in `matches`.
    spec fn position(&self) -> int;

    /// The estimate that `size_hint` gives in this state.
    spec fn hint(&self) -> u32;

    /// This state is a later state of the stream that `earlier` is a state
    /// of: whatever the stream fixes for its documents is the same in both.
    spec fn continues(&self, earlier: &Self) -> bool;

    /// Every state continues itself.
    proof fn lemma_continues_self(&self)
        ensures
            self.continues(self),
    ;

    /// A state that continues a state that continues `earlier` continues
    /// `earlier`.
    proof fn lemma_continues_chain(&self, middle: &Self, earlier: &Self)
        requires
            self.continues(middle),
            middle.continues(earlier),
        ensures
            self.continues(earlier),
    ;

    /// Goes to the next match and tells whether there is one. On an exhausted
    /// stream nothing changes and the answer is `false`.
    fn advance(&mut self) -> (found: bool)
        requires
            old(self).inv(),
            sound(old(self).matches(), old(self).position()),
        ensures
            final(self).inv(),
            sound(final(self).matches(), final(self).position()),
            final(self).continues(old(self)),
            final(self).matches() == old(self).matches(),
            final(self).position() == stepped(old(self).matches(), old(self).position()),
            found == (final(self).position() < final(self).matches().len()),
    ;

    /// Goes to the first match after the current one that is at least `target`,
    /// as repeated calls of `advance` would, and tells how that ended.
    fn skip_next(&mut self, target: DocId) -> (result: SkipResult)
        requires
            old(self).inv(),
            sound(old(self).matches(), old(self).position()),
        ensures
            final(self).inv(),
            sound(final(self).matches(), final(self).position()),
            final(self).continues(old(self)),
            final(self).matches() == old(self).matches(),
            final(self).position() == sought(
                old(self).matches(),
                stepped(old(self).matches(), old(self).position()),
                target,
            ),
            result == skip_outcome(final(self).matches(), final(self).position(), target),
    {
        if !self.advance() {
            return SkipResult::End;
        }
        loop
            invariant
                self.inv(),
                sound(self.matches(), self.position()),
                self.continues(old(self)),
                self.matches() == old(self).matches(),
                0 <= self.position() < self.matches().len(),
                sought(self.matches(), self.position(), target) == sought(
                    old(self).matches(),
                    stepped(old(self).matches(), old(self).position()),
                    target,
                ),
            decreases self.matches().len() - self.position(),
        {
            let doc = self.doc();
            proof {
                let docs = self.matches();
                let here = self.position();
                assert(doc < target ==> sought(docs, here, target) == sought(
                    docs,
                    here + 1,
                    target,
                ));
                assert(sought(docs, docs.len() as int, target) == docs.len());
            }
            if doc == target {
                return SkipResult::Reached;
            } else if doc > target {
                return SkipResult::OverStep;
            }
            let ghost before = &*self;
            let found = self.advance();
            proof {
                self.lemma_continues_chain(before, old(self));
            }
            if !found {
                return SkipResult::End;
            }
        }
    }

    /// The document that the stream stands on.
    fn doc(&self) -> (doc: DocId)
        requires
            self.inv(),
            sound(self.matches(), self.position()),
            0 <= self.position() < self.matches().len(),
        ensures
            doc == self.matches()[self.position()],
    ;

    /// A cheap estimate of how many matches are left.
    fn size_hint(&self) -> (hint: u32)
        requires
            self.inv(),
            sound(self.matches(), self.position()),
        ensures
            hint == self.hint(),
    ;

    /// Visits the matches that are left and returns the number of those that
    /// `delete_bitset` does not mark as deleted.
    fn count(&mut self, delete_bitset: &DeleteBitSet) -> (count: u32)
        requires
            old(self).inv(),
            sound(old(self).matches(), old(self).position()),
        ensures
            final(self).inv(),
            sound(final(self).matches(), final(self).position()),
            final(self).continues(old(self)),
            final(self).matches() == old(self).matches(),
            final(self).position() == final(self).matches().len(),
            count == alive(rest(old(self).matches(), old(self).position()), delete_bitset).len(),
    {
        let mut count: u32 = 0;
        proof {
            self.lemma_continues_self();
        }
        let ghost docs = self.matches();
        let ghost start = self.position() + 1;
        proof {
            reveal(Seq::filter);
            if self.position() < docs.len() {
                assert(docs.subrange(start, start) =~= Seq::<DocId>::empty());
            }
        }
        loop
            invariant
                self.inv(),
                sound(self.matches(), self.position()),
                self.continues(old(self)),
                self.matches() == docs,
                docs == old(self).matches(),
                start == old(self).position() + 1,
                0 <= start <= self.position() + 1,
                self.position() < docs.len() || old(self).position() == docs.len(),
                self.position() < docs.len() ==> count == alive(
                    docs.subrange(start, self.position() + 1),
                    delete_bitset,
                ).len(),
                self.position() == docs.len() ==> count == 0,
            decreases docs.len() - self.position(),
        {
            let ghost before = &*self;
            let found = self.advance();
            proof {
                self.lemma_continues_chain(before, old(self));
            }
            if !found {
                proof {
                    if old(self).position() < docs.len() {
                        assert(docs.subrange(start, docs.len() as int) =~= rest(
                            docs,
                            old(self).position(),
                        ));
                    } else {
                        reveal(Seq::filter);
                    }
                }
                return count;
            }
            let doc = self.doc();
            proof {
                let passed = docs.subrange(start, self.position() as int);
                assert(docs.subrange(start, self.position() + 1) =~= passed.push(doc));
                passed.lemma_filter_push(doc, is_alive(delete_bitset));
                passed.push(doc).lemma_filter_len(is_alive(delete_bitset));
            }
            if !delete_bitset.is_deleted(doc) {
                count = count + 1;
            }
        }
    }

    /// Visits the matches that are left and returns their number.
    fn count_including_deleted(&mut self) -> (count: u32)
        requires
            old(self).inv(),
            sound(old(self).matches(), old(self).position()),
        ensures
            final(self).inv(),
            sound(final(self).matches(), final(self).position()),
            final(self).continues(old(self)),
            final(self).matches() == old(self).matches(),
            final(self).position() == final(self).matches().len(),
            count == rest(old(self).matches(), old(self).position()).len(),
    {
        let mut count: u32 = 0;
        proof {
            self.lemma_continues_self();
        }
        loop
            invariant
                self.inv(),
                sound(self.matches(), self.position()),
                self.continues(old(self)),
                self.matches() == old(self).matches(),
                -1 <= old(self).position() <= self.position(),
                self.position() < self.matches().len() || old(self).position()
                    == self.matches().len(),
                count == self.position() - old(self).position(),
            decreases self.matches().len() - self.position(),
        {
            let ghost before = &*self;
            let found = self.advance();
            proof {
                self.lemma_continues_chain(before, old(self));
            }
            if !found {
                return count;
            }
            count = count + 1;
        }
    }
}

} // verus!
