use crate::docset::{rest, sound, strictly_increasing, DocId, DocSet};
use crate::error::QueryError;
use crate::explanation::{Explanation, ExplanationView};
use crate::score::Score;
use crate::scorer::Scorer;
use crate::segment::{lemma_alive, SegmentReader};
use vstd::prelude::*;

verus! {

/// What `explain` returns for `doc`: the failure of the segment if it cannot
/// be read, a failure of its own kind if `doc` is no match, else the
/// explanation.
pub open spec fn explained(
    outcome: Result<Seq<DocId>, QueryError>,
    doc: DocId,
    explanation: ExplanationView,
) -> Result<ExplanationView, QueryError> {
    match outcome {
        Err(error) => Err(error),
        Ok(docs) => if docs.contains(doc) {
            Ok(explanation)
        } else {
            Err(QueryError::DocumentNotMatching(doc))
        },
    }
}

/// What `count` returns: the failure of the segment if it cannot be read,
/// else the number of matches that are not deleted.
pub open spec fn counted(outcome: Result<Seq<DocId>, QueryError>, reader: &SegmentReader) -> Result<
    u32,
    QueryError,
> {
    match outcome {
        Err(error) => Err(error),
        Ok(docs) => Ok(reader.live(docs).len() as u32),
    }
}

/// The count of the matches `docs` in a segment is the number of those that
/// are not deleted there: each of them is counted once, and the count is
/// never above the number of matches.
pub proof fn lemma_count_is_deletion_aware(docs: Seq<DocId>, reader: &SegmentReader)
    requires
        strictly_increasing(docs),
        docs.len() <= u32::MAX,
    ensures
        counted(Ok(docs), reader) == Ok::<u32, QueryError>(reader.live(docs).len() as u32),
        reader.live(docs).len() <= docs.len(),
        reader.live(docs).no_duplicates(),
        forall|doc: DocId|
            reader.live(docs).contains(doc) <==> docs.contains(doc) && !reader.deleted(doc),
{
    match reader.spec_delete_bitset() {
        Some(bitset) => {
            lemma_alive(docs, &bitset);
        },
        None => {},
    }
}

/// A query bound to the segments of one search.
///
/// The model of a weight says, for each segment, which documents it matches
/// there, in order, or why the segment cannot answer; what each document
/// scores; and how each match is explained.
pub trait Weight: Send + Sync + 'static {
    /// The streams that this weight makes.
    type Scorer: Scorer;

    /// What the implementation keeps true of its own state.
    spec fn inv(&self) -> bool;

    /// The matches in the segment, or the failure of the segment.
    spec fn outcome(&self, reader: &SegmentReader) -> Result<Seq<DocId>, QueryError>;

    /// The score of `doc` in the segment.
    spec fn score_of(&self, reader: &SegmentReader, doc: DocId) -> Score;

    /// The explanation of the match `doc` in the segment.
    spec fn explanation(&self, reader: &SegmentReader, doc: DocId) -> ExplanationView;

    /// Makes a fresh stream of the matches in the segment.
    fn scorer(&self, reader: &SegmentReader) -> (result: Result<Self::Scorer, QueryError>)
        requires
            self.inv(),
        ensures
            match result {
                Ok(scorer) => {
                    &&& scorer.inv()
                    &&& sound(scorer.matches(), scorer.position())
                    &&& scorer.position() == -1
                    &&& self.outcome(reader) == Ok::<Seq<DocId>, QueryError>(scorer.matches())
                    &&& forall|doc: DocId| #[trigger]
                        scorer.score_of(doc) == self.score_of(reader, doc)
                },
                Err(error) => self.outcome(reader) == Err::<Seq<DocId>, QueryError>(error),
            },
    ;

    /// Explains the score of `doc`, which must be a match.
    fn explain(&self, reader: &SegmentReader, doc: DocId) -> (result: Result<
        Explanation,
        QueryError,
    >)
        requires
            self.inv(),
        ensures
            explained(self.outcome(reader), doc, self.explanation(reader, doc)) == match result {
                Ok(explanation) => Ok::<ExplanationView, QueryError>(explanation@),
                Err(error) => Err::<ExplanationView, QueryError>(error),
            },
    ;

    /// Counts the matches in the segment that are not deleted. An
    /// implementation may count in a cheaper way, with the same result.
    fn count(&self, reader: &SegmentReader) -> (result: Result<u32, QueryError>)
        requires
            self.inv(),
        ensures
            result == counted(self.outcome(reader), reader),
    {
        let mut scorer = self.scorer(reader)?;
        proof {
            assert(rest(scorer.matches(), -1) =~= scorer.matches());
        }
        if let Some(delete_bitset) = reader.delete_bitset() {
            Ok(scorer.count(delete_bitset))
        } else {
            Ok(scorer.count_including_deleted())
        }
    }
}

/// A stream that a weight made scores every document as the weight says,
/// however far it has moved since.
pub proof fn lemma_stream_scores_as_weight<W: Weight>(
    weight: &W,
    reader: &SegmentReader,
    fresh: &W::Scorer,
    later: &W::Scorer,
    doc: DocId,
)
    requires
        fresh.score_of(doc) == weight.score_of(reader, doc),
        later.continues(fresh),
    ensures
        later.score_of(doc) == weight.score_of(reader, doc),
{
    later.lemma_scores_continue(fresh, doc);
}

/// A boxed weight is the weight in the box: every call is handed on.
impl<W: Weight + ?Sized> Weight for Box<W> {
    type Scorer = W::Scorer;

    open spec fn inv(&self) -> bool {
        (**self).inv()
    }

    open spec fn outcome(&self, reader: &SegmentReader) -> Result<Seq<DocId>, QueryError> {
        (**self).outcome(reader)
    }

    open spec fn score_of(&self, reader: &SegmentReader, doc: DocId) -> Score {
        (**self).score_of(reader, doc)
    }

    open spec fn explanation(&self, reader: &SegmentReader, doc: DocId) -> ExplanationView {
        (**self).explanation(reader, doc)
    }

    fn scorer(&self, reader: &SegmentReader) -> (result: Result<Self::Scorer, QueryError>) {
        (**self).scorer(reader)
    }

    fn explain(&self, reader: &SegmentReader, doc: DocId) -> (result: Result<
        Explanation,
        QueryError,
    >) {
        (**self).explain(reader, doc)
    }

    fn count(&self, reader: &SegmentReader) -> (result: Result<u32, QueryError>) {
        (**self).count(reader)
    }
}

} // verus!
