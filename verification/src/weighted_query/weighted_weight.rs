use super::weighted_scorer::WeightedScorer;
use crate::docset::DocId;
use crate::error::QueryError;
use crate::explanation::{Explanation, ExplanationView};
use crate::score::Score;
use crate::segment::SegmentReader;
use crate::weight::Weight;
use vstd::prelude::*;

verus! {

/// A weight that matches what another weight matches, and adds a fixed
/// offset to the score of every match.
pub struct WeightedWeight<W: Weight> {
    pub weight: W,
    pub score_weight: Score,
}

impl<W: Weight> Weight for WeightedWeight<W> {
    type Scorer = WeightedScorer<W::Scorer>;

    open spec fn inv(&self) -> bool {
        self.weight.inv()
    }

    open spec fn outcome(&self, reader: &SegmentReader) -> Result<Seq<DocId>, QueryError> {
        self.weight.outcome(reader)
    }

    open spec fn score_of(&self, reader: &SegmentReader, doc: DocId) -> Score {
        self.weight.score_of(reader, doc).sum(self.score_weight)
    }

    open spec fn explanation(&self, reader: &SegmentReader, doc: DocId) -> ExplanationView {
        self.weight.explanation(reader, doc)
    }

    fn scorer(&self, reader: &SegmentReader) -> (result: Result<Self::Scorer, QueryError>)
        ensures
            result matches Ok(scorer) ==> scorer.offset() == self.score_weight,
    {
        let scorer = self.weight.scorer(reader)?;
        Ok(WeightedScorer::new(scorer, self.score_weight))
    }

    fn explain(&self, reader: &SegmentReader, doc: DocId) -> (result: Result<
        Explanation,
        QueryError,
    >) {
        self.weight.explain(reader, doc)
    }

    fn count(&self, reader: &SegmentReader) -> (result: Result<u32, QueryError>) {
        self.weight.count(reader)
    }
}

impl<W: Weight> WeightedWeight<W> {
    /// Wraps `weight`.
    pub fn new(weight: W, score_weight: Score) -> (weighted: WeightedWeight<W>)
        ensures
            weighted.weight == weight,
            weighted.score_weight == score_weight,
    {
        WeightedWeight { weight: weight, score_weight: score_weight }
    }
}

/// Two offsets, one wrapped around the other, score a document as one
/// wrapper with their sum does, as long as no sum leaves its range; and
/// however a weight is wrapped, what it matches in a segment stays.
pub proof fn lemma_offsets_add<W: Weight>(
    weight: W,
    a: Score,
    b: Score,
    reader: &SegmentReader,
    doc: DocId,
)
    ensures
        ({
            let once = WeightedWeight { weight, score_weight: a };
            let twice = WeightedWeight { weight: once, score_weight: b };
            let summed = WeightedWeight { weight, score_weight: a.sum(b) };
            let score = weight.score_of(reader, doc);
            &&& once.outcome(reader) == weight.outcome(reader)
            &&& twice.outcome(reader) == weight.outcome(reader)
            &&& summed.outcome(reader) == weight.outcome(reader)
            &&& score.sums_exactly(a) && a.sums_exactly(b) && score.sum(a).sums_exactly(b)
                ==> twice.score_of(reader, doc) == summed.score_of(reader, doc)
        }),
{
}

} // verus!
