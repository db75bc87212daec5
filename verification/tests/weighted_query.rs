use query_core::{
    AllQuery, AllScorer, AllWeight, DeleteBitSet, DocSet, Explanation, Query, QueryError, Score,
    Scorer, Searcher, SegmentReader, SkipResult, Term, Weight, WeightedQuery, WeightedScorer,
    WeightedWeight,
};
use std::collections::BTreeSet;

fn searcher() -> Searcher {
    Searcher::new(vec![SegmentReader::new(4, None)])
}

fn docs_and_scores<S: Scorer>(scorer: &mut S) -> Vec<(u32, Score)> {
    let mut seen = Vec::new();
    while scorer.advance() {
        seen.push((scorer.doc(), scorer.score()));
    }
    seen
}

#[test]
fn weighted_scorer_adds_the_offset_to_every_score() {
    let mut scorer = WeightedScorer::new(AllScorer::new(3), Score::new(1, 2_000_000));
    let expected = Score::new(1, 3_000_000);
    assert_eq!(docs_and_scores(&mut scorer), vec![(0, expected), (1, expected), (2, expected)]);
}

#[test]
fn weighted_scorer_visits_what_the_inner_scorer_visits() {
    let mut inner = AllScorer::new(20);
    let mut weighted = WeightedScorer::new(AllScorer::new(20), Score::new(7, 7));
    assert_eq!(weighted.size_hint(), inner.size_hint());
    assert_eq!(weighted.advance(), inner.advance());
    assert_eq!(weighted.doc(), inner.doc());
    assert_eq!(weighted.skip_next(9), inner.skip_next(9));
    assert_eq!(weighted.doc(), inner.doc());
    assert_eq!(weighted.skip_next(4), inner.skip_next(4));
    assert_eq!(weighted.doc(), inner.doc());
    assert_eq!(weighted.advance(), inner.advance());
    assert_eq!(weighted.doc(), inner.doc());
    assert_eq!(weighted.size_hint(), inner.size_hint());
    assert_eq!(weighted.skip_next(20), inner.skip_next(20));
    assert_eq!(weighted.skip_next(20), SkipResult::End);
    assert_eq!(weighted.advance(), inner.advance());
}

#[test]
fn weighted_scorer_counts_as_the_inner_scorer_does() {
    let bitset = DeleteBitSet::from_bytes(vec![0b0001_1000]);
    let mut inner = AllScorer::new(8);
    let mut weighted = WeightedScorer::new(AllScorer::new(8), Score::new(0, 5));
    assert_eq!(weighted.count(&bitset), inner.count(&bitset));
    let mut weighted = WeightedScorer::new(AllScorer::new(8), Score::new(0, 5));
    assert_eq!(weighted.count(&bitset), 6);
    let mut weighted = WeightedScorer::new(AllScorer::new(8), Score::new(0, 5));
    assert_eq!(weighted.count_including_deleted(), 8);
}

#[test]
fn two_offsets_score_as_their_sum() {
    let a = Score::new(1, 500_000);
    let b = Score::new(2, 250_000);
    let mut twice = WeightedScorer::new(WeightedScorer::new(AllScorer::new(5), a), b);
    let mut summed = WeightedScorer::new(AllScorer::new(5), a.plus(b));
    let mut plain = AllScorer::new(5);
    let from_twice = docs_and_scores(&mut twice);
    let from_summed = docs_and_scores(&mut summed);
    let from_plain = docs_and_scores(&mut plain);
    assert_eq!(from_twice, from_summed);
    assert_eq!(from_twice[0], (0, Score::new(3, 1_750_000)));
    let docs = |seen: &Vec<(u32, Score)>| seen.iter().map(|hit| hit.0).collect::<Vec<u32>>();
    assert_eq!(docs(&from_twice), docs(&from_plain));
    assert_eq!(docs(&from_summed), vec![0, 1, 2, 3, 4]);
}

#[test]
fn weighted_query_compiles_to_a_weight_with_its_offset() {
    let query = WeightedQuery::new(AllQuery, Score::new(1, 2_000_000));
    let weight = query.weight(&searcher(), true).unwrap();
    assert_eq!(weight.score_weight, Score::new(1, 2_000_000));
    let reader = SegmentReader::new(2, None);
    let mut scorer = weight.scorer(&reader).unwrap();
    let expected = Score::new(1, 3_000_000);
    assert_eq!(docs_and_scores(&mut scorer), vec![(0, expected), (1, expected)]);
}

#[test]
fn nested_weighted_queries_score_as_one_with_the_sum() {
    let a = Score::new(1, 2_000_000);
    let b = Score::new(3, -500_000);
    let reader = SegmentReader::new(3, None);
    let twice = WeightedQuery::new(WeightedQuery::new(AllQuery, a), b);
    let summed = WeightedQuery::new(AllQuery, a.plus(b));
    let mut from_twice = twice.weight(&searcher(), true).unwrap().scorer(&reader).unwrap();
    let mut from_summed = summed.weight(&searcher(), true).unwrap().scorer(&reader).unwrap();
    let seen = docs_and_scores(&mut from_twice);
    assert_eq!(seen, docs_and_scores(&mut from_summed));
    let expected = Score::new(4, 2_500_000);
    assert_eq!(seen, vec![(0, expected), (1, expected), (2, expected)]);
}

#[test]
fn weighted_query_has_the_terms_of_the_inner_query() {
    let query = WeightedQuery::new(AllQuery, Score::new(0, 1));
    let mut terms = BTreeSet::new();
    terms.insert(Term { field: 1, text: "diary".to_string() });
    query.query_terms(&mut terms);
    assert_eq!(terms.len(), 1);
    assert!(terms.contains(&Term { field: 1, text: "diary".to_string() }));
}

#[test]
fn weighted_weight_counts_documents_that_are_not_deleted() {
    // Documents 1 and 3 are deleted.
    let bitset = DeleteBitSet::from_bytes(vec![0b0000_1010]);
    let reader = SegmentReader::new(6, Some(bitset));
    let weight = WeightedWeight::new(AllWeight, Score::new(9, 9));
    assert_eq!(weight.count(&reader), Ok(4));
    let mut scorer = weight.scorer(&reader).unwrap();
    let all = scorer.count_including_deleted();
    assert_eq!(all, 6);
    assert!(weight.count(&reader).unwrap() <= all);
}

#[test]
fn weight_counts_everything_without_a_bitmap() {
    let reader = SegmentReader::new(6, None);
    assert_eq!(AllWeight.count(&reader), Ok(6));
    assert_eq!(WeightedWeight::new(AllWeight, Score::new(0, 0)).count(&reader), Ok(6));
}

#[test]
fn weighted_weight_explains_as_the_inner_weight_does() {
    let reader = SegmentReader::new(6, None);
    let weight = WeightedWeight::new(AllWeight, Score::new(1, 1));
    let explanation: Explanation = weight.explain(&reader, 5).ok().unwrap();
    assert_eq!(explanation.value, Score::new(0, 1_000_000));
    assert_eq!(explanation.description, "AllQuery");
    assert!(explanation.details.is_empty());
}

#[test]
fn explaining_a_document_that_does_not_match_fails() {
    let reader = SegmentReader::new(6, None);
    let weight = WeightedWeight::new(AllWeight, Score::new(1, 1));
    assert_eq!(weight.explain(&reader, 6).err(), Some(QueryError::DocumentNotMatching(6)));
    assert_eq!(AllWeight.explain(&reader, 70).err(), Some(QueryError::DocumentNotMatching(70)));
}

#[test]
fn boxed_weight_behaves_as_the_weight_in_it() {
    let bitset = DeleteBitSet::from_bytes(vec![0b0000_0001]);
    let reader = SegmentReader::new(3, Some(bitset));
    let boxed = Box::new(WeightedWeight::new(AllWeight, Score::new(2, 0)));
    assert_eq!(boxed.count(&reader), Ok(2));
    assert_eq!(boxed.explain(&reader, 3).err(), Some(QueryError::DocumentNotMatching(3)));
    let mut scorer = boxed.scorer(&reader).unwrap();
    assert!(scorer.advance());
    assert_eq!(scorer.score(), Score::new(2, 1_000_000));
}

#[test]
fn explanation_collects_its_details() {
    let mut explanation = Explanation::new("sum".to_string(), Score::new(0, 3));
    explanation.add_detail(Explanation::new("left".to_string(), Score::new(0, 1)));
    explanation.add_detail(Explanation::new("right".to_string(), Score::new(0, 2)));
    assert_eq!(explanation.details.len(), 2);
    assert_eq!(explanation.details[0].description, "left");
    assert_eq!(explanation.details[1].value, Score::new(0, 2));
}

#[test]
fn reader_hands_out_what_it_was_made_of() {
    let reader = SegmentReader::new(6, Some(DeleteBitSet::from_bytes(vec![1])));
    assert_eq!(reader.max_doc(), 6);
    assert!(reader.delete_bitset().unwrap().is_deleted(0));
    assert!(SegmentReader::new(6, None).delete_bitset().is_none());
    assert_eq!(searcher().segment_readers().len(), 1);
}
