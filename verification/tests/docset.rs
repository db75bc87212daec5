use query_core::{AllScorer, DeleteBitSet, DocSet, Scorer, Score, SkipResult};

#[test]
fn fresh_stream_advances_through_every_document() {
    let mut scorer = AllScorer::new(3);
    assert!(scorer.advance());
    assert_eq!(scorer.doc(), 0);
    assert!(scorer.advance());
    assert_eq!(scorer.doc(), 1);
    assert!(scorer.advance());
    assert_eq!(scorer.doc(), 2);
    assert!(!scorer.advance());
}

#[test]
fn advance_past_the_end_keeps_answering_false() {
    let mut scorer = AllScorer::new(1);
    assert!(scorer.advance());
    assert!(!scorer.advance());
    assert!(!scorer.advance());
    assert!(!scorer.advance());
}

#[test]
fn empty_segment_has_no_match() {
    let mut scorer = AllScorer::new(0);
    assert!(!scorer.advance());
    assert_eq!(scorer.skip_next(0), SkipResult::End);
    assert_eq!(scorer.count_including_deleted(), 0);
}

#[test]
fn skip_reaches_the_target() {
    let mut scorer = AllScorer::new(10);
    assert_eq!(scorer.skip_next(7), SkipResult::Reached);
    assert_eq!(scorer.doc(), 7);
}

#[test]
fn skip_oversteps_a_target_behind_the_stream() {
    let mut scorer = AllScorer::new(10);
    assert_eq!(scorer.skip_next(5), SkipResult::Reached);
    assert_eq!(scorer.skip_next(3), SkipResult::OverStep);
    assert_eq!(scorer.doc(), 6);
}

#[test]
fn skip_to_the_current_document_moves_on() {
    let mut scorer = AllScorer::new(10);
    assert!(scorer.advance());
    assert_eq!(scorer.doc(), 0);
    assert_eq!(scorer.skip_next(0), SkipResult::OverStep);
    assert_eq!(scorer.doc(), 1);
}

#[test]
fn skip_past_the_last_document_ends_the_stream() {
    let mut scorer = AllScorer::new(10);
    assert_eq!(scorer.skip_next(10), SkipResult::End);
    assert!(!scorer.advance());
    assert_eq!(scorer.skip_next(2), SkipResult::End);
}

#[test]
fn documents_increase_under_mixed_calls() {
    let mut scorer = AllScorer::new(100);
    let mut seen = Vec::new();
    assert!(scorer.advance());
    seen.push(scorer.doc());
    assert_eq!(scorer.skip_next(10), SkipResult::Reached);
    seen.push(scorer.doc());
    assert!(scorer.advance());
    seen.push(scorer.doc());
    assert_eq!(scorer.skip_next(5), SkipResult::OverStep);
    seen.push(scorer.doc());
    assert_eq!(scorer.skip_next(50), SkipResult::Reached);
    seen.push(scorer.doc());
    assert_eq!(seen, vec![0, 10, 11, 12, 50]);
    for pair in seen.windows(2) {
        assert!(pair[0] < pair[1]);
    }
}

#[test]
fn size_hint_is_the_number_of_documents() {
    let scorer = AllScorer::new(42);
    assert_eq!(scorer.size_hint(), 42);
}

#[test]
fn count_including_deleted_counts_what_is_left() {
    let mut scorer = AllScorer::new(10);
    assert!(scorer.advance());
    assert!(scorer.advance());
    assert_eq!(scorer.count_including_deleted(), 8);
    assert_eq!(scorer.count_including_deleted(), 0);
    assert!(!scorer.advance());
}

#[test]
fn count_leaves_deleted_documents_out() {
    // Documents 0, 2 and 9 are deleted.
    let bitset = DeleteBitSet::from_bytes(vec![0b0000_0101, 0b0000_0010]);
    let mut scorer = AllScorer::new(10);
    assert_eq!(scorer.count(&bitset), 7);
    assert!(!scorer.advance());
}

#[test]
fn count_starts_after_the_current_document() {
    // Documents 0, 2 and 9 are deleted.
    let bitset = DeleteBitSet::from_bytes(vec![0b0000_0101, 0b0000_0010]);
    let mut scorer = AllScorer::new(10);
    assert_eq!(scorer.skip_next(2), SkipResult::Reached);
    assert_eq!(scorer.count(&bitset), 6);
}

#[test]
fn count_with_an_empty_bitmap_counts_everything() {
    let bitset = DeleteBitSet::from_bytes(Vec::new());
    let mut scorer = AllScorer::new(10);
    assert_eq!(scorer.count(&bitset), 10);
}

#[test]
fn bitmap_reads_one_bit_for_each_document() {
    let bitset = DeleteBitSet::from_bytes(vec![0b1000_0001, 0b0000_0100]);
    assert!(bitset.is_deleted(0));
    assert!(!bitset.is_deleted(1));
    assert!(bitset.is_deleted(7));
    assert!(!bitset.is_deleted(8));
    assert!(bitset.is_deleted(10));
    assert!(!bitset.is_deleted(15));
}

#[test]
fn document_beyond_the_bitmap_is_alive() {
    let bitset = DeleteBitSet::from_bytes(vec![0xff]);
    assert!(bitset.is_deleted(7));
    assert!(!bitset.is_deleted(8));
    assert!(!bitset.is_deleted(u32::MAX));
}

#[test]
fn boxed_stream_behaves_as_the_stream_in_it() {
    let mut boxed = Box::new(AllScorer::new(5));
    assert_eq!(boxed.size_hint(), 5);
    assert_eq!(boxed.skip_next(3), SkipResult::Reached);
    assert_eq!(boxed.doc(), 3);
    assert_eq!(boxed.score(), Score::new(0, 1_000_000));
    assert_eq!(boxed.count_including_deleted(), 1);
}
