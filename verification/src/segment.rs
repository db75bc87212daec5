use crate::docset::DocId;
use vstd::prelude::*;

verus! {

/// The documents of a segment that were deleted, one bit for each document:
/// bit `doc % 8` of byte `doc / 8` is set when `doc` is deleted. A document
/// beyond the last byte is alive.
pub struct DeleteBitSet {
    bytes: Vec<u8>,
}

/// Whether the bit of `doc` is set in `bytes`.
pub open spec fn bit_is_set(bytes: Seq<u8>, doc: DocId) -> bool {
    &&& doc / 8 < bytes.len()
    &&& (bytes[(doc / 8) as int] >> (doc % 8)) & 1 == 1
}

impl View for DeleteBitSet {
    type V = Seq<u8>;

    closed spec fn view(&self) -> Seq<u8> {
        self.bytes@
    }
}

impl DeleteBitSet {
    /// Whether `doc` is marked as deleted.
    pub open spec fn deleted(&self, doc: DocId) -> bool {
        bit_is_set(self@, doc)
    }

    /// The bitmap with the given bytes.
    pub fn from_bytes(bytes: Vec<u8>) -> (bitset: DeleteBitSet)
        ensures
            bitset@ == bytes@,
    {
        DeleteBitSet { bytes }
    }

    /// Tells whether `doc` is marked as deleted.
    pub fn is_deleted(&self, doc: DocId) -> (deleted: bool)
        ensures
            deleted == self.deleted(doc),
    {
        let index: usize = (doc / 8) as usize;
        if index < self.bytes.len() {
            let shift: u32 = doc % 8;
            (self.bytes[index] >> shift) & 1 == 1
        } else {
            false
        }
    }
}

/// The test that a document passes when `bitset` does not mark it as deleted.
pub open spec fn is_alive(bitset: &DeleteBitSet) -> spec_fn(DocId) -> bool {
    |doc: DocId| !bitset.deleted(doc)
}

/// The matches among `docs` that `bitset` does not mark as deleted, in order.
pub open spec fn alive(docs: Seq<DocId>, bitset: &DeleteBitSet) -> Seq<DocId> {
    docs.filter(is_alive(bitset))
}

/// The matches that are alive are those that the bitmap does not mark, each
/// once, and there are no more of them than matches.
pub proof fn lemma_alive(docs: Seq<DocId>, bitset: &DeleteBitSet)
    requires
        docs.no_duplicates(),
    ensures
        alive(docs, bitset).len() <= docs.len(),
        alive(docs, bitset).no_duplicates(),
        forall|doc: DocId|
            alive(docs, bitset).contains(doc) <==> docs.contains(doc) && !bitset.deleted(doc),
    decreases docs.len(),
{
    reveal(Seq::filter);
    let test = is_alive(bitset);
    if docs.len() > 0 {
        let front = docs.drop_last();
        let last = docs.last();
        lemma_alive(front, bitset);
        assert(docs =~= front.push(last));
        front.lemma_filter_push(last, test);
        assert forall|doc: DocId|
            alive(docs, bitset).contains(doc) <==> docs.contains(doc) && !bitset.deleted(
                doc,
            ) by {
            if alive(docs, bitset).contains(doc) {
                let i = choose|i: int|
                    0 <= i < alive(docs, bitset).len() && alive(docs, bitset)[i] == doc;
                if i < alive(front, bitset).len() {
                    assert(alive(front, bitset).contains(doc));
                    let j = choose|j: int| 0 <= j < front.len() && front[j] == doc;
                    assert(docs[j] == doc);
                } else {
                    assert(docs[docs.len() - 1] == doc);
                }
            }
            if docs.contains(doc) && !bitset.deleted(doc) {
                let j = choose|j: int| 0 <= j < docs.len() && docs[j] == doc;
                if j < front.len() {
                    assert(front[j] == doc);
                    assert(alive(front, bitset).contains(doc));
                    let i = choose|i: int|
                        0 <= i < alive(front, bitset).len() && alive(front, bitset)[i] == doc;
                    assert(alive(docs, bitset)[i] == doc);
                } else {
                    assert(alive(docs, bitset)[alive(front, bitset).len() as int] == doc);
                }
            }
        }
        assert(alive(docs, bitset).no_duplicates()) by {
            if test(last) {
                if alive(front, bitset).contains(last) {
                    let j = choose|j: int| 0 <= j < front.len() && front[j] == last;
                    assert(docs[j] == docs[docs.len() - 1]);
                }
            }
        }
    }
}

/// What a query reads of one segment of the index: how many documents it
/// holds, and which of them were deleted.
pub struct SegmentReader {
    max_doc: DocId,
    delete_bitset: Option<DeleteBitSet>,
}

impl SegmentReader {
    /// The number of documents of the segment, deleted ones included; its
    /// documents are those below this number.
    pub closed spec fn spec_max_doc(&self) -> DocId {
        self.max_doc
    }

    /// The delete bitmap of the segment, if it has one.
    pub closed spec fn spec_delete_bitset(&self) -> Option<DeleteBitSet> {
        self.delete_bitset
    }

    /// Whether the segment marks `doc` as deleted.
    pub open spec fn deleted(&self, doc: DocId) -> bool {
        match self.spec_delete_bitset() {
            Some(bitset) => bitset.deleted(doc),
            None => false,
        }
    }

    /// The matches among `docs` that count in this segment: all of them
    /// without a delete bitmap, else those that it does not mark.
    pub open spec fn live(&self, docs: Seq<DocId>) -> Seq<DocId> {
        match self.spec_delete_bitset() {
            Some(bitset) => alive(docs, &bitset),
            None => docs,
        }
    }

    /// A reader of a segment of `max_doc` documents.
    pub fn new(max_doc: DocId, delete_bitset: Option<DeleteBitSet>) -> (reader: SegmentReader)
        ensures
            reader.spec_max_doc() == max_doc,
            reader.spec_delete_bitset() == delete_bitset,
    {
        SegmentReader { max_doc, delete_bitset }
    }

    /// Returns the number of documents of the segment, deleted ones included.
    pub fn max_doc(&self) -> (max_doc: DocId)
        ensures
            max_doc == self.spec_max_doc(),
    {
        self.max_doc
    }

    /// Returns the delete bitmap of the segment, if it has one.
    pub fn delete_bitset(&self) -> (bitset: Option<&DeleteBitSet>)
        ensures
            match bitset {
                Some(b) => self.spec_delete_bitset() == Some(*b),
                None => self.spec_delete_bitset() is None,
            },
    {
        self.delete_bitset.as_ref()
    }
}

/// The segments that one search visits.
pub struct Searcher {
    segment_readers: Vec<SegmentReader>,
}

impl View for Searcher {
    type V = Seq<SegmentReader>;

    closed spec fn view(&self) -> Seq<SegmentReader> {
        self.segment_readers@
    }
}

impl Searcher {
    /// A searcher over the given segments.
    pub fn new(segment_readers: Vec<SegmentReader>) -> (searcher: Searcher)
        ensures
            searcher@ == segment_readers@,
    {
        Searcher { segment_readers }
    }

    /// Returns the readers of the segments, in order.
    pub fn segment_readers(&self) -> (readers: &Vec<SegmentReader>)
        ensures
            readers@ == self@,
    {
        &self.segment_readers
    }
}

/// A term of one field, as a term dictionary holds it.
#[derive(Clone, Debug, PartialEq, Eq, PartialOrd, Ord, Hash)]
pub struct Term {
    pub field: u32,
    pub text: String,
}

} // verus!
