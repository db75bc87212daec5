//! Query-execution core of a full-text search engine: the parsed query tree,
//! the document traversal protocol, and the query / weight / scorer pipeline
//! with its weighted decorator.

pub mod all_query;
pub mod decimal;
pub mod docset;
pub mod error;
pub mod explanation;
pub mod occur;
pub mod query;
pub mod rendering;
pub mod score;
pub mod scorer;
pub mod segment;
pub mod user_input_ast;
pub mod vec_docset;
pub mod weight;
pub mod weighted_query;

pub use all_query::{AllQuery, AllScorer, AllWeight};
pub use docset::{DocId, DocSet, SkipResult};
pub use error::QueryError;
pub use explanation::Explanation;
pub use occur::Occur;
pub use query::Query;
pub use score::Score;
pub use scorer::Scorer;
pub use segment::{DeleteBitSet, Searcher, SegmentReader, Term};
pub use vec_docset::{ConstScorer, VecDocSet};
pub use weight::Weight;
pub use weighted_query::{WeightedQuery, WeightedScorer, WeightedWeight};
pub use user_input_ast::{
    UserInputAST, UserInputBound, UserInputField, UserInputLeaf, UserInputLiteral,
};
