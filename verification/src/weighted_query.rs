//! A query with a fixed score added to every match: the query, the weight it
//! compiles to, and the stream that the weight makes.

pub mod weighted_query;
pub mod weighted_scorer;
pub mod weighted_weight;

pub use self::weighted_query::WeightedQuery;
pub use self::weighted_scorer::WeightedScorer;
pub use self::weighted_weight::WeightedWeight;
