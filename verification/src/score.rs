use vstd::prelude::*;

verus! {

/// The relevance of a match: a rank, which orders results first, and a
/// relevance in millionths, which orders results of one rank.
#[derive(Clone, Copy, Debug, PartialEq, Eq, Hash, Structural)]
pub struct Score {
    pub rank: u32,
    pub relevance: i64,
}

/// `sum`, held to the range of a rank.
pub open spec fn clamped_rank(sum: int) -> u32 {
    if sum > u32::MAX {
        u32::MAX
    } else if sum < 0 {
        0u32
    } else {
        sum as u32
    }
}

/// `sum`, held to the range of a relevance.
pub open spec fn clamped_relevance(sum: int) -> i64 {
    if sum > i64::MAX {
        i64::MAX
    } else if sum < i64::MIN {
        i64::MIN
    } else {
        sum as i64
    }
}

impl Score {
    /// One whole unit of relevance, in millionths.
    pub const UNIT: i64 = 1_000_000;

    /// A score of the given rank and relevance.
    pub fn new(rank: u32, relevance: i64) -> (score: Score)
        ensures
            score == (Score { rank, relevance }),
    {
        Score { rank, relevance }
    }

    /// The sum of two scores, part by part; a sum that leaves the range of its
    /// part stops at the end of that range.
    pub open spec fn sum(self, other: Score) -> Score {
        Score {
            rank: clamped_rank(self.rank + other.rank),
            relevance: clamped_relevance(self.relevance + other.relevance),
        }
    }

    /// Neither part of the sum of the two scores leaves its range.
    pub open spec fn sums_exactly(self, other: Score) -> bool {
        &&& self.rank + other.rank <= u32::MAX
        &&& i64::MIN <= self.relevance + other.relevance <= i64::MAX
    }

    /// Adds two scores.
    pub fn plus(self, other: Score) -> (total: Score)
        ensures
            total == self.sum(other),
    {
        let rank = if self.rank > u32::MAX - other.rank {
            u32::MAX
        } else {
            self.rank + other.rank
        };
        let relevance = if other.relevance >= 0 {
            if self.relevance > i64::MAX - other.relevance {
                i64::MAX
            } else {
                self.relevance + other.relevance
            }
        } else {
            if self.relevance < i64::MIN - other.relevance {
                i64::MIN
            } else {
                self.relevance + other.relevance
            }
        };
        Score { rank, relevance }
    }
}

/// Sums that stay in range can be regrouped: adding `a` and then `b` gives
/// what adding the sum of `a` and `b` gives.
pub proof fn lemma_sum_regroups(score: Score, a: Score, b: Score)
    requires
        score.sums_exactly(a),
        a.sums_exactly(b),
        score.sum(a).sums_exactly(b),
    ensures
        score.sum(a).sum(b) == score.sum(a.sum(b)),
{
}

} // verus!
