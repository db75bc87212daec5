use crate::score::Score;
use vstd::prelude::*;

verus! {

/// How the score of one document came about: a value, what it stands for,
/// and the parts that it was made of.
pub struct Explanation {
    pub value: Score,
    pub description: String,
    pub details: Vec<Explanation>,
}

/// Mathematical value of an [`Explanation`].
pub struct ExplanationView {
    pub value: Score,
    pub description: Seq<char>,
    pub details: Seq<ExplanationView>,
}

impl Explanation {
    /// The value of the explanation.
    pub open spec fn model(self) -> ExplanationView
        decreases self, 0nat,
    {
        ExplanationView {
            value: self.value,
            description: self.description@,
            details: models(self.details@),
        }
    }
}

/// The values of a list of explanations, in order.
pub open spec fn models(details: Seq<Explanation>) -> Seq<ExplanationView>
    decreases details, 1nat,
{
    if details.len() == 0 {
        Seq::empty()
    } else {
        models(details.drop_last()).push(details.last().model())
    }
}

impl View for Explanation {
    type V = ExplanationView;

    open spec fn view(&self) -> ExplanationView {
        self.model()
    }
}

impl Explanation {
    /// An explanation without parts.
    pub fn new(description: String, value: Score) -> (explanation: Explanation)
        ensures
            explanation@ == (ExplanationView {
                value,
                description: description@,
                details: Seq::empty(),
            }),
    {
        Explanation { value, description, details: Vec::new() }
    }

    /// Adds one part to the explanation.
    pub fn add_detail(&mut self, detail: Explanation)
        ensures
            final(self)@ == (ExplanationView {
                details: old(self)@.details.push(detail@),
                ..old(self)@
            }),
    {
        self.details.push(detail);
        proof {
            assert(self.details@.drop_last() =~= old(self).details@);
        }
    }
}

} // verus!
