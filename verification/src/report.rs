//! The outcome of a reconciliation: what became of each post that was
//! to be published.

use vstd::prelude::*;
use crate::error::{FeedError, FeedErrorView};

verus! {

/// What became of one post that was to be published.
#[derive(Debug, Clone, PartialEq, Eq)]
pub enum PublishOutcome {
    /// The service created the post, and answered with its identifier and
    /// its title.
    Created { id: String, title: String },
    /// The post with this slug was not created, for this cause.
    Failed { slug: String, error: FeedError },
}

/// The mathematical value of a `PublishOutcome`.
pub enum PublishOutcomeView {
    Created { id: Seq<char>, title: Seq<char> },
    Failed { slug: Seq<char>, error: FeedErrorView },
}

impl View for PublishOutcome {
    type V = PublishOutcomeView;

    open spec fn view(&self) -> PublishOutcomeView {
        match self {
            PublishOutcome::Created { id, title } => PublishOutcomeView::Created {
                id: id@,
                title: title@,
            },
            PublishOutcome::Failed { slug, error } => PublishOutcomeView::Failed {
                slug: slug@,
                error: error@,
            },
        }
    }
}

/// The values of a list of outcomes.
pub open spec fn outcomes_view(outcomes: Seq<PublishOutcome>) -> Seq<PublishOutcomeView> {
    outcomes.map_values(|o: PublishOutcome| o@)
}

/// The number of posts created among `outcomes`.
pub open spec fn count_created(outcomes: Seq<PublishOutcomeView>) -> nat
    decreases outcomes.len(),
{
    if outcomes.len() == 0 {
        0
    } else if outcomes.last() is Created {
        count_created(outcomes.drop_last()) + 1
    } else {
        count_created(outcomes.drop_last())
    }
}

/// The failures among `outcomes`, in order.
pub open spec fn failures_of(outcomes: Seq<PublishOutcomeView>) -> Seq<PublishOutcomeView>
    decreases outcomes.len(),
{
    if outcomes.len() == 0 {
        Seq::empty()
    } else if outcomes.last() is Failed {
        failures_of(outcomes.drop_last()).push(outcomes.last())
    } else {
        failures_of(outcomes.drop_last())
    }
}

/// Every outcome is a creation or a failure: the two counts add up.
pub proof fn lemma_outcomes_add_up(outcomes: Seq<PublishOutcomeView>)
    ensures
        count_created(outcomes) + failures_of(outcomes).len() == outcomes.len(),
    decreases outcomes.len(),
{
    if outcomes.len() > 0 {
        lemma_outcomes_add_up(outcomes.drop_last());
    }
}

/// The summary of a reconciliation: the outcome of every post that was to
/// be published, in the order in which the outcomes came.
#[derive(Debug, Clone, PartialEq, Eq)]
pub struct SyncReport {
    outcomes: Vec<PublishOutcome>,
}

impl View for SyncReport {
    type V = Seq<PublishOutcomeView>;

    closed spec fn view(&self) -> Seq<PublishOutcomeView> {
        outcomes_view(self.outcomes@)
    }
}

impl SyncReport {
    /// A report without outcomes.
    pub fn new() -> (r: SyncReport)
        ensures
            r@ == Seq::<PublishOutcomeView>::empty(),
    {
        let r = SyncReport { outcomes: Vec::new() };
        assert(r@ =~= Seq::<PublishOutcomeView>::empty());
        r
    }

    /// Adds an outcome to the report.
    pub fn record(&mut self, outcome: PublishOutcome)
        ensures
            final(self)@ == old(self)@.push(outcome@),
    {
        self.outcomes.push(outcome);
        assert(self@ =~= old(self)@.push(outcome@));
    }

    /// The outcomes, in the order in which they came.
    pub fn outcomes(&self) -> (r: &Vec<PublishOutcome>)
        ensures
            outcomes_view(r@) == self@,
    {
        &self.outcomes
    }

    /// The number of posts that were to be published and have an outcome.
    pub fn attempted(&self) -> (n: usize)
        ensures
            n == self@.len(),
    {
        self.outcomes.len()
    }

    /// The number of posts that the service created.
    pub fn succeeded(&self) -> (n: usize)
        ensures
            n == count_created(self@),
    {
        let mut n: usize = 0;
        let mut i: usize = 0;
        assert(self@.take(0) =~= Seq::<PublishOutcomeView>::empty());
        while i < self.outcomes.len()
            invariant
                i <= self.outcomes.len(),
                n <= i,
                n == count_created(self@.take(i as int)),
            decreases self.outcomes.len() - i,
        {
            assert(self@.take(i + 1).drop_last() =~= self@.take(i as int));
            assert(self@.take(i + 1).last() == self.outcomes@[i as int]@);
            match &self.outcomes[i] {
                PublishOutcome::Created { .. } => {
                    n += 1;
                },
                PublishOutcome::Failed { .. } => {},
            }
            i += 1;
        }
        assert(self@.take(self@.len() as int) =~= self@);
        n
    }

    /// The failures, in the order in which they came.
    pub fn failures(&self) -> (r: Vec<&PublishOutcome>)
        ensures
            r@.map_values(|o: &PublishOutcome| o@) == failures_of(self@),
    {
        let mut failures: Vec<&PublishOutcome> = Vec::new();
        let mut i: usize = 0;
        assert(self@.take(0) =~= Seq::<PublishOutcomeView>::empty());
        while i < self.outcomes.len()
            invariant
                i <= self.outcomes.len(),
                failures@.map_values(|o: &PublishOutcome| o@) == failures_of(self@.take(i as int)),
            decreases self.outcomes.len() - i,
        {
            assert(self@.take(i + 1).drop_last() =~= self@.take(i as int));
            assert(self@.take(i + 1).last() == self.outcomes@[i as int]@);
            match &self.outcomes[i] {
                PublishOutcome::Failed { .. } => {
                    let ghost before = failures@;
                    failures.push(&self.outcomes[i]);
                    assert(failures@.map_values(|o: &PublishOutcome| o@) =~= before.map_values(
                        |o: &PublishOutcome| o@,
                    ).push(self.outcomes@[i as int]@));
                },
                PublishOutcome::Created { .. } => {},
            }
            i += 1;
        }
        assert(self@.take(self@.len() as int) =~= self@);
        failures
    }
}

} // verus!
