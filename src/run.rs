//! The orchestrator's decisions: which group runs next, given how the groups
//! before it ended. A launch failure in any group ends the run.
use vstd::prelude::*;

verus! {

/// What the driver does next.
#[derive(Clone, Copy, Debug, PartialEq, Eq, Structural)]
pub enum Step {
    /// Run every task of the group with this index, and report the outcome.
    RunGroup(usize),
    /// Every group completed without a launch failure.
    Finished,
    /// The group with this index reported a launch failure; nothing more runs.
    Aborted(usize),
}

/// The progress of a run over a fixed number of groups.
pub struct Run {
    n_groups: usize,
    next: usize,
    failed: bool,
}

pub struct RunView {
    /// How many groups the plan has.
    pub n_groups: nat,
    /// How many groups have completed without failure.
    pub done: nat,
    /// Whether group `done` reported a launch failure.
    pub failed: bool,
}

impl View for Run {
    type V = RunView;

    closed spec fn view(&self) -> RunView {
        RunView { n_groups: self.n_groups as nat, done: self.next as nat, failed: self.failed }
    }
}

/// A reachable state: no more groups done than there are, and a failure only
/// in a group that exists.
pub open spec fn run_wf(r: RunView) -> bool {
    &&& r.done <= r.n_groups
    &&& r.failed ==> r.done < r.n_groups
}

/// The step that a state calls for.
pub open spec fn step_of(r: RunView) -> Step {
    if r.failed {
        Step::Aborted(r.done as usize)
    } else if r.done < r.n_groups {
        Step::RunGroup(r.done as usize)
    } else {
        Step::Finished
    }
}

/// The state after the running group reports: on success the next group is
/// due, on failure the run is aborted. A report when no group runs changes
/// nothing.
pub open spec fn record_of_outcome(r: RunView, ok: bool) -> RunView {
    if r.failed || r.done >= r.n_groups {
        r
    } else if ok {
        RunView { done: r.done + 1, ..r }
    } else {
        RunView { failed: true, ..r }
    }
}

/// The state after the outcomes reported so far, from a fresh run.
pub open spec fn run_after(n_groups: nat, outcomes: Seq<bool>) -> RunView
    decreases outcomes.len(),
{
    if outcomes.len() == 0 {
        RunView { n_groups, done: 0, failed: false }
    } else {
        record_of_outcome(run_after(n_groups, outcomes.drop_last()), outcomes.last())
    }
}

impl Run {
    /// A run over `n_groups` groups, none of them started.
    pub fn new(n_groups: usize) -> (r: Run)
        ensures
            r@ == run_after(n_groups as nat, Seq::empty()),
            run_wf(r@),
    {
        Run { n_groups, next: 0, failed: false }
    }

    /// The step that the run calls for now.
    pub fn step(&self) -> (r: Step)
        ensures
            r == step_of(self@),
    {
        if self.failed {
            Step::Aborted(self.next)
        } else if self.next < self.n_groups {
            Step::RunGroup(self.next)
        } else {
            Step::Finished
        }
    }

    /// Records the outcome of the running group: `ok` when every task of it
    /// launched.
    pub fn record(&mut self, ok: bool)
        ensures
            run_wf(old(self)@) ==> run_wf(final(self)@),
            final(self)@ == record_of_outcome(old(self)@, ok),
    {
        if self.failed || self.next >= self.n_groups {
        } else if ok {
            self.next = self.next + 1;
        } else {
            self.failed = true;
        }
    }
}

/// While every reported group succeeded, the run asks for the groups in
/// order, one after the other.
pub proof fn lemma_groups_in_order(n_groups: nat, outcomes: Seq<bool>)
    requires
        outcomes.len() <= n_groups,
        forall|k: int| 0 <= k < outcomes.len() ==> #[trigger] outcomes[k],
    ensures
        run_after(n_groups, outcomes) == (RunView { n_groups, done: outcomes.len(), failed: false }),
    decreases outcomes.len(),
{
    if outcomes.len() > 0 {
        lemma_groups_in_order(n_groups, outcomes.drop_last());
        assert(outcomes.last() == outcomes[outcomes.len() - 1]);
    }
}

/// Once group `k` has reported a launch failure, the run calls for no other
/// group, whatever is reported afterwards: every later step is an abort that
/// names group `k`.
pub proof fn lemma_failure_halts(n_groups: nat, outcomes: Seq<bool>, k: int, later: Seq<bool>)
    requires
        0 <= k < outcomes.len(),
        k < n_groups,
        forall|j: int| 0 <= j < k ==> #[trigger] outcomes[j],
        !outcomes[k],
    ensures
        step_of(run_after(n_groups, outcomes.take(k + 1) + later)) == Step::Aborted(k as usize),
    decreases later.len(),
{
    if later.len() == 0 {
        let head = outcomes.take(k + 1);
        assert(head + later =~= head);
        lemma_groups_in_order(n_groups, head.drop_last());
        assert(head.drop_last() =~= outcomes.take(k));
    } else {
        lemma_failure_halts(n_groups, outcomes, k, later.drop_last());
        assert((outcomes.take(k + 1) + later).drop_last() =~= outcomes.take(k + 1) + later.drop_last());
    }
}

/// When every group succeeds, the run finishes after the last one.
pub proof fn lemma_all_succeed_finishes(n_groups: nat, outcomes: Seq<bool>)
    requires
        outcomes.len() == n_groups,
        forall|k: int| 0 <= k < outcomes.len() ==> #[trigger] outcomes[k],
    ensures
        step_of(run_after(n_groups, outcomes)) == Step::Finished,
{
    lemma_groups_in_order(n_groups, outcomes);
}

} // verus!
