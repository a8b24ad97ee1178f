//! Best-effort fan-out of one message to every peer. The caller sends to
//! each target in turn and records whether it was delivered; a failed
//! delivery never stops the next one.
use vstd::prelude::*;

verus! {

/// The targets, among the first `outcomes.len()`, whose delivery succeeded.
pub open spec fn delivered_to(targets: Seq<Seq<char>>, outcomes: Seq<bool>) -> Seq<Seq<char>>
    decreases outcomes.len(),
{
    if outcomes.len() == 0 {
        Seq::empty()
    } else {
        let before = delivered_to(targets, outcomes.drop_last());
        if outcomes.last() {
            before.push(targets[outcomes.len() - 1])
        } else {
            before
        }
    }
}

/// The targets, among the first `outcomes.len()`, whose delivery failed.
pub open spec fn failed_at(targets: Seq<Seq<char>>, outcomes: Seq<bool>) -> Seq<Seq<char>>
    decreases outcomes.len(),
{
    if outcomes.len() == 0 {
        Seq::empty()
    } else {
        let before = failed_at(targets, outcomes.drop_last());
        if outcomes.last() {
            before
        } else {
            before.push(targets[outcomes.len() - 1])
        }
    }
}

proof fn lemma_one_failure_prefix(targets: Seq<Seq<char>>, outcomes: Seq<bool>, k: int)
    requires
        outcomes.len() <= targets.len(),
        0 <= k,
        k < outcomes.len() ==> !outcomes[k],
        forall|i: int| 0 <= i < outcomes.len() && i != k ==> outcomes[i],
    ensures
        k < outcomes.len() ==> delivered_to(targets, outcomes) == targets.subrange(
            0,
            outcomes.len() as int,
        ).remove(k),
        k >= outcomes.len() ==> delivered_to(targets, outcomes) == targets.subrange(
            0,
            outcomes.len() as int,
        ),
    decreases outcomes.len(),
{
    if outcomes.len() > 0 {
        let n = outcomes.len() as int;
        lemma_one_failure_prefix(targets, outcomes.drop_last(), k);
        if k < n - 1 {
            assert(targets.subrange(0, n - 1).remove(k).push(targets[n - 1]) =~= targets.subrange(
                0,
                n,
            ).remove(k));
        } else if k == n - 1 {
            assert(targets.subrange(0, n - 1) =~= targets.subrange(0, n).remove(k));
        } else {
            assert(targets.subrange(0, n - 1).push(targets[n - 1]) =~= targets.subrange(0, n));
        }
    }
}

/// When exactly one of the targets cannot be reached, every other target
/// still receives the message.
pub proof fn lemma_failure_isolated(targets: Seq<Seq<char>>, outcomes: Seq<bool>, k: int)
    requires
        outcomes.len() == targets.len(),
        0 <= k < targets.len(),
        !outcomes[k],
        forall|i: int| 0 <= i < outcomes.len() && i != k ==> outcomes[i],
    ensures
        delivered_to(targets, outcomes) == targets.remove(k),
{
    lemma_one_failure_prefix(targets, outcomes, k);
    assert(targets.subrange(0, targets.len() as int) =~= targets);
}

pub struct Fanout {
    targets: Vec<String>,
    outcomes: Vec<bool>,
}

impl Fanout {
    pub closed spec fn targets(&self) -> Seq<Seq<char>> {
        self.targets@.map_values(|s: String| s@)
    }

    /// Whether each delivery attempted so far succeeded, in order.
    pub closed spec fn outcomes(&self) -> Seq<bool> {
        self.outcomes@
    }

    pub closed spec fn wf(&self) -> bool {
        self.outcomes@.len() <= self.targets@.len()
    }

    pub fn new(targets: Vec<String>) -> (r: Fanout)
        ensures
            r.wf(),
            r.targets() == targets@.map_values(|s: String| s@),
            r.outcomes() == Seq::<bool>::empty(),
    {
        Fanout { targets, outcomes: Vec::new() }
    }

    /// The target to send to next, or `None` once every target was tried.
    pub fn next_target(&self) -> (r: Option<String>)
        requires
            self.wf(),
        ensures
            match r {
                Some(t) => self.outcomes().len() < self.targets().len() && t@ == self.targets()[self.outcomes().len() as int],
                None => self.outcomes().len() == self.targets().len(),
            },
    {
        if self.outcomes.len() < self.targets.len() {
            Some(self.targets[self.outcomes.len()].clone())
        } else {
            None
        }
    }

    /// Records the outcome of sending to the current target and moves on to
    /// the next one, whatever the outcome.
    pub fn record(&mut self, delivered: bool)
        requires
            old(self).wf(),
            old(self).outcomes().len() < old(self).targets().len(),
        ensures
            final(self).wf(),
            final(self).targets() == old(self).targets(),
            final(self).outcomes() == old(self).outcomes().push(delivered),
    {
        self.outcomes.push(delivered);
    }

    /// The targets that received the message so far.
    pub fn delivered(&self) -> (r: Vec<String>)
        requires
            self.wf(),
        ensures
            r@.map_values(|s: String| s@) == delivered_to(self.targets(), self.outcomes()),
    {
        self.select(true)
    }

    /// The targets that could not be reached so far.
    pub fn failed(&self) -> (r: Vec<String>)
        requires
            self.wf(),
        ensures
            r@.map_values(|s: String| s@) == failed_at(self.targets(), self.outcomes()),
    {
        self.select(false)
    }

    fn select(&self, delivered: bool) -> (r: Vec<String>)
        requires
            self.wf(),
        ensures
            r@.map_values(|s: String| s@) == (if delivered {
                delivered_to(self.targets(), self.outcomes())
            } else {
                failed_at(self.targets(), self.outcomes())
            }),
    {
        let mut r: Vec<String> = Vec::new();
        let mut i: usize = 0;
        while i < self.outcomes.len()
            invariant
                self.wf(),
                i <= self.outcomes@.len(),
                r@.map_values(|s: String| s@) == (if delivered {
                    delivered_to(self.targets(), self.outcomes@.subrange(0, i as int))
                } else {
                    failed_at(self.targets(), self.outcomes@.subrange(0, i as int))
                }),
            decreases self.outcomes@.len() - i,
        {
            let ghost prefix = self.outcomes@.subrange(0, i + 1);
            assert(prefix.drop_last() =~= self.outcomes@.subrange(0, i as int));
            let ghost before = r@;
            if self.outcomes[i] == delivered {
                r.push(self.targets[i].clone());
                assert(r@.map_values(|s: String| s@) =~= before.map_values(|s: String| s@).push(
                    self.targets@[i as int]@,
                ));
            }
            i = i + 1;
        }
        assert(self.outcomes@.subrange(0, self.outcomes@.len() as int) =~= self.outcomes@);
        r
    }
}

} // verus!
