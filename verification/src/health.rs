//! The health probe's decisions: what a reachability check means for a
//! target's weight, and what a whole cycle of checks does to the registry.

use vstd::prelude::*;
use crate::balancer::{writes_of, LoadBalancer};
use crate::model::{last_written, lemma_last_write_wins, Name, Table, Write};
use crate::selector::SelectorError;

verus! {

/// Seconds between the end of one probe cycle and the start of the next.
pub const PROBE_INTERVAL_SECS: u64 = 5;

/// The weight a target gets back when it is found reachable again.
pub const RESTORED_WEIGHT: u16 = 1;

/// The weight of a target that may not be selected.
pub const DISABLED_WEIGHT: u16 = 0;

/// What a probe means for the target it checked.
#[derive(Clone, Copy, Debug, PartialEq, Eq, Structural)]
pub enum Transition {
    /// The target was disabled and is reachable: it comes back.
    Up,
    /// The target was eligible and is unreachable: it is disabled.
    Down,
    /// The probe agrees with the weight: nothing changes.
    Unchanged,
}

/// One target as a probe cycle saw it.
#[derive(Clone, Debug, PartialEq, Eq)]
pub struct Observation {
    /// The target that was probed.
    pub target: String,
    /// The weight it had when the cycle began.
    pub weight: u16,
    /// Whether a connection to it could be opened in time.
    pub reachable: bool,
}

/// The transition that a probe result calls for, given the target's weight.
pub open spec fn transition_of(weight: u16, reachable: bool) -> Transition {
    if weight == 0 && reachable {
        Transition::Up
    } else if weight != 0 && !reachable {
        Transition::Down
    } else {
        Transition::Unchanged
    }
}

impl Transition {
    /// The weight this transition writes, if it writes one.
    pub open spec fn written(self) -> Option<u16> {
        match self {
            Transition::Up => Some(RESTORED_WEIGHT),
            Transition::Down => Some(DISABLED_WEIGHT),
            Transition::Unchanged => None,
        }
    }

    /// The weight this transition writes, if it writes one.
    pub fn weight(self) -> (w: Option<u16>)
        ensures
            w == self.written(),
    {
        match self {
            Transition::Up => Some(RESTORED_WEIGHT),
            Transition::Down => Some(DISABLED_WEIGHT),
            Transition::Unchanged => None,
        }
    }
}

impl Observation {
    /// The write this observation calls for, if it calls for one.
    pub open spec fn write(self) -> Option<Write> {
        match transition_of(self.weight, self.reachable).written() {
            Some(w) => Some((self.target@, w)),
            None => None,
        }
    }
}

/// The writes that a cycle's observations call for, in the order observed.
pub open spec fn planned_writes(observations: Seq<Observation>) -> Seq<Write>
    decreases observations.len(),
{
    if observations.len() == 0 {
        Seq::empty()
    } else {
        let earlier = planned_writes(observations.drop_last());
        match observations.last().write() {
            Some(w) => earlier.push(w),
            None => earlier,
        }
    }
}

/// No target is observed twice.
pub open spec fn observed_once(observations: Seq<Observation>) -> bool {
    forall|i: int, j: int|
        0 <= i < observations.len() && 0 <= j < observations.len() && i != j
            ==> observations[i].target@ != observations[j].target@
}

/// Compares a probe result with the weight the target had: a disabled target
/// found reachable comes up, an eligible target found unreachable goes down,
/// and anything else stays.
pub fn reconcile(weight: u16, reachable: bool) -> (t: Transition)
    ensures
        t == transition_of(weight, reachable),
{
    if weight == 0 && reachable {
        Transition::Up
    } else if weight != 0 && !reachable {
        Transition::Down
    } else {
        Transition::Unchanged
    }
}

/// The weight changes that a cycle's observations call for, in the order
/// observed: weight 1 for each target that comes up, weight 0 for each that
/// goes down.
pub fn plan_updates(observations: &Vec<Observation>) -> (plan: Vec<(String, u16)>)
    ensures
        writes_of(plan@) == planned_writes(observations@),
{
    let mut plan: Vec<(String, u16)> = Vec::new();
    let mut i: usize = 0;
    assert(observations@.take(0) =~= Seq::empty());
    assert(writes_of(plan@) =~= planned_writes(observations@.take(0)));
    while i < observations.len()
        invariant
            i <= observations.len(),
            writes_of(plan@) == planned_writes(observations@.take(i as int)),
        decreases observations.len() - i,
    {
        let ghost earlier = writes_of(plan@);
        let obs = &observations[i];
        proof {
            let seen = observations@.take(i + 1);
            assert(seen.drop_last() =~= observations@.take(i as int));
            assert(seen.last() == observations@[i as int]);
        }
        match reconcile(obs.weight, obs.reachable).weight() {
            Some(w) => {
                plan.push((obs.target.clone(), w));
                assert(writes_of(plan@) =~= earlier.push((obs.target@, w)));
            },
            None => {},
        }
        i += 1;
    }
    assert(observations@.take(i as int) =~= observations@);
    plan
}

/// Reconciles a whole cycle of observations with the registry: the changes
/// they call for are written as one batch, and the selector is compiled once.
/// The changes are returned, so that each can be reported; a cycle that
/// changes nothing leaves the registry untouched. Where the registry cannot
/// hold the result, nothing is written and the reason is returned.
pub fn reconcile_cycle(lb: &mut LoadBalancer, observations: &Vec<Observation>) -> (r: Result<
    Vec<(String, u16)>,
    SelectorError,
>)
    requires
        old(lb).wf(),
    ensures
        final(lb).wf(),
        match r {
            Ok(changes) => {
                &&& writes_of(changes@) == planned_writes(observations@)
                &&& final(lb).table() == old(lb).table().put_all(planned_writes(observations@))
                &&& changes@.len() == 0 ==> *final(lb) == *old(lb)
            },
            Err(e) => {
                &&& old(lb).table().put_all(planned_writes(observations@)).refusal() == Some(e)
                &&& *final(lb) == *old(lb)
            },
        },
{
    let plan = plan_updates(observations);
    if plan.len() == 0 {
        assert(writes_of(plan@) =~= Seq::empty());
        return Ok(plan);
    }
    match lb.update_weights(&plan) {
        Ok(()) => Ok(plan),
        Err(e) => Err(e),
    }
}

/// The last write that a cycle plans for a target observed once is the one
/// its own observation calls for.
proof fn lemma_planned_for(observations: Seq<Observation>, i: int)
    requires
        observed_once(observations),
        0 <= i < observations.len(),
    ensures
        last_written(planned_writes(observations), observations[i].target@) == transition_of(
            observations[i].weight,
            observations[i].reachable,
        ).written(),
    decreases observations.len(),
{
    let name = observations[i].target@;
    let earlier = observations.drop_last();
    let last = observations.last();
    let n = observations.len() as int;
    assert(observed_once(earlier));
    if i == n - 1 {
        lemma_not_planned(earlier, name);
        match last.write() {
            Some(w) => {
                assert(planned_writes(observations).drop_last() =~= planned_writes(earlier));
            },
            None => {},
        }
    } else {
        lemma_planned_for(earlier, i);
        assert(last.target@ != name);
        match last.write() {
            Some(w) => {
                assert(planned_writes(observations).drop_last() =~= planned_writes(earlier));
            },
            None => {},
        }
    }
}

/// A cycle plans no write for a target it did not observe.
proof fn lemma_not_planned(observations: Seq<Observation>, name: Name)
    requires
        forall|i: int| 0 <= i < observations.len() ==> observations[i].target@ != name,
    ensures
        last_written(planned_writes(observations), name) is None,
    decreases observations.len(),
{
    if observations.len() > 0 {
        let earlier = observations.drop_last();
        let last = observations.last();
        lemma_not_planned(earlier, name);
        assert(last.target@ != name);
        match last.write() {
            Some(w) => {
                assert(planned_writes(observations).drop_last() =~= planned_writes(earlier));
            },
            None => {},
        }
    }
}

/// After a cycle in which every target is observed once, a target seen with
/// weight zero and found reachable has weight 1, a target seen with a positive
/// weight and found unreachable has weight 0, and a target whose probe agrees
/// with the weight seen has the weight it had in the registry.
pub proof fn lemma_cycle_reconciles(table: Table, observations: Seq<Observation>, i: int)
    requires
        table.wf(),
        observed_once(observations),
        0 <= i < observations.len(),
    ensures
        table.put_all(planned_writes(observations)).lookup(observations[i].target@) == match transition_of(
            observations[i].weight,
            observations[i].reachable,
        ) {
            Transition::Up => Some(RESTORED_WEIGHT),
            Transition::Down => Some(DISABLED_WEIGHT),
            Transition::Unchanged => table.lookup(observations[i].target@),
        },
{
    lemma_planned_for(observations, i);
    lemma_last_write_wins(table, planned_writes(observations), observations[i].target@);
}

/// A cycle leaves every target that it did not observe as it was.
pub proof fn lemma_cycle_spares_others(table: Table, observations: Seq<Observation>, name: Name)
    requires
        table.wf(),
        forall|i: int| 0 <= i < observations.len() ==> observations[i].target@ != name,
    ensures
        table.put_all(planned_writes(observations)).lookup(name) == table.lookup(name),
{
    lemma_not_planned(observations, name);
    lemma_last_write_wins(table, planned_writes(observations), name);
}

} // verus!
