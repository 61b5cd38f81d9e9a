//! The registry of targets: one weight per target, a flag that says whether
//! any target may be selected, and the selector compiled from the weights.

use vstd::prelude::*;
use crate::model::{lemma_index_of_unique, lemma_put, Name, Table, Write};
use crate::selector::{copy_weights, SelectorError, WeightedSelector};
use crate::weights::lemma_total_positive;

verus! {

/// The names of a sequence of targets, in the same order.
pub open spec fn names_of(targets: Seq<String>) -> Seq<Name> {
    Seq::new(targets.len(), |i: int| targets[i]@)
}

/// The writes that a batch of `(target, weight)` pairs stands for.
pub open spec fn writes_of(batch: Seq<(String, u16)>) -> Seq<Write> {
    Seq::new(batch.len(), |i: int| (batch[i].0@, batch[i].1))
}

/// What the registry reports instead of a result.
#[derive(Clone, Copy, Debug, PartialEq, Eq, Structural)]
pub enum BalancerError {
    /// There are not as many weights as targets.
    LengthMismatch,
    /// A target is named twice.
    DuplicateTarget,
    /// The weights do not compile into a selector.
    Selector(SelectorError),
    /// No target has a positive weight.
    NoActiveTargets,
}

/// Why a registry cannot be made of these targets and weights, or `None` where
/// it can. The conditions are tried in this order: the lengths, the names, the
/// weights.
pub open spec fn new_error(names: Seq<Name>, weights: Seq<u16>) -> Option<BalancerError> {
    if names.len() != weights.len() {
        Some(BalancerError::LengthMismatch)
    } else if !names.no_duplicates() {
        Some(BalancerError::DuplicateTarget)
    } else {
        match crate::selector::build_error(weights) {
            Some(e) => Some(BalancerError::Selector(e)),
            None => None,
        }
    }
}

/// The weight of every target, and the selector that draws by those weights.
#[derive(Debug)]
pub struct LoadBalancer {
    targets: Vec<String>,
    weights: Vec<u16>,
    selector: WeightedSelector,
    is_active: bool,
}

impl View for LoadBalancer {
    type V = Map<Name, u16>;

    /// The weight of each registered target.
    open spec fn view(&self) -> Map<Name, u16> {
        self.table().as_map()
    }
}

impl LoadBalancer {
    /// The targets in the order they were registered, with their weights.
    pub closed spec fn table(&self) -> Table {
        Table { names: names_of(self.targets@), weights: self.weights@ }
    }

    /// The flag that says whether any target may be selected.
    pub closed spec fn active(&self) -> bool {
        self.is_active
    }

    /// The selector in place is a compiled one, and while the registry is
    /// active it was compiled from the present weights.
    pub closed spec fn selector_current(&self) -> bool {
        &&& self.selector.wf()
        &&& self.is_active ==> self.selector@ == self.weights@
    }

    /// Every target has one weight, the weights can be held, the flag is set
    /// exactly when some weight is positive, and the selector is current.
    pub open spec fn wf(&self) -> bool {
        &&& self.table().wf()
        &&& self.table().admissible()
        &&& self.active() == self.table().active()
        &&& self.selector_current()
    }

    /// A registry of `targets` with `weights[i]` as the weight of `targets[i]`,
    /// or the reason there can be none. A registry that starts with every
    /// weight at zero is refused like any other vector that does not compile.
    pub fn try_new(targets: &Vec<String>, weights: &Vec<u16>) -> (r: Result<
        LoadBalancer,
        BalancerError,
    >)
        ensures
            match r {
                Ok(lb) => {
                    &&& new_error(names_of(targets@), weights@) is None
                    &&& lb.wf()
                    &&& lb.active()
                    &&& lb.table() == (Table { names: names_of(targets@), weights: weights@ })
                },
                Err(e) => new_error(names_of(targets@), weights@) == Some(e),
            },
    {
        if targets.len() != weights.len() {
            return Err(BalancerError::LengthMismatch);
        }
        if has_duplicate(targets) {
            return Err(BalancerError::DuplicateTarget);
        }
        proof {
            lemma_total_positive(weights@);
        }
        match WeightedSelector::build(copy_weights(weights)) {
            Ok(selector) => {
                let lb = LoadBalancer {
                    targets: clone_targets(targets),
                    weights: copy_weights(weights),
                    selector,
                    is_active: true,
                };
                assert(lb.table().names =~= names_of(targets@));
                Ok(lb)
            },
            Err(e) => Err(BalancerError::Selector(e)),
        }
    }

    /// A registry of `targets` with `weights[i]` as the weight of `targets[i]`.
    /// The targets must be distinct and the weights must compile.
    pub fn new(targets: &Vec<String>, weights: &Vec<u16>) -> (lb: LoadBalancer)
        requires
            new_error(names_of(targets@), weights@) is None,
        ensures
            lb.wf(),
            lb.active(),
            lb.table() == (Table { names: names_of(targets@), weights: weights@ }),
    {
        LoadBalancer::try_new(targets, weights).unwrap()
    }

    /// Whether any target may be selected.
    pub fn is_active(&self) -> (b: bool)
        ensures
            b == self.active(),
    {
        self.is_active
    }

    /// The number of registered targets.
    pub fn len(&self) -> (n: usize)
        ensures
            n == self.table().names.len(),
    {
        self.targets.len()
    }

    /// Draws a target. Only a target with a positive weight is ever drawn.
    pub fn get_target(&self) -> (target: String)
        requires
            self.wf(),
            self.active(),
        ensures
            self.table().eligible(target@),
    {
        let i: usize = self.selector.sample();
        proof {
            lemma_index_of_unique(self.table().names, i as int);
        }
        self.targets[i].clone()
    }

    /// Draws a target, unless none may be selected: then nothing is drawn and
    /// `NoActiveTargets` is reported.
    pub fn select_target(&self) -> (r: Result<String, BalancerError>)
        requires
            self.wf(),
        ensures
            match r {
                Ok(target) => self.active() && self.table().eligible(target@),
                Err(e) => !self.active() && e == BalancerError::NoActiveTargets,
            },
    {
        if self.is_active {
            Ok(self.get_target())
        } else {
            Err(BalancerError::NoActiveTargets)
        }
    }

    /// The weight of `target`, if it is registered.
    pub fn weight_of(&self, target: &String) -> (w: Option<u16>)
        requires
            self.wf(),
        ensures
            w == self.table().lookup(target@),
    {
        match position(&self.targets, target) {
            Some(i) => {
                proof {
                    lemma_index_of_unique(self.table().names, i as int);
                }
                Some(self.weights[i])
            },
            None => {
                assert(!self.table().names.contains(target@));
                None
            },
        }
    }

    /// A copy of every target with its weight, in the order of registration.
    /// Later updates of the registry do not reach it.
    pub fn snapshot_weights(&self) -> (snapshot: Vec<(String, u16)>)
        requires
            self.wf(),
        ensures
            snapshot@.len() == self.table().names.len(),
            forall|i: int|
                0 <= i < snapshot@.len() ==> (#[trigger] snapshot@[i]).0@ == self.table().names[i]
                    && snapshot@[i].1 == self.table().weights[i],
    {
        let mut snapshot: Vec<(String, u16)> = Vec::new();
        let mut i: usize = 0;
        while i < self.targets.len()
            invariant
                i <= self.targets.len(),
                self.targets.len() == self.weights.len(),
                snapshot@.len() == i,
                forall|j: int|
                    0 <= j < i ==> (#[trigger] snapshot@[j]).0@ == self.targets@[j]@
                        && snapshot@[j].1 == self.weights@[j],
            decreases self.targets.len() - i,
        {
            snapshot.push((self.targets[i].clone(), self.weights[i]));
            i += 1;
        }
        snapshot
    }

    /// Gives `target` the weight `weight`, registering it if it is new, and
    /// compiles the selector anew. Where the new weights cannot be held the
    /// registry stays as it was and the reason is returned. Where every
    /// weight is now zero the registry turns inactive and keeps the selector
    /// it had; otherwise it is active and draws by the new weights.
    pub fn try_update_weight(&mut self, target: String, weight: u16) -> (r: Result<
        (),
        SelectorError,
    >)
        requires
            old(self).wf(),
        ensures
            final(self).wf(),
            match r {
                Ok(()) => {
                    &&& old(self).table().put(target@, weight).refusal() is None
                    &&& final(self).table() == old(self).table().put(target@, weight)
                },
                Err(e) => {
                    &&& old(self).table().put(target@, weight).refusal() == Some(e)
                    &&& *final(self) == *old(self)
                },
            },
    {
        let ghost before = self.table();
        let ghost after = before.put(target@, weight);
        let found = position(&self.targets, &target);
        let mut weights = copy_weights(&self.weights);
        match found {
            Some(i) => {
                proof {
                    lemma_index_of_unique(before.names, i as int);
                }
                weights.set(i, weight);
            },
            None => {
                assert(!before.names.contains(target@));
                weights.push(weight);
            },
        }
        assert(weights@ == after.weights);
        proof {
            lemma_put(before, target@, weight);
            lemma_total_positive(weights@);
        }
        match WeightedSelector::build(copy_weights(&weights)) {
            Ok(selector) => {
                if found.is_none() {
                    self.targets.push(target);
                }
                self.weights = weights;
                self.selector = selector;
                self.is_active = true;
                assert(self.table().names =~= after.names);
                Ok(())
            },
            Err(e) => {
                match e {
                    SelectorError::AllWeightsZero => {
                        if found.is_none() {
                            self.targets.push(target);
                        }
                        self.weights = weights;
                        self.is_active = false;
                        assert(self.table().names =~= after.names);
                        Ok(())
                    },
                    _ => Err(e),
                }
            },
        }
    }

    /// Gives `target` the weight `weight`, registering it if it is new, and
    /// compiles the selector anew. The new weights must be ones the registry
    /// can hold.
    pub fn update_weight(&mut self, target: String, weight: u16)
        requires
            old(self).wf(),
            old(self).table().put(target@, weight).admissible(),
        ensures
            final(self).wf(),
            final(self).table() == old(self).table().put(target@, weight),
            final(self)@ == old(self)@.insert(target@, weight),
    {
        proof {
            lemma_put(self.table(), target@, weight);
        }
        let _ = self.try_update_weight(target, weight);
    }

    /// Applies the writes of `batch`, first to last, and compiles the selector
    /// once, from the weights that result. The batch is applied whole or not
    /// at all: where the resulting weights cannot be held, the registry stays
    /// as it was and the reason is returned.
    pub fn update_weights(&mut self, batch: &Vec<(String, u16)>) -> (r: Result<(), SelectorError>)
        requires
            old(self).wf(),
        ensures
            final(self).wf(),
            match r {
                Ok(()) => {
                    &&& old(self).table().put_all(writes_of(batch@)).refusal() is None
                    &&& final(self).table() == old(self).table().put_all(writes_of(batch@))
                },
                Err(e) => {
                    &&& old(self).table().put_all(writes_of(batch@)).refusal() == Some(e)
                    &&& *final(self) == *old(self)
                },
            },
    {
        let ghost before = self.table();
        let ghost writes = writes_of(batch@);
        let mut targets = clone_targets(&self.targets);
        let mut weights = copy_weights(&self.weights);
        assert(names_of(targets@) =~= before.names);
        let mut k: usize = 0;
        while k < batch.len()
            invariant
                k <= batch.len(),
                before.wf(),
                writes == writes_of(batch@),
                (Table { names: names_of(targets@), weights: weights@ }) == before.put_all(
                    writes.take(k as int),
                ),
                before.put_all(writes.take(k as int)).wf(),
            decreases batch.len() - k,
        {
            let ghost current = Table { names: names_of(targets@), weights: weights@ };
            let ghost name = batch@[k as int].0@;
            let weight: u16 = batch[k].1;
            match position(&targets, &batch[k].0) {
                Some(i) => {
                    proof {
                        lemma_index_of_unique(current.names, i as int);
                    }
                    weights.set(i, weight);
                },
                None => {
                    assert(!current.names.contains(name));
                    targets.push(batch[k].0.clone());
                    weights.push(weight);
                },
            }
            proof {
                let next = writes.take(k + 1);
                assert(next.drop_last() =~= writes.take(k as int));
                assert(next.last() == (name, weight));
                lemma_put(current, name, weight);
                assert(names_of(targets@) =~= current.put(name, weight).names);
            }
            k += 1;
        }
        assert(writes.take(k as int) =~= writes);
        proof {
            lemma_total_positive(weights@);
        }
        match WeightedSelector::build(copy_weights(&weights)) {
            Ok(selector) => {
                self.targets = targets;
                self.weights = weights;
                self.selector = selector;
                self.is_active = true;
                Ok(())
            },
            Err(e) => {
                match e {
                    SelectorError::AllWeightsZero => {
                        self.targets = targets;
                        self.weights = weights;
                        self.is_active = false;
                        Ok(())
                    },
                    _ => Err(e),
                }
            },
        }
    }
}

/// The first place where `target` stands in `targets`, if it stands there.
fn position(targets: &Vec<String>, target: &String) -> (found: Option<usize>)
    ensures
        match found {
            Some(i) => i < targets@.len() && names_of(targets@)[i as int] == target@,
            None => forall|j: int| 0 <= j < targets@.len() ==> names_of(targets@)[j] != target@,
        },
{
    let mut i: usize = 0;
    while i < targets.len()
        invariant
            i <= targets.len(),
            forall|j: int| 0 <= j < i ==> names_of(targets@)[j] != target@,
        decreases targets.len() - i,
    {
        if targets[i] == *target {
            return Some(i);
        }
        i += 1;
    }
    None
}

/// Whether some target is named twice.
fn has_duplicate(targets: &Vec<String>) -> (found: bool)
    ensures
        found == !names_of(targets@).no_duplicates(),
{
    let ghost names = names_of(targets@);
    let mut i: usize = 0;
    while i < targets.len()
        invariant
            i <= targets.len(),
            names == names_of(targets@),
            forall|a: int, b: int| 0 <= a < b < i ==> names[a] != names[b],
        decreases targets.len() - i,
    {
        let mut j: usize = 0;
        while j < i
            invariant
                j <= i < targets.len(),
                names == names_of(targets@),
                forall|a: int| 0 <= a < j ==> names[a] != names[i as int],
            decreases i - j,
        {
            if targets[j] == targets[i] {
                assert(names[j as int] == names[i as int]);
                return true;
            }
            j += 1;
        }
        i += 1;
    }
    assert forall|a: int, b: int|
        0 <= a < names.len() && 0 <= b < names.len() && a != b implies names[a] != names[b] by {
        if a < b {
            assert(names[a] != names[b]);
        } else {
            assert(names[b] != names[a]);
        }
    }
    false
}

/// A copy of a vector of targets.
fn clone_targets(targets: &Vec<String>) -> (out: Vec<String>)
    ensures
        out@ == targets@,
{
    let mut out: Vec<String> = Vec::new();
    let mut i: usize = 0;
    while i < targets.len()
        invariant
            i <= targets.len(),
            out@ == targets@.take(i as int),
        decreases targets.len() - i,
    {
        out.push(targets[i].clone());
        assert(targets@.take(i + 1) == targets@.take(i as int).push(targets@[i as int]));
        i += 1;
    }
    assert(targets@.take(targets@.len() as int) == targets@);
    out
}

} // verus!
