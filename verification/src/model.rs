//! The mathematical model of a registry: target names in the order they were
//! registered, one weight beside each, and what an update does to them.

use vstd::prelude::*;
use crate::selector::{build_error, SelectorError};
use crate::weights::{has_positive, within_cap};

verus! {

/// A target's address, as the sequence of its characters.
pub type Name = Seq<char>;

/// One write of a batch: a target and the weight it is to get.
pub type Write = (Name, u16);

/// Target names with the weight of each. `names[i]` has weight `weights[i]`.
pub struct Table {
    pub names: Seq<Name>,
    pub weights: Seq<u16>,
}

impl Table {
    /// Every name has exactly one weight: the two sequences are as long as
    /// each other and no name occurs twice.
    pub open spec fn wf(self) -> bool {
        &&& self.names.len() == self.weights.len()
        &&& self.names.no_duplicates()
    }

    /// Whether `name` is registered.
    pub open spec fn contains(self, name: Name) -> bool {
        self.names.contains(name)
    }

    /// The weight of `name`, if it is registered.
    pub open spec fn lookup(self, name: Name) -> Option<u16> {
        if self.names.contains(name) {
            Some(self.weights[self.names.index_of(name)])
        } else {
            None
        }
    }

    /// Whether `name` may be selected: it is registered with a positive weight.
    pub open spec fn eligible(self, name: Name) -> bool {
        self.lookup(name) matches Some(w) && w > 0
    }

    /// Whether any target may be selected.
    pub open spec fn active(self) -> bool {
        has_positive(self.weights)
    }

    /// The table as a map from name to weight.
    pub open spec fn as_map(self) -> Map<Name, u16> {
        Map::new(
            |name: Name| self.names.contains(name),
            |name: Name| self.weights[self.names.index_of(name)],
        )
    }

    /// The table after `name` is given `weight`: overwritten in place where
    /// `name` is registered, appended where it is new.
    pub open spec fn put(self, name: Name, weight: u16) -> Table {
        if self.names.contains(name) {
            Table {
                names: self.names,
                weights: self.weights.update(self.names.index_of(name), weight),
            }
        } else {
            Table { names: self.names.push(name), weights: self.weights.push(weight) }
        }
    }

    /// The table after the writes of `batch`, applied first to last.
    pub open spec fn put_all(self, batch: Seq<Write>) -> Table
        decreases batch.len(),
    {
        if batch.len() == 0 {
            self
        } else {
            self.put_all(batch.drop_last()).put(batch.last().0, batch.last().1)
        }
    }

    /// Why the registry cannot hold this table, or `None` where it can. A table
    /// whose weights are all zero can be held: it is merely inactive.
    pub open spec fn refusal(self) -> Option<SelectorError> {
        match build_error(self.weights) {
            Some(SelectorError::AllWeightsZero) => None,
            other => other,
        }
    }

    /// The registry can hold this table: it is not empty, has at most
    /// `u32::MAX` entries, and every weight is within the cap for its length.
    pub open spec fn admissible(self) -> bool {
        &&& 1 <= self.weights.len() <= u32::MAX
        &&& within_cap(self.weights)
    }
}

/// The weight that the last write to `name` in `batch` gave it, if any write
/// names it.
pub open spec fn last_written(batch: Seq<Write>, name: Name) -> Option<u16>
    decreases batch.len(),
{
    if batch.len() == 0 {
        None
    } else if batch.last().0 == name {
        Some(batch.last().1)
    } else {
        last_written(batch.drop_last(), name)
    }
}

/// In a sequence without duplicates an element is found where it stands.
pub proof fn lemma_index_of_unique(names: Seq<Name>, i: int)
    requires
        names.no_duplicates(),
        0 <= i < names.len(),
    ensures
        names.contains(names[i]),
        names.index_of(names[i]) == i,
{
    assert(names.contains(names[i]));
    let j = names.index_of(names[i]);
    assert(0 <= j < names.len() && names[j] == names[i]);
}

/// A table can be held exactly when nothing refuses it.
pub proof fn lemma_admissible_iff_no_refusal(t: Table)
    ensures
        t.admissible() <==> t.refusal() is None,
{
}

/// A write keeps the table well formed, leaves every other name's weight as
/// it was, and makes the written name's weight the one written.
pub proof fn lemma_put(t: Table, name: Name, weight: u16)
    requires
        t.wf(),
    ensures
        t.put(name, weight).wf(),
        t.put(name, weight).lookup(name) == Some(weight),
        forall|other: Name| other != name ==> t.put(name, weight).lookup(other) == t.lookup(other),
        t.put(name, weight).as_map() == t.as_map().insert(name, weight),
{
    let u = t.put(name, weight);
    if t.names.contains(name) {
        let k = t.names.index_of(name);
        assert(u.names == t.names);
        assert forall|other: Name| other != name implies u.lookup(other) == t.lookup(other) by {
            if t.names.contains(other) {
                let j = t.names.index_of(other);
                assert(j != k);
            }
        }
    } else {
        let n = t.names.len() as int;
        assert forall|i: int, j: int|
            0 <= i < u.names.len() && 0 <= j < u.names.len() && i != j implies u.names[i]
            != u.names[j] by {
            if i < n && j < n {
                assert(t.names[i] != t.names[j]);
            } else if i < n {
                assert(t.names.contains(t.names[i]));
            } else {
                assert(t.names.contains(t.names[j]));
            }
        }
        assert(u.names[n] == name);
        assert(u.names.contains(name));
        lemma_index_of_unique(u.names, n);
        assert forall|other: Name| other != name implies u.lookup(other) == t.lookup(other) by {
            if t.names.contains(other) {
                let j = t.names.index_of(other);
                assert(u.names[j] == other);
                assert(u.names.contains(other));
                lemma_index_of_unique(u.names, j);
            } else if u.names.contains(other) {
                let j = u.names.index_of(other);
                assert(j < n);
                assert(t.names[j] == other);
            }
        }
    }
    assert(u.lookup(name) == Some(weight));
    assert forall|other: Name| u.names.contains(other) <==> (other == name || t.names.contains(
        other,
    )) by {
        if other != name {
            assert(u.lookup(other) == t.lookup(other));
        }
    }
    assert(u.as_map() =~= t.as_map().insert(name, weight)) by {
        assert forall|other: Name| u.as_map().dom().contains(other) implies #[trigger] u.as_map()[other]
            == t.as_map().insert(name, weight)[other] by {
            if other != name {
                assert(u.lookup(other) == t.lookup(other));
            }
        }
    }
}

/// Writing the same weight to the same target twice in a row leaves the table
/// as the first write left it, names, weights and order alike; so whatever is
/// compiled from it draws as before.
pub proof fn lemma_put_idempotent(t: Table, name: Name, weight: u16)
    requires
        t.wf(),
    ensures
        t.put(name, weight).put(name, weight) == t.put(name, weight),
{
    let u = t.put(name, weight);
    lemma_put(t, name, weight);
    assert(u.names.contains(name));
    let k = u.names.index_of(name);
    assert(u.weights[k] == weight);
    assert(u.weights.update(k, weight) =~= u.weights);
}

/// After a batch of writes every target holds the weight last written to it,
/// and a target that no write names holds what it held before.
pub proof fn lemma_last_write_wins(t: Table, batch: Seq<Write>, name: Name)
    requires
        t.wf(),
    ensures
        t.put_all(batch).wf(),
        t.put_all(batch).lookup(name) == match last_written(batch, name) {
            Some(w) => Some(w),
            None => t.lookup(name),
        },
    decreases batch.len(),
{
    if batch.len() > 0 {
        let before = t.put_all(batch.drop_last());
        lemma_last_write_wins(t, batch.drop_last(), name);
        lemma_put(before, batch.last().0, batch.last().1);
    }
}

/// A table is inactive exactly when every registered target has weight zero.
pub proof fn lemma_inactive_iff_all_zero(t: Table)
    requires
        t.wf(),
    ensures
        !t.active() <==> forall|name: Name| t.contains(name) ==> t.lookup(name) == Some(0u16),
{
    if !t.active() {
        assert forall|name: Name| t.contains(name) implies t.lookup(name) == Some(0u16) by {
            let k = t.names.index_of(name);
            assert(!(t.weights[k] > 0));
        }
    }
    if forall|name: Name| t.contains(name) ==> t.lookup(name) == Some(0u16) {
        if t.active() {
            let i = choose|i: int| 0 <= i < t.weights.len() && t.weights[i] > 0;
            lemma_index_of_unique(t.names, i);
            assert(t.contains(t.names[i]));
            assert(t.lookup(t.names[i]) == Some(0u16));
        }
    }
}

} // verus!
