//! The sampling structure: an alias table over a vector of weights.
//!
//! The table itself is `rand_distr::WeightedAliasIndex`. This module states
//! what that type is relied on for and wraps it in [`WeightedSelector`], which
//! remembers the weights the table was compiled from.

use vstd::prelude::*;
use rand_distr::weighted_alias::WeightedAliasIndex;
use rand_distr::WeightedError;
use crate::weights::{total_weight, within_cap};

verus! {

/// An alias table of `rand_distr` over `u16` weights, carried as an opaque
/// value: nothing is known of it but what the functions below state.
#[derive(Debug)]
#[verifier::external_body]
pub struct AliasTable {
    inner: WeightedAliasIndex<u16>,
}

/// The weights an alias table was compiled from, in the order they were given.
pub uninterp spec fn alias_weights(table: AliasTable) -> Seq<u16>;

/// Why a weight vector cannot be compiled into a selector.
#[derive(Clone, Copy, Debug, PartialEq, Eq, Structural)]
pub enum SelectorError {
    /// The vector is empty.
    NoItem,
    /// Some weight is above the cap for the vector's length.
    InvalidWeight,
    /// The weights add up to zero.
    AllWeightsZero,
    /// The vector has more than `u32::MAX` entries.
    TooMany,
}

/// The reason `ws` is refused, or `None` where it compiles. The conditions are
/// tried in this order: emptiness, length, the cap on each weight, all zero.
pub open spec fn build_error(ws: Seq<u16>) -> Option<SelectorError> {
    if ws.len() == 0 {
        Some(SelectorError::NoItem)
    } else if ws.len() > u32::MAX {
        Some(SelectorError::TooMany)
    } else if !within_cap(ws) {
        Some(SelectorError::InvalidWeight)
    } else if total_weight(ws) == 0 {
        Some(SelectorError::AllWeightsZero)
    } else {
        None
    }
}

/// Calls `WeightedAliasIndex::<u16>::new`. Trusted: the call fails exactly as
/// `build_error` says (an empty vector, one longer than `u32::MAX`, a weight
/// above `u16::MAX / len`, a zero sum, tested in that order), and a table that
/// it returns was compiled from exactly the weights handed in. The sum it
/// tests is the true one: weights that passed the cap cannot overflow a `u16`
/// (`lemma_total_bounded`).
#[verifier::external_body]
fn alias_table_new(weights: Vec<u16>) -> (r: Result<AliasTable, SelectorError>)
    ensures
        match r {
            Ok(table) => build_error(weights@) is None && alias_weights(table) == weights@,
            Err(e) => build_error(weights@) == Some(e),
        },
{
    match WeightedAliasIndex::new(weights) {
        Ok(inner) => Ok(AliasTable { inner }),
        Err(WeightedError::NoItem) => Err(SelectorError::NoItem),
        Err(WeightedError::InvalidWeight) => Err(SelectorError::InvalidWeight),
        Err(WeightedError::AllWeightsZero) => Err(SelectorError::AllWeightsZero),
        Err(WeightedError::TooMany) => Err(SelectorError::TooMany),
    }
}

/// Calls `Distribution::sample` on the table with `rand::thread_rng()`.
/// Trusted: whatever the generator yields, the index drawn is one of the
/// table's entries and that entry's weight is positive (an entry of weight
/// zero has no odds of its own and is never another entry's alias). How often
/// each index comes is not stated. The call panics only where the thread's
/// generator cannot be seeded by the system.
#[verifier::external_body]
fn alias_table_sample(table: &AliasTable) -> (i: usize)
    ensures
        i < alias_weights(*table).len(),
        alias_weights(*table)[i as int] > 0,
{
    rand::distributions::Distribution::sample(&table.inner, &mut rand::thread_rng())
}

/// A sampling structure compiled from a vector of weights. It is read-only
/// once built: a change of weights means building another.
#[derive(Debug)]
pub struct WeightedSelector {
    weights: Vec<u16>,
    table: AliasTable,
}

impl View for WeightedSelector {
    type V = Seq<u16>;

    /// The weights this selector draws by.
    closed spec fn view(&self) -> Seq<u16> {
        self.weights@
    }
}

impl WeightedSelector {
    /// The table was compiled from the recorded weights.
    pub closed spec fn wf(&self) -> bool {
        &&& alias_weights(self.table) == self.weights@
        &&& build_error(self.weights@) is None
    }

    /// Compiles `weights` into a selector, or says why they are refused.
    pub fn build(weights: Vec<u16>) -> (r: Result<WeightedSelector, SelectorError>)
        ensures
            match r {
                Ok(s) => build_error(weights@) is None && s.wf() && s@ == weights@,
                Err(e) => build_error(weights@) == Some(e),
            },
    {
        let kept = copy_weights(&weights);
        match alias_table_new(weights) {
            Ok(table) => Ok(WeightedSelector { weights: kept, table }),
            Err(e) => Err(e),
        }
    }

    /// Draws the index of one entry. Only entries with a positive weight are
    /// ever drawn.
    pub fn sample(&self) -> (i: usize)
        requires
            self.wf(),
        ensures
            i < self@.len(),
            self@[i as int] > 0,
    {
        alias_table_sample(&self.table)
    }

    /// The weights this selector was built from.
    pub fn weights(&self) -> (ws: &Vec<u16>)
        ensures
            ws@ == self@,
    {
        &self.weights
    }
}

/// A copy of a weight vector.
pub fn copy_weights(ws: &Vec<u16>) -> (out: Vec<u16>)
    ensures
        out@ == ws@,
{
    let mut out: Vec<u16> = Vec::new();
    let mut i: usize = 0;
    while i < ws.len()
        invariant
            i <= ws.len(),
            out@ == ws@.take(i as int),
        decreases ws.len() - i,
    {
        out.push(ws[i]);
        assert(ws@.take(i + 1) == ws@.take(i as int).push(ws@[i as int]));
        i += 1;
    }
    assert(ws@.take(ws@.len() as int) == ws@);
    out
}

} // verus!
