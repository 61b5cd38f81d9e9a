//! Weight vectors and the limits a selector puts on them.

use vstd::prelude::*;

verus! {

/// Most entries a weight vector may have while any of them is positive.
pub const MAX_WEIGHTED_ENTRIES: usize = 65535;

/// The largest weight an entry may carry in a vector of `n` entries:
/// `u16::MAX / n`, and nothing once `n` itself no longer fits a weight.
pub open spec fn weight_cap(n: nat) -> nat {
    if 1 <= n <= 65535 {
        65535nat / n
    } else {
        0
    }
}

/// Every weight is at most the cap for a vector of this length.
pub open spec fn within_cap(ws: Seq<u16>) -> bool {
    forall|i: int| 0 <= i < ws.len() ==> ws[i] <= weight_cap(ws.len())
}

/// At least one weight is positive.
pub open spec fn has_positive(ws: Seq<u16>) -> bool {
    exists|i: int| 0 <= i < ws.len() && ws[i] > 0
}

/// The sum of all weights.
pub open spec fn total_weight(ws: Seq<u16>) -> nat
    decreases ws.len(),
{
    if ws.len() == 0 {
        0
    } else {
        total_weight(ws.drop_last()) + ws.last() as nat
    }
}

/// The weight cap for a vector of `n` entries.
pub fn cap_for(n: usize) -> (cap: u16)
    ensures
        cap == weight_cap(n as nat),
{
    if 1 <= n && n <= MAX_WEIGHTED_ENTRIES {
        let q: usize = MAX_WEIGHTED_ENTRIES / n;
        assert(q <= 65535) by (nonlinear_arith)
            requires
                q == 65535usize / n,
                1 <= n,
        ;
        q as u16
    } else {
        0
    }
}

/// Whether every weight stays within the cap for the vector's length.
pub fn all_within_cap(ws: &Vec<u16>) -> (ok: bool)
    ensures
        ok == within_cap(ws@),
{
    let cap: u16 = cap_for(ws.len());
    let mut i: usize = 0;
    while i < ws.len()
        invariant
            i <= ws.len(),
            cap == weight_cap(ws@.len()),
            forall|j: int| 0 <= j < i ==> ws@[j] <= cap,
        decreases ws.len() - i,
    {
        if ws[i] > cap {
            return false;
        }
        i += 1;
    }
    true
}

/// Whether some weight is positive.
pub fn any_positive(ws: &Vec<u16>) -> (found: bool)
    ensures
        found == has_positive(ws@),
{
    let mut i: usize = 0;
    while i < ws.len()
        invariant
            i <= ws.len(),
            forall|j: int| 0 <= j < i ==> ws@[j] == 0,
        decreases ws.len() - i,
    {
        if ws[i] > 0 {
            return true;
        }
        i += 1;
    }
    false
}

/// The total of a weight vector is positive exactly when one of its entries is.
pub proof fn lemma_total_positive(ws: Seq<u16>)
    ensures
        total_weight(ws) > 0 <==> has_positive(ws),
    decreases ws.len(),
{
    if ws.len() > 0 {
        let init = ws.drop_last();
        lemma_total_positive(init);
        if has_positive(init) {
            let i = choose|i: int| 0 <= i < init.len() && init[i] > 0;
            assert(ws[i] > 0);
        }
        if ws.last() > 0 {
            assert(ws[ws.len() - 1] > 0);
        }
        if has_positive(ws) {
            let i = choose|i: int| 0 <= i < ws.len() && ws[i] > 0;
            if i < init.len() {
                assert(init[i] > 0);
            }
        }
    }
}

/// Weights within the cap add up to at most `u16::MAX`.
pub proof fn lemma_total_bounded(ws: Seq<u16>)
    requires
        within_cap(ws),
    ensures
        total_weight(ws) <= 65535,
{
    let n = ws.len();
    let cap = weight_cap(n);
    lemma_total_at_most(ws, cap);
    if 1 <= n <= 65535 {
        assert(n * (65535nat / n) <= 65535) by (nonlinear_arith)
            requires
                1 <= n,
        ;
    } else {
        assert(n * cap == 0) by (nonlinear_arith)
            requires
                cap == 0,
        ;
    }
}

proof fn lemma_total_at_most(ws: Seq<u16>, cap: nat)
    requires
        forall|i: int| 0 <= i < ws.len() ==> ws[i] <= cap,
    ensures
        total_weight(ws) <= ws.len() * cap,
    decreases ws.len(),
{
    if ws.len() > 0 {
        let init = ws.drop_last();
        lemma_total_at_most(init, cap);
        assert(init.len() * cap + cap == ws.len() * cap) by (nonlinear_arith)
            requires
                init.len() + 1 == ws.len(),
        ;
    }
}

} // verus!
