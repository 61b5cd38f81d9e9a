//! What the configuration supplies for each application: a name, the ports
//! to listen on and the targets to balance over.

use vstd::prelude::*;
use crate::balancer::{names_of, new_error, BalancerError, LoadBalancer};
use crate::model::Table;

verus! {

/// The weight every target starts with.
pub const INITIAL_WEIGHT: u16 = 1;

/// One application: the ports it listens on and the targets behind them.
#[derive(Debug, Clone)]
pub struct ProxyConfig {
    pub name: String,
    pub ports: Vec<u16>,
    pub targets: Vec<String>,
}

/// The whole configuration: one entry per application.
#[derive(Debug, Clone)]
pub struct ProxyConfigFile {
    pub apps: Vec<ProxyConfig>,
}

/// `n` weights, each the initial weight.
pub open spec fn equal_weights(n: nat) -> Seq<u16> {
    Seq::new(n, |i: int| INITIAL_WEIGHT)
}

/// Equal weights compile for one up to 65535 distinct targets, and for no
/// other number.
pub proof fn lemma_equal_weights(names: Seq<Seq<char>>)
    ensures
        new_error(names, equal_weights(names.len())) is None <==> names.no_duplicates() && 1
            <= names.len() <= 65535,
{
    let ws = equal_weights(names.len());
    let n = names.len();
    if 1 <= n <= 65535 {
        assert(65535nat / n >= 1) by (nonlinear_arith)
            requires
                1 <= n <= 65535,
        ;
        assert(ws[0] > 0);
    } else if n > 65535 {
        assert(ws[0] == 1);
    }
}

impl ProxyConfig {
    /// One initial weight for each target.
    pub fn initial_weights(&self) -> (ws: Vec<u16>)
        ensures
            ws@ == equal_weights(self.targets@.len()),
    {
        let mut ws: Vec<u16> = Vec::new();
        let mut i: usize = 0;
        while i < self.targets.len()
            invariant
                i <= self.targets.len(),
                ws@.len() == i,
                forall|j: int| 0 <= j < i ==> ws@[j] == INITIAL_WEIGHT,
            decreases self.targets.len() - i,
        {
            ws.push(INITIAL_WEIGHT);
            i += 1;
        }
        assert(ws@ =~= equal_weights(self.targets@.len()));
        ws
    }

    /// The registry this application starts with: every target at the initial
    /// weight. There is one exactly when the targets are distinct and number
    /// between one and 65535.
    pub fn load_balancer(&self) -> (r: Result<LoadBalancer, BalancerError>)
        ensures
            r is Ok <==> names_of(self.targets@).no_duplicates() && 1 <= self.targets@.len()
                <= 65535,
            match r {
                Ok(lb) => {
                    &&& lb.wf()
                    &&& lb.active()
                    &&& lb.table() == (Table {
                        names: names_of(self.targets@),
                        weights: equal_weights(self.targets@.len()),
                    })
                },
                Err(e) => new_error(
                    names_of(self.targets@),
                    equal_weights(self.targets@.len()),
                ) == Some(e),
            },
    {
        proof {
            lemma_equal_weights(names_of(self.targets@));
        }
        let weights = self.initial_weights();
        LoadBalancer::try_new(&self.targets, &weights)
    }
}

} // verus!
