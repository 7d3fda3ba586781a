//! Scenario model: a named user journey made of weighted transactions.
//!
//! Scenario and transaction definitions are read-only after configuration and
//! shared by every virtual user; only each user's own context is mutable.

use vstd::prelude::*;
use crate::metrics::Method;
use crate::runner::Validation;
use crate::selection::SelectionTable;
use crate::selection::total_weight;

verus! {

/// One discrete unit of simulated work: a request against a path, with the
/// declarative checks to run on its response.
pub struct Transaction {
    pub name: String,
    pub method: Method,
    /// Path relative to the run's base URL.
    pub path: String,
    pub validation: Validation,
    /// Run this transaction once when a virtual user starts, before the
    /// weighted loop.
    pub once_at_start: bool,
}

/// A transaction with the weight that governs how often a user selects it; a
/// weight of zero keeps the transaction registered but never selected.
pub struct WeightedTransaction {
    pub transaction: Transaction,
    pub weight: u64,
}

/// A named user journey: an ordered list of weighted transactions.
pub struct Scenario {
    pub name: String,
    pub transactions: Vec<WeightedTransaction>,
}

impl Scenario {
    /// The weights, in transaction order.
    pub open spec fn weights(self) -> Seq<u64> {
        self.transactions@.map_values(|t: WeightedTransaction| t.weight)
    }

    /// A scenario a run can use: at least one transaction is selectable
    /// (total weight positive) and the total weight fits in a draw.
    pub open spec fn valid(self) -> bool {
        &&& self.transactions@.len() >= 1
        &&& 0 < total_weight(self.weights()) <= u64::MAX
    }

    pub fn transaction_count(&self) -> (n: usize)
        ensures
            n == self.transactions@.len(),
    {
        self.transactions.len()
    }

    /// The weights as a vector, for building the selection table.
    pub fn weight_vec(&self) -> (w: Vec<u64>)
        ensures
            w@ == self.weights(),
    {
        let mut w: Vec<u64> = Vec::new();
        let mut i: usize = 0;
        while i < self.transactions.len()
            invariant
                0 <= i <= self.transactions@.len(),
                w@.len() == i,
                forall|k: int| 0 <= k < i ==> #[trigger] w@[k] == self.weights()[k],
            decreases self.transactions@.len() - i,
        {
            w.push(self.transactions[i].weight);
            i = i + 1;
        }
        proof {
            assert(w@ =~= self.weights());
        }
        w
    }

    /// Builds the scenario's selection table; `None` exactly when the
    /// scenario is not valid.
    pub fn build_table(&self) -> (r: Option<SelectionTable>)
        ensures
            r is Some <==> self.valid(),
            r matches Some(t) ==> t.wf() && t.weights@ == self.weights(),
    {
        let w = self.weight_vec();
        proof {
            if self.weights().len() == 0 {
                assert(total_weight(self.weights()) == 0);
            }
        }
        SelectionTable::build(&w)
    }
}

} // verus!
