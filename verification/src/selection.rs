//! Weighted transaction selection: the discrete-distribution table a scenario
//! builds once at configuration time (cumulative weight array plus binary
//! search on a random draw), and the proof that selection is fair per weight
//! unit.

use vstd::prelude::*;
use vstd::set_lib::lemma_int_range;
use vstd::set_lib::set_int_range;

verus! {

/// Sum of a sequence of weights.
pub open spec fn total_weight(w: Seq<u64>) -> int
    decreases w.len(),
{
    if w.len() == 0 {
        0
    } else {
        total_weight(w.drop_last()) + w.last()
    }
}

/// Sum of the first `i` weights.
pub open spec fn prefix_weight(w: Seq<u64>, i: int) -> int
    recommends
        0 <= i <= w.len(),
{
    total_weight(w.take(i))
}

/// A draw `d` selects transaction `i` when `d` falls inside `i`'s slice of
/// the cumulative weight line: `prefix_weight(i) <= d < prefix_weight(i + 1)`.
/// A transaction of weight 0 has an empty slice and is never selected.
pub open spec fn selects(w: Seq<u64>, d: int, i: int) -> bool {
    &&& 0 <= i < w.len()
    &&& prefix_weight(w, i) <= d < prefix_weight(w, i + 1)
}

pub proof fn lemma_prefix_weight_zero(w: Seq<u64>)
    ensures
        prefix_weight(w, 0) == 0,
{
    assert(w.take(0).len() == 0);
}

pub proof fn lemma_prefix_weight_step(w: Seq<u64>, i: int)
    requires
        0 <= i < w.len(),
    ensures
        prefix_weight(w, i + 1) == prefix_weight(w, i) + w[i],
{
    assert(w.take(i + 1).drop_last() =~= w.take(i));
    assert(w.take(i + 1).last() == w[i]);
}

pub proof fn lemma_prefix_weight_monotonic(w: Seq<u64>, i: int, j: int)
    requires
        0 <= i <= j <= w.len(),
    ensures
        prefix_weight(w, i) <= prefix_weight(w, j),
    decreases j - i,
{
    if i < j {
        lemma_prefix_weight_step(w, j - 1);
        lemma_prefix_weight_monotonic(w, i, j - 1);
    }
}

pub proof fn lemma_prefix_weight_full(w: Seq<u64>)
    ensures
        prefix_weight(w, w.len() as int) == total_weight(w),
{
    assert(w.take(w.len() as int) =~= w);
}

/// A draw selects at most one transaction: the weight slices are disjoint.
pub proof fn lemma_selects_unique(w: Seq<u64>, d: int, i: int, j: int)
    requires
        selects(w, d, i),
        selects(w, d, j),
    ensures
        i == j,
{
    if i < j {
        lemma_prefix_weight_monotonic(w, i + 1, j);
    }
    if j < i {
        lemma_prefix_weight_monotonic(w, j + 1, i);
    }
}

/// Weighted fairness of selection: among the `total_weight(w)` possible
/// draws, exactly `w[i]` select transaction `i`. Over draws distributed
/// uniformly on `[0, total)`, transaction `i` is therefore selected with
/// probability `w[i] / total_weight(w)`.
pub proof fn lemma_selection_frequency(w: Seq<u64>, i: int)
    requires
        0 <= i < w.len(),
    ensures
        Set::new(|d: int| 0 <= d < total_weight(w) && selects(w, d, i)).finite(),
        Set::new(|d: int| 0 <= d < total_weight(w) && selects(w, d, i)).len() == w[i],
{
    let lo = prefix_weight(w, i);
    let hi = prefix_weight(w, i + 1);
    lemma_prefix_weight_zero(w);
    lemma_prefix_weight_monotonic(w, 0, i);
    lemma_prefix_weight_step(w, i);
    lemma_prefix_weight_monotonic(w, i + 1, w.len() as int);
    lemma_prefix_weight_full(w);
    lemma_int_range(lo, hi);
    assert(Set::new(|d: int| 0 <= d < total_weight(w) && selects(w, d, i)) =~= set_int_range(
        lo,
        hi,
    ));
}

/// Discrete-distribution table for one scenario, built once at configuration
/// time: `cum[i]` is the sum of the weights of transactions `0..=i`.
pub struct SelectionTable {
    pub weights: Vec<u64>,
    pub cum: Vec<u64>,
}

impl SelectionTable {
    /// The cumulative array mirrors the weights, and the total is positive
    /// (at least one transaction can be selected) and fits in a draw.
    pub open spec fn wf(self) -> bool {
        &&& self.cum.len() == self.weights.len()
        &&& forall|i: int|
            0 <= i < self.weights.len() ==> #[trigger] self.cum[i] == prefix_weight(
                self.weights@,
                i + 1,
            )
        &&& 0 < total_weight(self.weights@) <= u64::MAX
    }

    pub open spec fn total_spec(self) -> int {
        total_weight(self.weights@)
    }

    /// Builds the table for the given weights. Returns `None` exactly when no
    /// transaction could ever be selected (all weights zero, or none) or the
    /// cumulative weight does not fit in a `u64` draw.
    pub fn build(weights: &Vec<u64>) -> (r: Option<SelectionTable>)
        ensures
            r is Some <==> 0 < total_weight(weights@) <= u64::MAX,
            r matches Some(t) ==> t.wf() && t.weights@ == weights@,
    {
        let mut cum: Vec<u64> = Vec::new();
        let mut acc: u64 = 0;
        let mut k: usize = 0;
        while k < weights.len()
            invariant
                0 <= k <= weights.len(),
                cum.len() == k,
                acc == prefix_weight(weights@, k as int),
                forall|i: int|
                    0 <= i < k ==> #[trigger] cum[i] == prefix_weight(weights@, i + 1),
            decreases weights.len() - k,
        {
            proof {
                lemma_prefix_weight_step(weights@, k as int);
            }
            if weights[k] > u64::MAX - acc {
                proof {
                    lemma_prefix_weight_monotonic(weights@, k + 1, weights@.len() as int);
                    lemma_prefix_weight_full(weights@);
                }
                return None;
            }
            acc = acc + weights[k];
            cum.push(acc);
            k = k + 1;
        }
        proof {
            lemma_prefix_weight_full(weights@);
        }
        if acc == 0 {
            return None;
        }
        Some(SelectionTable { weights: weights.clone(), cum })
    }

    /// Total weight of the table, the exclusive upper bound for draws.
    pub fn total(&self) -> (t: u64)
        requires
            self.wf(),
        ensures
            t == self.total_spec(),
    {
        proof {
            lemma_prefix_weight_full(self.weights@);
        }
        self.cum[self.cum.len() - 1]
    }

    /// Maps one uniform draw below the total weight to the transaction whose
    /// slice of the cumulative weight line contains it, by binary search.
    #[verifier::loop_isolation(false)]
    pub fn select(&self, draw: u64) -> (i: usize)
        requires
            self.wf(),
            draw < self.total_spec(),
        ensures
            selects(self.weights@, draw as int, i as int),
    {
        proof {
            lemma_prefix_weight_full(self.weights@);
            lemma_prefix_weight_zero(self.weights@);
        }
        let n = self.cum.len();
        let mut lo: usize = 0;
        let mut hi: usize = n;
        while lo < hi
            invariant
                0 <= lo <= hi <= n,
                forall|k: int| 0 <= k < lo ==> #[trigger] self.cum[k] <= draw,
                forall|k: int| hi <= k < n ==> #[trigger] self.cum[k] > draw,
            decreases hi - lo,
        {
            let mid = lo + (hi - lo) / 2;
            if self.cum[mid] <= draw {
                proof {
                    assert forall|k: int| 0 <= k < mid + 1 implies #[trigger] self.cum[k]
                        <= draw by {
                        lemma_prefix_weight_monotonic(self.weights@, k + 1, mid + 1);
                    }
                }
                lo = mid + 1;
            } else {
                proof {
                    assert forall|k: int| mid <= k < n implies #[trigger] self.cum[k] > draw by {
                        lemma_prefix_weight_monotonic(self.weights@, mid + 1, k + 1);
                    }
                }
                hi = mid;
            }
        }
        proof {
            if lo == n {
                assert(self.cum[n - 1] <= draw);
                assert(false);
            }
        }
        assert(lo < n);
        assert(self.cum[lo as int] > draw);
        assert(prefix_weight(self.weights@, lo + 1) > draw);
        assert(prefix_weight(self.weights@, lo as int) <= draw) by {
            if lo > 0 {
                assert(self.cum[lo - 1] <= draw);
            } else {
                lemma_prefix_weight_zero(self.weights@);
            }
        }
        lo
    }
}

} // verus!
