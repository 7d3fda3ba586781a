//! Per-request metrics and their aggregation.
//!
//! Each transaction execution emits one immutable `RequestMetric`. Virtual
//! users accumulate metrics into their own `MetricsAggregator` shard, and the
//! shards are merged once all users have stopped; the merge is proved to give
//! exactly the statistics of aggregating the whole metric sequence serially,
//! so sharding never distorts the report.

use vstd::prelude::*;

verus! {

/// Number of latency histogram buckets per transaction.
pub const LATENCY_BUCKETS: usize = 64;

/// Width of one latency histogram bucket, in the time unit of
/// `RequestMetric::elapsed` (the last bucket takes everything above).
pub const BUCKET_WIDTH: u64 = 25;

/// How one request ended, as the transaction runner classified it.
#[derive(Clone, Copy, Debug, PartialEq, Eq, Structural)]
pub enum Outcome {
    /// Transport succeeded and every declared check passed.
    Success,
    /// The response arrived but failed a declared check.
    ValidationFailure,
    /// The request never produced a usable response (connection/DNS error).
    TransportError,
    /// The response took longer than the per-request timeout.
    Timeout,
    /// The request was abandoned because the run was stopping.
    Cancelled,
}

/// HTTP method of the request a metric describes.
#[derive(Clone, Copy, Debug, PartialEq, Eq, Structural)]
pub enum Method {
    Get,
    Post,
    Head,
    Put,
    Delete,
    Patch,
}

/// Immutable record of one executed request, created by the transaction
/// runner and never mutated afterwards.
#[derive(Clone, Copy, Debug, PartialEq, Eq, Structural)]
pub struct RequestMetric {
    /// Index of the transaction within its scenario.
    pub transaction: usize,
    pub method: Method,
    pub status: u16,
    /// Wall time the request took, in milliseconds.
    pub elapsed: u64,
    /// Scheduler tick at which the request was issued.
    pub timestamp: u64,
    pub outcome: Outcome,
}

/// Outcomes that count towards the error-rate threshold: everything that is
/// neither a success nor a cancellation (cancelled requests are an artefact
/// of stopping, not of the target failing).
pub open spec fn is_failure(o: Outcome) -> bool {
    o is ValidationFailure || o is TransportError || o is Timeout
}

/// Mathematical summary of one transaction's metrics.
#[verifier::ext_equal]
pub struct StatsModel {
    pub success: int,
    pub validation_failure: int,
    pub transport_error: int,
    pub timeout: int,
    pub cancelled: int,
    pub count: int,
    pub total_elapsed: int,
    pub min_elapsed: int,
    pub max_elapsed: int,
    pub hist: Seq<int>,
}

/// Histogram bucket a latency falls into.
pub open spec fn bucket_of(elapsed: u64) -> int {
    if elapsed / BUCKET_WIDTH >= LATENCY_BUCKETS - 1 {
        LATENCY_BUCKETS - 1
    } else {
        (elapsed / BUCKET_WIDTH) as int
    }
}

/// Summary of zero metrics.
pub open spec fn empty_stats() -> StatsModel {
    StatsModel {
        success: 0,
        validation_failure: 0,
        transport_error: 0,
        timeout: 0,
        cancelled: 0,
        count: 0,
        total_elapsed: 0,
        min_elapsed: 0,
        max_elapsed: 0,
        hist: Seq::new(LATENCY_BUCKETS as nat, |i: int| 0),
    }
}

/// One metric folded into a transaction summary.
pub open spec fn record_one(s: StatsModel, m: RequestMetric) -> StatsModel {
    StatsModel {
        success: s.success + if m.outcome is Success { 1int } else { 0int },
        validation_failure: s.validation_failure + if m.outcome is ValidationFailure { 1int } else { 0int },
        transport_error: s.transport_error + if m.outcome is TransportError { 1int } else { 0int },
        timeout: s.timeout + if m.outcome is Timeout { 1int } else { 0int },
        cancelled: s.cancelled + if m.outcome is Cancelled { 1int } else { 0int },
        count: s.count + 1,
        total_elapsed: s.total_elapsed + m.elapsed,
        min_elapsed: if s.count == 0 || m.elapsed < s.min_elapsed { m.elapsed as int } else { s.min_elapsed },
        max_elapsed: if s.count == 0 || m.elapsed > s.max_elapsed { m.elapsed as int } else { s.max_elapsed },
        hist: s.hist.update(bucket_of(m.elapsed), s.hist[bucket_of(m.elapsed)] + 1),
    }
}

/// Two transaction summaries combined: counters add, extrema take the wider
/// bound, histograms add pointwise.
pub open spec fn merge_one(a: StatsModel, b: StatsModel) -> StatsModel {
    StatsModel {
        success: a.success + b.success,
        validation_failure: a.validation_failure + b.validation_failure,
        transport_error: a.transport_error + b.transport_error,
        timeout: a.timeout + b.timeout,
        cancelled: a.cancelled + b.cancelled,
        count: a.count + b.count,
        total_elapsed: a.total_elapsed + b.total_elapsed,
        min_elapsed: if a.count == 0 {
            b.min_elapsed
        } else if b.count == 0 {
            a.min_elapsed
        } else if a.min_elapsed <= b.min_elapsed {
            a.min_elapsed
        } else {
            b.min_elapsed
        },
        max_elapsed: if a.count == 0 {
            b.max_elapsed
        } else if b.count == 0 {
            a.max_elapsed
        } else if a.max_elapsed >= b.max_elapsed {
            a.max_elapsed
        } else {
            b.max_elapsed
        },
        hist: Seq::new(a.hist.len(), |i: int| a.hist[i] + b.hist[i]),
    }
}

/// Well-formed transaction summary: counters are consistent, and an empty
/// summary is the canonical one.
pub open spec fn stats_wf(s: StatsModel) -> bool {
    &&& s.hist.len() == LATENCY_BUCKETS
    &&& s.success >= 0
    &&& s.validation_failure >= 0
    &&& s.transport_error >= 0
    &&& s.timeout >= 0
    &&& s.cancelled >= 0
    &&& s.count == s.success + s.validation_failure + s.transport_error + s.timeout + s.cancelled
    &&& 0 <= s.min_elapsed <= u64::MAX
    &&& 0 <= s.max_elapsed <= u64::MAX
    &&& s.total_elapsed >= 0
    &&& s.total_elapsed <= s.count * (u64::MAX as int)
    &&& forall|i: int| 0 <= i < s.hist.len() ==> 0 <= #[trigger] s.hist[i] <= s.count
    &&& hist_total(s.hist, s.hist.len() as int) == s.count
    &&& s.count == 0 ==> s == empty_stats()
}

/// Sum of the first `n` histogram buckets.
pub open spec fn hist_total(h: Seq<int>, n: int) -> int
    decreases n,
{
    if n <= 0 {
        0
    } else {
        hist_total(h, n - 1) + h[n - 1]
    }
}

pub proof fn lemma_hist_total_update(h: Seq<int>, b: int, v: int, n: int)
    requires
        0 <= b < h.len(),
        0 <= n <= h.len(),
    ensures
        hist_total(h.update(b, v), n) == if b < n {
            hist_total(h, n) - h[b] + v
        } else {
            hist_total(h, n)
        },
    decreases n,
{
    if n > 0 {
        lemma_hist_total_update(h, b, v, n - 1);
    }
}

pub proof fn lemma_hist_total_add(h1: Seq<int>, h2: Seq<int>, n: int)
    requires
        0 <= n <= h1.len(),
        h1.len() == h2.len(),
    ensures
        hist_total(Seq::new(h1.len(), |i: int| h1[i] + h2[i]), n) == hist_total(h1, n)
            + hist_total(h2, n),
    decreases n,
{
    if n > 0 {
        lemma_hist_total_add(h1, h2, n - 1);
    }
}

pub proof fn lemma_hist_total_zero(n: int)
    requires
        0 <= n <= LATENCY_BUCKETS,
    ensures
        hist_total(Seq::new(LATENCY_BUCKETS as nat, |i: int| 0), n) == 0,
    decreases n,
{
    if n > 0 {
        lemma_hist_total_zero(n - 1);
    }
}

/// Recording keeps a summary well formed.
pub proof fn lemma_record_one_wf(s: StatsModel, m: RequestMetric)
    requires
        stats_wf(s),
    ensures
        stats_wf(record_one(s, m)),
{
    let b = bucket_of(m.elapsed);
    assert(0 <= b < LATENCY_BUCKETS);
    lemma_hist_total_update(s.hist, b, s.hist[b] + 1, s.hist.len() as int);
}

/// Merging keeps summaries well formed.
pub proof fn lemma_merge_one_wf(a: StatsModel, b: StatsModel)
    requires
        stats_wf(a),
        stats_wf(b),
    ensures
        stats_wf(merge_one(a, b)),
{
    lemma_hist_total_add(a.hist, b.hist, a.hist.len() as int);
    if a.count + b.count == 0 {
        assert(merge_one(a, b).hist =~= empty_stats().hist);
        assert(merge_one(a, b) =~= empty_stats());
    }
}

/// Merging the empty summary changes nothing.
pub proof fn lemma_merge_one_empty(a: StatsModel)
    requires
        stats_wf(a),
    ensures
        merge_one(a, empty_stats()) == a,
{
    assert(merge_one(a, empty_stats()).hist =~= a.hist);
    assert(merge_one(a, empty_stats()) =~= a);
}

/// Recording a metric into the right shard and then merging is the same as
/// merging first and recording into the whole: the key step of the sharding
/// argument.
pub proof fn lemma_merge_record_one(a: StatsModel, b: StatsModel, m: RequestMetric)
    requires
        stats_wf(a),
        stats_wf(b),
        a.hist.len() == b.hist.len(),
    ensures
        merge_one(a, record_one(b, m)) == record_one(merge_one(a, b), m),
{
    let lhs = merge_one(a, record_one(b, m));
    let rhs = record_one(merge_one(a, b), m);
    assert(lhs.hist =~= rhs.hist);
    assert(lhs =~= rhs);
}

/// Summary of zero metrics for each of `n` transactions.
pub open spec fn empty_model(n: int) -> Seq<StatsModel> {
    Seq::new(n as nat, |i: int| empty_stats())
}

/// One metric folded into the summaries of all transactions: only the slot of
/// its own transaction changes.
pub open spec fn record_model(v: Seq<StatsModel>, m: RequestMetric) -> Seq<StatsModel> {
    v.update(m.transaction as int, record_one(v[m.transaction as int], m))
}

/// A whole metric sequence folded into transaction summaries, in order.
pub open spec fn aggregate_model(v: Seq<StatsModel>, ms: Seq<RequestMetric>) -> Seq<StatsModel>
    decreases ms.len(),
{
    if ms.len() == 0 {
        v
    } else {
        record_model(aggregate_model(v, ms.drop_last()), ms.last())
    }
}

/// Two shards combined slot by slot.
pub open spec fn merge_model(x: Seq<StatsModel>, y: Seq<StatsModel>) -> Seq<StatsModel>
    recommends
        x.len() == y.len(),
{
    Seq::new(x.len(), |i: int| merge_one(x[i], y[i]))
}

pub open spec fn model_wf(v: Seq<StatsModel>) -> bool {
    forall|i: int| 0 <= i < v.len() ==> stats_wf(#[trigger] v[i])
}

/// Every metric of the sequence belongs to one of the `n` transactions.
pub open spec fn metrics_wf(ms: Seq<RequestMetric>, n: int) -> bool {
    forall|j: int| 0 <= j < ms.len() ==> (#[trigger] ms[j].transaction) < n
}

pub proof fn lemma_empty_model_wf(n: int)
    requires
        n >= 0,
    ensures
        model_wf(empty_model(n)),
        empty_model(n).len() == n,
{
    lemma_hist_total_zero(LATENCY_BUCKETS as int);
}

pub proof fn lemma_record_model_wf(v: Seq<StatsModel>, m: RequestMetric)
    requires
        model_wf(v),
        (m.transaction as int) < v.len(),
    ensures
        model_wf(record_model(v, m)),
        record_model(v, m).len() == v.len(),
{
    lemma_record_one_wf(v[m.transaction as int], m);
}

pub proof fn lemma_aggregate_model_wf(v: Seq<StatsModel>, ms: Seq<RequestMetric>)
    requires
        model_wf(v),
        metrics_wf(ms, v.len() as int),
    ensures
        model_wf(aggregate_model(v, ms)),
        aggregate_model(v, ms).len() == v.len(),
    decreases ms.len(),
{
    if ms.len() > 0 {
        assert(metrics_wf(ms.drop_last(), v.len() as int));
        lemma_aggregate_model_wf(v, ms.drop_last());
        lemma_record_model_wf(aggregate_model(v, ms.drop_last()), ms.last());
    }
}

/// Merging an all-empty shard changes nothing.
pub proof fn lemma_merge_model_empty(x: Seq<StatsModel>)
    requires
        model_wf(x),
    ensures
        merge_model(x, empty_model(x.len() as int)) == x,
{
    assert forall|i: int| 0 <= i < x.len() implies merge_model(
        x,
        empty_model(x.len() as int),
    )[i] == x[i] by {
        lemma_merge_one_empty(x[i]);
    }
    assert(merge_model(x, empty_model(x.len() as int)) =~= x);
}

/// Lifting the commuting step to whole shards.
pub proof fn lemma_merge_record_model(x: Seq<StatsModel>, y: Seq<StatsModel>, m: RequestMetric)
    requires
        model_wf(x),
        model_wf(y),
        x.len() == y.len(),
        (m.transaction as int) < x.len(),
    ensures
        merge_model(x, record_model(y, m)) == record_model(merge_model(x, y), m),
{
    let t = m.transaction as int;
    lemma_merge_record_one(x[t], y[t], m);
    assert(merge_model(x, record_model(y, m)) =~= record_model(merge_model(x, y), m));
}

/// Aggregation is idempotent with respect to sharding: folding a fixed metric
/// sequence serially and folding its two halves into separate shards that are
/// merged afterwards yield identical counts, latency totals, extrema and
/// histograms — hence identical means and percentiles, which are functions of
/// the summary alone.
pub proof fn lemma_sharded_aggregation_equals_serial(
    n: int,
    ms1: Seq<RequestMetric>,
    ms2: Seq<RequestMetric>,
)
    requires
        n >= 0,
        metrics_wf(ms1, n),
        metrics_wf(ms2, n),
    ensures
        aggregate_model(empty_model(n), ms1 + ms2) == merge_model(
            aggregate_model(empty_model(n), ms1),
            aggregate_model(empty_model(n), ms2),
        ),
    decreases ms2.len(),
{
    lemma_empty_model_wf(n);
    lemma_aggregate_model_wf(empty_model(n), ms1);
    if ms2.len() == 0 {
        assert(ms1 + ms2 =~= ms1);
        lemma_merge_model_empty(aggregate_model(empty_model(n), ms1));
    } else {
        let m = ms2.last();
        let ms2h = ms2.drop_last();
        assert(metrics_wf(ms2h, n));
        lemma_sharded_aggregation_equals_serial(n, ms1, ms2h);
        lemma_aggregate_model_wf(empty_model(n), ms2h);
        assert((ms1 + ms2).drop_last() =~= ms1 + ms2h);
        assert((ms1 + ms2).last() == m);
        assert((ms1 + ms2).len() > 0);
        lemma_merge_record_model(
            aggregate_model(empty_model(n), ms1),
            aggregate_model(empty_model(n), ms2h),
            m,
        );
    }
}

/// Running summary of one transaction's requests, as the aggregator keeps it.
pub struct TransactionStats {
    pub success: u64,
    pub validation_failure: u64,
    pub transport_error: u64,
    pub timeout: u64,
    pub cancelled: u64,
    pub count: u64,
    pub total_elapsed: u128,
    pub min_elapsed: u64,
    pub max_elapsed: u64,
    pub hist: Vec<u64>,
}

impl TransactionStats {
    pub open spec fn model(self) -> StatsModel {
        StatsModel {
            success: self.success as int,
            validation_failure: self.validation_failure as int,
            transport_error: self.transport_error as int,
            timeout: self.timeout as int,
            cancelled: self.cancelled as int,
            count: self.count as int,
            total_elapsed: self.total_elapsed as int,
            min_elapsed: self.min_elapsed as int,
            max_elapsed: self.max_elapsed as int,
            hist: self.hist@.map_values(|v: u64| v as int),
        }
    }

    /// All failures of this transaction that count towards the error-rate
    /// threshold.
    pub fn failure_count(&self) -> (r: u64)
        requires
            stats_wf(self.model()),
        ensures
            r == self.model().validation_failure + self.model().transport_error
                + self.model().timeout,
    {
        self.validation_failure + self.transport_error + self.timeout
    }

    /// Failure share of this transaction's requests, in whole percent,
    /// rounded down.
    pub fn failure_rate_percent(&self) -> (r: u64)
        requires
            stats_wf(self.model()),
            self.count > 0,
        ensures
            r == (self.model().validation_failure + self.model().transport_error
                + self.model().timeout) * 100 / self.model().count,
            r <= 100,
    {
        let f: u128 = self.validation_failure as u128 + self.transport_error as u128
            + self.timeout as u128;
        proof {
            let fi = f as int;
            let c = self.count as int;
            vstd::arithmetic::div_mod::lemma_div_is_ordered(fi * 100, c * 100, c);
            vstd::arithmetic::div_mod::lemma_div_multiples_vanish(100, c);
        }
        ((f * 100) / (self.count as u128)) as u64
    }

    /// Mean latency of the recorded requests, rounded down.
    pub fn mean_elapsed(&self) -> (r: u64)
        requires
            stats_wf(self.model()),
            self.count > 0,
        ensures
            r == self.model().total_elapsed / self.model().count,
    {
        proof {
            let c = self.count as int;
            let t = self.total_elapsed as int;
            let m = u64::MAX as int;
            vstd::arithmetic::div_mod::lemma_div_is_ordered(t, c * m, c);
            vstd::arithmetic::div_mod::lemma_div_multiples_vanish(m, c);
            assert(c * m == m * c) by (nonlinear_arith);
        }
        (self.total_elapsed / (self.count as u128)) as u64
    }

    /// Index of the smallest histogram bucket whose cumulative share of the
    /// recorded latencies reaches `p` percent: the `p`-th percentile lies in
    /// this bucket, i.e. below `(b + 1) * BUCKET_WIDTH` (or in the open-ended
    /// last bucket).
    #[verifier::loop_isolation(false)]
    pub fn percentile_bucket(&self, p: u8) -> (b: usize)
        requires
            stats_wf(self.model()),
            self.count > 0,
            p <= 100,
        ensures
            b < LATENCY_BUCKETS,
            hist_total(self.model().hist, b + 1) * 100 >= p * self.model().count,
            forall|k: int|
                0 <= k < b ==> #[trigger] hist_total(self.model().hist, k + 1) * 100 < p
                    * self.model().count,
    {
        let ghost h = self.model().hist;
        let mut acc: u64 = 0;
        let mut j: usize = 0;
        while j < LATENCY_BUCKETS
            invariant
                0 <= j <= LATENCY_BUCKETS,
                acc == hist_total(h, j as int),
                forall|k: int|
                    0 <= k < j ==> #[trigger] hist_total(h, k + 1) * 100 < p * self.model().count,
            decreases LATENCY_BUCKETS - j,
        {
            proof {
                lemma_hist_total_bounded(h, (j + 1) as int, LATENCY_BUCKETS as int);
            }
            acc = acc + self.hist[j];
            proof {
                assert((p as int) * (self.count as int) <= 100 * (u64::MAX as int))
                    by (nonlinear_arith)
                    requires
                        p <= 100,
                        self.count <= u64::MAX,
                    ;
            }
            if (acc as u128) * 100 >= (p as u128) * (self.count as u128) {
                return j;
            }
            j = j + 1;
        }
        proof {
            assert(hist_total(h, LATENCY_BUCKETS as int) == self.count as int);
            assert(hist_total(h, (LATENCY_BUCKETS - 1) + 1) * 100 < p * self.model().count);
            assert(100 * (self.count as int) >= p * (self.count as int)) by (nonlinear_arith)
                requires
                    p <= 100,
                    self.count > 0,
                ;
            assert(false);
        }
        0
    }
}

pub proof fn lemma_hist_total_nonneg(h: Seq<int>, i: int)
    requires
        0 <= i <= h.len(),
        forall|k: int| 0 <= k < h.len() ==> 0 <= #[trigger] h[k],
    ensures
        0 <= hist_total(h, i),
    decreases i,
{
    if i > 0 {
        lemma_hist_total_nonneg(h, i - 1);
    }
}

/// Sums of nonnegative buckets only grow with the prefix length.
pub proof fn lemma_hist_total_bounded(h: Seq<int>, i: int, j: int)
    requires
        0 <= i <= j <= h.len(),
        forall|k: int| 0 <= k < h.len() ==> 0 <= #[trigger] h[k],
    ensures
        hist_total(h, i) <= hist_total(h, j),
        0 <= hist_total(h, i),
    decreases j - i,
{
    if i < j {
        lemma_hist_total_bounded(h, i, j - 1);
    }
    lemma_hist_total_nonneg(h, i);
}

/// One shard of the metrics pipeline: each virtual user (or worker) owns an
/// aggregator of its own and folds every emitted metric into it; shards are
/// merged after the users have stopped.
pub struct MetricsAggregator {
    pub stats: Vec<TransactionStats>,
}

impl MetricsAggregator {
    pub open spec fn model(self) -> Seq<StatsModel> {
        self.stats@.map_values(|t: TransactionStats| t.model())
    }

    pub open spec fn wf(self) -> bool {
        model_wf(self.model())
    }

    /// Empty aggregator for a scenario of `n_transactions` transactions.
    pub fn new(n_transactions: usize) -> (a: MetricsAggregator)
        ensures
            a.wf(),
            a.model() == empty_model(n_transactions as int),
    {
        let mut stats: Vec<TransactionStats> = Vec::new();
        let mut i: usize = 0;
        while i < n_transactions
            invariant
                0 <= i <= n_transactions,
                stats@.len() == i,
                forall|k: int| 0 <= k < i ==> (#[trigger] stats@[k]).model() == empty_stats(),
            decreases n_transactions - i,
        {
            let mut hist: Vec<u64> = Vec::new();
            let mut j: usize = 0;
            while j < LATENCY_BUCKETS
                invariant
                    0 <= j <= LATENCY_BUCKETS,
                    hist@.len() == j,
                    forall|k: int| 0 <= k < j ==> #[trigger] hist@[k] == 0,
                decreases LATENCY_BUCKETS - j,
            {
                hist.push(0);
                j = j + 1;
            }
            let t = TransactionStats {
                success: 0,
                validation_failure: 0,
                transport_error: 0,
                timeout: 0,
                cancelled: 0,
                count: 0,
                total_elapsed: 0,
                min_elapsed: 0,
                max_elapsed: 0,
                hist,
            };
            proof {
                assert(t.model().hist =~= empty_stats().hist);
                assert(t.model() =~= empty_stats());
            }
            stats.push(t);
            i = i + 1;
        }
        let a = MetricsAggregator { stats };
        proof {
            assert(a.model() =~= empty_model(n_transactions as int));
            lemma_empty_model_wf(n_transactions as int);
        }
        a
    }

    /// Number of transactions the aggregator tracks.
    pub fn width(&self) -> (n: usize)
        ensures
            n == self.model().len(),
    {
        self.stats.len()
    }

    /// Folds one request metric into the shard. The metric is never stored,
    /// only summarized: it can be discarded afterwards.
    pub fn record(&mut self, m: &RequestMetric)
        requires
            old(self).wf(),
            (m.transaction as int) < old(self).model().len(),
            old(self).model()[m.transaction as int].count < u64::MAX,
        ensures
            final(self).wf(),
            final(self).model() == record_model(old(self).model(), *m),
    {
        let idx = m.transaction;
        let ghost s0 = self.model()[idx as int];
        proof {
            lemma_record_one_wf(s0, *m);
        }
        let mut t = self.stats.remove(idx);
        match m.outcome {
            Outcome::Success => { t.success = t.success + 1; },
            Outcome::ValidationFailure => { t.validation_failure = t.validation_failure + 1; },
            Outcome::TransportError => { t.transport_error = t.transport_error + 1; },
            Outcome::Timeout => { t.timeout = t.timeout + 1; },
            Outcome::Cancelled => { t.cancelled = t.cancelled + 1; },
        }
        if t.count == 0 || m.elapsed < t.min_elapsed {
            t.min_elapsed = m.elapsed;
        }
        if t.count == 0 || m.elapsed > t.max_elapsed {
            t.max_elapsed = m.elapsed;
        }
        proof {
            let c = s0.count;
            let mx = u64::MAX as int;
            assert(s0.total_elapsed + m.elapsed < 0x1_0000_0000_0000_0000_0000_0000_0000_0000int)
                by (nonlinear_arith)
                requires
                    s0.total_elapsed <= c * mx,
                    0 <= c < mx,
                    mx == u64::MAX as int,
                    m.elapsed <= mx,
                ;
        }
        t.count = t.count + 1;
        t.total_elapsed = t.total_elapsed + (m.elapsed as u128);
        let b = bucket_index(m.elapsed);
        let hv = t.hist[b];
        t.hist.set(b, hv + 1);
        proof {
            assert(t.model().hist =~= record_one(s0, *m).hist);
            assert(t.model() =~= record_one(s0, *m));
        }
        self.stats.insert(idx, t);
        proof {
            assert(self.stats@ =~= old(self).stats@.update(idx as int, t));
            assert(self.model() =~= record_model(old(self).model(), *m));
        }
    }

    /// Absorbs another shard: afterwards this aggregator summarizes exactly
    /// the metrics of both.
    #[verifier::loop_isolation(false)]
    pub fn merge(&mut self, other: &MetricsAggregator)
        requires
            old(self).wf(),
            other.wf(),
            old(self).model().len() == other.model().len(),
            forall|i: int|
                0 <= i < other.model().len() ==> (#[trigger] old(self).model()[i]).count
                    + other.model()[i].count <= u64::MAX,
        ensures
            final(self).wf(),
            final(self).model() == merge_model(old(self).model(), other.model()),
    {
        let n = self.stats.len();
        let mut merged: Vec<TransactionStats> = Vec::new();
        let mut i: usize = 0;
        while i < n
            invariant
                0 <= i <= n,
                merged@.len() == i,
                forall|k: int|
                    0 <= k < i ==> (#[trigger] merged@[k]).model() == merge_one(
                        old(self).model()[k],
                        other.model()[k],
                    ),
            decreases n - i,
        {
            let ghost ma = self.model()[i as int];
            let ghost mb = other.model()[i as int];
            let a = &self.stats[i];
            let b = &other.stats[i];
            proof {
                let mx = u64::MAX as int;
                assert(ma.total_elapsed + mb.total_elapsed
                    < 0x1_0000_0000_0000_0000_0000_0000_0000_0000int) by (nonlinear_arith)
                    requires
                        ma.total_elapsed <= ma.count * mx,
                        mb.total_elapsed <= mb.count * mx,
                        0 <= ma.count,
                        0 <= mb.count,
                        ma.count + mb.count <= mx,
                        mx == u64::MAX as int,
                    ;
            }
            let mut hist: Vec<u64> = Vec::new();
            let mut j: usize = 0;
            while j < LATENCY_BUCKETS
                invariant
                    0 <= i < n,
                    0 <= j <= LATENCY_BUCKETS,
                    hist@.len() == j,
                    forall|k: int|
                        0 <= k < j ==> #[trigger] hist@[k] == ma.hist[k] + mb.hist[k],
                decreases LATENCY_BUCKETS - j,
            {
                proof {
                    assert(ma.hist[j as int] == self.stats@[i as int].hist@[j as int]);
                    assert(mb.hist[j as int] == other.stats@[i as int].hist@[j as int]);
                    assert(ma.hist[j as int] <= ma.count);
                    assert(mb.hist[j as int] <= mb.count);
                }
                hist.push(self.stats[i].hist[j] + other.stats[i].hist[j]);
                j = j + 1;
            }
            let a = &self.stats[i];
            let b = &other.stats[i];
            let t = TransactionStats {
                success: a.success + b.success,
                validation_failure: a.validation_failure + b.validation_failure,
                transport_error: a.transport_error + b.transport_error,
                timeout: a.timeout + b.timeout,
                cancelled: a.cancelled + b.cancelled,
                count: a.count + b.count,
                total_elapsed: a.total_elapsed + b.total_elapsed,
                min_elapsed: if a.count == 0 {
                    b.min_elapsed
                } else if b.count == 0 {
                    a.min_elapsed
                } else if a.min_elapsed <= b.min_elapsed {
                    a.min_elapsed
                } else {
                    b.min_elapsed
                },
                max_elapsed: if a.count == 0 {
                    b.max_elapsed
                } else if b.count == 0 {
                    a.max_elapsed
                } else if a.max_elapsed >= b.max_elapsed {
                    a.max_elapsed
                } else {
                    b.max_elapsed
                },
                hist,
            };
            proof {
                assert(t.model().hist =~= merge_one(ma, mb).hist);
                assert(t.model() =~= merge_one(ma, mb));
            }
            merged.push(t);
            i = i + 1;
        }
        self.stats = merged;
        proof {
            assert(self.model() =~= merge_model(old(self).model(), other.model()));
            assert forall|k: int| 0 <= k < self.model().len() implies stats_wf(
                #[trigger] self.model()[k],
            ) by {
                lemma_merge_one_wf(old(self).model()[k], other.model()[k]);
            }
        }
    }

    /// Final, consistent snapshot. Taking the aggregator by value is the join
    /// barrier the snapshot contract asks for: once consumed, no further
    /// metric can be recorded, so the report can never race with a writer.
    pub fn snapshot(self, incomplete: bool) -> (r: AggregatedReport)
        ensures
            r.stats@ == self.stats@,
            r.model() == self.model(),
            r.incomplete == incomplete,
    {
        AggregatedReport { stats: self.stats, incomplete }
    }
}

/// Histogram bucket a latency falls into, as executed.
pub fn bucket_index(elapsed: u64) -> (b: usize)
    ensures
        b == bucket_of(elapsed),
        b < LATENCY_BUCKETS,
{
    let q = elapsed / BUCKET_WIDTH;
    if q >= (LATENCY_BUCKETS - 1) as u64 {
        LATENCY_BUCKETS - 1
    } else {
        q as usize
    }
}

/// Final mapping from transaction to summary statistics, plus whether the run
/// stopped early (leaving the report incomplete).
pub struct AggregatedReport {
    pub stats: Vec<TransactionStats>,
    pub incomplete: bool,
}

impl AggregatedReport {
    pub open spec fn model(self) -> Seq<StatsModel> {
        self.stats@.map_values(|t: TransactionStats| t.model())
    }
}

} // verus!
