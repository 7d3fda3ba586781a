//! The attack controller's run loop, executed deterministically: ramp-up,
//! run-once startup transactions, weighted selection, transaction execution,
//! aggregation and the error-rate abort rule, wired together over a script of
//! prepared responses.
//!
//! The HTTP collaborator's behaviour enters as data: request number `k`
//! receives response `script[k % script.len()]`. A real-time driver performs
//! the same decisions against a live target; this loop is the engine the
//! driver consults, and every property below holds of it for any response
//! script.

use vstd::prelude::*;
use crate::controller::RunConfiguration;
use crate::controller::RunOutcome;
use crate::controller::config_ok;
use crate::controller::exit_status;
use crate::controller::threshold_breached;
use crate::controller::threshold_breached_spec;
use crate::controller::validate_configuration;
use crate::metrics::AggregatedReport;
use crate::metrics::MetricsAggregator;
use crate::metrics::StatsModel;
use crate::metrics::empty_model;
use crate::metrics::is_failure;
use crate::metrics::model_wf;
use crate::metrics::record_model;
use crate::rng::DrawSource;
use crate::runner::ResponseData;
use crate::runner::classify_spec;
use crate::runner::run_transaction;
use crate::scenario::Scenario;
use crate::scenario::WeightedTransaction;
use crate::schedule::active_user_target;
use crate::schedule::active_user_target_spec;

verus! {

/// Requests the weighted loop issues in the first `t` ticks when nothing
/// stops early: every active user runs one transaction per tick.
pub open spec fn scheduled_requests(users: u64, ramp: u64, t: int) -> int
    decreases t,
{
    if t <= 0 {
        0
    } else {
        scheduled_requests(users, ramp, t - 1) + active_user_target_spec(
            users,
            ramp,
            (t - 1) as u64,
        )
    }
}

/// How many of the first `j` transactions are flagged to run once at a
/// user's start.
pub open spec fn startup_count(s: Seq<WeightedTransaction>, j: int) -> int
    decreases j,
{
    if j <= 0 {
        0
    } else {
        startup_count(s, j - 1) + if s[j - 1].transaction.once_at_start {
            1int
        } else {
            0int
        }
    }
}

proof fn lemma_startup_count_bounds(s: Seq<WeightedTransaction>, j: int)
    requires
        0 <= j <= s.len(),
    ensures
        0 <= startup_count(s, j) <= j,
    decreases j,
{
    if j > 0 {
        lemma_startup_count_bounds(s, j - 1);
    }
}

proof fn lemma_startup_count_monotonic(s: Seq<WeightedTransaction>, i: int, j: int)
    requires
        0 <= i <= j <= s.len(),
    ensures
        startup_count(s, i) <= startup_count(s, j),
    decreases j - i,
{
    if i < j {
        lemma_startup_count_monotonic(s, i, j - 1);
        lemma_startup_count_bounds(s, j);
    }
}

/// Total requests recorded across all transactions.
pub open spec fn sum_count(v: Seq<StatsModel>, n: int) -> int
    decreases n,
{
    if n <= 0 {
        0
    } else {
        sum_count(v, n - 1) + v[n - 1].count
    }
}

/// Total successes recorded across all transactions.
pub open spec fn sum_success(v: Seq<StatsModel>, n: int) -> int
    decreases n,
{
    if n <= 0 {
        0
    } else {
        sum_success(v, n - 1) + v[n - 1].success
    }
}

/// Total failures (validation, transport, timeout) across all transactions.
pub open spec fn sum_failures(v: Seq<StatsModel>, n: int) -> int
    decreases n,
{
    if n <= 0 {
        0
    } else {
        sum_failures(v, n - 1) + v[n - 1].validation_failure + v[n - 1].transport_error + v[n
            - 1].timeout
    }
}

proof fn lemma_sums_update(v: Seq<StatsModel>, t: int, s: StatsModel, n: int)
    requires
        0 <= t < v.len(),
        0 <= n <= v.len(),
    ensures
        sum_count(v.update(t, s), n) == sum_count(v, n) + if t < n {
            s.count - v[t].count
        } else {
            0
        },
        sum_success(v.update(t, s), n) == sum_success(v, n) + if t < n {
            s.success - v[t].success
        } else {
            0
        },
        sum_failures(v.update(t, s), n) == sum_failures(v, n) + if t < n {
            s.validation_failure + s.transport_error + s.timeout - v[t].validation_failure
                - v[t].transport_error - v[t].timeout
        } else {
            0
        },
    decreases n,
{
    if n > 0 {
        lemma_sums_update(v, t, s, n - 1);
    }
}

/// Folding one metric in raises the totals by exactly that one request.
proof fn lemma_sums_record(v: Seq<StatsModel>, m: crate::metrics::RequestMetric)
    requires
        0 <= (m.transaction as int) < v.len(),
    ensures
        sum_count(record_model(v, m), v.len() as int) == sum_count(v, v.len() as int) + 1,
        sum_success(record_model(v, m), v.len() as int) == sum_success(v, v.len() as int) + if m.outcome is Success {
            1int
        } else {
            0int
        },
        sum_failures(record_model(v, m), v.len() as int) == sum_failures(v, v.len() as int)
            + if is_failure(m.outcome) {
            1int
        } else {
            0int
        },
{
    let t = m.transaction as int;
    lemma_sums_update(v, t, crate::metrics::record_one(v[t], m), v.len() as int);
}

proof fn lemma_sums_empty(n: int, k: int)
    requires
        0 <= k <= n,
    ensures
        sum_count(empty_model(n), k) == 0,
        sum_success(empty_model(n), k) == 0,
        sum_failures(empty_model(n), k) == 0,
    decreases k,
{
    if k > 0 {
        lemma_sums_empty(n, k - 1);
    }
}

/// Each transaction's count is at most the grand total.
proof fn lemma_count_le_sum(v: Seq<StatsModel>, t: int, n: int)
    requires
        model_wf(v),
        0 <= t < n <= v.len(),
    ensures
        v[t].count <= sum_count(v, n),
        sum_count(v, n) >= 0,
    decreases n,
{
    if n > 0 {
        if t == n - 1 {
            lemma_sum_count_nonneg(v, n - 1);
        } else {
            lemma_count_le_sum(v, t, n - 1);
        }
    }
}

proof fn lemma_sum_count_nonneg(v: Seq<StatsModel>, n: int)
    requires
        model_wf(v),
        0 <= n <= v.len(),
    ensures
        sum_count(v, n) >= 0,
    decreases n,
{
    if n > 0 {
        lemma_sum_count_nonneg(v, n - 1);
    }
}

/// Every transaction of the scenario classifies every script response as a
/// success.
pub open spec fn script_all_pass(scenario: Scenario, script: Seq<ResponseData>, timeout: u64) -> bool {
    forall|i: int, j: int|
        0 <= i < scenario.transactions@.len() && 0 <= j < script.len()
            ==> #[trigger] classify_spec(
            scenario.transactions@[i].transaction.validation,
            script[j],
            timeout,
            false,
        ) is Success
}

/// Every transaction of the scenario classifies every script response as a
/// failure.
pub open spec fn script_none_pass(scenario: Scenario, script: Seq<ResponseData>, timeout: u64) -> bool {
    forall|i: int, j: int|
        0 <= i < scenario.transactions@.len() && 0 <= j < script.len() ==> is_failure(
            #[trigger] classify_spec(
                scenario.transactions@[i].transaction.validation,
                script[j],
                timeout,
                false,
            ),
        )
}

/// Everything a finished run hands to the reporting collaborator.
pub struct RunResult {
    pub report: AggregatedReport,
    pub outcome: RunOutcome,
    /// Process exit status: zero exactly on normal completion.
    pub exit: u8,
    pub requests_issued: u64,
    pub failures: u64,
}

/// One transaction execution against the script, with all of the run's
/// bookkeeping: classify the response, fold the metric into the aggregate,
/// count the request and any failure, and re-evaluate the abort rule.
fn issue_request(
    agg: &mut MetricsAggregator,
    issued: &mut u64,
    failures: &mut u64,
    aborted: &mut bool,
    scenario: &Scenario,
    tx: usize,
    script: &Vec<ResponseData>,
    timeout: u64,
    threshold: Option<u8>,
    tick: u64,
)
    requires
        old(agg).wf(),
        old(agg).model().len() == scenario.transactions@.len(),
        (tx as int) < scenario.transactions@.len(),
        script@.len() >= 1,
        sum_count(old(agg).model(), old(agg).model().len() as int) == *old(issued),
        sum_failures(old(agg).model(), old(agg).model().len() as int) == *old(failures),
        sum_success(old(agg).model(), old(agg).model().len() as int) + *old(failures) == *old(
            issued,
        ),
        *old(issued) < u64::MAX,
        *old(failures) <= *old(issued),
    ensures
        final(agg).wf(),
        final(agg).model().len() == old(agg).model().len(),
        *final(issued) == *old(issued) + 1,
        *final(failures) <= *final(issued),
        sum_count(final(agg).model(), final(agg).model().len() as int) == *final(issued),
        sum_failures(final(agg).model(), final(agg).model().len() as int) == *final(failures),
        sum_success(final(agg).model(), final(agg).model().len() as int) + *final(failures)
            == *final(issued),
        *final(failures) == *old(failures) + if is_failure(
            classify_spec(
                scenario.transactions@[tx as int].transaction.validation,
                script@[(*old(issued) as int) % (script@.len() as int)],
                timeout,
                false,
            ),
        ) {
            1int
        } else {
            0int
        },
        *final(aborted) <==> (threshold matches Some(t) && threshold_breached_spec(
            *final(failures),
            *final(issued),
            t,
        )),
{
    let slot = (*issued % (script.len() as u64)) as usize;
    let resp = &script[slot];
    let m = run_transaction(
        tx,
        scenario.transactions[tx].transaction.method,
        &scenario.transactions[tx].transaction.validation,
        resp,
        timeout,
        false,
        tick,
    );
    proof {
        lemma_count_le_sum(agg.model(), tx as int, agg.model().len() as int);
        lemma_sums_record(agg.model(), m);
        assert(!(m.outcome is Cancelled));
    }
    agg.record(&m);
    *issued = *issued + 1;
    let failed = match m.outcome {
        crate::metrics::Outcome::Success => false,
        crate::metrics::Outcome::Cancelled => false,
        _ => true,
    };
    if failed {
        *failures = *failures + 1;
    }
    *aborted = match threshold {
        Some(t) => threshold_breached(*failures, *issued, t),
        None => false,
    };
}

/// Executes a whole run: validates the configuration, ramps the users up,
/// runs each starting user's run-once transactions, lets each active user
/// select and run one weighted transaction per tick, aggregates every
/// emitted metric, and stops early only on the error-rate threshold.
/// Deterministic in the configuration, scenario and script. Think-time
/// pauses concern the live driver; this loop drives the decisions.
#[verifier::loop_isolation(false)]
#[verifier::rlimit(100)]
pub fn execute_run(cfg: &RunConfiguration, scenario: &Scenario, script: &Vec<ResponseData>) -> (r:
    RunResult)
    requires
        script@.len() >= 1,
        cfg.users * (cfg.duration_ticks + scenario.transactions@.len()) <= u64::MAX,
        cfg.users <= usize::MAX,
    ensures
        r.outcome is InvalidConfiguration <==> !config_ok(*cfg, *scenario),
        r.exit == 0 <==> r.outcome is Completed,
        r.outcome is AbortedOnErrorRate ==> r.exit == 1,
        r.outcome is InvalidConfiguration ==> r.exit == 2,
        r.report.incomplete <==> r.outcome is AbortedOnErrorRate,
        config_ok(*cfg, *scenario) ==> {
            &&& (r.outcome is Completed || r.outcome is AbortedOnErrorRate)
            &&& r.report.model().len() == scenario.transactions@.len()
            &&& model_wf(r.report.model())
            &&& sum_count(r.report.model(), r.report.model().len() as int) == r.requests_issued
            &&& sum_failures(r.report.model(), r.report.model().len() as int) == r.failures
            &&& sum_success(r.report.model(), r.report.model().len() as int) + r.failures
                == r.requests_issued
            &&& r.requests_issued >= 1
            &&& r.requests_issued <= cfg.users * (cfg.duration_ticks
                + scenario.transactions@.len())
            &&& (r.outcome is AbortedOnErrorRate <==> (cfg.error_rate_threshold matches Some(t)
                && threshold_breached_spec(r.failures, r.requests_issued, t)))
        },
        config_ok(*cfg, *scenario) && r.outcome is Completed && cfg.iteration_cap is None
            ==> r.requests_issued == scheduled_requests(
            cfg.users,
            cfg.ramp_per_tick,
            cfg.duration_ticks as int,
        ) + active_user_target_spec(
            cfg.users,
            cfg.ramp_per_tick,
            (cfg.duration_ticks - 1) as u64,
        ) * startup_count(scenario.transactions@, scenario.transactions@.len() as int),
        config_ok(*cfg, *scenario) && script_all_pass(*scenario, script@, cfg.request_timeout)
            ==> r.failures == 0 && r.outcome is Completed,
        config_ok(*cfg, *scenario) && script_none_pass(*scenario, script@, cfg.request_timeout)
            ==> r.failures == r.requests_issued,
{
    match validate_configuration(cfg, scenario) {
        Err(_) => {
            let agg = MetricsAggregator::new(0);
            return RunResult {
                report: agg.snapshot(false),
                outcome: RunOutcome::InvalidConfiguration,
                exit: exit_status(RunOutcome::InvalidConfiguration),
                requests_issued: 0,
                failures: 0,
            };
        },
        Ok(()) => {},
    }
    let table = match scenario.build_table() {
        Some(t) => t,
        None => {
            proof {
                // the configuration was just validated, so the table exists
                assert(false);
            }
            let agg = MetricsAggregator::new(0);
            return RunResult {
                report: agg.snapshot(false),
                outcome: RunOutcome::InvalidConfiguration,
                exit: exit_status(RunOutcome::InvalidConfiguration),
                requests_issued: 0,
                failures: 0,
            };
        },
    };
    let n_tx = scenario.transaction_count();
    let ghost n = scenario.transactions@.len() as int;
    let ghost ns = startup_count(scenario.transactions@, n);
    proof {
        lemma_startup_count_bounds(scenario.transactions@, n);
    }
    let mut agg = MetricsAggregator::new(n_tx);
    let mut rng = DrawSource::new(cfg.seed);
    let mut counts: Vec<u64> = Vec::new();
    let users_usize = cfg.users as usize;
    let mut ci: usize = 0;
    while ci < users_usize
        invariant
            0 <= ci <= users_usize,
            counts@.len() == ci,
            forall|k: int| 0 <= k < ci ==> #[trigger] counts@[k] == 0,
        decreases users_usize - ci,
    {
        counts.push(0);
        ci = ci + 1;
    }
    proof {
        lemma_sums_empty(n, n);
    }
    let mut issued: u64 = 0;
    let mut failures: u64 = 0;
    let mut aborted = false;
    let mut prev_active: u64 = 0;
    let mut tick: u64 = 0;
    while tick < cfg.duration_ticks && !aborted
        invariant
            0 <= tick <= cfg.duration_ticks,
            counts@.len() == cfg.users,
            forall|k: int| 0 <= k < counts@.len() ==> #[trigger] counts@[k] <= tick,
            prev_active == if tick == 0 {
                0int
            } else {
                active_user_target_spec(cfg.users, cfg.ramp_per_tick, (tick - 1) as u64)
            },
            prev_active <= cfg.users,
            agg.wf(),
            agg.model().len() == n,
            sum_count(agg.model(), n) == issued,
            sum_failures(agg.model(), n) == failures,
            sum_success(agg.model(), n) + failures == issued,
            issued <= cfg.users * tick + prev_active * ns,
            failures <= issued,
            tick > 0 ==> issued >= 1,
            aborted ==> issued >= 1,
            aborted <==> (cfg.error_rate_threshold matches Some(t) && threshold_breached_spec(
                failures,
                issued,
                t,
            )),
            !aborted && cfg.iteration_cap is None ==> issued == scheduled_requests(
                cfg.users,
                cfg.ramp_per_tick,
                tick as int,
            ) + prev_active * ns,
            script_all_pass(*scenario, script@, cfg.request_timeout) ==> failures == 0,
            script_none_pass(*scenario, script@, cfg.request_timeout) ==> failures == issued,
        decreases cfg.duration_ticks - tick,
    {
        let active = active_user_target(cfg.users, cfg.ramp_per_tick, tick);
        proof {
            if tick > 0 {
                crate::schedule::lemma_ramp_monotonic(
                    cfg.users,
                    cfg.ramp_per_tick,
                    (tick - 1) as u64,
                    tick,
                );
            }
        }
        let new_users = active - prev_active;
        let ghost tick_base = issued as int;

        // run-once startup transactions of the users that ramp up this tick
        let mut k: u64 = 0;
        while k < new_users && !aborted
            invariant
                0 <= k <= new_users,
                new_users == active - prev_active,
                active == active_user_target_spec(cfg.users, cfg.ramp_per_tick, tick),
                prev_active <= active <= cfg.users,
                tick < cfg.duration_ticks,
                agg.wf(),
                agg.model().len() == n,
                sum_count(agg.model(), n) == issued,
                sum_failures(agg.model(), n) == failures,
                sum_success(agg.model(), n) + failures == issued,
                tick_base <= cfg.users * tick + prev_active * ns,
                issued <= tick_base + k * ns,
                failures <= issued,
                aborted ==> issued >= 1,
                aborted <==> (cfg.error_rate_threshold matches Some(t) && threshold_breached_spec(
                    failures,
                    issued,
                    t,
                )),
                !aborted ==> issued == tick_base + k * ns,
                cfg.iteration_cap is None ==> tick_base == scheduled_requests(
                    cfg.users,
                    cfg.ramp_per_tick,
                    tick as int,
                ) + prev_active * ns,
                script_all_pass(*scenario, script@, cfg.request_timeout) ==> failures == 0,
                script_none_pass(*scenario, script@, cfg.request_timeout) ==> failures == issued,
            decreases new_users - k,
        {
            let ghost user_base = issued as int;
            proof {
                assert(user_base == tick_base + k * ns);
                assert(user_base <= cfg.users * tick + (prev_active + k) * ns) by (nonlinear_arith)
                    requires
                        user_base <= tick_base + k * ns,
                        tick_base <= cfg.users * tick + prev_active * ns,
                        0 <= ns,
                        0 <= k,
                        0 <= prev_active,
                    ;
            }
            let mut j: usize = 0;
            while j < n_tx && !aborted
                invariant
                    0 <= j <= n_tx,
                    agg.wf(),
                    agg.model().len() == n,
                    sum_count(agg.model(), n) == issued,
                    sum_failures(agg.model(), n) == failures,
                    sum_success(agg.model(), n) + failures == issued,
                    user_base <= cfg.users * tick + (prev_active + k) * ns,
                    issued <= user_base + startup_count(scenario.transactions@, j as int),
                    failures <= issued,
                    aborted ==> issued >= 1,
                    aborted <==> (cfg.error_rate_threshold matches Some(t)
                        && threshold_breached_spec(failures, issued, t)),
                    !aborted ==> issued == user_base + startup_count(
                        scenario.transactions@,
                        j as int,
                    ),
                    script_all_pass(*scenario, script@, cfg.request_timeout) ==> failures == 0,
                    script_none_pass(*scenario, script@, cfg.request_timeout) ==> failures
                        == issued,
                decreases n_tx - j,
            {
                if scenario.transactions[j].transaction.once_at_start {
                    proof {
                        lemma_startup_count_bounds(scenario.transactions@, j as int);
                        lemma_startup_count_monotonic(scenario.transactions@, j + 1, n);
                        assert(startup_count(scenario.transactions@, j as int) + 1 <= ns);
                        assert(issued < u64::MAX) by (nonlinear_arith)
                            requires
                                issued <= user_base + startup_count(
                                    scenario.transactions@,
                                    j as int,
                                ),
                                user_base <= cfg.users * tick + (prev_active + k) * ns,
                                startup_count(scenario.transactions@, j as int) + 1 <= ns,
                                prev_active + k + 1 <= cfg.users,
                                tick + 1 <= cfg.duration_ticks,
                                0 <= ns <= scenario.transactions@.len(),
                                0 <= tick,
                                0 <= prev_active,
                                0 <= k,
                                1 <= cfg.users,
                                cfg.users * (cfg.duration_ticks + scenario.transactions@.len())
                                    <= u64::MAX,
                            ;
                        if script_all_pass(*scenario, script@, cfg.request_timeout) {
                            assert(classify_spec(
                                scenario.transactions@[j as int].transaction.validation,
                                script@[(issued as int) % (script@.len() as int)],
                                cfg.request_timeout,
                                false,
                            ) is Success);
                        }
                        if script_none_pass(*scenario, script@, cfg.request_timeout) {
                            assert(is_failure(classify_spec(
                                scenario.transactions@[j as int].transaction.validation,
                                script@[(issued as int) % (script@.len() as int)],
                                cfg.request_timeout,
                                false,
                            )));
                        }
                    }
                    issue_request(
                        &mut agg,
                        &mut issued,
                        &mut failures,
                        &mut aborted,
                        scenario,
                        j,
                        script,
                        cfg.request_timeout,
                        cfg.error_rate_threshold,
                        tick,
                    );
                }
                j = j + 1;
            }
            proof {
                lemma_startup_count_monotonic(scenario.transactions@, j as int, n);
                assert(issued <= user_base + ns);
                if !aborted {
                    assert(issued == user_base + ns);
                    assert(user_base + ns == tick_base + (k + 1) * ns) by (nonlinear_arith)
                        requires
                            user_base == tick_base + k * ns,
                        ;
                }
                assert(issued <= tick_base + (k + 1) * ns) by (nonlinear_arith)
                    requires
                        issued <= user_base + ns,
                        user_base <= tick_base + k * ns,
                    ;
            }
            k = k + 1;
        }

        // the weighted round: every active user selects and runs one
        // transaction
        let ghost round_base = issued as int;
        proof {
            assert(round_base <= cfg.users * tick + active * ns) by (nonlinear_arith)
                requires
                    round_base <= tick_base + k * ns,
                    k <= new_users,
                    tick_base <= cfg.users * tick + prev_active * ns,
                    new_users == active - prev_active,
                    0 <= ns,
                    0 <= k,
                    0 <= prev_active <= active,
                ;
            if !aborted {
                assert(k == new_users);
                if cfg.iteration_cap is None {
                    assert(round_base == scheduled_requests(
                        cfg.users,
                        cfg.ramp_per_tick,
                        tick as int,
                    ) + active * ns) by (nonlinear_arith)
                        requires
                            round_base == tick_base + new_users * ns,
                            tick_base == scheduled_requests(
                                cfg.users,
                                cfg.ramp_per_tick,
                                tick as int,
                            ) + prev_active * ns,
                            new_users == active - prev_active,
                        ;
                }
            }
        }
        let mut u: u64 = 0;
        while u < active && !aborted
            invariant
                0 <= u <= active,
                active == active_user_target_spec(cfg.users, cfg.ramp_per_tick, tick),
                prev_active <= active <= cfg.users,
                tick < cfg.duration_ticks,
                counts@.len() == cfg.users,
                forall|k2: int| 0 <= k2 < u ==> #[trigger] counts@[k2] <= tick + 1,
                forall|k2: int| u <= k2 < counts@.len() ==> #[trigger] counts@[k2] <= tick,
                agg.wf(),
                agg.model().len() == n,
                sum_count(agg.model(), n) == issued,
                sum_failures(agg.model(), n) == failures,
                sum_success(agg.model(), n) + failures == issued,
                round_base <= cfg.users * tick + active * ns,
                issued <= round_base + u,
                failures <= issued,
                tick == 0 && u > 0 ==> issued >= 1,
                tick > 0 ==> issued >= 1,
                aborted ==> issued >= 1,
                aborted <==> (cfg.error_rate_threshold matches Some(t) && threshold_breached_spec(
                    failures,
                    issued,
                    t,
                )),
                !aborted && cfg.iteration_cap is None ==> issued == scheduled_requests(
                    cfg.users,
                    cfg.ramp_per_tick,
                    tick as int,
                ) + active * ns + u,
                script_all_pass(*scenario, script@, cfg.request_timeout) ==> failures == 0,
                script_none_pass(*scenario, script@, cfg.request_timeout) ==> failures == issued,
            decreases active - u,
        {
            let uu = u as usize;
            let run_this = match cfg.iteration_cap {
                Some(c) => counts[uu] < c,
                None => true,
            };
            if run_this {
                proof {
                    assert(issued < u64::MAX) by (nonlinear_arith)
                        requires
                            issued <= round_base + u,
                            round_base <= cfg.users * tick + active * ns,
                            u + 1 <= active,
                            active <= cfg.users,
                            tick + 1 <= cfg.duration_ticks,
                            0 <= ns <= scenario.transactions@.len(),
                            0 <= tick,
                            1 <= cfg.users,
                            cfg.users * (cfg.duration_ticks + scenario.transactions@.len())
                                <= u64::MAX,
                        ;
                }
                let draw = rng.draw();
                let total = table.total();
                let i = table.select(draw % total);
                proof {
                    assert(table.weights@.len() == n);
                    assert((i as int) < n);
                    if script_all_pass(*scenario, script@, cfg.request_timeout) {
                        assert(classify_spec(
                            scenario.transactions@[i as int].transaction.validation,
                            script@[(issued as int) % (script@.len() as int)],
                            cfg.request_timeout,
                            false,
                        ) is Success);
                    }
                    if script_none_pass(*scenario, script@, cfg.request_timeout) {
                        assert(is_failure(classify_spec(
                            scenario.transactions@[i as int].transaction.validation,
                            script@[(issued as int) % (script@.len() as int)],
                            cfg.request_timeout,
                            false,
                        )));
                    }
                }
                issue_request(
                    &mut agg,
                    &mut issued,
                    &mut failures,
                    &mut aborted,
                    scenario,
                    i,
                    script,
                    cfg.request_timeout,
                    cfg.error_rate_threshold,
                    tick,
                );
                let c0 = counts[uu];
                counts.set(uu, c0 + 1);
            }
            u = u + 1;
        }
        proof {
            assert(cfg.ramp_per_tick * (tick + 1) >= 1) by (nonlinear_arith)
                requires
                    cfg.ramp_per_tick >= 1,
                    tick >= 0,
                ;
            assert(active >= 1);
            assert(cfg.users * tick + active * ns + active <= cfg.users * (tick + 1) + active * ns)
                by (nonlinear_arith)
                requires
                    active <= cfg.users,
                    cfg.users >= 0,
                    tick >= 0,
                ;
        }
        prev_active = active;
        tick = tick + 1;
    }
    proof {
        assert(cfg.users * tick + prev_active * ns <= cfg.users * (cfg.duration_ticks
            + scenario.transactions@.len())) by (nonlinear_arith)
            requires
                tick <= cfg.duration_ticks,
                prev_active <= cfg.users,
                0 <= ns <= scenario.transactions@.len(),
                cfg.users >= 0,
                prev_active >= 0,
            ;
    }
    let outcome = if aborted {
        RunOutcome::AbortedOnErrorRate
    } else {
        RunOutcome::Completed
    };
    let exit = exit_status(outcome);
    let report = agg.snapshot(aborted);
    RunResult { report, outcome, exit, requests_issued: issued, failures }
}

} // verus!
