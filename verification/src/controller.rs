//! Attack controller concerns: run configuration and its validation, the
//! error-rate abort rule, and the process exit status of a run.

use vstd::prelude::*;
use crate::scenario::Scenario;
use crate::runner::substring_at;

verus! {

/// Everything a run is configured with; immutable once the run starts.
pub struct RunConfiguration {
    /// Target base URL, as UTF-8 bytes; must carry an `http://` or
    /// `https://` scheme.
    pub base_url: Vec<u8>,
    /// Total number of virtual users.
    pub users: u64,
    /// Users started per scheduler tick while ramping up.
    pub ramp_per_tick: u64,
    /// Run length, in scheduler ticks.
    pub duration_ticks: u64,
    /// Transactions each user may run at most; `None`: no cap.
    pub iteration_cap: Option<u64>,
    /// Bounds of the random pause between a user's transactions.
    pub think_time_min: u64,
    pub think_time_max: u64,
    /// Per-request timeout, in the latency unit of the metrics.
    pub request_timeout: u64,
    /// How long after the stop signal in-flight work may still finish before
    /// it is cancelled.
    pub grace_period: u64,
    /// Abort the whole run early once the failure rate exceeds this many
    /// percent; `None`: never abort.
    pub error_rate_threshold: Option<u8>,
    /// Seed of the deterministic draw source.
    pub seed: u64,
}

/// `http://` as bytes.
pub open spec fn http_prefix() -> Seq<u8> {
    seq![104u8, 116u8, 116u8, 112u8, 58u8, 47u8, 47u8]
}

/// `https://` as bytes.
pub open spec fn https_prefix() -> Seq<u8> {
    seq![104u8, 116u8, 116u8, 112u8, 115u8, 58u8, 47u8, 47u8]
}

/// The base URL carries one of the two supported schemes.
pub open spec fn url_ok(u: Seq<u8>) -> bool {
    substring_at(u, http_prefix(), 0) || substring_at(u, https_prefix(), 0)
}

/// Reasons a configuration is rejected before any user starts.
#[derive(Clone, Copy, Debug, PartialEq, Eq, Structural)]
pub enum ConfigurationError {
    /// The base URL lacks an `http://` or `https://` scheme.
    InvalidBaseUrl,
    /// The configured user count is zero.
    NoUsers,
    /// The ramp-up rate is zero: no user would ever start.
    NoRampRate,
    /// The run duration is zero ticks.
    NoDuration,
    /// The think-time bounds are inverted or span the whole `u64` range.
    BadThinkTime,
    /// The error-rate threshold is over 100 percent.
    BadThreshold,
    /// The iteration cap is zero: no user could run anything.
    BadIterationCap,
    /// The scenario has no selectable transaction or an oversized total
    /// weight.
    EmptyScenario,
}

/// The configuration rules that do not concern the scenario, the threshold
/// or the iteration cap.
pub open spec fn basics_ok(cfg: RunConfiguration) -> bool {
    &&& url_ok(cfg.base_url@)
    &&& cfg.users > 0
    &&& cfg.ramp_per_tick > 0
    &&& cfg.duration_ticks > 0
    &&& cfg.think_time_min <= cfg.think_time_max
    &&& cfg.think_time_max - cfg.think_time_min < u64::MAX
}

/// A configuration the controller accepts.
pub open spec fn config_ok(cfg: RunConfiguration, scenario: Scenario) -> bool {
    &&& url_ok(cfg.base_url@)
    &&& cfg.users > 0
    &&& cfg.ramp_per_tick > 0
    &&& cfg.duration_ticks > 0
    &&& cfg.think_time_min <= cfg.think_time_max
    &&& cfg.think_time_max - cfg.think_time_min < u64::MAX
    &&& (cfg.error_rate_threshold matches Some(t) ==> t <= 100)
    &&& (cfg.iteration_cap matches Some(c) ==> c > 0)
    &&& scenario.valid()
}

fn http_prefix_vec() -> (v: Vec<u8>)
    ensures
        v@ == http_prefix(),
{
    let mut v: Vec<u8> = Vec::new();
    v.push(104);
    v.push(116);
    v.push(116);
    v.push(112);
    v.push(58);
    v.push(47);
    v.push(47);
    proof {
        assert(v@ =~= http_prefix());
    }
    v
}

fn https_prefix_vec() -> (v: Vec<u8>)
    ensures
        v@ == https_prefix(),
{
    let mut v: Vec<u8> = Vec::new();
    v.push(104);
    v.push(116);
    v.push(116);
    v.push(112);
    v.push(115);
    v.push(58);
    v.push(47);
    v.push(47);
    proof {
        assert(v@ =~= https_prefix());
    }
    v
}

/// Checks the base URL's scheme.
pub fn check_url(u: &Vec<u8>) -> (r: bool)
    ensures
        r == url_ok(u@),
{
    let http = http_prefix_vec();
    let https = https_prefix_vec();
    let a = contains_prefix(u, &http);
    let b = contains_prefix(u, &https);
    a || b
}

/// Whether `p` is a prefix of `u`.
fn contains_prefix(u: &Vec<u8>, p: &Vec<u8>) -> (r: bool)
    ensures
        r == substring_at(u@, p@, 0),
{
    if p.len() > u.len() {
        return false;
    }
    let mut j: usize = 0;
    while j < p.len()
        invariant
            p@.len() <= u@.len(),
            0 <= j <= p@.len(),
            forall|k: int| 0 <= k < j ==> u@[k] == p@[k],
        decreases p@.len() - j,
    {
        if u[j] != p[j] {
            proof {
                assert(u@.subrange(0, p@.len() as int)[j as int] == u@[j as int]);
            }
            return false;
        }
        j = j + 1;
    }
    proof {
        assert(u@.subrange(0, p@.len() as int) =~= p@);
    }
    true
}

/// Validates a run configuration against its scenario, before any user
/// starts. Exactly the configurations `config_ok` admits pass; each rejection
/// names the first failing rule, in the order of the checks below.
pub fn validate_configuration(cfg: &RunConfiguration, scenario: &Scenario) -> (r: Result<
    (),
    ConfigurationError,
>)
    ensures
        r is Ok <==> config_ok(*cfg, *scenario),
        !url_ok(cfg.base_url@) ==> r == Result::<(), ConfigurationError>::Err(
            ConfigurationError::InvalidBaseUrl,
        ),
        url_ok(cfg.base_url@) && cfg.users == 0 ==> r == Result::<(), ConfigurationError>::Err(
            ConfigurationError::NoUsers,
        ),
        url_ok(cfg.base_url@) && cfg.users > 0 && cfg.ramp_per_tick == 0 ==> r == Result::<
            (),
            ConfigurationError,
        >::Err(ConfigurationError::NoRampRate),
        url_ok(cfg.base_url@) && cfg.users > 0 && cfg.ramp_per_tick > 0 && cfg.duration_ticks == 0
            ==> r == Result::<(), ConfigurationError>::Err(ConfigurationError::NoDuration),
        url_ok(cfg.base_url@) && cfg.users > 0 && cfg.ramp_per_tick > 0 && cfg.duration_ticks > 0
            && !(cfg.think_time_min <= cfg.think_time_max && cfg.think_time_max
            - cfg.think_time_min < u64::MAX) ==> r == Result::<(), ConfigurationError>::Err(
            ConfigurationError::BadThinkTime,
        ),
        basics_ok(*cfg) && (cfg.error_rate_threshold matches Some(t) && t > 100) ==> r
            == Result::<(), ConfigurationError>::Err(ConfigurationError::BadThreshold),
        basics_ok(*cfg) && (cfg.error_rate_threshold matches Some(t) ==> t <= 100) && (
        cfg.iteration_cap matches Some(c) && c == 0) ==> r == Result::<(
        ), ConfigurationError>::Err(ConfigurationError::BadIterationCap),
        basics_ok(*cfg) && (cfg.error_rate_threshold matches Some(t) ==> t <= 100) && (
        cfg.iteration_cap matches Some(c) ==> c > 0) && !scenario.valid() ==> r == Result::<(
        ), ConfigurationError>::Err(ConfigurationError::EmptyScenario),
{
    if !check_url(&cfg.base_url) {
        return Err(ConfigurationError::InvalidBaseUrl);
    }
    if cfg.users == 0 {
        return Err(ConfigurationError::NoUsers);
    }
    if cfg.ramp_per_tick == 0 {
        return Err(ConfigurationError::NoRampRate);
    }
    if cfg.duration_ticks == 0 {
        return Err(ConfigurationError::NoDuration);
    }
    if !(cfg.think_time_min <= cfg.think_time_max && cfg.think_time_max - cfg.think_time_min
        < u64::MAX) {
        return Err(ConfigurationError::BadThinkTime);
    }
    match cfg.error_rate_threshold {
        Some(t) => {
            if t > 100 {
                return Err(ConfigurationError::BadThreshold);
            }
        },
        None => {},
    }
    match cfg.iteration_cap {
        Some(c) => {
            if c == 0 {
                return Err(ConfigurationError::BadIterationCap);
            }
        },
        None => {},
    }
    match scenario.build_table() {
        Some(_) => Ok(()),
        None => Err(ConfigurationError::EmptyScenario),
    }
}

/// The error-rate abort rule: breached once the failures strictly exceed
/// `threshold_pct` percent of all issued requests (an instantaneous rate over
/// the whole run so far, not a window).
pub open spec fn threshold_breached_spec(failures: u64, total: u64, threshold_pct: u8) -> bool {
    total > 0 && failures * 100 > threshold_pct * total
}

pub fn threshold_breached(failures: u64, total: u64, threshold_pct: u8) -> (r: bool)
    ensures
        r == threshold_breached_spec(failures, total, threshold_pct),
{
    proof {
        assert((threshold_pct as int) * (total as int) <= 255 * (u64::MAX as int))
            by (nonlinear_arith)
            requires
                threshold_pct <= 255,
                total <= u64::MAX,
            ;
    }
    total > 0 && (failures as u128) * 100 > (threshold_pct as u128) * (total as u128)
}

/// How a run ended.
#[derive(Clone, Copy, Debug, PartialEq, Eq, Structural)]
pub enum RunOutcome {
    /// The run reached its configured end; failures may still be recorded.
    Completed,
    /// The error-rate threshold was breached and the run stopped early.
    AbortedOnErrorRate,
    /// The configuration was rejected before any user started.
    InvalidConfiguration,
}

/// Process exit status for a finished run: zero exactly on normal
/// completion.
pub fn exit_status(o: RunOutcome) -> (c: u8)
    ensures
        c == 0 <==> o is Completed,
        o is AbortedOnErrorRate ==> c == 1,
        o is InvalidConfiguration ==> c == 2,
{
    match o {
        RunOutcome::Completed => 0,
        RunOutcome::AbortedOnErrorRate => 1,
        RunOutcome::InvalidConfiguration => 2,
    }
}

/// Whether an in-flight request is past the hard-stop deadline and must be
/// cancelled rather than awaited.
pub fn past_grace_deadline(now: u64, stop_at: u64, grace_period: u64) -> (r: bool)
    ensures
        r <==> now > stop_at + grace_period,
{
    (now as u128) > (stop_at as u128) + (grace_period as u128)
}

} // verus!
