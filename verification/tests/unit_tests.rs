use loadcore::controller::ConfigurationError;
use loadcore::controller::RunConfiguration;
use loadcore::controller::RunOutcome;
use loadcore::controller::check_url;
use loadcore::controller::exit_status;
use loadcore::controller::threshold_breached;
use loadcore::controller::validate_configuration;
use loadcore::metrics::Method;
use loadcore::metrics::MetricsAggregator;
use loadcore::metrics::Outcome;
use loadcore::metrics::RequestMetric;
use loadcore::rng::DrawSource;
use loadcore::runner::ResponseData;
use loadcore::runner::Validation;
use loadcore::runner::classify;
use loadcore::runner::contains_bytes;
use loadcore::runner::has_header;
use loadcore::runner::run_transaction;
use loadcore::scenario::Scenario;
use loadcore::scenario::Transaction;
use loadcore::scenario::WeightedTransaction;
use loadcore::schedule::active_user_target;
use loadcore::schedule::think_time;
use loadcore::selection::SelectionTable;
use loadcore::user::UserAction;
use loadcore::user::VirtualUserContext;

fn metric(tx: usize, elapsed: u64, outcome: Outcome) -> RequestMetric {
    RequestMetric {
        transaction: tx,
        method: Method::Get,
        status: 200,
        elapsed,
        timestamp: 0,
        outcome,
    }
}

fn scenario_with_weights(weights: &[u64]) -> Scenario {
    Scenario {
        name: String::from("journey"),
        transactions: weights
            .iter()
            .map(|w| WeightedTransaction {
                transaction: Transaction {
                    name: String::from("step"),
                    method: Method::Get,
                    path: String::from("p"),
                    validation: Validation {
                        expected_status: None,
                        required_text: None,
                        required_header: None,
                    },
                    once_at_start: false,
                },
                weight: *w,
            })
            .collect(),
    }
}

#[test]
fn selection_covers_each_weight_slice() {
    let table = SelectionTable::build(&vec![1, 2, 3]).unwrap();
    assert_eq!(table.total(), 6);
    assert_eq!(table.select(0), 0);
    assert_eq!(table.select(1), 1);
    assert_eq!(table.select(2), 1);
    assert_eq!(table.select(3), 2);
    assert_eq!(table.select(4), 2);
    assert_eq!(table.select(5), 2);
}

#[test]
fn selection_frequency_matches_weights_exactly() {
    // over all draws in [0, total), each transaction is selected exactly
    // its weight's worth of times
    let weights = vec![5u64, 0, 10, 1];
    let table = SelectionTable::build(&weights).unwrap();
    let mut counts = vec![0u64; weights.len()];
    for d in 0..table.total() {
        counts[table.select(d)] += 1;
    }
    assert_eq!(counts, weights);
}

#[test]
fn zero_weight_transactions_are_never_selected() {
    let table = SelectionTable::build(&vec![0, 7]).unwrap();
    for d in 0..7 {
        assert_eq!(table.select(d), 1);
    }
}

#[test]
fn empty_or_all_zero_weights_build_no_table() {
    assert!(SelectionTable::build(&vec![]).is_none());
    assert!(SelectionTable::build(&vec![0, 0]).is_none());
    assert!(SelectionTable::build(&vec![u64::MAX, 1]).is_none());
}

#[test]
fn sharded_and_serial_aggregation_agree() {
    let stream = vec![
        metric(0, 10, Outcome::Success),
        metric(1, 30, Outcome::ValidationFailure),
        metric(0, 20, Outcome::Success),
        metric(1, 700, Outcome::TransportError),
        metric(0, 5, Outcome::Timeout),
        metric(1, 40, Outcome::Cancelled),
    ];
    let mut serial = MetricsAggregator::new(2);
    for m in &stream {
        serial.record(m);
    }
    let mut shard_a = MetricsAggregator::new(2);
    let mut shard_b = MetricsAggregator::new(2);
    for m in &stream[..3] {
        shard_a.record(m);
    }
    for m in &stream[3..] {
        shard_b.record(m);
    }
    shard_a.merge(&shard_b);
    let a = serial.snapshot(false);
    let b = shard_a.snapshot(false);
    for i in 0..2 {
        assert_eq!(a.stats[i].success, b.stats[i].success);
        assert_eq!(a.stats[i].validation_failure, b.stats[i].validation_failure);
        assert_eq!(a.stats[i].transport_error, b.stats[i].transport_error);
        assert_eq!(a.stats[i].timeout, b.stats[i].timeout);
        assert_eq!(a.stats[i].cancelled, b.stats[i].cancelled);
        assert_eq!(a.stats[i].count, b.stats[i].count);
        assert_eq!(a.stats[i].total_elapsed, b.stats[i].total_elapsed);
        assert_eq!(a.stats[i].min_elapsed, b.stats[i].min_elapsed);
        assert_eq!(a.stats[i].max_elapsed, b.stats[i].max_elapsed);
        assert_eq!(a.stats[i].hist, b.stats[i].hist);
    }
}

#[test]
fn aggregator_tracks_extrema_and_mean() {
    let mut agg = MetricsAggregator::new(1);
    agg.record(&metric(0, 10, Outcome::Success));
    agg.record(&metric(0, 30, Outcome::Success));
    agg.record(&metric(0, 20, Outcome::Success));
    let report = agg.snapshot(false);
    assert_eq!(report.stats[0].min_elapsed, 10);
    assert_eq!(report.stats[0].max_elapsed, 30);
    assert_eq!(report.stats[0].mean_elapsed(), 20);
    assert_eq!(report.stats[0].count, 3);
}

#[test]
fn percentile_bucket_splits_the_histogram() {
    let mut agg = MetricsAggregator::new(1);
    // ten fast requests (bucket 0: < 25 ms), ten slow (bucket 4: 100..125 ms)
    for _ in 0..10 {
        agg.record(&metric(0, 10, Outcome::Success));
    }
    for _ in 0..10 {
        agg.record(&metric(0, 110, Outcome::Success));
    }
    let report = agg.snapshot(false);
    assert_eq!(report.stats[0].percentile_bucket(50), 0);
    assert_eq!(report.stats[0].percentile_bucket(95), 4);
    assert_eq!(report.stats[0].percentile_bucket(100), 4);
}

#[test]
fn failure_count_sums_the_failure_outcomes() {
    let mut agg = MetricsAggregator::new(1);
    agg.record(&metric(0, 1, Outcome::Success));
    agg.record(&metric(0, 1, Outcome::ValidationFailure));
    agg.record(&metric(0, 1, Outcome::TransportError));
    agg.record(&metric(0, 1, Outcome::Timeout));
    agg.record(&metric(0, 1, Outcome::Cancelled));
    let report = agg.snapshot(false);
    assert_eq!(report.stats[0].failure_count(), 3);
}

#[test]
fn failure_rate_is_a_whole_percentage() {
    let mut agg = MetricsAggregator::new(1);
    agg.record(&metric(0, 1, Outcome::Success));
    agg.record(&metric(0, 1, Outcome::ValidationFailure));
    agg.record(&metric(0, 1, Outcome::TransportError));
    let report = agg.snapshot(false);
    // 2 failures of 3 requests: 66 percent, rounded down
    assert_eq!(report.stats[0].failure_rate_percent(), 66);
}

#[test]
fn classification_orders_its_causes() {
    let v = Validation {
        expected_status: Some(200),
        required_text: Some(b"welcome".to_vec()),
        required_header: Some(b"content-type".to_vec()),
    };
    let good = ResponseData {
        transport_ok: true,
        status: 200,
        body: b"hello, welcome back".to_vec(),
        headers: vec![b"content-type".to_vec()],
        elapsed: 5,
    };
    assert_eq!(classify(&v, &good, 100, false), Outcome::Success);
    assert_eq!(classify(&v, &good, 100, true), Outcome::Cancelled);
    let down = ResponseData { transport_ok: false, ..good_clone(&good) };
    assert_eq!(classify(&v, &down, 100, false), Outcome::TransportError);
    let slow = ResponseData { elapsed: 101, ..good_clone(&good) };
    assert_eq!(classify(&v, &slow, 100, false), Outcome::Timeout);
    let wrong_status = ResponseData { status: 404, ..good_clone(&good) };
    assert_eq!(classify(&v, &wrong_status, 100, false), Outcome::ValidationFailure);
    let wrong_body = ResponseData { body: b"goodbye".to_vec(), ..good_clone(&good) };
    assert_eq!(classify(&v, &wrong_body, 100, false), Outcome::ValidationFailure);
    let no_header = ResponseData { headers: vec![], ..good_clone(&good) };
    assert_eq!(classify(&v, &no_header, 100, false), Outcome::ValidationFailure);
}

fn good_clone(r: &ResponseData) -> ResponseData {
    ResponseData {
        transport_ok: r.transport_ok,
        status: r.status,
        body: r.body.clone(),
        headers: r.headers.clone(),
        elapsed: r.elapsed,
    }
}

#[test]
fn run_transaction_emits_exactly_the_classified_metric() {
    let v = Validation { expected_status: Some(200), required_text: None, required_header: None };
    let resp = ResponseData {
        transport_ok: true,
        status: 200,
        body: vec![],
        headers: vec![],
        elapsed: 7,
    };
    let m = run_transaction(3, Method::Post, &v, &resp, 100, false, 9);
    assert_eq!(m.transaction, 3);
    assert_eq!(m.method, Method::Post);
    assert_eq!(m.status, 200);
    assert_eq!(m.elapsed, 7);
    assert_eq!(m.timestamp, 9);
    assert_eq!(m.outcome, Outcome::Success);
}

#[test]
fn substring_search_finds_needles() {
    assert!(contains_bytes(&b"the benwis site".to_vec(), &b"benwis".to_vec()));
    assert!(contains_bytes(&b"abc".to_vec(), &b"".to_vec()));
    assert!(contains_bytes(&b"aaab".to_vec(), &b"aab".to_vec()));
    assert!(!contains_bytes(&b"abc".to_vec(), &b"abd".to_vec()));
    assert!(!contains_bytes(&b"ab".to_vec(), &b"abc".to_vec()));
}

#[test]
fn header_lookup_compares_whole_names() {
    let headers = vec![b"server".to_vec(), b"content-type".to_vec()];
    assert!(has_header(&headers, &b"content-type".to_vec()));
    assert!(!has_header(&headers, &b"content".to_vec()));
    assert!(!has_header(&headers, &b"cookie".to_vec()));
}

#[test]
fn active_users_ramp_and_saturate() {
    assert_eq!(active_user_target(10, 2, 0), 2);
    assert_eq!(active_user_target(10, 2, 3), 8);
    assert_eq!(active_user_target(10, 2, 4), 10);
    assert_eq!(active_user_target(10, 2, 100), 10);
    assert_eq!(active_user_target(3, 10, 0), 3);
}

#[test]
fn think_time_stays_within_bounds() {
    assert_eq!(think_time(5, 5, 12345), 5);
    for draw in 0..20 {
        let d = think_time(10, 13, draw);
        assert!((10..=13).contains(&d));
    }
    assert_eq!(think_time(10, 13, 0), 10);
    assert_eq!(think_time(10, 13, 7), 13);
}

#[test]
fn draws_are_reproducible_from_the_seed() {
    let mut a = DrawSource::new(99);
    let mut b = DrawSource::new(99);
    for _ in 0..10 {
        assert_eq!(a.draw(), b.draw());
    }
    let mut c = DrawSource::new(100);
    assert_ne!(a.draw(), c.draw());
}

#[test]
fn stopped_users_halt_and_stay_halted() {
    let table = SelectionTable::build(&vec![1]).unwrap();
    let mut u = VirtualUserContext::new(7);
    match u.next_action(false, &table, 123) {
        UserAction::Run(i) => assert_eq!(i, 0),
        UserAction::Halt => panic!("user should run while no stop is signalled"),
    }
    // the stop signal is observed at the top of the loop: no new request
    assert_eq!(u.next_action(true, &table, 123), UserAction::Halt);
    // halting is permanent, whatever the signal says afterwards
    assert_eq!(u.next_action(false, &table, 123), UserAction::Halt);
    assert!(u.halted);
}

#[test]
fn completed_transactions_are_counted_per_user() {
    let mut u = VirtualUserContext::new(1);
    u.complete_transaction();
    u.complete_transaction();
    assert_eq!(u.completed_transactions, 2);
}

#[test]
fn each_configuration_error_has_an_input() {
    let good = RunConfiguration {
        base_url: b"https://target.example/".to_vec(),
        users: 2,
        ramp_per_tick: 1,
        duration_ticks: 3,
        iteration_cap: None,
        think_time_min: 0,
        think_time_max: 5,
        request_timeout: 100,
        grace_period: 1,
        error_rate_threshold: Some(25),
        seed: 1,
    };
    let scenario = scenario_with_weights(&[1, 2]);
    assert!(validate_configuration(&good, &scenario).is_ok());

    let mut c = clone_config(&good);
    c.base_url = b"ftp://target.example/".to_vec();
    assert_eq!(validate_configuration(&c, &scenario), Err(ConfigurationError::InvalidBaseUrl));

    let mut c = clone_config(&good);
    c.users = 0;
    assert_eq!(validate_configuration(&c, &scenario), Err(ConfigurationError::NoUsers));

    let mut c = clone_config(&good);
    c.ramp_per_tick = 0;
    assert_eq!(validate_configuration(&c, &scenario), Err(ConfigurationError::NoRampRate));

    let mut c = clone_config(&good);
    c.duration_ticks = 0;
    assert_eq!(validate_configuration(&c, &scenario), Err(ConfigurationError::NoDuration));

    let mut c = clone_config(&good);
    c.think_time_min = 6;
    c.think_time_max = 5;
    assert_eq!(validate_configuration(&c, &scenario), Err(ConfigurationError::BadThinkTime));

    let mut c = clone_config(&good);
    c.error_rate_threshold = Some(101);
    assert_eq!(validate_configuration(&c, &scenario), Err(ConfigurationError::BadThreshold));

    let mut c = clone_config(&good);
    c.iteration_cap = Some(0);
    assert_eq!(validate_configuration(&c, &scenario), Err(ConfigurationError::BadIterationCap));

    let empty = scenario_with_weights(&[0]);
    assert_eq!(validate_configuration(&good, &empty), Err(ConfigurationError::EmptyScenario));
}

fn clone_config(c: &RunConfiguration) -> RunConfiguration {
    RunConfiguration {
        base_url: c.base_url.clone(),
        users: c.users,
        ramp_per_tick: c.ramp_per_tick,
        duration_ticks: c.duration_ticks,
        iteration_cap: c.iteration_cap,
        think_time_min: c.think_time_min,
        think_time_max: c.think_time_max,
        request_timeout: c.request_timeout,
        grace_period: c.grace_period,
        error_rate_threshold: c.error_rate_threshold,
        seed: c.seed,
    }
}

#[test]
fn url_check_requires_a_scheme() {
    assert!(check_url(&b"http://a".to_vec()));
    assert!(check_url(&b"https://a".to_vec()));
    assert!(!check_url(&b"http:/a".to_vec()));
    assert!(!check_url(&b"".to_vec()));
    assert!(!check_url(&b"target.example".to_vec()));
}

#[test]
fn threshold_is_a_strict_percentage() {
    assert!(!threshold_breached(0, 0, 50));
    assert!(!threshold_breached(1, 2, 50));
    assert!(threshold_breached(2, 3, 50));
    assert!(threshold_breached(1, 1, 99));
    assert!(!threshold_breached(1, 1, 100));
    assert!(threshold_breached(1, 100, 0));
}

#[test]
fn grace_deadline_cancels_only_late_work() {
    assert!(!loadcore::controller::past_grace_deadline(10, 8, 2));
    assert!(loadcore::controller::past_grace_deadline(11, 8, 2));
    // no overflow near the top of the range
    assert!(!loadcore::controller::past_grace_deadline(u64::MAX, u64::MAX, u64::MAX));
}

#[test]
fn exit_status_reflects_the_outcome() {
    assert_eq!(exit_status(RunOutcome::Completed), 0);
    assert_eq!(exit_status(RunOutcome::AbortedOnErrorRate), 1);
    assert_eq!(exit_status(RunOutcome::InvalidConfiguration), 2);
}
