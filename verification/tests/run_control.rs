use crab_net::manager::{
    connection_ports, next_port, simulate_run, theoretical_load, validate, ConfigError, Parameters,
};
use crab_net::payload::{PayloadConfig, PayloadEntry};
use crab_net::stats::StatsTracker;

fn pool(entries: &[(usize, &str)]) -> PayloadConfig {
    let mut v: Vec<PayloadEntry> = Vec::new();
    for (index, data) in entries {
        v.push(PayloadEntry { index: *index, data: (*data).to_string() });
    }
    PayloadConfig::new(v)
}

fn params() -> Parameters {
    Parameters::new(
        1,
        1,
        None,
        "test".to_string(),
        None,
        8000,
        50,
        false,
        false,
        None,
        None,
        false,
        false,
    )
}

#[test]
fn totals_reflect_every_batch() {
    let mut tracker = StatsTracker::new(None);
    let batches = vec![(100usize, 1usize), (200, 2), (300, 3)];
    let consumed = tracker.apply_batches(&batches);
    assert_eq!(consumed, 3);
    assert_eq!(tracker.get_total_packets(), 6);
    assert!(!tracker.shutdown_fired);

    // The same batches in another arrival order give the same total.
    let mut tracker2 = StatsTracker::new(None);
    let permuted = vec![(300usize, 3usize), (100, 1), (200, 2)];
    tracker2.apply_batches(&permuted);
    assert_eq!(tracker2.get_total_packets(), 6);
}

#[test]
fn budget_fires_shutdown_exactly_once() {
    let mut tracker = StatsTracker::new(Some(15));
    assert!(!tracker.on_batch(10, 10));
    // The batch that lifts the total to the budget fires the signal...
    assert!(tracker.on_batch(10, 10));
    assert!(tracker.shutdown_fired);
    assert_eq!(tracker.get_total_packets(), 20);
    // ...and no later batch fires it again.
    assert!(!tracker.on_batch(10, 10));
    assert!(tracker.shutdown_fired);
}

#[test]
fn consumption_stops_at_budget() {
    let mut tracker = StatsTracker::new(Some(15));
    let batches = vec![(10usize, 10usize), (10, 10), (10, 10)];
    let consumed = tracker.apply_batches(&batches);
    assert_eq!(consumed, 2);
    assert_eq!(tracker.get_total_packets(), 20);
    assert!(tracker.shutdown_fired);
}

#[test]
fn tick_reports_interval_and_resets() {
    let mut tracker = StatsTracker::new(None);
    tracker.on_batch(1000, 4);
    let report = tracker.on_tick();
    assert_eq!(report.packets, 4);
    // 1000 bytes over a 10-second interval: 1000 * 8 / 10 bits per second.
    assert_eq!(report.bits_per_sec, 800);
    assert_eq!(report.total_packets, 4);
    // The interval accumulators reset; the running total stays.
    let quiet = tracker.on_tick();
    assert_eq!(quiet.packets, 0);
    assert_eq!(quiet.bits_per_sec, 0);
    assert_eq!(quiet.total_packets, 4);
}

#[test]
fn encrypted_datagram_requires_trust_anchor() {
    let mut p = params();
    p.use_udp = true;
    p.use_tls = true;
    assert_eq!(validate(&p), Err(ConfigError::MissingTrustAnchor));
    p.ca_file = Some("ca.pem".to_string());
    assert_eq!(validate(&p), Ok(()));
    // Encrypted stream transport verifies by other means: no anchor needed.
    p.ca_file = None;
    p.use_udp = false;
    assert_eq!(validate(&p), Ok(()));
}

#[test]
fn empty_pool_is_a_configuration_error() {
    let mut p = params();
    p.payload_config = Some(pool(&[]));
    assert_eq!(validate(&p), Err(ConfigError::EmptyPayloadPool));
}

#[test]
fn unknown_fixed_index_is_a_configuration_error() {
    let mut p = params();
    p.payload_config = Some(pool(&[(0, "a"), (1, "b")]));
    p.payload_index = Some(3);
    assert_eq!(validate(&p), Err(ConfigError::UnknownPayloadIndex));
    // Under random or sequential mode the fixed index is never used.
    p.random_payload = true;
    assert_eq!(validate(&p), Ok(()));
    p.random_payload = false;
    p.sequential_payload = true;
    assert_eq!(validate(&p), Ok(()));
    p.sequential_payload = false;
    p.payload_index = Some(1);
    assert_eq!(validate(&p), Ok(()));
}

#[test]
fn ports_step_by_connection_index() {
    // The counter gains each connection's own index before use.
    assert_eq!(connection_ports(8000, 3), vec![8000, 8001, 8003]);
    assert_eq!(connection_ports(8000, 0), Vec::<usize>::new());
    assert_eq!(next_port(8000, 2), 8002);
}

#[test]
fn theoretical_load_of_a_configuration() {
    // 3 connections at 10 packets of 2 bytes: 30 pkt/s and 480 bit/s.
    assert_eq!(theoretical_load(3, 10, 2), (30, 480));
}

#[test]
fn budget_run_three_connections() {
    // connections=3, rate=10, maxPackets=15, 1-byte payload, no failures:
    // the run stops once the total reaches 15, and cannot overshoot by a
    // full window across all connections.
    let total = simulate_run(3, 10, 1, 15);
    assert!(total >= 15);
    assert!(total < 15 + 3 * 10);
    // Deterministically, the second sender's first batch crosses the budget.
    assert_eq!(total, 20);
}

#[test]
fn budget_run_single_packet() {
    assert_eq!(simulate_run(1, 1, 1, 1), 1);
}
