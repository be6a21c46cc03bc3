use crab_net::payload::{PayloadConfig, PayloadEntry};
use crab_net::sender::select_window_payloads;

fn pool(entries: &[(usize, &str)]) -> PayloadConfig {
    let mut v: Vec<PayloadEntry> = Vec::new();
    for (index, data) in entries {
        v.push(PayloadEntry { index: *index, data: (*data).to_string() });
    }
    PayloadConfig::new(v)
}

#[test]
fn sequential_selection_cycles_through_pool() {
    let mut config = pool(&[(0, "a"), (1, "b"), (2, "c")]);
    let mut seen: Vec<String> = Vec::new();
    for _ in 0..3 {
        let p = config.get_payload(None, false, true).unwrap();
        seen.push(p);
        config.next_sequential_index();
    }
    // One full round returns each entry exactly once, in pool order.
    assert_eq!(seen, vec!["a".to_string(), "b".to_string(), "c".to_string()]);
    // The next call after a full round repeats the very first selection.
    let wrapped = config.get_payload(None, false, true).unwrap();
    assert_eq!(wrapped, "a");
}

#[test]
fn sequential_windows_wrap_cursor() {
    // Pool [a, b], sequential mode, rate 2: the first window sends a then b,
    // and the second window sends a then b again.
    let mut config = pool(&[(0, "a"), (1, "b")]);
    let first = select_window_payloads(&mut config, 2, None, false, true);
    assert_eq!(first, vec!["a".to_string(), "b".to_string()]);
    let second = select_window_payloads(&mut config, 2, None, false, true);
    assert_eq!(second, vec!["a".to_string(), "b".to_string()]);
}

#[test]
fn random_selection_visits_every_entry() {
    let config = pool(&[(0, "a"), (1, "b"), (2, "c")]);
    let mut counts = [0usize; 3];
    for _ in 0..300 {
        let p = config.get_payload(None, true, false).unwrap();
        match p.as_str() {
            "a" => counts[0] += 1,
            "b" => counts[1] += 1,
            "c" => counts[2] += 1,
            other => panic!("selection returned a value outside the pool: {other}"),
        }
    }
    // Statistically, 300 uniform draws over 3 entries miss one with
    // probability well under one in a million.
    assert!(counts.iter().all(|c| *c > 0), "some entry was never drawn: {counts:?}");
}

#[test]
fn fixed_index_selects_matching_entry() {
    let config = pool(&[(5, "x"), (7, "y")]);
    assert_eq!(config.get_payload(Some(7), false, false), Some("y".to_string()));
    assert_eq!(config.get_payload(Some(5), false, false), Some("x".to_string()));
    assert_eq!(config.get_payload(Some(9), false, false), None);
    // With no index configured, the first entry stands in.
    assert_eq!(config.get_payload(None, false, false), Some("x".to_string()));
}

#[test]
fn fixed_index_prefers_first_match() {
    let config = pool(&[(1, "p"), (1, "q")]);
    assert_eq!(config.get_payload(Some(1), false, false), Some("p".to_string()));
}

#[test]
fn random_takes_precedence_over_other_modes() {
    let config = pool(&[(0, "only")]);
    // All flags at once: the draw is random, but over a one-entry pool it is
    // pinned down.
    assert_eq!(config.get_payload(Some(0), true, true), Some("only".to_string()));
}

#[test]
fn cloned_cursor_is_independent() {
    let mut shared = pool(&[(0, "a"), (1, "b")]);
    shared.next_sequential_index();
    let clone = shared.clone();
    // The clone starts where its source stood...
    assert_eq!(clone.get_payload(None, false, true), Some("b".to_string()));
    // ...and advancing one cursor does not move the other.
    shared.next_sequential_index();
    assert_eq!(shared.get_payload(None, false, true), Some("a".to_string()));
    assert_eq!(clone.get_payload(None, false, true), Some("b".to_string()));
}

#[test]
fn has_payload_index_reports_presence() {
    let config = pool(&[(2, "a"), (4, "b")]);
    assert!(config.has_payload_index(2));
    assert!(config.has_payload_index(4));
    assert!(!config.has_payload_index(3));
    assert_eq!(config.pool_len(), 2);
}
