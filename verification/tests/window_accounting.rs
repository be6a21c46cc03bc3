use crab_net::sender::{remaining_sleep_ms, window_batch, WindowAccounting};

#[test]
fn window_accounts_every_attempt() {
    let mut acc = WindowAccounting::begin();
    acc.record_attempt(3, true);
    acc.record_attempt(9, false);
    acc.record_attempt(5, true);
    assert_eq!(acc.attempts, 3);
    assert_eq!(acc.errors, 1);
    let (bytes, packets) = acc.finish();
    // A failed write is counted as an error, never as bytes sent.
    assert_eq!(bytes, 8);
    assert_eq!(packets, 2);
}

#[test]
fn window_batch_mixed_outcomes() {
    let lens = vec![3usize, 4, 5];
    let oks = vec![true, false, true];
    assert_eq!(window_batch(&lens, &oks), (8, 2));
}

#[test]
fn failing_transport_reports_zero_every_window() {
    // A transport that fails every write: every window's batch is
    // (0 bytes, 0 packets), window after window, and nothing crashes.
    let lens = vec![4usize, 4, 4];
    let oks = vec![false, false, false];
    for _ in 0..5 {
        assert_eq!(window_batch(&lens, &oks), (0, 0));
    }
}

#[test]
fn empty_window_is_empty_batch() {
    let lens: Vec<usize> = Vec::new();
    let oks: Vec<bool> = Vec::new();
    assert_eq!(window_batch(&lens, &oks), (0, 0));
}

#[test]
fn sleep_pads_window_to_full_second() {
    assert_eq!(remaining_sleep_ms(1000, 300), 700);
    assert_eq!(remaining_sleep_ms(1000, 0), 1000);
    assert_eq!(remaining_sleep_ms(1000, 1000), 0);
    // An overrun window sleeps not at all: no catch-up burst.
    assert_eq!(remaining_sleep_ms(1000, 1500), 0);
}
