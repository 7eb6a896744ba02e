use uart_16550::async_::driver::TxCompletion;
use uart_16550::async_::telemetry::Telemetry;

#[test]
fn telemetry_new_is_zero() {
    let t = Telemetry::new();
    assert_eq!((t.rx_poll, t.rx_no_progress, t.rx_hw_bytes), (0, 0, 0));
    assert_eq!(t.tx_poll, 0);
    assert_eq!(t.tx_no_progress, 0);
    assert_eq!(t.tx_hw_bytes, 0);
}

#[test]
fn telemetry_reset_zeroes_all_counters() {
    let mut t = Telemetry { tx_poll: 3, tx_no_progress: 7, tx_hw_bytes: u64::MAX, rx_poll: 1, rx_no_progress: 2, rx_hw_bytes: 9 };
    t.reset();
    assert_eq!((t.tx_poll, t.tx_no_progress, t.tx_hw_bytes), (0, 0, 0));
    assert_eq!((t.rx_poll, t.rx_no_progress, t.rx_hw_bytes), (0, 0, 0));
}

#[test]
fn telemetry_default_is_new() {
    let t = Telemetry::default();
    assert_eq!((t.tx_poll, t.tx_no_progress, t.tx_hw_bytes), (0, 0, 0));
}

#[test]
fn telemetry_debug_lists_the_counters() {
    let t = Telemetry { tx_poll: 1, tx_no_progress: 2, tx_hw_bytes: 3, rx_poll: 4, rx_no_progress: 5, rx_hw_bytes: 6 };
    assert_eq!(
        format!("{:?}", t),
        "Telemetry { tx_poll: 1, tx_no_progress: 2, tx_hw_bytes: 3, rx_poll: 4, rx_no_progress: 5, rx_hw_bytes: 6 }"
    );
}

fn completion(ring_empty: bool, copier_active: bool, staged_bytes: usize, transmitter_empty: bool) -> TxCompletion {
    TxCompletion { ring_empty, copier_active, staged_bytes, transmitter_empty }
}

#[test]
fn drained_only_when_all_four_conditions_hold() {
    assert!(completion(true, false, 0, true).is_drained());
    assert!(!completion(false, false, 0, true).is_drained());
    assert!(!completion(true, true, 0, true).is_drained());
    assert!(!completion(true, false, 1, true).is_drained());
    assert!(!completion(true, false, 0, false).is_drained());
}
