use uart_16550::async_::driver::{
    napi_batch_len, napi_next_streak, RxCopier, TxCopier, COPIER_BUF_SIZE, NAPI_BATCH_SIZE, NAPI_THRESHOLD, TX_FAST_RETRY_LIMIT, TX_TEMT_POLL_LIMIT,
};
use uart_16550::async_::ring_buffer::copy_prefix;

#[test]
fn copy_prefix_copies_the_common_length() {
    let mut dst = [9u8; 4];
    assert_eq!(copy_prefix(&mut dst, &[1, 2]), 2);
    assert_eq!(dst, [1, 2, 9, 9]);
    let mut small = [0u8; 2];
    assert_eq!(copy_prefix(&mut small, &[5, 6, 7]), 2);
    assert_eq!(small, [5, 6]);
    let mut none: [u8; 0] = [];
    assert_eq!(copy_prefix(&mut none, &[1]), 0);
    let mut untouched = [4u8; 3];
    assert_eq!(copy_prefix(&mut untouched, &[]), 0);
    assert_eq!(untouched, [4, 4, 4]);
}

#[test]
fn fresh_rx_copier_has_no_streak() {
    let c = RxCopier::new();
    assert_eq!(c.consecutive(), 0);
}

#[test]
fn fresh_tx_copier_can_be_made() {
    let _c = TxCopier::new();
}

#[test]
fn copier_tuning_constants() {
    assert_eq!(NAPI_THRESHOLD, 16);
    assert_eq!(NAPI_BATCH_SIZE, 64);
    assert_eq!(COPIER_BUF_SIZE, 1024);
    assert_eq!(TX_FAST_RETRY_LIMIT, 32);
    assert_eq!(TX_TEMT_POLL_LIMIT, 256);
}

#[test]
fn napi_batch_is_small_only_in_polling_mode() {
    assert_eq!(napi_batch_len(0), COPIER_BUF_SIZE);
    assert_eq!(napi_batch_len(NAPI_THRESHOLD - 1), COPIER_BUF_SIZE);
    assert_eq!(napi_batch_len(NAPI_THRESHOLD), NAPI_BATCH_SIZE);
    assert_eq!(napi_batch_len(1000), NAPI_BATCH_SIZE);
}

#[test]
fn napi_streak_grows_on_data_and_resets_on_empty_reads() {
    assert_eq!(napi_next_streak(0, 5), 1);
    assert_eq!(napi_next_streak(15, 1), 16);
    assert_eq!(napi_next_streak(40, 64), 41);
    assert_eq!(napi_next_streak(40, 0), 0);
    assert_eq!(napi_next_streak(3, 0), 0);
    assert_eq!(napi_next_streak(u32::MAX, 1), u32::MAX);
    assert_eq!(napi_next_streak(u32::MAX, 0), 0);
}
