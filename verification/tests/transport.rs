use goldleaf_fs::transport::{
    is_nintendo_switch, Next, RetryBudget, Transfer, INTERFACE, PRODUCT_ID, READ_ENDPOINT,
    TIMEOUT_SECONDS, VENDOR_ID, WRITE_ENDPOINT,
};

#[test]
fn the_console_is_known_by_vendor_and_product() {
    assert!(is_nintendo_switch(0x057E, 0x3000));
    assert!(!is_nintendo_switch(0x057E, 0x3001));
    assert!(!is_nintendo_switch(0x057F, 0x3000));
    assert!(!is_nintendo_switch(0x3000, 0x057E));
    assert!(!is_nintendo_switch(0, 0));
    assert_eq!((VENDOR_ID, PRODUCT_ID), (0x057E, 0x3000));
}

#[test]
fn endpoints_are_those_of_the_console() {
    assert_eq!(READ_ENDPOINT, 0x81);
    assert_eq!(WRITE_ENDPOINT, 0x01);
    assert_eq!(INTERFACE, 0);
    assert_eq!(TIMEOUT_SECONDS, 30);
}

#[test]
fn a_timeout_is_no_failure() {
    let mut budget = RetryBudget::new(0);
    for _ in 0..10 {
        assert_eq!(budget.record(Transfer::TimedOut), Next::Continue);
    }
    assert_eq!(budget, RetryBudget { limit: 0, failures: 0 });
}

#[test]
fn failures_in_a_row_beyond_the_limit_reconnect() {
    let mut budget = RetryBudget::new(2);
    assert_eq!(budget.record(Transfer::Failed), Next::Continue);
    assert_eq!(budget.failures, 1);
    assert_eq!(budget.record(Transfer::Failed), Next::Continue);
    assert_eq!(budget.failures, 2);
    assert_eq!(budget.record(Transfer::Failed), Next::Reconnect);
    assert_eq!(budget, RetryBudget { limit: 2, failures: 0 });
    assert_eq!(budget.record(Transfer::Failed), Next::Continue);
}

#[test]
fn a_transfer_that_moves_bytes_clears_the_count() {
    let mut budget = RetryBudget::new(2);
    assert_eq!(budget.record(Transfer::Failed), Next::Continue);
    assert_eq!(budget.record(Transfer::Failed), Next::Continue);
    assert_eq!(budget.record(Transfer::Done), Next::Continue);
    assert_eq!(budget.failures, 0);
    assert_eq!(budget.record(Transfer::Failed), Next::Continue);
    assert_eq!(budget.record(Transfer::TimedOut), Next::Continue);
    assert_eq!(budget.record(Transfer::Failed), Next::Continue);
    assert_eq!(budget.record(Transfer::Failed), Next::Reconnect);
}

#[test]
fn a_budget_of_nothing_reconnects_at_once() {
    let mut budget = RetryBudget::new(0);
    assert_eq!(budget.record(Transfer::Failed), Next::Reconnect);
    let mut budget = RetryBudget { limit: u32::MAX, failures: u32::MAX };
    assert_eq!(budget.record(Transfer::Failed), Next::Reconnect);
}
