use hashbench::sending::{tick_period_ms, PayloadCursor, BURST_SIZE};
use hashbench::setup::{bandwidth_mb, core_for, local_bind_address, per_thread};

#[test]
fn tick_periods() {
    assert_eq!(tick_period_ms(1), 1000);
    assert_eq!(tick_period_ms(3), 333);
    assert_eq!(tick_period_ms(999), 1);
    assert_eq!(tick_period_ms(1000), 1);
}

#[test]
fn payloads_go_out_in_turn() {
    let mut cursor = PayloadCursor::new();
    let mut sent = Vec::new();
    for _ in 0..9 {
        let i = cursor.pick(4);
        sent.push(i);
        cursor.advance();
    }
    assert_eq!(sent, vec![0, 1, 2, 3, 0, 1, 2, 3, 0]);
}

#[test]
fn failed_send_repeats_payload() {
    let mut cursor = PayloadCursor::new();
    assert_eq!(cursor.pick(3), 0);
    cursor.advance();
    assert_eq!(cursor.pick(3), 1);
    // the send failed: no advance
    assert_eq!(cursor.pick(3), 1);
    cursor.advance();
    assert_eq!(cursor.pick(3), 2);
    cursor.advance();
    assert_eq!(cursor.pick(3), 0);
}

#[test]
fn single_payload_always_picked() {
    let mut cursor = PayloadCursor::new();
    for _ in 0..5 {
        assert_eq!(cursor.pick(1), 0);
        cursor.advance();
    }
}

#[test]
fn burst_size() {
    assert_eq!(BURST_SIZE, 10);
}

#[test]
fn setup_arithmetic() {
    assert_eq!(per_thread(10, 3), 3);
    assert_eq!(per_thread(2, 4), 0);
    assert_eq!(core_for(5, 4), 1);
    assert_eq!(core_for(3, 8), 3);
    assert_eq!(local_bind_address(true), "0.0.0.0:0");
    assert_eq!(local_bind_address(false), "[::]:0");
    assert_eq!(bandwidth_mb(0, 0), 0);
    assert_eq!(bandwidth_mb(10486, 0), 1);
    assert_eq!(bandwidth_mb(10485, 0), 0);
    assert_eq!(bandwidth_mb(10000, 10000), (10000 * 100 + 10000 * 64) / (1024 * 1024));
}
