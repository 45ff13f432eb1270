use i2c_wasm_components::bus::BusOp;
use i2c_wasm_components::counter::{counter_frame, next_counter, DIGIT_PAUSE_NS};

#[test]
fn counter_increments_last_digit() {
    assert_eq!(next_counter([0, 0, 0, 0]), [0, 0, 0, 1]);
    assert_eq!(next_counter([1, 2, 3, 4]), [1, 2, 3, 5]);
}

#[test]
fn counter_carries_from_last_digit() {
    assert_eq!(next_counter([0, 0, 0, 9]), [0, 0, 1, 0]);
    assert_eq!(next_counter([0, 0, 8, 9]), [0, 0, 9, 0]);
}

#[test]
fn counter_carries_from_third_digit() {
    assert_eq!(next_counter([0, 0, 9, 0]), [0, 1, 0, 0]);
    assert_eq!(next_counter([0, 3, 9, 4]), [0, 4, 0, 4]);
}

#[test]
fn counter_carries_from_second_digit() {
    assert_eq!(next_counter([0, 9, 0, 0]), [1, 0, 0, 0]);
}

#[test]
fn counter_resets_first_digit() {
    assert_eq!(next_counter([9, 0, 0, 0]), [0, 0, 0, 0]);
    assert_eq!(next_counter([9, 1, 2, 3]), [0, 1, 2, 3]);
}

#[test]
fn counter_from_zero_stays_decimal_with_one_nine_at_most() {
    let mut ctr = [0u8; 4];
    for _ in 0..20000 {
        ctr = next_counter(ctr);
        assert!(ctr.iter().all(|&d| d <= 9));
        assert!(ctr.iter().filter(|&&d| d == 9).count() <= 1);
    }
}

#[test]
fn counter_returns_to_zero_after_full_cycle() {
    let mut ctr = next_counter([0u8; 4]);
    let mut steps = 1;
    while ctr != [0, 0, 0, 0] {
        ctr = next_counter(ctr);
        steps += 1;
    }
    assert_eq!(steps, 7381);
}

#[test]
fn counter_frame_pauses_before_each_digit() {
    let ops = counter_frame([1, 2, 3, 14]);
    assert_eq!(
        ops,
        vec![
            BusOp::DelayNs { ns: DIGIT_PAUSE_NS },
            BusOp::Write1 { address: 0x34, byte: 0x06 },
            BusOp::DelayNs { ns: DIGIT_PAUSE_NS },
            BusOp::Write1 { address: 0x35, byte: 0x5B },
            BusOp::DelayNs { ns: DIGIT_PAUSE_NS },
            BusOp::Write1 { address: 0x36, byte: 0x4F },
            BusOp::DelayNs { ns: DIGIT_PAUSE_NS },
            BusOp::Write1 { address: 0x37, byte: 0x66 },
        ]
    );
    assert_eq!(DIGIT_PAUSE_NS, 500_000_000);
}
