use i2c_wasm_components::bus::BusOp;
use i2c_wasm_components::segment::{
    digit_to_data, setup, show_digits, to_data, write_message, BRIGHTNESS_MAX,
    CONTROL_ADDRESS, DIGIT_ADDRESS, DISPLAY_ON,
};

const PATTERNS: [u8; 10] = [0x3F, 0x06, 0x5B, 0x4F, 0x66, 0x6D, 0x7D, 0x07, 0x7F, 0x6F];

fn w1(address: u16, byte: u8) -> BusOp {
    BusOp::Write1 { address, byte }
}

#[test]
fn to_data_maps_ascii_digits_to_patterns() {
    for d in 0..10usize {
        assert_eq!(to_data(48 + d), PATTERNS[d]);
    }
}

#[test]
fn to_data_wraps_every_ten_codes() {
    assert_eq!(to_data(58), PATTERNS[0]);
    assert_eq!(to_data(65), PATTERNS[7]);
    assert_eq!(to_data(48 + 123), PATTERNS[3]);
}

#[test]
fn digit_to_data_uses_plain_digits() {
    assert_eq!(digit_to_data(0), 0x3F);
    assert_eq!(digit_to_data(8), 0x7F);
    assert_eq!(digit_to_data(13), 0x4F);
}

#[test]
fn segment_patterns_are_distinct() {
    for a in 0..10usize {
        for b in 0..10usize {
            if a != b {
                assert_ne!(digit_to_data(a), digit_to_data(b));
            }
        }
    }
}

#[test]
fn setup_switches_display_on_at_full_brightness() {
    assert_eq!(
        setup(),
        vec![w1(0x24, 0x81), w1(0x24, 0x01)]
    );
    assert_eq!(CONTROL_ADDRESS, 0x24);
    assert_eq!(DISPLAY_ON, 0x81);
    assert_eq!(BRIGHTNESS_MAX, 0x01);
}

#[test]
fn write_sends_one_digit_per_address() {
    assert_eq!(
        i2c_wasm_components::segment::write(49, 50, 51, 52),
        vec![
            w1(0x34, PATTERNS[1]),
            w1(0x35, PATTERNS[2]),
            w1(0x36, PATTERNS[3]),
            w1(0x37, PATTERNS[4]),
        ]
    );
}

#[test]
fn write_reads_negative_codes_as_32_bit_usize() {
    // -1 reads as 0xFFFF_FFFF; (0xFFFF_FFFF - 48) % 10 == 7.
    let ops = i2c_wasm_components::segment::write(-1, 48, 57, 48);
    assert_eq!(ops[0], w1(DIGIT_ADDRESS, PATTERNS[7]));
    assert_eq!(ops[1], w1(0x35, PATTERNS[0]));
    assert_eq!(ops[2], w1(0x36, PATTERNS[9]));
}

#[test]
fn show_digits_sets_up_then_writes_each_code() {
    let ops = show_digits(b"0905");
    assert_eq!(
        ops,
        vec![
            w1(0x24, 0x81),
            w1(0x24, 0x01),
            w1(0x34, PATTERNS[0]),
            w1(0x35, PATTERNS[9]),
            w1(0x36, PATTERNS[0]),
            w1(0x37, PATTERNS[5]),
        ]
    );
}

#[test]
fn show_digits_of_nothing_only_sets_up() {
    assert_eq!(show_digits(&[]), setup());
}

#[test]
fn write_message_shows_the_message() {
    let ops = write_message("1234");
    assert_eq!(ops.len(), 6);
    assert_eq!(ops[2..], [
        w1(0x34, PATTERNS[1]),
        w1(0x35, PATTERNS[2]),
        w1(0x36, PATTERNS[3]),
        w1(0x37, PATTERNS[4]),
    ]);
}

#[test]
fn write_message_addresses_grow_with_position() {
    let message = "9".repeat(20);
    let ops = write_message(&message);
    for (i, op) in ops[2..].iter().enumerate() {
        assert_eq!(*op, w1(0x34 + i as u16, PATTERNS[9]));
    }
}
