use i2c_wasm_components::bus::BusOp;
use i2c_wasm_components::lcd::{
    hello_world, write_message, write_nibble, write_text, ADDRESS, BACKLIGHT, CLEAR,
    DISPLAY_MODE, ENABLE, ENABLE_PULSE_NS, REGISTER_SELECT, RESET, SETTLE_NS,
};

/// Plays bus operations into a model of the backpack and the controller in
/// 4-bit mode, and returns the bytes the controller latched.
fn controller(ops: &[BusOp]) -> Vec<(u8, bool)> {
    let mut wire: Vec<u8> = Vec::new();
    for op in ops {
        match *op {
            BusOp::Write1 { address, byte } if address == ADDRESS => wire.push(byte),
            BusOp::Write2 { address, first, second } if address == ADDRESS => {
                wire.push(first);
                wire.push(second);
            }
            _ => {}
        }
    }
    let mut nibbles = Vec::new();
    for i in 1..wire.len() {
        if wire[i - 1] & ENABLE != 0 && wire[i] & ENABLE == 0 {
            nibbles.push(wire[i]);
        }
    }
    nibbles
        .chunks(2)
        .map(|p| ((p[0] & 0xF0) | (p[1] >> 4), p[0] & REGISTER_SELECT != 0))
        .collect()
}

#[test]
fn nibble_is_strobed_with_backlight_on() {
    let mut ops = Vec::new();
    write_nibble(&mut ops, 0x40, true);
    assert_eq!(
        ops,
        vec![
            BusOp::Write2 { address: 0x27, first: 0x49, second: 0x4D },
            BusOp::DelayNs { ns: 2_000_000 },
            BusOp::Write1 { address: 0x27, byte: 0x49 },
        ]
    );
}

#[test]
fn command_nibble_clears_register_select() {
    let mut ops = Vec::new();
    write_nibble(&mut ops, 0x00, false);
    assert_eq!(ops[0], BusOp::Write2 { address: 0x27, first: 0x08, second: 0x0C });
    assert_eq!(ops[2], BusOp::Write1 { address: 0x27, byte: 0x08 });
}

#[test]
fn write_sends_upper_then_lower_nibble() {
    let mut ops = vec![BusOp::DelayNs { ns: 1 }];
    i2c_wasm_components::lcd::write(&mut ops, b'A', true);
    assert_eq!(ops.len(), 7);
    assert_eq!(ops[0], BusOp::DelayNs { ns: 1 });
    assert_eq!(ops[1], BusOp::Write2 { address: 0x27, first: 0x49, second: 0x4D });
    assert_eq!(ops[4], BusOp::Write2 { address: 0x27, first: 0x19, second: 0x1D });
    assert_eq!(ops[6], BusOp::Write1 { address: 0x27, byte: 0x19 });
}

#[test]
fn write_message_resets_clears_and_sets_mode_first() {
    let ops = write_message("Hi");
    assert_eq!(ops.len(), 5 * 7);
    assert_eq!(
        controller(&ops),
        vec![(RESET, false), (CLEAR, false), (DISPLAY_MODE, false), (b'H', true), (b'i', true)]
    );
    for k in 0..5 {
        assert_eq!(ops[7 * k + 6], BusOp::DelayNs { ns: SETTLE_NS });
        assert_eq!(ops[7 * k + 1], BusOp::DelayNs { ns: ENABLE_PULSE_NS });
    }
}

#[test]
fn controller_receives_every_byte_value() {
    let all: Vec<u8> = (0..=255u8).collect();
    let mut ops = Vec::new();
    for &b in &all {
        i2c_wasm_components::lcd::write(&mut ops, b, b % 2 == 0);
    }
    let expected: Vec<(u8, bool)> = all.iter().map(|&b| (b, b % 2 == 0)).collect();
    assert_eq!(controller(&ops), expected);
}

#[test]
fn every_frame_keeps_backlight_on() {
    for op in write_message("Goeiemorgen!") {
        match op {
            BusOp::Write1 { byte, .. } => assert_eq!(byte & BACKLIGHT, BACKLIGHT),
            BusOp::Write2 { first, second, .. } => {
                assert_eq!(first & BACKLIGHT, BACKLIGHT);
                assert_eq!(second, first | ENABLE);
            }
            BusOp::DelayNs { .. } => {}
        }
    }
}

#[test]
fn hello_world_prints_text_without_init() {
    let ops = hello_world();
    assert_eq!(ops.len(), 11 * 7);
    let got: Vec<u8> = controller(&ops).into_iter().map(|(b, d)| {
        assert!(d);
        b
    }).collect();
    assert_eq!(got, b"hello world".to_vec());
}

#[test]
fn write_text_of_empty_string_is_empty() {
    assert!(write_text("").is_empty());
}

#[test]
fn write_text_sends_utf8_bytes() {
    let ops = write_text("é");
    assert_eq!(controller(&ops), vec![(0xC3, true), (0xA9, true)]);
}

#[test]
fn register_select_marks_exactly_the_message_frames() {
    let ops = write_message("ok");
    assert_eq!(ops.len(), 7 * 5);
    for (k, op) in ops.iter().enumerate() {
        let data = k >= 21;
        match *op {
            BusOp::Write1 { address, byte } => {
                assert_eq!(address, ADDRESS);
                assert_eq!(byte & REGISTER_SELECT != 0, data);
                assert_eq!(byte & (ENABLE | 0x02), 0);
            }
            BusOp::Write2 { address, first, second } => {
                assert_eq!(address, ADDRESS);
                assert_eq!(first & REGISTER_SELECT != 0, data);
                assert_eq!(first & (ENABLE | 0x02), 0);
                assert_eq!(second, first | ENABLE);
                assert_eq!(ops[k + 2], BusOp::Write1 { address: ADDRESS, byte: first });
            }
            BusOp::DelayNs { .. } => {}
        }
    }
}
