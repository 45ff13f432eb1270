use i2c_wasm_components::bus::BusOp;
use i2c_wasm_components::clock::{clock_digits, clock_params, clock_writes};
use i2c_wasm_components::guest::{
    command_reading, component_source, ComponentSource, Guest, World, DISPLAY_MESSAGE,
    SERIALIZED_COMPONENT,
};
use i2c_wasm_components::host::{read_buffer, read_reply, write_reply, ErrorCode};
use i2c_wasm_components::segment::{setup};
use i2c_wasm_components::sensor::Reading;

#[test]
fn clock_digits_are_zero_padded() {
    assert_eq!(clock_digits(9, 5), *b"0905");
    assert_eq!(clock_digits(0, 0), *b"0000");
    assert_eq!(clock_digits(23, 59), *b"2359");
}

#[test]
fn clock_params_are_the_codes() {
    assert_eq!(clock_params(14, 7), [49, 52, 48, 55]);
}

#[test]
fn clock_writes_show_the_time() {
    let ops = clock_writes(12, 34);
    assert_eq!(ops.len(), 6);
    assert_eq!(ops[2], BusOp::Write1 { address: 0x34, byte: 0x06 });
    assert_eq!(ops[3], BusOp::Write1 { address: 0x35, byte: 0x5B });
    assert_eq!(ops[4], BusOp::Write1 { address: 0x36, byte: 0x4F });
    assert_eq!(ops[5], BusOp::Write1 { address: 0x37, byte: 0x66 });
}

#[test]
fn clock_paths_agree() {
    for hour in 0..24 {
        for minute in 0..60 {
            let p = clock_params(hour, minute);
            let mut guest = setup();
            guest.extend(i2c_wasm_components::segment::write(p[0], p[1], p[2], p[3]));
            assert_eq!(guest, clock_writes(hour, minute));
        }
    }
}

#[test]
fn guest_names() {
    assert_eq!(Guest::from_name("sensor"), Some(Guest::Sensor));
    assert_eq!(Guest::from_name("display"), Some(Guest::LCDDisplay));
    assert_eq!(Guest::from_name("segment"), Some(Guest::SegmentLEDDisplay));
    assert_eq!(Guest::from_name("Sensor"), None);
    assert_eq!(Guest::from_name(""), None);
}

#[test]
fn guest_files_and_worlds() {
    assert_eq!(Guest::Sensor.component_file(), "hat.wasm");
    assert_eq!(Guest::LCDDisplay.component_file(), "lcd.wasm");
    assert_eq!(Guest::SegmentLEDDisplay.component_file(), "led.wasm");
    assert_eq!(Guest::Sensor.world(), World::Sensor);
    assert_eq!(Guest::LCDDisplay.world(), World::Screen);
    assert_eq!(Guest::SegmentLEDDisplay.world(), World::Screen);
}

#[test]
fn component_sources() {
    assert_eq!(
        component_source(Guest::Sensor, None),
        ComponentSource::File { guest: Guest::Sensor, serialize: false }
    );
    assert_eq!(
        component_source(Guest::LCDDisplay, Some("serialize")),
        ComponentSource::File { guest: Guest::LCDDisplay, serialize: true }
    );
    assert_eq!(component_source(Guest::LCDDisplay, Some("deserialize")), ComponentSource::Serialized);
    assert_eq!(SERIALIZED_COMPONENT, "./component.serialized");
    assert_eq!(DISPLAY_MESSAGE, "1234");
}

#[test]
fn command_serves_screen_only() {
    assert_eq!(command_reading("screen"), Some(Reading::Temperature));
    assert_eq!(command_reading("sensor"), None);
}

#[test]
fn read_buffer_is_zeroed() {
    assert_eq!(read_buffer(3), vec![0u8, 0, 0]);
    assert!(read_buffer(0).is_empty());
}

#[test]
fn replies_map_every_error_to_other() {
    assert_eq!(read_reply::<()>(Ok(()), vec![1, 2]), Ok(vec![1, 2]));
    assert_eq!(read_reply(Err("nak"), vec![1, 2]), Err(ErrorCode::Other));
    assert_eq!(write_reply::<u8>(Ok(())), Ok(()));
    assert_eq!(write_reply(Err(5u8)), Err(ErrorCode::Other));
}
