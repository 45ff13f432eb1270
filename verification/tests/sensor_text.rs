use i2c_wasm_components::decimal::push_decimal;
use i2c_wasm_components::sensor::{humidity_message, temperature_message};

#[test]
fn temperature_with_eighths() {
    assert_eq!(temperature_message(169), "Temp = 21.125 deg C");
    assert_eq!(temperature_message(174), "Temp = 21.750 deg C");
}

#[test]
fn temperature_whole_degrees() {
    assert_eq!(temperature_message(0), "Temp = 0.0 deg C");
    assert_eq!(temperature_message(960), "Temp = 120.0 deg C");
    assert_eq!(temperature_message(-320), "Temp = -40.0 deg C");
}

#[test]
fn temperature_negative_fraction_carries_sign() {
    assert_eq!(temperature_message(-4), "Temp = -0.500 deg C");
    assert_eq!(temperature_message(-1), "Temp = -0.125 deg C");
    assert_eq!(temperature_message(-9), "Temp = -1.125 deg C");
    assert_eq!(temperature_message(-8), "Temp = -1.0 deg C");
}

#[test]
fn temperature_extremes() {
    assert_eq!(temperature_message(i16::MIN), "Temp = -4096.0 deg C");
    assert_eq!(temperature_message(i16::MAX), "Temp = 4095.875 deg C");
}

#[test]
fn humidity_halves() {
    assert_eq!(humidity_message(91), "rH = 45.5%");
    assert_eq!(humidity_message(0), "rH = 0.0%");
    assert_eq!(humidity_message(200), "rH = 100.0%");
    assert_eq!(humidity_message(u16::MAX), "rH = 32767.5%");
}

#[test]
fn decimal_matches_display() {
    for n in [0i32, 7, 10, 99, 100, 12345, -1, -10, -987, i32::MAX, i32::MIN] {
        let mut s = String::from("x");
        push_decimal(&mut s, n);
        assert_eq!(s, format!("x{}", n));
    }
}

#[test]
fn temperature_parts_add_up() {
    for t in -400i16..1000 {
        let s = temperature_message(t);
        let body = s.strip_prefix("Temp = ").unwrap().strip_suffix(" deg C").unwrap();
        let (sign, body) = match body.strip_prefix('-') {
            Some(rest) => (-1i64, rest),
            None => (1i64, body),
        };
        let (whole, frac) = body.split_once('.').unwrap();
        let whole: i64 = whole.parse().unwrap();
        let frac: i64 = frac.parse().unwrap();
        assert_eq!(sign * (whole * 1000 + frac), t as i64 * 125);
        assert_eq!(sign < 0, t < 0);
    }
}
