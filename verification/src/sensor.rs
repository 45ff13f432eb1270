use vstd::prelude::*;
use crate::decimal::{decimal, push_decimal};

verus! {

/// The readings that the sensor guest offers.
#[derive(Clone, Copy, Debug, PartialEq, Eq, Structural)]
pub enum Reading {
    /// The temperature, reported by `temperature_message`.
    Temperature,
    /// The relative humidity, reported by `humidity_message`.
    Humidity,
}

/// The size of a reading in eighths of a degree Celsius, without its sign.
pub open spec fn magnitude(temperature_x8: int) -> int {
    if temperature_x8 < 0 {
        -temperature_x8
    } else {
        temperature_x8
    }
}

/// The whole degrees of a reading, without its sign: the reading's size
/// divided by eight, rounded towards zero.
pub open spec fn whole_degrees(temperature_x8: int) -> int {
    magnitude(temperature_x8) / 8
}

/// The part of a reading below a whole degree, in thousandths and without
/// its sign: 125 for each eighth left over.
pub open spec fn thousandths(temperature_x8: int) -> int {
    125 * (magnitude(temperature_x8) % 8)
}

/// The sign that a temperature report starts with: a minus for a reading
/// below zero, nothing otherwise.
pub open spec fn sign_text(temperature_x8: int) -> Seq<char> {
    if temperature_x8 < 0 {
        "-"@
    } else {
        ""@
    }
}

/// The whole percent of a humidity reading in half percent points.
pub open spec fn whole_percent(humidity_x2: int) -> int {
    humidity_x2 / 2
}

/// The part of a humidity reading below a whole percent, in tenths.
pub open spec fn tenths(humidity_x2: int) -> int {
    5 * (humidity_x2 % 2)
}

/// The text that reports a temperature reading.
pub open spec fn temperature_text(temperature_x8: int) -> Seq<char> {
    "Temp = "@ + sign_text(temperature_x8) + decimal(whole_degrees(temperature_x8)) + "."@ + decimal(
        thousandths(temperature_x8),
    ) + " deg C"@
}

/// The text that reports a humidity reading.
pub open spec fn humidity_text(humidity_x2: int) -> Seq<char> {
    "rH = "@ + decimal(whole_percent(humidity_x2)) + "."@ + decimal(tenths(humidity_x2)) + "%"@
}

/// Reports a temperature given in eighths of a degree Celsius, as
/// `Temp = <sign><whole>.<thousandths> deg C`, where the whole degrees and
/// the thousandths both carry the reading's sign: -4 reads `-0.500`.
pub fn temperature_message(temperature_x8: i16) -> (message: String)
    ensures
        message@ == temperature_text(temperature_x8 as int),
        temperature_x8 >= 0 ==> message@ == "Temp = "@ + decimal(temperature_x8 as int / 8) + "."@
            + decimal(125 * (temperature_x8 as int % 8)) + " deg C"@,
        temperature_x8 < 0 ==> message@ == "Temp = "@ + "-"@ + decimal((-(temperature_x8 as int)) / 8) + "."@
            + decimal(125 * ((-(temperature_x8 as int)) % 8)) + " deg C"@,
{
    let negative = temperature_x8 < 0;
    let magnitude: i32 = if negative {
        -(temperature_x8 as i32)
    } else {
        temperature_x8 as i32
    };
    let whole = magnitude / 8;
    let low = magnitude % 8;
    let mut message = String::from_str("Temp = ");
    if negative {
        message.append("-");
    } else {
        proof {
            reveal_strlit("");
        }
        assert(message@ + ""@ =~= message@);
    }
    push_decimal(&mut message, whole);
    message.append(".");
    push_decimal(&mut message, 125 * low);
    message.append(" deg C");
    message
}

/// Reports a relative humidity given in half percent points, as
/// `rH = <whole>.<tenths>%`.
pub fn humidity_message(humidity_x2: u16) -> (message: String)
    ensures
        message@ == humidity_text(humidity_x2 as int),
        message@ == "rH = "@ + decimal(humidity_x2 as int / 2) + "."@ + decimal(
            5 * (humidity_x2 as int % 2),
        ) + "%"@,
{
    let whole = humidity_x2 >> 1;
    let low = humidity_x2 & 0b1;
    assert(whole == humidity_x2 / 2 && low == humidity_x2 % 2) by (bit_vector)
        requires
            whole == humidity_x2 >> 1,
            low == humidity_x2 & 0b1,
    ;
    let mut message = String::from_str("rH = ");
    push_decimal(&mut message, whole as i32);
    message.append(".");
    push_decimal(&mut message, 5 * (low as i32));
    message.append("%");
    message
}

/// A temperature report reads as the reading itself: with the sign it
/// shows, the whole degrees and the thousandths make up the reading in
/// thousandths of a degree (eight eighths being a thousand thousandths).
pub proof fn lemma_temperature_parts(temperature_x8: int)
    ensures
        (if temperature_x8 < 0 {
            -1int
        } else {
            1int
        }) * (whole_degrees(temperature_x8) * 1000 + thousandths(temperature_x8)) == temperature_x8
            * 125,
        0 <= thousandths(temperature_x8) <= 875,
        whole_degrees(temperature_x8) >= 0,
{
    let m = magnitude(temperature_x8);
    assert(m == 8 * (m / 8) + m % 8) by (nonlinear_arith)
        requires
            m >= 0,
    ;
    assert(m / 8 >= 0) by (nonlinear_arith)
        requires
            m >= 0,
    ;
    let x = whole_degrees(temperature_x8) * 1000 + thousandths(temperature_x8);
    assert(x == m * 125);
    if temperature_x8 < 0 {
        assert(-1int * x == -x);
    } else {
        assert(1int * x == x);
    }
}

/// The whole percent and the tenths that a humidity report shows add up to
/// the reading: whole * 10 + tenths is the reading in tenths of a percent.
pub proof fn lemma_humidity_parts(humidity_x2: int)
    ensures
        whole_percent(humidity_x2) * 10 + tenths(humidity_x2) == humidity_x2 * 5,
        tenths(humidity_x2) == 0 || tenths(humidity_x2) == 5,
{
    assert(humidity_x2 == 2 * (humidity_x2 / 2) + humidity_x2 % 2) by (nonlinear_arith);
}


/// A humidity report reads as the reading: its text is `rH = W.F%` where
/// `W` and `F` are decimal numbers with `W * 10 + F` the reading in tenths
/// of a percent (five per half point) and `F` either 0 or 5.
pub proof fn lemma_humidity_text_reads_back(humidity_x2: int)
    requires
        humidity_x2 >= 0,
    ensures
        exists|w: int, f: int|
            #![trigger decimal(w), decimal(f)]
            w >= 0 && (f == 0 || f == 5) && w * 10 + f == humidity_x2 * 5 && humidity_text(humidity_x2)
                == "rH = "@ + decimal(w) + "."@ + decimal(f) + "%"@,
{
    lemma_humidity_parts(humidity_x2);
    let w = whole_percent(humidity_x2);
    let f = tenths(humidity_x2);
    assert(w >= 0);
    assert(humidity_text(humidity_x2) == "rH = "@ + decimal(w) + "."@ + decimal(f) + "%"@);
}

/// A temperature report reads as the reading: its text is
/// `Temp = S W.F deg C` (without the space) where `S` is `-` exactly for a
/// reading below zero, `W` and `F` are decimal numbers, `F` is at most 875,
/// and with that sign `W * 1000 + F` is the reading in thousandths of a
/// degree (125 per eighth).
pub proof fn lemma_temperature_text_reads_back(temperature_x8: int)
    ensures
        exists|w: int, f: int|
            #![trigger decimal(w), decimal(f)]
            w >= 0 && 0 <= f <= 875 && (if temperature_x8 < 0 {
                -(w * 1000 + f)
            } else {
                w * 1000 + f
            }) == temperature_x8 * 125 && temperature_text(temperature_x8) == "Temp = "@ + (
            if temperature_x8 < 0 {
                "-"@
            } else {
                ""@
            }) + decimal(w) + "."@ + decimal(f) + " deg C"@,
{
    lemma_temperature_parts(temperature_x8);
    let w = whole_degrees(temperature_x8);
    let f = thousandths(temperature_x8);
    if temperature_x8 < 0 {
        assert(-1int * (w * 1000 + f) == -(w * 1000 + f));
    } else {
        assert(1int * (w * 1000 + f) == w * 1000 + f);
    }
    assert(temperature_text(temperature_x8) == "Temp = "@ + (if temperature_x8 < 0 {
        "-"@
    } else {
        ""@
    }) + decimal(w) + "."@ + decimal(f) + " deg C"@);
}

} // verus!
