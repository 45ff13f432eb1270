use vstd::prelude::*;
use crate::bus::BusOp;
use crate::segment::{
    ascii_digit, ascii_digits, digit_writes, setup_ops, show_digits, wasm_usize,
};

verus! {

/// The character codes of a time of day written as `HHMM`: two zero-padded
/// digits of the hour, then two of the minute.
pub open spec fn clock_codes(hour: int, minute: int) -> Seq<u8> {
    seq![
        (48 + hour / 10) as u8,
        (48 + hour % 10) as u8,
        (48 + minute / 10) as u8,
        (48 + minute % 10) as u8,
    ]
}

/// The four decimal digits of a time of day: hour tens, hour units, minute
/// tens, minute units.
pub open spec fn clock_face(hour: int, minute: int) -> Seq<int> {
    seq![hour / 10, hour % 10, minute / 10, minute % 10]
}

/// Writes a time of day as the four character codes `HHMM`.
pub fn clock_digits(hour: u32, minute: u32) -> (codes: [u8; 4])
    requires
        hour < 24,
        minute < 60,
    ensures
        codes@ == clock_codes(hour as int, minute as int),
        forall|i: int| 0 <= i < 4 ==> 48 <= #[trigger] codes@[i] <= 57,
        (codes[0] - 48) * 10 + (codes[1] - 48) == hour,
        (codes[2] - 48) * 10 + (codes[3] - 48) == minute,
{
    let codes: [u8; 4] = [
        (48 + hour / 10) as u8,
        (48 + hour % 10) as u8,
        (48 + minute / 10) as u8,
        (48 + minute % 10) as u8,
    ];
    assert(codes@ =~= clock_codes(hour as int, minute as int));
    codes
}

/// The arguments that the host hands to the display guest for a time of
/// day: each character code of `HHMM` as an `i32`.
pub fn clock_params(hour: u32, minute: u32) -> (params: [i32; 4])
    requires
        hour < 24,
        minute < 60,
    ensures
        params@.len() == 4,
        forall|i: int| 0 <= i < 4 ==> params@[i] as int == clock_codes(hour as int, minute as int)[i] as int,
{
    let codes = clock_digits(hour, minute);
    let params: [i32; 4] = [codes[0] as i32, codes[1] as i32, codes[2] as i32, codes[3] as i32];
    params
}

/// Switches the display on and shows a time of day as `HHMM`.
pub fn clock_writes(hour: u32, minute: u32) -> (ops: Vec<BusOp>)
    requires
        hour < 24,
        minute < 60,
    ensures
        ops@ == setup_ops() + digit_writes(ascii_digits(clock_codes(hour as int, minute as int))),
{
    let codes = clock_digits(hour, minute);
    let slice: &[u8] = &codes;
    assert(slice@ == codes@);
    show_digits(slice)
}

/// A time of day shown on the display, whether written directly as `HHMM`
/// or handed as `i32` arguments to the display guest, lights the hour's two
/// digits and then the minute's two digits.
pub proof fn lemma_clock_shows_time(hour: int, minute: int, params: Seq<i32>)
    requires
        0 <= hour < 24,
        0 <= minute < 60,
        params.len() == 4,
        forall|i: int| 0 <= i < 4 ==> params[i] as int == clock_codes(hour, minute)[i] as int,
    ensures
        digit_writes(ascii_digits(clock_codes(hour, minute))) == digit_writes(clock_face(hour, minute)),
        digit_writes(
            seq![
                ascii_digit(wasm_usize(params[0])),
                ascii_digit(wasm_usize(params[1])),
                ascii_digit(wasm_usize(params[2])),
                ascii_digit(wasm_usize(params[3])),
            ],
        ) == digit_writes(clock_face(hour, minute)),
{
    let codes = clock_codes(hour, minute);
    assert(ascii_digits(codes) =~= clock_face(hour, minute));
    assert(seq![
        ascii_digit(wasm_usize(params[0])),
        ascii_digit(wasm_usize(params[1])),
        ascii_digit(wasm_usize(params[2])),
        ascii_digit(wasm_usize(params[3])),
    ] =~= clock_face(hour, minute));
}

} // verus!
