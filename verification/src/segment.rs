use vstd::prelude::*;
use crate::bus::BusOp;
use vstd::string::StringSliceAdditionalSpecFns;

verus! {

/// Address of the display's control register.
pub const CONTROL_ADDRESS: u16 = 0x24;

/// Control byte that switches the display on.
pub const DISPLAY_ON: u8 = 0x81;

/// Control byte that sets the brightness to its maximum, `(0 << 4) | 0x01`.
pub const BRIGHTNESS_MAX: u8 = 0x01;

/// Address of the leftmost digit; digit `i` sits at `DIGIT_ADDRESS + i`.
pub const DIGIT_ADDRESS: u16 = 0x34;

/// The segments lit for the decimal digit `d` (bit 0 is segment a, bit 6 is
/// segment g).
pub open spec fn segment_pattern(d: int) -> u8 {
    if d == 0 {
        0x3F
    } else if d == 1 {
        0x06
    } else if d == 2 {
        0x5B
    } else if d == 3 {
        0x4F
    } else if d == 4 {
        0x66
    } else if d == 5 {
        0x6D
    } else if d == 6 {
        0x7D
    } else if d == 7 {
        0x07
    } else if d == 8 {
        0x7F
    } else {
        0x6F
    }
}

/// The digit that the display shows for the character code `code`: codes
/// are read as ASCII, `'0'` is 48, and the digit wraps every ten codes.
pub open spec fn ascii_digit(code: int) -> int {
    (code - 48) % 10
}

/// Looks the segments of the decimal digit `d` up in the pattern table.
fn pattern(d: usize) -> (r: u8)
    requires
        d < 10,
    ensures
        r == segment_pattern(d as int),
{
    let table: [u8; 10] = [0x3F, 0x06, 0x5B, 0x4F, 0x66, 0x6D, 0x7D, 0x07, 0x7F, 0x6F];
    table[d]
}

/// The segments that show the ASCII digit with code `i`.
pub fn to_data(i: usize) -> (r: u8)
    requires
        i >= 48,
    ensures
        r == segment_pattern(ascii_digit(i as int)),
{
    pattern((i - 48) % 10)
}

/// The segments that show `i mod 10`, for a counter that holds plain digit
/// values rather than character codes.
pub fn digit_to_data(i: usize) -> (r: u8)
    ensures
        r == segment_pattern(i as int % 10),
{
    pattern(i % 10)
}


/// The two control writes that switch the display on at full brightness.
pub open spec fn setup_ops() -> Seq<BusOp> {
    seq![
        BusOp::Write1 { address: CONTROL_ADDRESS, byte: DISPLAY_ON },
        BusOp::Write1 { address: CONTROL_ADDRESS, byte: BRIGHTNESS_MAX },
    ]
}

/// One write per digit: digit `i` of `digits` goes to `DIGIT_ADDRESS + i`.
pub open spec fn digit_writes(digits: Seq<int>) -> Seq<BusOp> {
    Seq::new(
        digits.len(),
        |i: int| BusOp::Write1 { address: (DIGIT_ADDRESS + i) as u16, byte: segment_pattern(digits[i]) },
    )
}

/// The digits that a row of ASCII character codes shows.
pub open spec fn ascii_digits(codes: Seq<u8>) -> Seq<int> {
    Seq::new(codes.len(), |i: int| ascii_digit(codes[i] as int))
}

/// How a WebAssembly guest, whose `usize` is 32 bits wide, reads an `i32`
/// argument as a `usize`.
pub open spec fn wasm_usize(n: i32) -> int {
    if n >= 0 {
        n as int
    } else {
        n + 0x1_0000_0000
    }
}

/// Switches the display on and sets the brightness to its maximum.
pub fn setup() -> (ops: Vec<BusOp>)
    ensures
        ops@ == setup_ops(),
        ops@ == seq![
            BusOp::Write1 { address: 0x24, byte: 0x81 },
            BusOp::Write1 { address: 0x24, byte: 0x01 },
        ],
{
    let mut ops: Vec<BusOp> = Vec::new();
    // Set display on
    ops.push(BusOp::Write1 { address: CONTROL_ADDRESS, byte: DISPLAY_ON });
    // Set brightness to max
    ops.push(BusOp::Write1 { address: CONTROL_ADDRESS, byte: BRIGHTNESS_MAX });
    ops
}

/// The value that a 32-bit guest obtains from `n as usize`.
fn wasm_code(n: i32) -> (r: u64)
    ensures
        r == wasm_usize(n),
{
    if n >= 0 {
        n as u64
    } else {
        (n as i64 + 0x1_0000_0000i64) as u64
    }
}

/// Shows four character codes, one per digit, as the guest receives them
/// from the host: each `i32` is read as a 32-bit `usize` and must not lie in
/// `0..48`, where the guest's subtraction would underflow.
pub fn write(d0: i32, d1: i32, d2: i32, d3: i32) -> (ops: Vec<BusOp>)
    requires
        wasm_usize(d0) >= 48,
        wasm_usize(d1) >= 48,
        wasm_usize(d2) >= 48,
        wasm_usize(d3) >= 48,
    ensures
        ops@ == digit_writes(
            seq![
                ascii_digit(wasm_usize(d0)),
                ascii_digit(wasm_usize(d1)),
                ascii_digit(wasm_usize(d2)),
                ascii_digit(wasm_usize(d3)),
            ],
        ),
        ops@.len() == 4,
        ops@[0] == (BusOp::Write1 { address: 0x34, byte: segment_pattern((wasm_usize(d0) - 48) % 10) }),
        ops@[1] == (BusOp::Write1 { address: 0x35, byte: segment_pattern((wasm_usize(d1) - 48) % 10) }),
        ops@[2] == (BusOp::Write1 { address: 0x36, byte: segment_pattern((wasm_usize(d2) - 48) % 10) }),
        ops@[3] == (BusOp::Write1 { address: 0x37, byte: segment_pattern((wasm_usize(d3) - 48) % 10) }),
{
    let numbers: [i32; 4] = [d0, d1, d2, d3];
    let ghost digits = seq![
        ascii_digit(wasm_usize(d0)),
        ascii_digit(wasm_usize(d1)),
        ascii_digit(wasm_usize(d2)),
        ascii_digit(wasm_usize(d3)),
    ];
    let mut ops: Vec<BusOp> = Vec::new();
    let mut i: usize = 0;
    while i < 4
        invariant
            i <= 4,
            numbers@ == seq![d0, d1, d2, d3],
            digits.len() == 4,
            forall|j: int| 0 <= j < 4 ==> digits[j] == ascii_digit(wasm_usize(#[trigger] numbers@[j])),
            forall|j: int| 0 <= j < 4 ==> wasm_usize(#[trigger] numbers@[j]) >= 48,
            ops@ == digit_writes(digits.take(i as int)),
        decreases 4 - i,
    {
        let code = wasm_code(numbers[i]);
        let dig = pattern(((code - 48) % 10) as usize);
        let address: u16 = DIGIT_ADDRESS + i as u16;
        ops.push(BusOp::Write1 { address, byte: dig });
        assert(digit_writes(digits.take(i + 1)) =~= digit_writes(digits.take(i as int)).push(
            BusOp::Write1 { address, byte: dig },
        ));
        i = i + 1;
    }
    assert(digits.take(4) =~= digits);
    assert(ops@[0] == digit_writes(digits)[0]);
    assert(ops@[1] == digit_writes(digits)[1]);
    assert(ops@[2] == digit_writes(digits)[2]);
    assert(ops@[3] == digit_writes(digits)[3]);
    ops
}

/// Switches the display on and shows one digit per byte of `codes`, read as
/// ASCII. The display's digit addresses are 16 bits wide, which bounds the
/// length, and every code must be at least `'0'` (48).
pub fn show_digits(codes: &[u8]) -> (ops: Vec<BusOp>)
    requires
        codes@.len() <= 0xFFCC,
        forall|i: int| 0 <= i < codes@.len() ==> codes@[i] >= 48,
    ensures
        ops@ == setup_ops() + digit_writes(ascii_digits(codes@)),
        ops@.len() == codes@.len() + 2,
        ops@[0] == (BusOp::Write1 { address: 0x24, byte: 0x81 }),
        ops@[1] == (BusOp::Write1 { address: 0x24, byte: 0x01 }),
        forall|i: int|
            0 <= i < codes@.len() ==> ops@[2 + i] == (BusOp::Write1 {
                address: (0x34 + i) as u16,
                byte: segment_pattern((codes@[i] - 48) % 10),
            }),
{
    let mut ops = setup();
    let mut i: usize = 0;
    while i < codes.len()
        invariant
            i <= codes@.len() <= 0xFFCC,
            forall|j: int| 0 <= j < codes@.len() ==> codes@[j] >= 48,
            ops@ == setup_ops() + digit_writes(ascii_digits(codes@).take(i as int)),
        decreases codes@.len() - i,
    {
        let dig = to_data(codes[i] as usize);
        let address: u16 = DIGIT_ADDRESS + i as u16;
        ops.push(BusOp::Write1 { address, byte: dig });
        assert(digit_writes(ascii_digits(codes@).take(i + 1)) =~= digit_writes(
            ascii_digits(codes@).take(i as int),
        ).push(BusOp::Write1 { address, byte: dig }));
        i = i + 1;
    }
    assert(ascii_digits(codes@).take(codes@.len() as int) =~= ascii_digits(codes@));
    assert forall|i: int| 0 <= i < codes@.len() implies ops@[2 + i] == (BusOp::Write1 {
        address: (0x34 + i) as u16,
        byte: segment_pattern((codes@[i] - 48) % 10),
    }) by {
        assert(ops@[2 + i] == digit_writes(ascii_digits(codes@))[i]);
    }
    ops
}

/// Switches the display on and shows `message`, one digit per byte of its
/// UTF-8 encoding.
pub fn write_message(message: &str) -> (ops: Vec<BusOp>)
    requires
        message.spec_bytes().len() <= 0xFFCC,
        forall|i: int| 0 <= i < message.spec_bytes().len() ==> message.spec_bytes()[i] >= 48,
    ensures
        ops@ == setup_ops() + digit_writes(ascii_digits(message.spec_bytes())),
        ops@.len() == message.spec_bytes().len() + 2,
        ops@[0] == (BusOp::Write1 { address: 0x24, byte: 0x81 }),
        ops@[1] == (BusOp::Write1 { address: 0x24, byte: 0x01 }),
        forall|i: int|
            0 <= i < message.spec_bytes().len() ==> ops@[2 + i] == (BusOp::Write1 {
                address: (0x34 + i) as u16,
                byte: segment_pattern((message.spec_bytes()[i] - 48) % 10),
            }),
{
    show_digits(message.as_bytes())
}


/// A row of ASCII digits `'0'`..`'9'` shows exactly those digits.
pub proof fn lemma_ascii_digits_shown(codes: Seq<u8>)
    requires
        forall|i: int| 0 <= i < codes.len() ==> 48 <= #[trigger] codes[i] <= 57,
    ensures
        ascii_digits(codes) == Seq::new(codes.len(), |i: int| codes[i] - 48),
{
    assert(ascii_digits(codes) =~= Seq::new(codes.len(), |i: int| codes[i] - 48));
}

/// Character codes ten apart show the same digit.
pub proof fn lemma_ascii_digit_wraps(code: int)
    requires
        code >= 48,
    ensures
        ascii_digit(code + 10) == ascii_digit(code),
{
}


/// The segments of `p` turned half a turn: a and d, b and e, c and f trade
/// places; g stays.
pub open spec fn rotated(p: u8) -> u8 {
    ((p & 1) << 3u8) | ((p >> 3u8) & 1) | ((p & 2) << 3u8) | ((p >> 3u8) & 2) | ((p & 4) << 3u8) | ((
    p >> 3u8) & 4) | (p & 64)
}

/// The segments of `p` seen in a mirror: b and f, c and e trade places; a,
/// d and g stay.
pub open spec fn mirrored(p: u8) -> u8 {
    (p & 0b100_1001) | ((p & 2) << 4u8) | ((p >> 4u8) & 2) | ((p & 4) << 2u8) | ((p >> 2u8) & 4)
}

/// The shapes of the ten digits: they are all different, 8 lights all seven
/// segments and every other digit lights some of them, 0, 2, 5 and 8 look
/// the same turned half a turn, 6 turned is 9, 0 and 8 look the same in a
/// mirror and 2 in a mirror is 5. Digits grow out of each other: 1 is the
/// right-hand bars b and c, 7 adds the top bar a, 3 adds the bottom bar d
/// and the middle bar g to 7, 9 adds the upper left bar f to 3, 4 is 1 with
/// f and g, 6 is 5 with the lower left bar e, and 8 is 9 with e, or 0 with
/// g.
pub proof fn lemma_digit_shapes()
    ensures
        forall|a: int, b: int| 0 <= a < 10 && 0 <= b < 10 && a != b ==> segment_pattern(a) != segment_pattern(b),
        forall|d: int| 0 <= d < 10 ==> #[trigger] segment_pattern(d) & 0x7F == segment_pattern(d),
        segment_pattern(8) == 0x7F,
        rotated(segment_pattern(0)) == segment_pattern(0),
        rotated(segment_pattern(2)) == segment_pattern(2),
        rotated(segment_pattern(5)) == segment_pattern(5),
        rotated(segment_pattern(8)) == segment_pattern(8),
        rotated(segment_pattern(6)) == segment_pattern(9),
        rotated(segment_pattern(9)) == segment_pattern(6),
        mirrored(segment_pattern(0)) == segment_pattern(0),
        mirrored(segment_pattern(8)) == segment_pattern(8),
        mirrored(segment_pattern(2)) == segment_pattern(5),
        mirrored(segment_pattern(5)) == segment_pattern(2),
        segment_pattern(1) == 0b000_0110,
        segment_pattern(7) == segment_pattern(1) | 0b000_0001,
        segment_pattern(3) == segment_pattern(7) | 0b100_1000,
        segment_pattern(9) == segment_pattern(3) | 0b010_0000,
        segment_pattern(4) == segment_pattern(1) | 0b110_0000,
        segment_pattern(6) == segment_pattern(5) | 0b001_0000,
        segment_pattern(8) == segment_pattern(9) | 0b001_0000,
        segment_pattern(8) == segment_pattern(0) | 0b100_0000,
        segment_pattern(9) & 0b001_0000 == 0,
        segment_pattern(0) & 0b100_0000 == 0,
        segment_pattern(5) & 0b001_0000 == 0,
{
    assert(0x06u8 | 1u8 == 0x07u8 && 0x07u8 | 0x48u8 == 0x4Fu8 && 0x4Fu8 | 0x20u8 == 0x6Fu8 && 0x06u8
        | 0x60u8 == 0x66u8 && 0x6Du8 | 0x10u8 == 0x7Du8 && 0x6Fu8 | 0x10u8 == 0x7Fu8 && 0x3Fu8
        | 0x40u8 == 0x7Fu8 && 0x6Fu8 & 0x10u8 == 0 && 0x3Fu8 & 0x40u8 == 0 && 0x6Du8 & 0x10u8 == 0)
        by (bit_vector);
    assert(rotated(0x3F) == 0x3F && rotated(0x5B) == 0x5B && rotated(0x6D) == 0x6D && rotated(0x7F)
        == 0x7F && rotated(0x7D) == 0x6F && rotated(0x6F) == 0x7D) by (bit_vector);
    assert(mirrored(0x3F) == 0x3F && mirrored(0x7F) == 0x7F && mirrored(0x5B) == 0x6D && mirrored(
        0x6D,
    ) == 0x5B) by (bit_vector);
    assert forall|d: int| 0 <= d < 10 implies #[trigger] segment_pattern(d) & 0x7F == segment_pattern(d) by {
        assert(0x3Fu8 & 0x7F == 0x3F && 0x06u8 & 0x7F == 0x06 && 0x5Bu8 & 0x7F == 0x5B && 0x4Fu8 & 0x7F
            == 0x4F && 0x66u8 & 0x7F == 0x66 && 0x6Du8 & 0x7F == 0x6D && 0x7Du8 & 0x7F == 0x7D
            && 0x07u8 & 0x7F == 0x07 && 0x7Fu8 & 0x7F == 0x7F && 0x6Fu8 & 0x7F == 0x6F) by (bit_vector);
    }
}

} // verus!
