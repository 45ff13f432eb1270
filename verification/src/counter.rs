use vstd::prelude::*;
use crate::bus::BusOp;
use crate::segment::{digit_to_data, segment_pattern, DIGIT_ADDRESS};

verus! {

/// The pause before each digit of a counter frame is refreshed: 500 ms.
pub const DIGIT_PAUSE_NS: u32 = 500_000_000;

/// The counter's next value. The four cells are checked from the right: a
/// cell holding 9 resets to 0 and carries into the cell on its left, except
/// that a 9 in the leftmost cell simply resets it.
pub open spec fn counter_step(c: Seq<u8>) -> Seq<u8> {
    if c[3] == 9 {
        seq![c[0], c[1], (c[2] + 1) as u8, 0u8]
    } else if c[2] == 9 {
        seq![c[0], (c[1] + 1) as u8, 0u8, c[3]]
    } else if c[1] == 9 {
        seq![(c[0] + 1) as u8, 0u8, c[2], c[3]]
    } else if c[0] == 9 {
        seq![0u8, c[1], c[2], c[3]]
    } else {
        seq![c[0], c[1], c[2], (c[3] + 1) as u8]
    }
}

/// The step that `counter_step` takes on `c` increments a cell that is below
/// 255, so that no cell overflows.
pub open spec fn step_fits(c: Seq<u8>) -> bool {
    if c[3] == 9 {
        c[2] < 255
    } else if c[2] == 9 {
        c[1] < 255
    } else if c[1] == 9 {
        c[0] < 255
    } else if c[0] == 9 {
        true
    } else {
        c[3] < 255
    }
}

/// A counter value that the display can show: four decimal digits of which
/// at most one is a nine.
pub open spec fn is_display_state(c: Seq<u8>) -> bool {
    &&& c.len() == 4
    &&& forall|i: int| 0 <= i < 4 ==> #[trigger] c[i] <= 9
    &&& forall|i: int, j: int| 0 <= i < 4 && 0 <= j < 4 && i != j ==> !(#[trigger] c[i] == 9 && #[trigger] c[j] == 9)
}

/// Advances the four-digit counter by one step (see `counter_step`).
pub fn next_counter(ctr: [u8; 4]) -> (next: [u8; 4])
    requires
        step_fits(ctr@),
    ensures
        next@ == counter_step(ctr@),
        ctr[3] == 9 ==> next[0] == ctr[0] && next[1] == ctr[1] && next[2] == ctr[2] + 1 && next[3]
            == 0,
        ctr[3] != 9 && ctr[2] == 9 ==> next[0] == ctr[0] && next[1] == ctr[1] + 1 && next[2] == 0
            && next[3] == ctr[3],
        ctr[3] != 9 && ctr[2] != 9 && ctr[1] == 9 ==> next[0] == ctr[0] + 1 && next[1] == 0
            && next[2] == ctr[2] && next[3] == ctr[3],
        ctr[3] != 9 && ctr[2] != 9 && ctr[1] != 9 && ctr[0] == 9 ==> next[0] == 0 && next[1]
            == ctr[1] && next[2] == ctr[2] && next[3] == ctr[3],
        ctr[3] != 9 && ctr[2] != 9 && ctr[1] != 9 && ctr[0] != 9 ==> next[0] == ctr[0] && next[1]
            == ctr[1] && next[2] == ctr[2] && next[3] == ctr[3] + 1,
{
    let a = ctr[0];
    let b = ctr[1];
    let c = ctr[2];
    let d = ctr[3];
    let next: [u8; 4] = if d == 9 {
        [a, b, c + 1, 0]
    } else if c == 9 {
        [a, b + 1, 0, d]
    } else if b == 9 {
        [a + 1, 0, c, d]
    } else if a == 9 {
        [0, b, c, d]
    } else {
        [a, b, c, d + 1]
    };
    assert(next@ =~= counter_step(ctr@));
    next
}

/// The operations that refresh the display with the counter `c`: before
/// each digit a pause, then the digit's segments at its address.
pub open spec fn frame_ops(c: Seq<u8>) -> Seq<BusOp> {
    Seq::new(
        8,
        |k: int|
            if k % 2 == 0 {
                BusOp::DelayNs { ns: DIGIT_PAUSE_NS }
            } else {
                BusOp::Write1 {
                    address: (DIGIT_ADDRESS + k / 2) as u16,
                    byte: segment_pattern(c[k / 2] as int % 10),
                }
            },
    )
}

/// Refreshes the display with the counter `ctr`, one digit every 500 ms.
pub fn counter_frame(ctr: [u8; 4]) -> (ops: Vec<BusOp>)
    ensures
        ops@ == frame_ops(ctr@),
        ops@.len() == 8,
        forall|i: int|
            #![trigger ctr@[i]]
            0 <= i < 4 ==> ops@[2 * i] == (BusOp::DelayNs { ns: 500_000_000 }) && ops@[2 * i + 1] == (
            BusOp::Write1 { address: (0x34 + i) as u16, byte: segment_pattern(ctr@[i] as int % 10) }),
{
    let mut ops: Vec<BusOp> = Vec::new();
    let mut i: usize = 0;
    while i < 4
        invariant
            i <= 4,
            ops@ == frame_ops(ctr@).take(2 * i as int),
        decreases 4 - i,
    {
        ops.push(BusOp::DelayNs { ns: DIGIT_PAUSE_NS });
        let dig = digit_to_data(ctr[i] as usize);
        let address: u16 = DIGIT_ADDRESS + i as u16;
        ops.push(BusOp::Write1 { address, byte: dig });
        assert(frame_ops(ctr@).take(2 * i + 2) =~= frame_ops(ctr@).take(2 * i as int).push(
            BusOp::DelayNs { ns: DIGIT_PAUSE_NS },
        ).push(BusOp::Write1 { address, byte: dig }));
        i = i + 1;
    }
    assert(frame_ops(ctr@).take(8) =~= frame_ops(ctr@));
    assert forall|i: int| #![trigger ctr@[i]] 0 <= i < 4 implies ops@[2 * i] == (BusOp::DelayNs {
        ns: 500_000_000,
    }) && ops@[2 * i + 1] == (BusOp::Write1 {
        address: (0x34 + i) as u16,
        byte: segment_pattern(ctr@[i] as int % 10),
    }) by {
        assert((2 * i + 1) / 2 == i);
        assert((2 * i) % 2 == 0 && (2 * i + 1) % 2 == 1);
    }
    ops
}

/// From every value that the display can show, a step of the counter fits
/// in its cells and leads to another value that the display can show.
pub proof fn lemma_counter_stays_decimal(c: Seq<u8>)
    requires
        is_display_state(c),
    ensures
        step_fits(c),
        is_display_state(counter_step(c)),
{
    assert(c[0] <= 9 && c[1] <= 9 && c[2] <= 9 && c[3] <= 9);
    let n = counter_step(c);
    assert(n[0] <= 9 && n[1] <= 9 && n[2] <= 9 && n[3] <= 9);
}

} // verus!
