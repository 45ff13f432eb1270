use vstd::prelude::*;
use crate::bus::BusOp;
use vstd::string::StringSliceAdditionalSpecFns;

verus! {

/// Default address of the LCD's I2C backpack.
pub const ADDRESS: u16 = 0x27;

/// Backpack bit that keeps the backlight on.
pub const BACKLIGHT: u8 = 0b0000_1000;

/// Backpack bit wired to the controller's enable (strobe) line.
pub const ENABLE: u8 = 0b0000_0100;

/// Backpack bit wired to the register-select line: set for character data,
/// clear for commands.
pub const REGISTER_SELECT: u8 = 0b0000_0001;

/// How long the enable line is held high: 2 ms.
pub const ENABLE_PULSE_NS: u32 = 2_000_000;

/// Pause after each complete command or character: 100 microseconds.
pub const SETTLE_NS: u32 = 100_000;

/// Command that returns the cursor home and unshifts the display.
pub const RESET: u8 = 0b0000_0010;

/// Command that clears the display.
pub const CLEAR: u8 = 0b0000_0001;

/// Command that switches the display on, with a visible, blinking cursor.
pub const DISPLAY_MODE: u8 = 0b0000_1111;

/// The byte that the backpack receives for the upper-four-bit `nibble`.
pub open spec fn frame(nibble: u8, data: bool) -> u8 {
    nibble | (if data { REGISTER_SELECT } else { 0u8 }) | BACKLIGHT
}

/// The operations that clock one nibble into the controller: the frame with
/// the enable line raised, a pause, then the frame with it lowered.
pub open spec fn nibble_ops(nibble: u8, data: bool) -> Seq<BusOp> {
    let b = frame(nibble, data);
    seq![
        BusOp::Write2 { address: ADDRESS, first: b, second: b | ENABLE },
        BusOp::DelayNs { ns: ENABLE_PULSE_NS },
        BusOp::Write1 { address: ADDRESS, byte: b },
    ]
}

/// The operations that send `byte` in 4-bit mode: the upper nibble, then
/// the lower nibble moved into the upper four bits.
pub open spec fn byte_ops(byte: u8, data: bool) -> Seq<BusOp> {
    nibble_ops(byte & 0xF0, data) + nibble_ops(((byte & 0x0F) << 4u8) as u8, data)
}

/// One command or character followed by the settling pause.
pub open spec fn settled_ops(byte: u8, data: bool) -> Seq<BusOp> {
    byte_ops(byte, data).push(BusOp::DelayNs { ns: SETTLE_NS })
}

/// The operations that send each `(byte, data)` item in turn, each followed
/// by the settling pause.
pub open spec fn transfer_ops(items: Seq<(u8, bool)>) -> Seq<BusOp>
    decreases items.len(),
{
    if items.len() == 0 {
        Seq::empty()
    } else {
        transfer_ops(items.drop_last()) + settled_ops(items.last().0, items.last().1)
    }
}

/// The characters of `text`, each marked as data.
pub open spec fn as_data(text: Seq<u8>) -> Seq<(u8, bool)> {
    text.map_values(|b: u8| (b, true))
}

/// The operations that print the characters `text` at the cursor.
pub open spec fn text_ops(text: Seq<u8>) -> Seq<BusOp> {
    transfer_ops(as_data(text))
}

/// The three commands that start a message: reset, clear, display mode.
pub open spec fn init_commands() -> Seq<(u8, bool)> {
    seq![(RESET, false), (CLEAR, false), (DISPLAY_MODE, false)]
}

/// The operations that reset and clear the display and set its mode.
pub open spec fn init_ops() -> Seq<BusOp> {
    transfer_ops(init_commands())
}

/// The bytes that `op` hands to the LCD's backpack.
pub open spec fn backpack_payload(op: BusOp) -> Seq<u8> {
    match op {
        BusOp::Write1 { address, byte } => if address == ADDRESS {
            seq![byte]
        } else {
            Seq::empty()
        },
        BusOp::Write2 { address, first, second } => if address == ADDRESS {
            seq![first, second]
        } else {
            Seq::empty()
        },
        BusOp::DelayNs { .. } => Seq::empty(),
    }
}

/// The successive outputs of the backpack under a sequence of operations.
pub open spec fn wire_bytes(ops: Seq<BusOp>) -> Seq<u8>
    decreases ops.len(),
{
    if ops.len() == 0 {
        Seq::empty()
    } else {
        wire_bytes(ops.drop_last()) + backpack_payload(ops.last())
    }
}

/// The outputs that the controller latches: each output whose enable bit
/// is clear while the output before it had it set, a falling edge of the
/// strobe.
pub open spec fn strobed(w: Seq<u8>) -> Seq<u8>
    decreases w.len(),
{
    if w.len() < 2 {
        Seq::empty()
    } else {
        strobed(w.drop_last()) + if w[w.len() - 2] & ENABLE != 0 && w.last() & ENABLE == 0 {
            seq![w.last()]
        } else {
            Seq::empty()
        }
    }
}

/// The byte, and whether it is data, that the controller forms from two
/// latched outputs: their upper four bits, high nibble first, with the
/// register-select line as it stood for the first.
pub open spec fn assemble(high: u8, low: u8) -> (u8, bool) {
    ((high & 0xF0) | (low >> 4u8), high & REGISTER_SELECT == REGISTER_SELECT)
}

/// The bytes that the controller forms from latched outputs, two by two.
pub open spec fn assembled(f: Seq<u8>) -> Seq<(u8, bool)>
    decreases f.len(),
{
    if f.len() < 2 {
        Seq::empty()
    } else {
        assembled(f.take(f.len() - 2)).push(assemble(f[f.len() - 2], f[f.len() - 1]))
    }
}

/// What the LCD controller receives, in 4-bit mode, from a sequence of bus
/// operations: each byte with whether it was sent as data or as a command.
pub open spec fn received(ops: Seq<BusOp>) -> Seq<(u8, bool)> {
    assembled(strobed(wire_bytes(ops)))
}

proof fn lemma_wire_append(a: Seq<BusOp>, b: Seq<BusOp>)
    ensures
        wire_bytes(a + b) == wire_bytes(a) + wire_bytes(b),
    decreases b.len(),
{
    if b.len() == 0 {
        assert(a + b =~= a);
        assert(wire_bytes(a) + wire_bytes(b) =~= wire_bytes(a));
    } else {
        assert((a + b).drop_last() =~= a + b.drop_last());
        assert((a + b).last() == b.last());
        lemma_wire_append(a, b.drop_last());
        assert(wire_bytes(a + b) =~= wire_bytes(a) + wire_bytes(b));
    }
}

proof fn lemma_strobed_append(x: Seq<u8>, y: Seq<u8>)
    requires
        x.len() == 0 || x.last() & ENABLE == 0,
    ensures
        strobed(x + y) == strobed(x) + strobed(y),
    decreases y.len(),
{
    if x.len() == 0 {
        assert(x + y =~= y);
        assert(strobed(x) =~= Seq::<u8>::empty());
        assert(strobed(x) + strobed(y) =~= strobed(y));
    } else if y.len() == 0 {
        assert(x + y =~= x);
        assert(strobed(y) =~= Seq::<u8>::empty());
        assert(strobed(x) + strobed(y) =~= strobed(x));
    } else if y.len() == 1 {
        let w = x + y;
        assert(w.drop_last() =~= x);
        assert(w[w.len() - 2] == x.last());
        assert(strobed(y) =~= Seq::<u8>::empty());
        assert(strobed(w) =~= strobed(x) + strobed(y));
    } else {
        let w = x + y;
        assert(w.drop_last() =~= x + y.drop_last());
        assert(w[w.len() - 2] == y[y.len() - 2]);
        assert(w.last() == y.last());
        lemma_strobed_append(x, y.drop_last());
        assert(strobed(w) =~= strobed(x) + strobed(y));
    }
}

proof fn lemma_assembled_append(x: Seq<u8>, y: Seq<u8>)
    requires
        x.len() % 2 == 0,
        y.len() % 2 == 0,
    ensures
        assembled(x + y) == assembled(x) + assembled(y),
    decreases y.len(),
{
    if y.len() == 0 {
        assert(x + y =~= x);
        assert(assembled(x) + assembled(y) =~= assembled(x));
    } else {
        let f = x + y;
        assert(f.take(f.len() - 2) =~= x + y.take(y.len() - 2));
        assert(f[f.len() - 2] == y[y.len() - 2]);
        assert(f[f.len() - 1] == y[y.len() - 1]);
        lemma_assembled_append(x, y.take(y.len() - 2));
        assert(assembled(f) =~= assembled(x) + assembled(y));
    }
}

proof fn lemma_frame_bits(b: u8, data: bool)
    ensures
        frame(b & 0xF0, data) & ENABLE == 0,
        (frame(b & 0xF0, data) | ENABLE) & ENABLE != 0,
        frame(((b & 0x0F) << 4u8) as u8, data) & ENABLE == 0,
        (frame(((b & 0x0F) << 4u8) as u8, data) | ENABLE) & ENABLE != 0,
        assemble(frame(b & 0xF0, data), frame(((b & 0x0F) << 4u8) as u8, data)) == (b, data),
{
    if data {
        assert(
            (((b & 0xF0) | 1u8 | 8u8) & 4u8 == 0) &&
            ((((b & 0xF0) | 1u8 | 8u8) | 4u8) & 4u8 != 0) &&
            (((((b & 0x0F) << 4u8) as u8) | 1u8 | 8u8) & 4u8 == 0) &&
            ((((((b & 0x0F) << 4u8) as u8) | 1u8 | 8u8) | 4u8) & 4u8 != 0) &&
            (((((b & 0xF0) | 1u8 | 8u8) & 0xF0) | (((((b & 0x0F) << 4u8) as u8) | 1u8 | 8u8) >> 4u8)) == b) &&
            (((b & 0xF0) | 1u8 | 8u8) & 1u8 == 1u8)
        ) by (bit_vector);
    } else {
        assert(
            (((b & 0xF0) | 0u8 | 8u8) & 4u8 == 0) &&
            ((((b & 0xF0) | 0u8 | 8u8) | 4u8) & 4u8 != 0) &&
            (((((b & 0x0F) << 4u8) as u8) | 0u8 | 8u8) & 4u8 == 0) &&
            ((((((b & 0x0F) << 4u8) as u8) | 0u8 | 8u8) | 4u8) & 4u8 != 0) &&
            (((((b & 0xF0) | 0u8 | 8u8) & 0xF0) | (((((b & 0x0F) << 4u8) as u8) | 0u8 | 8u8) >> 4u8)) == b) &&
            (((b & 0xF0) | 0u8 | 8u8) & 1u8 != 1u8)
        ) by (bit_vector);
    }
}

proof fn lemma_nibble_wire(nibble: u8, data: bool)
    ensures
        wire_bytes(nibble_ops(nibble, data)) == seq![
            frame(nibble, data),
            frame(nibble, data) | ENABLE,
            frame(nibble, data),
        ],
{
    let ops = nibble_ops(nibble, data);
    reveal_with_fuel(wire_bytes, 4);
    assert(ops.drop_last().drop_last().drop_last() =~= Seq::<BusOp>::empty());
    assert(wire_bytes(ops.drop_last().drop_last()) =~= seq![frame(nibble, data), frame(nibble, data) | ENABLE]);
    assert(wire_bytes(ops) =~= seq![frame(nibble, data), frame(nibble, data) | ENABLE, frame(nibble, data)]);
}

proof fn lemma_settled_received(b: u8, data: bool)
    ensures
        ({
            let w = wire_bytes(settled_ops(b, data));
            &&& w.len() > 0
            &&& w.last() & ENABLE == 0
            &&& strobed(w).len() == 2
            &&& assembled(strobed(w)) == seq![(b, data)]
        }),
{
    let hi = frame(b & 0xF0, data);
    let lo = frame(((b & 0x0F) << 4u8) as u8, data);
    lemma_frame_bits(b, data);
    lemma_nibble_wire(b & 0xF0, data);
    lemma_nibble_wire(((b & 0x0F) << 4u8) as u8, data);
    lemma_wire_append(nibble_ops(b & 0xF0, data), nibble_ops(((b & 0x0F) << 4u8) as u8, data));
    let settle = seq![BusOp::DelayNs { ns: SETTLE_NS }];
    assert(settled_ops(b, data) =~= byte_ops(b, data) + settle);
    lemma_wire_append(byte_ops(b, data), settle);
    reveal_with_fuel(wire_bytes, 2);
    assert(settle.drop_last() =~= Seq::<BusOp>::empty());
    assert(wire_bytes(settle) =~= Seq::<u8>::empty());
    let w = wire_bytes(settled_ops(b, data));
    assert(w =~= seq![hi, hi | ENABLE, hi, lo, lo | ENABLE, lo]);
    reveal_with_fuel(strobed, 6);
    assert(w.drop_last() =~= seq![hi, hi | ENABLE, hi, lo, lo | ENABLE]);
    assert(w.drop_last().drop_last() =~= seq![hi, hi | ENABLE, hi, lo]);
    assert(w.drop_last().drop_last().drop_last() =~= seq![hi, hi | ENABLE, hi]);
    assert(w.drop_last().drop_last().drop_last().drop_last() =~= seq![hi, hi | ENABLE]);
    assert(seq![hi, hi | ENABLE].drop_last() =~= seq![hi]);
    assert(strobed(seq![hi, hi | ENABLE]) =~= Seq::<u8>::empty());
    assert(strobed(seq![hi, hi | ENABLE, hi]) =~= seq![hi]);
    assert(strobed(seq![hi, hi | ENABLE, hi, lo]) =~= seq![hi]);
    assert(strobed(seq![hi, hi | ENABLE, hi, lo, lo | ENABLE]) =~= seq![hi]);
    assert(strobed(w) =~= seq![hi, lo]);
    reveal_with_fuel(assembled, 2);
    assert(seq![hi, lo].take(0) =~= Seq::<u8>::empty());
    assert(assembled(seq![hi, lo]) =~= seq![(b, data)]);
}

proof fn lemma_transfer_wire(items: Seq<(u8, bool)>)
    ensures
        ({
            let w = wire_bytes(transfer_ops(items));
            &&& w.len() == 0 || w.last() & ENABLE == 0
            &&& strobed(w).len() == 2 * items.len()
            &&& assembled(strobed(w)) == items
        }),
    decreases items.len(),
{
    if items.len() == 0 {
        assert(wire_bytes(transfer_ops(items)) =~= Seq::<u8>::empty());
        assert(strobed(Seq::<u8>::empty()) =~= Seq::<u8>::empty());
        assert(assembled(Seq::<u8>::empty()) =~= items);
    } else {
        let front = items.drop_last();
        let (b, data) = items.last();
        lemma_transfer_wire(front);
        lemma_settled_received(b, data);
        lemma_wire_append(transfer_ops(front), settled_ops(b, data));
        let x = wire_bytes(transfer_ops(front));
        let y = wire_bytes(settled_ops(b, data));
        lemma_strobed_append(x, y);
        lemma_assembled_append(strobed(x), strobed(y));
        assert((x + y).last() == y.last());
        assert(items =~= front.push((b, data)));
        assert(assembled(strobed(x + y)) =~= items);
    }
}

proof fn lemma_transfer_append(a: Seq<(u8, bool)>, b: Seq<(u8, bool)>)
    ensures
        transfer_ops(a + b) == transfer_ops(a) + transfer_ops(b),
    decreases b.len(),
{
    if b.len() == 0 {
        assert(a + b =~= a);
        assert(transfer_ops(a) + transfer_ops(b) =~= transfer_ops(a));
    } else {
        assert((a + b).drop_last() =~= a + b.drop_last());
        assert((a + b).last() == b.last());
        lemma_transfer_append(a, b.drop_last());
        assert(transfer_ops(a + b) =~= transfer_ops(a) + transfer_ops(b));
    }
}

/// Whatever bytes are sent, as data or as commands, the controller receives
/// exactly those bytes, each in the register it was meant for.
pub proof fn lemma_transfer_received(items: Seq<(u8, bool)>)
    ensures
        received(transfer_ops(items)) == items,
{
    lemma_transfer_wire(items);
}

/// Whatever text is printed, the controller receives exactly its bytes, as
/// character data.
pub proof fn lemma_text_received(text: Seq<u8>)
    ensures
        received(text_ops(text)) == as_data(text),
{
    lemma_transfer_received(as_data(text));
}

/// Whether every byte that `op` hands to the backpack keeps the backlight
/// on.
pub open spec fn backlit(op: BusOp) -> bool {
    match op {
        BusOp::Write1 { byte, .. } => byte & BACKLIGHT == BACKLIGHT,
        BusOp::Write2 { first, second, .. } => first & BACKLIGHT == BACKLIGHT && second & BACKLIGHT
            == BACKLIGHT,
        BusOp::DelayNs { .. } => true,
    }
}

proof fn lemma_frame_backlit(nibble: u8, data: bool)
    ensures
        frame(nibble, data) & BACKLIGHT == BACKLIGHT,
        (frame(nibble, data) | ENABLE) & BACKLIGHT == BACKLIGHT,
{
    let rs: u8 = if data { REGISTER_SELECT } else { 0u8 };
    assert((nibble | rs | 8u8) & 8u8 == 8u8 && ((nibble | rs | 8u8) | 4u8) & 8u8 == 8u8) by (bit_vector);
}

/// Every byte sent to the LCD, command or data, keeps the backlight on.
pub proof fn lemma_backlight_stays_on(items: Seq<(u8, bool)>)
    ensures
        forall|k: int| 0 <= k < transfer_ops(items).len() ==> backlit(#[trigger] transfer_ops(items)[k]),
    decreases items.len(),
{
    if items.len() > 0 {
        let front = items.drop_last();
        let (b, data) = items.last();
        lemma_backlight_stays_on(front);
        lemma_frame_backlit(b & 0xF0, data);
        lemma_frame_backlit(((b & 0x0F) << 4u8) as u8, data);
        let prefix = transfer_ops(front);
        let tail = settled_ops(b, data);
        assert forall|k: int| 0 <= k < transfer_ops(items).len() implies backlit(
            #[trigger] transfer_ops(items)[k],
        ) by {
            if k >= prefix.len() {
                assert(transfer_ops(items)[k] == tail[k - prefix.len()]);
            } else {
                assert(transfer_ops(items)[k] == prefix[k]);
            }
        }
    }
}


/// The bits that every backpack byte for a `data` (or command) transfer
/// carries: enable low, backlight on, bit 1 clear, and register-select set
/// exactly for data.
pub open spec fn frame_bits_ok(f: u8, data: bool) -> bool {
    &&& f & ENABLE == 0
    &&& f & BACKLIGHT == BACKLIGHT
    &&& f & 0x02 == 0
    &&& (f & REGISTER_SELECT == REGISTER_SELECT) == data
}

/// Operation `k` of `ops`, which sends the items `items` seven operations
/// per item, is well formed: every write goes to the backpack with the
/// right bits for its item, and every two-byte write raises the enable line
/// over its first byte and is followed, two operations later, by the write
/// that lowers it again.
pub open spec fn well_strobed(ops: Seq<BusOp>, items: Seq<(u8, bool)>, k: int) -> bool {
    match ops[k] {
        BusOp::Write2 { address, first, second } => {
            &&& address == ADDRESS
            &&& second == first | ENABLE
            &&& frame_bits_ok(first, items[k / 7].1)
            &&& k + 2 < ops.len()
            &&& ops[k + 2] == BusOp::Write1 { address: ADDRESS, byte: first }
        },
        BusOp::Write1 { address, byte } => {
            &&& address == ADDRESS
            &&& frame_bits_ok(byte, items[k / 7].1)
        },
        BusOp::DelayNs { .. } => true,
    }
}

proof fn lemma_frame_bits_ok(b: u8, data: bool)
    ensures
        frame_bits_ok(frame(b & 0xF0, data), data),
        frame_bits_ok(frame(((b & 0x0F) << 4u8) as u8, data), data),
{
    if data {
        assert(((b & 0xF0) | 1u8 | 8u8) & 4u8 == 0 && ((b & 0xF0) | 1u8 | 8u8) & 8u8 == 8u8 && ((b
            & 0xF0) | 1u8 | 8u8) & 2u8 == 0 && ((b & 0xF0) | 1u8 | 8u8) & 1u8 == 1u8 && ((((b & 0x0F)
            << 4u8) as u8) | 1u8 | 8u8) & 4u8 == 0 && ((((b & 0x0F) << 4u8) as u8) | 1u8 | 8u8) & 8u8
            == 8u8 && ((((b & 0x0F) << 4u8) as u8) | 1u8 | 8u8) & 2u8 == 0 && ((((b & 0x0F) << 4u8)
            as u8) | 1u8 | 8u8) & 1u8 == 1u8) by (bit_vector);
    } else {
        assert(((b & 0xF0) | 0u8 | 8u8) & 4u8 == 0 && ((b & 0xF0) | 0u8 | 8u8) & 8u8 == 8u8 && ((b
            & 0xF0) | 0u8 | 8u8) & 2u8 == 0 && ((b & 0xF0) | 0u8 | 8u8) & 1u8 != 1u8 && ((((b & 0x0F)
            << 4u8) as u8) | 0u8 | 8u8) & 4u8 == 0 && ((((b & 0x0F) << 4u8) as u8) | 0u8 | 8u8) & 8u8
            == 8u8 && ((((b & 0x0F) << 4u8) as u8) | 0u8 | 8u8) & 2u8 == 0 && ((((b & 0x0F) << 4u8)
            as u8) | 0u8 | 8u8) & 1u8 != 1u8) by (bit_vector);
    }
}

proof fn lemma_transfer_frames(items: Seq<(u8, bool)>)
    ensures
        transfer_ops(items).len() == 7 * items.len(),
        forall|k: int|
            0 <= k < transfer_ops(items).len() ==> well_strobed(
                transfer_ops(items),
                items,
                k,
            ),
    decreases items.len(),
{
    if items.len() > 0 {
        let front = items.drop_last();
        let (b, data) = items.last();
        lemma_transfer_frames(front);
        lemma_frame_bits_ok(b, data);
        let prefix = transfer_ops(front);
        let tail = settled_ops(b, data);
        let ops = transfer_ops(items);
        let n = front.len();
        assert(tail.len() == 7);
        assert forall|k: int| 0 <= k < ops.len() implies well_strobed(ops, items, k) by {
            if k >= prefix.len() {
                let j = k - 7 * n;
                assert(0 <= j < 7);
                assert(k / 7 == n) by (nonlinear_arith)
                    requires
                        k == 7 * n + j,
                        0 <= j < 7,
                ;
                assert(ops[k] == tail[j]);
                if j == 0 || j == 3 {
                    assert(ops[k + 2] == tail[j + 2]);
                }
            } else {
                assert(ops[k] == prefix[k]);
                assert(k / 7 < n) by (nonlinear_arith)
                    requires
                        0 <= k < 7 * n,
                ;
                assert(k / 7 >= 0) by (nonlinear_arith)
                    requires
                        0 <= k,
                ;
                assert(items[k / 7] == front[k / 7]);
                assert(well_strobed(prefix, front, k));
                if ops[k] is Write2 {
                    assert(ops[k + 2] == prefix[k + 2]);
                }
            }
        }
    }
}

/// The `(byte, data)` items that writing `text` as a message sends: the
/// three commands, then the text's bytes as data.
pub open spec fn message_items(text: Seq<u8>) -> Seq<(u8, bool)> {
    init_commands() + as_data(text)
}

/// The operations that `write_message` produces for `text` take seven per
/// command or character; every write goes to the backpack with the
/// backlight on, bit 1 clear and the enable line low, and every two-byte
/// write raises the enable line over the same byte and is lowered two
/// operations later; the register-select bit is set exactly in the frames
/// of the message's characters, after the three commands.
pub proof fn lemma_write_message_frames(text: Seq<u8>)
    ensures
        ({
            let ops = init_ops() + text_ops(text);
            &&& ops.len() == 7 * (3 + text.len())
            &&& forall|k: int| 0 <= k < ops.len() ==> well_strobed(ops, message_items(text), k)
            &&& forall|j: int|
                0 <= j < message_items(text).len() ==> (#[trigger] message_items(text)[j]).1 == (j
                    >= 3)
        }),
{
    lemma_transfer_append(init_commands(), as_data(text));
    lemma_transfer_frames(message_items(text));
}

/// The controller receives, from the operations that `write_message`
/// produces, the reset, clear and display-mode commands followed by the
/// message's bytes as character data.
pub proof fn lemma_write_message_received(text: Seq<u8>)
    ensures
        received(init_ops() + text_ops(text)) == message_items(text),
{
    lemma_transfer_append(init_commands(), as_data(text));
    lemma_transfer_received(message_items(text));
}


proof fn lemma_transfer_index(items: Seq<(u8, bool)>, j: int, r: int)
    requires
        0 <= j < items.len(),
        0 <= r < 7,
    ensures
        transfer_ops(items).len() == 7 * items.len(),
        transfer_ops(items)[7 * j + r] == settled_ops(items[j].0, items[j].1)[r],
    decreases items.len(),
{
    lemma_transfer_frames(items);
    let front = items.drop_last();
    lemma_transfer_frames(front);
    let prefix = transfer_ops(front);
    let (b, data) = items.last();
    let tail = settled_ops(b, data);
    assert(transfer_ops(items) == prefix + tail);
    if j == items.len() - 1 {
        assert(7 * j == prefix.len());
        assert(transfer_ops(items)[7 * j + r] == tail[r]);
    } else {
        lemma_transfer_index(front, j, r);
        assert(7 * j + r < 7 * front.len()) by (nonlinear_arith)
            requires
                j < front.len(),
                r < 7,
        ;
        assert(transfer_ops(items)[7 * j + r] == prefix[7 * j + r]);
        assert(items[j] == front[j]);
    }
}

proof fn lemma_data_frames(b: u8)
    ensures
        settled_ops(b, true)[0] == (BusOp::Write2 {
            address: 0x27,
            first: (b & 0xF0) | 0x09,
            second: (b & 0xF0) | 0x0D,
        }),
        settled_ops(b, true)[3] == (BusOp::Write2 {
            address: 0x27,
            first: ((b & 0x0F) << 4u8) | 0x09,
            second: ((b & 0x0F) << 4u8) | 0x0D,
        }),
{
    assert(((b & 0xF0) | 1u8 | 8u8) == (b & 0xF0) | 0x09 && (((b & 0xF0) | 1u8 | 8u8) | 4u8) == (b
        & 0xF0) | 0x0D && ((((b & 0x0F) << 4u8) as u8) | 1u8 | 8u8) == ((b & 0x0F) << 4u8) | 0x09
        && (((((b & 0x0F) << 4u8) as u8) | 1u8 | 8u8) | 4u8) == ((b & 0x0F) << 4u8) | 0x0D)
        by (bit_vector);
}

/// Printing `text` puts each of its bytes, unchanged, on the wire as data:
/// character `i` takes operations `7 * i` to `7 * i + 6`, whose two strobed
/// frames carry its upper and then its lower four bits with register-select
/// and backlight set, and the controller receives exactly `text[i]` as data.
pub proof fn lemma_text_bytes(text: Seq<u8>)
    ensures
        ({
            let ops = text_ops(text);
            &&& ops.len() == 7 * text.len()
            &&& forall|i: int|
                #![trigger text[i]]
                0 <= i < text.len() ==> ops[7 * i] == (BusOp::Write2 {
                    address: 0x27,
                    first: (text[i] & 0xF0) | 0x09,
                    second: (text[i] & 0xF0) | 0x0D,
                }) && ops[7 * i + 3] == (BusOp::Write2 {
                    address: 0x27,
                    first: ((text[i] & 0x0F) << 4u8) | 0x09,
                    second: ((text[i] & 0x0F) << 4u8) | 0x0D,
                })
            &&& received(ops).len() == text.len()
            &&& forall|i: int| #![trigger text[i]] 0 <= i < text.len() ==> received(ops)[i] == (text[i], true)
        }),
{
    let items = as_data(text);
    lemma_transfer_frames(items);
    lemma_transfer_received(items);
    assert forall|i: int| #![trigger text[i]] 0 <= i < text.len() implies text_ops(text)[7 * i] == (
    BusOp::Write2 {
        address: 0x27,
        first: (text[i] & 0xF0) | 0x09,
        second: (text[i] & 0xF0) | 0x0D,
    }) && text_ops(text)[7 * i + 3] == (BusOp::Write2 {
        address: 0x27,
        first: ((text[i] & 0x0F) << 4u8) | 0x09,
        second: ((text[i] & 0x0F) << 4u8) | 0x0D,
    }) && received(text_ops(text))[i] == (text[i], true) by {
        lemma_transfer_index(items, i, 0);
        lemma_transfer_index(items, i, 3);
        assert(items[i] == (text[i], true));
        lemma_data_frames(text[i]);
    }
}

/// Writing `text` as a message: the controller first receives the reset
/// (0x02), clear (0x01) and display-mode (0x0F) commands, then each byte of
/// `text`, unchanged, as data; character `i` starts at operation
/// `21 + 7 * i` with the strobed frame of its upper four bits.
pub proof fn lemma_write_message_bytes(text: Seq<u8>)
    ensures
        ({
            let ops = init_ops() + text_ops(text);
            &&& ops.len() == 7 * (text.len() + 3)
            &&& forall|i: int|
                #![trigger text[i]]
                0 <= i < text.len() ==> ops[21 + 7 * i] == (BusOp::Write2 {
                    address: 0x27,
                    first: (text[i] & 0xF0) | 0x09,
                    second: (text[i] & 0xF0) | 0x0D,
                }) && ops[24 + 7 * i] == (BusOp::Write2 {
                    address: 0x27,
                    first: ((text[i] & 0x0F) << 4u8) | 0x09,
                    second: ((text[i] & 0x0F) << 4u8) | 0x0D,
                })
            &&& received(ops).len() == text.len() + 3
            &&& received(ops)[0] == (0x02u8, false)
            &&& received(ops)[1] == (0x01u8, false)
            &&& received(ops)[2] == (0x0Fu8, false)
            &&& forall|i: int|
                #![trigger text[i]]
                0 <= i < text.len() ==> received(ops)[3 + i] == (text[i], true)
        }),
{
    lemma_transfer_frames(init_commands());
    lemma_text_bytes(text);
    lemma_write_message_received(text);
    let ops = init_ops() + text_ops(text);
    assert(init_ops().len() == 21);
    assert forall|i: int| #![trigger text[i]] 0 <= i < text.len() implies ops[21 + 7 * i] == (
    BusOp::Write2 {
        address: 0x27,
        first: (text[i] & 0xF0) | 0x09,
        second: (text[i] & 0xF0) | 0x0D,
    }) && ops[24 + 7 * i] == (BusOp::Write2 {
        address: 0x27,
        first: ((text[i] & 0x0F) << 4u8) | 0x09,
        second: ((text[i] & 0x0F) << 4u8) | 0x0D,
    }) && received(ops)[3 + i] == (text[i], true) by {
        assert(ops[21 + 7 * i] == text_ops(text)[7 * i]);
        assert(ops[24 + 7 * i] == text_ops(text)[7 * i + 3]);
        assert(message_items(text)[3 + i] == as_data(text)[i]);
    }
}

/// Clocks the upper-four-bit `nibble` into the controller, as data or as a
/// command.
pub fn write_nibble(ops: &mut Vec<BusOp>, nibble: u8, data: bool)
    ensures
        final(ops)@ == old(ops)@ + nibble_ops(nibble, data),
{
    let rs = match data {
        false => 0u8,
        true => REGISTER_SELECT,
    };
    let byte = nibble | rs | BACKLIGHT;

    ops.push(BusOp::Write2 { address: ADDRESS, first: byte, second: byte | ENABLE });
    ops.push(BusOp::DelayNs { ns: ENABLE_PULSE_NS });
    ops.push(BusOp::Write1 { address: ADDRESS, byte });
    assert(ops@ =~= old(ops)@ + nibble_ops(nibble, data));
}

/// Sends `byte` to the controller in 4-bit mode, as data or as a command.
pub fn write(ops: &mut Vec<BusOp>, byte: u8, data: bool)
    ensures
        final(ops)@ == old(ops)@ + byte_ops(byte, data),
{
    let upper_nibble = byte & 0xF0;
    write_nibble(ops, upper_nibble, data);

    let lower_nibble = (byte & 0x0F) << 4;
    write_nibble(ops, lower_nibble, data);
    assert(ops@ =~= old(ops)@ + byte_ops(byte, data));
}

/// Sends `byte` and waits for the controller to settle.
fn write_settled(ops: &mut Vec<BusOp>, byte: u8, data: bool)
    ensures
        final(ops)@ == old(ops)@ + settled_ops(byte, data),
{
    write(ops, byte, data);
    ops.push(BusOp::DelayNs { ns: SETTLE_NS });
    assert(ops@ =~= old(ops)@ + settled_ops(byte, data));
}

/// Prints the bytes of `text` at the cursor, one settled character each.
fn write_bytes(ops: &mut Vec<BusOp>, text: &[u8])
    ensures
        final(ops)@ == old(ops)@ + text_ops(text@),
{
    let mut i: usize = 0;
    while i < text.len()
        invariant
            i <= text@.len(),
            ops@ == old(ops)@ + text_ops(text@.take(i as int)),
        decreases text@.len() - i,
    {
        write_settled(ops, text[i], true);
        assert(as_data(text@.take(i + 1)).drop_last() =~= as_data(text@.take(i as int)));
        assert(ops@ =~= old(ops)@ + text_ops(text@.take(i + 1)));
        i = i + 1;
    }
    assert(text@.take(text@.len() as int) =~= text@);
}

/// Prints `text` at the cursor, one character per byte of its UTF-8
/// encoding.
pub fn write_text(text: &str) -> (ops: Vec<BusOp>)
    ensures
        ops@ == text_ops(text.spec_bytes()),
        received(ops@).len() == text.spec_bytes().len(),
        forall|i: int|
            0 <= i < text.spec_bytes().len() ==> received(ops@)[i] == (text.spec_bytes()[i], true),
{
    let mut ops: Vec<BusOp> = Vec::new();
    write_bytes(&mut ops, text.as_bytes());
    assert(ops@ =~= text_ops(text.spec_bytes()));
    proof {
        let t = text.spec_bytes();
        lemma_text_bytes(t);
        assert forall|i: int| 0 <= i < t.len() implies received(ops@)[i] == (t[i], true) by {
            assert(t[i] == t[i]);
        }
    }
    ops
}

/// Resets and clears the display, switches it on with a blinking cursor,
/// then prints `message`.
pub fn write_message(message: &str) -> (ops: Vec<BusOp>)
    ensures
        ops@ == init_ops() + text_ops(message.spec_bytes()),
        received(ops@).len() == message.spec_bytes().len() + 3,
        received(ops@)[0] == (0x02u8, false),
        received(ops@)[1] == (0x01u8, false),
        received(ops@)[2] == (0x0Fu8, false),
        forall|i: int|
            0 <= i < message.spec_bytes().len() ==> received(ops@)[3 + i] == (
            message.spec_bytes()[i],
            true,
        ),
{
    let mut ops: Vec<BusOp> = Vec::new();
    // reset
    write_settled(&mut ops, RESET, false);
    // clear
    write_settled(&mut ops, CLEAR, false);
    // set display mode
    write_settled(&mut ops, DISPLAY_MODE, false);
    proof {
        let c = init_commands();
        assert(c.drop_last().drop_last().drop_last() =~= Seq::<(u8, bool)>::empty());
        assert(c.drop_last().drop_last() =~= seq![(RESET, false)]);
        assert(c.drop_last() =~= seq![(RESET, false), (CLEAR, false)]);
        assert(transfer_ops(Seq::<(u8, bool)>::empty()) =~= Seq::<BusOp>::empty());
        assert(seq![(RESET, false)].drop_last() =~= Seq::<(u8, bool)>::empty());
        assert(transfer_ops(c.drop_last().drop_last()) =~= settled_ops(RESET, false));
        assert(transfer_ops(c.drop_last()) =~= settled_ops(RESET, false) + settled_ops(CLEAR, false));
    }
    assert(ops@ =~= init_ops());
    write_bytes(&mut ops, message.as_bytes());
    proof {
        let t = message.spec_bytes();
        lemma_write_message_bytes(t);
        assert forall|i: int| 0 <= i < t.len() implies received(ops@)[3 + i] == (t[i], true) by {
            assert(t[i] == t[i]);
        }
    }
    ops
}

/// Prints "hello world" at the cursor, without resetting the display first.
pub fn hello_world() -> (ops: Vec<BusOp>)
    ensures
        ops@ == text_ops("hello world".spec_bytes()),
{
    write_text("hello world")
}

} // verus!
