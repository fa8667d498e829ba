//! The 8-byte boot-keyboard HID report and how it is built from the
//! debounced matrix and the active layer.

use vstd::prelude::*;
use crate::keycode::Keycode;
use crate::keymap::{COLS, ROWS, NUM_LAYERS, KeyMatrix, LAYERS, resolved, lookup};

verus! {

/// Number of keycode slots in a boot-keyboard report.
pub const REPORT_SLOTS: usize = 6;

/// Standard USB HID keyboard report (8 bytes).
/// Byte 0: modifier keys bitmask
/// Byte 1: reserved (0x00)
/// Bytes 2-7: up to 6 simultaneous keycodes
#[derive(Clone, Copy, Eq, Debug)]
pub struct KeyboardReport {
    pub modifiers: u8,
    pub reserved: u8,
    pub keys: [u8; 6],
}

impl KeyboardReport {
    /// The report with no key held.
    pub fn empty() -> (r: Self)
        ensures
            r.modifiers == 0,
            r.reserved == 0,
            forall|i: int| 0 <= i < REPORT_SLOTS ==> #[trigger] r.keys[i] == 0,
    {
        KeyboardReport { modifiers: 0, reserved: 0, keys: [0u8; 6] }
    }

    /// The report as it goes on the wire.
    pub fn to_bytes(&self) -> (r: [u8; 8])
        ensures
            r[0] == self.modifiers,
            r[1] == self.reserved,
            forall|i: int| 0 <= i < REPORT_SLOTS ==> #[trigger] r[i + 2] == self.keys[i],
    {
        [
            self.modifiers,
            self.reserved,
            self.keys[0],
            self.keys[1],
            self.keys[2],
            self.keys[3],
            self.keys[4],
            self.keys[5],
        ]
    }
}

impl PartialEq for KeyboardReport {
    fn eq(&self, other: &KeyboardReport) -> (r: bool) {
        let mut same = self.modifiers == other.modifiers && self.reserved == other.reserved;
        let mut i: usize = 0;
        while i < REPORT_SLOTS
            invariant
                i <= REPORT_SLOTS,
                same == (self.modifiers == other.modifiers && self.reserved == other.reserved
                    && forall|j: int| 0 <= j < i ==> #[trigger] self.keys[j] == other.keys[j]),
            decreases REPORT_SLOTS - i,
        {
            same = same && self.keys[i] == other.keys[i];
            i = i + 1;
        }
        proof {
            if same {
                assert(self.keys =~= other.keys);
            }
        }
        same
    }
}

impl vstd::std_specs::cmp::PartialEqSpecImpl for KeyboardReport {
    open spec fn obeys_eq_spec() -> bool {
        true
    }

    open spec fn eq_spec(&self, other: &KeyboardReport) -> bool {
        *self == *other
    }
}

/// The keycode a pressed cell contributes to a report, if any: transparent,
/// layer-hold and error-rollover codes contribute nothing.
pub open spec fn contribution(keys: KeyMatrix, layer: int, row: int, col: int) -> Option<Keycode> {
    let kc = resolved(LAYERS, layer, row, col);
    if keys[row][col] && !kc.spec_is_transparent() && !kc.spec_is_layer() && kc.spec_code()
        != 0x01 {
        Some(kc)
    } else {
        None
    }
}

/// Codes of the non-modifier keys among the cells before `(row, col)` in
/// row-major order, in that order.
pub open spec fn slot_codes(keys: KeyMatrix, layer: int, row: int, col: int) -> Seq<u8>
    decreases row, col,
{
    if col <= 0 {
        if row <= 0 {
            Seq::empty()
        } else {
            slot_codes(keys, layer, row - 1, COLS as int)
        }
    } else {
        let prev = slot_codes(keys, layer, row, col - 1);
        match contribution(keys, layer, row, col - 1) {
            Some(kc) => if kc.spec_is_modifier() {
                prev
            } else {
                prev.push(kc.spec_code())
            },
            None => prev,
        }
    }
}

/// The union of the modifier bits of the cells before `(row, col)`.
pub open spec fn modifier_mask(keys: KeyMatrix, layer: int, row: int, col: int) -> u8
    decreases row, col,
{
    if col <= 0 {
        if row <= 0 {
            0
        } else {
            modifier_mask(keys, layer, row - 1, COLS as int)
        }
    } else {
        let prev = modifier_mask(keys, layer, row, col - 1);
        match contribution(keys, layer, row, col - 1) {
            Some(kc) => if kc.spec_is_modifier() {
                prev | kc.spec_modifier_bit()
            } else {
                prev
            },
            None => prev,
        }
    }
}

/// A byte that may stand in a keycode slot: a key that is not a modifier,
/// a layer hold, transparent or the rollover code.
pub open spec fn slot_code_ok(b: u8) -> bool {
    b > 1 && b < 0xE0 || 0xE7 < b < 0xF0
}

proof fn lemma_slot_codes_ok(keys: KeyMatrix, layer: int, row: int, col: int)
    ensures
        forall|i: int| 0 <= i < slot_codes(keys, layer, row, col).len() ==>
            slot_code_ok(#[trigger] slot_codes(keys, layer, row, col)[i]),
    decreases row, col,
{
    if col <= 0 {
        if row > 0 {
            lemma_slot_codes_ok(keys, layer, row - 1, COLS as int);
            assert(slot_codes(keys, layer, row, col) == slot_codes(keys, layer, row - 1, COLS as int));
        } else {
            assert(slot_codes(keys, layer, row, col).len() == 0);
        }
    } else {
        lemma_slot_codes_ok(keys, layer, row, col - 1);
        let prev = slot_codes(keys, layer, row, col - 1);
        let cur = slot_codes(keys, layer, row, col);
        assert forall|i: int| 0 <= i < cur.len() implies slot_code_ok(#[trigger] cur[i]) by {
            if i < prev.len() {
                assert(cur[i] == prev[i]);
            } else {
                let c = contribution(keys, layer, row, col - 1);
                assert(c is Some);
                let kc = c->0;
                assert(!kc.spec_is_modifier());
                assert(cur[i] == kc.spec_code());
                assert(kc.spec_code() != 0);
                assert(kc.spec_code() < 0xF0);
            }
        }
    }
}

/// Build a HID keyboard report from the debounced key state and active layer:
/// pressed modifiers set their bits, the first six other keys in row-major
/// order fill the slots, and further keys are dropped.
pub fn build_report(keys: &KeyMatrix, layer: usize) -> (r: KeyboardReport)
    requires
        layer < NUM_LAYERS,
    ensures
        r.modifiers == modifier_mask(*keys, layer as int, ROWS as int, 0),
        r.reserved == 0,
        forall|i: int| 0 <= i < REPORT_SLOTS ==> #[trigger] r.keys[i] == if i < slot_codes(
            *keys,
            layer as int,
            ROWS as int,
            0,
        ).len() {
            slot_codes(*keys, layer as int, ROWS as int, 0)[i]
        } else {
            0u8
        },
        forall|i: int| 0 <= i < REPORT_SLOTS ==> #[trigger] r.keys[i] == 0 || slot_code_ok(r.keys[i]),
{
    let mut report = KeyboardReport::empty();
    let mut key_idx: usize = 0;
    let mut row: usize = 0;
    while row < ROWS
        invariant
            row <= ROWS,
            layer < NUM_LAYERS,
            report.reserved == 0,
            report.modifiers == modifier_mask(*keys, layer as int, row as int, 0),
            key_idx == if slot_codes(*keys, layer as int, row as int, 0).len() < REPORT_SLOTS {
                slot_codes(*keys, layer as int, row as int, 0).len() as int
            } else {
                REPORT_SLOTS as int
            },
            forall|i: int| 0 <= i < key_idx ==> #[trigger] report.keys[i] == slot_codes(
                *keys,
                layer as int,
                row as int,
                0,
            )[i],
            forall|i: int| key_idx <= i < REPORT_SLOTS ==> #[trigger] report.keys[i] == 0,
        decreases ROWS - row,
    {
        let mut col: usize = 0;
        while col < COLS
            invariant
                row < ROWS,
                col <= COLS,
                layer < NUM_LAYERS,
                report.reserved == 0,
                report.modifiers == modifier_mask(*keys, layer as int, row as int, col as int),
                key_idx == if slot_codes(*keys, layer as int, row as int, col as int).len() < REPORT_SLOTS {
                    slot_codes(*keys, layer as int, row as int, col as int).len() as int
                } else {
                    REPORT_SLOTS as int
                },
                forall|i: int| 0 <= i < key_idx ==> #[trigger] report.keys[i] == slot_codes(
                    *keys,
                    layer as int,
                    row as int,
                    col as int,
                )[i],
                forall|i: int| key_idx <= i < REPORT_SLOTS ==> #[trigger] report.keys[i] == 0,
            decreases COLS - col,
        {
            if keys[row][col] {
                let kc = lookup(layer, row, col);
                proof {
                    Keycode::lemma_rollover_code(kc);
                }
                if !(kc.is_transparent() || kc.is_layer() || kc == Keycode::ErrorRollover) {
                    if kc.is_modifier() {
                        report.modifiers = report.modifiers | kc.modifier_bit();
                    } else if key_idx < REPORT_SLOTS {
                        report.keys[key_idx] = kc.code();
                        key_idx += 1;
                    }
                }
            }
            col = col + 1;
        }
        assert(slot_codes(*keys, layer as int, row + 1, 0) == slot_codes(*keys, layer as int, row as int, COLS as int));
        assert(modifier_mask(*keys, layer as int, row + 1, 0) == modifier_mask(*keys, layer as int, row as int, COLS as int));
        row = row + 1;
    }
    proof {
        lemma_slot_codes_ok(*keys, layer as int, ROWS as int, 0);
    }
    report
}

} // verus!
