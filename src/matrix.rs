//! Pin mapping of the directly wired half of the matrix, and how column
//! readings become a matrix snapshot. Snapshots are active-low: `true`
//! means not pressed.

use vstd::prelude::*;
use crate::keymap::{COLS, ROWS, COLS_PER_HALF, KeyMatrix};

verus! {

/// Drive pins on PORTB: PB0..PB3.
pub const DRIVE_MASK_B: u8 = 0x0F;
/// Drive pins on PORTD: PD2, PD3.
pub const DRIVE_MASK_D: u8 = 0x0C;
/// Read pins on PORTF: PF0, PF1, PF4..PF7.
pub const READ_MASK_F: u8 = 0xF3;
/// Read pin on PORTB: PB6.
pub const READ_MASK_B: u8 = 0x40;
/// Status LED on PORTD: PD6.
pub const LED_MASK_D: u8 = 0x40;
/// Number of drive pins of the directly wired half.
pub const DRIVE_PINS: usize = 6;

/// Bit `i` of `x`.
pub open spec fn bit(x: u8, i: u8) -> bool {
    (x >> i) & 1 == 1
}

/// Gather the seven read pins into one byte, bit `i` for read pin `i`:
/// PF0, PF1, PF4, PF5, PF6, PF7, then PB6. Active low.
pub fn read_pins(pinf: u8, pinb: u8) -> (r: u8)
    ensures
        bit(r, 0) == bit(pinf, 0),
        bit(r, 1) == bit(pinf, 1),
        bit(r, 2) == bit(pinf, 4),
        bit(r, 3) == bit(pinf, 5),
        bit(r, 4) == bit(pinf, 6),
        bit(r, 5) == bit(pinf, 7),
        bit(r, 6) == bit(pinb, 6),
        !bit(r, 7),
{
    let p0 = pinf & 1;
    let p1 = (pinf >> 1) & 1;
    let p2 = (pinf >> 4) & 1;
    let p3 = (pinf >> 5) & 1;
    let p4 = (pinf >> 6) & 1;
    let p5 = (pinf >> 7) & 1;
    let p6 = (pinb >> 6) & 1;
    let r = p0 | (p1 << 1u8) | (p2 << 2u8) | (p3 << 3u8) | (p4 << 4u8) | (p5 << 5u8) | (p6 << 6u8);
    assert(bit(r, 0) == bit(pinf, 0) && bit(r, 1) == bit(pinf, 1) && bit(r, 2) == bit(pinf, 4) && bit(
        r,
        3,
    ) == bit(pinf, 5) && bit(r, 4) == bit(pinf, 6) && bit(r, 5) == bit(pinf, 7) && bit(r, 6) == bit(
        pinb,
        6,
    ) && !bit(r, 7)) by (bit_vector)
        requires
            p0 == pinf & 1,
            p1 == (pinf >> 1) & 1,
            p2 == (pinf >> 4) & 1,
            p3 == (pinf >> 5) & 1,
            p4 == (pinf >> 6) & 1,
            p5 == (pinf >> 7) & 1,
            p6 == (pinb >> 6) & 1,
            r == p0 | (p1 << 1u8) | (p2 << 2u8) | (p3 << 3u8) | (p4 << 4u8) | (p5 << 5u8) | (p6 << 6u8),
    ;
    r
}

/// The pins to pull low to drive column `index` of the direct half, as
/// (PORTB bits, PORTD bits): PB0..PB3 for 0..3, PD2 and PD3 for 4 and 5.
pub fn drive_bits(index: usize) -> (r: (u8, u8))
    ensures
        index == 0 ==> r == (0x01u8, 0u8),
        index == 1 ==> r == (0x02u8, 0u8),
        index == 2 ==> r == (0x04u8, 0u8),
        index == 3 ==> r == (0x08u8, 0u8),
        index == 4 ==> r == (0u8, 0x04u8),
        index == 5 ==> r == (0u8, 0x08u8),
        index >= DRIVE_PINS ==> r == (0u8, 0u8),
{
    match index {
        0 => (0x01, 0),
        1 => (0x02, 0),
        2 => (0x04, 0),
        3 => (0x08, 0),
        4 => (0, 0x04),
        5 => (0, 0x08),
        _ => (0, 0),
    }
}

/// An all-released snapshot.
pub fn released_matrix() -> (m: KeyMatrix)
    ensures
        forall|row: int, col: int| 0 <= row < ROWS && 0 <= col < COLS ==> #[trigger] m[row][col],
{
    [[true; COLS]; ROWS]
}

/// Record the row readings of one column: row `r` takes bit `r` of `reads`.
pub fn store_column(state: &mut KeyMatrix, col: usize, reads: u8)
    requires
        col < COLS,
    ensures
        forall|row: int| 0 <= row < ROWS ==> #[trigger] final(state)[row][col as int] == bit(reads, row as u8),
        forall|row: int, c: int| 0 <= row < ROWS && 0 <= c < COLS && c != col ==> #[trigger] final(state)[row][c]
            == old(state)[row][c],
{
    let mut row: usize = 0;
    while row < ROWS
        invariant
            row <= ROWS,
            col < COLS,
            forall|r: int| 0 <= r < row ==> #[trigger] state[r][col as int] == bit(reads, r as u8),
            forall|r: int| row <= r < ROWS ==> #[trigger] state[r][col as int] == old(state)[r][col as int],
            forall|r: int, c: int| 0 <= r < ROWS && 0 <= c < COLS && c != col ==> #[trigger] state[r][c]
                == old(state)[r][c],
        decreases ROWS - row,
    {
        let shift = row as u8;
        let value = (reads >> shift) & 1 != 0;
        assert(value == bit(reads, shift)) by (bit_vector)
            requires
                value == ((reads >> shift) & 1 != 0),
        ;
        state[row][col] = value;
        row = row + 1;
    }
}

/// The snapshot column of drive pin `index` of the direct half.
pub fn direct_column(index: usize) -> (r: usize)
    requires
        index < DRIVE_PINS,
    ensures
        r == COLS_PER_HALF + index,
        r < COLS,
{
    COLS_PER_HALF + index
}

} // verus!
