//! Per-key debouncing: a counter per cell integrates consecutive raw readings
//! that disagree with the committed state, and flips that state once the
//! counter reaches the threshold.

use vstd::prelude::*;
use crate::keymap::{COLS, ROWS, KeyMatrix, in_matrix};

verus! {

/// Number of consistent scan cycles required to register a state change.
/// At ~1ms scan rate, this gives ~5ms debounce time.
pub const DEBOUNCE_THRESHOLD: u8 = 5;

/// One cell's debouncer: the committed state and the count of consecutive
/// readings that disagreed with it.
pub open spec fn cell_step(state: bool, counter: u8, pressed: bool) -> (bool, u8) {
    if pressed == state {
        (state, 0)
    } else if counter + 1 >= DEBOUNCE_THRESHOLD {
        (pressed, 0)
    } else {
        (state, (counter + 1) as u8)
    }
}

/// The cell after `n` consecutive readings of `pressed`.
pub open spec fn cell_run(state: bool, counter: u8, pressed: bool, n: nat) -> (bool, u8)
    decreases n,
{
    if n == 0 {
        (state, counter)
    } else {
        let (s, c) = cell_step(state, counter, pressed);
        cell_run(s, c, pressed, (n - 1) as nat)
    }
}

/// A run of readings opposite to the committed state, starting from a zero
/// counter (the last reading agreed), flips the state exactly once, on the
/// threshold-th reading, and leaves the counter at 0 from then on.
pub proof fn lemma_debounce_settles(state: bool, n: nat)
    ensures
        n < DEBOUNCE_THRESHOLD ==> cell_run(state, 0, !state, n) == (state, n as u8),
        n >= DEBOUNCE_THRESHOLD ==> cell_run(state, 0, !state, n) == (!state, 0u8),
    decreases n,
{
    if n > 0 {
        lemma_run_split(state, 0, !state, (n - 1) as nat);
        lemma_debounce_settles(state, (n - 1) as nat);
    }
}

/// Running `n + 1` readings is running `n` and then one more.
proof fn lemma_run_split(state: bool, counter: u8, pressed: bool, n: nat)
    ensures
        cell_run(state, counter, pressed, n + 1) == cell_step(
            cell_run(state, counter, pressed, n).0,
            cell_run(state, counter, pressed, n).1,
            pressed,
        ),
    decreases n,
{
    let (s, c) = cell_step(state, counter, pressed);
    if n > 0 {
        lemma_run_split(s, c, pressed, (n - 1) as nat);
    } else {
        assert(cell_run(s, c, pressed, 0) == (s, c));
    }
}

/// Debounced key states and per-key counters.
pub struct Debouncer {
    /// Debounced key states: false = released, true = pressed.
    state: KeyMatrix,
    /// Per-key counters of consecutive raw readings that differ from the debounced state.
    counters: [[u8; COLS]; ROWS],
}

impl Debouncer {
    /// The committed state of a cell.
    pub closed spec fn committed(&self, row: int, col: int) -> bool {
        self.state[row][col]
    }

    /// The counter of a cell.
    pub closed spec fn counter(&self, row: int, col: int) -> u8 {
        self.counters[row][col]
    }

    /// The committed states as a matrix.
    pub closed spec fn states(&self) -> KeyMatrix {
        self.state
    }

    /// Every counter stays below the threshold.
    pub closed spec fn wf(&self) -> bool {
        forall|row: int, col: int| in_matrix(row, col) ==> #[trigger] self.counters[row][col] < DEBOUNCE_THRESHOLD
    }

    /// All keys released, all counters zero.
    pub fn new() -> (d: Self)
        ensures
            d.wf(),
            forall|row: int, col: int| in_matrix(row, col) ==> !#[trigger] d.committed(row, col) && d.counter(row, col) == 0,
    {
        Debouncer { state: [[false; COLS]; ROWS], counters: [[0u8; COLS]; ROWS] }
    }

    /// Update the debouncer with a new raw matrix scan.
    /// `raw_state[row][col]`: true = not pressed (active low convention from matrix scan).
    /// Returns the debounced state where true = key is pressed.
    pub fn update(&mut self, raw_state: &KeyMatrix) -> (r: &KeyMatrix)
        requires
            old(self).wf(),
        ensures
            final(self).wf(),
            forall|row: int, col: int| in_matrix(row, col) ==>
                (#[trigger] final(self).committed(row, col), final(self).counter(row, col)) == cell_step(
                    old(self).committed(row, col),
                    old(self).counter(row, col),
                    !raw_state[row][col],
                ),
            *r == final(self).states(),
    {
        let ghost before = *self;
        let mut row: usize = 0;
        while row < ROWS
            invariant
                row <= ROWS,
                self.wf(),
                before.wf(),
                forall|r: int, c: int| 0 <= r < row && 0 <= c < COLS ==>
                    (#[trigger] self.state[r][c], self.counters[r][c]) == cell_step(
                        before.state[r][c],
                        before.counters[r][c],
                        !raw_state[r][c],
                    ),
                forall|r: int, c: int| row <= r < ROWS && 0 <= c < COLS ==>
                    #[trigger] self.state[r][c] == before.state[r][c],
                forall|r: int, c: int| row <= r < ROWS && 0 <= c < COLS ==>
                    #[trigger] self.counters[r][c] == before.counters[r][c],
            decreases ROWS - row,
        {
            let mut col: usize = 0;
            while col < COLS
                invariant
                    row < ROWS,
                    col <= COLS,
                    self.wf(),
                    before.wf(),
                    forall|r: int, c: int| ((0 <= r < row && 0 <= c < COLS) || (r == row && 0 <= c < col)) ==>
                        (#[trigger] self.state[r][c], self.counters[r][c]) == cell_step(
                            before.state[r][c],
                            before.counters[r][c],
                            !raw_state[r][c],
                        ),
                    forall|r: int, c: int| ((row < r < ROWS && 0 <= c < COLS) || (r == row && col <= c < COLS)) ==>
                        #[trigger] self.state[r][c] == before.state[r][c],
                    forall|r: int, c: int| ((row < r < ROWS && 0 <= c < COLS) || (r == row && col <= c < COLS)) ==>
                        #[trigger] self.counters[r][c] == before.counters[r][c],
                decreases COLS - col,
            {
                // Convert from active-low (true=released) to logical (true=pressed)
                let pressed = !raw_state[row][col];
                if pressed == self.state[row][col] {
                    self.counters[row][col] = 0;
                } else {
                    let next = self.counters[row][col] + 1;
                    if next >= DEBOUNCE_THRESHOLD {
                        self.state[row][col] = pressed;
                        self.counters[row][col] = 0;
                    } else {
                        self.counters[row][col] = next;
                    }
                }
                col = col + 1;
            }
            row = row + 1;
        }
        &self.state
    }
}

} // verus!
