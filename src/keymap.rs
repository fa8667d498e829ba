//! The compile-time keymap and layer resolution.

use vstd::prelude::*;
use crate::keycode::Keycode;

verus! {

/// Number of rows in the matrix.
pub const ROWS: usize = 6;
/// Number of columns per half.
pub const COLS_PER_HALF: usize = 7;
/// Total number of columns.
pub const COLS: usize = 14;
/// Number of layers.
pub const NUM_LAYERS: usize = 2;

/// A debounced matrix snapshot: `true` means pressed.
pub type KeyMatrix = [[bool; COLS]; ROWS];

/// A full keymap, indexed `[layer][row][col]`.
pub type Layers = [[[Keycode; COLS]; ROWS]; NUM_LAYERS];

/// Key labels of a Nordic ISO keyboard, mapped to the HID usages that an OS
/// with a Nordic input language turns into those characters.
pub const PLUS_QUESTION: Keycode = Keycode::Minus;
/// `´` (unshifted) / `` ` `` (shifted).
pub const ACUTE_GRAVE: Keycode = Keycode::Equal;
/// `å`.
pub const A_RING: Keycode = Keycode::LBracket;
/// `¨` (unshifted) / `^` (shifted).
pub const DIAERESIS_CARET: Keycode = Keycode::RBracket;
/// `'` (unshifted) / `*` (shifted).
pub const APOSTROPHE_STAR: Keycode = Keycode::Backslash;
/// `ö`.
pub const O_DIAERESIS: Keycode = Keycode::Semicolon;
/// `ä`.
pub const A_DIAERESIS: Keycode = Keycode::Quote;
/// `§` (unshifted) / `½` (shifted), the top-left key.
pub const SECTION_HALF: Keycode = Keycode::Grave;
/// `<` (unshifted) / `>` (shifted), the ISO key left of Z.
pub const ANGLE_BRACKETS: Keycode = Keycode::NonUsBackslash;
/// `-` (unshifted) / `_` (shifted), the key right of `.`.
pub const MINUS_UNDERSCORE: Keycode = Keycode::Slash;

/// The keymap. Columns 0-6 are the left half, 7-13 the right half.
/// Layer 0 is QWERTY with Nordic symbols, layer 1 holds function keys and
/// arrows. Layer-hold keys live on layer 0 only.
pub const LAYERS: Layers = [
    [
        [
            SECTION_HALF, Keycode::N1, Keycode::N2, Keycode::N3, Keycode::N4, Keycode::N5,
            Keycode::Trans, PLUS_QUESTION, Keycode::N6, Keycode::N7, Keycode::N8, Keycode::N9,
            Keycode::N0, PLUS_QUESTION,
        ],
        [
            Keycode::Tab, Keycode::Q, Keycode::W, Keycode::E, Keycode::R, Keycode::T,
            Keycode::PageUp, DIAERESIS_CARET, Keycode::Y, Keycode::U, Keycode::I, Keycode::O,
            Keycode::P, APOSTROPHE_STAR,
        ],
        [
            Keycode::LCtrl, Keycode::A, Keycode::S, Keycode::D, Keycode::F, Keycode::G,
            Keycode::Layer1, Keycode::Trans, Keycode::H, Keycode::J, Keycode::K, Keycode::L,
            O_DIAERESIS, A_DIAERESIS,
        ],
        [
            ANGLE_BRACKETS, Keycode::Z, Keycode::X, Keycode::C, Keycode::V, Keycode::B,
            Keycode::PageDown, Keycode::Trans, Keycode::N, Keycode::M, Keycode::Comma,
            Keycode::Dot, MINUS_UNDERSCORE, APOSTROPHE_STAR,
        ],
        [
            Keycode::Layer1, Keycode::LAlt, Keycode::LGui, ACUTE_GRAVE, Keycode::LGui,
            Keycode::Trans, Keycode::Trans, Keycode::Trans, Keycode::Trans, Keycode::Left,
            Keycode::Down, Keycode::Up, Keycode::Right, Keycode::Layer1,
        ],
        [
            Keycode::Escape, Keycode::Trans, Keycode::Enter, Keycode::Space, Keycode::Home,
            Keycode::End, Keycode::Trans, Keycode::Trans, Keycode::Delete, Keycode::Trans,
            Keycode::RShift, Keycode::Backspace, Keycode::Trans, Keycode::Trans,
        ],
    ],
    [
        [
            Keycode::Trans, Keycode::F1, Keycode::F2, Keycode::F3, Keycode::F4, Keycode::F5,
            Keycode::Trans, Keycode::Trans, Keycode::F6, Keycode::F7, Keycode::F8, Keycode::F9,
            Keycode::F10, Keycode::Trans,
        ],
        [
            Keycode::Trans, Keycode::Trans, Keycode::Trans, Keycode::Trans, Keycode::Trans,
            Keycode::Trans, Keycode::F11, Keycode::F12, Keycode::Trans, Keycode::Trans,
            Keycode::Trans, Keycode::Trans, Keycode::Trans, Keycode::Trans,
        ],
        [
            Keycode::Trans, Keycode::Trans, Keycode::Trans, Keycode::Trans, Keycode::Trans,
            Keycode::Trans, Keycode::Trans, Keycode::Trans, Keycode::Left, Keycode::Down,
            Keycode::Up, Keycode::Right, Keycode::Trans, Keycode::Trans,
        ],
        [
            Keycode::Trans, Keycode::Trans, Keycode::Trans, Keycode::Trans, Keycode::Trans,
            Keycode::Trans, Keycode::Trans, Keycode::Trans, Keycode::Trans, Keycode::Trans,
            Keycode::Trans, Keycode::Trans, Keycode::Trans, Keycode::Trans,
        ],
        [
            Keycode::Trans, Keycode::Trans, Keycode::Trans, Keycode::Trans, Keycode::Trans,
            Keycode::Trans, Keycode::Trans, Keycode::Trans, Keycode::Trans, Keycode::Trans,
            Keycode::Trans, Keycode::Trans, Keycode::Trans, Keycode::Trans,
        ],
        [
            Keycode::Trans, Keycode::Trans, Keycode::Trans, Keycode::Trans, Keycode::Trans,
            Keycode::Trans, Keycode::Trans, Keycode::Trans, Keycode::Trans, Keycode::Trans,
            Keycode::Trans, Keycode::Trans, Keycode::Trans, Keycode::Trans,
        ],
    ],
];

/// The keycode stored at a cell of one layer.
pub open spec fn cell(layers: Layers, layer: int, row: int, col: int) -> Keycode {
    layers[layer][row][col]
}

/// The effective keycode of a cell on `layer`: transparent cells take the
/// value of the next lower layer, and layer 0 is taken as it stands.
pub open spec fn resolved(layers: Layers, layer: int, row: int, col: int) -> Keycode
    decreases layer,
{
    if layer <= 0 || !cell(layers, layer, row, col).spec_is_transparent() {
        cell(layers, layer, row, col)
    } else {
        resolved(layers, layer - 1, row, col)
    }
}

/// The layer that a held cell asks for, if its base-layer code is a layer
/// hold for a layer that exists.
pub open spec fn requested_layer(layers: Layers, keys: KeyMatrix, row: int, col: int) -> Option<
    int,
> {
    let kc = cell(layers, 0, row, col);
    if keys[row][col] && kc.spec_is_layer() && kc.spec_layer_number() < NUM_LAYERS {
        Some(kc.spec_layer_number())
    } else {
        None
    }
}

/// The cell is a valid matrix position.
pub open spec fn in_matrix(row: int, col: int) -> bool {
    0 <= row < ROWS && 0 <= col < COLS
}

/// Layer-hold keys live on layer 0 only: no layer above it holds one.
pub proof fn lemma_layer_keys_on_base_layer()
    ensures
        forall|layer: int, row: int, col: int|
            1 <= layer < NUM_LAYERS && in_matrix(row, col) ==> !(#[trigger] cell(LAYERS, layer, row, col)).spec_is_layer(),
{
    assert forall|layer: int, row: int, col: int|
        1 <= layer < NUM_LAYERS && in_matrix(row, col) implies !(#[trigger] cell(LAYERS, layer, row, col)).spec_is_layer() by {
        assert(layer == 1);
        assert(0 <= row < 6 && 0 <= col < 14);
        assert(row == 0 || row == 1 || row == 2 || row == 3 || row == 4 || row == 5);
    }
}

/// Resolve which layer is active: the highest layer whose hold key is
/// pressed, or 0 when none is. Layer keys are read from layer 0 only.
pub fn resolve_layer(keys: &KeyMatrix) -> (r: usize)
    ensures
        r < NUM_LAYERS,
        r == 0 || exists|row: int, col: int|
            in_matrix(row, col) && #[trigger] requested_layer(LAYERS, *keys, row, col) == Some(
                r as int,
            ),
        forall|row: int, col: int|
            in_matrix(row, col) && #[trigger] requested_layer(LAYERS, *keys, row, col) is Some
                ==> requested_layer(LAYERS, *keys, row, col)->0 <= r,
{
    let mut active_layer: usize = 0;
    let mut row: usize = 0;
    while row < ROWS
        invariant
            row <= ROWS,
            active_layer < NUM_LAYERS,
            active_layer == 0 || exists|r: int, c: int|
                in_matrix(r, c) && #[trigger] requested_layer(LAYERS, *keys, r, c) == Some(
                    active_layer as int,
                ),
            forall|r: int, c: int|
                0 <= r < row && 0 <= c < COLS && #[trigger] requested_layer(LAYERS, *keys, r, c) is Some
                    ==> requested_layer(LAYERS, *keys, r, c)->0 <= active_layer,
        decreases ROWS - row,
    {
        let mut col: usize = 0;
        while col < COLS
            invariant
                row < ROWS,
                col <= COLS,
                active_layer < NUM_LAYERS,
                active_layer == 0 || exists|r: int, c: int|
                    in_matrix(r, c) && #[trigger] requested_layer(LAYERS, *keys, r, c) == Some(
                        active_layer as int,
                    ),
                forall|r: int, c: int|
                    ((0 <= r < row && 0 <= c < COLS) || (r == row && 0 <= c < col))
                        && #[trigger] requested_layer(LAYERS, *keys, r, c) is Some
                        ==> requested_layer(LAYERS, *keys, r, c)->0 <= active_layer,
            decreases COLS - col,
        {
            if keys[row][col] {
                let kc = LAYERS[0][row][col];
                if kc.is_layer() {
                    let layer = kc.layer_number();
                    if layer > active_layer && layer < NUM_LAYERS {
                        active_layer = layer;
                    }
                }
            }
            assert(requested_layer(LAYERS, *keys, row as int, col as int) is Some
                ==> requested_layer(LAYERS, *keys, row as int, col as int)->0 <= active_layer);
            col = col + 1;
        }
        row = row + 1;
    }
    active_layer
}

/// Look up the keycode for a matrix position, resolving transparent keys
/// through the layer stack.
pub fn lookup(layer: usize, row: usize, col: usize) -> (r: Keycode)
    requires
        layer < NUM_LAYERS,
        row < ROWS,
        col < COLS,
    ensures
        r == resolved(LAYERS, layer as int, row as int, col as int),
        r.spec_is_transparent() <==> forall|l: int|
            0 <= l <= layer ==> (#[trigger] cell(LAYERS, l, row as int, col as int)).spec_is_transparent(),
        r.spec_is_transparent() ==> r == cell(LAYERS, 0, row as int, col as int),
{
    let mut l: usize = layer;
    loop
        invariant
            l <= layer < NUM_LAYERS,
            row < ROWS,
            col < COLS,
            resolved(LAYERS, l as int, row as int, col as int) == resolved(
                LAYERS,
                layer as int,
                row as int,
                col as int,
            ),
            forall|m: int|
                l < m <= layer ==> (#[trigger] cell(LAYERS, m, row as int, col as int)).spec_is_transparent(),
        decreases l,
    {
        let kc = LAYERS[l][row][col];
        if !kc.is_transparent() || l == 0 {
            return kc;
        }
        l -= 1;
    }
}

} // verus!
