//! The keymap-dependent parts of the layout drawing: which label and which
//! style class each key gets, and escaping of label text for HTML. The
//! geometry is computed by the caller.

use vstd::prelude::*;
use vstd::string::StringExecFns;
use crate::keycode::Keycode;
use crate::keymap::{COLS, ROWS, NUM_LAYERS, LAYERS, cell, resolved, lookup};

verus! {

/// The style class of each kind of key.
#[derive(Clone, Copy, PartialEq, Eq, Structural, Debug)]
pub enum KeyStyle {
    /// An unused position on the base layer.
    Unused,
    /// A transparent key on a higher layer.
    Transparent,
    /// A layer-hold key.
    Layer,
    /// A modifier.
    Modifier,
    /// Any other key.
    Plain,
}

impl KeyStyle {
    /// The CSS classes of the style.
    pub fn class(self) -> (r: &'static str)
        ensures
            r@ == match self {
                KeyStyle::Unused => "key unused"@,
                KeyStyle::Transparent => "key transparent"@,
                KeyStyle::Layer => "key layer"@,
                KeyStyle::Modifier => "key modifier"@,
                KeyStyle::Plain => "key"@,
            },
    {
        match self {
            KeyStyle::Unused => "key unused",
            KeyStyle::Transparent => "key transparent",
            KeyStyle::Layer => "key layer",
            KeyStyle::Modifier => "key modifier",
            KeyStyle::Plain => "key",
        }
    }
}

/// The style of a cell as drawn on `layer`: transparent cells are unused on
/// layer 0 and transparent above it; otherwise layer holds, then modifiers.
pub open spec fn style_spec(layer: int, row: int, col: int) -> KeyStyle {
    let kc = cell(LAYERS, layer, row, col);
    if kc.spec_is_transparent() && layer == 0 {
        KeyStyle::Unused
    } else if kc.spec_is_transparent() {
        KeyStyle::Transparent
    } else if kc.spec_is_layer() {
        KeyStyle::Layer
    } else if kc.spec_is_modifier() {
        KeyStyle::Modifier
    } else {
        KeyStyle::Plain
    }
}

/// The style of the key at `(row, col)` on `layer`.
pub fn key_style(layer: usize, row: usize, col: usize) -> (r: KeyStyle)
    requires
        layer < NUM_LAYERS,
        row < ROWS,
        col < COLS,
    ensures
        r == style_spec(layer as int, row as int, col as int),
{
    let kc = LAYERS[layer][row][col];
    if kc.is_transparent() && layer == 0 {
        KeyStyle::Unused
    } else if kc.is_transparent() {
        KeyStyle::Transparent
    } else if kc.is_layer() {
        KeyStyle::Layer
    } else if kc.is_modifier() {
        KeyStyle::Modifier
    } else {
        KeyStyle::Plain
    }
}

/// The keycode whose label a cell shows on `layer`: on higher layers a
/// transparent cell shows what it falls through to.
pub fn shown_keycode(layer: usize, row: usize, col: usize) -> (r: Keycode)
    requires
        layer < NUM_LAYERS,
        row < ROWS,
        col < COLS,
    ensures
        r == resolved(LAYERS, layer as int, row as int, col as int),
{
    let kc = LAYERS[layer][row][col];
    if layer > 0 && kc.is_transparent() {
        lookup(layer, row, col)
    } else {
        kc
    }
}

/// The HTML text for a label: `&`, `<` and `>` become entities.
pub open spec fn escaped(s: Seq<char>) -> Seq<char>
    decreases s.len(),
{
    if s.len() == 0 {
        Seq::empty()
    } else {
        let c = s.last();
        escaped(s.drop_last()) + if c == '&' {
            "&amp;"@
        } else if c == '<' {
            "&lt;"@
        } else if c == '>' {
            "&gt;"@
        } else {
            seq![c]
        }
    }
}

/// Relies on `String::push`: it appends the one character.
#[verifier::external_body]
fn push_char(s: &mut String, c: char)
    ensures
        final(s)@ == old(s)@.push(c),
{
    s.push(c)
}

/// Escape `&`, `<` and `>` for HTML text.
pub fn html_escape(s: &str) -> (r: String)
    ensures
        r@ == escaped(s@),
{
    broadcast use vstd::string::axiom_spec_iter;

    let mut out = String::new();
    for c in it: s.chars()
        invariant
            out@ == escaped(it.seq().take(it.index() as int)),
            it.seq() == s@,
            it.seq().take(it.seq().len() as int) == s@,
    {
        let ghost before = it.seq().take(it.index() as int);
        if c == '&' {
            out.append("&amp;");
        } else if c == '<' {
            out.append("&lt;");
        } else if c == '>' {
            out.append("&gt;");
        } else {
            push_char(&mut out, c);
        }
        proof {
            let now = it.seq().take(it.index() + 1);
            assert(now.drop_last() == before);
            assert(now.last() == c);
        }
    }
    out
}

} // verus!
