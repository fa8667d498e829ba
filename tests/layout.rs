use ergodox::keycode::Keycode;
use ergodox::layout::{html_escape, key_style, shown_keycode, KeyStyle};

#[test]
fn html_escape_replaces_markup_characters() {
    assert_eq!(html_escape("<>"), "&lt;&gt;");
    assert_eq!(html_escape("a&b"), "a&amp;b");
    assert_eq!(html_escape("\u{e5}"), "\u{e5}");
    assert_eq!(html_escape(""), "");
}

#[test]
fn key_styles() {
    assert_eq!(key_style(0, 0, 6), KeyStyle::Unused);
    assert_eq!(key_style(1, 0, 0), KeyStyle::Transparent);
    assert_eq!(key_style(0, 2, 6), KeyStyle::Layer);
    assert_eq!(key_style(0, 2, 0), KeyStyle::Modifier);
    assert_eq!(key_style(0, 2, 1), KeyStyle::Plain);
    assert_eq!(KeyStyle::Unused.class(), "key unused");
    assert_eq!(KeyStyle::Plain.class(), "key");
}

#[test]
fn shown_keycode_falls_through_on_higher_layers() {
    assert_eq!(shown_keycode(1, 0, 1), Keycode::F1);
    assert_eq!(shown_keycode(1, 1, 1), Keycode::Q);
    assert_eq!(shown_keycode(0, 0, 6), Keycode::Trans);
}
