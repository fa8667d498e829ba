use ergodox::debounce::{Debouncer, DEBOUNCE_THRESHOLD};
use ergodox::keymap::{KeyMatrix, COLS, ROWS};

fn released() -> KeyMatrix {
    [[true; COLS]; ROWS]
}

#[test]
fn new_debouncer_reports_nothing_pressed() {
    let mut d = Debouncer::new();
    let out = *d.update(&released());
    assert_eq!(out, [[false; COLS]; ROWS]);
}

#[test]
fn press_commits_on_threshold_th_scan_exactly_once() {
    let mut d = Debouncer::new();
    let mut raw = released();
    raw[3][4] = false; // active low: pressed
    for scan in 1..=20u8 {
        let out = *d.update(&raw);
        assert_eq!(out[3][4], scan >= DEBOUNCE_THRESHOLD, "scan {}", scan);
        assert!(!out[0][0]);
    }
}

#[test]
fn release_commits_after_threshold() {
    let mut d = Debouncer::new();
    let mut raw = released();
    raw[0][0] = false;
    for _ in 0..5 {
        d.update(&raw);
    }
    assert!(d.update(&raw)[0][0]);
    let up = released();
    for scan in 1..=5u8 {
        let out = *d.update(&up);
        assert_eq!(out[0][0], scan < 5);
    }
}

#[test]
fn bounce_restarts_the_count() {
    let mut d = Debouncer::new();
    let mut pressed = released();
    pressed[1][1] = false;
    for _ in 0..4 {
        assert!(!d.update(&pressed)[1][1]);
    }
    assert!(!d.update(&released())[1][1]);
    for _ in 0..4 {
        assert!(!d.update(&pressed)[1][1]);
    }
    assert!(d.update(&pressed)[1][1]);
}

#[test]
fn one_bouncing_key_does_not_delay_another() {
    let mut d = Debouncer::new();
    let mut raw = released();
    raw[2][2] = false;
    for scan in 0..5 {
        raw[5][13] = scan % 2 == 0;
        d.update(&raw);
    }
    let out = *d.update(&raw);
    assert!(out[2][2]);
    assert!(!out[5][13]);
}
