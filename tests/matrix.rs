use ergodox::keymap::{COLS, ROWS};
use ergodox::matrix::{direct_column, drive_bits, read_pins, released_matrix, store_column};

#[test]
fn read_pins_gathers_port_f_and_b6() {
    assert_eq!(read_pins(0xFF, 0xFF), 0x7F);
    assert_eq!(read_pins(0x00, 0x00), 0x00);
    assert_eq!(read_pins(0x01, 0x00), 0x01);
    assert_eq!(read_pins(0x02, 0x00), 0x02);
    assert_eq!(read_pins(0x0C, 0x00), 0x00);
    assert_eq!(read_pins(0x10, 0x00), 0x04);
    assert_eq!(read_pins(0x80, 0x00), 0x20);
    assert_eq!(read_pins(0x00, 0x40), 0x40);
    assert_eq!(read_pins(0x00, 0xBF), 0x00);
}

#[test]
fn drive_pins_map_to_ports() {
    assert_eq!(drive_bits(0), (0x01, 0));
    assert_eq!(drive_bits(3), (0x08, 0));
    assert_eq!(drive_bits(4), (0, 0x04));
    assert_eq!(drive_bits(5), (0, 0x08));
    assert_eq!(drive_bits(6), (0, 0));
    assert_eq!(direct_column(0), 7);
    assert_eq!(direct_column(5), 12);
}

#[test]
fn store_column_writes_one_column_active_low() {
    let mut m = released_matrix();
    store_column(&mut m, 3, 0b0010_0101);
    let col: Vec<bool> = (0..ROWS).map(|r| m[r][3]).collect();
    assert_eq!(col, vec![true, false, true, false, false, true]);
    for r in 0..ROWS {
        for c in 0..COLS {
            if c != 3 {
                assert!(m[r][c]);
            }
        }
    }
}
