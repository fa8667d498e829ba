use ergodox::mcp::{
    column_pattern, read_ok, start_ok, twi_status, write_ok, Mcp23018, CONFIGURATION, GPIOA,
    GPPUB, IODIRA, IODIRB, MAX_ERRORS, TWBR_VALUE,
};

#[test]
fn new_expander_is_offline_at_base_address() {
    let m = Mcp23018::new();
    assert!(!m.is_ok());
    assert_eq!(m.write_address(), 0x40);
    assert_eq!(m.read_address(), 0x41);
}

#[test]
fn selected_address_sets_transaction_bytes() {
    let mut m = Mcp23018::new();
    m.select_address(7);
    assert_eq!(m.write_address(), 0x4E);
    assert_eq!(m.read_address(), 0x4F);
}

#[test]
fn ten_consecutive_errors_take_expander_offline() {
    let mut m = Mcp23018::new();
    m.mark_configured();
    for _ in 0..(MAX_ERRORS - 1) {
        assert_eq!(m.finish_scan(None), 0xFF);
        assert!(m.is_ok());
    }
    assert_eq!(m.finish_scan(None), 0xFF);
    assert!(!m.is_ok());
}

#[test]
fn a_good_read_resets_the_error_count() {
    let mut m = Mcp23018::new();
    m.mark_configured();
    for _ in 0..9 {
        m.finish_scan(None);
    }
    assert_eq!(m.finish_scan(Some(0x3E)), 0x3E);
    for _ in 0..9 {
        m.finish_scan(None);
    }
    assert!(m.is_ok());
}

#[test]
fn reinit_only_when_offline() {
    let mut m = Mcp23018::new();
    assert!(m.begin_reinit());
    m.mark_configured();
    assert!(!m.begin_reinit());
    for _ in 0..10 {
        m.mark_error();
    }
    assert!(!m.is_ok());
    assert!(m.begin_reinit());
    m.mark_configured();
    assert!(m.is_ok());
}

#[test]
fn twi_status_is_masked_before_comparison() {
    assert_eq!(twi_status(0x0B), 0x08);
    assert!(start_ok(0x08));
    assert!(start_ok(0x11));
    assert!(!start_ok(0x18));
    assert!(write_ok(0x18) && write_ok(0x28) && write_ok(0x40) && write_ok(0x43));
    assert!(!write_ok(0x20));
    assert!(read_ok(0x59));
    assert!(!read_ok(0x50));
}

#[test]
fn column_drive_patterns() {
    assert_eq!(column_pattern(0), 0xFE);
    assert_eq!(column_pattern(6), 0xBF);
}

#[test]
fn configuration_sequence() {
    assert_eq!(CONFIGURATION, [(IODIRA, 0x00), (IODIRB, 0xFF), (GPPUB, 0xFF), (GPIOA, 0xFF)]);
    assert_eq!(TWBR_VALUE, 72);
}
