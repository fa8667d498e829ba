//! Firmware logic for a split ergonomic keyboard and its host-side flasher:
//! keycodes and layered keymaps, the per-key debouncer, the boot-keyboard HID
//! report, the USB control-request dispatch, the I2C expander state, and the
//! Intel HEX / HalfKay image pipeline.

pub mod keycode;
pub mod keymap;
pub mod debounce;
pub mod report;
pub mod hex;
pub mod halfkay;
pub mod usb;
pub mod mcp;
pub mod matrix;
pub mod layout;
