//! The USB device side of the keyboard: its descriptors, the decision that
//! each SETUP request calls for, and the state that decides when a report
//! goes out. The register-level transfers are done by the caller.

use vstd::prelude::*;
use crate::report::KeyboardReport;
use crate::halfkay::{KEYBOARD_PID, KEYBOARD_VID};

verus! {

/// Control endpoint size.
pub const EP0_SIZE: usize = 64;
/// Interrupt IN endpoint size (keyboard reports).
pub const EP1_SIZE: usize = 8;

/// HID report descriptor for a standard boot keyboard.
pub const HID_REPORT_DESCRIPTOR: [u8; 64] = [
    0x05, 0x01, // Usage Page (Generic Desktop)
    0x09, 0x06, // Usage (Keyboard)
    0xA1, 0x01, // Collection (Application)
    0x05, 0x07, //   Usage Page (Key Codes)
    0x19, 0xE0, //   Usage Minimum (224) - LCtrl
    0x29, 0xE7, //   Usage Maximum (231) - RGui
    0x15, 0x00, //   Logical Minimum (0)
    0x25, 0x01, //   Logical Maximum (1)
    0x75, 0x01, //   Report Size (1)
    0x95, 0x08, //   Report Count (8)
    0x81, 0x02, //   Input (Data, Variable, Absolute)
    0x95, 0x01, //   Report Count (1)
    0x75, 0x08, //   Report Size (8)
    0x81, 0x01, //   Input (Constant)
    0x95, 0x05, //   Report Count (5)
    0x75, 0x01, //   Report Size (1)
    0x05, 0x08, //   Usage Page (LEDs)
    0x19, 0x01, //   Usage Minimum (1)
    0x29, 0x05, //   Usage Maximum (5)
    0x91, 0x02, //   Output (Data, Variable, Absolute)
    0x95, 0x01, //   Report Count (1)
    0x75, 0x03, //   Report Size (3)
    0x91, 0x01, //   Output (Constant)
    0x95, 0x06, //   Report Count (6)
    0x75, 0x08, //   Report Size (8)
    0x15, 0x00, //   Logical Minimum (0)
    0x26, 0xFF, 0x00, // Logical Maximum (255)
    0x05, 0x07, //   Usage Page (Key Codes)
    0x19, 0x00, //   Usage Minimum (0)
    0x29, 0xFF, //   Usage Maximum (255)
    0x81, 0x00, //   Input (Data, Array)
    0xC0, // End Collection
];

/// Device descriptor: USB 2.0, class at interface level, EP0 of 64 bytes,
/// VID 0x16C0 / PID 0x047E, device version 1.0, strings 1 and 2, one configuration.
pub const DEVICE_DESCRIPTOR: [u8; 18] = [
    18, 1, 0x00, 0x02, 0, 0, 0, 64, 0xC0, 0x16, 0x7E, 0x04, 0x01, 0x00, 1, 2, 0, 1,
];

/// Configuration, interface (HID, boot, keyboard), HID (v1.11, 64-byte report
/// descriptor) and endpoint (EP1 IN, interrupt, 8 bytes, 10 ms) descriptors.
pub const CONFIG_DESCRIPTOR: [u8; 34] = [
    9, 2, 34, 0, 1, 1, 0, 0x80, 50,
    9, 4, 0, 0, 1, 3, 1, 1, 0,
    9, 0x21, 0x11, 0x01, 0, 1, 0x22, 64, 0,
    7, 5, 0x81, 0x03, 8, 0, 10,
];

/// String descriptor 0: the supported language, English (US).
pub const STRING_DESC_0: [u8; 4] = [4, 3, 0x09, 0x04];

/// String descriptor 1 (manufacturer): "ErgoDox" in UTF-16LE.
pub const STRING_DESC_1: [u8; 16] = [
    16, 3, 0x45, 0, 0x72, 0, 0x67, 0, 0x6F, 0, 0x44, 0, 0x6F, 0, 0x78, 0,
];

/// String descriptor 2 (product): "Keyboard" in UTF-16LE.
pub const STRING_DESC_2: [u8; 18] = [
    18, 3, 0x4B, 0, 0x65, 0, 0x79, 0, 0x62, 0, 0x6F, 0, 0x61, 0, 0x72, 0, 0x64, 0,
];

/// The device descriptor announces the identity that the flasher looks for
/// (idVendor and idProduct, little-endian at offsets 8 to 11), and the
/// configuration block gives the true lengths of itself and of the report
/// descriptor.
pub proof fn lemma_descriptors_agree()
    ensures
        DEVICE_DESCRIPTOR[8] == KEYBOARD_VID % 256,
        DEVICE_DESCRIPTOR[9] == KEYBOARD_VID / 256,
        DEVICE_DESCRIPTOR[10] == KEYBOARD_PID % 256,
        DEVICE_DESCRIPTOR[11] == KEYBOARD_PID / 256,
        DEVICE_DESCRIPTOR[0] == DEVICE_DESCRIPTOR@.len(),
        DEVICE_DESCRIPTOR[7] == EP0_SIZE,
        CONFIG_DESCRIPTOR[2] == CONFIG_DESCRIPTOR@.len(),
        CONFIG_DESCRIPTOR[25] == HID_REPORT_DESCRIPTOR@.len(),
        CONFIG_DESCRIPTOR[31] == EP1_SIZE,
{
}

/// The descriptors the device can return.
#[derive(Clone, Copy, PartialEq, Eq, Structural, Debug)]
pub enum Descriptor {
    Device,
    Configuration,
    Language,
    Manufacturer,
    Product,
    HidReport,
}

/// The bytes of each descriptor.
pub open spec fn descriptor_spec(d: Descriptor) -> Seq<u8> {
    match d {
        Descriptor::Device => DEVICE_DESCRIPTOR@,
        Descriptor::Configuration => CONFIG_DESCRIPTOR@,
        Descriptor::Language => STRING_DESC_0@,
        Descriptor::Manufacturer => STRING_DESC_1@,
        Descriptor::Product => STRING_DESC_2@,
        Descriptor::HidReport => HID_REPORT_DESCRIPTOR@,
    }
}

fn array_bytes<const N: usize>(a: [u8; N]) -> (r: Vec<u8>)
    ensures
        r@ == a@,
{
    let mut r: Vec<u8> = Vec::new();
    let mut i: usize = 0;
    while i < N
        invariant
            i <= N,
            N == a@.len(),
            r@ == a@.take(i as int),
        decreases N - i,
    {
        r.push(a[i]);
        proof {
            assert(a@.take(i + 1) == a@.take(i as int).push(a@[i as int]));
        }
        i = i + 1;
    }
    proof {
        assert(a@.take(N as int) == a@);
    }
    r
}

impl Descriptor {
    /// The bytes of this descriptor.
    pub fn bytes(self) -> (r: Vec<u8>)
        ensures
            r@ == descriptor_spec(self),
    {
        match self {
            Descriptor::Device => array_bytes(DEVICE_DESCRIPTOR),
            Descriptor::Configuration => array_bytes(CONFIG_DESCRIPTOR),
            Descriptor::Language => array_bytes(STRING_DESC_0),
            Descriptor::Manufacturer => array_bytes(STRING_DESC_1),
            Descriptor::Product => array_bytes(STRING_DESC_2),
            Descriptor::HidReport => array_bytes(HID_REPORT_DESCRIPTOR),
        }
    }
}

/// The eight bytes of a SETUP packet.
#[derive(Clone, Copy, PartialEq, Eq, Structural, Debug)]
pub struct SetupPacket {
    pub request_type: u8,
    pub request: u8,
    pub value: u16,
    pub index: u16,
    pub length: u16,
}

impl SetupPacket {
    /// Decode the packet as it arrives: request type, request, then value,
    /// index and length, each little-endian.
    pub fn from_bytes(b: [u8; 8]) -> (r: SetupPacket)
        ensures
            r.request_type == b[0],
            r.request == b[1],
            r.value == b[2] + 256 * b[3],
            r.index == b[4] + 256 * b[5],
            r.length == b[6] + 256 * b[7],
    {
        SetupPacket {
            request_type: b[0],
            request: b[1],
            value: b[2] as u16 + 256 * b[3] as u16,
            index: b[4] as u16 + 256 * b[5] as u16,
            length: b[6] as u16 + 256 * b[7] as u16,
        }
    }
}

/// What the device does in answer to a SETUP packet.
#[derive(Clone, Copy, PartialEq, Eq, Structural, Debug)]
pub enum SetupAction {
    /// Send a descriptor, cut to the host's requested length.
    SendDescriptor { descriptor: Descriptor, max_length: u16 },
    /// Send a zero-length status packet, wait for it to go out, then take this address.
    SetAddress(u8),
    /// Send a zero-length status packet, configure EP1, mark configured.
    SetConfiguration,
    /// Send this one byte (the configuration value).
    SendConfiguration(u8),
    /// Send a zero-length status packet and nothing else.
    Acknowledge,
    /// Send a zero-length status packet, then jump to the bootloader.
    EnterBootloader,
    /// Stall the control endpoint: the request is not supported.
    Stall,
}

/// The answer to each request, by request type and code.
pub open spec fn setup_spec(p: SetupPacket, configured: bool) -> SetupAction {
    let kind = p.value / 256;
    let index = p.value % 256;
    if p.request_type == 0x80 && p.request == 0x06 {
        if kind == 1 {
            SetupAction::SendDescriptor { descriptor: Descriptor::Device, max_length: p.length }
        } else if kind == 2 {
            SetupAction::SendDescriptor { descriptor: Descriptor::Configuration, max_length: p.length }
        } else if kind == 3 && index == 0 {
            SetupAction::SendDescriptor { descriptor: Descriptor::Language, max_length: p.length }
        } else if kind == 3 && index == 1 {
            SetupAction::SendDescriptor { descriptor: Descriptor::Manufacturer, max_length: p.length }
        } else if kind == 3 && index == 2 {
            SetupAction::SendDescriptor { descriptor: Descriptor::Product, max_length: p.length }
        } else {
            SetupAction::Stall
        }
    } else if p.request_type == 0x00 && p.request == 0x05 {
        SetupAction::SetAddress((index % 128) as u8)
    } else if p.request_type == 0x00 && p.request == 0x09 {
        SetupAction::SetConfiguration
    } else if p.request_type == 0x80 && p.request == 0x08 {
        SetupAction::SendConfiguration(if configured { 1u8 } else { 0u8 })
    } else if p.request_type == 0x81 && p.request == 0x06 {
        if kind == 0x22 {
            SetupAction::SendDescriptor { descriptor: Descriptor::HidReport, max_length: p.length }
        } else {
            SetupAction::Stall
        }
    } else if p.request_type == 0x21 && (p.request == 0x0A || p.request == 0x0B) {
        SetupAction::Acknowledge
    } else if p.request_type == 0x40 && p.request == 0xFF {
        SetupAction::EnterBootloader
    } else {
        SetupAction::Stall
    }
}

/// Decide the answer to a SETUP request.
pub fn setup_action(p: &SetupPacket, configured: bool) -> (r: SetupAction)
    ensures
        r == setup_spec(*p, configured),
{
    let kind = p.value / 256;
    let index = p.value % 256;
    match (p.request_type, p.request) {
        (0x80, 0x06) => {
            if kind == 1 {
                SetupAction::SendDescriptor { descriptor: Descriptor::Device, max_length: p.length }
            } else if kind == 2 {
                SetupAction::SendDescriptor { descriptor: Descriptor::Configuration, max_length: p.length }
            } else if kind == 3 {
                match index {
                    0 => SetupAction::SendDescriptor { descriptor: Descriptor::Language, max_length: p.length },
                    1 => SetupAction::SendDescriptor {
                        descriptor: Descriptor::Manufacturer,
                        max_length: p.length,
                    },
                    2 => SetupAction::SendDescriptor { descriptor: Descriptor::Product, max_length: p.length },
                    _ => SetupAction::Stall,
                }
            } else {
                SetupAction::Stall
            }
        },
        (0x00, 0x05) => SetupAction::SetAddress((index % 128) as u8),
        (0x00, 0x09) => SetupAction::SetConfiguration,
        (0x80, 0x08) => SetupAction::SendConfiguration(if configured { 1 } else { 0 }),
        (0x81, 0x06) => {
            if kind == 0x22 {
                SetupAction::SendDescriptor { descriptor: Descriptor::HidReport, max_length: p.length }
            } else {
                SetupAction::Stall
            }
        },
        (0x21, 0x0A) => SetupAction::Acknowledge,
        (0x21, 0x0B) => SetupAction::Acknowledge,
        (0x40, 0xFF) => SetupAction::EnterBootloader,
        _ => SetupAction::Stall,
    }
}

/// The packets a descriptor of `len` bytes goes out in when the host asks for
/// at most `max_length`: the first `min(len, max_length)` bytes, cut into
/// pieces of the control endpoint size, as `[start, end)` ranges.
pub open spec fn packet_ranges_spec(total: int, k: int) -> Seq<(int, int)>
    decreases k,
{
    if k <= 0 {
        Seq::empty()
    } else {
        let start = (k - 1) * EP0_SIZE;
        let end = if start + EP0_SIZE < total {
            start + EP0_SIZE
        } else {
            total
        };
        packet_ranges_spec(total, k - 1).push((start, end))
    }
}

/// How many bytes of a descriptor are sent: all of it, or what the host asked for.
pub open spec fn sent_length(len: int, max_length: int) -> int {
    if len < max_length {
        len
    } else {
        max_length
    }
}

/// The `[start, end)` byte ranges of the packets that carry a descriptor of
/// `len` bytes to a host that asked for `max_length`.
pub fn descriptor_packets(len: usize, max_length: u16) -> (r: Vec<(usize, usize)>)
    ensures
        ({
            let total = sent_length(len as int, max_length as int);
            r@.len() == (total + EP0_SIZE - 1) / EP0_SIZE as int
            && forall|k: int| 0 <= k < r@.len() ==> (#[trigger] r@[k]).0 == k * EP0_SIZE && r@[k].1 == if (k
                + 1) * EP0_SIZE < total {
                (k + 1) * EP0_SIZE
            } else {
                total
            }
        }),
{
    let total: usize = if len < max_length as usize { len } else { max_length as usize };
    let mut r: Vec<(usize, usize)> = Vec::new();
    let mut sent: usize = 0;
    while sent < total
        invariant
            total == sent_length(len as int, max_length as int),
            total <= 0xFFFF,
            sent == r@.len() * EP0_SIZE,
            sent <= total || (total > 0 && r@.len() == (total + EP0_SIZE - 1) / EP0_SIZE as int),
            sent < total ==> r@.len() < (total + EP0_SIZE - 1) / EP0_SIZE as int,
            sent >= total ==> r@.len() == (total + EP0_SIZE - 1) / EP0_SIZE as int,
            forall|k: int| 0 <= k < r@.len() ==> (#[trigger] r@[k]).0 == k * EP0_SIZE && r@[k].1 == if (k
                + 1) * EP0_SIZE < total {
                (k + 1) * EP0_SIZE
            } else {
                total as int
            },
        decreases total + EP0_SIZE - sent,
    {
        let end = if sent + EP0_SIZE < total { sent + EP0_SIZE } else { total };
        r.push((sent, end));
        sent = sent + EP0_SIZE;
        proof {
            let n = r@.len() as int;
            if sent < total {
                assert(n < (total + EP0_SIZE - 1) / EP0_SIZE as int) by (nonlinear_arith)
                    requires
                        sent == n * EP0_SIZE,
                        sent < total,
                ;
            } else {
                assert(n == (total + EP0_SIZE - 1) / EP0_SIZE as int) by (nonlinear_arith)
                    requires
                        sent == n * EP0_SIZE,
                        sent >= total,
                        sent - EP0_SIZE < total,
                ;
            }
        }
    }
    r
}

/// USB device state: whether the host has configured the device, and the
/// last report that went out.
pub struct UsbKeyboard {
    configured: bool,
    last_report: KeyboardReport,
}

impl UsbKeyboard {
    /// Whether the host has configured the device.
    pub closed spec fn spec_configured(&self) -> bool {
        self.configured
    }

    /// The last report sent.
    pub closed spec fn spec_last_report(&self) -> KeyboardReport {
        self.last_report
    }

    /// Not configured; the last report is the empty one.
    pub fn new() -> (r: Self)
        ensures
            !r.spec_configured(),
            r.spec_last_report().modifiers == 0,
            r.spec_last_report().reserved == 0,
            forall|i: int| 0 <= i < 6 ==> #[trigger] r.spec_last_report().keys[i] == 0,
    {
        UsbKeyboard { configured: false, last_report: KeyboardReport::empty() }
    }

    /// Whether the host has configured the device.
    pub fn is_configured(&self) -> (r: bool)
        ensures
            r == self.spec_configured(),
    {
        self.configured
    }

    /// A bus reset returns the device to the unconfigured state.
    pub fn bus_reset(&mut self)
        ensures
            !final(self).spec_configured(),
            final(self).spec_last_report() == old(self).spec_last_report(),
    {
        self.configured = false;
    }

    /// The host selected the configuration.
    pub fn set_configured(&mut self)
        ensures
            final(self).spec_configured(),
            final(self).spec_last_report() == old(self).spec_last_report(),
    {
        self.configured = true;
    }

    /// Whether a report must be sent: only once configured, and only when it
    /// differs from the last one sent.
    pub fn report_due(&self, report: &KeyboardReport) -> (r: bool)
        ensures
            r == (self.spec_configured() && *report != self.spec_last_report()),
    {
        self.configured && !(*report == self.last_report)
    }

    /// Record that a report went out.
    pub fn report_sent(&mut self, report: &KeyboardReport)
        ensures
            final(self).spec_last_report() == *report,
            final(self).spec_configured() == old(self).spec_configured(),
    {
        self.last_report = *report;
    }
}

} // verus!
