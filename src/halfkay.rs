//! The HalfKay bootloader protocol: page payloads, the flashing plan for an
//! image, the reboot payload, and the USB identities involved.

use vstd::prelude::*;
use vstd::slice::slice_subrange;
use crate::hex::ImageError;

verus! {

/// Teensy 2.0 HalfKay bootloader vendor id.
pub const HALFKAY_VID: u16 = 0x16C0;
/// Teensy 2.0 HalfKay bootloader product id.
pub const HALFKAY_PID: u16 = 0x0478;
/// Running keyboard vendor id (must match the firmware device descriptor).
pub const KEYBOARD_VID: u16 = 0x16C0;
/// Running keyboard product id (must match the firmware device descriptor).
pub const KEYBOARD_PID: u16 = 0x047E;

/// ATmega32U4 flash page size in bytes.
pub const PAGE_SIZE: usize = 128;
/// Total flash size of ATmega32U4 (32KB).
pub const FLASH_SIZE: usize = 32768;
/// Timeout of every USB control transfer, in milliseconds.
pub const USB_TIMEOUT_MS: u64 = 2000;
/// Delay after each page write to let the flash controller finish, in milliseconds.
pub const PAGE_WRITE_DELAY_MS: u64 = 5;
/// How many times to look for the bootloader after asking the keyboard to reboot.
pub const BOOTLOADER_POLL_ATTEMPTS: u32 = 50;
/// Pause between two of those looks, in milliseconds.
pub const BOOTLOADER_POLL_INTERVAL_MS: u64 = 100;

/// HID class request: host-to-device, class, interface.
pub const HALFKAY_REQUEST_TYPE: u8 = 0x21;
/// HID SET_REPORT request code.
pub const HALFKAY_SET_REPORT: u8 = 0x09;
/// wValue for SET_REPORT: report type = Output (0x02), report ID = 0.
pub const HALFKAY_REPORT_VALUE: u16 = 0x0200;
/// Writing a page to this address tells HalfKay to jump to the application.
pub const HALFKAY_REBOOT_ADDRESS: u16 = 0xFFFF;

/// Vendor request type: host-to-device, vendor, device recipient.
pub const REBOOT_REQUEST_TYPE: u8 = 0x40;
/// The vendor request code that the firmware takes as "jump to bootloader".
pub const REBOOT_REQUEST: u8 = 0xFF;

/// The HalfKay payload for one page: the address, little-endian, then the
/// page data padded with `0xFF` to a full page.
pub open spec fn page_payload(address: int, data: Seq<u8>) -> Seq<u8> {
    seq![(address % 256) as u8, ((address / 256) % 256) as u8] + data + Seq::new(
        (PAGE_SIZE - data.len()) as nat,
        |i: int| 0xFFu8,
    )
}

/// Build the page buffer that HalfKay expects: 2-byte little-endian address
/// followed by PAGE_SIZE bytes of data. Unfilled bytes default to 0xFF
/// (matching erased flash), so short final pages are safe.
pub fn build_page_buffer(address: usize, data: &[u8]) -> (buf: Vec<u8>)
    requires
        data@.len() <= PAGE_SIZE,
    ensures
        buf@ == page_payload(address as int, data@),
        buf@.len() == 2 + PAGE_SIZE,
        buf@[0] == address % 256,
        buf@[1] == (address / 256) % 256,
        forall|i: int| 0 <= i < data@.len() ==> #[trigger] buf@[2 + i] == data@[i],
        forall|i: int| 2 + data@.len() <= i < 2 + PAGE_SIZE ==> #[trigger] buf@[i] == 0xFF,
{
    let mut buf: Vec<u8> = Vec::new();
    buf.push((address % 256) as u8);
    buf.push(((address / 256) % 256) as u8);
    let mut i: usize = 0;
    while i < data.len()
        invariant
            i <= data@.len() <= PAGE_SIZE,
            buf@ == seq![(address % 256) as u8, ((address / 256) % 256) as u8] + data@.take(i as int),
        decreases data@.len() - i,
    {
        buf.push(data[i]);
        proof {
            assert(data@.take(i + 1) == data@.take(i as int).push(data@[i as int]));
        }
        i = i + 1;
    }
    let mut k: usize = data.len();
    while k < PAGE_SIZE
        invariant
            data@.len() <= k <= PAGE_SIZE,
            buf@ == seq![(address % 256) as u8, ((address / 256) % 256) as u8] + data@ + Seq::new(
                (k - data@.len()) as nat,
                |j: int| 0xFFu8,
            ),
        decreases PAGE_SIZE - k,
    {
        buf.push(0xFF);
        k = k + 1;
    }
    proof {
        assert(data@.take(data@.len() as int) == data@);
    }
    buf
}

/// The payload that asks HalfKay to leave the bootloader: the sentinel
/// address `0xFFFF`, then a page of zeros.
pub fn reboot_payload() -> (buf: Vec<u8>)
    ensures
        buf@.len() == 2 + PAGE_SIZE,
        buf@[0] == 0xFF,
        buf@[1] == 0xFF,
        forall|i: int| 2 <= i < 2 + PAGE_SIZE ==> #[trigger] buf@[i] == 0,
{
    let mut buf: Vec<u8> = Vec::new();
    buf.push((HALFKAY_REBOOT_ADDRESS % 256) as u8);
    buf.push((HALFKAY_REBOOT_ADDRESS / 256) as u8);
    while buf.len() < 2 + PAGE_SIZE
        invariant
            2 <= buf@.len() <= 2 + PAGE_SIZE,
            buf@[0] == 0xFF,
            buf@[1] == 0xFF,
            forall|i: int| 2 <= i < buf@.len() ==> #[trigger] buf@[i] == 0,
        decreases 2 + PAGE_SIZE - buf@.len(),
    {
        buf.push(0);
    }
    buf
}

/// Page `k` of an image: its bytes from `k * PAGE_SIZE`, at most a page.
pub open spec fn page_chunk(data: Seq<u8>, k: int) -> Seq<u8> {
    let start = k * PAGE_SIZE;
    let end = if start + PAGE_SIZE < data.len() {
        start + PAGE_SIZE
    } else {
        data.len() as int
    };
    data.subrange(start, end)
}

/// Every byte is `0xFF`, as in erased flash.
pub open spec fn erased(chunk: Seq<u8>) -> bool {
    forall|i: int| 0 <= i < chunk.len() ==> #[trigger] chunk[i] == 0xFF
}

/// The number of pages an image of `len` bytes spans.
pub open spec fn pages_spanned(len: int) -> int {
    (len + PAGE_SIZE - 1) / PAGE_SIZE as int
}

/// One page write of a flashing plan.
pub struct PageWrite {
    /// Index of the page within the image.
    pub index: usize,
    /// Flash address of the page.
    pub address: usize,
    /// The HalfKay payload to send for it.
    pub payload: Vec<u8>,
}

/// The writes for the first `k` pages of an image at `base`: one for each
/// page that is not erased, in page order, as (index, address, payload).
pub open spec fn planned_writes(base: int, data: Seq<u8>, k: int) -> Seq<(int, int, Seq<u8>)>
    decreases k,
{
    if k <= 0 {
        Seq::empty()
    } else {
        let prev = planned_writes(base, data, k - 1);
        let chunk = page_chunk(data, k - 1);
        if erased(chunk) {
            prev
        } else {
            let address = base + (k - 1) * PAGE_SIZE;
            prev.push((k - 1, address, page_payload(address, chunk)))
        }
    }
}

pub open spec fn writes_view(v: Seq<PageWrite>) -> Seq<(int, int, Seq<u8>)> {
    Seq::new(v.len(), |i: int| (v[i].index as int, v[i].address as int, v[i].payload@))
}

/// The page count of an image of `len` bytes.
pub fn page_count(len: usize) -> (r: usize)
    ensures
        r == pages_spanned(len as int),
{
    len / PAGE_SIZE + if len % PAGE_SIZE == 0 { 0 } else { 1 }
}

/// Whether every byte of a slice is `0xFF`.
fn all_erased(chunk: &[u8]) -> (r: bool)
    ensures
        r == erased(chunk@),
{
    let mut i: usize = 0;
    while i < chunk.len()
        invariant
            i <= chunk@.len(),
            forall|j: int| 0 <= j < i ==> #[trigger] chunk@[j] == 0xFF,
        decreases chunk@.len() - i,
    {
        if chunk[i] != 0xFF {
            return false;
        }
        i = i + 1;
    }
    true
}

/// What flashing an image at `base_address` writes: fails when the image
/// runs past the end of flash; otherwise one HalfKay payload per 128-byte
/// page that is not already erased, in order.
pub fn plan_flash(base_address: u32, data: &[u8]) -> (r: Result<Vec<PageWrite>, ImageError>)
    ensures
        (base_address + data@.len() > FLASH_SIZE) <==> r is Err,
        r is Err ==> r == Err::<Vec<PageWrite>, ImageError>(ImageError::TooLarge),
        r matches Ok(v) ==> writes_view(v@) == planned_writes(
            base_address as int,
            data@,
            pages_spanned(data@.len() as int),
        ),
{
    if data.len() > FLASH_SIZE || base_address as usize > FLASH_SIZE - data.len() {
        return Err(ImageError::TooLarge);
    }
    let base = base_address as usize;
    let n = data.len();
    let pages = page_count(n);
    let mut writes: Vec<PageWrite> = Vec::new();
    let mut k: usize = 0;
    while k < pages
        invariant
            n == data@.len(),
            base + n <= FLASH_SIZE,
            pages == pages_spanned(n as int),
            k <= pages,
            writes_view(writes@) == planned_writes(base as int, data@, k as int),
        decreases pages - k,
    {
        assert(k * PAGE_SIZE < n) by (nonlinear_arith)
            requires
                k < pages,
                pages == (n + PAGE_SIZE - 1) / PAGE_SIZE as int,
        ;
        let start = k * PAGE_SIZE;
        let end = if start + PAGE_SIZE < n { start + PAGE_SIZE } else { n };
        let chunk = slice_subrange(data, start, end);
        let ghost before = writes_view(writes@);
        if !all_erased(chunk) {
            let address = base + start;
            let payload = build_page_buffer(address, chunk);
            writes.push(PageWrite { index: k, address, payload });
            proof {
                assert(writes_view(writes@) == before.push(
                    (k as int, address as int, page_payload(address as int, chunk@)),
                ));
            }
        }
        assert(writes_view(writes@) == planned_writes(base as int, data@, k + 1));
        k = k + 1;
    }
    Ok(writes)
}

/// Whether a USB device is the HalfKay bootloader.
pub fn is_halfkay(vendor_id: u16, product_id: u16) -> (r: bool)
    ensures
        r == (vendor_id == HALFKAY_VID && product_id == HALFKAY_PID),
{
    vendor_id == HALFKAY_VID && product_id == HALFKAY_PID
}

/// Whether a USB device is the running keyboard.
pub fn is_keyboard(vendor_id: u16, product_id: u16) -> (r: bool)
    ensures
        r == (vendor_id == KEYBOARD_VID && product_id == KEYBOARD_PID),
{
    vendor_id == KEYBOARD_VID && product_id == KEYBOARD_PID
}

/// Where the search for the bootloader before flashing stands.
#[derive(Clone, Copy, PartialEq, Eq, Structural, Debug)]
pub enum BootloaderSearch {
    /// Nothing done yet: look for HalfKay.
    Initial,
    /// The keyboard was asked to reboot; `polls` looks for HalfKay have failed since.
    Rebooting { polls: u32 },
}

/// What to do next in the search.
#[derive(Clone, Copy, PartialEq, Eq, Structural, Debug)]
pub enum SearchAction {
    /// HalfKay is present: flash.
    Flash,
    /// HalfKay is absent: ask a running keyboard to reboot into it.
    RequestReboot,
    /// Wait one poll interval, then look for HalfKay again.
    PollAgain,
    /// Neither HalfKay nor a running keyboard was found.
    NotFound,
    /// HalfKay did not appear within the polls allowed after a reboot request.
    NotFoundAfterReboot,
}

/// The search after looking for HalfKay and finding it `present` or not.
pub fn after_detect(state: BootloaderSearch, present: bool) -> (r: (BootloaderSearch, SearchAction))
    requires
        state matches BootloaderSearch::Rebooting { polls } ==> polls < BOOTLOADER_POLL_ATTEMPTS,
    ensures
        present ==> r.1 == SearchAction::Flash && r.0 == state,
        !present && state == BootloaderSearch::Initial ==> r == (state, SearchAction::RequestReboot),
        !present ==> (state matches BootloaderSearch::Rebooting { polls } ==> if polls + 1
            < BOOTLOADER_POLL_ATTEMPTS {
            r == (BootloaderSearch::Rebooting { polls: (polls + 1) as u32 }, SearchAction::PollAgain)
        } else {
            r == (BootloaderSearch::Rebooting { polls: (polls + 1) as u32 }, SearchAction::NotFoundAfterReboot)
        }),
        r.0 matches BootloaderSearch::Rebooting { polls } ==> polls <= BOOTLOADER_POLL_ATTEMPTS,
        r.1 == SearchAction::PollAgain ==> (r.0 matches BootloaderSearch::Rebooting { polls } && polls
            < BOOTLOADER_POLL_ATTEMPTS),
{
    if present {
        return (state, SearchAction::Flash);
    }
    match state {
        BootloaderSearch::Initial => (state, SearchAction::RequestReboot),
        BootloaderSearch::Rebooting { polls } => {
            let next = BootloaderSearch::Rebooting { polls: polls + 1 };
            if polls + 1 < BOOTLOADER_POLL_ATTEMPTS {
                (next, SearchAction::PollAgain)
            } else {
                (next, SearchAction::NotFoundAfterReboot)
            }
        },
    }
}

/// The search after asking a running keyboard to reboot: poll for HalfKay
/// if a keyboard took the request, else give up.
pub fn after_reboot_request(keyboard_found: bool) -> (r: (BootloaderSearch, SearchAction))
    ensures
        keyboard_found ==> r == (BootloaderSearch::Rebooting { polls: 0 }, SearchAction::PollAgain),
        !keyboard_found ==> r == (BootloaderSearch::Initial, SearchAction::NotFound),
{
    if keyboard_found {
        (BootloaderSearch::Rebooting { polls: 0 }, SearchAction::PollAgain)
    } else {
        (BootloaderSearch::Initial, SearchAction::NotFound)
    }
}

} // verus!
