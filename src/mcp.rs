//! State of the MCP23018 I/O expander that carries the second half of the
//! matrix, and the checks on the TWI (I2C) status register. The bus
//! transactions themselves are done by the caller.

use vstd::prelude::*;

verus! {

/// MCP23018 base I2C address; the PCB may strap the low three bits.
pub const MCP23018_BASE_ADDR: u8 = 0x20;
/// Number of addresses the expander may answer at.
pub const MCP23018_ADDRESSES: u8 = 8;

/// I/O direction A: 0 = output.
pub const IODIRA: u8 = 0x00;
/// I/O direction B: 1 = input.
pub const IODIRB: u8 = 0x01;
/// Pull-up enable B.
pub const GPPUB: u8 = 0x0D;
/// Port A data (columns).
pub const GPIOA: u8 = 0x12;
/// Port B data (rows).
pub const GPIOB: u8 = 0x13;

/// The register writes that configure the expander, in order: port A all
/// outputs, port B all inputs, pull-ups on port B, columns driven high.
pub const CONFIGURATION: [(u8, u8); 4] = [(IODIRA, 0x00), (IODIRB, 0xFF), (GPPUB, 0xFF), (GPIOA, 0xFF)];

/// TWBR for ~100kHz at 16MHz CPU with prescaler 1: 16MHz / (16 + 2 * 72).
pub const TWBR_VALUE: u8 = 72;
/// Mask of the status bits of TWSR (the low bits hold the prescaler).
pub const TW_STATUS_MASK: u8 = 0xF8;
/// A START condition has been transmitted.
pub const TW_START: u8 = 0x08;
/// A repeated START condition has been transmitted.
pub const TW_REP_START: u8 = 0x10;
/// SLA+W transmitted, ACK received.
pub const TW_MT_SLA_ACK: u8 = 0x18;
/// Data byte transmitted, ACK received.
pub const TW_MT_DATA_ACK: u8 = 0x28;
/// SLA+R transmitted, ACK received.
pub const TW_MR_SLA_ACK: u8 = 0x40;
/// Data byte received, NACK returned.
pub const TW_MR_DATA_NACK: u8 = 0x58;
/// Iterations of a busy-wait before giving up on the bus.
pub const TWI_TIMEOUT: u16 = 0xFFFF;
/// Consecutive failed transactions after which the expander is taken offline.
pub const MAX_ERRORS: u8 = 10;

/// The status bits of a raw TWSR value.
pub fn twi_status(twsr: u8) -> (r: u8)
    ensures
        r == twsr & TW_STATUS_MASK,
{
    twsr & TW_STATUS_MASK
}

/// A START (or repeated START) went out.
pub fn start_ok(twsr: u8) -> (r: bool)
    ensures
        r == ((twsr & TW_STATUS_MASK) == TW_START || (twsr & TW_STATUS_MASK) == TW_REP_START),
{
    let status = twi_status(twsr);
    status == TW_START || status == TW_REP_START
}

/// An address or data byte was acknowledged.
pub fn write_ok(twsr: u8) -> (r: bool)
    ensures
        r == ((twsr & TW_STATUS_MASK) == TW_MT_SLA_ACK || (twsr & TW_STATUS_MASK) == TW_MT_DATA_ACK
            || (twsr & TW_STATUS_MASK) == TW_MR_SLA_ACK),
{
    let status = twi_status(twsr);
    status == TW_MT_SLA_ACK || status == TW_MT_DATA_ACK || status == TW_MR_SLA_ACK
}

/// The last byte of a read arrived and was answered with NACK.
pub fn read_ok(twsr: u8) -> (r: bool)
    ensures
        r == ((twsr & TW_STATUS_MASK) == TW_MR_DATA_NACK),
{
    twi_status(twsr) == TW_MR_DATA_NACK
}

/// The GPIOA value that drives column `col` low and the others high.
pub fn column_pattern(col: u8) -> (r: u8)
    requires
        col < 8,
    ensures
        r == !(1u8 << col),
{
    !(1u8 << col)
}

/// Driver state of the MCP23018.
pub struct Mcp23018 {
    addr: u8,
    initialized: bool,
    errors: u8,
}

impl Mcp23018 {
    /// The address in use.
    pub closed spec fn spec_addr(&self) -> u8 {
        self.addr
    }

    /// Whether the expander is configured and scanned.
    pub closed spec fn spec_initialized(&self) -> bool {
        self.initialized
    }

    /// Consecutive failed transactions.
    pub closed spec fn spec_errors(&self) -> u8 {
        self.errors
    }

    /// The address is one the expander can have.
    pub closed spec fn wf(&self) -> bool {
        MCP23018_BASE_ADDR <= self.addr < MCP23018_BASE_ADDR + MCP23018_ADDRESSES
    }

    /// At the base address, not initialized, no errors.
    pub fn new() -> (r: Self)
        ensures
            r.wf(),
            r.spec_addr() == MCP23018_BASE_ADDR,
            !r.spec_initialized(),
            r.spec_errors() == 0,
    {
        Mcp23018 { addr: MCP23018_BASE_ADDR, initialized: false, errors: 0 }
    }

    /// Whether the MCP23018 is currently initialized and scanning.
    pub fn is_ok(&self) -> (r: bool)
        ensures
            r == self.spec_initialized(),
    {
        self.initialized
    }

    /// The address to probe next while searching: `0x20 + offset`.
    pub fn select_address(&mut self, offset: u8)
        requires
            offset < MCP23018_ADDRESSES,
        ensures
            final(self).wf(),
            final(self).spec_addr() == MCP23018_BASE_ADDR + offset,
            final(self).spec_initialized() == old(self).spec_initialized(),
            final(self).spec_errors() == old(self).spec_errors(),
    {
        self.addr = MCP23018_BASE_ADDR + offset;
    }

    /// The address byte of a write transaction (address shifted left, bit 0 clear).
    pub fn write_address(&self) -> (r: u8)
        requires
            self.wf(),
        ensures
            r == self.spec_addr() * 2,
    {
        self.addr * 2
    }

    /// The address byte of a read transaction (address shifted left, bit 0 set).
    pub fn read_address(&self) -> (r: u8)
        requires
            self.wf(),
        ensures
            r == self.spec_addr() * 2 + 1,
    {
        self.addr * 2 + 1
    }

    /// The expander answered and took its configuration.
    pub fn mark_configured(&mut self)
        ensures
            final(self).spec_initialized(),
            final(self).spec_addr() == old(self).spec_addr(),
            final(self).spec_errors() == old(self).spec_errors(),
    {
        self.initialized = true;
    }

    /// Start of a re-initialization attempt: only when offline; then the
    /// error count starts over and the caller reconfigures the expander.
    pub fn begin_reinit(&mut self) -> (r: bool)
        ensures
            r == !old(self).spec_initialized(),
            r ==> final(self).spec_errors() == 0,
            !r ==> final(self).spec_errors() == old(self).spec_errors(),
            final(self).spec_initialized() == old(self).spec_initialized(),
            final(self).spec_addr() == old(self).spec_addr(),
    {
        if !self.initialized {
            self.errors = 0;
            true
        } else {
            false
        }
    }

    /// After 10 consecutive I2C errors, disable scanning to avoid phantom keys.
    pub fn mark_error(&mut self)
        ensures
            final(self).spec_errors() == if old(self).spec_errors() == 0xFF {
                0xFF
            } else {
                (old(self).spec_errors() + 1) as u8
            },
            final(self).spec_initialized() == (old(self).spec_initialized() && final(self).spec_errors()
                < MAX_ERRORS),
            final(self).spec_addr() == old(self).spec_addr(),
    {
        self.errors = self.errors.saturating_add(1);
        if self.errors >= MAX_ERRORS {
            self.initialized = false;
        }
    }

    /// The row bits of a column scan, given what the bus gave back: the byte
    /// read (the error count starts over), or nothing when a transaction
    /// failed (an error is counted and no key reads as pressed, `0xFF`).
    pub fn finish_scan(&mut self, read: Option<u8>) -> (r: u8)
        ensures
            final(self).spec_addr() == old(self).spec_addr(),
            read matches Some(v) ==> r == v && final(self).spec_errors() == 0
                && final(self).spec_initialized() == old(self).spec_initialized(),
            read is None ==> r == 0xFF && final(self).spec_errors() == if old(self).spec_errors() == 0xFF {
                0xFF
            } else {
                (old(self).spec_errors() + 1) as u8
            } && final(self).spec_initialized() == (old(self).spec_initialized()
                && final(self).spec_errors() < MAX_ERRORS),
    {
        match read {
            Some(v) => {
                self.errors = 0;
                v
            },
            None => {
                self.mark_error();
                0xFF
            },
        }
    }
}

} // verus!
