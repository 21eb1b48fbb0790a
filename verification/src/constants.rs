//! Protocol opcodes, USB identifiers, clock and timing tables, and the SID
//! address helper.
//!
//! The first byte of every packet sent to the device carries an opcode in its
//! top two bits and, depending on the opcode, a sub-command or a byte count
//! in its lower six bits.

use vstd::prelude::*;

verus! {

// ── USB identifiers ──────────────────────────────────────────────────────

/// USB Vendor ID for USBSID-Pico.
pub const VENDOR_ID: u16 = 0xCAFE;

/// USB Product ID for USBSID-Pico.
pub const PRODUCT_ID: u16 = 0x4011;

// ── CDC-ACM control lines ────────────────────────────────────────────────

/// CDC control line: Data Terminal Ready.
pub const ACM_CTRL_DTR: u16 = 0x01;

/// CDC control line: Request To Send.
pub const ACM_CTRL_RTS: u16 = 0x02;

// ── Buffer sizes ─────────────────────────────────────────────────────────

/// Size of the IN (read) buffer in bytes.
pub const LEN_IN_BUFFER: usize = 1;

/// Size of the OUT (write) buffer in bytes.
pub const LEN_OUT_BUFFER: usize = 64;

// ── Protocol opcodes (byte 0, top 2 bits) ────────────────────────────────

/// Plain register write (top 2 bits = 0b00).
pub const OP_WRITE: u8 = 0;

/// Register read request (top 2 bits = 0b01).
pub const OP_READ: u8 = 1;

/// Cycle-delayed write (top 2 bits = 0b10).
pub const OP_CYCLED_WRITE: u8 = 2;

/// Device command (top 2 bits = 0b11).
pub const OP_COMMAND: u8 = 3;

// ── Command sub-opcodes (byte 0, lower 6 bits when top 2 = COMMAND) ──────

pub const CMD_PAUSE: u8 = 10;

pub const CMD_UNPAUSE: u8 = 11;

pub const CMD_MUTE: u8 = 12;

pub const CMD_UNMUTE: u8 = 13;

pub const CMD_RESET_SID: u8 = 14;

pub const CMD_DISABLE_SID: u8 = 15;

pub const CMD_ENABLE_SID: u8 = 16;

pub const CMD_CLEAR_BUS: u8 = 17;

pub const CMD_CONFIG: u8 = 18;

pub const CMD_RESET_MCU: u8 = 19;

pub const CMD_BOOTLOADER: u8 = 20;

// ── Helpers to build the first protocol byte ─────────────────────────────

/// The byte whose top two bits hold `op` and whose lower six bits hold the
/// lower six bits of `low`: what the device decodes from a header byte.
pub open spec fn header_of(op: u8, low: u8) -> u8 {
    (64 * (op % 4) + low % 64) as u8
}

/// The opcode that the device reads from the top two bits of a header byte.
pub open spec fn opcode_of(b: u8) -> u8 {
    (b / 64) as u8
}

/// The count or sub-command that the device reads from the lower six bits
/// of a header byte.
pub open spec fn low_bits_of(b: u8) -> u8 {
    (b % 64) as u8
}

/// Build a command byte: `(COMMAND << 6) | sub_cmd`.
pub fn command_byte(sub_cmd: u8) -> (r: u8)
    ensures
        r == (0xC0u8 | sub_cmd),
        sub_cmd < 64 ==> r == header_of(OP_COMMAND, sub_cmd),
{
    let r = (OP_COMMAND << 6u8) | sub_cmd;
    assert((3u8 << 6u8) == 0xC0u8) by (bit_vector);
    assert(sub_cmd < 64 ==> (0xC0u8 | sub_cmd) == 0xC0 + sub_cmd) by (bit_vector);
    r
}

/// Build a cycled-write header byte with a byte count in the lower 6 bits.
pub fn cycled_write_header(count: u8) -> (r: u8)
    ensures
        r == (0x80u8 | count),
        count < 64 ==> r == header_of(OP_CYCLED_WRITE, count),
{
    let r = (OP_CYCLED_WRITE << 6u8) | count;
    assert((2u8 << 6u8) == 0x80u8) by (bit_vector);
    assert(count < 64 ==> (0x80u8 | count) == 0x80 + count) by (bit_vector);
    r
}

/// Build a plain-write header byte with a byte count in the lower 6 bits.
pub fn write_header(count: u8) -> (r: u8)
    ensures
        r == count,
        count < 64 ==> r == header_of(OP_WRITE, count),
{
    let r = (OP_WRITE << 6u8) | count;
    assert(((0u8 << 6u8) | count) == count) by (bit_vector);
    r
}

/// Build a read header byte.
pub fn read_header() -> (r: u8)
    ensures
        r == 0x40,
        r == header_of(OP_READ, 0),
{
    let r = OP_READ << 6u8;
    assert((1u8 << 6u8) == 0x40u8) by (bit_vector);
    r
}

/// A header byte built from an opcode and a count below 64 gives back that
/// opcode and that count to the device that decodes it.
pub proof fn law_header_round_trip(op: u8, count: u8)
    requires
        op < 4,
        count < 64,
    ensures
        opcode_of(header_of(op, count)) == op,
        low_bits_of(header_of(op, count)) == count,
{
}

// ── Clock speeds ─────────────────────────────────────────────────────────

/// CPU clock speed presets (cycles per second).
#[derive(Debug, Clone, Copy, PartialEq, Eq, Structural)]
pub enum ClockSpeed {
    /// 1 MHz fallback.
    Default,
    /// PAL – 0.985 248 MHz.
    Pal,
    /// NTSC – 1.022 727 MHz.
    Ntsc,
    /// DREAN – 1.023 440 MHz.
    Drean,
    /// NTSC variant 2 – 1.022 730 MHz.
    Ntsc2,
}

impl ClockSpeed {
    /// Cycles per second of the preset.
    pub open spec fn rate(self) -> i64 {
        match self {
            ClockSpeed::Default => 1_000_000,
            ClockSpeed::Pal => 985_248,
            ClockSpeed::Ntsc => 1_022_727,
            ClockSpeed::Drean => 1_023_440,
            ClockSpeed::Ntsc2 => 1_022_730,
        }
    }

    /// Cycles per second of the preset.
    pub fn value(&self) -> (r: i64)
        ensures
            r == self.rate(),
    {
        match self {
            ClockSpeed::Default => 1_000_000,
            ClockSpeed::Pal => 985_248,
            ClockSpeed::Ntsc => 1_022_727,
            ClockSpeed::Drean => 1_023_440,
            ClockSpeed::Ntsc2 => 1_022_730,
        }
    }
}

/// Refresh rates in cycles (microsecond-scale).
#[derive(Debug, Clone, Copy, PartialEq, Eq, Structural)]
pub enum RefreshRate {
    /// 50 Hz fallback (20 000 cycles).
    Default,
    /// PAL ~50.125 Hz (19 950 cycles).
    Eu,
    /// NTSC ~59.826 Hz (16 715 cycles).
    Us,
}

impl RefreshRate {
    /// Cycles per refresh frame.
    pub open spec fn rate(self) -> i64 {
        match self {
            RefreshRate::Default => 20_000,
            RefreshRate::Eu => 19_950,
            RefreshRate::Us => 16_715,
        }
    }

    /// Cycles per refresh frame.
    pub fn value(&self) -> (r: i64)
        ensures
            r == self.rate(),
    {
        match self {
            RefreshRate::Default => 20_000,
            RefreshRate::Eu => 19_950,
            RefreshRate::Us => 16_715,
        }
    }
}

/// Raster rates in cycles.
#[derive(Debug, Clone, Copy, PartialEq, Eq, Structural)]
pub enum RasterRate {
    /// Fallback (20 000 cycles).
    Default,
    /// PAL: 63 cycles × 312 lines = 19 656 cycles/frame.
    Eu,
    /// NTSC: 65 cycles × 263 lines = 17 096 cycles/frame.
    Us,
}

impl RasterRate {
    /// Cycles per raster frame.
    pub open spec fn rate(self) -> i64 {
        match self {
            RasterRate::Default => 20_000,
            RasterRate::Eu => 19_656,
            RasterRate::Us => 17_096,
        }
    }

    /// Cycles per raster frame.
    pub fn value(&self) -> (r: i64)
        ensures
            r == self.rate(),
    {
        match self {
            RasterRate::Default => 20_000,
            RasterRate::Eu => 19_656,
            RasterRate::Us => 17_096,
        }
    }
}

/// Number of entries in the clock table.
pub const CLOCK_TABLE_LEN: usize = 5;

/// The clock table: entry `i` maps a clock-speed index to its associated
/// rates. Index 0 = Default, 1 = PAL, 2 = NTSC, 3 = DREAN, 4 = NTSC2.
pub open spec fn clock_entry(i: int) -> (ClockSpeed, RefreshRate, RasterRate) {
    if i == 1 {
        (ClockSpeed::Pal, RefreshRate::Eu, RasterRate::Eu)
    } else if i == 2 {
        (ClockSpeed::Ntsc, RefreshRate::Us, RasterRate::Us)
    } else if i == 3 {
        (ClockSpeed::Drean, RefreshRate::Us, RasterRate::Us)
    } else if i == 4 {
        (ClockSpeed::Ntsc2, RefreshRate::Us, RasterRate::Us)
    } else {
        (ClockSpeed::Default, RefreshRate::Default, RasterRate::Default)
    }
}

/// The index of the clock-table entry whose clock speed is `rate`, or -1.
pub open spec fn clock_position(rate: i64) -> int {
    if rate == clock_entry(0).0.rate() {
        0
    } else if rate == clock_entry(1).0.rate() {
        1
    } else if rate == clock_entry(2).0.rate() {
        2
    } else if rate == clock_entry(3).0.rate() {
        3
    } else if rate == clock_entry(4).0.rate() {
        4
    } else {
        -1
    }
}

/// Entry `i` of the clock table.
pub fn clock_table_entry(i: usize) -> (r: (ClockSpeed, RefreshRate, RasterRate))
    requires
        i < CLOCK_TABLE_LEN,
    ensures
        r == clock_entry(i as int),
{
    if i == 1 {
        (ClockSpeed::Pal, RefreshRate::Eu, RasterRate::Eu)
    } else if i == 2 {
        (ClockSpeed::Ntsc, RefreshRate::Us, RasterRate::Us)
    } else if i == 3 {
        (ClockSpeed::Drean, RefreshRate::Us, RasterRate::Us)
    } else if i == 4 {
        (ClockSpeed::Ntsc2, RefreshRate::Us, RasterRate::Us)
    } else {
        (ClockSpeed::Default, RefreshRate::Default, RasterRate::Default)
    }
}

/// The index of the first clock-table entry whose clock speed is `rate`
/// cycles per second, or `None` when no entry has that speed.
pub fn clock_index(rate: i64) -> (r: Option<usize>)
    ensures
        match r {
            Some(i) => {
                &&& i < CLOCK_TABLE_LEN
                &&& clock_entry(i as int).0.rate() == rate
                &&& forall|j: int| 0 <= j < i ==> clock_entry(j).0.rate() != rate
            },
            None => forall|j: int| 0 <= j < CLOCK_TABLE_LEN ==> clock_entry(j).0.rate() != rate,
        },
        r == (if clock_position(rate) >= 0 {
            Some(clock_position(rate) as usize)
        } else {
            None
        }),
{
    let mut i: usize = 0;
    while i < CLOCK_TABLE_LEN
        invariant
            i <= CLOCK_TABLE_LEN,
            forall|j: int| 0 <= j < i ==> clock_entry(j).0.rate() != rate,
        decreases CLOCK_TABLE_LEN - i,
    {
        let entry = clock_table_entry(i);
        if entry.0.value() == rate {
            return Some(i);
        }
        i = i + 1;
    }
    None
}

/// The clock speeds of the table are pairwise distinct, so a clock speed
/// picks out one entry.
pub proof fn law_clock_speeds_distinct(i: int, j: int)
    requires
        0 <= i < CLOCK_TABLE_LEN,
        0 <= j < CLOCK_TABLE_LEN,
        i != j,
    ensures
        clock_entry(i).0.rate() != clock_entry(j).0.rate(),
{
}

// ── Ring-buffer defaults ─────────────────────────────────────────────────

pub const MIN_DIFF_SIZE: usize = 16;

pub const MIN_RING_SIZE: usize = 256;

pub const DEFAULT_DIFF_SIZE: usize = 64;

pub const DEFAULT_RING_SIZE: usize = 32768;

// ── SID address helpers ──────────────────────────────────────────────────

/// The register byte that the device expects for a 16-bit C64 address:
/// `$D400–$D499` map to their low byte; the `$D500–$D599` and `$DE00–$DF99`
/// ranges fold into the second-SID region at `$40–$7F`; every other address
/// maps to its low byte.
pub open spec fn spec_sid_address(addr: u16) -> u8 {
    if (0xD500 <= addr <= 0xD599) || (0xDE00 <= addr <= 0xDF99) {
        (0x40 + addr % 64) as u8
    } else {
        (addr % 256) as u8
    }
}

/// Translate a 16-bit C64 address into the 8-bit register byte the device expects.
///
/// Maps `$D400–$D499` directly, and folds `$D500`/`$DE00`/`$DF00` ranges
/// into the second-SID region at `$D440`.
pub fn sid_address(addr: u16) -> (r: u8)
    ensures
        r == spec_sid_address(addr),
{
    let sid_lmask: u16 = 0xFF;
    let sid2_mask: u16 = 0x3F;
    let sid3_addr: u16 = 0xD440;
    assert((addr & 0xFFu16) == addr % 256) by (bit_vector);
    assert(((0xD440u16 | (addr & 0x3Fu16)) & 0xFFu16) == 0x40 + addr % 64) by (bit_vector);
    if 0xD400 <= addr && addr <= 0xD499 {
        (addr & sid_lmask) as u8
    } else if (0xD500 <= addr && addr <= 0xD599) || (0xDE00 <= addr && addr <= 0xDF99) {
        ((sid3_addr | (addr & sid2_mask)) & sid_lmask) as u8
    } else {
        (addr & sid_lmask) as u8
    }
}

/// Every address lands in the register space of the four SIDs or below
/// `$100`; the folded ranges land in the second-SID region `$40–$7F`.
pub proof fn law_sid_address_folds(addr: u16)
    ensures
        ((0xD500 <= addr <= 0xD599) || (0xDE00 <= addr <= 0xDF99)) ==> 0x40 <= spec_sid_address(
            addr,
        ) < 0x80,
        (0xD400 <= addr <= 0xD47F) ==> spec_sid_address(addr) == addr - 0xD400,
{
}

/// A folded address keeps its low six bits: it lands in `$40–$7F` at
/// `$40` plus its offset within a 64-byte block (e.g. `$D520` to `$60`);
/// every other address keeps its low byte.
pub proof fn law_sid_address_keeps_low_bits(addr: u16)
    ensures
        ((0xD500 <= addr <= 0xD599) || (0xDE00 <= addr <= 0xDF99)) ==> {
            &&& spec_sid_address(addr) as int % 64 == addr as int % 64
            &&& spec_sid_address(addr) / 64 == 1
        },
        !((0xD500 <= addr <= 0xD599) || (0xDE00 <= addr <= 0xDF99)) ==> spec_sid_address(addr)
            as int == addr as int % 256,
{
}

/// Two folded addresses share a register exactly when they share their
/// low six bits, so SIDs mapped 32 bytes apart stay apart.
pub proof fn law_sid_address_folded_collide(a: u16, b: u16)
    requires
        (0xD500 <= a <= 0xD599) || (0xDE00 <= a <= 0xDF99),
        (0xD500 <= b <= 0xD599) || (0xDE00 <= b <= 0xDF99),
    ensures
        spec_sid_address(a) == spec_sid_address(b) <==> a % 64 == b % 64,
{
}

} // verus!
