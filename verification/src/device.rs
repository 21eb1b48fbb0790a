//! The driver's state and its decisions.
//!
//! [`UsbSid`] holds everything the driver decides on: whether the port is
//! open, the write mode, the ring buffer of the threaded mode, the clock
//! rates and the device information cached from earlier queries. Each
//! operation either answers from that state or says which packet goes to
//! the device; the caller performs the transfer and, for a query, hands the
//! reply back.

use vstd::prelude::*;

use crate::constants::{
    clock_entry, clock_index, clock_position, clock_table_entry, command_byte,
    cycled_write_header, header_of, read_header, ClockSpeed, RasterRate, RefreshRate,
    CLOCK_TABLE_LEN, CMD_CLEAR_BUS, CMD_CONFIG, CMD_DISABLE_SID, CMD_ENABLE_SID, CMD_MUTE,
    CMD_PAUSE, CMD_RESET_SID, CMD_UNMUTE, DEFAULT_DIFF_SIZE, DEFAULT_RING_SIZE, LEN_OUT_BUFFER,
    MIN_DIFF_SIZE, MIN_RING_SIZE, OP_COMMAND, OP_CYCLED_WRITE, OP_READ,
};
use crate::error::UsbSidError;
use crate::framing::{frame_seq, packets_cut, record_len, PacketWriter};
use crate::ringbuffer::{at_least, slot, RingBuffer};

verus! {

/// The driver's state as the contracts speak of it.
pub struct DriverState {
    /// The constructor has run.
    pub initialised: bool,
    /// A transport to the device is attached.
    pub available: bool,
    /// The port is open and ready for I/O.
    pub open: bool,
    /// Writes go through the ring buffer and the background writer.
    pub threaded: bool,
    /// Ring-buffer records carry a 16-bit cycle count.
    pub with_cycles: bool,
    /// The background writer is asked to run.
    pub thread_running: bool,
    /// A running writer holds the ring buffer, so it cannot be reconfigured.
    pub ring_shared: bool,
    /// A flush of the ring buffer is requested.
    pub flush: bool,
    /// The writer has completed the last requested flush.
    pub flush_done: bool,
    /// Size of the packet buffers.
    pub len_out: usize,
    /// CPU cycles per second.
    pub cycles_per_sec: i64,
    /// Cycles per refresh frame.
    pub cycles_per_frame: i64,
    /// Cycles per raster frame.
    pub cycles_per_raster: i64,
    /// The device's clock rate has been read.
    pub clk_retrieved: bool,
    /// The clock rate the device runs at: the one it reported, or the one
    /// it was last told.
    pub us_clkrate: i64,
    /// Cached number of SIDs (0: not known yet).
    pub num_sids: i32,
    /// Cached FM-OPL SID (-1: not known yet).
    pub fmopl_sid: i32,
    /// Cached PCB version (-1: not known yet).
    pub pcb_version: i32,
    /// The socket configuration has been read.
    pub socket_config_retrieved: bool,
    /// Ring capacity to use when the ring is next set up.
    pub ring_size: usize,
    /// Diff threshold to use when the ring is next set up.
    pub diff_size: usize,
}

/// Answer of a device query: known already, or a packet to send whose
/// one-byte reply settles it.
pub enum Query<T> {
    /// The answer, without any transfer.
    Answer(T),
    /// Send this packet, then hand the reply to the matching `*_reply` method.
    Ask(Vec<u8>),
}

/// Outcome of [`UsbSid::set_clock_rate`].
pub enum ClockChange {
    /// The port is closed or the rate is not in the clock table: nothing changed.
    Ignored,
    /// The rates were updated; the packet, if any, tells the device.
    Applied(Option<Vec<u8>>),
}

/// Next step of [`UsbSid::init`].
#[derive(Debug, Clone, Copy, PartialEq, Eq, Structural)]
pub enum InitStep {
    /// The port is open already; nothing to do.
    AlreadyOpen,
    /// Connect a transport, then call [`UsbSid::attach_transport`].
    Connect,
}

/// How long the background writer waits before looking at the ring again.
#[derive(Debug, Clone, Copy, PartialEq, Eq, Structural)]
pub enum WriterWait {
    /// A flush is requested or the ring is above its threshold: go on at once.
    Proceed,
    /// The ring holds data below its threshold: wait up to 100 µs.
    Short,
    /// The ring is empty: wait up to 1 ms.
    Long,
}

/// A command packet: the command byte and two zero bytes.
pub open spec fn command_packet(sub_cmd: u8) -> Seq<u8> {
    seq![header_of(OP_COMMAND, sub_cmd), 0u8, 0u8]
}

/// A configuration packet: `CMD_CONFIG`, then five argument bytes.
pub open spec fn config_packet(a: u8, b: u8, c: u8, d: u8) -> Seq<u8> {
    seq![header_of(OP_COMMAND, CMD_CONFIG), a, b, c, d, 0u8]
}

/// The bytes of a cycled ring-buffer record: register, value, and the cycle
/// count high byte first.
pub open spec fn cycled_record(reg: u8, val: u8, cycles: u16) -> Seq<u8> {
    seq![reg, val, (cycles / 256) as u8, (cycles % 256) as u8]
}

/// Free slots of a ring: one slot always stays empty.
pub open spec fn free_slots(ring: RingBuffer) -> int {
    ring.size() - 1 - ring.count()
}

/// The smaller of two integers.
pub open spec fn min_int(a: int, b: int) -> int {
    if a < b {
        a
    } else {
        b
    }
}

/// A write of `bytes` into the ring `before` left `after`: the bytes go in
/// whole when the ring has room for all of them, and are dropped whole
/// otherwise.
pub open spec fn pushed_whole(after: RingBuffer, before: RingBuffer, bytes: Seq<u8>) -> bool {
    if free_slots(before) >= bytes.len() {
        after.extends(before, bytes)
    } else {
        after == before
    }
}

/// The bytes of a sequence of cycled writes, one record after the other.
pub open spec fn records(writes: Seq<(u8, u8, u16)>) -> Seq<u8>
    decreases writes.len(),
{
    if writes.len() == 0 {
        Seq::empty()
    } else {
        let w = writes.last();
        records(writes.drop_last()) + cycled_record(w.0, w.1, w.2)
    }
}

/// How many of `n` cycled writes a batch pushes into a ring with `free`
/// free slots: as many whole records as fit.
pub open spec fn batch_count(n: int, free: int) -> int {
    min_int(n, free / 4)
}

/// The rates form one entry of the clock table: the clock speed is one of
/// the table's, with the refresh and raster rates of its entry.
pub open spec fn rates_on_table(s: DriverState) -> bool {
    let i = clock_position(s.cycles_per_sec);
    &&& 0 <= i < CLOCK_TABLE_LEN
    &&& s.cycles_per_frame == clock_entry(i).1.rate()
    &&& s.cycles_per_raster == clock_entry(i).2.rate()
}

/// The clock rate known without asking the device: 0 when the port is
/// closed, the configured rate once it has been read, `None` otherwise.
pub open spec fn known_clock_rate(s: DriverState) -> Option<i64> {
    if !s.open {
        Some(0)
    } else if s.clk_retrieved {
        Some(s.cycles_per_sec)
    } else {
        None
    }
}

/// The state after the device answered the clock-rate query with `idx`.
pub open spec fn clock_reply_state(s: DriverState, idx: u8) -> DriverState {
    if idx < CLOCK_TABLE_LEN {
        let e = clock_entry(idx as int);
        DriverState {
            us_clkrate: e.0.rate(),
            cycles_per_sec: e.0.rate(),
            cycles_per_frame: e.1.rate(),
            cycles_per_raster: e.2.rate(),
            clk_retrieved: true,
            ..s
        }
    } else {
        DriverState { clk_retrieved: true, ..s }
    }
}

/// The state after the clock rate was set to the table rate `rate`: the
/// rates of its entry, and `rate` as the device's rate, which it runs at
/// from then on.
pub open spec fn clock_set_state(s: DriverState, rate: i64) -> DriverState {
    let e = clock_entry(clock_position(rate));
    DriverState {
        us_clkrate: rate,
        cycles_per_sec: e.0.rate(),
        cycles_per_frame: e.1.rate(),
        cycles_per_raster: e.2.rate(),
        ..s
    }
}

/// The SID count known without asking the device.
pub open spec fn known_num_sids(s: DriverState) -> Option<i32> {
    if !s.open {
        Some(0)
    } else if s.num_sids != 0 {
        Some(s.num_sids)
    } else {
        None
    }
}

/// The FM-OPL SID known without asking the device.
pub open spec fn known_fmopl_sid(s: DriverState) -> Option<i32> {
    if !s.open {
        Some(0)
    } else if s.fmopl_sid != -1 {
        Some(fmopl_answer(s.fmopl_sid))
    } else {
        None
    }
}

/// The PCB version known without asking the device.
pub open spec fn known_pcb_version(s: DriverState) -> Option<i32> {
    if !s.open {
        Some(0)
    } else if s.pcb_version != -1 {
        Some(s.pcb_version)
    } else {
        None
    }
}

/// The driver state right after construction.
pub open spec fn initial_state() -> DriverState {
    DriverState {
        initialised: true,
        available: false,
        open: false,
        threaded: false,
        with_cycles: false,
        thread_running: false,
        ring_shared: false,
        flush: false,
        flush_done: false,
        len_out: LEN_OUT_BUFFER,
        cycles_per_sec: ClockSpeed::Default.rate(),
        cycles_per_frame: RefreshRate::Default.rate(),
        cycles_per_raster: RasterRate::Default.rate(),
        clk_retrieved: false,
        us_clkrate: 0i64,
        num_sids: 0i32,
        fmopl_sid: -1i32,
        pcb_version: -1i32,
        socket_config_retrieved: false,
        ring_size: DEFAULT_RING_SIZE,
        diff_size: DEFAULT_DIFF_SIZE,
    }
}

/// The FM-OPL SID as reported to callers: 0 from the device means none, -1.
pub open spec fn fmopl_answer(cached: i32) -> i32 {
    if cached == 0 {
        -1i32
    } else {
        cached
    }
}

/// A reply to the socket-configuration query is accepted when all ten
/// bytes arrived, the first two are `0x37 0x7F` and the last is `0xFF`.
pub open spec fn socket_config_valid(received: Option<usize>, config: Seq<u8>) -> bool {
    &&& received == Some(10usize)
    &&& config[0] == 0x37
    &&& config[1] == 0x7F
    &&& config[9] == 0xFF
}

/// The error of a direct (non-threaded) operation, if any.
pub open spec fn direct_error(s: DriverState) -> Option<UsbSidError> {
    if !s.open {
        Some(UsbSidError::PortNotOpen)
    } else if s.threaded {
        Some(UsbSidError::ThreadedModeActive)
    } else {
        None
    }
}

// ── Laws ────────────────────────────────────────────────────────────────

/// The bytes of `n` cycled writes take four bytes each.
pub proof fn lemma_records_len(writes: Seq<(u8, u8, u16)>)
    ensures
        records(writes).len() == 4 * writes.len(),
    decreases writes.len(),
{
    if writes.len() > 0 {
        lemma_records_len(writes.drop_last());
    }
}

/// A cycled record reads back as the write it came from: register, value,
/// and the cycle count as high byte times 256 plus low byte.
pub proof fn law_cycled_record_decodes(reg: u8, val: u8, cycles: u16)
    ensures
        cycled_record(reg, val, cycles).len() == 4,
        cycled_record(reg, val, cycles)[0] == reg,
        cycled_record(reg, val, cycles)[1] == val,
        cycled_record(reg, val, cycles)[2] as int * 256 + cycled_record(reg, val, cycles)[3] as int
            == cycles as int,
{
}

/// The bytes of a batch of cycled writes are the writes' records, write by
/// write: write `i` occupies bytes `4i..4i+4` as register, value, and the
/// cycle count high byte first.
pub proof fn law_batch_bytes_decode(writes: Seq<(u8, u8, u16)>)
    ensures
        records(writes).len() == 4 * writes.len(),
        forall|i: int|
            0 <= i < writes.len() ==> {
                let b = records(writes);
                &&& b[4 * i] == (#[trigger] writes[i]).0
                &&& b[4 * i + 1] == writes[i].1
                &&& b[4 * i + 2] as int * 256 + b[4 * i + 3] as int == writes[i].2 as int
            },
    decreases writes.len(),
{
    if writes.len() > 0 {
        let init = writes.drop_last();
        let w = writes.last();
        law_batch_bytes_decode(init);
        law_cycled_record_decodes(w.0, w.1, w.2);
        let b = records(writes);
        let n = init.len() as int;
        assert forall|i: int| 0 <= i < writes.len() implies {
            &&& b[4 * i] == (#[trigger] writes[i]).0
            &&& b[4 * i + 1] == writes[i].1
            &&& b[4 * i + 2] as int * 256 + b[4 * i + 3] as int == writes[i].2 as int
        } by {
            if i < n {
                assert(init[i] == writes[i]);
                assert(b[4 * i] == records(init)[4 * i]);
                assert(b[4 * i + 1] == records(init)[4 * i + 1]);
                assert(b[4 * i + 2] == records(init)[4 * i + 2]);
                assert(b[4 * i + 3] == records(init)[4 * i + 3]);
            } else {
                assert(writes[i] == w);
                assert(b[4 * i] == cycled_record(w.0, w.1, w.2)[0]);
                assert(b[4 * i + 1] == cycled_record(w.0, w.1, w.2)[1]);
                assert(b[4 * i + 2] == cycled_record(w.0, w.1, w.2)[2]);
                assert(b[4 * i + 3] == cycled_record(w.0, w.1, w.2)[3]);
            }
        }
    }
}

/// A batch leaves the ring as the same writes pushed one at a time would:
/// the batch's bytes for one more write are its bytes so far followed by
/// that write's record, the bytes a single cycled ring write pushes.
pub proof fn law_batch_is_writes_one_by_one(writes: Seq<(u8, u8, u16)>, w: (u8, u8, u16))
    ensures
        records(writes.push(w)) == records(writes) + cycled_record(w.0, w.1, w.2),
        records(seq![w]) == cycled_record(w.0, w.1, w.2),
{
    assert(writes.push(w).drop_last() =~= writes);
    assert(seq![w].drop_last() =~= Seq::<(u8, u8, u16)>::empty());
    assert(records(Seq::<(u8, u8, u16)>::empty()) == Seq::<u8>::empty());
    assert(Seq::<u8>::empty() + cycled_record(w.0, w.1, w.2) =~= cycled_record(w.0, w.1, w.2));
}

/// Only a reply of 0 means that no SID is configured for FM-OPL: every
/// other reply byte is the FM-OPL SID itself, and is what later queries
/// answer from the cache.
pub proof fn law_fmopl_reply_meaning(s: DriverState, b: u8)
    requires
        s.open,
    ensures
        (fmopl_answer(b as i32) == -1) <==> b == 0,
        b != 0 ==> fmopl_answer(b as i32) == b as i32,
        b != 0 ==> known_fmopl_sid(DriverState { fmopl_sid: b as i32, ..s }) == Some(b as i32),
        known_fmopl_sid(DriverState { fmopl_sid: 0, ..s }) == Some(-1i32),
{
}

/// A socket-configuration reply is accepted exactly when all ten bytes
/// arrived, it starts with the echoed query byte `0x37` followed by `0x7F`,
/// and it ends with `0xFF`.
pub proof fn law_socket_config_accepted(received: Option<usize>, config: Seq<u8>)
    requires
        config.len() == 10,
    ensures
        socket_config_valid(received, config) <==> (received == Some(10usize) && config[0]
            == 0x37 && config[1] == 0x7F && config[9] == 0xFF),
        socket_config_valid(received, config) ==> config[0] == config_packet(0x37, 0, 0, 0)[1],
{
}

/// Direct I/O and the background writer exclude each other: a direct
/// operation is allowed exactly when the port is open and the driver is not
/// threaded, whatever the cycle setting; in every threaded mode it is
/// refused with `ThreadedModeActive`.
pub proof fn law_direct_io_only_unthreaded(s: DriverState)
    ensures
        direct_error(s) is None <==> (s.open && !s.threaded),
        !s.open ==> direct_error(s) == Some(UsbSidError::PortNotOpen),
        s.open && s.threaded ==> direct_error(s) == Some(UsbSidError::ThreadedModeActive),
{
}

/// A cycled ring write keeps the ring made of whole records: the record
/// goes in whole when it fits and is dropped whole when it does not.
pub proof fn law_cycled_write_keeps_whole_records(
    before: RingBuffer,
    after: RingBuffer,
    reg: u8,
    val: u8,
    cycles: u16,
)
    requires
        before.wf(),
        before@.len() % 4 == 0,
        pushed_whole(after, before, cycled_record(reg, val, cycles)),
    ensures
        after@.len() % 4 == 0,
        after@ == before@ || after@ == before@ + cycled_record(reg, val, cycles),
{
}

/// Writes reach the device in order: a cycled write into a ring with room,
/// followed by a flushing drain, delivers the bytes gathered before, the
/// ring's earlier contents, and then the record.
pub proof fn law_cycled_write_then_flush(
    gathered: Seq<u8>,
    ring_before: RingBuffer,
    ring_written: RingBuffer,
    ring_after: RingBuffer,
    reg: u8,
    val: u8,
    cycles: u16,
    packets: Seq<Seq<u8>>,
    left: Seq<u8>,
)
    requires
        ring_before.wf(),
        ring_written.wf(),
        free_slots(ring_before) >= 4,
        pushed_whole(ring_written, ring_before, cycled_record(reg, val, cycles)),
        ring_after.advanced_from(&ring_written, ring_written.count() - ring_after.count()),
        ring_after@.len() == 0,
        left.len() == 0,
        gathered + ring_written@.subrange(0, ring_written.count() - ring_after.count())
            == crate::framing::stream(packets) + left,
    ensures
        crate::framing::stream(packets) == gathered + ring_before@ + cycled_record(
            reg,
            val,
            cycles,
        ),
{
    crate::framing::law_flush_delivers_everything(
        gathered,
        ring_written,
        ring_after,
        packets,
        left,
    );
    assert(gathered + ring_written@ =~= gathered + ring_before@ + cycled_record(reg, val, cycles));
}

/// The clock rate is read from the device once: after the reply, the next
/// `get_clock_rate` answers from the cache with the rate the reply set.
pub proof fn law_clock_rate_cached_after_reply(s: DriverState, idx: u8)
    requires
        s.open,
    ensures
        known_clock_rate(clock_reply_state(s, idx)) == Some(clock_reply_state(s, idx).cycles_per_sec),
        idx < CLOCK_TABLE_LEN ==> clock_reply_state(s, idx).cycles_per_sec == clock_entry(
            idx as int,
        ).0.rate(),
{
}

/// Setting a clock rate of the table is what later reads return: the clock
/// rate itself once it is known, and the refresh and raster rates of the
/// same table entry.
pub proof fn law_clock_rate_read_after_set(s: DriverState, rate: i64)
    requires
        s.open,
        s.clk_retrieved,
        clock_position(rate) >= 0,
    ensures
        known_clock_rate(clock_set_state(s, rate)) == Some(rate),
        clock_set_state(s, rate).cycles_per_frame == clock_entry(clock_position(rate)).1.rate(),
        clock_set_state(s, rate).cycles_per_raster == clock_entry(clock_position(rate)).2.rate(),
{
}

/// The driver's rates always form one entry of the clock table: the
/// constructor, a reply of the device and a set of the clock rate each
/// leave the clock speed on a table entry, with that entry's refresh and
/// raster rates.
pub proof fn law_rates_on_clock_table(d: UsbSid)
    requires
        d.wf(),
    ensures
        0 <= clock_position(d@.cycles_per_sec) < CLOCK_TABLE_LEN,
        clock_entry(clock_position(d@.cycles_per_sec)).0.rate() == d@.cycles_per_sec,
        d@.cycles_per_frame == clock_entry(clock_position(d@.cycles_per_sec)).1.rate(),
        d@.cycles_per_raster == clock_entry(clock_position(d@.cycles_per_sec)).2.rate(),
{
}

/// Device information is asked once: after a reply, the next query answers
/// from the cache — the SID count when the device reported a non-zero
/// count, the FM-OPL SID and the PCB version always.
pub proof fn law_device_info_cached_after_reply(s: DriverState, b: u8)
    requires
        s.open,
    ensures
        b != 0 ==> known_num_sids(DriverState { num_sids: b as i32, ..s }) == Some(b as i32),
        known_fmopl_sid(DriverState { fmopl_sid: b as i32, ..s }) == Some(fmopl_answer(b as i32)),
        known_pcb_version(DriverState { pcb_version: b as i32, ..s }) == Some(b as i32),
{
}

/// Handle to a single USBSID-Pico device.
pub struct UsbSid {
    initialised: bool,
    available: bool,
    port_is_open: bool,
    threaded: bool,
    with_cycles: bool,
    run_thread: bool,
    ring_shared: bool,
    /// Ring buffer drained by the background writer.
    ring: RingBuffer,
    flush: bool,
    flush_done: bool,
    len_out_buffer: usize,
    cycles_per_sec: i64,
    cycles_per_frame: i64,
    cycles_per_raster: i64,
    clk_retrieved: bool,
    us_clkrate: i64,
    num_sids: i32,
    fmopl_sid: i32,
    pcb_version: i32,
    socket_config_retrieved: bool,
    ring_size: usize,
    diff_size: usize,
}

impl View for UsbSid {
    type V = DriverState;

    closed spec fn view(&self) -> DriverState {
        DriverState {
            initialised: self.initialised,
            available: self.available,
            open: self.port_is_open,
            threaded: self.threaded,
            with_cycles: self.with_cycles,
            thread_running: self.run_thread,
            ring_shared: self.ring_shared,
            flush: self.flush,
            flush_done: self.flush_done,
            len_out: self.len_out_buffer,
            cycles_per_sec: self.cycles_per_sec,
            cycles_per_frame: self.cycles_per_frame,
            cycles_per_raster: self.cycles_per_raster,
            clk_retrieved: self.clk_retrieved,
            us_clkrate: self.us_clkrate,
            num_sids: self.num_sids,
            fmopl_sid: self.fmopl_sid,
            pcb_version: self.pcb_version,
            socket_config_retrieved: self.socket_config_retrieved,
            ring_size: self.ring_size,
            diff_size: self.diff_size,
        }
    }
}

impl UsbSid {
    /// The ring buffer.
    pub closed spec fn ring(&self) -> RingBuffer {
        self.ring
    }

    /// The driver is well formed: it has been constructed, its ring buffer
    /// is well formed and holds whole records of the current write mode,
    /// packet buffers have room for a full packet, and the rates form an
    /// entry of the clock table.
    pub open spec fn wf(&self) -> bool {
        &&& self@.initialised
        &&& self.ring().wf()
        &&& self.ring().count() % record_len(self@.with_cycles) == 0
        &&& self@.len_out >= LEN_OUT_BUFFER
        &&& rates_on_table(self@)
    }

    // ── Construction ────────────────────────────────────────────────────

    /// Create a new, uninitialised driver instance.
    pub fn new() -> (r: Self)
        ensures
            r.wf(),
            r@ == initial_state(),
            r.ring().size() == DEFAULT_RING_SIZE,
            r.ring().threshold() == DEFAULT_DIFF_SIZE,
            r.ring()@ == Seq::<u8>::empty(),
    {
        let cycles_per_sec = ClockSpeed::Default.value();
        let cycles_per_frame = RefreshRate::Default.value();
        let cycles_per_raster = RasterRate::Default.value();
        UsbSid {
            initialised: true,
            available: false,
            port_is_open: false,
            threaded: false,
            with_cycles: false,
            run_thread: false,
            ring_shared: false,
            ring: RingBuffer::with_defaults(),
            flush: false,
            flush_done: false,
            len_out_buffer: LEN_OUT_BUFFER,
            cycles_per_sec,
            cycles_per_frame,
            cycles_per_raster,
            clk_retrieved: false,
            us_clkrate: 0,
            num_sids: 0,
            fmopl_sid: -1,
            pcb_version: -1,
            socket_config_retrieved: false,
            ring_size: DEFAULT_RING_SIZE,
            diff_size: DEFAULT_DIFF_SIZE,
        }
    }

    // ── Lifecycle ───────────────────────────────────────────────────────

    /// First step of opening the connection.
    ///
    /// Fails with `NotInitialised` before construction has run; answers
    /// `AlreadyOpen` when the port is open, with nothing changed; otherwise
    /// records the requested write mode, empties the ring (a new connection
    /// starts with no pending writes) and asks the caller to connect a
    /// transport.
    pub fn init(&mut self, start_threaded: bool, with_cycles: bool) -> (r: Result<
        InitStep,
        UsbSidError,
    >)
        requires
            old(self).wf(),
        ensures
            final(self).wf(),
            !old(self)@.initialised ==> r == Err::<InitStep, UsbSidError>(
                UsbSidError::NotInitialised,
            ) && final(self)@ == old(self)@ && final(self).ring() == old(self).ring(),
            old(self)@.open ==> r == Ok::<InitStep, UsbSidError>(InitStep::AlreadyOpen)
                && final(self)@ == old(self)@ && final(self).ring() == old(self).ring(),
            !old(self)@.open ==> r == Ok::<InitStep, UsbSidError>(InitStep::Connect)
                && final(self)@ == (DriverState {
                threaded: start_threaded,
                with_cycles: with_cycles,
                ..old(self)@
            }) && final(self).ring()@ == Seq::<u8>::empty() && final(self).ring().size()
                == old(self).ring().size() && final(self).ring().threshold() == old(
                self,
            ).ring().threshold(),
    {
        if !self.initialised {
            return Err(UsbSidError::NotInitialised);
        }
        if self.port_is_open {
            return Ok(InitStep::AlreadyOpen);
        }
        self.ring.reset();
        self.threaded = start_threaded;
        self.with_cycles = with_cycles;
        Ok(InitStep::Connect)
    }

    /// A transport to the device has been connected.
    pub fn attach_transport(&mut self)
        requires
            old(self).wf(),
        ensures
            final(self).wf(),
            final(self).ring() == old(self).ring(),
            final(self)@ == (DriverState { available: true, ..old(self)@ }),
    {
        self.available = true;
    }

    /// The connection is set up: the port is open for I/O.
    pub fn mark_open(&mut self)
        requires
            old(self).wf(),
        ensures
            final(self).wf(),
            final(self).ring() == old(self).ring(),
            final(self)@ == (DriverState { open: true, ..old(self)@ }),
    {
        self.port_is_open = true;
    }

    /// The connection is released: no transport, port closed. On a closed
    /// port nothing changes.
    pub fn close(&mut self)
        requires
            old(self).wf(),
        ensures
            final(self).wf(),
            final(self).ring() == old(self).ring(),
            old(self)@.open ==> final(self)@ == (DriverState {
                available: false,
                open: false,
                ..old(self)@
            }),
            !old(self)@.open ==> final(self)@ == old(self)@,
    {
        if !self.port_is_open {
            return;
        }
        self.available = false;
        self.port_is_open = false;
    }

    // ── Status queries ──────────────────────────────────────────────────

    /// `true` once the constructor has run.
    pub fn is_initialised(&self) -> (r: bool)
        ensures
            r == self@.initialised,
    {
        self.initialised
    }

    /// `true` if a device was connected during `init`.
    pub fn is_available(&self) -> (r: bool)
        ensures
            r == self@.available,
    {
        self.available
    }

    /// `true` if the port is currently open and ready for I/O.
    pub fn is_open(&self) -> (r: bool)
        ensures
            r == self@.open,
    {
        self.port_is_open
    }

    /// `true` when writes go through the ring buffer.
    pub fn is_threaded(&self) -> (r: bool)
        ensures
            r == self@.threaded,
    {
        self.threaded
    }

    /// `true` when ring-buffer records carry a cycle count.
    pub fn with_cycles(&self) -> (r: bool)
        ensures
            r == self@.with_cycles,
    {
        self.with_cycles
    }

    /// `true` while the background writer is asked to run.
    pub fn thread_running(&self) -> (r: bool)
        ensures
            r == self@.thread_running,
    {
        self.run_thread
    }

    /// `true` while a running writer holds the ring buffer.
    pub fn ring_is_shared(&self) -> (r: bool)
        ensures
            r == self@.ring_shared,
    {
        self.ring_shared
    }

    /// `true` once the writer has completed the last requested flush.
    pub fn flush_done(&self) -> (r: bool)
        ensures
            r == self@.flush_done,
    {
        self.flush_done
    }

    /// Capacity of the ring buffer.
    pub fn ring_capacity(&self) -> (r: usize)
        ensures
            r == self.ring().size(),
    {
        self.ring.capacity()
    }

    /// Size of the packet buffers.
    pub fn len_out(&self) -> (r: usize)
        ensures
            r == self@.len_out,
    {
        self.len_out_buffer
    }

    /// Succeeds when the port is open.
    pub fn check_open(&self) -> (r: Result<(), UsbSidError>)
        ensures
            self@.open ==> r == Ok::<(), UsbSidError>(()),
            !self@.open ==> r == Err::<(), UsbSidError>(UsbSidError::PortNotOpen),
    {
        if !self.port_is_open {
            return Err(UsbSidError::PortNotOpen);
        }
        Ok(())
    }

    // ── SID / device control commands ───────────────────────────────────

    /// The command packet `[command_byte(sub_cmd), arg, 0]` when the port is open.
    fn command(&self, sub_cmd: u8, arg: u8) -> (r: Option<Vec<u8>>)
        requires
            sub_cmd < 64,
        ensures
            r is Some <==> self@.open,
            r matches Some(p) ==> p@ == seq![header_of(OP_COMMAND, sub_cmd), arg, 0u8],
    {
        if !self.port_is_open {
            return None;
        }
        let mut p: Vec<u8> = Vec::new();
        p.push(command_byte(sub_cmd));
        p.push(arg);
        p.push(0u8);
        Some(p)
    }

    /// Pause playback (releases chip-select pins on device).
    pub fn pause(&self) -> (r: Option<Vec<u8>>)
        ensures
            r is Some <==> self@.open,
            r matches Some(p) ==> p@ == command_packet(CMD_PAUSE),
    {
        self.command(CMD_PAUSE, 0)
    }

    /// Reset all SID chips; a flush of the ring buffer is requested too.
    pub fn reset(&mut self) -> (r: Option<Vec<u8>>)
        requires
            old(self).wf(),
        ensures
            final(self).wf(),
            final(self).ring() == old(self).ring(),
            r is Some <==> old(self)@.open,
            r matches Some(p) ==> p@ == command_packet(CMD_RESET_SID),
            old(self)@.open ==> final(self)@ == (DriverState { flush: true, ..old(self)@ }),
            !old(self)@.open ==> final(self)@ == old(self)@,
    {
        let r = self.command(CMD_RESET_SID, 0);
        if self.port_is_open {
            self.flush = true;
        }
        r
    }

    /// Reset every register on all SID chips.
    pub fn reset_all_registers(&self) -> (r: Option<Vec<u8>>)
        ensures
            r is Some <==> self@.open,
            r matches Some(p) ==> p@ == seq![header_of(OP_COMMAND, CMD_RESET_SID), 1u8, 0u8],
    {
        self.command(CMD_RESET_SID, 0x01)
    }

    /// Mute all SID chips.
    pub fn mute(&self) -> (r: Option<Vec<u8>>)
        ensures
            r is Some <==> self@.open,
            r matches Some(p) ==> p@ == command_packet(CMD_MUTE),
    {
        self.command(CMD_MUTE, 0)
    }

    /// Un-mute all SID chips.
    pub fn unmute(&self) -> (r: Option<Vec<u8>>)
        ensures
            r is Some <==> self@.open,
            r matches Some(p) ==> p@ == command_packet(CMD_UNMUTE),
    {
        self.command(CMD_UNMUTE, 0)
    }

    /// Disable SID (release reset pin and unmute).
    pub fn disable_sid(&self) -> (r: Option<Vec<u8>>)
        ensures
            r is Some <==> self@.open,
            r matches Some(p) ==> p@ == command_packet(CMD_DISABLE_SID),
    {
        self.command(CMD_DISABLE_SID, 0)
    }

    /// Enable SID (assert reset pin and release chip-select).
    pub fn enable_sid(&self) -> (r: Option<Vec<u8>>)
        ensures
            r is Some <==> self@.open,
            r matches Some(p) ==> p@ == command_packet(CMD_ENABLE_SID),
    {
        self.command(CMD_ENABLE_SID, 0)
    }

    /// Clear the SID data bus.
    pub fn clear_bus(&self) -> (r: Option<Vec<u8>>)
        ensures
            r is Some <==> self@.open,
            r matches Some(p) ==> p@ == command_packet(CMD_CLEAR_BUS),
    {
        self.command(CMD_CLEAR_BUS, 0)
    }

    /// The configuration packet `[command_byte(CMD_CONFIG), a, b, c, d, 0]`.
    fn config(a: u8, b: u8, c: u8, d: u8) -> (r: Vec<u8>)
        ensures
            r@ == config_packet(a, b, c, d),
    {
        let mut p: Vec<u8> = Vec::new();
        p.push(command_byte(CMD_CONFIG));
        p.push(a);
        p.push(b);
        p.push(c);
        p.push(d);
        p.push(0u8);
        assert(p@ =~= config_packet(a, b, c, d));
        p
    }

    // ── Clock rate ──────────────────────────────────────────────────────

    /// Set the CPU clock rate.
    ///
    /// `clockrate` must match one of the [`ClockSpeed`] variants, else
    /// nothing changes. The device is told of the new rate unless it is
    /// known to run at it already (it reported that rate, or was last told
    /// it); with `suspend_sids` it holds the SIDs in reset while the clock
    /// changes. From then on the device counts as running at `clockrate`.
    pub fn set_clock_rate(&mut self, clockrate: i64, suspend_sids: bool) -> (r: ClockChange)
        requires
            old(self).wf(),
        ensures
            final(self).wf(),
            final(self).ring() == old(self).ring(),
            (!old(self)@.open || clock_position(clockrate) < 0) ==> r is Ignored && final(self)@
                == old(self)@,
            (old(self)@.open && clock_position(clockrate) >= 0) ==> {
                let i = clock_position(clockrate);
                let e = clock_entry(i);
                &&& final(self)@ == clock_set_state(old(self)@, clockrate)
                &&& e.0.rate() == clockrate
                &&& r matches ClockChange::Applied(packet)
                &&& (packet is Some <==> (!old(self)@.clk_retrieved || old(self)@.us_clkrate
                    != clockrate))
                &&& (packet matches Some(p) ==> p@ == config_packet(
                    0x50,
                    i as u8,
                    if suspend_sids {
                        1u8
                    } else {
                        0u8
                    },
                    0,
                ))
            },
    {
        if !self.port_is_open {
            return ClockChange::Ignored;
        }
        match clock_index(clockrate) {
            None => ClockChange::Ignored,
            Some(i) => {
                let (speed, refresh, raster) = clock_table_entry(i);
                self.cycles_per_sec = speed.value();
                self.cycles_per_frame = refresh.value();
                self.cycles_per_raster = raster.value();
                if !self.clk_retrieved || self.us_clkrate != self.cycles_per_sec {
                    let suspend_byte: u8 = if suspend_sids {
                        1
                    } else {
                        0
                    };
                    self.us_clkrate = self.cycles_per_sec;
                    ClockChange::Applied(Some(Self::config(0x50, i as u8, suspend_byte, 0)))
                } else {
                    ClockChange::Applied(None)
                }
            },
        }
    }

    /// The CPU clock rate: 0 when the port is closed, the cached rate once
    /// it has been read, else a query to the device.
    pub fn get_clock_rate(&self) -> (r: Query<i64>)
        ensures
            known_clock_rate(self@) matches Some(v) ==> r == Query::<i64>::Answer(v),
            known_clock_rate(self@) is None ==> (r matches Query::Ask(p) && p@ == config_packet(
                0x57,
                0,
                0,
                0,
            )),
    {
        if !self.port_is_open {
            return Query::Answer(0);
        }
        if self.clk_retrieved {
            return Query::Answer(self.cycles_per_sec);
        }
        Query::Ask(Self::config(0x57, 0, 0, 0))
    }

    /// The device's reply to the clock-rate query: an index into the clock
    /// table. A valid index sets all rates from that entry; either way the
    /// rate counts as read. Returns the clock rate.
    pub fn clock_rate_reply(&mut self, idx: u8) -> (r: i64)
        requires
            old(self).wf(),
        ensures
            final(self).wf(),
            final(self).ring() == old(self).ring(),
            final(self)@ == clock_reply_state(old(self)@, idx),
            r == final(self)@.cycles_per_sec,
            0 <= clock_position(r) < CLOCK_TABLE_LEN,
            final(self)@.cycles_per_frame == clock_entry(clock_position(r)).1.rate(),
            final(self)@.cycles_per_raster == clock_entry(clock_position(r)).2.rate(),
    {
        let i = idx as usize;
        if i < CLOCK_TABLE_LEN {
            let (speed, refresh, raster) = clock_table_entry(i);
            self.us_clkrate = speed.value();
            self.cycles_per_sec = self.us_clkrate;
            self.cycles_per_frame = refresh.value();
            self.cycles_per_raster = raster.value();
        }
        self.clk_retrieved = true;
        self.cycles_per_sec
    }

    /// CPU cycles per second currently configured.
    pub fn cycles_per_sec(&self) -> (r: i64)
        ensures
            r == self@.cycles_per_sec,
    {
        self.cycles_per_sec
    }

    /// Get cycles per video refresh frame.
    pub fn get_refresh_rate(&self) -> (r: i64)
        ensures
            r == self@.cycles_per_frame,
    {
        self.cycles_per_frame
    }

    /// Get cycles per raster line frame.
    pub fn get_raster_rate(&self) -> (r: i64)
        ensures
            r == self@.cycles_per_raster,
    {
        self.cycles_per_raster
    }

    // ── Device info queries ─────────────────────────────────────────────

    /// The number of SID chips: 0 when the port is closed, the cached
    /// number once known (non-zero), else a query to the device.
    pub fn get_num_sids(&self) -> (r: Query<i32>)
        ensures
            known_num_sids(self@) matches Some(v) ==> r == Query::<i32>::Answer(v),
            known_num_sids(self@) is None ==> (r matches Query::Ask(p) && p@ == config_packet(
                0x39,
                0,
                0,
                0,
            )),
    {
        if !self.port_is_open {
            return Query::Answer(0);
        }
        if self.num_sids != 0 {
            return Query::Answer(self.num_sids);
        }
        Query::Ask(Self::config(0x39, 0, 0, 0))
    }

    /// The device's reply to the SID-count query; returns the count.
    pub fn num_sids_reply(&mut self, b: u8) -> (r: i32)
        requires
            old(self).wf(),
        ensures
            final(self).wf(),
            final(self).ring() == old(self).ring(),
            final(self)@ == (DriverState { num_sids: b as i32, ..old(self)@ }),
            r == b as i32,
    {
        self.num_sids = b as i32;
        self.num_sids
    }

    /// The SID configured for FM-OPL (-1 if none): 0 when the port is
    /// closed, from the cache once known, else a query to the device.
    pub fn get_fmopl_sid(&self) -> (r: Query<i32>)
        ensures
            known_fmopl_sid(self@) matches Some(v) ==> r == Query::<i32>::Answer(v),
            known_fmopl_sid(self@) is None ==> (r matches Query::Ask(p) && p@ == config_packet(
                0x3A,
                0,
                0,
                0,
            )),
    {
        if !self.port_is_open {
            return Query::Answer(0);
        }
        if self.fmopl_sid == -1 {
            return Query::Ask(Self::config(0x3A, 0, 0, 0));
        }
        Query::Answer(if self.fmopl_sid == 0 {
            -1
        } else {
            self.fmopl_sid
        })
    }

    /// The device's reply to the FM-OPL query; returns the FM-OPL SID, -1
    /// when the device reports none.
    pub fn fmopl_sid_reply(&mut self, b: u8) -> (r: i32)
        requires
            old(self).wf(),
        ensures
            final(self).wf(),
            final(self).ring() == old(self).ring(),
            final(self)@ == (DriverState { fmopl_sid: b as i32, ..old(self)@ }),
            r == fmopl_answer(b as i32),
    {
        self.fmopl_sid = b as i32;
        if self.fmopl_sid == 0 {
            -1
        } else {
            self.fmopl_sid
        }
    }

    /// The PCB hardware version: 0 when the port is closed, from the cache
    /// once known, else a query to the device.
    pub fn get_pcb_version(&self) -> (r: Query<i32>)
        ensures
            known_pcb_version(self@) matches Some(v) ==> r == Query::<i32>::Answer(v),
            known_pcb_version(self@) is None ==> (r matches Query::Ask(p) && p@ == config_packet(
                0x81,
                0x01,
                0,
                0,
            )),
    {
        if !self.port_is_open {
            return Query::Answer(0);
        }
        if self.pcb_version == -1 {
            return Query::Ask(Self::config(0x81, 0x01, 0, 0));
        }
        Query::Answer(self.pcb_version)
    }

    /// The device's reply to the PCB-version query; returns the version.
    pub fn pcb_version_reply(&mut self, b: u8) -> (r: i32)
        requires
            old(self).wf(),
        ensures
            final(self).wf(),
            final(self).ring() == old(self).ring(),
            final(self)@ == (DriverState { pcb_version: b as i32, ..old(self)@ }),
            r == b as i32,
    {
        self.pcb_version = b as i32;
        self.pcb_version
    }

    /// Set the device to mono (0) or stereo (1) – v1.3 PCB only.
    ///
    /// Nothing is sent when the port is closed or the PCB is another
    /// version; while the version is unknown, the PCB-version query comes
    /// first, after which this is asked again.
    pub fn set_stereo(&self, state: i32) -> (r: Query<Option<Vec<u8>>>)
        ensures
            !self@.open ==> r matches Query::Answer(None),
            self@.open && self@.pcb_version == -1 ==> (r matches Query::Ask(p) && p@
                == config_packet(0x81, 0x01, 0, 0)),
            self@.open && self@.pcb_version == 13 ==> (r matches Query::Answer(Some(p)) && p@
                == config_packet(0x89, state as u8, 0, 0)),
            self@.open && self@.pcb_version != -1 && self@.pcb_version != 13 ==> r matches Query::Answer(None),
    {
        if !self.port_is_open {
            return Query::Answer(None);
        }
        if self.pcb_version == -1 {
            return Query::Ask(Self::config(0x81, 0x01, 0, 0));
        }
        if self.pcb_version == 13 {
            Query::Answer(Some(Self::config(0x89, state as u8, 0, 0)))
        } else {
            Query::Answer(None)
        }
    }

    /// Toggle between mono and stereo – v1.3 PCB only; as [`Self::set_stereo`].
    pub fn toggle_stereo(&self) -> (r: Query<Option<Vec<u8>>>)
        ensures
            !self@.open ==> r matches Query::Answer(None),
            self@.open && self@.pcb_version == -1 ==> (r matches Query::Ask(p) && p@
                == config_packet(0x81, 0x01, 0, 0)),
            self@.open && self@.pcb_version == 13 ==> (r matches Query::Answer(Some(p)) && p@
                == config_packet(0x88, 0, 0, 0)),
            self@.open && self@.pcb_version != -1 && self@.pcb_version != 13 ==> r matches Query::Answer(None),
    {
        if !self.port_is_open {
            return Query::Answer(None);
        }
        if self.pcb_version == -1 {
            return Query::Ask(Self::config(0x81, 0x01, 0, 0));
        }
        if self.pcb_version == 13 {
            Query::Answer(Some(Self::config(0x88, 0, 0, 0)))
        } else {
            Query::Answer(None)
        }
    }

    /// The query for the raw 10-byte socket configuration, unless the port
    /// is closed.
    pub fn socket_config_query(&self) -> (r: Option<Vec<u8>>)
        ensures
            r is Some <==> self@.open,
            r matches Some(p) ==> p@ == config_packet(0x37, 0, 0, 0),
    {
        if !self.port_is_open {
            return None;
        }
        Some(Self::config(0x37, 0, 0, 0))
    }

    /// The device's reply to the socket-configuration query: `received` is
    /// the number of bytes read, `None` when the read failed. A well-formed
    /// reply is returned and marks the configuration as read.
    pub fn accept_socket_config(&mut self, received: Option<usize>, config: [u8; 10]) -> (r:
        Option<[u8; 10]>)
        requires
            old(self).wf(),
        ensures
            final(self).wf(),
            final(self).ring() == old(self).ring(),
            socket_config_valid(received, config@) ==> r == Some(config) && final(self)@ == (
            DriverState { socket_config_retrieved: true, ..old(self)@ }),
            !socket_config_valid(received, config@) ==> r is None && final(self)@ == old(self)@,
    {
        let full = match received {
            Some(n) => n == 10,
            None => false,
        };
        if full && config[0] == 0x37 && config[1] == 0x7F && config[9] == 0xFF {
            self.socket_config_retrieved = true;
            return Some(config);
        }
        None
    }

    // ── Synchronous and direct I/O ──────────────────────────────────────

    /// The request of a blocking read of a SID register: `[read_header(), reg, 0]`.
    pub fn single_read(&self, reg: u8) -> (r: Result<Vec<u8>, UsbSidError>)
        ensures
            !self@.open ==> r == Err::<Vec<u8>, UsbSidError>(UsbSidError::PortNotOpen),
            self@.open ==> (r matches Ok(p) && p@ == seq![header_of(OP_READ, 0), reg, 0u8]),
    {
        if !self.port_is_open {
            return Err(UsbSidError::PortNotOpen);
        }
        let mut p: Vec<u8> = Vec::new();
        p.push(read_header());
        p.push(reg);
        p.push(0u8);
        Ok(p)
    }

    /// A direct (non-threaded) write of a raw buffer is allowed: the port
    /// is open and the background writer mode is off.
    pub fn write_buffer(&self) -> (r: Result<(), UsbSidError>)
        ensures
            direct_error(self@) matches Some(e) ==> r == Err::<(), UsbSidError>(e),
            direct_error(self@) is None ==> r == Ok::<(), UsbSidError>(()),
    {
        if !self.port_is_open {
            return Err(UsbSidError::PortNotOpen);
        }
        if self.threaded {
            return Err(UsbSidError::ThreadedModeActive);
        }
        Ok(())
    }

    /// The packet of a direct register write: `[0x00, reg, val]`.
    pub fn write(&self, reg: u8, val: u8) -> (r: Result<Vec<u8>, UsbSidError>)
        ensures
            direct_error(self@) matches Some(e) ==> r == Err::<Vec<u8>, UsbSidError>(e),
            direct_error(self@) is None ==> (r matches Ok(p) && p@ == seq![0u8, reg, val]),
    {
        self.write_buffer()?;
        let mut p: Vec<u8> = Vec::new();
        p.push(0u8);
        p.push(reg);
        p.push(val);
        Ok(p)
    }

    /// The packet of a direct cycle-delayed register write:
    /// `[cycled_write_header(0), reg, val, cycles high byte, cycles low byte]`.
    pub fn write_cycled(&self, reg: u8, val: u8, cycles: u16) -> (r: Result<Vec<u8>, UsbSidError>)
        ensures
            direct_error(self@) matches Some(e) ==> r == Err::<Vec<u8>, UsbSidError>(e),
            direct_error(self@) is None ==> (r matches Ok(p) && p@ == seq![
                header_of(OP_CYCLED_WRITE, 0),
            ] + cycled_record(reg, val, cycles)),
    {
        self.write_buffer()?;
        let mut p: Vec<u8> = Vec::new();
        p.push(cycled_write_header(0));
        let rec = Self::record_bytes(reg, val, cycles);
        p.push(rec.0);
        p.push(rec.1);
        p.push(rec.2);
        p.push(rec.3);
        assert(p@ =~= seq![header_of(OP_CYCLED_WRITE, 0)] + cycled_record(reg, val, cycles));
        Ok(p)
    }

    /// The request of a direct register read: `[read_header(), reg]`.
    pub fn read(&self, reg: u8) -> (r: Result<Vec<u8>, UsbSidError>)
        ensures
            direct_error(self@) matches Some(e) ==> r == Err::<Vec<u8>, UsbSidError>(e),
            direct_error(self@) is None ==> (r matches Ok(p) && p@ == seq![
                header_of(OP_READ, 0),
                reg,
            ]),
    {
        self.write_buffer()?;
        let mut p: Vec<u8> = Vec::new();
        p.push(read_header());
        p.push(reg);
        Ok(p)
    }

    /// The four bytes of a cycled record.
    fn record_bytes(reg: u8, val: u8, cycles: u16) -> (r: (u8, u8, u8, u8))
        ensures
            seq![r.0, r.1, r.2, r.3] == cycled_record(reg, val, cycles),
    {
        let hi = (cycles >> 8u16) as u8;
        let lo = (cycles & 0xFFu16) as u8;
        assert((cycles >> 8u16) as u8 == (cycles / 256) as u8) by (bit_vector);
        assert((cycles & 0xFFu16) as u8 == (cycles % 256) as u8) by (bit_vector);
        (reg, val, hi, lo)
    }

    // ── Ring-buffer writes (threaded mode) ──────────────────────────────

    /// Free slots of the ring.
    fn free_space(ring: &RingBuffer) -> (r: usize)
        requires
            ring.wf(),
        ensures
            r == free_slots(*ring),
    {
        proof {
            ring.law_capacity();
        }
        ring.capacity() - 1 - ring.len()
    }

    /// Push bytes one by one into a ring that has room for all of them.
    fn push_bytes(ring: &mut RingBuffer, bytes: &Vec<u8>)
        requires
            old(ring).wf(),
            bytes@.len() <= free_slots(*old(ring)),
        ensures
            final(ring).wf(),
            final(ring).extends(*old(ring), bytes@),
            free_slots(*final(ring)) == free_slots(*old(ring)) - bytes@.len(),
    {
        proof {
            assert(ring@ =~= old(ring)@ + bytes@.take(0));
        }
        let mut i: usize = 0;
        while i < bytes.len()
            invariant
                ring.wf(),
                i <= bytes.len(),
                bytes@.len() <= free_slots(*old(ring)),
                ring.extends(*old(ring), bytes@.take(i as int)),
                free_slots(*ring) == free_slots(*old(ring)) - i,
            decreases bytes.len() - i,
        {
            let ghost before = *ring;
            proof {
                ring.law_capacity();
            }
            ring.put(bytes[i]);
            proof {
                RingBuffer::lemma_extends_trans(
                    *old(ring),
                    before,
                    *ring,
                    bytes@.take(i as int),
                    seq![bytes@[i as int]],
                );
                assert(bytes@.take(i + 1) =~= bytes@.take(i as int).push(bytes@[i as int]));
                assert(bytes@.take(i as int) + seq![bytes@[i as int]] =~= bytes@.take(i + 1));
            }
            i = i + 1;
        }
        proof {
            assert(bytes@.take(bytes@.len() as int) =~= bytes@);
        }
    }

    /// Push a register + value pair into the ring buffer (non-cycled
    /// threaded mode). When the ring has no room for the pair it is
    /// dropped whole and the call still succeeds.
    pub fn write_ring(&mut self, reg: u8, val: u8) -> (r: Result<(), UsbSidError>)
        requires
            old(self).wf(),
        ensures
            final(self).wf(),
            final(self)@ == old(self)@,
            !old(self)@.open ==> r == Err::<(), UsbSidError>(UsbSidError::PortNotOpen)
                && final(self).ring() == old(self).ring(),
            old(self)@.open && (!old(self)@.threaded || old(self)@.with_cycles) ==> r == Err::<
                (),
                UsbSidError,
            >(
                UsbSidError::WrongThreadMode { expected_threaded: true, expected_cycled: false },
            ) && final(self).ring() == old(self).ring(),
            old(self)@.open && old(self)@.threaded && !old(self)@.with_cycles ==> r == Ok::<
                (),
                UsbSidError,
            >(()) && pushed_whole(final(self).ring(), old(self).ring(), seq![reg, val]),
    {
        if !self.port_is_open {
            return Err(UsbSidError::PortNotOpen);
        }
        if !self.threaded || self.with_cycles {
            return Err(
                UsbSidError::WrongThreadMode { expected_threaded: true, expected_cycled: false },
            );
        }
        if Self::free_space(&self.ring) < 2 {
            return Ok(());
        }
        let mut bytes: Vec<u8> = Vec::new();
        bytes.push(reg);
        bytes.push(val);
        assert(bytes@ =~= seq![reg, val]);
        Self::push_bytes(&mut self.ring, &bytes);
        Ok(())
    }

    /// The four bytes of a cycled record, as a buffer.
    fn record_vec(reg: u8, val: u8, cycles: u16) -> (r: Vec<u8>)
        ensures
            r@ == cycled_record(reg, val, cycles),
    {
        let rec = Self::record_bytes(reg, val, cycles);
        let mut bytes: Vec<u8> = Vec::new();
        bytes.push(rec.0);
        bytes.push(rec.1);
        bytes.push(rec.2);
        bytes.push(rec.3);
        assert(bytes@ =~= seq![rec.0, rec.1, rec.2, rec.3]);
        bytes
    }

    /// Push a register + value + 16-bit cycle count into the ring buffer
    /// (cycled threaded mode). When the ring has no room for the whole
    /// record it is dropped and the call still succeeds.
    pub fn write_ring_cycled(&mut self, reg: u8, val: u8, cycles: u16) -> (r: Result<
        (),
        UsbSidError,
    >)
        requires
            old(self).wf(),
        ensures
            final(self).wf(),
            final(self)@ == old(self)@,
            !old(self)@.open ==> r == Err::<(), UsbSidError>(UsbSidError::PortNotOpen)
                && final(self).ring() == old(self).ring(),
            old(self)@.open && !(old(self)@.threaded && old(self)@.with_cycles) ==> r == Err::<
                (),
                UsbSidError,
            >(
                UsbSidError::WrongThreadMode { expected_threaded: true, expected_cycled: true },
            ) && final(self).ring() == old(self).ring(),
            old(self)@.open && old(self)@.threaded && old(self)@.with_cycles ==> r == Ok::<
                (),
                UsbSidError,
            >(()) && pushed_whole(
                final(self).ring(),
                old(self).ring(),
                cycled_record(reg, val, cycles),
            ),
    {
        if !self.port_is_open {
            return Err(UsbSidError::PortNotOpen);
        }
        if !(self.threaded && self.with_cycles) {
            return Err(
                UsbSidError::WrongThreadMode { expected_threaded: true, expected_cycled: true },
            );
        }
        if Self::free_space(&self.ring) < 4 {
            return Ok(());
        }
        let bytes = Self::record_vec(reg, val, cycles);
        Self::push_bytes(&mut self.ring, &bytes);
        Ok(())
    }

    /// Push several register + value + 16-bit cycle count entries into the
    /// ring buffer (cycled threaded mode). Writes are pushed whole, in
    /// order, until the ring has no room for the next one; returns how many
    /// were pushed.
    pub fn write_ring_cycled_batch(&mut self, writes: &Vec<(u8, u8, u16)>) -> (r: Result<
        usize,
        UsbSidError,
    >)
        requires
            old(self).wf(),
        ensures
            final(self).wf(),
            final(self)@ == old(self)@,
            !old(self)@.open ==> r == Err::<usize, UsbSidError>(UsbSidError::PortNotOpen)
                && final(self).ring() == old(self).ring(),
            old(self)@.open && !(old(self)@.threaded && old(self)@.with_cycles) ==> r == Err::<
                usize,
                UsbSidError,
            >(
                UsbSidError::WrongThreadMode { expected_threaded: true, expected_cycled: true },
            ) && final(self).ring() == old(self).ring(),
            old(self)@.open && old(self)@.threaded && old(self)@.with_cycles ==> {
                let n = batch_count(writes@.len() as int, free_slots(old(self).ring()));
                &&& r == Ok::<usize, UsbSidError>(n as usize)
                &&& final(self).ring().extends(old(self).ring(), records(writes@.take(n)))
            },
    {
        if !self.port_is_open {
            return Err(UsbSidError::PortNotOpen);
        }
        if !(self.threaded && self.with_cycles) {
            return Err(
                UsbSidError::WrongThreadMode { expected_threaded: true, expected_cycled: true },
            );
        }
        let ghost ring0 = self.ring;
        let ghost free0 = free_slots(ring0);
        let mut pushed: usize = 0;
        proof {
            assert(writes@.take(0) =~= Seq::<(u8, u8, u16)>::empty());
            assert(self.ring@ =~= ring0@ + records(writes@.take(0)));
            assert(0 <= free0 / 4) by (nonlinear_arith)
                requires
                    free0 >= 0,
            ;
        }
        while pushed < writes.len()
            invariant
                self.ring.wf(),
                self@ == old(self)@,
                ring0 == old(self).ring,
                free0 == free_slots(ring0),
                free0 >= 0,
                pushed <= writes.len(),
                4 * pushed <= free0,
                pushed <= free0 / 4,
                self.ring.extends(ring0, records(writes@.take(pushed as int))),
                free_slots(self.ring) == free0 - 4 * pushed,
            ensures
                pushed == batch_count(writes@.len() as int, free0),
            decreases writes.len() - pushed,
        {
            if Self::free_space(&self.ring) < 4 {
                assert(free0 / 4 == pushed) by (nonlinear_arith)
                    requires
                        4 * pushed <= free0,
                        free0 < 4 * pushed + 4,
                ;
                break;
            }
            let (reg, val, cycles) = writes[pushed];
            let ghost before = self.ring;
            let bytes = Self::record_vec(reg, val, cycles);
            Self::push_bytes(&mut self.ring, &bytes);
            proof {
                let ws = writes@.take(pushed + 1);
                assert(ws.drop_last() =~= writes@.take(pushed as int));
                assert(ws.last() == writes@[pushed as int]);
                RingBuffer::lemma_extends_trans(
                    ring0,
                    before,
                    self.ring,
                    records(writes@.take(pushed as int)),
                    cycled_record(reg, val, cycles),
                );
            }
            pushed = pushed + 1;
            assert(pushed <= free0 / 4) by (nonlinear_arith)
                requires
                    4 * pushed <= free0,
            ;
        }
        proof {
            lemma_records_len(writes@.take(pushed as int));
        }
        Ok(pushed)
    }

    // ── Thread management ───────────────────────────────────────────────

    /// Set up the state for a new background writer: threaded mode with the
    /// given cycle setting, a fresh ring of the configured sizes, no pending
    /// flush, and the writer asked to run.
    pub fn init_thread(&mut self, with_cycles: bool)
        requires
            old(self).wf(),
            !old(self)@.ring_shared,
        ensures
            final(self).wf(),
            final(self)@ == (DriverState {
                threaded: true,
                with_cycles: with_cycles,
                flush: false,
                thread_running: true,
                ..old(self)@
            }),
            final(self).ring().reset_from(
                old(self).ring(),
                at_least(old(self)@.ring_size, MIN_RING_SIZE) as int,
                at_least(old(self)@.diff_size, MIN_DIFF_SIZE) as int,
            ),
            final(self).ring()@ == Seq::<u8>::empty(),
    {
        self.threaded = true;
        self.with_cycles = with_cycles;
        self.ring.reinit(self.ring_size, self.diff_size);
        self.flush = false;
        self.run_thread = true;
    }

    /// The background writer has started and holds the ring buffer.
    pub fn thread_started(&mut self)
        requires
            old(self).wf(),
        ensures
            final(self).wf(),
            final(self).ring() == old(self).ring(),
            final(self)@ == (DriverState { ring_shared: true, ..old(self)@ }),
    {
        self.ring_shared = true;
    }

    /// Enable the background writer on the fly. Fails when the port is
    /// closed; returns `true` when a writer must be started (the state is
    /// then set up as by [`Self::init_thread`], with cycles), `false` when
    /// one runs.
    pub fn enable_thread(&mut self) -> (r: Result<bool, UsbSidError>)
        requires
            old(self).wf(),
            old(self)@.ring_shared ==> old(self)@.thread_running,
        ensures
            final(self).wf(),
            !old(self)@.open ==> r == Err::<bool, UsbSidError>(UsbSidError::PortNotOpen)
                && final(self)@ == old(self)@ && final(self).ring() == old(self).ring(),
            old(self)@.open && old(self)@.thread_running ==> r == Ok::<bool, UsbSidError>(false)
                && final(self)@ == old(self)@ && final(self).ring() == old(self).ring(),
            old(self)@.open && !old(self)@.thread_running ==> r == Ok::<bool, UsbSidError>(true)
                && final(self)@ == (DriverState {
                threaded: true,
                with_cycles: true,
                flush: false,
                thread_running: true,
                ..old(self)@
            }) && final(self).ring()@ == Seq::<u8>::empty() && final(self).ring().reset_from(
                old(self).ring(),
                at_least(old(self)@.ring_size, MIN_RING_SIZE) as int,
                at_least(old(self)@.diff_size, MIN_DIFF_SIZE) as int,
            ),
    {
        if !self.port_is_open {
            return Err(UsbSidError::PortNotOpen);
        }
        if !self.run_thread {
            self.init_thread(true);
            return Ok(true);
        }
        Ok(false)
    }

    /// Ask the background writer to stop. Returns `true` when one was
    /// running; the caller then waits for it and calls
    /// [`Self::on_thread_stopped`].
    pub fn stop_thread(&mut self) -> (r: bool)
        requires
            old(self).wf(),
        ensures
            final(self).wf(),
            final(self).ring() == old(self).ring(),
            r == old(self)@.thread_running,
            final(self)@ == (DriverState { thread_running: false, ..old(self)@ }),
    {
        let r = self.run_thread;
        self.run_thread = false;
        r
    }

    /// The background writer has finished: threaded mode is off and the
    /// ring is back to its default sizes, empty.
    pub fn on_thread_stopped(&mut self)
        requires
            old(self).wf(),
        ensures
            final(self).wf(),
            final(self)@ == (DriverState {
                threaded: false,
                with_cycles: false,
                ring_shared: false,
                ..old(self)@
            }),
            final(self).ring().reset_from(
                old(self).ring(),
                DEFAULT_RING_SIZE as int,
                DEFAULT_DIFF_SIZE as int,
            ),
            final(self).ring()@ == Seq::<u8>::empty(),
    {
        self.threaded = false;
        self.with_cycles = false;
        self.ring_shared = false;
        self.ring.reinit_defaults();
    }

    /// Request a flush of the ring buffer.
    pub fn set_flush(&mut self)
        requires
            old(self).wf(),
        ensures
            final(self).wf(),
            final(self).ring() == old(self).ring(),
            final(self)@ == (DriverState { flush: true, flush_done: false, ..old(self)@ }),
    {
        self.flush = true;
        self.flush_done = false;
    }

    /// Restart the ring buffer with default sizes, unless the port is closed
    /// or a running writer holds it.
    pub fn restart_ring_buffer(&mut self)
        requires
            old(self).wf(),
        ensures
            final(self).wf(),
            final(self)@ == old(self)@,
            !old(self)@.open || old(self)@.ring_shared ==> final(self).ring() == old(self).ring(),
            old(self)@.open && !old(self)@.ring_shared ==> final(self).ring().reset_from(
                old(self).ring(),
                DEFAULT_RING_SIZE as int,
                DEFAULT_DIFF_SIZE as int,
            ) && final(self).ring()@ == Seq::<u8>::empty(),
    {
        if !self.port_is_open {
            return;
        }
        if !self.ring_shared {
            self.ring.reinit_defaults();
        }
    }

    /// Set the ring-buffer capacity: recorded for the next set-up, and
    /// applied at once unless a running writer holds the ring.
    pub fn set_buffer_size(&mut self, size: usize)
        requires
            old(self).wf(),
        ensures
            final(self).wf(),
            final(self)@ == (DriverState { ring_size: size, ..old(self)@ }),
            old(self)@.ring_shared ==> final(self).ring() == old(self).ring(),
            !old(self)@.ring_shared ==> final(self).ring().reset_from(
                old(self).ring(),
                at_least(size, MIN_RING_SIZE) as int,
                old(self).ring().threshold(),
            ) && final(self).ring()@ == Seq::<u8>::empty(),
    {
        self.ring_size = size;
        if !self.ring_shared {
            self.ring.set_ring_size(size);
        }
    }

    /// Set the ring-buffer diff threshold: recorded for the next set-up, and
    /// applied at once unless a running writer holds the ring.
    pub fn set_diff_size(&mut self, size: usize)
        requires
            old(self).wf(),
        ensures
            final(self).wf(),
            final(self)@ == (DriverState { diff_size: size, ..old(self)@ }),
            old(self)@.ring_shared ==> final(self).ring() == old(self).ring(),
            !old(self)@.ring_shared ==> {
                &&& final(self).ring().threshold() == at_least(size, MIN_DIFF_SIZE)
                &&& final(self).ring().size() == old(self).ring().size()
                &&& final(self).ring().cells() == old(self).ring().cells()
                &&& final(self).ring().read_cursor() == old(self).ring().read_cursor()
                &&& final(self).ring().write_cursor() == old(self).ring().write_cursor()
            },
    {
        self.diff_size = size;
        if !self.ring_shared {
            self.ring.set_diff_size(size);
        }
    }

    /// After the old writer has stopped: threaded mode with the requested
    /// cycle setting, fresh packet buffers, then set up as by
    /// [`Self::init_thread`].
    pub fn restart_thread(&mut self, with_cycles: bool)
        requires
            old(self).wf(),
            !old(self)@.ring_shared,
        ensures
            final(self).wf(),
            final(self)@ == (DriverState {
                threaded: true,
                with_cycles: with_cycles,
                flush: false,
                thread_running: true,
                len_out: LEN_OUT_BUFFER,
                ..old(self)@
            }),
            final(self).ring().reset_from(
                old(self).ring(),
                at_least(old(self)@.ring_size, MIN_RING_SIZE) as int,
                at_least(old(self)@.diff_size, MIN_DIFF_SIZE) as int,
            ),
            final(self).ring()@ == Seq::<u8>::empty(),
    {
        self.len_out_buffer = LEN_OUT_BUFFER;
        self.init_thread(with_cycles);
    }

    // ── Background writer side ──────────────────────────────────────────

    /// How long the writer waits before its next drain: not at all when a
    /// flush is requested or the ring is above its threshold; up to 1 ms
    /// when the ring is empty; up to 100 µs otherwise.
    pub fn writer_wait(&self) -> (r: WriterWait)
        requires
            self.wf(),
        ensures
            (self@.flush || self.ring().above_threshold()) ==> r == WriterWait::Proceed,
            !(self@.flush || self.ring().above_threshold()) && self.ring()@.len() == 0 ==> r
                == WriterWait::Long,
            !(self@.flush || self.ring().above_threshold()) && self.ring()@.len() != 0 ==> r
                == WriterWait::Short,
    {
        if !self.flush && !self.ring.has_data() {
            if self.ring.is_empty() {
                WriterWait::Long
            } else {
                WriterWait::Short
            }
        } else {
            WriterWait::Proceed
        }
    }

    /// Take the flush request: returns whether one was pending and clears it.
    pub fn take_flush(&mut self) -> (r: bool)
        requires
            old(self).wf(),
        ensures
            final(self).wf(),
            final(self).ring() == old(self).ring(),
            r == old(self)@.flush,
            final(self)@ == (DriverState { flush: false, ..old(self)@ }),
    {
        let f = self.flush;
        self.flush = false;
        f
    }

    /// The writer has sent everything of the requested flush.
    pub fn finish_flush(&mut self)
        requires
            old(self).wf(),
        ensures
            final(self).wf(),
            final(self).ring() == old(self).ring(),
            final(self)@ == (DriverState { flush_done: true, ..old(self)@ }),
    {
        self.flush_done = true;
    }

    /// Drain the ring into packets of the direct framing
    /// (see [`PacketWriter::drain_direct`]).
    pub fn drain(&mut self, writer: &mut PacketWriter, flushing: bool) -> (out: Vec<Vec<u8>>)
        requires
            old(self).wf(),
            old(writer).wf(),
            old(writer).cycled() == old(self)@.with_cycles,
        ensures
            final(self).wf(),
            final(self)@ == old(self)@,
            final(writer).wf(),
            final(writer).cycled() == old(writer).cycled(),
            final(self).ring().advanced_from(
                &old(self).ring(),
                old(self).ring().count() - final(self).ring().count(),
            ),
            0 <= final(self).ring().count() <= old(self).ring().count(),
            forall|i: int|
                0 <= i < out.deep_view().len() ==> crate::framing::direct_packet_ok(
                    #[trigger] out.deep_view()[i],
                    old(writer).cycled(),
                ),
            old(writer).pending() + old(self).ring()@.subrange(
                0,
                old(self).ring().count() - final(self).ring().count(),
            ) == crate::framing::stream(out.deep_view()) + final(writer).pending(),
            flushing ==> final(self).ring()@.len() == 0 && final(writer).pending().len() == 0,
            !flushing ==> !final(self).ring().above_threshold(),
            !flushing ==> forall|j: int|
                0 <= j < old(self).ring().count() - final(self).ring().count() && j % record_len(
                    old(writer).cycled(),
                ) == 0 ==> #[trigger] old(self).ring().above_threshold_at(
                    slot(old(self).ring().size(), old(self).ring().read_cursor() + j),
                ),
            final(writer).cap() == old(writer).cap(),
            packets_cut(out.deep_view(), old(writer).pending(), flushing, old(writer).cap()),
    {
        writer.drain_direct(&mut self.ring, flushing)
    }

    /// Drain the ring into transfers of the padded framing
    /// (see [`PacketWriter::drain_padded`]).
    pub fn drain_padded(&mut self, writer: &mut PacketWriter, flushing: bool) -> (out: Vec<
        Vec<u8>,
    >)
        requires
            old(self).wf(),
            old(writer).wf(),
            old(writer).cycled() == old(self)@.with_cycles,
        ensures
            final(self).wf(),
            final(self)@ == old(self)@,
            final(writer).wf(),
            final(writer).cycled() == old(writer).cycled(),
            final(self).ring().advanced_from(
                &old(self).ring(),
                old(self).ring().count() - final(self).ring().count(),
            ),
            0 <= final(self).ring().count() <= old(self).ring().count(),
            forall|i: int|
                0 <= i < frame_seq(out.deep_view()).len()
                    ==> crate::framing::padded_frame_ok(
                    #[trigger] frame_seq(out.deep_view())[i],
                    old(writer).cycled(),
                ),
            forall|i: int|
                0 <= i < out.len() ==> (#[trigger] out@[i]).len() % crate::framing::FRAME_LEN == 0,
            !flushing ==> forall|i: int| 0 <= i < out.len() ==> (#[trigger] out@[i]).len() == crate::framing::FRAME_LEN,
            flushing ==> out.len() <= 1,
            old(writer).pending() + old(self).ring()@.subrange(
                0,
                old(self).ring().count() - final(self).ring().count(),
            ) == crate::framing::stream(frame_seq(out.deep_view()))
                + final(writer).pending(),
            flushing ==> final(self).ring()@.len() == 0 && final(writer).pending().len() == 0,
            !flushing ==> !final(self).ring().above_threshold(),
            !flushing ==> forall|j: int|
                0 <= j < old(self).ring().count() - final(self).ring().count() && j % record_len(
                    old(writer).cycled(),
                ) == 0 ==> #[trigger] old(self).ring().above_threshold_at(
                    slot(old(self).ring().size(), old(self).ring().read_cursor() + j),
                ),
            final(writer).cap() == old(writer).cap(),
            packets_cut(frame_seq(out.deep_view()), old(writer).pending(), flushing, old(writer).cap()),
    {
        writer.drain_padded(&mut self.ring, flushing)
    }
}

impl Default for UsbSid {
    fn default() -> (r: Self)
        ensures
            r.wf(),
            r@ == initial_state(),
            r.ring()@ == Seq::<u8>::empty(),
    {
        Self::new()
    }
}

} // verus!
