//! Packet framing of the background writer.
//!
//! The writer pops whole records from the ring buffer — register, value and,
//! in cycled mode, a 16-bit cycle count — and gathers them behind a header
//! byte. A packet goes out once it reaches the size limit of its mode, or,
//! when a flush was requested, as soon as the ring is empty.
//!
//! Two framings are offered: the direct one sends each packet at its own
//! length; the padded one pads every packet to a 64-byte frame and, during a
//! flush, joins all frames into a single transfer.

use vstd::prelude::*;

use crate::constants::{
    cycled_write_header, header_of, low_bits_of, write_header, LEN_OUT_BUFFER, OP_CYCLED_WRITE,
    OP_WRITE,
};
use crate::ringbuffer::{slot, RingBuffer};

verus! {

/// Bytes per record: register, value and, in cycled mode, two cycle bytes.
pub open spec fn record_len(with_cycles: bool) -> int {
    if with_cycles {
        4
    } else {
        2
    }
}

/// The buffer position at which a packet is sent during a normal drain.
pub open spec fn packet_limit(with_cycles: bool) -> int {
    if with_cycles {
        61
    } else {
        63
    }
}

/// The size at which a packet goes out: the packet limit of the mode, or
/// the packet buffer's size if that is smaller.
pub open spec fn packet_cap(with_cycles: bool, len_out: int) -> int {
    if len_out < packet_limit(with_cycles) {
        len_out
    } else {
        packet_limit(with_cycles)
    }
}

/// Packet buffers of `len_out` bytes take the records of the mode without
/// overflowing: they reach the packet limit, or a packet fills them exactly.
pub open spec fn len_out_fits(with_cycles: bool, len_out: int) -> bool {
    ||| len_out >= packet_limit(with_cycles)
    ||| (len_out >= 1 + record_len(with_cycles) && (len_out - 1) % record_len(with_cycles) == 0)
}

/// The opcode of the packets of a mode.
pub open spec fn write_op(with_cycles: bool) -> u8 {
    if with_cycles {
        OP_CYCLED_WRITE
    } else {
        OP_WRITE
    }
}

/// The payload of a packet as the device reads it: the bytes after the
/// header, as many as the header's lower six bits count.
pub open spec fn payload(p: Seq<u8>) -> Seq<u8> {
    p.subrange(1, 1 + low_bits_of(p[0]))
}

/// The payloads of a sequence of packets, one after the other.
pub open spec fn stream(ps: Seq<Seq<u8>>) -> Seq<u8>
    decreases ps.len(),
{
    if ps.len() == 0 {
        Seq::empty()
    } else {
        stream(ps.drop_last()) + payload(ps.last())
    }
}

/// A packet of the direct framing: a header whose count is the number of
/// bytes that follow it, and a payload of whole records that does not reach
/// the packet limit.
pub open spec fn direct_packet_ok(p: Seq<u8>, with_cycles: bool) -> bool {
    &&& 1 + record_len(with_cycles) <= p.len() <= packet_limit(with_cycles)
    &&& (p.len() - 1) % record_len(with_cycles) == 0
    &&& p[0] == header_of(write_op(with_cycles), (p.len() - 1) as u8)
}

/// How a drain cuts the stream into packets of at most `cap` bytes.
/// Outside a flush every packet is full. In a flush, the bytes gathered
/// before go out first as a packet of their own, and every later packet but
/// the last is full.
pub open spec fn packets_cut(ps: Seq<Seq<u8>>, gathered: Seq<u8>, flushing: bool, cap: int) -> bool {
    let first_full: int = if flushing && gathered.len() > 0 {
        1
    } else {
        0
    };
    let end_full: int = if flushing {
        ps.len() - 1
    } else {
        ps.len() as int
    };
    &&& (flushing && gathered.len() > 0) ==> (ps.len() > 0 && payload(ps[0]) == gathered)
    &&& forall|i: int|
        first_full <= i < end_full ==> (#[trigger] payload(ps[i])).len() == cap - 1
}

/// Facts about multiples of a record length.
proof fn lemma_record_multiples(a: int, b: int, m: int)
    requires
        m == 2 || m == 4,
        a % m == 0,
        b % m == 0,
    ensures
        (a - b) % m == 0,
        (a + m) % m == 0,
        a > 0 ==> a >= m,
{
}

/// The packet size of a mode fits its buffer and leaves room for whole
/// records only.
proof fn lemma_cap(with_cycles: bool, len_out: int)
    requires
        len_out_fits(with_cycles, len_out),
    ensures
        packet_cap(with_cycles, len_out) <= len_out,
        packet_cap(with_cycles, len_out) <= packet_limit(with_cycles),
        packet_cap(with_cycles, len_out) >= 1 + record_len(with_cycles),
        (packet_cap(with_cycles, len_out) - 1) % record_len(with_cycles) == 0,
{
}

/// The only multiple of a record length in `[a, a + m)` is `a`.
proof fn lemma_next_multiple(a: int, j: int, m: int)
    requires
        m == 2 || m == 4,
        a % m == 0,
        j % m == 0,
        a <= j < a + m,
    ensures
        j == a,
{
}

/// Appending a packet appends its payload to the stream.
pub proof fn lemma_stream_push(ps: Seq<Seq<u8>>, p: Seq<u8>)
    ensures
        stream(ps.push(p)) == stream(ps) + payload(p),
{
    assert(ps.push(p).drop_last() =~= ps);
}

/// Size of a frame of the padded framing.
pub const FRAME_LEN: usize = 64;

/// A packet padded with zero bytes to a full frame.
pub open spec fn pad(p: Seq<u8>) -> Seq<u8> {
    p + Seq::new((FRAME_LEN - p.len()) as nat, |i: int| 0u8)
}

/// Frames one after the other, as one transfer.
pub open spec fn join(fs: Seq<Seq<u8>>) -> Seq<u8>
    decreases fs.len(),
{
    if fs.len() == 0 {
        Seq::empty()
    } else {
        join(fs.drop_last()) + fs.last()
    }
}

/// A transfer cut into its frames, as the device reads it.
pub open spec fn frames_of(m: Seq<u8>) -> Seq<Seq<u8>> {
    Seq::new(
        (m.len() / (FRAME_LEN as nat)) as nat,
        |j: int| m.subrange(FRAME_LEN * j, FRAME_LEN * j + FRAME_LEN),
    )
}

/// The frames of a sequence of transfers, one transfer after the other.
pub open spec fn frame_seq(ms: Seq<Seq<u8>>) -> Seq<Seq<u8>>
    decreases ms.len(),
{
    if ms.len() == 0 {
        Seq::empty()
    } else {
        frame_seq(ms.drop_last()) + frames_of(ms.last())
    }
}

/// A frame of the padded framing: a packet of the direct framing followed
/// by zero bytes up to the frame size.
pub open spec fn padded_frame_ok(f: Seq<u8>, with_cycles: bool) -> bool {
    &&& f.len() == FRAME_LEN
    &&& exists|p: Seq<u8>| direct_packet_ok(p, with_cycles) && f == pad(p)
}

/// Joined frames take a frame's length each.
pub proof fn lemma_join_len(fs: Seq<Seq<u8>>)
    requires
        forall|i: int| 0 <= i < fs.len() ==> (#[trigger] fs[i]).len() == FRAME_LEN,
    ensures
        join(fs).len() == FRAME_LEN * fs.len(),
    decreases fs.len(),
{
    if fs.len() > 0 {
        lemma_join_len(fs.drop_last());
    }
}

/// Cutting a transfer of joined frames gives back the frames.
pub proof fn lemma_frames_of_join(fs: Seq<Seq<u8>>)
    requires
        forall|i: int| 0 <= i < fs.len() ==> (#[trigger] fs[i]).len() == FRAME_LEN,
    ensures
        frames_of(join(fs)) == fs,
    decreases fs.len(),
{
    if fs.len() > 0 {
        let init = fs.drop_last();
        lemma_frames_of_join(init);
        lemma_join_len(init);
        lemma_join_len(fs);
        let m = join(fs);
        let n = fs.len() as int;
        assert(m.len() / 64 == n) by (nonlinear_arith)
            requires
                m.len() == 64 * n,
        ;
        assert forall|j: int| 0 <= j < n implies #[trigger] frames_of(m)[j] == fs[j] by {
            if j < n - 1 {
                assert(frames_of(join(init))[j] == init[j]);
                assert(m.subrange(64 * j, 64 * j + 64) =~= join(init).subrange(64 * j, 64 * j + 64));
            } else {
                assert(m.subrange(64 * j, 64 * j + 64) =~= fs.last());
            }
        }
        assert(frames_of(m) =~= fs);
    }
}

/// A transfer of one frame is cut into that frame alone.
pub proof fn lemma_frames_of_single(f: Seq<u8>)
    requires
        f.len() == FRAME_LEN,
    ensures
        frames_of(f) == seq![f],
{
    assert(f.subrange(0, 64) =~= f);
    assert(frames_of(f) =~= seq![f]);
}

/// Padding a direct packet keeps its payload.
pub proof fn lemma_pad_payload(p: Seq<u8>, with_cycles: bool)
    requires
        direct_packet_ok(p, with_cycles),
    ensures
        pad(p).len() == FRAME_LEN,
        payload(pad(p)) == payload(p),
        padded_frame_ok(pad(p), with_cycles),
{
    assert(payload(pad(p)) =~= payload(p));
}

/// Padding every packet keeps the stream.
pub proof fn lemma_stream_pad(ps: Seq<Seq<u8>>, fs: Seq<Seq<u8>>, with_cycles: bool)
    requires
        fs.len() == ps.len(),
        forall|i: int| 0 <= i < ps.len() ==> direct_packet_ok(#[trigger] ps[i], with_cycles),
        forall|i: int| 0 <= i < ps.len() ==> #[trigger] fs[i] == pad(ps[i]),
    ensures
        stream(fs) == stream(ps),
    decreases ps.len(),
{
    if ps.len() > 0 {
        let n = ps.len() - 1;
        lemma_stream_pad(ps.drop_last(), fs.drop_last(), with_cycles);
        lemma_pad_payload(ps[n], with_cycles);
    }
}

/// Transfers of one frame each have those frames as their frames.
pub proof fn lemma_frame_seq_singles(ms: Seq<Seq<u8>>)
    requires
        forall|i: int| 0 <= i < ms.len() ==> (#[trigger] ms[i]).len() == FRAME_LEN,
    ensures
        frame_seq(ms) == ms,
    decreases ms.len(),
{
    if ms.len() > 0 {
        lemma_frame_seq_singles(ms.drop_last());
        lemma_frames_of_single(ms.last());
        assert(ms.drop_last() + seq![ms.last()] =~= ms);
    }
}

/// Padded direct packets are frames of the padded framing with the same stream.
proof fn lemma_padded_frames(ps: Seq<Seq<u8>>, fs: Seq<Seq<u8>>, with_cycles: bool)
    requires
        fs.len() == ps.len(),
        forall|i: int| 0 <= i < ps.len() ==> direct_packet_ok(#[trigger] ps[i], with_cycles),
        forall|i: int| 0 <= i < ps.len() ==> #[trigger] fs[i] == pad(ps[i]),
    ensures
        forall|i: int|
            0 <= i < fs.len() ==> (#[trigger] fs[i]).len() == FRAME_LEN && padded_frame_ok(
                fs[i],
                with_cycles,
            ),
        stream(fs) == stream(ps),
        forall|gathered: Seq<u8>, flushing: bool, cap: int|
            packets_cut(ps, gathered, flushing, cap) ==> #[trigger] packets_cut(
                fs,
                gathered,
                flushing,
                cap,
            ),
{
    assert forall|i: int| 0 <= i < fs.len() implies #[trigger] payload(fs[i]) == payload(ps[i]) by {
        lemma_pad_payload(ps[i], with_cycles);
    }
    assert forall|i: int| 0 <= i < fs.len() implies (#[trigger] fs[i]).len() == FRAME_LEN
        && padded_frame_ok(fs[i], with_cycles) by {
        assert(direct_packet_ok(ps[i], with_cycles));
        lemma_pad_payload(ps[i], with_cycles);
    }
    lemma_stream_pad(ps, fs, with_cycles);
}

/// The device decodes a packet of the direct framing as a write of the
/// writer's kind carrying every byte after the header; no packet exceeds
/// the size of a packet buffer.
pub proof fn law_packet_header_decodes(p: Seq<u8>, with_cycles: bool)
    requires
        direct_packet_ok(p, with_cycles),
    ensures
        crate::constants::opcode_of(p[0]) == write_op(with_cycles),
        low_bits_of(p[0]) == p.len() - 1,
        p.len() <= LEN_OUT_BUFFER,
        payload(p) == p.subrange(1, p.len() as int),
{
    crate::constants::law_header_round_trip(write_op(with_cycles), (p.len() - 1) as u8);
}

/// A frame of the padded framing is 64 bytes: a header that the device
/// decodes as a write of the writer's kind, the payload it counts, and
/// zero bytes after it.
pub proof fn law_padded_frame_layout(f: Seq<u8>, with_cycles: bool)
    requires
        padded_frame_ok(f, with_cycles),
    ensures
        f.len() == FRAME_LEN,
        crate::constants::opcode_of(f[0]) == write_op(with_cycles),
        record_len(with_cycles) <= low_bits_of(f[0]) < packet_limit(with_cycles),
        (low_bits_of(f[0]) as int) % record_len(with_cycles) == 0,
        forall|i: int| 1 + low_bits_of(f[0]) <= i < FRAME_LEN ==> f[i] == 0u8,
{
    let p = choose|p: Seq<u8>| direct_packet_ok(p, with_cycles) && f == pad(p);
    law_packet_header_decodes(p, with_cycles);
    assert(f[0] == p[0]);
}

/// A flush delivers everything: after a flushing drain, the payloads of the
/// packets are the bytes gathered before followed by all the bytes the ring
/// held, in order.
pub proof fn law_flush_delivers_everything(
    gathered: Seq<u8>,
    ring_before: RingBuffer,
    ring_after: RingBuffer,
    packets: Seq<Seq<u8>>,
    left: Seq<u8>,
)
    requires
        ring_before.wf(),
        ring_after.advanced_from(&ring_before, ring_before.count() - ring_after.count()),
        ring_after@.len() == 0,
        left.len() == 0,
        gathered + ring_before@.subrange(0, ring_before.count() - ring_after.count()) == stream(
            packets,
        ) + left,
    ensures
        stream(packets) == gathered + ring_before@,
{
    assert(ring_before@.subrange(0, ring_before.count()) =~= ring_before@);
    assert(stream(packets) + left =~= stream(packets));
}

/// Each packet padded with zero bytes to a full frame.
fn pad_frames(packets: &Vec<Vec<u8>>) -> (r: Vec<Vec<u8>>)
    requires
        forall|i: int|
            0 <= i < packets.len() ==> (#[trigger] packets.deep_view()[i]).len() <= FRAME_LEN,
    ensures
        r.len() == packets.len(),
        forall|i: int| 0 <= i < r.len() ==> #[trigger] r.deep_view()[i] == pad(packets.deep_view()[i]),
{
    let mut r: Vec<Vec<u8>> = Vec::new();
    let mut i: usize = 0;
    while i < packets.len()
        invariant
            i <= packets.len(),
            r.len() == i,
            forall|i: int|
                0 <= i < packets.len() ==> (#[trigger] packets.deep_view()[i]).len() <= FRAME_LEN,
            forall|j: int| 0 <= j < i ==> #[trigger] r.deep_view()[j] == pad(packets.deep_view()[j]),
        decreases packets.len() - i,
    {
        let p = &packets[i];
        assert(p@ =~= packets.deep_view()[i as int]);
        let mut f: Vec<u8> = Vec::new();
        let mut j: usize = 0;
        while j < p.len()
            invariant
                j <= p.len(),
                f@ == p@.subrange(0, j as int),
            decreases p.len() - j,
        {
            f.push(p[j]);
            j = j + 1;
            assert(f@ =~= p@.subrange(0, j as int));
        }
        assert(f@ =~= p@);
        let ghost plen = p.len();
        while f.len() < FRAME_LEN
            invariant
                plen <= f.len() <= FRAME_LEN,
                plen == p@.len(),
                f@ == p@ + Seq::new((f.len() - plen) as nat, |k: int| 0u8),
            decreases FRAME_LEN - f.len(),
        {
            f.push(0u8);
            assert(f@ =~= p@ + Seq::new((f.len() - plen) as nat, |k: int| 0u8));
        }
        let ghost rb = r.deep_view();
        assert(f.deep_view() =~= f@);
        r.push(f);
        assert(r.deep_view() =~= rb.push(f@));
        i = i + 1;
    }
    r
}

/// The frames one after the other, as one transfer.
pub fn join_frames(frames: &Vec<Vec<u8>>) -> (r: Vec<u8>)
    ensures
        r@ == join(frames.deep_view()),
{
    let mut r: Vec<u8> = Vec::new();
    let mut i: usize = 0;
    while i < frames.len()
        invariant
            i <= frames.len(),
            r@ == join(frames.deep_view().subrange(0, i as int)),
        decreases frames.len() - i,
    {
        let f = &frames[i];
        let ghost before = r@;
        let mut j: usize = 0;
        while j < f.len()
            invariant
                j <= f.len(),
                r@ == before + f@.subrange(0, j as int),
            decreases f.len() - j,
        {
            r.push(f[j]);
            j = j + 1;
            assert(r@ =~= before + f@.subrange(0, j as int));
        }
        proof {
            let s = frames.deep_view().subrange(0, i + 1);
            assert(s.drop_last() =~= frames.deep_view().subrange(0, i as int));
            assert(f@.subrange(0, f.len() as int) =~= f@);
        }
        i = i + 1;
    }
    assert(frames.deep_view().subrange(0, frames.len() as int) =~= frames.deep_view());
    r
}

/// The frames as transfers: one transfer each outside a flush, all of them
/// in one transfer during a flush.
fn transfers(frames: Vec<Vec<u8>>, flushing: bool) -> (out: Vec<Vec<u8>>)
    requires
        forall|i: int|
            0 <= i < frames.len() ==> (#[trigger] frames.deep_view()[i]).len() == FRAME_LEN,
    ensures
        frame_seq(out.deep_view()) == frames.deep_view(),
        forall|i: int| 0 <= i < out.len() ==> (#[trigger] out@[i]).len() > 0,
        forall|i: int| 0 <= i < out.len() ==> (#[trigger] out@[i]).len() % FRAME_LEN == 0,
        !flushing ==> forall|i: int| 0 <= i < out.len() ==> (#[trigger] out@[i]).len() == FRAME_LEN,
        flushing ==> out.len() <= 1,
{
    if flushing {
        if frames.len() > 0 {
            let joined = join_frames(&frames);
            let mut out: Vec<Vec<u8>> = Vec::new();
            out.push(joined);
            proof {
                let fs = frames.deep_view();
                lemma_frames_of_join(fs);
                lemma_join_len(fs);
                assert(out@[0].deep_view() =~= joined@);
                assert(out.deep_view() =~= seq![joined@]);
                assert(out.deep_view().drop_last() =~= Seq::<Seq<u8>>::empty());
                assert(frame_seq(Seq::<Seq<u8>>::empty()) =~= Seq::<Seq<u8>>::empty());
                assert(frame_seq(out.deep_view()) == frame_seq(Seq::<Seq<u8>>::empty())
                    + frames_of(joined@));
                assert(frame_seq(out.deep_view()) =~= fs);
                let n = fs.len() as int;
                assert((64 * n) % 64 == 0) by (nonlinear_arith);
                assert(out@[0].len() == joined@.len());
            }
            out
        } else {
            let out: Vec<Vec<u8>> = Vec::new();
            proof {
                assert(frame_seq(out.deep_view()) =~= frames.deep_view());
            }
            out
        }
    } else {
        proof {
            lemma_frame_seq_singles(frames.deep_view());
            assert forall|i: int| 0 <= i < frames.len() implies (#[trigger] frames@[i]).len()
                == FRAME_LEN by {
                assert(frames.deep_view()[i].len() == frames@[i]@.len());
            }
        }
        frames
    }
}

/// The state that the writer keeps between drains: the records gathered for
/// the packet that is not yet full.
pub struct PacketWriter {
    /// Packet under construction; byte 0 is reserved for the header.
    thread_buf: Vec<u8>,
    /// Next free position in `thread_buf`.
    buffer_pos: usize,
    /// Records carry a 16-bit cycle count.
    with_cycles: bool,
    /// Size of the packet buffers.
    len_out: usize,
}

impl PacketWriter {
    /// Records carry a cycle count.
    pub closed spec fn cycled(&self) -> bool {
        self.with_cycles
    }

    /// The size at which this writer's packets go out.
    pub closed spec fn cap(&self) -> int {
        packet_cap(self.with_cycles, self.len_out as int)
    }

    /// The bytes gathered for the next packet, not yet sent.
    pub closed spec fn pending(&self) -> Seq<u8> {
        self.thread_buf@.subrange(1, self.buffer_pos as int)
    }

    /// The writer is well formed: its buffer has room for a full packet, and
    /// the gathered bytes are whole records that stay below the packet limit.
    pub closed spec fn wf(&self) -> bool {
        &&& self.thread_buf.len() == self.len_out
        &&& len_out_fits(self.with_cycles, self.len_out as int)
        &&& 1 <= self.buffer_pos < self.cap()
        &&& (self.buffer_pos - 1) % record_len(self.with_cycles) == 0
    }

    /// The packet under construction may have just reached the limit.
    closed spec fn filling(&self) -> bool {
        &&& self.thread_buf.len() == self.len_out
        &&& len_out_fits(self.with_cycles, self.len_out as int)
        &&& 1 <= self.buffer_pos <= self.cap()
        &&& (self.buffer_pos - 1) % record_len(self.with_cycles) == 0
    }

    /// What a well-formed writer holds: whole records, fewer than fill a packet.
    pub proof fn law_writer_holds_whole_records(&self)
        requires
            self.wf(),
        ensures
            (self.pending().len() as int) % record_len(self.cycled()) == 0,
            self.pending().len() < self.cap() - 1,
            self.cap() <= packet_limit(self.cycled()),
    {
    }

    /// A writer with nothing gathered, for records of the given kind, with
    /// packet buffers of `len_out` bytes.
    pub fn new(with_cycles: bool, len_out: usize) -> (r: Self)
        requires
            len_out_fits(with_cycles, len_out as int),
        ensures
            r.wf(),
            r.cap() == packet_cap(with_cycles, len_out as int),
            r.cycled() == with_cycles,
            r.pending() == Seq::<u8>::empty(),
    {
        proof {
            lemma_cap(with_cycles, len_out as int);
        }
        let mut thread_buf: Vec<u8> = Vec::new();
        let mut i: usize = 0;
        while i < len_out
            invariant
                i <= len_out,
                thread_buf@.len() == i,
            decreases len_out - i,
        {
            thread_buf.push(0u8);
            i = i + 1;
        }
        let r = PacketWriter { thread_buf, buffer_pos: 1, with_cycles, len_out };
        assert(r.pending() =~= Seq::<u8>::empty());
        r
    }

    /// Records carry a cycle count.
    pub fn with_cycles(&self) -> (r: bool)
        ensures
            r == self.cycled(),
    {
        self.with_cycles
    }

    /// Header byte for a packet of `count` payload bytes in this writer's mode.
    fn header(&self, count: u8) -> (r: u8)
        requires
            count < 64,
        ensures
            r == header_of(write_op(self.cycled()), count),
    {
        if self.with_cycles {
            cycled_write_header(count)
        } else {
            write_header(count)
        }
    }

    /// Close the packet under construction: write its header, hand it out as
    /// a packet of its own length, and start an empty one.
    fn emit_direct(&mut self, out: &mut Vec<Vec<u8>>)
        requires
            old(self).filling(),
            old(self).pending().len() > 0,
        ensures
            final(self).wf(),
            final(self).cycled() == old(self).cycled(),
            final(self).pending() == Seq::<u8>::empty(),
            final(out).deep_view() == old(out).deep_view().push(final(out).deep_view().last()),
            direct_packet_ok(final(out).deep_view().last(), old(self).cycled()),
            payload(final(out).deep_view().last()) == old(self).pending(),
            old(self).pending().len() == old(self).buffer_pos - 1,
            final(self).len_out == old(self).len_out,
    {
        let bp = self.buffer_pos;
        let count = (bp - 1) as u8;
        let h = self.header(count);
        self.thread_buf.set(0, h);
        let mut packet: Vec<u8> = Vec::new();
        let mut i: usize = 0;
        while i < bp
            invariant
                i <= bp,
                bp == self.buffer_pos,
                bp <= self.thread_buf.len(),
                packet@ == self.thread_buf@.subrange(0, i as int),
            decreases bp - i,
        {
            packet.push(self.thread_buf[i]);
            i = i + 1;
            assert(packet@ =~= self.thread_buf@.subrange(0, i as int));
        }
        proof {
            assert(packet@.subrange(1, bp as int) =~= old(self).pending());
        }
        out.push(packet);
        self.buffer_pos = 1;
        assert(self.pending() =~= Seq::<u8>::empty());
    }

    /// Pop one byte from the ring into the packet under construction.
    fn take_byte(&mut self, ring: &mut RingBuffer)
        requires
            1 <= old(self).buffer_pos < old(self).thread_buf.len(),
            old(ring).wf(),
            old(ring).count() > 0,
        ensures
            final(ring).wf(),
            final(ring).advanced_from(old(ring), 1),
            final(ring).count() == old(ring).count() - 1,
            final(self).buffer_pos == old(self).buffer_pos + 1,
            final(self).thread_buf.len() == old(self).thread_buf.len(),
            final(self).with_cycles == old(self).with_cycles,
            final(self).len_out == old(self).len_out,
            final(self).pending() == old(self).pending().push(old(ring)@[0]),
    {
        let b = ring.get();
        let bp = self.buffer_pos;
        self.thread_buf.set(bp, b);
        self.buffer_pos = bp + 1;
        assert(self.pending() =~= old(self).pending().push(old(ring)@[0]));
    }

    /// Pop one whole record from the ring into the packet under construction.
    fn take_record(&mut self, ring: &mut RingBuffer)
        requires
            old(self).wf(),
            old(ring).wf(),
            old(ring).count() >= record_len(old(self).cycled()),
        ensures
            final(ring).wf(),
            final(ring).advanced_from(old(ring), record_len(old(self).cycled())),
            final(ring).count() == old(ring).count() - record_len(old(self).cycled()),
            final(self).filling(),
            final(self).cycled() == old(self).cycled(),
            final(self).len_out == old(self).len_out,
            final(self).buffer_pos == old(self).buffer_pos + record_len(old(self).cycled()),
            final(self).pending() == old(self).pending() + old(ring)@.subrange(
                0,
                record_len(old(self).cycled()),
            ),
    {
        let ghost r0 = *ring;
        proof {
            let rec = record_len(self.with_cycles);
            lemma_cap(self.with_cycles, self.len_out as int);
            lemma_record_multiples(self.cap() - 1, self.buffer_pos - 1, rec);
        }
        self.take_byte(ring);
        self.take_byte(ring);
        if self.with_cycles {
            self.take_byte(ring);
            self.take_byte(ring);
        }
        proof {
            let n = record_len(old(self).cycled());
            assert(self.pending() =~= old(self).pending() + r0@.subrange(0, n));
        }
    }

    /// Whether the drain loop takes another record: while the ring is not
    /// empty when flushing, while it is above its threshold otherwise.
    fn keep_draining(ring: &RingBuffer, flushing: bool) -> (r: bool)
        requires
            ring.wf(),
        ensures
            flushing ==> r == (ring.count() != 0),
            !flushing ==> r == ring.above_threshold(),
            r ==> ring.count() > 0,
    {
        if flushing {
            !ring.is_empty()
        } else {
            ring.has_data()
        }
    }

    /// Drain the ring into packets of the direct framing.
    ///
    /// When `flushing`, the partial packet gathered before goes out first,
    /// the ring is drained to empty, and what is left goes out last.
    /// Otherwise records are popped while the ring holds more than its
    /// threshold, and a packet goes out each time one fills up.
    ///
    /// The bytes popped from the ring, behind the bytes gathered before, are
    /// the payloads of the packets handed out, in order, followed by the
    /// bytes gathered for the next packet.
    #[verifier::rlimit(50)]
    pub fn drain_direct(&mut self, ring: &mut RingBuffer, flushing: bool) -> (out: Vec<Vec<u8>>)
        requires
            old(self).wf(),
            old(ring).wf(),
            old(ring).count() % record_len(old(self).cycled()) == 0,
        ensures
            final(self).wf(),
            final(self).cycled() == old(self).cycled(),
            final(ring).wf(),
            0 <= final(ring).count() <= old(ring).count(),
            final(ring).advanced_from(old(ring), old(ring).count() - final(ring).count()),
            final(ring).count() % record_len(old(self).cycled()) == 0,
            forall|i: int| 0 <= i < out.deep_view().len() ==> direct_packet_ok(#[trigger] out.deep_view()[i], old(self).cycled()),
            old(self).pending() + old(ring)@.subrange(0, old(ring).count() - final(ring).count())
                == stream(out.deep_view()) + final(self).pending(),
            flushing ==> final(ring)@.len() == 0 && final(self).pending().len() == 0,
            !flushing ==> !final(ring).above_threshold(),
            !flushing ==> forall|j: int|
                0 <= j < old(ring).count() - final(ring).count() && j % record_len(
                    old(self).cycled(),
                ) == 0 ==> #[trigger] old(ring).above_threshold_at(
                    slot(old(ring).size(), old(ring).read_cursor() + j),
                ),
            final(self).cap() == old(self).cap(),
            packets_cut(out.deep_view(), old(self).pending(), flushing, old(self).cap()),
    {
        let ghost r0 = *ring;
        let ghost p0 = self.pending();
        let ghost rec = record_len(self.with_cycles);
        let mut out: Vec<Vec<u8>> = Vec::new();
        if flushing {
            let min_pos: usize = if self.with_cycles {
                5
            } else {
                3
            };
            assert(self.pending().len() == self.buffer_pos - 1);
            proof {
                lemma_record_multiples(self.buffer_pos - 1, 0, rec);
            }
            if self.buffer_pos >= min_pos {
                self.emit_direct(&mut out);
                proof {
                    lemma_stream_push(Seq::empty(), out.deep_view()[0]);
                    assert(Seq::<Seq<u8>>::empty().push(out.deep_view()[0]) =~= out.deep_view());
                    assert(stream(Seq::<Seq<u8>>::empty()) =~= Seq::<u8>::empty());
                }
            }
        }
        proof {
            assert(r0@.subrange(0, 0) =~= Seq::<u8>::empty());
            if out.deep_view().len() == 0 {
                assert(stream(out.deep_view()) =~= Seq::<u8>::empty());
            }
        }
        while Self::keep_draining(ring, flushing)
            invariant
                self.wf(),
                self.cycled() == old(self).cycled(),
                rec == record_len(self.cycled()),
                ring.wf(),
                0 <= ring.count() <= r0.count(),
                ring.advanced_from(&r0, r0.count() - ring.count()),
                ring.count() % rec == 0,
                r0.count() % rec == 0,
                self.cap() == old(self).cap(),
                r0.wf(),
                r0 == *old(ring),
                p0 == old(self).pending(),
                forall|i: int| 0 <= i < out.deep_view().len() ==> direct_packet_ok(#[trigger] out.deep_view()[i], self.cycled()),
                p0 + r0@.subrange(0, r0.count() - ring.count()) == stream(out.deep_view()) + self.pending(),
                !flushing ==> forall|j: int|
                    0 <= j < r0.count() - ring.count() && j % rec == 0
                        ==> #[trigger] r0.above_threshold_at(slot(r0.size(), r0.read_cursor() + j)),
                (flushing && p0.len() > 0) ==> (out.deep_view().len() > 0 && payload(
                    out.deep_view()[0],
                ) == p0),
                forall|i: int|
                    (if flushing && p0.len() > 0 {
                        1int
                    } else {
                        0int
                    }) <= i < out.deep_view().len() ==> (#[trigger] payload(out.deep_view()[i])).len()
                        == self.cap() - 1,
            decreases ring.count(),
        {
            let ghost ring_before = *ring;
            let ghost pend_before = self.pending();
            let ghost out_before = out.deep_view();
            let ghost k = r0.count() - ring.count();
            proof {
                lemma_record_multiples(r0.count(), ring.count(), rec);
                lemma_record_multiples(k, 0, rec);
                if !flushing {
                    assert(ring.above_threshold());
                    assert(r0.above_threshold_at(slot(r0.size(), r0.read_cursor() + k)));
                }
            }
            self.take_record(ring);
            proof {
                let k2 = r0.count() - ring.count();
                assert(r0@.subrange(0, k2) =~= r0@.subrange(0, k) + ring_before@.subrange(0, rec));
                let rb = ring_before@.subrange(0, rec);
                assert(p0 + r0@.subrange(0, k2) =~= (p0 + r0@.subrange(0, k)) + rb);
                assert(p0 + r0@.subrange(0, k) == stream(out.deep_view()) + pend_before);
                assert(self.pending() == pend_before + rb);
                assert((stream(out.deep_view()) + pend_before) + rb =~= stream(out.deep_view()) + (pend_before + rb));
                assert(k2 == k + rec);
                if !flushing {
                    assert forall|j: int|
                        0 <= j < k2 && j % rec == 0 implies #[trigger] r0.above_threshold_at(
                        slot(r0.size(), r0.read_cursor() + j),
                    ) by {
                        if j >= k {
                            lemma_next_multiple(k, j, rec);
                        }
                    }
                }
            }
            let limit: usize = if self.with_cycles {
                61
            } else {
                63
            };
            if self.buffer_pos >= limit || self.buffer_pos >= self.len_out {
                let ghost pend = self.pending();
                self.emit_direct(&mut out);
                proof {
                    lemma_stream_push(out_before, out.deep_view().last());
                    assert(out.deep_view() =~= out_before.push(out.deep_view().last()));
                    assert(stream(out.deep_view()) + self.pending() =~= stream(out_before) + pend);
                }
            }
        }
        if flushing {
            let min_pos: usize = if self.with_cycles {
                5
            } else {
                3
            };
            if self.buffer_pos >= min_pos {
                let ghost out_before = out.deep_view();
                self.emit_direct(&mut out);
                proof {
                    lemma_stream_push(out_before, out.deep_view().last());
                    assert(out.deep_view() =~= out_before.push(out.deep_view().last()));
                }
            }
        }
        out
    }
    /// Drain the ring into transfers of the padded framing.
    ///
    /// The packets are those of [`PacketWriter::drain_direct`], each padded
    /// with zero bytes to a 64-byte frame. Outside a flush every frame is a
    /// transfer of its own; in a flush all frames go out as one transfer.
    pub fn drain_padded(&mut self, ring: &mut RingBuffer, flushing: bool) -> (out: Vec<Vec<u8>>)
        requires
            old(self).wf(),
            old(ring).wf(),
            old(ring).count() % record_len(old(self).cycled()) == 0,
        ensures
            final(self).wf(),
            final(self).cycled() == old(self).cycled(),
            final(ring).wf(),
            0 <= final(ring).count() <= old(ring).count(),
            final(ring).advanced_from(old(ring), old(ring).count() - final(ring).count()),
            final(ring).count() % record_len(old(self).cycled()) == 0,
            forall|i: int|
                0 <= i < frame_seq(out.deep_view()).len() ==> padded_frame_ok(
                    #[trigger] frame_seq(out.deep_view())[i],
                    old(self).cycled(),
                ),
            forall|i: int| 0 <= i < out.len() ==> (#[trigger] out@[i]).len() > 0,
            forall|i: int| 0 <= i < out.len() ==> (#[trigger] out@[i]).len() % FRAME_LEN == 0,
            !flushing ==> forall|i: int| 0 <= i < out.len() ==> (#[trigger] out@[i]).len() == FRAME_LEN,
            flushing ==> out.len() <= 1,
            old(self).pending() + old(ring)@.subrange(0, old(ring).count() - final(ring).count())
                == stream(frame_seq(out.deep_view())) + final(self).pending(),
            flushing ==> final(ring)@.len() == 0 && final(self).pending().len() == 0,
            !flushing ==> !final(ring).above_threshold(),
            !flushing ==> forall|j: int|
                0 <= j < old(ring).count() - final(ring).count() && j % record_len(
                    old(self).cycled(),
                ) == 0 ==> #[trigger] old(ring).above_threshold_at(
                    slot(old(ring).size(), old(ring).read_cursor() + j),
                ),
            final(self).cap() == old(self).cap(),
            packets_cut(frame_seq(out.deep_view()), old(self).pending(), flushing, old(self).cap()),
    {
        let packets = self.drain_direct(ring, flushing);
        let frames = pad_frames(&packets);
        proof {
            lemma_padded_frames(packets.deep_view(), frames.deep_view(), self.cycled());
        }
        transfers(frames, flushing)
    }
}

} // verus!
