//! Fixed-size byte ring buffer that feeds the background writer.
//!
//! The producer pushes bytes with [`RingBuffer::put`] and the consumer pops
//! them with [`RingBuffer::get`]. One slot always stays free, so a ring of
//! capacity `n` holds at most `n - 1` bytes, and equal cursors mean empty.

use vstd::prelude::*;

use crate::constants::{DEFAULT_DIFF_SIZE, DEFAULT_RING_SIZE, MIN_DIFF_SIZE, MIN_RING_SIZE};

verus! {

/// The position `p` taken around a ring of `size` slots, for `0 <= p < 2 * size`.
pub open spec fn slot(size: int, p: int) -> int {
    if p < size {
        p
    } else {
        p - size
    }
}

/// The larger of two sizes.
pub open spec fn at_least(x: usize, min: usize) -> usize {
    if x < min {
        min
    } else {
        x
    }
}

/// Storage resized to `n` slots: cut to its first `n` slots, or extended
/// with zero bytes.
pub open spec fn resized(cells: Seq<u8>, n: int) -> Seq<u8> {
    if n <= cells.len() {
        cells.subrange(0, n)
    } else {
        cells + Seq::new((n - cells.len()) as nat, |i: int| 0u8)
    }
}

/// The distance between two cursors, whichever comes first.
pub open spec fn cursor_distance(a: int, b: int) -> int {
    if a >= b {
        a - b
    } else {
        b - a
    }
}

/// A byte-level ring buffer with a read cursor and a write cursor.
pub struct RingBuffer {
    /// Backing storage.
    buf: Vec<u8>,
    /// Current read cursor.
    read_pos: usize,
    /// Current write cursor.
    write_pos: usize,
    /// Total ring capacity.
    ring_size: usize,
    /// Minimum distance between the cursors before the writer drains.
    diff_size: usize,
}

impl View for RingBuffer {
    type V = Seq<u8>;

    /// The bytes waiting in the ring, oldest first.
    open spec fn view(&self) -> Seq<u8> {
        self.contents()
    }
}

impl RingBuffer {
    /// The backing storage, slot by slot.
    pub closed spec fn cells(&self) -> Seq<u8> {
        self.buf@
    }

    /// The read cursor.
    pub closed spec fn read_cursor(&self) -> int {
        self.read_pos as int
    }

    /// The write cursor.
    pub closed spec fn write_cursor(&self) -> int {
        self.write_pos as int
    }

    /// The capacity of the ring.
    pub closed spec fn size(&self) -> int {
        self.ring_size as int
    }

    /// The diff threshold.
    pub closed spec fn threshold(&self) -> int {
        self.diff_size as int
    }

    /// The ring is well formed: storage of the ring's capacity, capacity and
    /// threshold at least their minimums, both cursors inside the storage.
    pub open spec fn wf(&self) -> bool {
        &&& self.cells().len() == self.size()
        &&& self.size() >= MIN_RING_SIZE
        &&& self.size() <= usize::MAX
        &&& self.threshold() >= MIN_DIFF_SIZE
        &&& self.threshold() <= usize::MAX
        &&& 0 <= self.read_cursor() < self.size()
        &&& 0 <= self.write_cursor() < self.size()
    }

    /// Number of bytes waiting between the read and the write cursor.
    pub open spec fn count(&self) -> int {
        if self.write_cursor() >= self.read_cursor() {
            self.write_cursor() - self.read_cursor()
        } else {
            self.write_cursor() + self.size() - self.read_cursor()
        }
    }

    /// The `k` bytes that `k` pops would return, for `k < size`.
    pub open spec fn ahead(&self, k: int) -> Seq<u8> {
        Seq::new(k as nat, |i: int| self.cells()[slot(self.size(), self.read_cursor() + i)])
    }

    /// The bytes waiting in the ring, oldest first.
    pub open spec fn contents(&self) -> Seq<u8> {
        self.ahead(self.count())
    }

    /// The ring is full: one more byte would make the cursors meet.
    pub open spec fn full(&self) -> bool {
        slot(self.size(), self.write_cursor() + 1) == self.read_cursor()
    }

    /// The ring holds enough to drain: the cursors differ and their distance
    /// exceeds the threshold.
    pub open spec fn above_threshold(&self) -> bool {
        self.above_threshold_at(self.read_cursor())
    }

    /// The ring would hold enough to drain with its read cursor at `read`.
    pub open spec fn above_threshold_at(&self, read: int) -> bool {
        &&& read != self.write_cursor()
        &&& cursor_distance(read, self.write_cursor()) > self.threshold()
    }

    /// The ring is `old` set up afresh with `size` slots and the given
    /// threshold: storage resized, both cursors at zero.
    pub open spec fn reset_from(&self, old: RingBuffer, size: int, threshold: int) -> bool {
        &&& self.size() == size
        &&& self.threshold() == threshold
        &&& self.read_cursor() == 0
        &&& self.write_cursor() == 0
        &&& self.cells() == resized(old.cells(), size)
    }

    /// How far slot `p` lies behind the read cursor.
    pub open spec fn offset(&self, p: int) -> int {
        if p >= self.read_cursor() {
            p - self.read_cursor()
        } else {
            p + self.size() - self.read_cursor()
        }
    }

    /// The ring is `old` with `added` pushed behind its contents: same
    /// sizes, same read cursor, and storage unchanged outside the contents.
    pub open spec fn extends(&self, old: RingBuffer, added: Seq<u8>) -> bool {
        &&& self.size() == old.size()
        &&& self.threshold() == old.threshold()
        &&& self.read_cursor() == old.read_cursor()
        &&& self@ == old@ + added
        &&& forall|p: int|
            0 <= p < self.size() && self.offset(p) >= self@.len() ==> #[trigger] self.cells()[p]
                == old.cells()[p]
    }

    /// Pushing in two steps is pushing both parts.
    pub proof fn lemma_extends_trans(a: RingBuffer, b: RingBuffer, c: RingBuffer, x: Seq<u8>, y: Seq<u8>)
        requires
            b.extends(a, x),
            c.extends(b, y),
        ensures
            c.extends(a, x + y),
    {
        assert(c@ =~= a@ + (x + y));
    }

    /// The ring after the read cursor has moved `k` slots: same storage,
    /// same write cursor, same sizes.
    pub open spec fn advanced_from(&self, old: &RingBuffer, k: int) -> bool {
        &&& self.cells() == old.cells()
        &&& self.write_cursor() == old.write_cursor()
        &&& self.size() == old.size()
        &&& self.threshold() == old.threshold()
        &&& self.read_cursor() == slot(old.size(), old.read_cursor() + k)
    }

    /// A ring never holds more than its capacity minus one byte.
    pub proof fn law_capacity(&self)
        requires
            self.wf(),
        ensures
            self@.len() <= self.size() - 1,
            self.full() <==> self@.len() == self.size() - 1,
    {
    }

    /// Create a new ring buffer with the given capacity and diff threshold.
    pub fn new(ring_size: usize, diff_size: usize) -> (r: Self)
        ensures
            r.wf(),
            r.size() == at_least(ring_size, MIN_RING_SIZE),
            r.threshold() == at_least(diff_size, MIN_DIFF_SIZE),
            r.read_cursor() == 0,
            r.write_cursor() == 0,
            r.cells() == Seq::new(r.size() as nat, |i: int| 0u8),
            r@ == Seq::<u8>::empty(),
    {
        let ring_size = if ring_size < MIN_RING_SIZE {
            MIN_RING_SIZE
        } else {
            ring_size
        };
        let diff_size = if diff_size < MIN_DIFF_SIZE {
            MIN_DIFF_SIZE
        } else {
            diff_size
        };
        let mut buf: Vec<u8> = Vec::new();
        let mut i: usize = 0;
        while i < ring_size
            invariant
                i <= ring_size,
                buf@ == Seq::new(i as nat, |j: int| 0u8),
            decreases ring_size - i,
        {
            buf.push(0u8);
            i = i + 1;
        }
        let r = RingBuffer { buf, read_pos: 0, write_pos: 0, ring_size, diff_size };
        assert(r@ =~= Seq::<u8>::empty());
        r
    }

    /// Create with default sizes.
    pub fn with_defaults() -> (r: Self)
        ensures
            r.wf(),
            r.size() == DEFAULT_RING_SIZE,
            r.threshold() == DEFAULT_DIFF_SIZE,
            r.read_cursor() == 0,
            r.write_cursor() == 0,
            r@ == Seq::<u8>::empty(),
    {
        Self::new(DEFAULT_RING_SIZE, DEFAULT_DIFF_SIZE)
    }

    /// Current ring capacity.
    pub fn capacity(&self) -> (r: usize)
        ensures
            r == self.size(),
    {
        self.ring_size
    }

    /// Current diff-size threshold.
    pub fn diff_threshold(&self) -> (r: usize)
        ensures
            r == self.threshold(),
    {
        self.diff_size
    }

    /// Returns `true` when there is data to read and the distance between
    /// read and write cursors exceeds `diff_size`.
    pub fn has_data(&self) -> (r: bool)
        ensures
            r == self.above_threshold(),
    {
        let r = self.read_pos;
        let w = self.write_pos;
        let d = if r >= w {
            r - w
        } else {
            w - r
        };
        r != w && d > self.diff_size
    }

    /// Number of bytes waiting in the ring.
    pub fn len(&self) -> (r: usize)
        requires
            self.wf(),
        ensures
            r == self.count(),
            r == self@.len(),
    {
        if self.write_pos >= self.read_pos {
            self.write_pos - self.read_pos
        } else {
            self.ring_size - self.read_pos + self.write_pos
        }
    }

    /// Returns `true` when read and write cursors are equal.
    pub fn is_empty(&self) -> (r: bool)
        requires
            self.wf(),
        ensures
            r == (self.read_cursor() == self.write_cursor()),
            r == (self.count() == 0),
            r == (self@.len() == 0),
    {
        self.read_pos == self.write_pos
    }

    /// Absolute distance between read and write cursors.
    pub fn diff(&self) -> (r: usize)
        ensures
            r == cursor_distance(self.read_cursor(), self.write_cursor()),
    {
        let r = self.read_pos;
        let w = self.write_pos;
        if r >= w {
            r - w
        } else {
            w - r
        }
    }

    /// The next position after `p` around the ring.
    fn next_pos(&self, p: usize) -> (r: usize)
        requires
            self.wf(),
            p < self.size(),
        ensures
            r == slot(self.size(), p + 1),
    {
        if p + 1 == self.ring_size {
            0
        } else {
            p + 1
        }
    }

    /// Returns `true` when the ring buffer is full.
    pub fn is_full(&self) -> (r: bool)
        requires
            self.wf(),
        ensures
            r == self.full(),
            r == (self.count() == self.size() - 1),
    {
        self.next_pos(self.write_pos) == self.read_pos
    }

    /// Push one byte into the ring, advancing the write cursor.
    /// Returns `false` if the ring is full and the byte was dropped.
    pub fn put(&mut self, item: u8) -> (r: bool)
        requires
            old(self).wf(),
        ensures
            final(self).wf(),
            r == !old(self).full(),
            r ==> final(self).extends(*old(self), seq![item]),
            r ==> {
                &&& final(self)@ == old(self)@.push(item)
                &&& final(self).cells() == old(self).cells().update(old(self).write_cursor(), item)
                &&& final(self).read_cursor() == old(self).read_cursor()
                &&& final(self).write_cursor() == slot(old(self).size(), old(self).write_cursor() + 1)
                &&& final(self).size() == old(self).size()
                &&& final(self).threshold() == old(self).threshold()
            },
            !r ==> *final(self) == *old(self),
    {
        let w = self.write_pos;
        let r = self.read_pos;
        let next = self.next_pos(w);
        if next == r {
            return false;
        }
        self.buf.set(w, item);
        self.write_pos = next;
        assert(self@ =~= old(self)@.push(item));
        assert(self@ =~= old(self)@ + seq![item]);
        true
    }

    /// Pop one byte from the ring, advancing the read cursor.
    ///
    /// The byte under the read cursor is returned whether or not the ring
    /// holds data; on an empty ring the cursor moves past the write cursor.
    pub fn get(&mut self) -> (r: u8)
        requires
            old(self).wf(),
        ensures
            final(self).wf(),
            r == old(self).cells()[old(self).read_cursor()],
            final(self).advanced_from(old(self), 1),
            old(self).count() > 0 ==> {
                &&& r == old(self)@[0]
                &&& final(self)@ == old(self)@.drop_first()
            },
    {
        let r = self.read_pos;
        let item = self.buf[r];
        self.read_pos = self.next_pos(r);
        assert(old(self).count() > 0 ==> self@ =~= old(self)@.drop_first());
        item
    }

    /// Reset both cursors to zero.
    pub fn reset(&mut self)
        requires
            old(self).wf(),
        ensures
            final(self).wf(),
            final(self).cells() == old(self).cells(),
            final(self).size() == old(self).size(),
            final(self).threshold() == old(self).threshold(),
            final(self).read_cursor() == 0,
            final(self).write_cursor() == 0,
            final(self)@ == Seq::<u8>::empty(),
    {
        self.read_pos = 0;
        self.write_pos = 0;
        assert(self@ =~= Seq::<u8>::empty());
    }

    /// Update the ring capacity (reallocates). Resets cursors.
    pub fn set_ring_size(&mut self, size: usize)
        requires
            old(self).wf(),
        ensures
            final(self).wf(),
            final(self).size() == at_least(size, MIN_RING_SIZE),
            final(self).threshold() == old(self).threshold(),
            final(self).read_cursor() == 0,
            final(self).write_cursor() == 0,
            final(self)@ == Seq::<u8>::empty(),
            final(self).cells() == resized(old(self).cells(), final(self).size()),
            final(self).reset_from(
                *old(self),
                at_least(size, MIN_RING_SIZE) as int,
                old(self).threshold(),
            ),
    {
        let new_size = if size < MIN_RING_SIZE {
            MIN_RING_SIZE
        } else {
            size
        };
        let ghost old_cells = self.buf@;
        self.ring_size = new_size;
        self.buf.resize(new_size, 0u8);
        proof {
            if new_size > old_cells.len() {
                assert forall|i: int| old_cells.len() <= i < new_size implies self.buf@[i] == 0u8 by {
                    assert(cloned::<u8>(0u8, self.buf@[i]));
                }
                assert(self.buf@ =~= old_cells + Seq::new(
                    (new_size - old_cells.len()) as nat,
                    |i: int| 0u8,
                )) by {
                    assert forall|i: int| 0 <= i < old_cells.len() implies self.buf@[i]
                        == old_cells[i] by {
                        assert(self.buf@.subrange(0, old_cells.len() as int)[i] == old_cells[i]);
                    }
                }
            }
        }
        self.read_pos = 0;
        self.write_pos = 0;
        assert(self@ =~= Seq::<u8>::empty());
    }

    /// Update the diff threshold.
    pub fn set_diff_size(&mut self, size: usize)
        requires
            old(self).wf(),
        ensures
            final(self).wf(),
            final(self).threshold() == at_least(size, MIN_DIFF_SIZE),
            final(self).cells() == old(self).cells(),
            final(self).size() == old(self).size(),
            final(self).read_cursor() == old(self).read_cursor(),
            final(self).write_cursor() == old(self).write_cursor(),
            final(self)@ == old(self)@,
    {
        self.diff_size = if size < MIN_DIFF_SIZE {
            MIN_DIFF_SIZE
        } else {
            size
        };
    }

    /// Full re-initialisation: new capacity + diff, cursors reset.
    pub fn reinit(&mut self, ring_size: usize, diff_size: usize)
        requires
            old(self).wf(),
        ensures
            final(self).wf(),
            final(self).size() == at_least(ring_size, MIN_RING_SIZE),
            final(self).threshold() == at_least(diff_size, MIN_DIFF_SIZE),
            final(self).read_cursor() == 0,
            final(self).write_cursor() == 0,
            final(self)@ == Seq::<u8>::empty(),
            final(self).cells() == resized(old(self).cells(), final(self).size()),
            final(self).reset_from(
                *old(self),
                at_least(ring_size, MIN_RING_SIZE) as int,
                at_least(diff_size, MIN_DIFF_SIZE) as int,
            ),
    {
        self.set_ring_size(ring_size);
        self.set_diff_size(diff_size);
    }

    /// Reset to defaults.
    pub fn reinit_defaults(&mut self)
        requires
            old(self).wf(),
        ensures
            final(self).wf(),
            final(self).size() == DEFAULT_RING_SIZE,
            final(self).threshold() == DEFAULT_DIFF_SIZE,
            final(self).read_cursor() == 0,
            final(self).write_cursor() == 0,
            final(self)@ == Seq::<u8>::empty(),
            final(self).cells() == resized(old(self).cells(), DEFAULT_RING_SIZE as int),
            final(self).reset_from(*old(self), DEFAULT_RING_SIZE as int, DEFAULT_DIFF_SIZE as int),
    {
        self.reinit(DEFAULT_RING_SIZE, DEFAULT_DIFF_SIZE);
    }
}

} // verus!
