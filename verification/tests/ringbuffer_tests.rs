use usbsid_pico::constants::{DEFAULT_DIFF_SIZE, DEFAULT_RING_SIZE, MIN_DIFF_SIZE, MIN_RING_SIZE};
use usbsid_pico::ringbuffer::RingBuffer;

#[test]
fn new_applies_minimum_sizes() {
    let r = RingBuffer::new(10, 2);
    assert_eq!(r.capacity(), MIN_RING_SIZE);
    assert_eq!(r.diff_threshold(), MIN_DIFF_SIZE);
    let r = RingBuffer::new(1000, 100);
    assert_eq!(r.capacity(), 1000);
    assert_eq!(r.diff_threshold(), 100);
    assert!(r.is_empty());
    assert_eq!(r.len(), 0);
}

#[test]
fn defaults() {
    let r = RingBuffer::with_defaults();
    assert_eq!(r.capacity(), DEFAULT_RING_SIZE);
    assert_eq!(r.diff_threshold(), DEFAULT_DIFF_SIZE);
    assert!(r.is_empty());
    assert!(!r.is_full());
    assert!(!r.has_data());
}

#[test]
fn bytes_come_out_in_the_order_they_went_in() {
    let mut r = RingBuffer::new(256, 16);
    for b in 1..=10u8 {
        assert!(r.put(b));
    }
    assert_eq!(r.len(), 10);
    assert_eq!(r.diff(), 10);
    for b in 1..=10u8 {
        assert_eq!(r.get(), b);
    }
    assert!(r.is_empty());
}

#[test]
fn a_full_ring_drops_bytes() {
    let mut r = RingBuffer::new(256, 16);
    for i in 0..255usize {
        assert!(r.put(i as u8));
    }
    assert!(r.is_full());
    assert_eq!(r.len(), 255);
    assert!(!r.put(0xAA));
    assert_eq!(r.len(), 255);
    assert_eq!(r.get(), 0);
    assert!(!r.is_full());
    assert!(r.put(0xAA));
    // Drain: everything in order, the late byte last.
    for i in 1..255usize {
        assert_eq!(r.get(), i as u8);
    }
    assert_eq!(r.get(), 0xAA);
    assert!(r.is_empty());
}

#[test]
fn wrap_around_keeps_order() {
    let mut r = RingBuffer::new(256, 16);
    for _ in 0..200 {
        r.put(0);
        r.get();
    }
    for i in 0..100u8 {
        assert!(r.put(i));
    }
    assert_eq!(r.len(), 100);
    for i in 0..100u8 {
        assert_eq!(r.get(), i);
    }
}

#[test]
fn has_data_needs_distance_above_threshold() {
    let mut r = RingBuffer::new(256, 16);
    for i in 0..16u8 {
        r.put(i);
    }
    assert!(!r.has_data());
    r.put(16);
    assert!(r.has_data());
}

#[test]
fn has_data_uses_cursor_distance_after_wrap() {
    // Cursors at read = 250, write = 4 after wrapping: the cursor distance
    // is 246 even though only 10 bytes wait.
    let mut r = RingBuffer::new(256, 16);
    for _ in 0..250 {
        r.put(0);
        r.get();
    }
    for i in 0..10u8 {
        r.put(i);
    }
    assert_eq!(r.len(), 10);
    assert_eq!(r.diff(), 246);
    assert!(r.has_data());
}

#[test]
fn get_on_empty_moves_past_the_write_cursor() {
    let mut r = RingBuffer::new(256, 16);
    r.put(7);
    assert_eq!(r.get(), 7);
    assert!(r.is_empty());
    // The stale byte under the cursor comes back and the cursor moves on.
    assert_eq!(r.get(), 0);
    assert_eq!(r.len(), 255);
}

#[test]
fn reset_empties() {
    let mut r = RingBuffer::new(256, 16);
    r.put(1);
    r.put(2);
    r.reset();
    assert!(r.is_empty());
    assert_eq!(r.len(), 0);
}

#[test]
fn resizing_resets_and_applies_minimum() {
    let mut r = RingBuffer::new(512, 16);
    r.put(1);
    r.set_ring_size(100);
    assert_eq!(r.capacity(), MIN_RING_SIZE);
    assert!(r.is_empty());
    r.set_ring_size(1024);
    assert_eq!(r.capacity(), 1024);
    r.set_diff_size(3);
    assert_eq!(r.diff_threshold(), MIN_DIFF_SIZE);
    r.set_diff_size(80);
    assert_eq!(r.diff_threshold(), 80);
}

#[test]
fn reinit_sets_both_sizes() {
    let mut r = RingBuffer::with_defaults();
    r.put(5);
    r.reinit(300, 20);
    assert_eq!(r.capacity(), 300);
    assert_eq!(r.diff_threshold(), 20);
    assert!(r.is_empty());
    r.reinit_defaults();
    assert_eq!(r.capacity(), DEFAULT_RING_SIZE);
    assert_eq!(r.diff_threshold(), DEFAULT_DIFF_SIZE);
}
