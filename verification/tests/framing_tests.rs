use usbsid_pico::framing::{join_frames, PacketWriter, FRAME_LEN};
use usbsid_pico::ringbuffer::RingBuffer;

fn ring_with(bytes: &[u8]) -> RingBuffer {
    let mut r = RingBuffer::new(256, 16);
    for &b in bytes {
        assert!(r.put(b));
    }
    r
}

fn records(n: usize) -> Vec<u8> {
    (0..n * 4).map(|i| i as u8).collect()
}

#[test]
fn normal_drain_stops_at_threshold() {
    let data = records(5);
    let mut ring = ring_with(&data);
    let mut w = PacketWriter::new(true, 64);
    let out = w.drain_direct(&mut ring, false);
    assert!(out.is_empty());
    assert_eq!(ring.len(), 16);
    assert!(!ring.has_data());
}

#[test]
fn flush_sends_gathered_then_the_rest() {
    let data = records(5);
    let mut ring = ring_with(&data);
    let mut w = PacketWriter::new(true, 64);
    let out = w.drain_direct(&mut ring, false);
    assert!(out.is_empty());
    let out = w.drain_direct(&mut ring, true);
    assert_eq!(out.len(), 2);
    assert_eq!(out[0], [&[0x84u8][..], &data[0..4]].concat());
    assert_eq!(out[1], [&[0x80u8 | 16][..], &data[4..20]].concat());
    assert!(ring.is_empty());
}

#[test]
fn full_packets_go_out_during_normal_drain() {
    let data = records(30);
    let mut ring = RingBuffer::new(256, 16);
    for &b in &data {
        ring.put(b);
    }
    let mut w = PacketWriter::new(true, 64);
    let out = w.drain_direct(&mut ring, false);
    assert_eq!(out.len(), 1);
    assert_eq!(out[0].len(), 61);
    assert_eq!(out[0][0], 0x80 | 60);
    assert_eq!(&out[0][1..], &data[0..60]);
    assert_eq!(ring.len(), 16);
    // A flush then delivers the 11 gathered records and the 4 left.
    let out = w.drain_direct(&mut ring, true);
    assert_eq!(out.len(), 2);
    assert_eq!(out[0][0], 0x80 | 44);
    assert_eq!(&out[0][1..], &data[60..104]);
    assert_eq!(out[1][0], 0x80 | 16);
    assert_eq!(&out[1][1..], &data[104..120]);
}

#[test]
fn plain_records_use_the_write_opcode() {
    let data: Vec<u8> = (0..40u8).collect();
    let mut ring = ring_with(&data);
    let mut w = PacketWriter::new(false, 64);
    assert!(!w.with_cycles());
    let out = w.drain_direct(&mut ring, true);
    assert_eq!(out.len(), 1);
    assert_eq!(out[0][0], 40);
    assert_eq!(&out[0][1..], &data[..]);
}

#[test]
fn plain_packets_fill_to_62_bytes() {
    let data: Vec<u8> = (0..100u8).collect();
    let mut ring = ring_with(&data);
    let mut w = PacketWriter::new(false, 64);
    let out = w.drain_direct(&mut ring, true);
    assert_eq!(out.len(), 2);
    assert_eq!(out[0][0], 62);
    assert_eq!(&out[0][1..], &data[0..62]);
    assert_eq!(out[1][0], 38);
    assert_eq!(&out[1][1..], &data[62..100]);
}

#[test]
fn flush_of_empty_ring_sends_nothing() {
    let mut ring = RingBuffer::new(256, 16);
    let mut w = PacketWriter::new(true, 64);
    assert!(w.drain_direct(&mut ring, true).is_empty());
    assert!(w.drain_padded(&mut ring, true).is_empty());
}

#[test]
fn padded_frames_outside_a_flush() {
    let data = records(30);
    let mut ring = RingBuffer::new(256, 16);
    for &b in &data {
        ring.put(b);
    }
    let mut w = PacketWriter::new(true, 64);
    let out = w.drain_padded(&mut ring, false);
    assert_eq!(out.len(), 1);
    assert_eq!(out[0].len(), FRAME_LEN);
    assert_eq!(out[0][0], 0x80 | 60);
    assert_eq!(&out[0][1..61], &data[0..60]);
    assert!(out[0][61..].iter().all(|&b| b == 0));
}

#[test]
fn padded_flush_is_one_transfer() {
    let data = records(30);
    let mut ring = RingBuffer::new(256, 16);
    for &b in &data {
        ring.put(b);
    }
    let mut w = PacketWriter::new(true, 64);
    let out = w.drain_padded(&mut ring, true);
    assert_eq!(out.len(), 1);
    assert_eq!(out[0].len(), 2 * FRAME_LEN);
    assert_eq!(out[0][0], 0x80 | 60);
    assert_eq!(&out[0][1..61], &data[0..60]);
    assert_eq!(out[0][64], 0x80 | 60);
    assert_eq!(&out[0][65..125], &data[60..120]);
    assert!(out[0][125..].iter().all(|&b| b == 0));
    assert!(ring.is_empty());
}

#[test]
fn joined_frames_are_concatenated() {
    let frames = vec![vec![1u8; 64], vec![2u8; 64]];
    let j = join_frames(&frames);
    assert_eq!(j.len(), 128);
    assert_eq!(&j[..64], &frames[0][..]);
    assert_eq!(&j[64..], &frames[1][..]);
}

#[test]
fn small_packet_buffers_cut_packets_earlier() {
    // A 9-byte packet buffer holds a header and two cycled records.
    let data = records(5);
    let mut ring = ring_with(&data);
    let mut w = PacketWriter::new(true, 9);
    let out = w.drain_direct(&mut ring, true);
    assert_eq!(out.len(), 3);
    assert_eq!(out[0], [&[0x88u8][..], &data[0..8]].concat());
    assert_eq!(out[1], [&[0x88u8][..], &data[8..16]].concat());
    assert_eq!(out[2], [&[0x84u8][..], &data[16..20]].concat());
}
