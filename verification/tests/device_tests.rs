use usbsid_pico::device::{ClockChange, InitStep, Query, UsbSid, WriterWait};
use usbsid_pico::error::UsbSidError;
use usbsid_pico::framing::PacketWriter;

fn open_driver(threaded: bool, with_cycles: bool) -> UsbSid {
    let mut d = UsbSid::new();
    assert!(matches!(d.init(threaded, with_cycles), Ok(InitStep::Connect)));
    d.attach_transport();
    if threaded {
        d.init_thread(with_cycles);
        d.thread_started();
    }
    d.mark_open();
    d
}

#[test]
fn new_driver_state() {
    let d = UsbSid::new();
    assert!(d.is_initialised());
    assert!(!d.is_available());
    assert!(!d.is_open());
    assert!(!d.is_threaded());
    assert!(!d.with_cycles());
    assert!(!d.thread_running());
    assert_eq!(d.len_out(), 64);
    assert_eq!(d.cycles_per_sec(), 1_000_000);
    assert_eq!(d.get_refresh_rate(), 20_000);
    assert_eq!(d.get_raster_rate(), 20_000);
    let d2 = UsbSid::default();
    assert_eq!(d2.cycles_per_sec(), 1_000_000);
}

#[test]
fn init_connects_once() {
    let mut d = UsbSid::new();
    assert!(matches!(d.init(true, true), Ok(InitStep::Connect)));
    assert!(d.is_threaded());
    assert!(d.with_cycles());
    d.attach_transport();
    d.mark_open();
    assert!(d.is_available());
    assert!(d.is_open());
    assert!(matches!(d.init(false, false), Ok(InitStep::AlreadyOpen)));
    assert!(d.is_threaded());
    d.close();
    assert!(!d.is_open());
    assert!(!d.is_available());
}

#[test]
fn closed_port_sends_nothing() {
    let mut d = UsbSid::new();
    assert!(d.pause().is_none());
    assert!(d.mute().is_none());
    assert!(d.reset().is_none());
    assert!(matches!(d.check_open(), Err(UsbSidError::PortNotOpen)));
    assert!(matches!(d.single_read(0x1B), Err(UsbSidError::PortNotOpen)));
    assert!(matches!(d.write(1, 2), Err(UsbSidError::PortNotOpen)));
    assert!(matches!(d.write_ring_cycled(1, 2, 3), Err(UsbSidError::PortNotOpen)));
    assert!(matches!(d.get_clock_rate(), Query::Answer(0)));
    assert!(matches!(d.get_num_sids(), Query::Answer(0)));
    assert!(matches!(d.get_fmopl_sid(), Query::Answer(0)));
    assert!(matches!(d.get_pcb_version(), Query::Answer(0)));
    assert!(d.socket_config_query().is_none());
    assert!(matches!(d.set_clock_rate(985_248, true), ClockChange::Ignored));
    assert!(matches!(d.enable_thread(), Err(UsbSidError::PortNotOpen)));
}

#[test]
fn command_packets() {
    let mut d = open_driver(false, false);
    assert_eq!(d.pause(), Some(vec![0xCA, 0, 0]));
    assert_eq!(d.mute(), Some(vec![0xCC, 0, 0]));
    assert_eq!(d.unmute(), Some(vec![0xCD, 0, 0]));
    assert_eq!(d.disable_sid(), Some(vec![0xCF, 0, 0]));
    assert_eq!(d.enable_sid(), Some(vec![0xD0, 0, 0]));
    assert_eq!(d.clear_bus(), Some(vec![0xD1, 0, 0]));
    assert_eq!(d.reset_all_registers(), Some(vec![0xCE, 0x01, 0]));
    assert_eq!(d.reset(), Some(vec![0xCE, 0, 0]));
    // Reset requests a flush.
    assert!(d.take_flush());
    assert!(!d.take_flush());
}

#[test]
fn direct_writes_need_non_threaded_mode() {
    let d = open_driver(false, false);
    assert!(d.write_buffer().is_ok());
    assert_eq!(d.write(0x01, 0x02).unwrap(), vec![0x00, 0x01, 0x02]);
    assert_eq!(d.write_cycled(0x01, 0x02, 0xABCD).unwrap(), vec![0x80, 0x01, 0x02, 0xAB, 0xCD]);
    assert_eq!(d.read(0x1B).unwrap(), vec![0x40, 0x1B]);
    assert_eq!(d.single_read(0x1B).unwrap(), vec![0x40, 0x1B, 0x00]);

    let t = open_driver(true, true);
    assert!(matches!(t.write_buffer(), Err(UsbSidError::ThreadedModeActive)));
    assert!(matches!(t.write(1, 2), Err(UsbSidError::ThreadedModeActive)));
    assert!(matches!(t.write_cycled(1, 2, 3), Err(UsbSidError::ThreadedModeActive)));
    assert!(matches!(t.read(1), Err(UsbSidError::ThreadedModeActive)));
    // Synchronous reads work in any mode.
    assert!(t.single_read(1).is_ok());
}

#[test]
fn ring_writes_need_their_mode() {
    let mut plain = open_driver(false, false);
    assert!(matches!(
        plain.write_ring(1, 2),
        Err(UsbSidError::WrongThreadMode { expected_threaded: true, expected_cycled: false })
    ));
    assert!(matches!(
        plain.write_ring_cycled(1, 2, 3),
        Err(UsbSidError::WrongThreadMode { expected_threaded: true, expected_cycled: true })
    ));
    let mut cycled = open_driver(true, true);
    assert!(matches!(
        cycled.write_ring(1, 2),
        Err(UsbSidError::WrongThreadMode { expected_threaded: true, expected_cycled: false })
    ));
    assert!(cycled.write_ring_cycled(1, 2, 3).is_ok());
    let mut threaded_plain = open_driver(true, false);
    assert!(threaded_plain.write_ring(1, 2).is_ok());
    assert!(matches!(
        threaded_plain.write_ring_cycled(1, 2, 3),
        Err(UsbSidError::WrongThreadMode { expected_threaded: true, expected_cycled: true })
    ));
}

#[test]
fn cycled_ring_write_reaches_the_writer_in_order() {
    let mut d = open_driver(true, true);
    d.write_ring_cycled(0x01, 0x11, 0x1234).unwrap();
    d.write_ring_cycled(0x02, 0x22, 0x00FF).unwrap();
    let mut w = PacketWriter::new(true, d.len_out());
    // Below the threshold nothing is drained.
    assert_eq!(d.writer_wait(), WriterWait::Short);
    assert!(d.drain(&mut w, false).is_empty());
    d.set_flush();
    assert_eq!(d.writer_wait(), WriterWait::Proceed);
    assert!(d.take_flush());
    let out = d.drain(&mut w, true);
    assert_eq!(out, vec![vec![0x88, 0x01, 0x11, 0x12, 0x34, 0x02, 0x22, 0x00, 0xFF]]);
    assert!(!d.flush_done());
    d.finish_flush();
    assert!(d.flush_done());
    assert_eq!(d.writer_wait(), WriterWait::Long);
}

fn small_ring_driver(with_cycles: bool) -> UsbSid {
    let mut s = UsbSid::new();
    s.init(true, with_cycles).unwrap();
    s.attach_transport();
    s.set_buffer_size(256);
    s.init_thread(with_cycles);
    s.mark_open();
    s
}

/// Everything the ring holds, drained in one flush, as payload bytes.
fn flushed_payload(d: &mut UsbSid, with_cycles: bool) -> Vec<u8> {
    let mut w = PacketWriter::new(with_cycles, d.len_out());
    d.set_flush();
    assert!(d.take_flush());
    let out = d.drain(&mut w, true);
    let mut bytes = Vec::new();
    for p in &out {
        bytes.extend_from_slice(&p[1..]);
    }
    assert_eq!(d.writer_wait(), WriterWait::Long);
    bytes
}

#[test]
fn batch_stops_at_a_full_ring() {
    let mut d = open_driver(true, true);
    d.set_buffer_size(0); // not applied: the writer holds the ring
    let writes: Vec<(u8, u8, u16)> = (0..100).map(|i| (i as u8, 0, 0)).collect();
    // Default ring of 32768 bytes takes them all.
    assert_eq!(d.write_ring_cycled_batch(&writes).unwrap(), 100);
    let mut small = small_ring_driver(true);
    // 255 free slots: 63 whole writes; the 64th does not fit and is not pushed.
    assert_eq!(small.write_ring_cycled_batch(&writes).unwrap(), 63);
    assert_eq!(small.write_ring_cycled_batch(&writes).unwrap(), 0);
    let expected: Vec<u8> = (0..63u8).flat_map(|i| vec![i, 0, 0, 0]).collect();
    assert_eq!(flushed_payload(&mut small, true), expected);
    let _ = small.stop_thread();
}

#[test]
fn cycled_write_without_room_is_dropped_whole() {
    let mut d = small_ring_driver(true);
    for i in 0..63u8 {
        d.write_ring_cycled(i, 0x55, 0x0102).unwrap();
    }
    // Three free slots left: the record is dropped, the call succeeds.
    assert!(d.write_ring_cycled(0xEE, 0xEE, 0xEEEE).is_ok());
    let payload = flushed_payload(&mut d, true);
    assert_eq!(payload.len(), 252);
    assert_eq!(&payload[248..], &[62, 0x55, 0x01, 0x02]);
    // After the drain there is room again.
    d.write_ring_cycled(0x01, 0x02, 0x0304).unwrap();
    assert_eq!(flushed_payload(&mut d, true), vec![0x01, 0x02, 0x03, 0x04]);
}

#[test]
fn plain_write_without_room_is_dropped_whole() {
    let mut d = small_ring_driver(false);
    for i in 0..127u8 {
        d.write_ring(i, 0x33).unwrap();
    }
    // One free slot left: the pair is dropped, the call succeeds.
    assert!(d.write_ring(0xEE, 0xEE).is_ok());
    let payload = flushed_payload(&mut d, false);
    assert_eq!(payload.len(), 254);
    assert_eq!(&payload[252..], &[126, 0x33]);
}

#[test]
fn clock_rate_is_cached_after_the_reply() {
    let mut d = open_driver(false, false);
    match d.get_clock_rate() {
        Query::Ask(p) => assert_eq!(p, vec![0xD2, 0x57, 0, 0, 0, 0]),
        Query::Answer(_) => panic!("expected a query"),
    }
    assert_eq!(d.clock_rate_reply(1), 985_248);
    assert_eq!(d.get_refresh_rate(), 19_950);
    assert_eq!(d.get_raster_rate(), 19_656);
    assert!(matches!(d.get_clock_rate(), Query::Answer(985_248)));
}

#[test]
fn out_of_table_reply_keeps_rates() {
    let mut d = open_driver(false, false);
    assert_eq!(d.clock_rate_reply(9), 1_000_000);
    assert!(matches!(d.get_clock_rate(), Query::Answer(1_000_000)));
}

#[test]
fn set_clock_rate_tells_the_device_when_needed() {
    let mut d = open_driver(false, false);
    match d.set_clock_rate(1_022_727, true) {
        ClockChange::Applied(Some(p)) => assert_eq!(p, vec![0xD2, 0x50, 2, 1, 0, 0]),
        _ => panic!("expected a packet"),
    }
    assert_eq!(d.cycles_per_sec(), 1_022_727);
    assert_eq!(d.get_refresh_rate(), 16_715);
    assert_eq!(d.get_raster_rate(), 17_096);
    assert!(matches!(d.set_clock_rate(123, false), ClockChange::Ignored));
    assert_eq!(d.cycles_per_sec(), 1_022_727);
    // Once the device reported PAL, setting PAL needs no packet.
    d.clock_rate_reply(1);
    assert!(matches!(d.set_clock_rate(985_248, false), ClockChange::Applied(None)));
    match d.set_clock_rate(1_000_000, false) {
        ClockChange::Applied(Some(p)) => assert_eq!(p, vec![0xD2, 0x50, 0, 0, 0, 0]),
        _ => panic!("expected a packet"),
    }
    assert!(matches!(d.get_clock_rate(), Query::Answer(1_000_000)));
}

#[test]
fn clock_rate_set_back_after_a_change_tells_the_device() {
    let mut d = open_driver(false, false);
    // The device reports PAL.
    assert_eq!(d.clock_rate_reply(1), 985_248);
    assert!(matches!(d.set_clock_rate(985_248, true), ClockChange::Applied(None)));
    match d.set_clock_rate(1_022_727, true) {
        ClockChange::Applied(Some(p)) => assert_eq!(p, vec![0xD2, 0x50, 2, 1, 0, 0]),
        _ => panic!("expected a packet"),
    }
    // Back to PAL: the device runs at NTSC now and is told.
    match d.set_clock_rate(985_248, true) {
        ClockChange::Applied(Some(p)) => assert_eq!(p, vec![0xD2, 0x50, 1, 1, 0, 0]),
        _ => panic!("expected a packet"),
    }
    assert!(matches!(d.get_clock_rate(), Query::Answer(985_248)));
    assert_eq!(d.get_refresh_rate(), 19_950);
    assert_eq!(d.get_raster_rate(), 19_656);
    // Setting the rate it runs at sends nothing.
    assert!(matches!(d.set_clock_rate(985_248, true), ClockChange::Applied(None)));
}

#[test]
fn device_info_queries() {
    let mut d = open_driver(false, false);
    assert!(matches!(d.get_num_sids(), Query::Ask(ref p) if *p == vec![0xD2, 0x39, 0, 0, 0, 0]));
    assert_eq!(d.num_sids_reply(0), 0);
    assert!(matches!(d.get_num_sids(), Query::Ask(_)));
    assert_eq!(d.num_sids_reply(4), 4);
    assert!(matches!(d.get_num_sids(), Query::Answer(4)));

    assert!(matches!(d.get_fmopl_sid(), Query::Ask(ref p) if *p == vec![0xD2, 0x3A, 0, 0, 0, 0]));
    assert_eq!(d.fmopl_sid_reply(0), -1);
    assert!(matches!(d.get_fmopl_sid(), Query::Answer(-1)));
    assert_eq!(d.fmopl_sid_reply(3), 3);
    assert!(matches!(d.get_fmopl_sid(), Query::Answer(3)));

    assert!(matches!(d.get_pcb_version(), Query::Ask(ref p) if *p == vec![0xD2, 0x81, 0x01, 0, 0, 0]));
    assert_eq!(d.pcb_version_reply(13), 13);
    assert!(matches!(d.get_pcb_version(), Query::Answer(13)));
}

#[test]
fn stereo_only_on_pcb_13() {
    let mut d = open_driver(false, false);
    assert!(matches!(d.set_stereo(1), Query::Ask(_)));
    assert!(matches!(d.toggle_stereo(), Query::Ask(_)));
    d.pcb_version_reply(13);
    assert!(matches!(d.set_stereo(1), Query::Answer(Some(ref p)) if *p == vec![0xD2, 0x89, 1, 0, 0, 0]));
    assert!(matches!(d.toggle_stereo(), Query::Answer(Some(ref p)) if *p == vec![0xD2, 0x88, 0, 0, 0, 0]));
    let mut e = open_driver(false, false);
    e.pcb_version_reply(12);
    assert!(matches!(e.set_stereo(1), Query::Answer(None)));
    assert!(matches!(e.toggle_stereo(), Query::Answer(None)));
}

#[test]
fn socket_config_is_validated_and_asked_each_time() {
    let mut d = open_driver(false, false);
    assert_eq!(d.socket_config_query(), Some(vec![0xD2, 0x37, 0, 0, 0, 0]));
    let good = [0x37, 0x7F, 1, 2, 3, 4, 5, 6, 7, 0xFF];
    let bad = [0x37, 0x7E, 1, 2, 3, 4, 5, 6, 7, 0xFF];
    assert_eq!(d.accept_socket_config(Some(9), good), None);
    assert_eq!(d.accept_socket_config(None, good), None);
    assert_eq!(d.accept_socket_config(Some(10), bad), None);
    assert!(d.socket_config_query().is_some());
    assert_eq!(d.accept_socket_config(Some(10), good), Some(good));
    // A later call asks the device again.
    assert_eq!(d.socket_config_query(), Some(vec![0xD2, 0x37, 0, 0, 0, 0]));
    assert_eq!(d.accept_socket_config(Some(10), good), Some(good));
    d.close();
    assert_eq!(d.socket_config_query(), None);
}

#[test]
fn close_on_a_closed_port_changes_nothing() {
    let mut d = UsbSid::new();
    assert!(matches!(d.init(false, false), Ok(InitStep::Connect)));
    d.attach_transport();
    d.close();
    assert!(d.is_available());
    assert!(!d.is_open());
    d.mark_open();
    d.close();
    assert!(!d.is_available());
    d.close();
    assert!(!d.is_available());
    assert!(!d.is_open());
}

#[test]
fn init_on_an_open_port_changes_nothing() {
    let mut d = open_driver(true, true);
    d.write_ring_cycled(1, 2, 3).unwrap();
    assert!(matches!(d.init(false, false), Ok(InitStep::AlreadyOpen)));
    assert!(d.is_open());
    assert!(d.is_threaded());
    assert!(d.with_cycles());
    assert_eq!(flushed_payload(&mut d, true), vec![1, 2, 0, 3]);
}

#[test]
fn thread_management() {
    let mut d = open_driver(false, false);
    assert!(matches!(d.enable_thread(), Ok(true)));
    assert!(d.is_threaded());
    assert!(d.with_cycles());
    assert!(d.thread_running());
    d.thread_started();
    assert!(d.ring_is_shared());
    assert!(matches!(d.enable_thread(), Ok(false)));
    assert!(d.stop_thread());
    d.on_thread_stopped();
    assert!(!d.is_threaded());
    assert!(!d.with_cycles());
    assert!(!d.ring_is_shared());
    assert!(!d.stop_thread());
    d.restart_thread(false);
    assert!(d.is_threaded());
    assert!(!d.with_cycles());
    assert!(d.thread_running());
}

#[test]
fn ring_reconfiguration_waits_for_a_stopped_writer() {
    let mut d = open_driver(true, true);
    d.write_ring_cycled(1, 2, 3).unwrap();
    d.set_diff_size(100);
    d.restart_ring_buffer();
    // The writer holds the ring: its contents stay.
    assert_eq!(d.writer_wait(), WriterWait::Short);
    assert!(d.stop_thread());
    d.on_thread_stopped();
    assert_eq!(d.writer_wait(), WriterWait::Long);
}
