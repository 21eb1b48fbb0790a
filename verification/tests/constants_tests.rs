use usbsid_pico::constants::{
    clock_index, clock_table_entry, command_byte, cycled_write_header, read_header, sid_address,
    write_header, ClockSpeed, RasterRate, RefreshRate, CMD_CONFIG, CMD_PAUSE, CMD_RESET_SID,
    CLOCK_TABLE_LEN, PRODUCT_ID, VENDOR_ID,
};

#[test]
fn command_bytes_carry_the_command_opcode() {
    assert_eq!(command_byte(CMD_PAUSE), 0xCA);
    assert_eq!(command_byte(CMD_RESET_SID), 0xCE);
    assert_eq!(command_byte(CMD_CONFIG), 0xD2);
    assert_eq!(command_byte(0), 0xC0);
    assert_eq!(command_byte(0x3F), 0xFF);
}

#[test]
fn header_bytes_carry_opcode_and_count() {
    assert_eq!(cycled_write_header(0), 0x80);
    assert_eq!(cycled_write_header(60), 0x80 | 60);
    assert_eq!(write_header(0), 0x00);
    assert_eq!(write_header(62), 62);
    assert_eq!(read_header(), 0x40);
    // The device reads opcode and count back from the byte.
    let h = cycled_write_header(44);
    assert_eq!(h >> 6, 2);
    assert_eq!(h & 0x3F, 44);
}

#[test]
fn usb_identifiers() {
    assert_eq!(VENDOR_ID, 0xCAFE);
    assert_eq!(PRODUCT_ID, 0x4011);
}

#[test]
fn sid_address_maps_first_sid_directly() {
    assert_eq!(sid_address(0xD400), 0x00);
    assert_eq!(sid_address(0xD418), 0x18);
    assert_eq!(sid_address(0xD420), 0x20);
    assert_eq!(sid_address(0xD47F), 0x7F);
    assert_eq!(sid_address(0xD499), 0x99);
}

#[test]
fn sid_address_folds_other_ranges_into_second_sid() {
    assert_eq!(sid_address(0xD500), 0x40);
    assert_eq!(sid_address(0xD518), 0x58);
    assert_eq!(sid_address(0xD599), 0x40 + (0xD599 & 0x3F) as u8);
    assert_eq!(sid_address(0xDE00), 0x40);
    assert_eq!(sid_address(0xDE1F), 0x5F);
    assert_eq!(sid_address(0xDF20), 0x60);
    assert_eq!(sid_address(0xDF99), 0x40 + (0xDF99 & 0x3F) as u8);
}

#[test]
fn sid_address_keeps_low_byte_elsewhere() {
    assert_eq!(sid_address(0x0000), 0x00);
    assert_eq!(sid_address(0xD49A), 0x9A);
    assert_eq!(sid_address(0xD5A0), 0xA0);
    assert_eq!(sid_address(0xDFA0), 0xA0);
    assert_eq!(sid_address(0x1234), 0x34);
}

#[test]
fn rate_values() {
    assert_eq!(ClockSpeed::Default.value(), 1_000_000);
    assert_eq!(ClockSpeed::Pal.value(), 985_248);
    assert_eq!(ClockSpeed::Ntsc.value(), 1_022_727);
    assert_eq!(ClockSpeed::Drean.value(), 1_023_440);
    assert_eq!(ClockSpeed::Ntsc2.value(), 1_022_730);
    assert_eq!(RefreshRate::Default.value(), 20_000);
    assert_eq!(RefreshRate::Eu.value(), 19_950);
    assert_eq!(RefreshRate::Us.value(), 16_715);
    assert_eq!(RasterRate::Default.value(), 20_000);
    assert_eq!(RasterRate::Eu.value(), 19_656);
    assert_eq!(RasterRate::Us.value(), 17_096);
}

#[test]
fn clock_table_entries() {
    assert_eq!(CLOCK_TABLE_LEN, 5);
    assert_eq!(
        clock_table_entry(0),
        (ClockSpeed::Default, RefreshRate::Default, RasterRate::Default)
    );
    assert_eq!(clock_table_entry(1), (ClockSpeed::Pal, RefreshRate::Eu, RasterRate::Eu));
    assert_eq!(clock_table_entry(2), (ClockSpeed::Ntsc, RefreshRate::Us, RasterRate::Us));
    assert_eq!(clock_table_entry(3), (ClockSpeed::Drean, RefreshRate::Us, RasterRate::Us));
    assert_eq!(clock_table_entry(4), (ClockSpeed::Ntsc2, RefreshRate::Us, RasterRate::Us));
}

#[test]
fn clock_index_finds_table_rates_only() {
    assert_eq!(clock_index(1_000_000), Some(0));
    assert_eq!(clock_index(985_248), Some(1));
    assert_eq!(clock_index(1_022_727), Some(2));
    assert_eq!(clock_index(1_023_440), Some(3));
    assert_eq!(clock_index(1_022_730), Some(4));
    assert_eq!(clock_index(0), None);
    assert_eq!(clock_index(985_249), None);
}
