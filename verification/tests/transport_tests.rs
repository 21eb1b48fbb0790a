use usbsid_pico::error::UsbSidError;
use usbsid_pico::transport::{device_not_found, find_usbsid_port, is_usbsid, open_error};

#[test]
fn recognises_the_device_ids() {
    assert!(is_usbsid(0xCAFE, 0x4011));
    assert!(!is_usbsid(0xCAFE, 0x4012));
    assert!(!is_usbsid(0x1234, 0x4011));
}

#[test]
fn first_matching_port_is_chosen() {
    let ports = vec![None, Some((0x1234, 0x5678)), Some((0xCAFE, 0x4011)), Some((0xCAFE, 0x4011))];
    assert_eq!(find_usbsid_port(&ports), Some(2));
    let ports = vec![None, Some((0xCAFE, 0x0001))];
    assert_eq!(find_usbsid_port(&ports), None);
    assert_eq!(find_usbsid_port(&Vec::new()), None);
}

#[test]
fn open_error_prefers_the_last_open_error() {
    assert!(matches!(open_error(Some(rusb::Error::Access)), UsbSidError::Usb(rusb::Error::Access)));
    assert!(matches!(
        open_error(None),
        UsbSidError::DeviceNotFound { vid: 0xCAFE, pid: 0x4011 }
    ));
    assert!(matches!(
        device_not_found(),
        UsbSidError::DeviceNotFound { vid: 0xCAFE, pid: 0x4011 }
    ));
}
