//! Decisions of the transport set-up: which device or port is a
//! USBSID-Pico, and which error a failed set-up reports.

use vstd::prelude::*;

use crate::constants::{PRODUCT_ID, VENDOR_ID};
use crate::error::UsbSidError;

verus! {

/// The USB identifiers of a USBSID-Pico.
pub open spec fn usbsid_ids(vid: u16, pid: u16) -> bool {
    vid == VENDOR_ID && pid == PRODUCT_ID
}

/// A port given by its USB identifiers is a USBSID-Pico.
pub open spec fn is_usbsid_port(port: Option<(u16, u16)>) -> bool {
    port matches Some(ids) && usbsid_ids(ids.0, ids.1)
}

/// `true` when the vendor and product IDs are those of a USBSID-Pico.
pub fn is_usbsid(vid: u16, pid: u16) -> (r: bool)
    ensures
        r == usbsid_ids(vid, pid),
{
    vid == VENDOR_ID && pid == PRODUCT_ID
}

/// The error when no USBSID-Pico was found.
pub fn device_not_found() -> (r: UsbSidError)
    ensures
        r == (UsbSidError::DeviceNotFound { vid: VENDOR_ID, pid: PRODUCT_ID }),
{
    UsbSidError::DeviceNotFound { vid: VENDOR_ID, pid: PRODUCT_ID }
}

/// The port to open among the serial ports found: each port is given by
/// its USB identifiers, `None` for a port that is not a USB port. The
/// first port with the identifiers of a USBSID-Pico is chosen.
pub fn find_usbsid_port(ports: &Vec<Option<(u16, u16)>>) -> (r: Option<usize>)
    ensures
        match r {
            Some(i) => {
                &&& i < ports.len()
                &&& is_usbsid_port(ports@[i as int])
                &&& forall|j: int|
                    0 <= j < i ==> !is_usbsid_port(ports@[j])
            },
            None => forall|j: int|
                0 <= j < ports.len() ==> !is_usbsid_port(ports@[j]),
        },
{
    let mut i: usize = 0;
    while i < ports.len()
        invariant
            i <= ports.len(),
            forall|j: int|
                0 <= j < i ==> !is_usbsid_port(ports@[j]),
        decreases ports.len() - i,
    {
        if let Some(ids) = ports[i] {
            if is_usbsid(ids.0, ids.1) {
                return Some(i);
            }
        }
        i = i + 1;
    }
    None
}

/// The error of a libusb set-up that opened no device: the last error met
/// while opening a matching device, or `DeviceNotFound` when no matching
/// device was met.
pub fn open_error(last_open_err: Option<rusb::Error>) -> (r: UsbSidError)
    ensures
        last_open_err matches Some(e) ==> r == UsbSidError::Usb(e),
        last_open_err is None ==> r == (UsbSidError::DeviceNotFound {
            vid: VENDOR_ID,
            pid: PRODUCT_ID,
        }),
{
    match last_open_err {
        Some(e) => UsbSidError::Usb(e),
        None => device_not_found(),
    }
}

} // verus!
