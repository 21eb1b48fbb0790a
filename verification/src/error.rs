//! Error type of the USBSID-Pico driver.

use vstd::prelude::*;

verus! {

/// Errors of libusb, carried through unchanged.
#[verifier::external_type_specification]
#[verifier::external_body]
pub struct ExUsbError(rusb::Error);

/// All errors that can occur when interacting with a USBSID-Pico device.
#[derive(Debug)]
pub enum UsbSidError {
    /// The driver has not been initialised yet.
    NotInitialised,
    /// The USB port is not open / device not connected.
    PortNotOpen,
    /// No USBSID-Pico device was found on the bus.
    DeviceNotFound { vid: u16, pid: u16 },
    /// A `rusb` (libusb) operation failed.
    Usb(rusb::Error),
    /// Thread-related error (e.g. failed to spawn).
    Thread(String),
    /// Attempted to use a direct-write function while the background thread is active.
    ThreadedModeActive,
    /// Attempted to use a ring-buffer function while not in the correct threaded mode.
    WrongThreadMode { expected_threaded: bool, expected_cycled: bool },
}

} // verus!
