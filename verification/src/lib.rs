//! Driver logic for the USBSID-Pico, a Raspberry Pi Pico based board that
//! drives MOS SID chips over USB: the wire protocol, the ring buffer that
//! feeds the background writer, the packet framing of that writer and the
//! state machine of the driver.

pub mod constants;
pub mod ringbuffer;
pub mod framing;
pub mod error;
pub mod device;
pub mod transport;
