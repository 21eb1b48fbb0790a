# usbsid_pico

Driver logic for the USBSID-Pico, a Raspberry Pi Pico based board that
drives MOS SID chips (6581/8580) over USB, written in Verus with its
behaviour stated in contracts and proved.

## Layout

| Path | What it holds |
|------|---------------|
| `src/constants.rs` | Protocol opcodes, header and command bytes, USB IDs, clock table, SID address mapping |
| `src/ringbuffer.rs` | The byte ring buffer that feeds the background writer |
| `src/framing.rs` | How the writer cuts ring data into packets (direct and 64-byte padded framings) |
| `src/device.rs` | The driver's state machine: modes, ring writes, queries and their cached answers |
| `src/transport.rs` | Device and port selection, set-up errors |
| `src/error.rs` | The error type |
| `app/` | Ordinary Rust around the library: libusb and serial transports, the writer thread, timing, the C interface |
| `tests/` | Tests of the library on concrete values |

Each operation of `device::UsbSid` either answers from the state or names
the packet to send; `app/` performs the transfer and, for a query, hands the
reply back.
