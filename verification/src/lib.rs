//! Enumeration of attached USB devices.
//!
//! The library is split in two layers. The parsing layer
//! ([`parser`]) turns raw hardware-identifier strings into vendor and
//! product IDs and serial numbers. The selection layer ([`enumerate`])
//! decides, for each device the operating system reports, whether it
//! belongs in the result and with which fields. Both layers are pure:
//! the platform-specific property queries live outside the library and
//! hand in plain values.

pub mod device;
pub mod parser;
pub mod enumerate;

pub use device::{EnumerationError, ParseError, RawDeviceInfo, UsbDevice};
pub use parser::{extract_serial_number, extract_vid_pid, last_semicolon_segment, trim_trailing_nuls};
pub use enumerate::{device_from_raw, enumerate_from_raw, enumerate_snapshot};
