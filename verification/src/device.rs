//! Data types shared by the parsing and selection layers.

use vstd::prelude::*;

verus! {

/// One enumerated USB device, as returned to callers.
///
/// Every record in an enumeration result carries a vendor and product
/// ID that were parsed out of `id`; devices whose identifier cannot be
/// parsed are omitted from results, never returned with placeholder
/// values.
#[derive(Debug, Clone)]
pub struct UsbDevice {
    /// The raw platform hardware-identifier string.
    pub id: String,
    /// 16-bit vendor ID parsed from `id`.
    pub vendor_id: u16,
    /// 16-bit product ID parsed from `id`.
    pub product_id: u16,
    /// Best-effort human-readable name; `None` when the platform has
    /// no description for the device.
    pub description: Option<String>,
    /// Best-effort serial, derived from `id`; `None` when `id` has no
    /// distinguishing trailing segment.
    pub serial_number: Option<String>,
}

/// The mathematical model of a [`UsbDevice`]: the same fields with
/// strings abstracted to character sequences.
pub ghost struct UsbDeviceModel {
    pub id: Seq<char>,
    pub vendor_id: u16,
    pub product_id: u16,
    pub description: Option<Seq<char>>,
    pub serial_number: Option<Seq<char>>,
}

impl View for UsbDevice {
    type V = UsbDeviceModel;

    open spec fn view(&self) -> UsbDeviceModel {
        UsbDeviceModel {
            id: self.id@,
            vendor_id: self.vendor_id,
            product_id: self.product_id,
            description: match self.description {
                Some(d) => Some(d@),
                None => None,
            },
            serial_number: match self.serial_number {
                Some(s) => Some(s@),
                None => None,
            },
        }
    }
}

/// The raw per-device properties the platform reports for one device,
/// before any parsing or filtering. A property the platform could not
/// supply is `None`.
#[derive(Debug, Clone)]
pub struct RawDeviceInfo {
    /// The device's instance identifier, the primary identifier source.
    pub instance_id: Option<String>,
    /// The registry-style hardware-ID property, the fallback source.
    pub registry_hardware_id: Option<String>,
    /// The registry-style friendly-name property.
    pub friendly_name: Option<String>,
    /// The bus-reported device description property.
    pub bus_description: Option<String>,
}

/// Failure to parse a vendor/product ID out of a hardware identifier.
#[derive(Debug, Clone, Copy, PartialEq, Eq, Structural)]
pub struct ParseError;

/// Failure to acquire the platform's device enumeration handle: no
/// devices could be inspected at all. Distinguishes "enumeration
/// subsystem unavailable" from "no USB devices present".
#[derive(Debug, Clone, Copy, PartialEq, Eq, Structural)]
pub struct EnumerationError;

} // verus!
