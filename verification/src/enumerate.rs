//! Selection of devices from the platform's raw per-device properties.
//!
//! The platform layer walks the operating system's device registry and
//! hands in, for each device, the raw properties it could retrieve as a
//! [`RawDeviceInfo`]. Everything decided about a device — which
//! identifier to use, whether it parses, whether it passes the filters,
//! which fields the returned record carries — happens here and is
//! verified.

use vstd::prelude::*;
use crate::device::{EnumerationError, RawDeviceInfo, UsbDevice, UsbDeviceModel};
use crate::parser::{
    extract_serial_number, extract_vid_pid, spec_extract_serial, spec_extract_vid_pid,
};

verus! {

/// The hardware identifier of a device: its instance identifier when
/// available, else its registry hardware-ID property, else nothing.
pub open spec fn spec_hardware_id(raw: RawDeviceInfo) -> Option<Seq<char>> {
    match raw.instance_id {
        Some(s) => Some(s@),
        None => match raw.registry_hardware_id {
            Some(s) => Some(s@),
            None => None,
        },
    }
}

/// The description of a device: its friendly-name property when
/// available, else its bus-reported description, else nothing.
pub open spec fn spec_description(raw: RawDeviceInfo) -> Option<Seq<char>> {
    match raw.friendly_name {
        Some(s) => Some(s@),
        None => match raw.bus_description {
            Some(s) => Some(s@),
            None => None,
        },
    }
}

/// Whether a device's vendor and product IDs pass the supplied
/// filters: each filter, when present, must match exactly.
pub open spec fn passes_filter(
    vendor_id: u16,
    product_id: u16,
    vendor_filter: Option<u16>,
    product_filter: Option<u16>,
) -> bool {
    &&& match vendor_filter {
        Some(v) => v == vendor_id,
        None => true,
    }
    &&& match product_filter {
        Some(p) => p == product_id,
        None => true,
    }
}

/// What one device contributes to an enumeration result: its record,
/// or nothing when it lacks a hardware identifier, its identifier does
/// not parse, or a supplied filter does not match.
pub open spec fn spec_device_from_raw(
    raw: RawDeviceInfo,
    vendor_filter: Option<u16>,
    product_filter: Option<u16>,
) -> Option<UsbDeviceModel> {
    match spec_hardware_id(raw) {
        None => None,
        Some(id) => match spec_extract_vid_pid(id) {
            None => None,
            Some((vendor_id, product_id)) => if passes_filter(
                vendor_id,
                product_id,
                vendor_filter,
                product_filter,
            ) {
                Some(
                    UsbDeviceModel {
                        id: id,
                        vendor_id: vendor_id,
                        product_id: product_id,
                        description: spec_description(raw),
                        serial_number: spec_extract_serial(id),
                    },
                )
            } else {
                None
            },
        },
    }
}

/// What enumeration returns on a sequence of raw devices: each
/// device's contribution, kept in discovery order.
pub open spec fn spec_enumerate(
    devs: Seq<RawDeviceInfo>,
    vendor_filter: Option<u16>,
    product_filter: Option<u16>,
) -> Seq<UsbDeviceModel>
    decreases devs.len(),
{
    if devs.len() == 0 {
        Seq::empty()
    } else {
        let prefix = spec_enumerate(devs.drop_last(), vendor_filter, product_filter);
        match spec_device_from_raw(devs.last(), vendor_filter, product_filter) {
            Some(m) => prefix.push(m),
            None => prefix,
        }
    }
}

/// The models of a sequence of device records.
pub open spec fn models_of(devs: Seq<UsbDevice>) -> Seq<UsbDeviceModel> {
    devs.map_values(|d: UsbDevice| d@)
}

/// The predicate a device record must satisfy to pass the supplied
/// filters.
pub open spec fn matches_filter(
    vendor_filter: Option<u16>,
    product_filter: Option<u16>,
) -> spec_fn(UsbDeviceModel) -> bool {
    |m: UsbDeviceModel| passes_filter(m.vendor_id, m.product_id, vendor_filter, product_filter)
}

/// Builds the record for one device, or nothing when the device lacks
/// an identifier, its identifier does not parse, or a filter does not
/// match.
pub fn device_from_raw(
    raw: &RawDeviceInfo,
    vendor_filter: Option<u16>,
    product_filter: Option<u16>,
) -> (r: Option<UsbDevice>)
    ensures
        r is Some <==> spec_device_from_raw(*raw, vendor_filter, product_filter) is Some,
        r is Some ==> r->0@ == spec_device_from_raw(*raw, vendor_filter, product_filter)->0,
{
    let id: String = match &raw.instance_id {
        Some(s) => s.clone(),
        None => match &raw.registry_hardware_id {
            Some(s) => s.clone(),
            None => {
                return None;
            },
        },
    };
    let (vendor_id, product_id) = match extract_vid_pid(id.as_str()) {
        Ok(vp) => vp,
        Err(_) => {
            return None;
        },
    };
    if let Some(v) = vendor_filter {
        if v != vendor_id {
            return None;
        }
    }
    if let Some(p) = product_filter {
        if p != product_id {
            return None;
        }
    }
    let description: Option<String> = match &raw.friendly_name {
        Some(s) => Some(s.clone()),
        None => match &raw.bus_description {
            Some(s) => Some(s.clone()),
            None => None,
        },
    };
    let serial_number = extract_serial_number(id.as_str());
    Some(UsbDevice { id, vendor_id, product_id, description, serial_number })
}

/// Enumerates from a snapshot of raw per-device properties: every
/// device that carries a parsable hardware identifier and passes the
/// supplied filters, in discovery order.
pub fn enumerate_from_raw(
    devices: &Vec<RawDeviceInfo>,
    vendor_filter: Option<u16>,
    product_filter: Option<u16>,
) -> (r: Vec<UsbDevice>)
    ensures
        models_of(r@) == spec_enumerate(devices@, vendor_filter, product_filter),
{
    let mut out: Vec<UsbDevice> = Vec::new();
    proof {
        assert(models_of(out@) =~= spec_enumerate(devices@.take(0), vendor_filter, product_filter));
    }
    let mut i: usize = 0;
    while i < devices.len()
        invariant
            i <= devices.len(),
            models_of(out@) == spec_enumerate(devices@.take(i as int), vendor_filter, product_filter),
        decreases devices.len() - i,
    {
        match device_from_raw(&devices[i], vendor_filter, product_filter) {
            Some(d) => out.push(d),
            None => (),
        }
        proof {
            assert(devices@.take(i + 1).drop_last() =~= devices@.take(i as int));
            assert(devices@.take(i + 1).last() == devices@[i as int]);
            assert(models_of(out@) =~= spec_enumerate(
                devices@.take(i + 1),
                vendor_filter,
                product_filter,
            ));
        }
        i += 1;
    }
    proof {
        assert(devices@.take(devices@.len() as int) =~= devices@);
    }
    out
}

/// Enumerates from the outcome of acquiring the platform's device
/// list: `None` means the enumeration handle could not be acquired,
/// which is surfaced as a hard failure so callers can tell
/// "enumeration subsystem unavailable" from "no USB devices present".
pub fn enumerate_snapshot(
    snapshot: Option<Vec<RawDeviceInfo>>,
    vendor_filter: Option<u16>,
    product_filter: Option<u16>,
) -> (r: Result<Vec<UsbDevice>, EnumerationError>)
    ensures
        snapshot is Some ==> r is Ok && models_of(r->Ok_0@) == spec_enumerate(
            snapshot->0@,
            vendor_filter,
            product_filter,
        ),
        snapshot is None ==> r is Err,
{
    match snapshot {
        Some(devices) => Ok(enumerate_from_raw(&devices, vendor_filter, product_filter)),
        None => Err(EnumerationError),
    }
}

/// Filtering during enumeration returns exactly the matching devices,
/// in discovery order: it equals filtering the unfiltered result
/// after the fact.
pub proof fn lemma_enumerate_filters(
    devs: Seq<RawDeviceInfo>,
    vendor_filter: Option<u16>,
    product_filter: Option<u16>,
)
    ensures
        spec_enumerate(devs, vendor_filter, product_filter) == spec_enumerate(
            devs,
            None,
            None,
        ).filter(matches_filter(vendor_filter, product_filter)),
    decreases devs.len(),
{
    reveal(Seq::filter);
    let pred = matches_filter(vendor_filter, product_filter);
    if devs.len() == 0 {
        assert(spec_enumerate(devs, None, None).filter(pred) =~= Seq::<UsbDeviceModel>::empty());
    } else {
        lemma_enumerate_filters(devs.drop_last(), vendor_filter, product_filter);
        let u = spec_enumerate(devs.drop_last(), None, None);
        match spec_device_from_raw(devs.last(), None, None) {
            Some(m) => {
                assert(u.push(m).drop_last() =~= u);
                assert(u.push(m).last() == m);
            },
            None => {},
        }
    }
}

/// An unfiltered enumeration is a superset of every filtered one:
/// every device a filtered call returns, the unfiltered call returns
/// too.
pub proof fn lemma_enumerate_unfiltered_superset(
    devs: Seq<RawDeviceInfo>,
    vendor_filter: Option<u16>,
    product_filter: Option<u16>,
    m: UsbDeviceModel,
)
    requires
        spec_enumerate(devs, vendor_filter, product_filter).contains(m),
    ensures
        spec_enumerate(devs, None, None).contains(m),
{
    lemma_enumerate_filters(devs, vendor_filter, product_filter);
    spec_enumerate(devs, None, None).lemma_filter_contains_rev(
        matches_filter(vendor_filter, product_filter),
        m,
    );
}

/// An enumeration returns every device that can be identified: each
/// raw device whose properties yield a record under the supplied
/// filters contributes that record to the result.
pub proof fn lemma_enumerate_complete(
    devs: Seq<RawDeviceInfo>,
    vendor_filter: Option<u16>,
    product_filter: Option<u16>,
    i: int,
)
    requires
        0 <= i < devs.len(),
        spec_device_from_raw(devs[i], vendor_filter, product_filter) is Some,
    ensures
        spec_enumerate(devs, vendor_filter, product_filter).contains(
            spec_device_from_raw(devs[i], vendor_filter, product_filter)->0,
        ),
    decreases devs.len(),
{
    let m = spec_device_from_raw(devs[i], vendor_filter, product_filter)->0;
    let out = spec_enumerate(devs, vendor_filter, product_filter);
    let prefix = spec_enumerate(devs.drop_last(), vendor_filter, product_filter);
    if i == devs.len() - 1 {
        assert(out[out.len() - 1] == m);
    } else {
        assert(devs.drop_last()[i] == devs[i]);
        lemma_enumerate_complete(devs.drop_last(), vendor_filter, product_filter, i);
        let j = choose|j: int| 0 <= j < prefix.len() && prefix[j] == m;
        assert(out[j] == m);
    }
}

/// A device lacking any retrievable hardware identifier is excluded
/// from the result set, not returned with empty or zeroed fields.
pub proof fn lemma_no_identifier_excluded(
    raw: RawDeviceInfo,
    vendor_filter: Option<u16>,
    product_filter: Option<u16>,
)
    requires
        raw.instance_id is None,
        raw.registry_hardware_id is None,
    ensures
        spec_device_from_raw(raw, vendor_filter, product_filter) is None,
{
}

/// A device with an identifier but no retrievable friendly name or
/// bus description is returned with an absent description, never an
/// empty string standing in for absence.
pub proof fn lemma_missing_description_is_absent(
    raw: RawDeviceInfo,
    vendor_filter: Option<u16>,
    product_filter: Option<u16>,
)
    requires
        raw.friendly_name is None,
        raw.bus_description is None,
        spec_device_from_raw(raw, vendor_filter, product_filter) is Some,
    ensures
        spec_device_from_raw(raw, vendor_filter, product_filter)->0.description is None,
{
}

/// Every record of an enumeration result is well formed: its vendor
/// and product IDs parse back out of its identifier, its serial is
/// the one its identifier derives, its identifier is non-empty, and
/// it passed the supplied filters.
pub proof fn lemma_enumerate_wf(
    devs: Seq<RawDeviceInfo>,
    vendor_filter: Option<u16>,
    product_filter: Option<u16>,
    i: int,
)
    requires
        0 <= i < spec_enumerate(devs, vendor_filter, product_filter).len(),
    ensures
        ({
            let m = spec_enumerate(devs, vendor_filter, product_filter)[i];
            &&& spec_extract_vid_pid(m.id) == Some((m.vendor_id, m.product_id))
            &&& m.serial_number == spec_extract_serial(m.id)
            &&& m.id.len() > 0
            &&& passes_filter(m.vendor_id, m.product_id, vendor_filter, product_filter)
        }),
    decreases devs.len(),
{
    let out = spec_enumerate(devs, vendor_filter, product_filter);
    let prefix = spec_enumerate(devs.drop_last(), vendor_filter, product_filter);
    if i < prefix.len() {
        lemma_enumerate_wf(devs.drop_last(), vendor_filter, product_filter, i);
    } else {
        let m = out[i];
        crate::parser::lemma_find_marker_is_marker(m.id, 0, 'V', 'v');
    }
}

} // verus!
