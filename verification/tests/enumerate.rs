use usb_enumeration::{
    device_from_raw, enumerate_from_raw, enumerate_snapshot, EnumerationError, RawDeviceInfo,
};

fn raw_device(id: &str) -> RawDeviceInfo {
    RawDeviceInfo {
        instance_id: Some(id.to_string()),
        registry_hardware_id: None,
        friendly_name: None,
        bus_description: None,
    }
}

fn sample_devices() -> Vec<RawDeviceInfo> {
    // Vendor IDs: 0xAAAA, 0xBBBB, 0xAAAA, 0xCCCC.
    vec![
        raw_device("USB\\VID_AAAA&PID_0001\\S1"),
        raw_device("USB\\VID_BBBB&PID_0002\\S2"),
        raw_device("USB\\VID_AAAA&PID_0003\\S3"),
        raw_device("USB\\VID_CCCC&PID_0004\\S4"),
    ]
}

#[test]
fn filter_by_vendor_keeps_exactly_the_matches_in_order() {
    let result = enumerate_from_raw(&sample_devices(), Some(0xAAAA), None);
    assert_eq!(result.len(), 2);
    assert_eq!(result[0].id, "USB\\VID_AAAA&PID_0001\\S1");
    assert_eq!(result[0].vendor_id, 0xAAAA);
    assert_eq!(result[0].product_id, 0x0001);
    assert_eq!(result[1].id, "USB\\VID_AAAA&PID_0003\\S3");
    assert_eq!(result[1].product_id, 0x0003);
}

#[test]
fn filter_by_product_and_both() {
    let by_product = enumerate_from_raw(&sample_devices(), None, Some(0x0002));
    assert_eq!(by_product.len(), 1);
    assert_eq!(by_product[0].vendor_id, 0xBBBB);

    let both = enumerate_from_raw(&sample_devices(), Some(0xAAAA), Some(0x0003));
    assert_eq!(both.len(), 1);
    assert_eq!(both[0].id, "USB\\VID_AAAA&PID_0003\\S3");

    let mismatch = enumerate_from_raw(&sample_devices(), Some(0xAAAA), Some(0x0002));
    assert_eq!(mismatch.len(), 0);
}

#[test]
fn unfiltered_call_returns_every_identifiable_device() {
    let all = enumerate_from_raw(&sample_devices(), None, None);
    assert_eq!(all.len(), 4);

    // A superset of any filtered call against the same snapshot.
    let filtered = enumerate_from_raw(&sample_devices(), Some(0xAAAA), None);
    for d in &filtered {
        assert!(all.iter().any(|a| a.id == d.id
            && a.vendor_id == d.vendor_id
            && a.product_id == d.product_id
            && a.description == d.description
            && a.serial_number == d.serial_number));
    }
}

#[test]
fn device_without_identifier_is_excluded() {
    let devices = vec![
        RawDeviceInfo {
            instance_id: None,
            registry_hardware_id: None,
            friendly_name: Some("Ghost Device".to_string()),
            bus_description: None,
        },
        raw_device("USB\\VID_1234&PID_5678\\S9"),
    ];
    let result = enumerate_from_raw(&devices, None, None);
    assert_eq!(result.len(), 1);
    assert_eq!(result[0].vendor_id, 0x1234);
}

#[test]
fn device_with_unparsable_identifier_is_excluded() {
    let devices = vec![raw_device("ROOT\\COMPOSITE"), raw_device("USB\\VID_1234&PID_5678")];
    let result = enumerate_from_raw(&devices, None, None);
    assert_eq!(result.len(), 1);
    assert_eq!(result[0].id, "USB\\VID_1234&PID_5678");
}

#[test]
fn registry_hardware_id_is_the_fallback_identifier() {
    let device = RawDeviceInfo {
        instance_id: None,
        registry_hardware_id: Some("USB\\VID_0A0B&PID_0C0D".to_string()),
        friendly_name: None,
        bus_description: None,
    };
    let result = device_from_raw(&device, None, None).unwrap();
    assert_eq!(result.id, "USB\\VID_0A0B&PID_0C0D");
    assert_eq!(result.vendor_id, 0x0A0B);
    assert_eq!(result.product_id, 0x0C0D);
}

#[test]
fn instance_id_is_preferred_over_registry_hardware_id() {
    let device = RawDeviceInfo {
        instance_id: Some("USB\\VID_1111&PID_0001\\A".to_string()),
        registry_hardware_id: Some("USB\\VID_2222&PID_0002\\B".to_string()),
        friendly_name: None,
        bus_description: None,
    };
    let result = device_from_raw(&device, None, None).unwrap();
    assert_eq!(result.vendor_id, 0x1111);
    assert_eq!(result.serial_number, Some("A".to_string()));
}

#[test]
fn missing_description_stays_absent() {
    let result = device_from_raw(&raw_device("USB\\VID_1234&PID_5678\\S1"), None, None).unwrap();
    assert_eq!(result.description, None);
}

#[test]
fn friendly_name_is_preferred_over_bus_description() {
    let mut device = raw_device("USB\\VID_1234&PID_5678\\S1");
    device.friendly_name = Some("Widget".to_string());
    device.bus_description = Some("Generic Hub".to_string());
    let result = device_from_raw(&device, None, None).unwrap();
    assert_eq!(result.description, Some("Widget".to_string()));
}

#[test]
fn bus_description_is_the_fallback_description() {
    let mut device = raw_device("USB\\VID_1234&PID_5678\\S1");
    device.bus_description = Some("Generic Hub".to_string());
    let result = device_from_raw(&device, None, None).unwrap();
    assert_eq!(result.description, Some("Generic Hub".to_string()));
}

#[test]
fn serial_is_derived_from_the_identifier() {
    let result = device_from_raw(&raw_device("USB\\VID_1234&PID_5678\\7&1A2B"), None, None).unwrap();
    assert_eq!(result.serial_number, Some("7&1A2B".to_string()));
    let no_sep = device_from_raw(&raw_device("VID_1234&PID_5678"), None, None).unwrap();
    assert_eq!(no_sep.serial_number, None);
}

#[test]
fn snapshot_failure_is_a_hard_error() {
    let failed = enumerate_snapshot(None, None, None);
    assert_eq!(failed.err(), Some(EnumerationError));
}

#[test]
fn snapshot_success_enumerates() {
    let ok = enumerate_snapshot(Some(sample_devices()), Some(0xCCCC), None);
    let devices = ok.unwrap();
    assert_eq!(devices.len(), 1);
    assert_eq!(devices[0].serial_number, Some("S4".to_string()));
}
