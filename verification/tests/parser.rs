use usb_enumeration::{extract_serial_number, extract_vid_pid, last_semicolon_segment, trim_trailing_nuls};

#[test]
fn extracts_vendor_and_product() {
    assert_eq!(extract_vid_pid("USB\\VID_1234&PID_5678"), Ok((0x1234, 0x5678)));
}

#[test]
fn extracts_serial() {
    assert_eq!(
        extract_serial_number("USB\\VID_1234&PID_5678\\7&1A2B3C4D&0&1"),
        Some("7&1A2B3C4D&0&1".to_string())
    );
}

#[test]
fn markers_are_case_insensitive() {
    assert_eq!(extract_vid_pid("usb\\vid_abcd&pid_EF01"), Ok((0xABCD, 0xEF01)));
    assert_eq!(extract_vid_pid("Vid_000a&pId_FFFF"), Ok((0x000A, 0xFFFF)));
}

#[test]
fn markers_in_either_order() {
    assert_eq!(extract_vid_pid("PID_5678&VID_1234"), Ok((0x1234, 0x5678)));
}

#[test]
fn markers_interleaved_with_other_segments() {
    assert_eq!(
        extract_vid_pid("USB\\ROOT&VID_0403&MI_00&PID_6001&REV_0600"),
        Ok((0x0403, 0x6001))
    );
}

#[test]
fn fails_without_vid_marker() {
    assert!(extract_vid_pid("USB\\PID_5678").is_err());
}

#[test]
fn fails_without_pid_marker() {
    assert!(extract_vid_pid("USB\\VID_1234").is_err());
}

#[test]
fn fails_on_non_hex_digits() {
    assert!(extract_vid_pid("USB\\VID_12G4&PID_5678").is_err());
    assert!(extract_vid_pid("USB\\VID_1234&PID_56 8").is_err());
}

#[test]
fn fails_when_digits_run_past_end() {
    assert!(extract_vid_pid("PID_5678&VID_12").is_err());
    assert!(extract_vid_pid("VID_1234&PID_").is_err());
}

#[test]
fn fails_on_empty_identifier() {
    assert!(extract_vid_pid("").is_err());
}

#[test]
fn serial_of_single_segment_identifier_is_absent() {
    // The chosen policy: an identifier with no backslash has no
    // distinguishable trailing segment, so no serial is derived.
    assert_eq!(extract_serial_number("USB VID_1234 PID_5678"), None);
    assert_eq!(extract_serial_number(""), None);
}

#[test]
fn serial_after_trailing_separator_is_empty() {
    assert_eq!(extract_serial_number("USB\\VID_1234&PID_5678\\"), Some(String::new()));
}

#[test]
fn parsing_is_pure() {
    let id = "USB\\VID_1234&PID_5678\\7&1A2B3C4D&0&1";
    assert_eq!(extract_vid_pid(id), extract_vid_pid(id));
    assert_eq!(extract_serial_number(id), extract_serial_number(id));
}

#[test]
fn trims_trailing_nuls() {
    assert_eq!(trim_trailing_nuls("abc\0\0\0"), "abc".to_string());
    assert_eq!(trim_trailing_nuls("\0\0"), String::new());
    assert_eq!(trim_trailing_nuls("abc"), "abc".to_string());
    assert_eq!(trim_trailing_nuls("a\0b\0"), "a\0b".to_string());
}

#[test]
fn last_semicolon_segment_splits() {
    assert_eq!(last_semicolon_segment("a;b;c"), "c".to_string());
    assert_eq!(last_semicolon_segment("abc"), "abc".to_string());
    assert_eq!(last_semicolon_segment("a;"), String::new());
}
