use vmm_agent::devices::{
    describe_device, extract_addresses, get_pcis_info, text_contains, PciLocation, PciRecord,
};

fn record(bus: u8, dev: u8, vendor: u16, device: u16, class: u8) -> PciRecord {
    PciRecord {
        location: Some(PciLocation { bus, device: dev, function: 0 }),
        vendor_id: vendor,
        device_id: device,
        class_code: Some(class),
        subclass_code: Some(0),
        revision: Some(0xa1),
    }
}

#[test]
fn known_device_gets_database_names() {
    let d = describe_device(&record(0x65, 0, 0x10de, 0x2204, 3));
    assert_eq!(d.address, "65:00.0");
    assert_eq!(d.vendor_name, "NVIDIA Corporation");
    assert_eq!(d.device_name, "NVIDIA Corporation GA102 [GeForce RTX 3090]");
    assert_eq!(d.revision, 0xa1);
    assert_eq!(d.class_code, 3);
}

#[test]
fn unknown_ids_get_hex_names() {
    let d = describe_device(&record(0, 6, 0x1234, 0x00ab, 2));
    assert_eq!(d.address, "00:06.0");
    assert_eq!(d.vendor_name, "vendor (1234)");
    assert_eq!(d.device_name, "vendor (1234) Unknown device (00ab)");
}

#[test]
fn missing_fields_default() {
    let r = PciRecord {
        location: None,
        vendor_id: 0x8086,
        device_id: 0x100e,
        class_code: None,
        subclass_code: None,
        revision: None,
    };
    let d = describe_device(&r);
    assert_eq!(d.address, "Unknown");
    assert_eq!(d.device_name, "Intel Corporation 82540EM Gigabit Ethernet Controller");
    assert_eq!(d.class_code, 0);
    assert_eq!(d.revision, 0);
}

#[test]
fn function_number_in_hex() {
    let mut r = record(0x1a, 0x1f, 0x1234, 1, 1);
    r.location = Some(PciLocation { bus: 0x1a, device: 0x1f, function: 7 });
    assert_eq!(describe_device(&r).address, "1a:1f.7");
}

#[test]
fn class_filter_keeps_matching_devices() {
    let recs = vec![record(1, 0, 0x10de, 0x2204, 3), record(2, 0, 0x8086, 0x100e, 2), record(3, 0, 0x10de, 0x2204, 3)];
    let all = get_pcis_info(&recs, "", "");
    assert_eq!(all.len(), 3);
    let gpus = get_pcis_info(&recs, "class_code", "3");
    assert_eq!(gpus.len(), 2);
    assert_eq!(gpus[0].address, "01:00.0");
    assert_eq!(gpus[1].address, "03:00.0");
    let none = get_pcis_info(&recs, "class_code", "03");
    assert_eq!(none.len(), 0);
}

#[test]
fn addresses_by_name_substring() {
    let recs = vec![record(1, 0, 0x10de, 0x2204, 3), record(2, 0, 0x8086, 0x100e, 3), record(3, 0, 0x10de, 0x2204, 3)];
    let devs = get_pcis_info(&recs, "class_code", "3");
    assert_eq!(extract_addresses(&devs, "RTX 3090"), vec!["01:00.0".to_string(), "03:00.0".to_string()]);
    assert_eq!(extract_addresses(&devs, "rtx"), Vec::<String>::new());
    assert_eq!(extract_addresses(&devs, "Intel"), vec!["02:00.0".to_string()]);
}

#[test]
fn entry_uses_given_names() {
    let r = record(0x3b, 0, 0x10de, 0x2204, 3);
    let d = vmm_agent::devices::device_entry(&r, Some("Acme".to_string()), Some("Widget".to_string()));
    assert_eq!(d.vendor_name, "Acme");
    assert_eq!(d.device_name, "Acme Widget");
    let d = vmm_agent::devices::device_entry(&r, None, None);
    assert_eq!(d.vendor_name, "vendor (10de)");
    assert_eq!(d.device_name, "vendor (10de) Unknown device (2204)");
}

#[test]
fn substring_search() {
    assert!(text_contains("NVIDIA GA102 [GeForce RTX 3090]", "RTX 3090"));
    assert!(text_contains("abc", ""));
    assert!(text_contains("abc", "abc"));
    assert!(!text_contains("abc", "abcd"));
    assert!(!text_contains("abc", "ABC"));
    assert!(text_contains("caféx", "éx"));
    assert!(!text_contains("", "a"));
}
