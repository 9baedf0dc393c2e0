use std::hash::{BuildHasher, BuildHasherDefault};
use std::collections::hash_map::DefaultHasher;

use keylauncher::device::{fallback_id_from_hash, hex4, list_line, resolve_id, Device, RawHidrawRecord};
use keylauncher::grouping::{device_index_by_id, device_index_by_node, group_devices};
use keylauncher::KEYCHRON_VID;

fn record(hidraw: &str, serial: Option<&str>, devpath: &str) -> RawHidrawRecord {
    RawHidrawRecord {
        devnode: hidraw.to_string(),
        vendor: KEYCHRON_VID,
        product: 0x0123,
        serial: serial.map(|s| s.to_string()),
        product_name: Some("Keychron V6 Max".to_string()),
        devpath: devpath.to_string(),
    }
}

#[test]
fn groups_composite_device_by_shared_serial() {
    let records = vec![
        record("/dev/hidraw0", Some("ABC123"), "1-1"),
        record("/dev/hidraw1", Some("ABC123"), "1-1"),
    ];
    let devices = group_devices(records);
    assert_eq!(devices.len(), 1);
    assert_eq!(
        devices[0].hidraw_nodes,
        vec!["/dev/hidraw0".to_string(), "/dev/hidraw1".to_string()]
    );
    assert_eq!(devices[0].id, "ABC123");
}

#[test]
fn separate_serials_stay_separate_devices() {
    let records = vec![
        record("/dev/hidraw0", Some("AAA"), "1-1"),
        record("/dev/hidraw1", Some("BBB"), "1-2"),
    ];
    let devices = group_devices(records);
    assert_eq!(devices.len(), 2);
}

#[test]
fn missing_serial_falls_back_to_stable_id_from_devpath() {
    let a = resolve_id(&record("/dev/hidraw0", None, "1-1"));
    let b = resolve_id(&record("/dev/hidraw0", None, "1-1"));
    let c = resolve_id(&record("/dev/hidraw0", None, "1-2"));
    assert_eq!(a, b);
    assert_ne!(a, c);
    assert!(a.starts_with("noserial-3434-0123-"));
}

#[test]
fn fallback_id_ends_with_lowercase_hex_of_default_hasher() {
    let expected_hash = BuildHasherDefault::<DefaultHasher>::default().hash_one("1-1");
    let id = resolve_id(&record("/dev/hidraw3", None, "1-1"));
    assert_eq!(id, format!("noserial-3434-0123-{:x}", expected_hash));
}

#[test]
fn empty_serial_counts_as_missing() {
    let empty = resolve_id(&record("/dev/hidraw0", Some(""), "1-1"));
    let missing = resolve_id(&record("/dev/hidraw0", None, "1-1"));
    assert_eq!(empty, missing);
    assert!(empty.starts_with("noserial-"));
}

#[test]
fn fallback_id_ignores_node_and_name() {
    let mut other = record("/dev/hidraw7", None, "1-1");
    other.product_name = None;
    let a = resolve_id(&record("/dev/hidraw0", None, "1-1"));
    let b = resolve_id(&other);
    assert_eq!(a, b);
}

#[test]
fn fallback_id_pads_vendor_and_product_to_four_digits() {
    let mut r = record("/dev/hidraw0", None, "x");
    r.vendor = 0x000a;
    r.product = 0xbeef;
    assert!(resolve_id(&r).starts_with("noserial-000a-beef-"));
}

#[test]
fn hex4_renders_four_lowercase_digits() {
    assert_eq!(hex4(0), "0000");
    assert_eq!(hex4(0x3434), "3434");
    assert_eq!(hex4(0x00ab), "00ab");
    assert_eq!(hex4(0xffff), "ffff");
}

#[test]
fn grouping_keeps_first_record_metadata_and_first_appearance_order() {
    let mut first = record("/dev/hidraw0", Some("K1"), "1-1");
    first.product = 0x0001;
    let mut second = record("/dev/hidraw1", Some("K2"), "1-2");
    second.product = 0x0002;
    let mut third = record("/dev/hidraw2", Some("K1"), "1-1");
    third.product = 0x0009;
    third.product_name = None;
    let devices = group_devices(vec![first, second, third]);
    assert_eq!(devices.len(), 2);
    assert_eq!(devices[0].id, "K1");
    assert_eq!(devices[0].product, 0x0001);
    assert_eq!(devices[0].product_name, Some("Keychron V6 Max".to_string()));
    assert_eq!(
        devices[0].hidraw_nodes,
        vec!["/dev/hidraw0".to_string(), "/dev/hidraw2".to_string()]
    );
    assert_eq!(devices[1].id, "K2");
    assert_eq!(devices[1].hidraw_nodes, vec!["/dev/hidraw1".to_string()]);
}

#[test]
fn grouping_nothing_gives_no_devices() {
    assert!(group_devices(Vec::new()).is_empty());
}

#[test]
fn fallback_records_with_same_devpath_group_together() {
    let devices = group_devices(vec![
        record("/dev/hidraw0", None, "1-4"),
        record("/dev/hidraw1", None, "1-4"),
        record("/dev/hidraw2", None, "1-5"),
    ]);
    assert_eq!(devices.len(), 2);
    assert_eq!(devices[0].hidraw_nodes.len(), 2);
    assert!(devices[0].id.starts_with("noserial-3434-0123-"));
}

fn device(id: &str, nodes: &[&str]) -> Device {
    Device {
        id: id.to_string(),
        vendor: KEYCHRON_VID,
        product: 0x0123,
        product_name: None,
        hidraw_nodes: nodes.iter().map(|n| n.to_string()).collect(),
    }
}

#[test]
fn finds_device_by_id_and_by_node() {
    let devices = vec![
        device("AAA", &["/dev/hidraw0", "/dev/hidraw1"]),
        device("BBB", &["/dev/hidraw2"]),
    ];
    assert_eq!(device_index_by_id(&devices, "BBB"), Some(1));
    assert_eq!(device_index_by_id(&devices, "CCC"), None);
    assert_eq!(device_index_by_node(&devices, "/dev/hidraw1"), Some(0));
    assert_eq!(device_index_by_node(&devices, "/dev/hidraw2"), Some(1));
    assert_eq!(device_index_by_node(&devices, "/dev/hidraw9"), None);
}

#[test]
fn list_line_shows_name_and_state() {
    let mut d = device("ABC123", &["/dev/hidraw0"]);
    assert_eq!(list_line(&d, false), "ABC123  Keychron device  [disabled]");
    d.product_name = Some("Keychron V6 Max".to_string());
    assert_eq!(list_line(&d, true), "ABC123  Keychron V6 Max  [enabled]");
}

#[test]
fn fallback_id_from_hash_renders_each_part() {
    assert_eq!(fallback_id_from_hash(0x3434, 0x0123, 0), "noserial-3434-0123-0");
    assert_eq!(fallback_id_from_hash(0x3434, 0x0123, 0xab), "noserial-3434-0123-ab");
    assert_eq!(fallback_id_from_hash(0x0001, 0xffff, u64::MAX), "noserial-0001-ffff-ffffffffffffffff");
    assert_ne!(fallback_id_from_hash(0x3434, 0x0123, 1), fallback_id_from_hash(0x3434, 0x0123, 16));
}
