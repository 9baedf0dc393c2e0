use keylauncher::text::{parse_hex_u16, trim};
use keylauncher::scan::{find_usb_device_dir, record_from_sysfs};
use keylauncher::setup::{polkit_policy, udev_rule};

fn s(x: &str) -> Option<String> {
    Some(x.to_string())
}

#[test]
fn keychron_attributes_make_a_record() {
    let r = record_from_sysfs(
        "hidraw3",
        s("3434\n"),
        s(" 0a21\n"),
        s("SER1\n"),
        s("Keychron Q1\n"),
        "/sys/devices/pci0000:00/usb1/1-2".to_string(),
    )
    .unwrap();
    assert_eq!(r.devnode, "/dev/hidraw3");
    assert_eq!(r.vendor, 0x3434);
    assert_eq!(r.product, 0x0a21);
    assert_eq!(r.serial, s("SER1"));
    assert_eq!(r.product_name, s("Keychron Q1"));
    assert_eq!(r.devpath, "/sys/devices/pci0000:00/usb1/1-2");
}

#[test]
fn other_vendors_and_unreadable_vendor_give_no_record() {
    assert!(record_from_sysfs("hidraw0", s("046d\n"), s("c52b"), None, None, "p".to_string()).is_none());
    assert!(record_from_sysfs("hidraw0", None, s("0001"), None, None, "p".to_string()).is_none());
    assert!(record_from_sysfs("hidraw0", s("zz"), s("0001"), None, None, "p".to_string()).is_none());
}

#[test]
fn unparsable_or_missing_product_counts_as_zero() {
    let r = record_from_sysfs("hidraw1", s("3434"), s("xyz"), None, None, "p".to_string()).unwrap();
    assert_eq!(r.product, 0);
    let r = record_from_sysfs("hidraw1", s("3434"), None, None, None, "p".to_string()).unwrap();
    assert_eq!(r.product, 0);
    assert_eq!(r.serial, None);
    assert_eq!(r.product_name, None);
}

#[test]
fn vendor_parsing_follows_from_str_radix() {
    assert!(record_from_sysfs("h", s("+3434"), None, None, None, "p".to_string()).is_some());
    assert!(record_from_sysfs("h", s("0003434"), None, None, None, "p".to_string()).is_some());
    assert!(record_from_sysfs("h", s("3434 x"), None, None, None, "p".to_string()).is_none());
    assert!(record_from_sysfs("h", s("13434"), None, None, None, "p".to_string()).is_none());
    let r = record_from_sysfs("h", s("3434"), s("BEEF"), None, None, "p".to_string()).unwrap();
    assert_eq!(r.product, 0xbeef);
}

#[test]
fn nearest_directory_with_id_vendor_wins() {
    assert_eq!(find_usb_device_dir(&vec![false, false, true, true]), Some(2));
    assert_eq!(find_usb_device_dir(&vec![true]), Some(0));
    assert_eq!(find_usb_device_dir(&vec![false, false]), None);
    assert_eq!(find_usb_device_dir(&Vec::new()), None);
}

#[test]
fn udev_rule_runs_the_installed_program() {
    assert_eq!(
        udev_rule("/usr/local/bin/keylauncher"),
        "ACTION==\"add\", SUBSYSTEM==\"hidraw\", ATTRS{idVendor}==\"3434\", GROUP=\"keylauncher\", RUN+=\"/usr/local/bin/keylauncher __udev-apply $env{DEVNAME}\"\n"
    );
}

#[test]
fn polkit_policy_names_the_installed_program() {
    let p = polkit_policy("/usr/bin/keylauncher");
    assert!(p.starts_with("<?xml version=\"1.0\" encoding=\"UTF-8\"?>\n<!DOCTYPE policyconfig"));
    assert!(p.contains("<action id=\"io.github.santoja.keylauncher.manage\">"));
    assert!(p.contains("<allow_active>auth_admin_keep</allow_active>"));
    assert!(p.ends_with(
        "<annotate key=\"org.freedesktop.policykit.exec.path\">/usr/bin/keylauncher</annotate>\n  </action>\n</policyconfig>\n"
    ));
}

#[test]
fn trim_removes_unicode_whitespace_at_both_ends_only() {
    assert_eq!(trim("  Keychron V6 Max\n"), "Keychron V6 Max");
    assert_eq!(trim("\u{00A0}\u{3000}x y\u{2028}\t"), "x y");
    assert_eq!(trim(" \n\t"), "");
    assert_eq!(trim(""), "");
    assert_eq!(trim("\u{200B}a"), "\u{200B}a");
    for s in [" a ", "\u{85}b\u{1680}", "c\r\n", "\u{2000}\u{200A}d"] {
        assert_eq!(trim(s), s.trim());
    }
}

#[test]
fn hex_parsing_matches_from_str_radix() {
    for s in ["3434", "+3434", "0", "ffff", "FFFF", "10000", "", "+", "-1", "34 34", "0x34", "00000000001", "beEf", "é"] {
        assert_eq!(parse_hex_u16(s), u16::from_str_radix(s, 16).ok(), "input {:?}", s);
    }
}
