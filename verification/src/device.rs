//! Hidraw records, the devices they form, and the identity of a device.
use std::collections::hash_map::DefaultHasher;
use std::hash::Hasher;
use vstd::prelude::*;
use vstd::std_specs::hash::DefaultHasherAdditionalSpecFns;
use vstd::utf8::{encode_utf8, encode_utf8_decode_utf8};

use crate::text::{hex4_spec, hex_char, hex_spec, push_hex, push_hex4};

verus! {

/// One hidraw node as read straight off sysfs/udev, before grouping.
#[derive(Debug, Default, Clone, PartialEq, Eq)]
pub struct RawHidrawRecord {
    pub devnode: String,
    pub vendor: u16,
    pub product: u16,
    pub serial: Option<String>,
    pub product_name: Option<String>,
    /// USB device syspath, used as a stable-enough fallback identity when no serial is present.
    pub devpath: String,
}

/// A physical Keychron keyboard, possibly exposing several hidraw nodes
/// (keyboard usage page + VIA/vendor config usage page).
#[derive(Debug, Clone, PartialEq, Eq)]
pub struct Device {
    pub id: String,
    pub vendor: u16,
    pub product: u16,
    pub product_name: Option<String>,
    pub hidraw_nodes: Vec<String>,
}

/// The mathematical content of a [`RawHidrawRecord`].
pub struct RecordView {
    pub devnode: Seq<char>,
    pub vendor: u16,
    pub product: u16,
    pub serial: Option<Seq<char>>,
    pub product_name: Option<Seq<char>>,
    pub devpath: Seq<char>,
}

/// The mathematical content of a [`Device`].
pub struct DeviceView {
    pub id: Seq<char>,
    pub vendor: u16,
    pub product: u16,
    pub product_name: Option<Seq<char>>,
    pub hidraw_nodes: Seq<Seq<char>>,
}

/// The view of an optional string.
pub open spec fn opt_string_view(o: Option<String>) -> Option<Seq<char>> {
    match o {
        Some(s) => Some(s@),
        None => None,
    }
}

/// The views of a sequence of strings.
pub open spec fn strings_view(s: Seq<String>) -> Seq<Seq<char>> {
    s.map_values(|x: String| x@)
}

impl View for RawHidrawRecord {
    type V = RecordView;

    open spec fn view(&self) -> RecordView {
        RecordView {
            devnode: self.devnode@,
            vendor: self.vendor,
            product: self.product,
            serial: opt_string_view(self.serial),
            product_name: opt_string_view(self.product_name),
            devpath: self.devpath@,
        }
    }
}

impl View for Device {
    type V = DeviceView;

    open spec fn view(&self) -> DeviceView {
        DeviceView {
            id: self.id@,
            vendor: self.vendor,
            product: self.product,
            product_name: opt_string_view(self.product_name),
            hidraw_nodes: strings_view(self.hidraw_nodes@),
        }
    }
}

/// The views of a sequence of records.
pub open spec fn records_view(s: Seq<RawHidrawRecord>) -> Seq<RecordView> {
    s.map_values(|r: RawHidrawRecord| r@)
}

/// The views of a sequence of devices.
pub open spec fn devices_view(s: Seq<Device>) -> Seq<DeviceView> {
    s.map_values(|d: Device| d@)
}

/// The writes a `DefaultHasher` receives when a path is hashed as a `str`:
/// all of the path's UTF-8 bytes, then the one-byte `0xff` terminator that
/// `str` hashing appends.
pub open spec fn devpath_hash_input(devpath: Seq<char>) -> Seq<Seq<u8>> {
    seq![encode_utf8(devpath), seq![0xffu8]]
}

/// The hash of a device path: a fresh `DefaultHasher` (as `DefaultHasher::new()`
/// makes it) fed the whole path, then finished.
pub open spec fn devpath_hash(devpath: Seq<char>) -> u64 {
    DefaultHasher::spec_finish(devpath_hash_input(devpath))
}

/// Hashes a device path with `std`'s `DefaultHasher`, as hashing the path's
/// `String` does: its bytes, then the `0xff` terminator, then `finish`.
fn hash_devpath(devpath: &str) -> (h: u64)
    ensures
        h == devpath_hash(devpath@),
{
    let mut hasher = DefaultHasher::new();
    hasher.write(devpath.as_bytes());
    let terminator: [u8; 1] = [0xff];
    hasher.write(&terminator);
    proof {
        assert(terminator@ =~= seq![0xffu8]);
        assert(hasher@ =~= devpath_hash_input(devpath@));
    }
    hasher.finish()
}

/// The hasher is fed the whole device path: two different paths always give
/// the hasher different input, so their hashes are two `DefaultHasher` digests
/// of different data (and not one digest of a shared part of them).
pub proof fn lemma_devpath_hash_input_injective(p: Seq<char>, q: Seq<char>)
    requires
        p != q,
    ensures
        devpath_hash_input(p) != devpath_hash_input(q),
{
    if devpath_hash_input(p) == devpath_hash_input(q) {
        assert(devpath_hash_input(p)[0] == encode_utf8(p));
        assert(devpath_hash_input(q)[0] == encode_utf8(q));
        encode_utf8_decode_utf8(p);
        encode_utf8_decode_utf8(q);
    }
}

/// The identity used when a record has no usable serial number:
/// `noserial-<vendor:04x>-<product:04x>-<hash of devpath:x>`.
pub open spec fn fallback_id(vendor: u16, product: u16, devpath: Seq<char>) -> Seq<char> {
    spec_fallback_id_from_hash(vendor, product, devpath_hash(devpath))
}

/// The fallback identity for a given hash of the device path:
/// `noserial-<vendor:04x>-<product:04x>-<hash:x>`.
pub open spec fn spec_fallback_id_from_hash(vendor: u16, product: u16, hash: u64) -> Seq<char> {
    "noserial-"@ + hex4_spec(vendor) + "-"@ + hex4_spec(product) + "-"@ + hex_spec(hash as nat)
}

/// The fallback identity of a record without a usable serial, from its vendor,
/// product and the hash of its device path.
pub fn fallback_id_from_hash(vendor: u16, product: u16, hash: u64) -> (id: String)
    ensures
        id@ == spec_fallback_id_from_hash(vendor, product, hash),
{
    let mut id = String::from_str("noserial-");
    push_hex4(&mut id, vendor);
    id.append("-");
    push_hex4(&mut id, product);
    id.append("-");
    push_hex(&mut id, hash);
    id
}

/// Distinct nibbles have distinct hex digits.
proof fn lemma_hex_char_injective(a: nat, b: nat)
    requires
        a < 16,
        b < 16,
        hex_char(a) == hex_char(b),
    ensures
        a == b,
{
}

/// The hex rendering of a number is never empty.
proof fn lemma_hex_spec_nonempty(n: nat)
    ensures
        hex_spec(n).len() >= 1,
        n >= 16 ==> hex_spec(n).len() >= 2,
    decreases n,
{
    if n >= 16 {
        lemma_hex_spec_nonempty(n / 16);
    }
}

/// Distinct numbers have distinct hex renderings.
pub proof fn lemma_hex_spec_injective(n: nat, m: nat)
    requires
        hex_spec(n) == hex_spec(m),
    ensures
        n == m,
    decreases n,
{
    lemma_hex_spec_nonempty(n);
    lemma_hex_spec_nonempty(m);
    let s = hex_spec(n);
    if n < 16 && m < 16 {
        assert(s[0] == hex_char(n));
        assert(hex_spec(m)[0] == hex_char(m));
        lemma_hex_char_injective(n, m);
    } else if n >= 16 && m >= 16 {
        assert(s.last() == hex_char(n % 16));
        assert(hex_spec(m).last() == hex_char(m % 16));
        lemma_hex_char_injective(n % 16, m % 16);
        assert(s.drop_last() == hex_spec(n / 16));
        assert(hex_spec(m).drop_last() == hex_spec(m / 16));
        lemma_hex_spec_injective(n / 16, m / 16);
    } else {
        assert(false);
    }
}

/// Fallback identities of the same vendor and product are different exactly
/// when the device-path hashes are: records without a serial whose paths hash
/// apart are never grouped into one device.
pub proof fn lemma_fallback_id_separates_hashes(vendor: u16, product: u16, h1: u64, h2: u64)
    requires
        h1 != h2,
    ensures
        spec_fallback_id_from_hash(vendor, product, h1) != spec_fallback_id_from_hash(
            vendor,
            product,
            h2,
        ),
{
    let p = "noserial-"@ + hex4_spec(vendor) + "-"@ + hex4_spec(product) + "-"@;
    let a = spec_fallback_id_from_hash(vendor, product, h1);
    let b = spec_fallback_id_from_hash(vendor, product, h2);
    if a == b {
        assert(a.subrange(p.len() as int, a.len() as int) =~= hex_spec(h1 as nat));
        assert(b.subrange(p.len() as int, b.len() as int) =~= hex_spec(h2 as nat));
        lemma_hex_spec_injective(h1 as nat, h2 as nat);
    }
}

/// Whether a record carries a non-empty serial number.
pub open spec fn has_serial(r: RecordView) -> bool {
    r.serial matches Some(s) && s.len() > 0
}

/// The identity of the physical device that a record belongs to: its serial
/// number when it has a non-empty one, else the fallback built from vendor,
/// product and device path.
pub open spec fn spec_resolve_id(r: RecordView) -> Seq<char> {
    if has_serial(r) {
        r.serial.unwrap()
    } else {
        fallback_id(r.vendor, r.product, r.devpath)
    }
}

/// The identity of the device that `record` belongs to.
pub fn resolve_id(record: &RawHidrawRecord) -> (id: String)
    ensures
        id@ == spec_resolve_id(record@),
        has_serial(record@) ==> id@ == record@.serial.unwrap(),
        !has_serial(record@) ==> id@ == fallback_id(record.vendor, record.product, record.devpath@),
{
    match &record.serial {
        Some(serial) => {
            if !serial.as_str().is_empty() {
                return serial.clone();
            }
        },
        None => {},
    }
    fallback_id_from_hash(record.vendor, record.product, hash_devpath(record.devpath.as_str()))
}

/// A record without a usable serial is identified by its vendor, product and
/// device path alone: two such records that agree on those get the same
/// identity, whatever their device nodes and product names.
pub proof fn lemma_fallback_id_stable(a: RecordView, b: RecordView)
    requires
        !has_serial(a),
        !has_serial(b),
        a.vendor == b.vendor,
        a.product == b.product,
        a.devpath == b.devpath,
    ensures
        spec_resolve_id(a) == spec_resolve_id(b),
{
}

/// Records without a usable serial that agree on vendor and product but sit
/// at different device paths feed the hasher different input, and get
/// different identities whenever the two `DefaultHasher` digests differ (the
/// ids then fall into separate devices).
pub proof fn lemma_fallback_ids_of_distinct_paths(a: RecordView, b: RecordView)
    requires
        !has_serial(a),
        !has_serial(b),
        a.vendor == b.vendor,
        a.product == b.product,
        a.devpath != b.devpath,
    ensures
        devpath_hash_input(a.devpath) != devpath_hash_input(b.devpath),
        DefaultHasher::spec_finish(devpath_hash_input(a.devpath)) != DefaultHasher::spec_finish(
            devpath_hash_input(b.devpath),
        ) ==> spec_resolve_id(a) != spec_resolve_id(b),
{
    lemma_devpath_hash_input_injective(a.devpath, b.devpath);
    if devpath_hash(a.devpath) != devpath_hash(b.devpath) {
        lemma_fallback_id_separates_hashes(
            a.vendor,
            a.product,
            devpath_hash(a.devpath),
            devpath_hash(b.devpath),
        );
    }
}

/// Records that carry the same non-empty serial get the same identity,
/// whatever else differs between them (the nodes of one composite keyboard).
pub proof fn lemma_shared_serial_same_id(a: RecordView, b: RecordView)
    requires
        has_serial(a),
        a.serial == b.serial,
    ensures
        spec_resolve_id(a) == spec_resolve_id(b),
{
}

/// The name shown for a device: its product name, or `Keychron device` when it has none.
pub open spec fn display_name(name: Option<Seq<char>>) -> Seq<char> {
    match name {
        Some(n) => n,
        None => "Keychron device"@,
    }
}

/// The word shown for an enabled state.
pub open spec fn state_word(enabled: bool) -> Seq<char> {
    if enabled {
        "enabled"@
    } else {
        "disabled"@
    }
}

/// The name shown is the whole product name, and `Keychron device` only for
/// a device without one; the state word is `enabled` or `disabled` as the
/// state is. In a listed line, the product name stands in full right after
/// the identity and two spaces, followed by two spaces and `[`.
pub proof fn lemma_list_line_shows_full_name(id: Seq<char>, name: Seq<char>, enabled: bool)
    ensures
        display_name(Some(name)) == name,
        display_name(None) == "Keychron device"@,
        state_word(true) == "enabled"@,
        state_word(false) == "disabled"@,
        ({
            let line = id + "  "@ + display_name(Some(name)) + "  ["@ + state_word(enabled) + "]"@;
            &&& line.subrange(0, id.len() as int) == id
            &&& line.subrange(id.len() as int + 2, id.len() as int + 2 + name.len()) == name
            &&& line.subrange(id.len() as int + 2 + name.len(), id.len() as int + 5 + name.len()) == "  ["@
        }),
{
    reveal_strlit("  ");
    reveal_strlit("  [");
    let line = id + "  "@ + display_name(Some(name)) + "  ["@ + state_word(enabled) + "]"@;
    assert(line.subrange(0, id.len() as int) =~= id);
    assert(line.subrange(id.len() as int + 2, id.len() as int + 2 + name.len()) =~= name);
    assert(line.subrange(id.len() as int + 2 + name.len(), id.len() as int + 5 + name.len()) =~= "  ["@);
}

/// The line that `list` prints for a device: `<id>  <name>  [enabled|disabled]`.
pub fn list_line(device: &Device, enabled: bool) -> (line: String)
    ensures
        line@ == device.id@ + "  "@ + display_name(opt_string_view(device.product_name)) + "  ["@
            + state_word(enabled) + "]"@,
        device.product_name matches Some(name) ==> line@ == device.id@ + "  "@ + name@ + "  ["@
            + state_word(enabled) + "]"@,
        device.product_name is None ==> line@ == device.id@ + "  Keychron device  ["@ + state_word(
            enabled,
        ) + "]"@,
{
    let mut line = device.id.clone();
    line.append("  ");
    match &device.product_name {
        Some(name) => line.append(name.as_str()),
        None => line.append("Keychron device"),
    }
    line.append("  [");
    if enabled {
        line.append("enabled");
    } else {
        line.append("disabled");
    }
    line.append("]");
    proof {
        if device.product_name is None {
            reveal_strlit("  ");
            reveal_strlit("Keychron device");
            reveal_strlit("  [");
            reveal_strlit("  Keychron device  [");
            assert(line@ =~= device.id@ + "  Keychron device  ["@ + state_word(enabled) + "]"@);
        }
    }
    line
}

/// The four-digit lowercase hexadecimal form of a USB id, as `list --json`
/// shows vendor and product.
pub fn hex4(v: u16) -> (s: String)
    ensures
        s@ == hex4_spec(v),
{
    let mut s = String::new();
    push_hex4(&mut s, v);
    s
}

} // verus!
