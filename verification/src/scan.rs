//! Turning what sysfs says about a hidraw node into a record.
use vstd::prelude::*;

use crate::device::{opt_string_view, RawHidrawRecord};
use crate::text::{parse_hex_u16, spec_parse_hex_u16, trim, trimmed};
use crate::KEYCHRON_VID;

verus! {

/// The index of the first directory, walking up from a hidraw node's sysfs
/// path towards the root, that holds the USB device attributes; the flags
/// say, for each directory in that order, whether it has an `idVendor` file.
pub fn find_usb_device_dir(holds_id_vendor: &Vec<bool>) -> (r: Option<usize>)
    ensures
        match r {
            Some(i) => i < holds_id_vendor@.len() && holds_id_vendor@[i as int] && forall|j: int|
                0 <= j < i ==> !holds_id_vendor@[j],
            None => forall|j: int| 0 <= j < holds_id_vendor@.len() ==> !holds_id_vendor@[j],
        },
{
    let n = holds_id_vendor.len();
    let mut i: usize = 0;
    while i < n
        invariant
            n == holds_id_vendor@.len(),
            i <= n,
            forall|j: int| 0 <= j < i ==> !holds_id_vendor@[j],
        decreases n - i,
    {
        if holds_id_vendor[i] {
            return Some(i);
        }
        i = i + 1;
    }
    None
}

/// The trimmed text of an attribute file, if it could be read.
pub open spec fn spec_attr(contents: Option<Seq<char>>) -> Option<Seq<char>> {
    match contents {
        Some(c) => Some(trimmed(c)),
        None => None,
    }
}

/// The hexadecimal number in an attribute file, if it could be read and parsed.
pub open spec fn spec_hex_attr(contents: Option<Seq<char>>) -> Option<u16> {
    match contents {
        Some(c) => spec_parse_hex_u16(trimmed(c)),
        None => None,
    }
}

/// The value of an attribute file: its contents with surrounding whitespace removed.
fn attr(contents: Option<String>) -> (r: Option<String>)
    ensures
        opt_string_view(r) == spec_attr(opt_string_view(contents)),
{
    match contents {
        Some(c) => Some(trim(c.as_str())),
        None => None,
    }
}

/// The hexadecimal number held by an attribute file.
fn hex_attr(contents: &Option<String>) -> (r: Option<u16>)
    ensures
        r == spec_hex_attr(opt_string_view(*contents)),
{
    match contents {
        Some(c) => {
            let t = trim(c.as_str());
            parse_hex_u16(t.as_str())
        },
        None => None,
    }
}

/// The record for hidraw node `hidraw_name` from the raw contents of its USB
/// device's `idVendor`, `idProduct`, `serial` and `product` files (`None`
/// where a file could not be read) and the device's sysfs path. Only Keychron
/// devices give a record: one whose `idVendor` parses to another vendor, or
/// does not parse, gives `None`. A missing or unparsable `idProduct` counts as 0.
pub fn record_from_sysfs(
    hidraw_name: &str,
    id_vendor: Option<String>,
    id_product: Option<String>,
    serial: Option<String>,
    product: Option<String>,
    devpath: String,
) -> (r: Option<RawHidrawRecord>)
    ensures
        r.is_some() <==> spec_hex_attr(opt_string_view(id_vendor)) == Some(KEYCHRON_VID),
        r matches Some(rec) ==> {
            &&& rec@.devnode == "/dev/"@ + hidraw_name@
            &&& rec@.vendor == KEYCHRON_VID
            &&& rec@.product == match spec_hex_attr(opt_string_view(id_product)) {
                Some(p) => p,
                None => 0u16,
            }
            &&& rec@.serial == spec_attr(opt_string_view(serial))
            &&& rec@.product_name == spec_attr(opt_string_view(product))
            &&& rec@.devpath == devpath@
        },
{
    match hex_attr(&id_vendor) {
        Some(vendor) => {
            if vendor != KEYCHRON_VID {
                return None;
            }
            let product_id = match hex_attr(&id_product) {
                Some(p) => p,
                None => 0,
            };
            let mut devnode = String::from_str("/dev/");
            devnode.append(hidraw_name);
            Some(
                RawHidrawRecord {
                    devnode,
                    vendor,
                    product: product_id,
                    serial: attr(serial),
                    product_name: attr(product),
                    devpath,
                },
            )
        },
        None => None,
    }
}

} // verus!
