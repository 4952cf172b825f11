use vstd::prelude::*;

use pci_ids::FromId;

use crate::text::{decimal_digits, decimal_text, hex_digits, hex_text, pad_zeros};

verus! {

/// Bus address of a PCI function.
#[derive(Clone, Copy)]
pub struct PciLocation {
    pub bus: u8,
    pub device: u8,
    pub function: u8,
}

/// What the host reports for one PCI function.
#[derive(Clone, Copy)]
pub struct PciRecord {
    /// `None` when the address could not be read.
    pub location: Option<PciLocation>,
    pub vendor_id: u16,
    pub device_id: u16,
    pub class_code: Option<u8>,
    pub subclass_code: Option<u8>,
    pub revision: Option<u8>,
}

/// A host PCI device with its display names.
pub struct HostDevice {
    pub address: String,
    pub vendor_id: u16,
    pub device_id: u16,
    pub vendor_name: String,
    pub device_name: String,
    pub revision: u8,
    pub class_code: u8,
    pub subclass_code: u8,
}

pub struct HostDeviceView {
    pub address: Seq<char>,
    pub vendor_id: u16,
    pub device_id: u16,
    pub vendor_name: Seq<char>,
    pub device_name: Seq<char>,
    pub revision: u8,
    pub class_code: u8,
    pub subclass_code: u8,
}

impl View for HostDevice {
    type V = HostDeviceView;

    open spec fn view(&self) -> HostDeviceView {
        HostDeviceView {
            address: self.address@,
            vendor_id: self.vendor_id,
            device_id: self.device_id,
            vendor_name: self.vendor_name@,
            device_name: self.device_name@,
            revision: self.revision,
            class_code: self.class_code,
            subclass_code: self.subclass_code,
        }
    }
}

pub open spec fn device_views(v: Seq<HostDevice>) -> Seq<HostDeviceView> {
    v.map_values(|d: HostDevice| d@)
}

/// Name for the vendor name that the PCI ID database lists for an id.
pub uninterp spec fn pci_vendor_name(vendor_id: u16) -> Option<Seq<char>>;

/// Name for the device name that the PCI ID database lists for a vendor and device id.
pub uninterp spec fn pci_device_name(vendor_id: u16, device_id: u16) -> Option<Seq<char>>;

pub open spec fn opt_text(o: Option<String>) -> Option<Seq<char>> {
    match o {
        Some(s) => Some(s@),
        None => None,
    }
}

/// Relies on `pci_ids::Vendor::from_id` and `Vendor::name`: the vendor's name in
/// the PCI ID database bundled with the crate, when the id is listed there.
#[verifier::external_body]
fn lookup_vendor_name(vendor_id: u16) -> (r: Option<String>)
    ensures
        opt_text(r) == pci_vendor_name(vendor_id),
{
    match pci_ids::Vendor::from_id(vendor_id) {
        Some(v) => Some(v.name().to_string()),
        None => None,
    }
}

/// Relies on `pci_ids::Device::from_vid_pid` and `Device::name`: the device's name
/// in the bundled PCI ID database, when the vendor lists that device id.
#[verifier::external_body]
fn lookup_device_name(vendor_id: u16, device_id: u16) -> (r: Option<String>)
    ensures
        opt_text(r) == pci_device_name(vendor_id, device_id),
{
    match pci_ids::Device::from_vid_pid(vendor_id, device_id) {
        Some(d) => Some(d.name().to_string()),
        None => None,
    }
}

/// `bb:dd.f` in lowercase hex, or "Unknown" without a location.
pub open spec fn address_text(loc: Option<PciLocation>) -> Seq<char> {
    match loc {
        Some(l) => pad_zeros(hex_digits(l.bus as nat), 2) + ":"@ + pad_zeros(hex_digits(l.device as nat), 2)
            + "."@ + hex_digits(l.function as nat),
        None => "Unknown"@,
    }
}

/// The vendor's display name: the listed name, else the id in hex.
pub open spec fn vendor_label(vendor_id: u16, listed: Option<Seq<char>>) -> Seq<char> {
    match listed {
        Some(n) => n,
        None => "vendor ("@ + pad_zeros(hex_digits(vendor_id as nat), 4) + ")"@,
    }
}

/// The device's own display name: the listed name, else the id in hex.
pub open spec fn device_label(device_id: u16, listed: Option<Seq<char>>) -> Seq<char> {
    match listed {
        Some(n) => n,
        None => "Unknown device ("@ + pad_zeros(hex_digits(device_id as nat), 4) + ")"@,
    }
}

pub open spec fn or_zero(o: Option<u8>) -> u8 {
    match o {
        Some(v) => v,
        None => 0,
    }
}

/// The catalog entry for a record, given the names listed for its vendor and device.
pub open spec fn described_with(r: PciRecord, vendor: Option<Seq<char>>, device: Option<Seq<char>>) -> HostDeviceView {
    HostDeviceView {
        address: address_text(r.location),
        vendor_id: r.vendor_id,
        device_id: r.device_id,
        vendor_name: vendor_label(r.vendor_id, vendor),
        device_name: vendor_label(r.vendor_id, vendor) + " "@ + device_label(r.device_id, device),
        revision: or_zero(r.revision),
        class_code: or_zero(r.class_code),
        subclass_code: or_zero(r.subclass_code),
    }
}

/// The catalog entry for a record, with the names the PCI ID database lists.
pub open spec fn described(r: PciRecord) -> HostDeviceView {
    described_with(r, pci_vendor_name(r.vendor_id), pci_device_name(r.vendor_id, r.device_id))
}

/// Whether a record passes the filter: with the key "class_code", only records
/// whose class code in decimal equals `value`; with any other key, all of them.
pub open spec fn passes_filter(r: PciRecord, key: Seq<char>, value: Seq<char>) -> bool {
    !(key == "class_code"@ && value != decimal_digits(or_zero(r.class_code) as nat))
}

/// The catalog for a list of records: the entries of those that pass the filter, in order.
pub open spec fn catalog(s: Seq<PciRecord>, key: Seq<char>, value: Seq<char>) -> Seq<HostDeviceView>
    decreases s.len(),
{
    if s.len() == 0 {
        Seq::empty()
    } else {
        let rest = catalog(s.drop_last(), key, value);
        if passes_filter(s.last(), key, value) {
            rest.push(described(s.last()))
        } else {
            rest
        }
    }
}

/// The catalog entry for a record, given the names listed for its vendor and
/// device (`None` when unlisted).
pub fn device_entry(r: &PciRecord, vendor: Option<String>, device: Option<String>) -> (d: HostDevice)
    ensures
        d@ == described_with(*r, opt_text(vendor), opt_text(device)),
{
    let address = match r.location {
        Some(l) => {
            let mut a = hex_text(l.bus as u64, 2);
            a.append(":");
            a.append(hex_text(l.device as u64, 2).as_str());
            a.append(".");
            a.append(hex_text(l.function as u64, 0).as_str());
            assert(pad_zeros(hex_digits(l.function as nat), 0) =~= hex_digits(l.function as nat));
            a
        },
        None => String::from_str("Unknown"),
    };
    let vendor_name = match vendor {
        Some(n) => n,
        None => {
            let mut n = String::from_str("vendor (");
            n.append(hex_text(r.vendor_id as u64, 4).as_str());
            n.append(")");
            n
        },
    };
    let own_name = match device {
        Some(n) => n,
        None => {
            let mut n = String::from_str("Unknown device (");
            n.append(hex_text(r.device_id as u64, 4).as_str());
            n.append(")");
            n
        },
    };
    let mut device_name = vendor_name.clone();
    device_name.append(" ");
    device_name.append(own_name.as_str());
    HostDevice {
        address: address,
        vendor_id: r.vendor_id,
        device_id: r.device_id,
        vendor_name: vendor_name,
        device_name: device_name,
        revision: match r.revision { Some(v) => v, None => 0 },
        class_code: match r.class_code { Some(v) => v, None => 0 },
        subclass_code: match r.subclass_code { Some(v) => v, None => 0 },
    }
}

/// The catalog entry for one record, with names looked up in the PCI ID database.
pub fn describe_device(r: &PciRecord) -> (d: HostDevice)
    ensures
        d@ == described(*r),
{
    let vendor = lookup_vendor_name(r.vendor_id);
    let device = lookup_device_name(r.vendor_id, r.device_id);
    device_entry(r, vendor, device)
}

/// The device catalog for the records the host reported: filtered by class code
/// when `filter` is "class_code" (with `arg1` the code in decimal), in order.
pub fn get_pcis_info(records: &Vec<PciRecord>, filter: &str, arg1: &str) -> (r: Vec<HostDevice>)
    ensures
        device_views(r@) == catalog(records@, filter@, arg1@),
{
    let by_class = String::from_str(filter) == String::from_str("class_code");
    let wanted = String::from_str(arg1);
    let mut out: Vec<HostDevice> = Vec::new();
    let mut i: usize = 0;
    while i < records.len()
        invariant
            i <= records.len(),
            by_class == (filter@ == "class_code"@),
            wanted@ == arg1@,
            device_views(out@) == catalog(records@.subrange(0, i as int), filter@, arg1@),
        decreases records.len() - i,
    {
        let ghost prev = out@;
        assert(records@.subrange(0, i as int + 1).drop_last() =~= records@.subrange(0, i as int));
        let rec = records[i];
        let code = match rec.class_code { Some(v) => v, None => 0 };
        let keep = !(by_class && !(wanted == decimal_text(code as u64)));
        if keep {
            out.push(describe_device(&rec));
            assert(device_views(out@) =~= device_views(prev).push(described(rec)));
        }
        i = i + 1;
    }
    assert(records@.subrange(0, i as int) =~= records@);
    out
}

/// Whether `needle` occurs in `hay` as a run of consecutive characters.
pub open spec fn contains_text(hay: Seq<char>, needle: Seq<char>) -> bool {
    exists|i: int| 0 <= i <= hay.len() - needle.len() && #[trigger] hay.subrange(i, i + needle.len()) == needle
}

/// Whether `needle` occurs in `hay` as a run of consecutive characters.
pub fn text_contains(hay: &str, needle: &str) -> (r: bool)
    ensures
        r == contains_text(hay@, needle@),
{
    let n = hay.unicode_len();
    let m = needle.unicode_len();
    if m > n {
        return false;
    }
    let mut i: usize = 0;
    while i <= n - m
        invariant
            n == hay@.len(),
            m == needle@.len(),
            m <= n,
            i <= n - m + 1,
            forall|k: int| 0 <= k < i ==> #[trigger] hay@.subrange(k, k + needle@.len()) != needle@,
        decreases n - m + 1 - i,
    {
        let mut j: usize = 0;
        let mut same = true;
        while same && j < m
            invariant
                n == hay@.len(),
                m == needle@.len(),
                i + m <= n,
                j <= m,
                forall|t: int| 0 <= t < j ==> hay@[i + t] == needle@[t],
                !same ==> j < m && hay@[i + j] != needle@[j as int],
            decreases m - j + (if same { 1int } else { 0int }),
        {
            if hay.get_char(i + j) != needle.get_char(j) {
                same = false;
            } else {
                j = j + 1;
            }
        }
        if same {
            assert(hay@.subrange(i as int, i + needle@.len()) =~= needle@);
            return true;
        }
        assert(hay@.subrange(i as int, i + needle@.len())[j as int] != needle@[j as int]);
        i = i + 1;
    }
    false
}

/// Addresses of the devices whose display name contains `target`, in order.
pub open spec fn candidates(s: Seq<HostDeviceView>, target: Seq<char>) -> Seq<Seq<char>>
    decreases s.len(),
{
    if s.len() == 0 {
        Seq::empty()
    } else {
        let rest = candidates(s.drop_last(), target);
        if contains_text(s.last().device_name, target) {
            rest.push(s.last().address)
        } else {
            rest
        }
    }
}

pub open spec fn texts_of(v: Seq<String>) -> Seq<Seq<char>> {
    v.map_values(|s: String| s@)
}

/// Addresses of the devices whose display name contains `target`
/// (case-sensitive), in catalog order.
pub fn extract_addresses(raw: &Vec<HostDevice>, target: &str) -> (r: Vec<String>)
    ensures
        texts_of(r@) == candidates(device_views(raw@), target@),
{
    let ghost s = device_views(raw@);
    let mut out: Vec<String> = Vec::new();
    let mut i: usize = 0;
    while i < raw.len()
        invariant
            i <= raw.len(),
            s == device_views(raw@),
            texts_of(out@) == candidates(s.subrange(0, i as int), target@),
        decreases raw.len() - i,
    {
        let ghost prev = out@;
        assert(s.subrange(0, i as int + 1).drop_last() =~= s.subrange(0, i as int));
        assert(s[i as int] == raw@[i as int]@);
        if text_contains(raw[i].device_name.as_str(), target) {
            out.push(raw[i].address.clone());
            assert(texts_of(out@) =~= texts_of(prev).push(s[i as int].address));
        }
        i = i + 1;
    }
    assert(s.subrange(0, i as int) =~= s);
    out
}

} // verus!
