//! USB devices from the attribute files of `/sys/bus/usb/devices/*`.

use vstd::prelude::*;
use crate::model::usb::{UsbDevice, UsbSpeed};
use crate::platform::sysfs;
use crate::platform::sysfs::opt_view;
use crate::sort::{in_stable_order, sort_by_key, sorted_by_key, SortKey};
use crate::text;
use crate::text::{chars_of, contains_literal, is_literal, lex_le, parse_unsigned, strip_suffix, trim};

verus! {

/// One entry of `/sys/bus/usb/devices`: its name and what reading each of its
/// attribute files returned (`None` when the read failed).
#[derive(Debug, Clone)]
pub struct UsbEntry {
    pub name: String,
    pub id_vendor: Option<String>,
    pub id_product: Option<String>,
    pub busnum: Option<String>,
    pub devnum: Option<String>,
    pub devpath: Option<String>,
    pub manufacturer: Option<String>,
    pub product: Option<String>,
    pub serial: Option<String>,
    pub version: Option<String>,
    pub device_class: Option<String>,
    pub speed: Option<String>,
    pub max_power: Option<String>,
}

/// The cleaned content of an attribute read.
pub open spec fn attr(raw: Option<String>) -> Option<Seq<char>> {
    sysfs::spec_read_string_optional(opt_view(raw))
}

/// A hexadecimal attribute no larger than `max`.
pub open spec fn hex_attr(raw: Option<String>, max: int) -> Option<nat> {
    match attr(raw) {
        Some(s) => text::spec_parse_unsigned(s, 16, max),
        None => None,
    }
}

/// `sp` is the speed that the sysfs `speed` text `s` (in Mbit/s) denotes.
pub open spec fn speed_is(sp: UsbSpeed, s: Seq<char>) -> bool {
    if s == "1.5"@ {
        sp is Low
    } else if s == "12"@ {
        sp is Full
    } else if s == "480"@ {
        sp is High
    } else if s == "5000"@ {
        sp is Super
    } else if s == "10000"@ {
        sp is SuperPlus
    } else if s == "20000"@ {
        sp is SuperPlus2x2
    } else {
        sp matches UsbSpeed::Unknown(x) && x@ == s
    }
}

/// The milliamps of a `bMaxPower` text such as `500mA`.
pub open spec fn spec_parse_max_power(s: Seq<char>) -> Option<u32> {
    match text::spec_strip_suffix(s, "mA"@) {
        Some(v) => match text::spec_parse_unsigned(text::spec_trim(v), 10, u32::MAX as int) {
            Some(n) => Some(n as u32),
            None => None,
        },
        None => None,
    }
}

/// The entry has the attributes that every device has: vendor and product
/// ids, bus and device numbers.
pub open spec fn device_attrs_present(e: UsbEntry) -> bool {
    &&& hex_attr(e.id_vendor, 0xffff) is Some
    &&& hex_attr(e.id_product, 0xffff) is Some
    &&& sysfs::spec_read_u64_optional(opt_view(e.busnum)) is Some
    &&& sysfs::spec_read_u64_optional(opt_view(e.devnum)) is Some
}

/// `d` is the device that the entry `e` describes.
pub open spec fn device_from(e: UsbEntry, d: UsbDevice) -> bool {
    &&& hex_attr(e.id_vendor, 0xffff) == Some(d.vendor_id as nat)
    &&& hex_attr(e.id_product, 0xffff) == Some(d.product_id as nat)
    &&& sysfs::spec_read_u64_optional(opt_view(e.busnum)) matches Some(b) && d.bus == b as u8
    &&& sysfs::spec_read_u64_optional(opt_view(e.devnum)) matches Some(n) && d.devnum == n as u16
    &&& d.port_path@ == match attr(e.devpath) {
        Some(p) => p,
        None => "0"@,
    }
    &&& opt_view(d.manufacturer) == attr(e.manufacturer)
    &&& opt_view(d.product) == attr(e.product)
    &&& opt_view(d.serial_number) == attr(e.serial)
    &&& opt_view(d.usb_version) == match attr(e.version) {
        Some(v) => Some(text::spec_trim(v)),
        None => None,
    }
    &&& d.device_class as nat == match hex_attr(e.device_class, 0xff) {
        Some(c) => c,
        None => 0,
    }
    &&& match attr(e.speed) {
        Some(s) => speed_is(d.speed, s),
        None => d.speed matches UsbSpeed::Unknown(x) && x@ == "unknown"@,
    }
    &&& d.max_power_ma == match attr(e.max_power) {
        Some(s) => spec_parse_max_power(s),
        None => None,
    }
    &&& d.sysfs_id@ == e.name@
}

/// The entry is a device (not an interface, whose name holds a colon) with the
/// attributes that every device has.
pub open spec fn is_device_entry(e: UsbEntry) -> bool {
    !text::spec_contains(e.name@, ":"@) && device_attrs_present(e)
}

/// `ds` holds, in order, the devices that the entries `es` describe.
pub open spec fn devices_from(es: Seq<UsbEntry>, ds: Seq<UsbDevice>) -> bool
    decreases es.len(),
{
    if es.len() == 0 {
        ds.len() == 0
    } else if is_device_entry(es.last()) {
        ds.len() > 0 && device_from(es.last(), ds.last()) && devices_from(es.drop_last(), ds.drop_last())
    } else {
        devices_from(es.drop_last(), ds)
    }
}

impl SortKey for UsbDevice {
    /// By bus number, then by port path.
    open spec fn spec_le(self, other: Self) -> bool {
        self.bus < other.bus || (self.bus == other.bus && text::spec_lex_le(
            self.port_path@,
            other.port_path@,
        ))
    }

    fn key_le(&self, other: &Self) -> (r: bool) {
        if self.bus != other.bus {
            self.bus < other.bus
        } else {
            let a = chars_of(self.port_path.as_str());
            let b = chars_of(other.port_path.as_str());
            lex_le(a.as_slice(), b.as_slice())
        }
    }

    proof fn lemma_total(a: Self, b: Self) {
        text::lemma_lex_total(a.port_path@, b.port_path@);
    }

    proof fn lemma_trans(a: Self, b: Self, c: Self) {
        if a.bus == b.bus && b.bus == c.bus {
            text::lemma_lex_trans(a.port_path@, b.port_path@, c.port_path@);
        }
    }
}

fn hex_value(raw: &Option<String>, max: u64) -> (r: Option<u64>)
    ensures
        match r {
            Some(v) => hex_attr(*raw, max as int) == Some(v as nat),
            None => hex_attr(*raw, max as int) is None,
        },
{
    match sysfs::clean_optional(raw) {
        Some(s) => {
            let cs = chars_of(s.as_str());
            parse_unsigned(cs.as_slice(), 16, max)
        },
        None => None,
    }
}

/// The speed class of the sysfs `speed` text.
pub fn classify_speed(speed: &str) -> (sp: UsbSpeed)
    ensures
        speed_is(sp, speed@),
{
    let s = chars_of(speed);
    if is_literal(s.as_slice(), "1.5") {
        UsbSpeed::Low
    } else if is_literal(s.as_slice(), "12") {
        UsbSpeed::Full
    } else if is_literal(s.as_slice(), "480") {
        UsbSpeed::High
    } else if is_literal(s.as_slice(), "5000") {
        UsbSpeed::Super
    } else if is_literal(s.as_slice(), "10000") {
        UsbSpeed::SuperPlus
    } else if is_literal(s.as_slice(), "20000") {
        UsbSpeed::SuperPlus2x2
    } else {
        UsbSpeed::Unknown(speed.to_owned())
    }
}

/// Milliamps of a `bMaxPower` text (`"500mA"`).
pub fn parse_max_power(s: &str) -> (r: Option<u32>)
    ensures
        r == spec_parse_max_power(s@),
{
    let cs = chars_of(s);
    let ma = chars_of("mA");
    match strip_suffix(cs.as_slice(), ma.as_slice()) {
        Some(v) => {
            let v = trim(v.as_slice());
            match parse_unsigned(v.as_slice(), 10, u32::MAX as u64) {
                Some(n) => Some(n as u32),
                None => None,
            }
        },
        None => None,
    }
}

/// The device that the entry describes, if it has the attributes that every
/// device has.
pub fn collect_device(e: &UsbEntry) -> (r: Option<UsbDevice>)
    ensures
        match r {
            Some(d) => device_attrs_present(*e) && device_from(*e, d),
            None => !device_attrs_present(*e),
        },
{
    let vendor_id = match hex_value(&e.id_vendor, 0xffff) {
        Some(v) => v as u16,
        None => return None,
    };
    let product_id = match hex_value(&e.id_product, 0xffff) {
        Some(v) => v as u16,
        None => return None,
    };
    let bus = match sysfs::u64_of(&e.busnum) {
        Some(v) => v as u8,
        None => return None,
    };
    let devnum = match sysfs::u64_of(&e.devnum) {
        Some(v) => v as u16,
        None => return None,
    };
    let port_path = match sysfs::clean_optional(&e.devpath) {
        Some(p) => p,
        None => "0".to_owned(),
    };
    let manufacturer = sysfs::clean_optional(&e.manufacturer);
    let product = sysfs::clean_optional(&e.product);
    let serial_number = sysfs::clean_optional(&e.serial);
    let usb_version = match sysfs::clean_optional(&e.version) {
        Some(v) => {
            let cs = chars_of(v.as_str());
            let t = trim(cs.as_slice());
            Some(text::string_from(t.as_slice()))
        },
        None => None,
    };
    let device_class = match hex_value(&e.device_class, 0xff) {
        Some(c) => c as u8,
        None => 0,
    };
    let speed = match sysfs::clean_optional(&e.speed) {
        Some(s) => classify_speed(s.as_str()),
        None => UsbSpeed::Unknown("unknown".to_owned()),
    };
    let max_power_ma = match sysfs::clean_optional(&e.max_power) {
        Some(s) => parse_max_power(s.as_str()),
        None => None,
    };
    Some(
        UsbDevice {
            bus,
            port_path,
            devnum,
            vendor_id,
            product_id,
            manufacturer,
            product,
            serial_number,
            usb_version,
            device_class,
            speed,
            max_power_ma,
            sysfs_id: e.name.clone(),
        },
    )
}

/// The USB devices among the entries of `/sys/bus/usb/devices`, ordered by
/// bus number and then by port path.
pub fn collect(entries: &Vec<UsbEntry>) -> (r: Vec<UsbDevice>)
    ensures
        sorted_by_key(r@),
        exists|ds: Seq<UsbDevice>|
            devices_from(entries@, ds) && r@.to_multiset() == ds.to_multiset() && in_stable_order(r@, ds),
{
    let mut found: Vec<UsbDevice> = Vec::new();
    for i in 0..entries.len()
        invariant
            devices_from(entries@.take(i as int), found@),
    {
        let ghost prev_found = found@;
        let name = chars_of(entries[i].name.as_str());
        if !contains_literal(name.as_slice(), ":") {
            match collect_device(&entries[i]) {
                Some(d) => found.push(d),
                None => {},
            }
        }
        proof {
            let es = entries@.take(i + 1);
            assert(es.drop_last() =~= entries@.take(i as int));
            assert(es.last() == entries@[i as int]);
            if is_device_entry(entries@[i as int]) {
                assert(found@.drop_last() =~= prev_found);
            }
        }
    }
    assert(entries@.take(entries.len() as int) =~= entries@);
    let ghost ds = found@;
    sort_by_key(found)
}

} // verus!
