//! Discovery and classification of the I2C buses that sysfs lists.

use vstd::prelude::*;
use crate::platform::sysfs;
use crate::sort::{in_stable_order, lemma_stable_sort_unique, sort_by_key, sorted_by_key, stable_rearrangement, SortKey};
use crate::text;
use crate::text::{chars_of, contains_literal, parse_unsigned, strip_prefix, to_lowercase};

verus! {

/// A discovered I2C bus with its adapter classification.
#[derive(Debug, Clone)]
pub struct I2cBus {
    pub bus_num: u32,
    pub name: String,
    pub adapter_type: I2cAdapterType,
}

/// Classification of the I2C adapter by its kernel driver.
///
/// Only SMBus host adapters (Piix4, I801) are suitable for scanning
/// SPD and sensor devices. GPU and platform I2C buses are skipped.
#[derive(Debug, Clone, PartialEq, Eq)]
pub enum I2cAdapterType {
    /// AMD FCH (piix4_smbus)
    Piix4Smbus,
    /// Intel PCH (i2c-i801)
    I801,
    /// NVIDIA GPU I2C, skipped for sensor scanning
    Nvidia,
    /// DesignWare platform I2C, skipped for sensor scanning
    DesignWare,
    /// Unrecognized adapter
    Other(String),
}

pub open spec fn spec_is_smbus(t: I2cAdapterType) -> bool {
    t is Piix4Smbus || t is I801
}

impl I2cAdapterType {
    /// Whether this adapter type is an SMBus host suitable for device scanning.
    pub fn is_smbus(&self) -> (b: bool)
        ensures
            b == spec_is_smbus(*self),
    {
        match self {
            I2cAdapterType::Piix4Smbus | I2cAdapterType::I801 => true,
            _ => false,
        }
    }
}

/// `t` is the classification of an adapter named `name`, whose lowercase form
/// is `lower`: the first of "piix4", "i801", "nvidia"/"nouveau" and
/// "designware"/"synopsys" that `lower` contains decides; otherwise `Other`
/// with the name itself.
pub open spec fn classified_as(t: I2cAdapterType, name: Seq<char>, lower: Seq<char>) -> bool {
    if text::spec_contains(lower, "piix4"@) {
        t is Piix4Smbus
    } else if text::spec_contains(lower, "i801"@) {
        t is I801
    } else if text::spec_contains(lower, "nvidia"@) || text::spec_contains(lower, "nouveau"@) {
        t is Nvidia
    } else if text::spec_contains(lower, "designware"@) || text::spec_contains(lower, "synopsys"@) {
        t is DesignWare
    } else {
        t matches I2cAdapterType::Other(n) && n@ == name
    }
}

/// Classifies the adapter `name` given its lowercase form `lower`.
pub fn classify_lowered(name: &str, lower: &str) -> (t: I2cAdapterType)
    ensures
        classified_as(t, name@, lower@),
{
    let l = chars_of(lower);
    if contains_literal(l.as_slice(), "piix4") {
        I2cAdapterType::Piix4Smbus
    } else if contains_literal(l.as_slice(), "i801") {
        I2cAdapterType::I801
    } else if contains_literal(l.as_slice(), "nvidia") || contains_literal(l.as_slice(), "nouveau") {
        I2cAdapterType::Nvidia
    } else if contains_literal(l.as_slice(), "designware") || contains_literal(
        l.as_slice(),
        "synopsys",
    ) {
        I2cAdapterType::DesignWare
    } else {
        I2cAdapterType::Other(name.to_owned())
    }
}

/// Classify an adapter name string from sysfs into an adapter type.
pub fn classify_adapter(name: &str) -> (t: I2cAdapterType)
    ensures
        classified_as(t, name@, text::lowercase_of(name@)),
{
    let lower = to_lowercase(name);
    classify_lowered(name, lower.as_str())
}

/// One entry `/sys/bus/i2c/devices/<dir_name>/name` and what reading that
/// file returned.
#[derive(Debug, Clone)]
pub struct I2cBusEntry {
    pub dir_name: String,
    pub name_content: Option<String>,
}

/// The bus number that a directory name `i2c-<n>` carries.
pub open spec fn bus_number(dir: Seq<char>) -> Option<u32> {
    match text::spec_strip_prefix(dir, "i2c-"@) {
        Some(n) => match text::spec_parse_unsigned(n, 10, u32::MAX as int) {
            Some(v) => Some(v as u32),
            None => None,
        },
        None => None,
    }
}

/// The entry `e` names a bus: its directory has a number and its name file
/// holds a real name.
pub open spec fn entry_yields(e: I2cBusEntry) -> bool {
    bus_number(e.dir_name@) is Some && sysfs::spec_read_string_optional(
        sysfs::opt_view(e.name_content),
    ) is Some
}

/// `b` is the bus that the entry `e` describes.
pub open spec fn bus_from(e: I2cBusEntry, b: I2cBus) -> bool {
    &&& bus_number(e.dir_name@) == Some(b.bus_num)
    &&& sysfs::spec_read_string_optional(sysfs::opt_view(e.name_content)) == Some(b.name@)
    &&& classified_as(b.adapter_type, b.name@, text::lowercase_of(b.name@))
}

/// `bs` holds, in order, the buses that the entries `es` describe.
pub open spec fn buses_from(es: Seq<I2cBusEntry>, bs: Seq<I2cBus>) -> bool
    decreases es.len(),
{
    if es.len() == 0 {
        bs.len() == 0
    } else if entry_yields(es.last()) {
        bs.len() > 0 && bus_from(es.last(), bs.last()) && buses_from(es.drop_last(), bs.drop_last())
    } else {
        buses_from(es.drop_last(), bs)
    }
}

/// `r` lists the buses that the entries describe, ordered by bus number,
/// buses of equal number in the order of their entries.
pub open spec fn buses_listed(entries: Seq<I2cBusEntry>, r: Seq<I2cBus>) -> bool {
    &&& sorted_by_key(r)
    &&& exists|bs: Seq<I2cBus>|
        buses_from(entries, bs) && r.to_multiset() == bs.to_multiset() && in_stable_order(r, bs)
}

/// The adapter type as plain values: its variant, and the name of an `Other`.
pub open spec fn adapter_view(t: I2cAdapterType) -> (int, Seq<char>) {
    match t {
        I2cAdapterType::Piix4Smbus => (0, Seq::empty()),
        I2cAdapterType::I801 => (1, Seq::empty()),
        I2cAdapterType::Nvidia => (2, Seq::empty()),
        I2cAdapterType::DesignWare => (3, Seq::empty()),
        I2cAdapterType::Other(n) => (4, n@),
    }
}

/// A bus as plain values.
pub open spec fn bus_view(b: I2cBus) -> (u32, Seq<char>, (int, Seq<char>)) {
    (b.bus_num, b.name@, adapter_view(b.adapter_type))
}

/// The buses of `bs` as plain values.
pub open spec fn bus_views(bs: Seq<I2cBus>) -> Seq<(u32, Seq<char>, (int, Seq<char>))> {
    Seq::new(bs.len(), |i: int| bus_view(bs[i]))
}

proof fn lemma_buses_from_unique(es: Seq<I2cBusEntry>, b1: Seq<I2cBus>, b2: Seq<I2cBus>)
    requires
        buses_from(es, b1),
        buses_from(es, b2),
    ensures
        bus_views(b1) == bus_views(b2),
    decreases es.len(),
{
    if es.len() > 0 {
        if entry_yields(es.last()) {
            lemma_buses_from_unique(es.drop_last(), b1.drop_last(), b2.drop_last());
            assert(bus_views(b1.drop_last()) =~= bus_views(b1).drop_last());
            assert(bus_views(b2.drop_last()) =~= bus_views(b2).drop_last());
            assert(bus_view(b1.last()) == bus_view(b2.last()));
            assert(bus_views(b1) =~= bus_views(b1).drop_last().push(bus_view(b1.last())));
            assert(bus_views(b2) =~= bus_views(b2).drop_last().push(bus_view(b2.last())));
        } else {
            lemma_buses_from_unique(es.drop_last(), b1, b2);
        }
    } else {
        assert(bus_views(b1) =~= bus_views(b2));
    }
}

proof fn lemma_filter_views(x: Seq<I2cBus>, y: Seq<I2cBus>)
    requires
        bus_views(x) == bus_views(y),
    ensures
        bus_views(x.filter(|b: I2cBus| spec_is_smbus(b.adapter_type))) == bus_views(
            y.filter(|b: I2cBus| spec_is_smbus(b.adapter_type)),
        ),
    decreases x.len(),
{
    reveal_with_fuel(Seq::<I2cBus>::filter, 1);
    let pred = |b: I2cBus| spec_is_smbus(b.adapter_type);
    assert(bus_views(x).len() == x.len());
    assert(bus_views(y).len() == y.len());
    assert(x.len() == y.len());
    if x.len() > 0 {
        assert(bus_views(x.drop_last()) =~= bus_views(x).drop_last());
        assert(bus_views(y.drop_last()) =~= bus_views(y).drop_last());
        lemma_filter_views(x.drop_last(), y.drop_last());
        assert(bus_views(x)[x.len() - 1] == bus_views(y)[y.len() - 1]);
        assert(bus_view(x.last()) == bus_view(y.last()));
        assert(pred(x.last()) == pred(y.last()));
        let fx = x.drop_last().filter(pred);
        let fy = y.drop_last().filter(pred);
        if pred(x.last()) {
            assert(bus_views(fx.push(x.last())) =~= bus_views(fx).push(bus_view(x.last())));
            assert(bus_views(fy.push(y.last())) =~= bus_views(fy).push(bus_view(y.last())));
        }
    } else {
        assert(bus_views(x.filter(pred)) =~= bus_views(y.filter(pred)));
    }
}

/// The SMBus adapters are the SMBus filter of the bus listing: for the same
/// entries, `enumerate_smbus_adapters` gives (as plain values) exactly the
/// buses of `enumerate_buses` whose adapter is an SMBus host, in its order.
pub proof fn lemma_smbus_adapters_filter_buses(entries: Seq<I2cBusEntry>, buses: Seq<I2cBus>, smbus: Seq<I2cBus>)
    requires
        buses_listed(entries, buses),
        exists|all: Seq<I2cBus>|
            buses_listed(entries, all) && smbus == all.filter(|b: I2cBus| spec_is_smbus(b.adapter_type)),
    ensures
        bus_views(smbus) == bus_views(buses.filter(|b: I2cBus| spec_is_smbus(b.adapter_type))),
{
    let all = choose|all: Seq<I2cBus>|
        buses_listed(entries, all) && smbus == all.filter(|b: I2cBus| spec_is_smbus(b.adapter_type));
    let bs1 = choose|bs: Seq<I2cBus>|
        buses_from(entries, bs) && buses.to_multiset() == bs.to_multiset() && in_stable_order(buses, bs);
    let bs2 = choose|bs: Seq<I2cBus>|
        buses_from(entries, bs) && all.to_multiset() == bs.to_multiset() && in_stable_order(all, bs);
    lemma_buses_from_unique(entries, bs1, bs2);
    assert(bs1.len() == bs2.len()) by {
        assert(bus_views(bs1).len() == bus_views(bs2).len());
    }
    assert forall|a: int, b: int| 0 <= a < bs1.len() && 0 <= b < bs1.len() implies (
    #[trigger] bs1[a].spec_le(bs1[b]) <==> #[trigger] bs2[a].spec_le(bs2[b])) by {
        assert(bus_views(bs1)[a] == bus_views(bs2)[a]);
        assert(bus_views(bs1)[b] == bus_views(bs2)[b]);
    }
    lemma_stable_sort_unique(bs1, bs2, buses, all);
    let perm = choose|perm: Seq<int>|
        stable_rearrangement(buses, bs1, perm) && stable_rearrangement(all, bs2, perm);
    assert(bus_views(buses) =~= bus_views(all)) by {
        assert forall|i: int| 0 <= i < buses.len() implies bus_views(buses)[i] == bus_views(all)[i] by {
            let k = perm[i];
            assert(bus_views(bs1)[k] == bus_views(bs2)[k]);
        }
    }
    lemma_filter_views(buses, all);
}

impl SortKey for I2cBus {
    open spec fn spec_le(self, other: Self) -> bool {
        self.bus_num <= other.bus_num
    }

    fn key_le(&self, other: &Self) -> (r: bool) {
        self.bus_num <= other.bus_num
    }

    proof fn lemma_total(a: Self, b: Self) {
    }

    proof fn lemma_trans(a: Self, b: Self, c: Self) {
    }
}

/// The bus that `e` describes, if any.
fn bus_of_entry(e: &I2cBusEntry) -> (r: Option<I2cBus>)
    ensures
        match r {
            Some(b) => entry_yields(*e) && bus_from(*e, b),
            None => !entry_yields(*e),
        },
{
    let dir = chars_of(e.dir_name.as_str());
    let prefix = chars_of("i2c-");
    let bus_num = match strip_prefix(dir.as_slice(), prefix.as_slice()) {
        Some(n) => match parse_unsigned(n.as_slice(), 10, u32::MAX as u64) {
            Some(v) => v as u32,
            None => return None,
        },
        None => return None,
    };
    let name = match sysfs::clean_optional(&e.name_content) {
        Some(n) => n,
        None => return None,
    };
    let adapter_type = classify_adapter(name.as_str());
    Some(I2cBus { bus_num, name, adapter_type })
}

/// All I2C buses among the sysfs entries `entries`, classified by their
/// adapter name and ordered by bus number.
pub fn enumerate_buses(entries: &Vec<I2cBusEntry>) -> (r: Vec<I2cBus>)
    ensures
        buses_listed(entries@, r@),
{
    let mut found: Vec<I2cBus> = Vec::new();
    for i in 0..entries.len()
        invariant
            buses_from(entries@.take(i as int), found@),
    {
        let ghost prev_found = found@;
        match bus_of_entry(&entries[i]) {
            Some(b) => found.push(b),
            None => {},
        }
        proof {
            let es = entries@.take(i + 1);
            assert(es.drop_last() =~= entries@.take(i as int));
            assert(es.last() == entries@[i as int]);
            if entry_yields(entries@[i as int]) {
                assert(found@.drop_last() =~= prev_found);
            }
        }
    }
    assert(entries@.take(entries.len() as int) =~= entries@);
    let ghost bs = found@;
    let sorted = sort_by_key(found);
    sorted
}

/// The SMBus host adapters among `buses`, in their order.
pub fn smbus_only(buses: Vec<I2cBus>) -> (r: Vec<I2cBus>)
    ensures
        r@ == buses@.filter(|b: I2cBus| spec_is_smbus(b.adapter_type)),
{
    let ghost pred = |b: I2cBus| spec_is_smbus(b.adapter_type);
    let ghost all = buses@;
    let mut out: Vec<I2cBus> = Vec::new();
    let mut rest = buses;
    let ghost n = all.len();
    assert(all.skip(0) =~= all);
    assert(all.take(0) =~= Seq::<I2cBus>::empty());
    proof {
        reveal_with_fuel(Seq::<I2cBus>::filter, 1);
    }
    while rest.len() > 0
        invariant
            pred == (|b: I2cBus| spec_is_smbus(b.adapter_type)),
            n == all.len(),
            rest@.len() <= n,
            rest@ == all.skip(n - rest@.len()),
            out@ == all.take(n - rest@.len()).filter(pred),
        decreases rest.len(),
    {
        let ghost k = n - rest@.len();
        let b = rest.remove(0);
        proof {
            assert(all[k] == b);
            assert(rest@ =~= all.skip(k + 1));
            assert(all.take(k + 1).drop_last() =~= all.take(k));
            assert(all.take(k + 1).last() == b);
            reveal_with_fuel(Seq::<I2cBus>::filter, 1);
            assert(all.take(k + 1).filter(pred) == if pred(b) {
                all.take(k).filter(pred).push(b)
            } else {
                all.take(k).filter(pred)
            });
        }
        if b.adapter_type.is_smbus() {
            out.push(b);
        }
    }
    assert(all.take(n as int) =~= all);
    out
}

/// The SMBus host adapters among the sysfs entries, ordered by bus number:
/// `enumerate_buses` without the GPU, platform and other adapters.
pub fn enumerate_smbus_adapters(entries: &Vec<I2cBusEntry>) -> (r: Vec<I2cBus>)
    ensures
        exists|all: Seq<I2cBus>|
            buses_listed(entries@, all) && r@ == all.filter(|b: I2cBus| spec_is_smbus(b.adapter_type)),
{
    let all = enumerate_buses(entries);
    let ghost all_view = all@;
    let r = smbus_only(all);
    r
}

/// What an attempt to read register 0 of one SMBus address gave: the device
/// node could not be opened, the read failed, or the device answered.
#[derive(Debug, Clone, Copy, PartialEq, Eq)]
pub enum ProbeOutcome {
    OpenFailed,
    ReadFailed,
    Answered(u8),
}

/// Whether a device answers at the probed address: only a register read that
/// succeeded counts.
pub fn probe_address(outcome: &ProbeOutcome) -> (present: bool)
    ensures
        present == (*outcome is Answered),
{
    match outcome {
        ProbeOutcome::Answered(_) => true,
        _ => false,
    }
}

} // verus!
