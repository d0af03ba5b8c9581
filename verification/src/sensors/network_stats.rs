//! Network throughput from the byte counters of physical interfaces.

use vstd::prelude::*;
use crate::model::sensor::SensorId;
use crate::platform::sysfs;
use crate::platform::sysfs::opt_view;
use crate::strmap::StrMap;
use crate::text::{chars_of, is_literal};

verus! {

/// Received and transmitted byte counters of an interface.
#[derive(Debug, Clone, Copy, PartialEq, Eq)]
pub struct NetStat {
    pub rx_bytes: u64,
    pub tx_bytes: u64,
}

impl View for NetStat {
    type V = NetStat;

    open spec fn view(&self) -> NetStat {
        *self
    }
}

/// An entry of `/sys/class/net`: its name, whether it has a `device` link,
/// and what reading its two counters returned.
#[derive(Debug, Clone)]
pub struct NetInterface {
    pub name: String,
    pub has_device_link: bool,
    pub rx_bytes: Option<String>,
    pub tx_bytes: Option<String>,
}

/// A throughput sample: the sensor, its label and the bytes counted since the
/// previous sample.
#[derive(Debug, Clone)]
pub struct NetReading {
    pub id: SensorId,
    pub label: String,
    pub delta_bytes: u64,
}

pub open spec fn spec_read_net_stat(rx: Option<Seq<char>>, tx: Option<Seq<char>>) -> Option<NetStat> {
    match (sysfs::spec_read_u64_optional(rx), sysfs::spec_read_u64_optional(tx)) {
        (Some(r), Some(t)) => Some(NetStat { rx_bytes: r, tx_bytes: t }),
        _ => None,
    }
}

/// Physical interfaces: not the loopback, and backed by a device.
pub open spec fn spec_is_physical(iface: Seq<char>, has_device_link: bool) -> bool {
    iface != "lo"@ && has_device_link
}

/// The counters of the physical interfaces among `ifs` that could be read.
pub open spec fn discovered(ifs: Seq<NetInterface>) -> Map<Seq<char>, NetStat>
    decreases ifs.len(),
{
    if ifs.len() == 0 {
        Map::empty()
    } else {
        let m = discovered(ifs.drop_last());
        let i = ifs.last();
        if spec_is_physical(i.name@, i.has_device_link) {
            match spec_read_net_stat(opt_view(i.rx_bytes), opt_view(i.tx_bytes)) {
                Some(s) => m.insert(i.name@, s),
                None => m,
            }
        } else {
            m
        }
    }
}

/// The counters that were read in `cs` for interfaces of the previous sample
/// `prev`; an interface that `prev` lacks is left out.
pub open spec fn new_stats(prev: Map<Seq<char>, NetStat>, cs: Seq<(String, Option<NetStat>)>) -> Map<Seq<char>, NetStat>
    decreases cs.len(),
{
    if cs.len() == 0 {
        Map::empty()
    } else {
        let m = new_stats(prev, cs.drop_last());
        match cs.last().1 {
            Some(s) => if prev.contains_key(cs.last().0@) {
                m.insert(cs.last().0@, s)
            } else {
                m
            },
            None => m,
        }
    }
}

/// Every interface of `new_stats(prev, cs)` was in `prev`.
pub proof fn lemma_new_stats_within(prev: Map<Seq<char>, NetStat>, cs: Seq<(String, Option<NetStat>)>)
    ensures
        new_stats(prev, cs).dom().subset_of(prev.dom()),
    decreases cs.len(),
{
    if cs.len() > 0 {
        lemma_new_stats_within(prev, cs.drop_last());
    }
}

/// Some entry of `cs` holds counters read for interface `k`.
pub open spec fn read_in(cs: Seq<(String, Option<NetStat>)>, k: Seq<char>) -> bool {
    exists|i: int| 0 <= i < cs.len() && (#[trigger] cs[i]).0@ == k && cs[i].1 is Some
}

/// The interfaces of `new_stats(prev, cs)` are those of `prev` whose counters
/// `cs` holds.
pub proof fn lemma_new_stats_dom(prev: Map<Seq<char>, NetStat>, cs: Seq<(String, Option<NetStat>)>, k: Seq<char>)
    ensures
        new_stats(prev, cs).contains_key(k) <==> (prev.contains_key(k) && read_in(cs, k)),
    decreases cs.len(),
{
    if cs.len() > 0 {
        let d = cs.drop_last();
        lemma_new_stats_dom(prev, d, k);
        if read_in(d, k) {
            let i = choose|i: int| 0 <= i < d.len() && (#[trigger] d[i]).0@ == k && d[i].1 is Some;
            assert(cs[i] == d[i]);
        }
        if read_in(cs, k) && !read_in(d, k) {
            let i = choose|i: int| 0 <= i < cs.len() && (#[trigger] cs[i]).0@ == k && cs[i].1 is Some;
            if i < cs.len() - 1 {
                assert(d[i] == cs[i]);
            }
        }
        if cs.last().0@ == k && cs.last().1 is Some {
            assert(cs[cs.len() - 1] == cs.last());
        }
    }
}

pub open spec fn sat_sub(a: u64, b: u64) -> u64 {
    if a >= b {
        (a - b) as u64
    } else {
        0
    }
}

/// `rx` and `tx` are the readings of interface `name` going from `prev` to
/// `cur`.
pub open spec fn net_pair(name: Seq<char>, prev: NetStat, cur: NetStat, rx: NetReading, tx: NetReading) -> bool {
    &&& rx.id.source@ == "net"@ && rx.id.chip@ == name && rx.id.sensor@ == "rx_mbps"@
    &&& rx.label@ == name + " RX"@
    &&& rx.delta_bytes == sat_sub(cur.rx_bytes, prev.rx_bytes)
    &&& tx.id.source@ == "net"@ && tx.id.chip@ == name && tx.id.sensor@ == "tx_mbps"@
    &&& tx.label@ == name + " TX"@
    &&& tx.delta_bytes == sat_sub(cur.tx_bytes, prev.tx_bytes)
}

/// `rs` holds, in order, a receive and a transmit reading for each interface
/// of `cs` that was read and has earlier counters in `prev`.
pub open spec fn net_readings(
    prev: Map<Seq<char>, NetStat>,
    cs: Seq<(String, Option<NetStat>)>,
    rs: Seq<NetReading>,
) -> bool
    decreases cs.len(),
{
    if cs.len() == 0 {
        rs.len() == 0
    } else {
        let c = cs.last();
        match c.1 {
            Some(cur) => if prev.contains_key(c.0@) {
                &&& rs.len() >= 2
                &&& net_pair(c.0@, prev[c.0@], cur, rs[rs.len() - 2], rs[rs.len() - 1])
                &&& net_readings(prev, cs.drop_last(), rs.take(rs.len() - 2))
            } else {
                net_readings(prev, cs.drop_last(), rs)
            },
            None => net_readings(prev, cs.drop_last(), rs),
        }
    }
}

/// Whether an interface is physical: not `lo`, and with a `device` link.
pub fn is_physical_interface(iface: &str, has_device_link: bool) -> (b: bool)
    ensures
        b == spec_is_physical(iface@, has_device_link),
{
    let name = chars_of(iface);
    if is_literal(name.as_slice(), "lo") {
        return false;
    }
    has_device_link
}

/// The counters of an interface, from what reading `statistics/rx_bytes` and
/// `statistics/tx_bytes` returned.
pub fn read_net_stat(rx_bytes: &Option<String>, tx_bytes: &Option<String>) -> (r: Option<NetStat>)
    ensures
        r == spec_read_net_stat(opt_view(*rx_bytes), opt_view(*tx_bytes)),
{
    let rx = match sysfs::u64_of(rx_bytes) {
        Some(v) => v,
        None => return None,
    };
    let tx = match sysfs::u64_of(tx_bytes) {
        Some(v) => v,
        None => return None,
    };
    Some(NetStat { rx_bytes: rx, tx_bytes: tx })
}

pub struct NetworkStatsSource {
    prev_stats: StrMap<NetStat>,
}

impl NetworkStatsSource {
    /// The counters of the previous sample, by interface.
    pub closed spec fn prev(self) -> Map<Seq<char>, NetStat> {
        self.prev_stats@
    }

    /// A source over the physical interfaces among `ifs` whose counters could
    /// be read.
    pub fn discover(ifs: &Vec<NetInterface>) -> (s: Self)
        ensures
            s.prev() == discovered(ifs@),
    {
        let mut prev_stats: StrMap<NetStat> = StrMap::new();
        for i in 0..ifs.len()
            invariant
                prev_stats@ == discovered(ifs@.take(i as int)),
        {
            assert(ifs@.take(i + 1).drop_last() =~= ifs@.take(i as int));
            assert(ifs@.take(i + 1).last() == ifs@[i as int]);
            let e = &ifs[i];
            if is_physical_interface(e.name.as_str(), e.has_device_link) {
                match read_net_stat(&e.rx_bytes, &e.tx_bytes) {
                    Some(stat) => prev_stats.insert(e.name.clone(), stat),
                    None => {},
                }
            }
        }
        assert(ifs@.take(ifs.len() as int) =~= ifs@);
        NetworkStatsSource { prev_stats }
    }

    /// The interfaces to sample, each once.
    pub fn interfaces(&self) -> (r: Vec<String>)
        ensures
            forall|i: int| 0 <= i < r.len() ==> self.prev().contains_key(#[trigger] r@[i]@),
            forall|i: int, j: int| 0 <= i < j < r.len() ==> (#[trigger] r@[i])@ != (#[trigger] r@[j])@,
            forall|k: Seq<char>| self.prev().contains_key(k) ==> exists|i: int| 0 <= i < r.len() && (#[trigger] r@[i])@ == k,
    {
        self.prev_stats.keys()
    }

    /// Readings for the counters `current` (what reading each interface of
    /// `interfaces()` returned) after `elapsed_nanos` nanoseconds. When no time
    /// has passed there is no reading and the previous sample stays. Otherwise
    /// the counters that were read become the previous sample, so its
    /// interfaces never grow: an interface that could not be read drops out,
    /// and one the previous sample lacks is ignored.
    pub fn poll(&mut self, elapsed_nanos: u64, current: &Vec<(String, Option<NetStat>)>) -> (r: Vec<
        NetReading,
    >)
        ensures
            elapsed_nanos == 0 ==> r@.len() == 0 && final(self).prev() == old(self).prev(),
            elapsed_nanos > 0 ==> net_readings(old(self).prev(), current@, r@),
            elapsed_nanos > 0 ==> final(self).prev() == new_stats(old(self).prev(), current@),
            elapsed_nanos > 0 ==> forall|k: Seq<char>|
                #[trigger] final(self).prev().contains_key(k) <==> (old(self).prev().contains_key(k)
                    && read_in(current@, k)),
            elapsed_nanos > 0 && (forall|a: int, b: int|
                0 <= a < b < current@.len() ==> (#[trigger] current@[a]).0@ != (#[trigger] current@[b]).0@)
                ==> forall|i: int|
                0 <= i < current@.len() && (#[trigger] current@[i]).1 is Some && old(self).prev().contains_key(
                    current@[i].0@,
                ) ==> final(self).prev()[current@[i].0@] == current@[i].1->0,
            final(self).prev().dom().subset_of(old(self).prev().dom()),
    {
        if elapsed_nanos == 0 {
            return Vec::new();
        }
        let ghost p0 = self.prev_stats@;
        let r = self.poll_counters(current);
        proof {
            assert forall|k: Seq<char>| #[trigger] self.prev_stats@.contains_key(k) <==> (p0.contains_key(k)
                && read_in(current@, k)) by {
                lemma_new_stats_dom(p0, current@, k);
            }
            if forall|a: int, b: int|
                0 <= a < b < current@.len() ==> (#[trigger] current@[a]).0@ != (#[trigger] current@[b]).0@ {
                assert forall|i: int|
                    0 <= i < current@.len() && (#[trigger] current@[i]).1 is Some && p0.contains_key(
                        current@[i].0@,
                    ) implies self.prev_stats@[current@[i].0@] == current@[i].1->0 by {
                    lemma_new_stats_at(p0, current@, i);
                }
            }
        }
        r
    }

    fn poll_counters(&mut self, current: &Vec<(String, Option<NetStat>)>) -> (r: Vec<NetReading>)
        ensures
            net_readings(old(self).prev(), current@, r@),
            final(self).prev() == new_stats(old(self).prev(), current@),
            final(self).prev().dom().subset_of(old(self).prev().dom()),
    {
        let mut readings: Vec<NetReading> = Vec::new();
        let mut current_stats: StrMap<NetStat> = StrMap::new();
        for i in 0..current.len()
            invariant
                net_readings(self.prev_stats@, current@.take(i as int), readings@),
                current_stats@ == new_stats(self.prev_stats@, current@.take(i as int)),
        {
            let ghost before = readings@;
            assert(current@.take(i + 1).drop_last() =~= current@.take(i as int));
            assert(current@.take(i + 1).last() == current@[i as int]);
            let (iface, cur) = (&current[i].0, current[i].1);
            match cur {
                Some(cur) => {
                    match self.prev_stats.get_key(iface) {
                        Some(prev) => {
                            let rx_delta = if cur.rx_bytes >= prev.rx_bytes {
                                cur.rx_bytes - prev.rx_bytes
                            } else {
                                0
                            };
                            let tx_delta = if cur.tx_bytes >= prev.tx_bytes {
                                cur.tx_bytes - prev.tx_bytes
                            } else {
                                0
                            };
                            let rx_id = SensorId {
                                source: "net".to_owned(),
                                chip: iface.clone(),
                                sensor: "rx_mbps".to_owned(),
                            };
                            let rx_label = iface.clone().concat(" RX");
                            readings.push(NetReading { id: rx_id, label: rx_label, delta_bytes: rx_delta });
                            let tx_id = SensorId {
                                source: "net".to_owned(),
                                chip: iface.clone(),
                                sensor: "tx_mbps".to_owned(),
                            };
                            let tx_label = iface.clone().concat(" TX");
                            readings.push(NetReading { id: tx_id, label: tx_label, delta_bytes: tx_delta });
                            proof {
                                assert(readings@.take(readings@.len() - 2) =~= before);
                            }
                        },
                        None => {},
                    }
                    if self.prev_stats.contains_key(iface) {
                        current_stats.insert(iface.clone(), cur);
                    }
                },
                None => {},
            }
        }
        assert(current@.take(current.len() as int) =~= current@);
        proof {
            lemma_new_stats_within(self.prev_stats@, current@);
        }
        self.prev_stats = current_stats;
        readings
    }
}


proof fn lemma_new_stats_at(p0: Map<Seq<char>, NetStat>, cs: Seq<(String, Option<NetStat>)>, i: int)
    requires
        0 <= i < cs.len(),
        cs[i].1 is Some,
        p0.contains_key(cs[i].0@),
        forall|a: int, b: int| 0 <= a < b < cs.len() ==> (#[trigger] cs[a]).0@ != (#[trigger] cs[b]).0@,
    ensures
        new_stats(p0, cs).contains_key(cs[i].0@),
        new_stats(p0, cs)[cs[i].0@] == cs[i].1->0,
    decreases cs.len(),
{
    if i < cs.len() - 1 {
        let d = cs.drop_last();
        assert(d[i] == cs[i]);
        assert forall|a: int, b: int| 0 <= a < b < d.len() implies (#[trigger] d[a]).0@ != (
        #[trigger] d[b]).0@ by {
            assert(d[a] == cs[a] && d[b] == cs[b]);
        }
        lemma_new_stats_at(p0, d, i);
        assert(cs[i].0@ != cs.last().0@);
    }
}

proof fn lemma_quiet_prefix(
    p0: Map<Seq<char>, NetStat>,
    all: Seq<(String, Option<NetStat>)>,
    cs: Seq<(String, Option<NetStat>)>,
    rs: Seq<NetReading>,
)
    requires
        forall|a: int, b: int| 0 <= a < b < all.len() ==> (#[trigger] all[a]).0@ != (#[trigger] all[b]).0@,
        cs.len() <= all.len(),
        forall|i: int| 0 <= i < cs.len() ==> cs[i] == all[i],
        net_readings(new_stats(p0, all), cs, rs),
    ensures
        forall|i: int| 0 <= i < rs.len() ==> (#[trigger] rs[i]).delta_bytes == 0,
    decreases cs.len(),
{
    if cs.len() > 0 {
        let n = cs.len() - 1;
        let c = cs.last();
        match c.1 {
            Some(cur) => {
                if new_stats(p0, all).contains_key(c.0@) {
                    assert(all[n] == c);
                    lemma_new_stats_within(p0, all);
                    lemma_new_stats_at(p0, all, n);
                    let rest = rs.take(rs.len() - 2);
                    lemma_quiet_prefix(p0, all, cs.drop_last(), rest);
                    assert forall|i: int| 0 <= i < rs.len() implies (#[trigger] rs[i]).delta_bytes == 0 by {
                        if i < rs.len() - 2 {
                            assert(rs[i] == rest[i]);
                        }
                    }
                } else {
                    lemma_quiet_prefix(p0, all, cs.drop_last(), rs);
                }
            },
            None => {
                lemma_quiet_prefix(p0, all, cs.drop_last(), rs);
            },
        }
    }
}

/// Polling again with the counters just polled (after a poll from the
/// previous sample `prev`), when the interface names are distinct (as
/// `interfaces` gives them), reads no traffic: every reading has a zero byte
/// delta.
pub proof fn lemma_repoll_reads_no_traffic(
    prev: Map<Seq<char>, NetStat>,
    current: Seq<(String, Option<NetStat>)>,
    rs: Seq<NetReading>,
)
    requires
        forall|a: int, b: int|
            0 <= a < b < current.len() ==> (#[trigger] current[a]).0@ != (#[trigger] current[b]).0@,
        net_readings(new_stats(prev, current), current, rs),
    ensures
        forall|i: int| 0 <= i < rs.len() ==> (#[trigger] rs[i]).delta_bytes == 0,
{
    lemma_quiet_prefix(prev, current, current, rs);
}

} // verus!
