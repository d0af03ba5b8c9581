//! CPU utilization from the jiffy counters of `/proc/stat`: parsing the
//! counters and turning two samples into busy and total time.

use vstd::prelude::*;
use crate::model::sensor::SensorId;
use crate::text;
use crate::text::{chars_of, copy_range, is_literal, lines, parse_unsigned, push_chars, starts_with, words};

verus! {

/// The counters of one `cpu` line of `/proc/stat`.
#[derive(Debug)]
pub struct CpuJiffies {
    /// Label from /proc/stat: "cpu" for total, "cpu0", "cpu1", etc.
    name: String,
    user: u64,
    nice: u64,
    system: u64,
    idle: u64,
    iowait: u64,
    irq: u64,
    softirq: u64,
    steal: u64,
}

/// `cpu`, or `cpu` followed by decimal digits.
pub open spec fn valid_cpu_name(n: Seq<char>) -> bool {
    text::spec_starts_with(n, "cpu"@) && text::all_digits(n.skip(3), 10)
}

/// The numbers among the words `ws`, in order.
pub open spec fn numbers_in(ws: Seq<Seq<char>>) -> Seq<u64>
    decreases ws.len(),
{
    if ws.len() == 0 {
        seq![]
    } else {
        let rest = numbers_in(ws.drop_last());
        match text::spec_parse_unsigned(ws.last(), 10, u64::MAX as int) {
            Some(v) => rest.push(v as u64),
            None => rest,
        }
    }
}

/// The name and first eight counters of a `/proc/stat` line, if it is a CPU
/// line with at least eight numeric fields.
pub open spec fn stat_entry(line: Seq<char>) -> Option<(Seq<char>, Seq<u64>)> {
    if !text::spec_starts_with(line, "cpu"@) {
        None
    } else {
        let ws = text::spec_words(line);
        if ws.len() == 0 {
            None
        } else if !valid_cpu_name(ws[0]) {
            None
        } else {
            let f = numbers_in(ws.skip(1));
            if f.len() < 8 {
                None
            } else {
                Some((ws[0], f.take(8)))
            }
        }
    }
}

/// The CPU entries of the lines `ls`, in order.
pub open spec fn stat_entries(ls: Seq<Seq<char>>) -> Seq<(Seq<char>, Seq<u64>)>
    decreases ls.len(),
{
    if ls.len() == 0 {
        seq![]
    } else {
        let rest = stat_entries(ls.drop_last());
        match stat_entry(ls.last()) {
            Some(e) => rest.push(e),
            None => rest,
        }
    }
}

impl CpuJiffies {
    #[verifier::type_invariant]
    closed spec fn inv(self) -> bool {
        valid_cpu_name(self.name@)
    }

    pub closed spec fn spec_name(self) -> Seq<char> {
        self.name@
    }

    /// user, nice, system, idle, iowait, irq, softirq, steal.
    pub closed spec fn counters(self) -> Seq<u64> {
        seq![
            self.user,
            self.nice,
            self.system,
            self.idle,
            self.iowait,
            self.irq,
            self.softirq,
            self.steal,
        ]
    }

    pub open spec fn spec_total(self) -> int {
        let c = self.counters();
        c[0] + c[1] + c[2] + c[3] + c[4] + c[5] + c[6] + c[7]
    }

    pub open spec fn spec_idle_total(self) -> int {
        self.counters()[3] + self.counters()[4]
    }

    /// The sum of the counters fits in a `u64`.
    pub open spec fn fits(self) -> bool {
        self.spec_total() <= u64::MAX
    }

    /// All time spent.
    pub fn total(&self) -> (t: u64)
        requires
            self.fits(),
        ensures
            t == self.spec_total(),
    {
        self.user + self.nice + self.system + self.idle + self.iowait + self.irq + self.softirq
            + self.steal
    }

    /// Idle time, including time waiting for I/O.
    pub fn idle_total(&self) -> (t: u64)
        requires
            self.spec_idle_total() <= u64::MAX,
        ensures
            t == self.spec_idle_total(),
    {
        self.idle + self.iowait
    }

    /// Whether the sum of the counters fits in a `u64`.
    pub fn total_fits(&self) -> (b: bool)
        ensures
            b == self.fits(),
    {
        let t: u128 = self.user as u128 + self.nice as u128 + self.system as u128 + self.idle as u128
            + self.iowait as u128 + self.irq as u128 + self.softirq as u128 + self.steal as u128;
        t <= u64::MAX as u128
    }
}

/// The CPU counter lines of a `/proc/stat` text, in order.
pub fn parse_stat_content(content: &str) -> (r: Vec<CpuJiffies>)
    ensures
        r.len() == stat_entries(text::spec_lines(content@)).len(),
        forall|i: int|
            0 <= i < r.len() ==> (#[trigger] r@[i]).spec_name() == stat_entries(
                text::spec_lines(content@),
            )[i].0 && r@[i].counters() == stat_entries(text::spec_lines(content@))[i].1,
{
    let cs = chars_of(content);
    let ls = lines(cs.as_slice());
    let ghost l = text::spec_lines(content@);
    let cpu = chars_of("cpu");
    let mut result: Vec<CpuJiffies> = Vec::new();
    for i in 0..ls.len()
        invariant
            text::views_are(ls@, l),
            cpu@ == "cpu"@,
            result.len() == stat_entries(l.take(i as int)).len(),
            forall|j: int|
                0 <= j < result.len() ==> (#[trigger] result@[j]).spec_name() == stat_entries(
                    l.take(i as int),
                )[j].0 && result@[j].counters() == stat_entries(l.take(i as int))[j].1,
    {
        assert(ls@[i as int]@ == l[i as int]);
        assert(l.take(i + 1).drop_last() =~= l.take(i as int));
        assert(l.take(i + 1).last() == l[i as int]);
        let ghost prev = result@;
        match parse_stat_line(ls[i].as_slice(), cpu.as_slice()) {
            Some(j) => {
                result.push(j);
            },
            None => {},
        }
        proof {
            if stat_entry(l[i as int]) is Some {
                assert(result@.drop_last() =~= prev);
            }
        }
    }
    assert(l.take(ls.len() as int) =~= l);
    result
}

fn parse_stat_line(line: &[char], cpu: &[char]) -> (r: Option<CpuJiffies>)
    requires
        cpu@ == "cpu"@,
    ensures
        match r {
            Some(j) => stat_entry(line@) matches Some((n, f)) && j.spec_name() == n && j.counters()
                == f,
            None => stat_entry(line@) is None,
        },
{
    proof {
        reveal_strlit("cpu");
    }
    if !starts_with(line, cpu) {
        return None;
    }
    let ws = words(line);
    let ghost w = text::spec_words(line@);
    if ws.len() == 0 {
        return None;
    }
    assert(ws@[0]@ == w[0]);
    let name = &ws[0];
    if !starts_with(name.as_slice(), cpu) {
        return None;
    }
    let digits = copy_range(name.as_slice(), 3, name.len());
    assert(digits@ =~= name@.skip(3));
    for k in 0..digits.len()
        invariant
            text::spec_starts_with(line@, "cpu"@),
            w == text::spec_words(line@),
            w.len() > 0,
            digits@ == w[0].skip(3),
            forall|m: int| 0 <= m < k ==> text::digit_val(#[trigger] digits@[m], 10) >= 0,
    {
        if !(digits[k] >= '0' && digits[k] <= '9') {
            assert(!text::all_digits(digits@, 10));
            return None;
        }
    }
    let mut fields: Vec<u64> = Vec::new();
    let ghost rest = w.skip(1);
    for k in 1..ws.len()
        invariant
            text::views_are(ws@, w),
            rest == w.skip(1),
            1 <= ws.len(),
            fields@ == numbers_in(rest.take(k - 1)),
    {
        assert(rest.take(k as int).drop_last() =~= rest.take(k - 1));
        assert(rest.take(k as int).last() == w[k as int]);
        assert(ws@[k as int]@ == w[k as int]);
        match parse_unsigned(ws[k].as_slice(), 10, u64::MAX) {
            Some(v) => fields.push(v),
            None => {},
        }
    }
    assert(rest.take(ws.len() - 1) =~= rest);
    if fields.len() < 8 {
        return None;
    }
    let j = CpuJiffies {
        name: text::string_from(name.as_slice()),
        user: fields[0],
        nice: fields[1],
        system: fields[2],
        idle: fields[3],
        iowait: fields[4],
        irq: fields[5],
        softirq: fields[6],
        steal: fields[7],
    };
    assert(j.counters() =~= fields@.take(8));
    Some(j)
}

/// A utilization sample: the sensor, its label, and the idle and total time
/// that passed since the previous sample.
#[derive(Debug, Clone)]
pub struct UtilReading {
    pub id: SensorId,
    pub label: String,
    pub idle_delta: u64,
    pub total_delta: u64,
}

pub open spec fn sat_sub(a: int, b: int) -> int {
    if a >= b {
        a - b
    } else {
        0
    }
}

/// Index of the first sample in `ps` named `name`.
pub open spec fn first_named(ps: Seq<CpuJiffies>, name: Seq<char>) -> Option<int>
    decreases ps.len(),
{
    if ps.len() == 0 {
        None
    } else if ps[0].spec_name() == name {
        Some(0)
    } else {
        match first_named(ps.drop_first(), name) {
            Some(k) => Some(k + 1),
            None => None,
        }
    }
}

pub proof fn lemma_first_named(ps: Seq<CpuJiffies>, name: Seq<char>)
    ensures
        first_named(ps, name) matches Some(k) ==> 0 <= k < ps.len() && ps[k].spec_name() == name
            && forall|m: int| 0 <= m < k ==> ps[m].spec_name() != name,
        first_named(ps, name) is None ==> forall|m: int| 0 <= m < ps.len() ==> ps[m].spec_name() != name,
    decreases ps.len(),
{
    if ps.len() > 0 {
        lemma_first_named(ps.drop_first(), name);
        if ps[0].spec_name() != name {
            assert forall|m: int| 1 <= m < ps.len() implies ps[m] == ps.drop_first()[m - 1] by {}
        }
    }
}

/// Every current sample that has a previous sample of the same name, and that
/// previous sample, have totals that fit in a `u64`.
pub open spec fn poll_defined(prev: Seq<CpuJiffies>, cur: Seq<CpuJiffies>) -> bool {
    forall|i: int|
        0 <= i < cur.len() ==> match #[trigger] first_named(prev, cur[i].spec_name()) {
            Some(k) => cur[i].fits() && prev[k].fits(),
            None => true,
        }
}

/// `r` is the reading for the sample `cur` against the earlier sample `prev`.
pub open spec fn util_reading(cur: CpuJiffies, prev: CpuJiffies, r: UtilReading) -> bool {
    &&& r.total_delta == sat_sub(cur.spec_total(), prev.spec_total())
    &&& r.idle_delta == sat_sub(cur.spec_idle_total(), prev.spec_idle_total())
    &&& r.id.source@ == "cpu"@
    &&& r.id.chip@ == "utilization"@
    &&& if cur.spec_name() == "cpu"@ {
        r.id.sensor@ == "total"@ && r.label@ == "Total CPU Usage"@
    } else {
        r.id.sensor@ == cur.spec_name() && r.label@ == "Core "@ + cur.spec_name().skip(3)
            + " Usage"@
    }
}

/// `rs` holds, in order, the readings of the samples `cur` that have an
/// earlier sample of the same name in `prev`.
pub open spec fn util_readings(prev: Seq<CpuJiffies>, cur: Seq<CpuJiffies>, rs: Seq<UtilReading>) -> bool
    decreases cur.len(),
{
    if cur.len() == 0 {
        rs.len() == 0
    } else {
        match first_named(prev, cur.last().spec_name()) {
            Some(k) => rs.len() > 0 && util_reading(cur.last(), prev[k], rs.last())
                && util_readings(prev, cur.drop_last(), rs.drop_last()),
            None => util_readings(prev, cur.drop_last(), rs),
        }
    }
}

pub struct CpuUtilSource {
    prev_jiffies: Vec<CpuJiffies>,
}

impl CpuUtilSource {
    /// The samples of the previous poll.
    pub closed spec fn prev(self) -> Seq<CpuJiffies> {
        self.prev_jiffies@
    }

    /// A source whose first poll compares against the samples `initial`.
    pub fn discover(initial: Vec<CpuJiffies>) -> (s: Self)
        ensures
            s.prev() == initial@,
    {
        CpuUtilSource { prev_jiffies: initial }
    }

    /// Whether `poll(current)` is defined: the totals it takes fit in a `u64`.
    pub fn can_poll(&self, current: &Vec<CpuJiffies>) -> (b: bool)
        ensures
            b == poll_defined(self.prev(), current@),
    {
        for i in 0..current.len()
            invariant
                forall|m: int|
                    0 <= m < i ==> match #[trigger] first_named(self.prev_jiffies@, current@[m].spec_name()) {
                        Some(k) => current@[m].fits() && self.prev_jiffies@[k].fits(),
                        None => true,
                    },
        {
            match self.find_prev(&current[i]) {
                Some(k) => {
                    if !current[i].total_fits() || !self.prev_jiffies[k].total_fits() {
                        assert(!(match first_named(self.prev_jiffies@, current@[i as int].spec_name()) {
                            Some(k) => current@[i as int].fits() && self.prev_jiffies@[k].fits(),
                            None => true,
                        }));
                        return false;
                    }
                },
                None => {},
            }
        }
        true
    }

    fn find_prev(&self, cur: &CpuJiffies) -> (r: Option<usize>)
        ensures
            match r {
                Some(k) => k < self.prev_jiffies@.len() && first_named(self.prev_jiffies@, cur.spec_name())
                    == Some(k as int),
                None => first_named(self.prev_jiffies@, cur.spec_name()) is None,
            },
    {
        let ghost p = self.prev_jiffies@;
        assert(p.skip(0) =~= p);
        for k in 0..self.prev_jiffies.len()
            invariant
                p == self.prev_jiffies@,
                first_named(p, cur.spec_name()) == match first_named(p.skip(k as int), cur.spec_name()) {
                    Some(m) => Some(m + k),
                    None => None::<int>,
                },
        {
            assert(p.skip(k as int)[0] == p[k as int]);
            assert(p.skip(k as int).drop_first() =~= p.skip(k + 1));
            if self.prev_jiffies[k].name == cur.name {
                return Some(k);
            }
        }
        assert(p.skip(p.len() as int) =~= Seq::<CpuJiffies>::empty());
        None
    }

    /// Utilization readings of `current` against the previous samples, which
    /// `current` then replaces.
    pub fn poll(&mut self, current: Vec<CpuJiffies>) -> (r: Vec<UtilReading>)
        requires
            poll_defined(old(self).prev(), current@),
        ensures
            util_readings(old(self).prev(), current@, r@),
            final(self).prev() == current@,
    {
        let mut readings: Vec<UtilReading> = Vec::new();
        let ghost prev = self.prev_jiffies@;
        let cpu = chars_of("cpu");
        for i in 0..current.len()
            invariant
                prev == self.prev_jiffies@,
                cpu@ == "cpu"@,
                poll_defined(prev, current@),
                util_readings(prev, current@.take(i as int), readings@),
        {
            let ghost before = readings@;
            let cur = &current[i];
            assert(current@.take(i + 1).drop_last() =~= current@.take(i as int));
            assert(current@.take(i + 1).last() == current@[i as int]);
            match self.find_prev(cur) {
                Some(k) => {
                    let p = &self.prev_jiffies[k];
                    assert(match first_named(prev, current@[i as int].spec_name()) {
                        Some(k) => current@[i as int].fits() && prev[k].fits(),
                        None => true,
                    });
                    let ct = cur.total();
                    let pt = p.total();
                    let total_delta = if ct >= pt { ct - pt } else { 0 };
                    let ci = cur.idle_total();
                    let pi = p.idle_total();
                    let idle_delta = if ci >= pi { ci - pi } else { 0 };
                    let name = chars_of(cur.name.as_str());
                    let (sensor, label) = if is_literal(name.as_slice(), "cpu") {
                        ("total".to_owned(), "Total CPU Usage".to_owned())
                    } else {
                        proof {
                            use_type_invariant(cur);
                            reveal_strlit("cpu");
                        }
                        let idx = copy_range(name.as_slice(), 3, name.len());
                        let mut label = "Core ".to_owned();
                        push_chars(&mut label, idx.as_slice());
                        label.append(" Usage");
                        (cur.name.clone(), label)
                    };
                    let id = SensorId { source: "cpu".to_owned(), chip: "utilization".to_owned(), sensor };
                    readings.push(UtilReading { id, label, idle_delta, total_delta });
                    proof {
                        assert(readings@.drop_last() =~= before);
                    }
                },
                None => {},
            }
        }
        assert(current@.take(current.len() as int) =~= current@);
        self.prev_jiffies = current;
        readings
    }
}

/// Polling again with the samples just polled, when their names are
/// distinct, finds no time passed: every reading has zero deltas.
pub proof fn lemma_repoll_is_idle(samples: Seq<CpuJiffies>, rs: Seq<UtilReading>)
    requires
        forall|i: int, j: int|
            0 <= i < j < samples.len() ==> (#[trigger] samples[i]).spec_name() != (
            #[trigger] samples[j]).spec_name(),
        poll_defined(samples, samples),
        util_readings(samples, samples, rs),
    ensures
        forall|i: int| 0 <= i < rs.len() ==> (#[trigger] rs[i]).total_delta == 0 && rs[i].idle_delta == 0,
{
    lemma_repoll_prefix(samples, samples, rs);
}

proof fn lemma_repoll_prefix(all: Seq<CpuJiffies>, cur: Seq<CpuJiffies>, rs: Seq<UtilReading>)
    requires
        forall|i: int, j: int|
            0 <= i < j < all.len() ==> (#[trigger] all[i]).spec_name() != (#[trigger] all[j]).spec_name(),
        cur.len() <= all.len(),
        forall|i: int| 0 <= i < cur.len() ==> cur[i] == all[i],
        util_readings(all, cur, rs),
    ensures
        forall|i: int| 0 <= i < rs.len() ==> (#[trigger] rs[i]).total_delta == 0 && rs[i].idle_delta == 0,
    decreases cur.len(),
{
    if cur.len() > 0 {
        let n = cur.len() - 1;
        lemma_first_named(all, cur.last().spec_name());
        match first_named(all, cur.last().spec_name()) {
            Some(k) => {
                if k != n {
                    if k < n {
                        assert(all[k].spec_name() != all[n].spec_name());
                    }
                }
                lemma_repoll_prefix(all, cur.drop_last(), rs.drop_last());
                assert forall|i: int| 0 <= i < rs.len() implies (#[trigger] rs[i]).total_delta == 0
                    && rs[i].idle_delta == 0 by {
                    if i < rs.len() - 1 {
                        assert(rs[i] == rs.drop_last()[i]);
                    }
                }
            },
            None => {
                lemma_repoll_prefix(all, cur.drop_last(), rs);
            },
        }
    }
}

} // verus!
