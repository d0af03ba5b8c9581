//! Current CPU core frequencies from `cpufreq/scaling_cur_freq`.

use vstd::prelude::*;
use crate::model::sensor::SensorId;
use crate::platform::sysfs;
use crate::platform::sysfs::opt_view;
use crate::sort::{in_stable_order, sort_by_key, sorted_by_key, SortKey};
use crate::text;
use crate::text::{chars_of, parse_unsigned, push_decimal, strip_prefix};

verus! {

/// A core and the file that holds its current frequency.
#[derive(Debug, Clone)]
pub struct CpuFreqEntry {
    pub index: u32,
    pub freq_path: String,
}

/// A `scaling_cur_freq` file found by globbing, with the name of its core's
/// directory (`cpu<n>`).
#[derive(Debug, Clone)]
pub struct CpuFreqFile {
    pub cpu_dir: String,
    pub path: String,
}

pub struct CpuFreqSource {
    cpus: Vec<CpuFreqEntry>,
}

/// A frequency reading: the sensor, its label and the value in kHz.
#[derive(Debug, Clone)]
pub struct FreqReading {
    pub id: SensorId,
    pub label: String,
    pub khz: u64,
}

/// The core number of a directory named `cpu<n>`.
pub open spec fn cpu_index(dir: Seq<char>) -> Option<u32> {
    match text::spec_strip_prefix(dir, "cpu"@) {
        Some(n) => match text::spec_parse_unsigned(n, 10, u32::MAX as int) {
            Some(v) => Some(v as u32),
            None => None,
        },
        None => None,
    }
}

/// `es` holds, in order, the cores that the files `fs` belong to.
pub open spec fn entries_from(fs: Seq<CpuFreqFile>, es: Seq<CpuFreqEntry>) -> bool
    decreases fs.len(),
{
    if fs.len() == 0 {
        es.len() == 0
    } else if cpu_index(fs.last().cpu_dir@) is Some {
        &&& es.len() > 0
        &&& cpu_index(fs.last().cpu_dir@) == Some(es.last().index)
        &&& es.last().freq_path@ == fs.last().path@
        &&& entries_from(fs.drop_last(), es.drop_last())
    } else {
        entries_from(fs.drop_last(), es)
    }
}

/// `r` is the reading for core `index` at `khz`.
pub open spec fn freq_reading(index: u32, khz: u64, r: FreqReading) -> bool {
    &&& r.id.source@ == "cpu"@
    &&& r.id.chip@ == "cpufreq"@
    &&& r.id.sensor@ == "cpu"@ + text::decimal(index as nat)
    &&& r.label@ == "Core "@ + text::decimal(index as nat) + " Frequency"@
    &&& r.khz == khz
}

/// `rs` holds, in order, the readings of the cores `es` whose files read as a
/// number (`reads`, aligned with `es`).
pub open spec fn readings_from(
    es: Seq<CpuFreqEntry>,
    reads: Seq<Option<String>>,
    rs: Seq<FreqReading>,
) -> bool
    decreases es.len(),
{
    if es.len() == 0 {
        rs.len() == 0
    } else {
        match sysfs::spec_read_u64_optional(opt_view(reads.last())) {
            Some(khz) => rs.len() > 0 && freq_reading(es.last().index, khz, rs.last())
                && readings_from(es.drop_last(), reads.drop_last(), rs.drop_last()),
            None => readings_from(es.drop_last(), reads.drop_last(), rs),
        }
    }
}

impl SortKey for CpuFreqEntry {
    open spec fn spec_le(self, other: Self) -> bool {
        self.index <= other.index
    }

    fn key_le(&self, other: &Self) -> (r: bool) {
        self.index <= other.index
    }

    proof fn lemma_total(a: Self, b: Self) {
    }

    proof fn lemma_trans(a: Self, b: Self, c: Self) {
    }
}

impl CpuFreqSource {
    /// The cores, ordered by index.
    pub closed spec fn cpus(self) -> Seq<CpuFreqEntry> {
        self.cpus@
    }

    /// The cores of the frequency files `files`, ordered by core number.
    pub fn discover(files: &Vec<CpuFreqFile>) -> (s: Self)
        ensures
            sorted_by_key(s.cpus()),
            exists|es: Seq<CpuFreqEntry>|
                entries_from(files@, es) && s.cpus().to_multiset() == es.to_multiset() && in_stable_order(
                    s.cpus(),
                    es,
                ),
    {
        let mut found: Vec<CpuFreqEntry> = Vec::new();
        let prefix = chars_of("cpu");
        for i in 0..files.len()
            invariant
                prefix@ == "cpu"@,
                entries_from(files@.take(i as int), found@),
        {
            let ghost prev = found@;
            let dir = chars_of(files[i].cpu_dir.as_str());
            match strip_prefix(dir.as_slice(), prefix.as_slice()) {
                Some(n) => match parse_unsigned(n.as_slice(), 10, u32::MAX as u64) {
                    Some(v) => {
                        found.push(CpuFreqEntry { index: v as u32, freq_path: files[i].path.clone() });
                    },
                    None => {},
                },
                None => {},
            }
            proof {
                let fs = files@.take(i + 1);
                assert(fs.drop_last() =~= files@.take(i as int));
                assert(fs.last() == files@[i as int]);
                if cpu_index(files@[i as int].cpu_dir@) is Some {
                    assert(found@.drop_last() =~= prev);
                }
            }
        }
        assert(files@.take(files.len() as int) =~= files@);
        let ghost es = found@;
        let cpus = sort_by_key(found);
        CpuFreqSource { cpus }
    }

    /// The frequency files to read for `poll`, in the order of the cores.
    pub fn freq_paths(&self) -> (r: Vec<String>)
        ensures
            r.len() == self.cpus().len(),
            forall|i: int| 0 <= i < r.len() ==> (#[trigger] r@[i])@ == self.cpus()[i].freq_path@,
    {
        let mut r: Vec<String> = Vec::new();
        for i in 0..self.cpus.len()
            invariant
                r.len() == i,
                forall|j: int| 0 <= j < i ==> (#[trigger] r@[j])@ == self.cpus@[j].freq_path@,
        {
            r.push(self.cpus[i].freq_path.clone());
        }
        r
    }

    /// The frequency of every core whose file (read into `reads`, in the order
    /// of `freq_paths`) holds a number.
    pub fn poll(&self, reads: &Vec<Option<String>>) -> (r: Vec<FreqReading>)
        requires
            reads.len() == self.cpus().len(),
        ensures
            readings_from(self.cpus(), reads@, r@),
    {
        let mut out: Vec<FreqReading> = Vec::new();
        for i in 0..self.cpus.len()
            invariant
                reads.len() == self.cpus@.len(),
                readings_from(self.cpus@.take(i as int), reads@.take(i as int), out@),
        {
            let ghost prev = out@;
            match sysfs::u64_of(&reads[i]) {
                Some(khz) => {
                    let index = self.cpus[i].index;
                    let mut sensor = "cpu".to_owned();
                    push_decimal(&mut sensor, index as u64);
                    let mut label = "Core ".to_owned();
                    push_decimal(&mut label, index as u64);
                    label.append(" Frequency");
                    let id = SensorId {
                        source: "cpu".to_owned(),
                        chip: "cpufreq".to_owned(),
                        sensor,
                    };
                    out.push(FreqReading { id, label, khz });
                },
                None => {},
            }
            proof {
                assert(self.cpus@.take(i + 1).drop_last() =~= self.cpus@.take(i as int));
                assert(reads@.take(i + 1).drop_last() =~= reads@.take(i as int));
                assert(self.cpus@.take(i + 1).last() == self.cpus@[i as int]);
                assert(reads@.take(i + 1).last() == reads@[i as int]);
                if sysfs::spec_read_u64_optional(opt_view(reads@[i as int])) is Some {
                    assert(out@.drop_last() =~= prev);
                }
            }
        }
        assert(self.cpus@.take(self.cpus.len() as int) =~= self.cpus@);
        assert(reads@.take(reads.len() as int) =~= reads@);
        out
    }
}

} // verus!
