//! Parsing the text of `/proc/meminfo` and `/proc/cpuinfo`.

use vstd::prelude::*;
use crate::strmap::StrMap;
use crate::text;
use crate::text::{chars_of, lines, parse_unsigned, split_once, string_from, strip_suffix, trim};

verus! {

/// Value of a meminfo line after the colon (trimmed): a `kB` amount becomes
/// bytes; a number without unit stays as it is; what does not parse is 0.
pub open spec fn meminfo_value(rest: Seq<char>) -> int {
    match text::spec_strip_suffix(rest, "kB"@) {
        Some(kb) => match text::spec_parse_unsigned(text::spec_trim(kb), 10, u64::MAX as int) {
            Some(v) => (v * 1024) as int,
            None => 0,
        },
        None => match text::spec_parse_unsigned(rest, 10, u64::MAX as int) {
            Some(v) => v as int,
            None => 0,
        },
    }
}

/// The key (untrimmed) and value of a meminfo line, if it has a colon.
pub open spec fn meminfo_entry(line: Seq<char>) -> Option<(Seq<char>, int)> {
    match text::spec_split_once(line, ':') {
        Some((key, rest)) => Some((key, meminfo_value(text::spec_trim(rest)))),
        None => None,
    }
}

/// A meminfo value written as `N kB` is N * 1024 bytes, for every N that
/// parses (a kilobyte here is 1024 bytes, whatever the size of N); a bare
/// number N is N bytes.
pub proof fn lemma_meminfo_kilobytes(rest: Seq<char>, digits: Seq<char>, n: nat)
    ensures
        text::spec_strip_suffix(rest, "kB"@) == Some(digits) && text::spec_parse_unsigned(
            text::spec_trim(digits),
            10,
            u64::MAX as int,
        ) == Some(n) ==> meminfo_value(rest) == n * 1024,
        text::spec_strip_suffix(rest, "kB"@) is None && text::spec_parse_unsigned(rest, 10, u64::MAX as int)
            == Some(n) ==> meminfo_value(rest) == n,
{
}

/// Every value of the lines `ls` fits in a `u64`.
pub open spec fn meminfo_fits(ls: Seq<Seq<char>>) -> bool {
    forall|i: int|
        0 <= i < ls.len() ==> match meminfo_entry(#[trigger] ls[i]) {
            Some((_, v)) => v <= u64::MAX,
            None => true,
        }
}

/// The table that the lines `ls` describe; a later line replaces an earlier
/// line with the same key.
pub open spec fn meminfo_map(ls: Seq<Seq<char>>) -> Map<Seq<char>, u64>
    decreases ls.len(),
{
    if ls.len() == 0 {
        Map::empty()
    } else {
        let m = meminfo_map(ls.drop_last());
        match meminfo_entry(ls.last()) {
            Some((k, v)) => m.insert(k, v as u64),
            None => m,
        }
    }
}

fn meminfo_line_value(rest: &[char]) -> (v: u128)
    ensures
        v as int == meminfo_value(rest@),
        text::spec_strip_suffix(rest@, "kB"@) matches Some(kb) ==> (text::spec_parse_unsigned(
            text::spec_trim(kb),
            10,
            u64::MAX as int,
        ) matches Some(n) ==> v as int == n * 1024),
        v <= 0xffff_ffff_ffff_ffff * 1024,
{
    let kb = chars_of("kB");
    match strip_suffix(rest, kb.as_slice()) {
        Some(num) => {
            let num = trim(num.as_slice());
            match parse_unsigned(num.as_slice(), 10, u64::MAX) {
                Some(v) => (v as u128) * 1024,
                None => 0,
            }
        },
        None => match parse_unsigned(rest, 10, u64::MAX) {
            Some(v) => v as u128,
            None => 0,
        },
    }
}

/// Whether every value of `content` fits in a `u64` once converted to bytes.
pub fn meminfo_values_fit(content: &str) -> (b: bool)
    ensures
        b == meminfo_fits(text::spec_lines(content@)),
{
    let cs = chars_of(content);
    let ls = lines(cs.as_slice());
    let ghost l = text::spec_lines(content@);
    for i in 0..ls.len()
        invariant
            l == text::spec_lines(content@),
            text::views_are(ls@, l),
            forall|j: int|
                0 <= j < i ==> match meminfo_entry(#[trigger] l[j]) {
                    Some((_, v)) => v <= u64::MAX,
                    None => true,
                },
    {
        assert(ls@[i as int]@ == l[i as int]);
        match split_once(ls[i].as_slice(), ':') {
            Some((_key, rest)) => {
                let rest = trim(rest.as_slice());
                let v = meminfo_line_value(rest.as_slice());
                if v > u64::MAX as u128 {
                    assert(!(match meminfo_entry(l[i as int]) {
                        Some((_, v)) => v <= u64::MAX,
                        None => true,
                    }));
                    assert(!meminfo_fits(l));
                    return false;
                }
            },
            None => {},
        }
    }
    true
}

/// Parses meminfo text into a table from key to value in bytes.
pub fn parse_meminfo_content(content: &str) -> (m: StrMap<u64>)
    requires
        meminfo_fits(text::spec_lines(content@)),
    ensures
        m@ == meminfo_map(text::spec_lines(content@)),
{
    let cs = chars_of(content);
    let ls = lines(cs.as_slice());
    let ghost l = text::spec_lines(content@);
    let mut map: StrMap<u64> = StrMap::new();
    for i in 0..ls.len()
        invariant
            text::views_are(ls@, l),
            meminfo_fits(l),
            map@ == meminfo_map(l.take(i as int)),
    {
        assert(ls@[i as int]@ == l[i as int]);
        assert(l.take(i + 1).drop_last() =~= l.take(i as int));
        assert(l.take(i + 1).last() == l[i as int]);
        match split_once(ls[i].as_slice(), ':') {
            Some((key, rest)) => {
                let rest = trim(rest.as_slice());
                let v = meminfo_line_value(rest.as_slice());
                assert(match meminfo_entry(l[i as int]) {
                    Some((_, v)) => v <= u64::MAX,
                    None => true,
                });
                map.insert(string_from(key.as_slice()), v as u64);
            },
            None => {},
        }
    }
    assert(l.take(ls.len() as int) =~= l);
    map
}


/// Effect of one cpuinfo line: a blank line closes a non-empty processor
/// table; a `key: value` line adds the trimmed pair to the open table.
pub open spec fn cpuinfo_step(
    st: (Seq<Map<Seq<char>, Seq<char>>>, Map<Seq<char>, Seq<char>>),
    line: Seq<char>,
) -> (Seq<Map<Seq<char>, Seq<char>>>, Map<Seq<char>, Seq<char>>) {
    if text::spec_trim(line).len() == 0 {
        if st.1 == Map::<Seq<char>, Seq<char>>::empty() {
            st
        } else {
            (st.0.push(st.1), Map::empty())
        }
    } else {
        match text::spec_split_once(line, ':') {
            Some((k, v)) => (st.0, st.1.insert(text::spec_trim(k), text::spec_trim(v))),
            None => st,
        }
    }
}

pub open spec fn cpuinfo_fold(ls: Seq<Seq<char>>) -> (
    Seq<Map<Seq<char>, Seq<char>>>,
    Map<Seq<char>, Seq<char>>,
)
    decreases ls.len(),
{
    if ls.len() == 0 {
        (seq![], Map::empty())
    } else {
        cpuinfo_step(cpuinfo_fold(ls.drop_last()), ls.last())
    }
}

/// The processor tables of cpuinfo text, in order.
pub open spec fn spec_parse_cpuinfo(content: Seq<char>) -> Seq<Map<Seq<char>, Seq<char>>> {
    let st = cpuinfo_fold(text::spec_lines(content));
    if st.1 == Map::<Seq<char>, Seq<char>>::empty() {
        st.0
    } else {
        st.0.push(st.1)
    }
}

/// Parses cpuinfo text into one table per processor.
pub fn parse_cpuinfo_content(content: &str) -> (r: Vec<StrMap<String>>)
    ensures
        r.len() == spec_parse_cpuinfo(content@).len(),
        forall|i: int| 0 <= i < r.len() ==> (#[trigger] r@[i])@ == spec_parse_cpuinfo(content@)[i],
{
    let cs = chars_of(content);
    let ls = lines(cs.as_slice());
    let ghost l = text::spec_lines(content@);
    let mut processors: Vec<StrMap<String>> = Vec::new();
    let mut current: StrMap<String> = StrMap::new();
    for i in 0..ls.len()
        invariant
            text::views_are(ls@, l),
            processors.len() == cpuinfo_fold(l.take(i as int)).0.len(),
            forall|j: int|
                0 <= j < processors.len() ==> (#[trigger] processors@[j])@ == cpuinfo_fold(
                    l.take(i as int),
                ).0[j],
            current@ == cpuinfo_fold(l.take(i as int)).1,
    {
        assert(ls@[i as int]@ == l[i as int]);
        assert(l.take(i + 1).drop_last() =~= l.take(i as int));
        assert(l.take(i + 1).last() == l[i as int]);
        let line = trim(ls[i].as_slice());
        if line.len() == 0 {
            if !current.is_empty() {
                let done = current;
                current = StrMap::new();
                processors.push(done);
            }
        } else {
            match split_once(ls[i].as_slice(), ':') {
                Some((key, val)) => {
                    let k = trim(key.as_slice());
                    let v = trim(val.as_slice());
                    current.insert(string_from(k.as_slice()), string_from(v.as_slice()));
                },
                None => {},
            }
        }
    }
    assert(l.take(ls.len() as int) =~= l);
    if !current.is_empty() {
        processors.push(current);
    }
    processors
}

} // verus!
