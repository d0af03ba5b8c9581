//! The decisions of the interactive sensor dashboard: how sensors are grouped,
//! which rows the table shows, and how the view state answers each key or
//! mouse event. Drawing and reading the terminal stay with the caller.

use vstd::prelude::*;
use crate::model::sensor::{SensorId, SensorUnit};
use crate::strmap::StrMap;
use crate::text;
use crate::text::{chars_of, push_chars, push_decimal, push_decimal2, push_text};

verus! {

/// The group a sensor is shown under: `source/chip`.
pub open spec fn spec_group_key(id: SensorId) -> Seq<char> {
    id.source@ + seq!['/'] + id.chip@
}

/// The group key of every sensor, in order.
pub open spec fn group_keys(ids: Seq<SensorId>) -> Seq<Seq<char>> {
    Seq::new(ids.len(), |i: int| spec_group_key(ids[i]))
}

/// The distinct values of `s`, each at the place where it first occurs.
pub open spec fn first_occurrences(s: Seq<Seq<char>>) -> Seq<Seq<char>>
    decreases s.len(),
{
    if s.len() == 0 {
        Seq::empty()
    } else {
        let d = first_occurrences(s.drop_last());
        if d.contains(s.last()) {
            d
        } else {
            d.push(s.last())
        }
    }
}

/// How often `k` occurs in `s`.
pub open spec fn occurrences(s: Seq<Seq<char>>, k: Seq<char>) -> nat
    decreases s.len(),
{
    if s.len() == 0 {
        0
    } else {
        occurrences(s.drop_last(), k) + if s.last() == k {
            1nat
        } else {
            0nat
        }
    }
}

/// Groups with more than 32 sensors, which the first non-empty view folds.
pub open spec fn crowded_groups(keys: Seq<Seq<char>>) -> Set<Seq<char>> {
    Set::new(|k: Seq<char>| occurrences(keys, k) > 32)
}

/// The table rows for sensors whose group keys are `keys`, with the groups in
/// `collapsed` folded: a header row opens each run of equal keys, and each
/// sensor of an unfolded group has a row of its own. The result is the number
/// of rows and the row of each header.
pub open spec fn table_layout(keys: Seq<Seq<char>>, collapsed: Set<Seq<char>>) -> (int, Seq<int>)
    decreases keys.len(),
{
    if keys.len() == 0 {
        (0, Seq::empty())
    } else {
        let (rows, headers) = table_layout(keys.drop_last(), collapsed);
        let k = keys.last();
        let opens = keys.len() == 1 || keys[keys.len() - 2] != k;
        let rows1 = if opens {
            rows + 1
        } else {
            rows
        };
        let headers1 = if opens {
            headers.push(rows)
        } else {
            headers
        };
        (if collapsed.contains(k) {
            rows1
        } else {
            rows1 + 1
        }, headers1)
    }
}

/// `a - b`, or 0 where `b` exceeds `a` (`usize::saturating_sub`).
pub open spec fn minus_or_zero(a: int, b: int) -> int {
    if a > b {
        a - b
    } else {
        0
    }
}

/// `a + b`, or `usize::MAX` where the sum exceeds it (`usize::saturating_add`).
pub open spec fn plus_or_max(a: int, b: int) -> int {
    if a + b > usize::MAX {
        usize::MAX as int
    } else {
        a + b
    }
}

/// Where the cursor stops on Page Up: it walks back from `c` to the first
/// group whose header is at or below the scroll position, or to the first group.
pub open spec fn page_up_cursor(headers: Seq<usize>, scroll: int, c: int) -> int
    decreases c,
{
    if c <= 0 {
        c
    } else if c < headers.len() && headers[c] >= scroll {
        c
    } else {
        page_up_cursor(headers, scroll, c - 1)
    }
}

/// Where the cursor stops on Page Down: it walks on from `c` to the first
/// group whose header is at or below the scroll position, or to the last group.
pub open spec fn page_down_cursor(headers: Seq<usize>, scroll: int, c: int) -> int
    decreases headers.len() - c,
{
    if c < 0 || c + 1 >= headers.len() {
        c
    } else if headers[c] >= scroll {
        c
    } else {
        page_down_cursor(headers, scroll, c + 1)
    }
}

/// Decimal places shown for values of a unit.
pub open spec fn spec_format_precision(unit: SensorUnit) -> usize {
    match unit {
        SensorUnit::Rpm | SensorUnit::Mhz | SensorUnit::Percent => 0,
        _ => 1,
    }
}

/// Temperatures, voltages, currents, powers, throughputs, sizes and unitless
/// values are shown with one decimal place; revolutions per minute,
/// megahertz and percentages with none.
pub proof fn lemma_precision_by_unit(unit: SensorUnit)
    ensures
        unit is Celsius || unit is Volts || unit is Millivolts || unit is Watts || unit is Milliwatts
            || unit is Amps || unit is Milliamps || unit is BytesPerSec || unit is MegabytesPerSec
            || unit is Bytes || unit is Megabytes || unit is Unitless ==> spec_format_precision(unit) == 1,
        unit is Rpm || unit is Mhz || unit is Percent ==> spec_format_precision(unit) == 0,
{
}

/// Elapsed time as the status bar writes it: `1h 02m 03s`, `2m 03s` or `3s`.
pub open spec fn spec_format_elapsed(total_secs: nat) -> Seq<char> {
    let hours = total_secs / 3600;
    let minutes = (total_secs % 3600) / 60;
    let seconds = total_secs % 60;
    if hours > 0 {
        text::decimal(hours) + seq!['h', ' '] + text::decimal2(minutes) + seq!['m', ' ']
            + text::decimal2(seconds) + seq!['s']
    } else if minutes > 0 {
        text::decimal(minutes) + seq!['m', ' '] + text::decimal2(seconds) + seq!['s']
    } else {
        text::decimal(seconds) + seq!['s']
    }
}

pub proof fn lemma_first_occurrences_contains(s: Seq<Seq<char>>, k: Seq<char>)
    ensures
        first_occurrences(s).contains(k) <==> s.contains(k),
    decreases s.len(),
{
    if s.len() > 0 {
        lemma_first_occurrences_contains(s.drop_last(), k);
        let d = first_occurrences(s.drop_last());
        if s.contains(k) && !s.drop_last().contains(k) {
            let i = choose|i: int| 0 <= i < s.len() && s[i] == k;
            if i < s.len() - 1 {
                assert(s.drop_last()[i] == k);
            }
            assert(s.last() == k);
            if !d.contains(k) {
                assert(d.push(k)[d.len() as int] == k);
            }
        }
        if s.drop_last().contains(k) {
            let i = choose|i: int| 0 <= i < s.drop_last().len() && s.drop_last()[i] == k;
            assert(s[i] == k);
        }
        if !d.contains(s.last()) {
            let e = d.push(s.last());
            if e.contains(k) {
                let j = choose|j: int| 0 <= j < e.len() && e[j] == k;
                if j < d.len() {
                    assert(d[j] == k);
                } else {
                    assert(s[s.len() - 1] == k);
                }
            }
            if d.contains(k) {
                let j = choose|j: int| 0 <= j < d.len() && d[j] == k;
                assert(e[j] == k);
            }
        }
    }
}

pub proof fn lemma_occurrences_positive(s: Seq<Seq<char>>, k: Seq<char>)
    requires
        occurrences(s, k) > 0,
    ensures
        s.contains(k),
    decreases s.len(),
{
    if s.last() == k {
        assert(s[s.len() - 1] == k);
    } else {
        lemma_occurrences_positive(s.drop_last(), k);
        let i = choose|i: int| 0 <= i < s.drop_last().len() && s.drop_last()[i] == k;
        assert(s[i] == k);
    }
}

pub proof fn lemma_table_layout_bound(keys: Seq<Seq<char>>, collapsed: Set<Seq<char>>)
    ensures
        0 <= table_layout(keys, collapsed).0 <= 2 * keys.len(),
        table_layout(keys, collapsed).1.len() <= keys.len(),
        forall|i: int|
            0 <= i < table_layout(keys, collapsed).1.len() ==> 0 <= #[trigger] table_layout(
                keys,
                collapsed,
            ).1[i] < table_layout(keys, collapsed).0,
    decreases keys.len(),
{
    if keys.len() > 0 {
        lemma_table_layout_bound(keys.drop_last(), collapsed);
    }
}

/// Equal keys stand next to each other, as they do in a snapshot sorted by
/// sensor identity.
pub open spec fn keys_grouped(keys: Seq<Seq<char>>) -> bool {
    forall|i: int, j: int, k: int|
        0 <= i < j < k < keys.len() && #[trigger] keys[i] == #[trigger] keys[k] ==> #[trigger] keys[j]
            == keys[i]
}

/// When the snapshot keeps each group together, the table has one header per
/// group, so the cursor's place among the headers is its place among the
/// groups.
pub proof fn lemma_one_header_per_group(keys: Seq<Seq<char>>, collapsed: Set<Seq<char>>)
    requires
        keys_grouped(keys),
    ensures
        table_layout(keys, collapsed).1.len() == first_occurrences(keys).len(),
    decreases keys.len(),
{
    if keys.len() > 0 {
        let s = keys.drop_last();
        let n = keys.len() - 1;
        assert(keys_grouped(s)) by {
            assert forall|i: int, j: int, k: int|
                0 <= i < j < k < s.len() && #[trigger] s[i] == #[trigger] s[k] implies #[trigger] s[j]
                == s[i] by {
                assert(keys[i] == keys[k]);
                assert(keys[j] == keys[i]);
            }
        }
        lemma_one_header_per_group(s, collapsed);
        lemma_first_occurrences_contains(s, keys.last());
        if n == 0 || keys[n - 1] != keys[n] {
            if s.contains(keys[n]) {
                let i = choose|i: int| 0 <= i < s.len() && s[i] == keys[n];
                assert(keys[i] == keys[n]);
                assert(keys[n - 1] == keys[i]);
            }
        } else {
            assert(s[n - 1] == keys.last());
        }
    }
}

/// Toggling the same group twice leaves the folded groups as they were.
pub proof fn lemma_toggle_twice(collapsed: Set<Seq<char>>, cursor: int, groups: Seq<Seq<char>>)
    ensures
        collapsed_after(
            collapsed_after(collapsed, cursor, DashboardEvent::Toggle, groups),
            cursor,
            DashboardEvent::Toggle,
            groups,
        ) == collapsed,
{
    let once = collapsed_after(collapsed, cursor, DashboardEvent::Toggle, groups);
    assert(collapsed_after(once, cursor, DashboardEvent::Toggle, groups) =~= collapsed);
}

/// The group key of a sensor: its source and chip joined by `/`.
pub fn group_key(id: &SensorId) -> (k: String)
    ensures
        k@ == spec_group_key(*id),
{
    let mut k = id.source.clone();
    push_chars(&mut k, &['/']);
    let chip = chars_of(id.chip.as_str());
    push_chars(&mut k, chip.as_slice());
    proof {
        assert(seq!['/'] =~= ['/']@);
    }
    k
}

/// The group keys of `ids`, in order.
fn keys_of(ids: &Vec<SensorId>) -> (keys: Vec<String>)
    ensures
        keys@.len() == ids@.len(),
        forall|i: int| 0 <= i < ids@.len() ==> (#[trigger] keys@[i])@ == spec_group_key(ids@[i]),
{
    let mut keys: Vec<String> = Vec::new();
    for i in 0..ids.len()
        invariant
            keys@.len() == i,
            forall|j: int| 0 <= j < i ==> (#[trigger] keys@[j])@ == spec_group_key(ids@[j]),
    {
        keys.push(group_key(&ids[i]));
    }
    keys
}

/// Whether some string of `v` equals `k`.
fn holds_string(v: &Vec<String>, k: &String) -> (b: bool)
    ensures
        b == v@.map_values(|s: String| s@).contains(k@),
{
    let ghost views = v@.map_values(|s: String| s@);
    for i in 0..v.len()
        invariant
            views == v@.map_values(|s: String| s@),
            forall|j: int| 0 <= j < i ==> (#[trigger] views[j]) != k@,
    {
        if v[i] == *k {
            assert(views[i as int] == k@);
            return true;
        }
    }
    false
}

/// The groups of a snapshot, each once, in the order in which they first
/// appear.
pub fn unique_groups(ids: &Vec<SensorId>) -> (groups: Vec<String>)
    ensures
        groups@.map_values(|s: String| s@) == first_occurrences(group_keys(ids@)),
{
    let keys = keys_of(ids);
    let ghost ks = group_keys(ids@);
    let mut groups: Vec<String> = Vec::new();
    for i in 0..keys.len()
        invariant
            keys@.len() == ids@.len(),
            ks == group_keys(ids@),
            forall|j: int| 0 <= j < ids@.len() ==> (#[trigger] keys@[j])@ == spec_group_key(ids@[j]),
            groups@.map_values(|s: String| s@) == first_occurrences(ks.take(i as int)),
    {
        let seen = holds_string(&groups, &keys[i]);
        proof {
            assert(ks.take(i + 1).drop_last() =~= ks.take(i as int));
            assert(ks.take(i + 1).last() == keys@[i as int]@);
        }
        if !seen {
            groups.push(keys[i].clone());
            assert(groups@.map_values(|s: String| s@) =~= first_occurrences(ks.take(i as int)).push(
                keys@[i as int]@,
            ));
        }
    }
    assert(ks.take(keys@.len() as int) =~= ks);
    groups
}

/// The group under the cursor: the `cursor`-th group of the snapshot, if there
/// is one.
pub fn get_group_at_cursor(ids: &Vec<SensorId>, group_indices: &Vec<usize>, cursor: usize) -> (r:
    Option<String>)
    ensures
        match r {
            Some(g) => cursor < first_occurrences(group_keys(ids@)).len() && g@ == first_occurrences(
                group_keys(ids@),
            )[cursor as int],
            None => cursor >= first_occurrences(group_keys(ids@)).len(),
        },
{
    let groups = unique_groups(ids);
    if cursor < groups.len() {
        let g = groups[cursor].clone();
        assert(groups@.map_values(|s: String| s@)[cursor as int] == groups@[cursor as int]@);
        Some(g)
    } else {
        None
    }
}

/// Decimal places shown for values of a unit: none for revolutions,
/// megahertz and percentages, one for everything else.
pub fn format_precision(unit: &SensorUnit) -> (p: usize)
    ensures
        p == spec_format_precision(*unit),
        p == 0 <==> (*unit is Rpm || *unit is Mhz || *unit is Percent),
        p <= 1,
{
    match unit {
        SensorUnit::Celsius | SensorUnit::Volts | SensorUnit::Millivolts | SensorUnit::Watts
        | SensorUnit::Milliwatts | SensorUnit::Amps | SensorUnit::Milliamps => 1,
        SensorUnit::Rpm | SensorUnit::Mhz | SensorUnit::Percent => 0,
        SensorUnit::BytesPerSec | SensorUnit::MegabytesPerSec | SensorUnit::Bytes
        | SensorUnit::Megabytes => 1,
        SensorUnit::Unitless => 1,
    }
}

/// Time since the dashboard started, in whole seconds, as hours, minutes and
/// seconds with the leading zero units left out.
pub fn format_elapsed(total_secs: u64) -> (s: String)
    ensures
        s@ == spec_format_elapsed(total_secs as nat),
{
    let hours = total_secs / 3600;
    let minutes = (total_secs % 3600) / 60;
    let seconds = total_secs % 60;
    let mut s = String::new();
    if hours > 0 {
        push_decimal(&mut s, hours);
        push_chars(&mut s, &['h', ' ']);
        push_decimal2(&mut s, minutes);
        push_chars(&mut s, &['m', ' ']);
        push_decimal2(&mut s, seconds);
        push_chars(&mut s, &['s']);
        assert(seq!['h', ' '] =~= ['h', ' ']@);
        assert(seq!['m', ' '] =~= ['m', ' ']@);
        assert(seq!['s'] =~= ['s']@);
    } else if minutes > 0 {
        push_decimal(&mut s, minutes);
        push_chars(&mut s, &['m', ' ']);
        push_decimal2(&mut s, seconds);
        push_chars(&mut s, &['s']);
        assert(seq!['m', ' '] =~= ['m', ' ']@);
        assert(seq!['s'] =~= ['s']@);
    } else {
        push_decimal(&mut s, seconds);
        push_chars(&mut s, &['s']);
        assert(seq!['s'] =~= ['s']@);
    }
    assert(s@ =~= spec_format_elapsed(total_secs as nat));
    s
}

/// What the user did, as the dashboard reads it. `Down` carries the height of
/// the terminal at that moment, in rows.
#[derive(Debug, Clone, Copy, PartialEq, Eq)]
pub enum DashboardEvent {
    Quit,
    Up,
    Down { term_height: u16 },
    Toggle,
    CollapseAll,
    ExpandAll,
    PageUp,
    PageDown,
    Home,
    End,
    ScrollUp,
    ScrollDown,
    Other,
}

/// The table of one tick: how many rows it has, the row of each group header,
/// and the groups in the order of their headers.
pub struct DashboardLayout {
    pub total_rows: usize,
    pub group_indices: Vec<usize>,
    pub groups: Vec<String>,
}

/// What the dashboard keeps from one tick to the next: the first row shown,
/// the group under the cursor, the folded groups, and whether crowded groups
/// have been folded yet.
pub struct DashboardState {
    pub scroll_offset: usize,
    pub cursor: usize,
    pub collapsed: StrMap<()>,
    pub auto_collapsed: bool,
}

/// The folded groups after a tick's snapshot: the first non-empty snapshot
/// also folds its crowded groups.
pub open spec fn folded_after(collapsed: Set<Seq<char>>, auto_collapsed: bool, ids: Seq<SensorId>) -> Set<
    Seq<char>,
> {
    if !auto_collapsed && ids.len() > 0 {
        collapsed + crowded_groups(group_keys(ids))
    } else {
        collapsed
    }
}

/// The first row shown after `event`.
pub open spec fn scroll_after(
    scroll: int,
    cursor: int,
    event: DashboardEvent,
    headers: Seq<usize>,
    total_rows: int,
) -> int {
    match event {
        DashboardEvent::Up => if cursor > 0 && cursor - 1 < headers.len() && headers[cursor - 1]
            < scroll {
            headers[cursor - 1] as int
        } else {
            scroll
        },
        DashboardEvent::Down { term_height } => {
            let visible = minus_or_zero(term_height as int, 6);
            if cursor + 1 < headers.len() && headers[cursor + 1] >= scroll + visible {
                minus_or_zero(headers[cursor + 1] as int, visible / 2)
            } else {
                scroll
            }
        },
        DashboardEvent::PageUp => minus_or_zero(scroll, 20),
        DashboardEvent::PageDown => plus_or_max(scroll, 20),
        DashboardEvent::Home => 0,
        DashboardEvent::End => minus_or_zero(total_rows, 1),
        DashboardEvent::ScrollUp => minus_or_zero(scroll, 3),
        DashboardEvent::ScrollDown => plus_or_max(scroll, 3),
        _ => scroll,
    }
}

/// The cursor after `event`.
pub open spec fn cursor_after(
    scroll: int,
    cursor: int,
    event: DashboardEvent,
    headers: Seq<usize>,
) -> int {
    match event {
        DashboardEvent::Up => if cursor > 0 {
            cursor - 1
        } else {
            cursor
        },
        DashboardEvent::Down { .. } => if cursor + 1 < headers.len() {
            cursor + 1
        } else {
            cursor
        },
        DashboardEvent::PageUp => page_up_cursor(headers, minus_or_zero(scroll, 20), cursor),
        DashboardEvent::PageDown => page_down_cursor(headers, plus_or_max(scroll, 20), cursor),
        DashboardEvent::Home => 0,
        DashboardEvent::End => minus_or_zero(headers.len() as int, 1),
        _ => cursor,
    }
}

/// The folded groups after `event`.
pub open spec fn collapsed_after(
    collapsed: Set<Seq<char>>,
    cursor: int,
    event: DashboardEvent,
    groups: Seq<Seq<char>>,
) -> Set<Seq<char>> {
    match event {
        DashboardEvent::Toggle => if 0 <= cursor < groups.len() {
            if collapsed.contains(groups[cursor]) {
                collapsed.remove(groups[cursor])
            } else {
                collapsed.insert(groups[cursor])
            }
        } else {
            collapsed
        },
        DashboardEvent::CollapseAll => collapsed + groups.to_set(),
        DashboardEvent::ExpandAll => Set::empty(),
        _ => collapsed,
    }
}

/// Whether the Page Up and Page Down walks stop at group `c`.
fn header_visible(headers: &Vec<usize>, scroll: usize, c: usize) -> (b: bool)
    ensures
        b == (c < headers@.len() && headers@[c as int] >= scroll),
{
    c < headers.len() && headers[c] >= scroll
}

/// How often `k` occurs among `keys`.
fn count_key(keys: &Vec<String>, k: &String) -> (n: usize)
    ensures
        n == occurrences(keys@.map_values(|s: String| s@), k@),
{
    let ghost ks = keys@.map_values(|s: String| s@);
    let mut n: usize = 0;
    for i in 0..keys.len()
        invariant
            ks == keys@.map_values(|s: String| s@),
            n == occurrences(ks.take(i as int), k@),
            n <= i,
    {
        proof {
            assert(ks.take(i + 1).drop_last() =~= ks.take(i as int));
            assert(ks.take(i + 1).last() == keys@[i as int]@);
        }
        if keys[i] == *k {
            n = n + 1;
        }
    }
    assert(ks.take(keys@.len() as int) =~= ks);
    n
}

impl DashboardState {
    /// The state before the first tick: top of the table, first group,
    /// nothing folded.
    pub fn new() -> (s: Self)
        ensures
            s.scroll_offset == 0,
            s.cursor == 0,
            s.collapsed@.dom() == Set::<Seq<char>>::empty(),
            !s.auto_collapsed,
    {
        DashboardState { scroll_offset: 0, cursor: 0, collapsed: StrMap::new(), auto_collapsed: false }
    }

    /// Folds the groups of more than 32 sensors, once, on the first snapshot
    /// that has any sensor.
    fn fold_crowded(&mut self, ids: &Vec<SensorId>)
        ensures
            final(self).collapsed@.dom() == folded_after(
                old(self).collapsed@.dom(),
                old(self).auto_collapsed,
                ids@,
            ),
            final(self).auto_collapsed == (old(self).auto_collapsed || ids@.len() > 0),
            final(self).scroll_offset == old(self).scroll_offset,
            final(self).cursor == old(self).cursor,
    {
        if self.auto_collapsed || ids.len() == 0 {
            return;
        }
        self.auto_collapsed = true;
        let keys = keys_of(ids);
        let groups = unique_groups(ids);
        let ghost ks = group_keys(ids@);
        let ghost gs = groups@.map_values(|s: String| s@);
        let ghost start = self.collapsed@.dom();
        proof {
            assert(keys@.map_values(|s: String| s@) =~= ks);
        }
        let mut collapsed = StrMap::new();
        core::mem::swap(&mut collapsed, &mut self.collapsed);
        for g in 0..groups.len()
            invariant
                gs == groups@.map_values(|s: String| s@),
                gs == first_occurrences(ks),
                ks == group_keys(ids@),
                keys@.map_values(|s: String| s@) == ks,
                collapsed@.dom() == start + gs.take(g as int).to_set().filter(
                    |k: Seq<char>| occurrences(ks, k) > 32,
                ),
        {
            let n = count_key(&keys, &groups[g]);
            if n > 32 {
                collapsed.insert(groups[g].clone(), ());
            }
            proof {
                assert(gs[g as int] == groups@[g as int]@);
                assert(gs.take(g + 1) =~= gs.take(g as int).push(gs[g as int]));
                gs.take(g as int).lemma_push_to_set_commute(gs[g as int]);
                assert(collapsed@.dom() =~= start + gs.take(g + 1).to_set().filter(
                    |k: Seq<char>| occurrences(ks, k) > 32,
                ));
            }
        }
        proof {
            assert(gs.take(groups@.len() as int) =~= gs);
            assert forall|k: Seq<char>| occurrences(ks, k) > 32 implies gs.to_set().contains(k) by {
                lemma_occurrences_positive(ks, k);
                lemma_first_occurrences_contains(ks, k);
            }
            assert(collapsed@.dom() =~= start + crowded_groups(ks));
        }
        self.collapsed = collapsed;
    }

    /// The table for this tick's snapshot: folds crowded groups on the first
    /// non-empty snapshot, lays out the rows, and brings the scroll position
    /// and the cursor back inside the table.
    pub fn prepare(&mut self, ids: &Vec<SensorId>) -> (layout: DashboardLayout)
        requires
            ids@.len() <= usize::MAX / 2,
        ensures
            final(self).collapsed@.dom() == folded_after(
                old(self).collapsed@.dom(),
                old(self).auto_collapsed,
                ids@,
            ),
            final(self).auto_collapsed == (old(self).auto_collapsed || ids@.len() > 0),
            layout.total_rows == table_layout(group_keys(ids@), final(self).collapsed@.dom()).0,
            layout.group_indices@.len() == table_layout(
                group_keys(ids@),
                final(self).collapsed@.dom(),
            ).1.len(),
            forall|i: int|
                0 <= i < layout.group_indices@.len() ==> #[trigger] layout.group_indices@[i]
                    == table_layout(group_keys(ids@), final(self).collapsed@.dom()).1[i],
            layout.groups@.map_values(|s: String| s@) == first_occurrences(group_keys(ids@)),
            final(self).scroll_offset == (if old(self).scroll_offset <= minus_or_zero(
                layout.total_rows as int,
                1,
            ) {
                old(self).scroll_offset as int
            } else {
                minus_or_zero(layout.total_rows as int, 1)
            }),
            final(self).cursor == (if layout.group_indices@.len() > 0 && old(self).cursor
                >= layout.group_indices@.len() {
                layout.group_indices@.len() - 1
            } else {
                old(self).cursor as int
            }),
    {
        self.fold_crowded(ids);
        let keys = keys_of(ids);
        let ghost ks = group_keys(ids@);
        let ghost folded = self.collapsed@.dom();
        let mut rows: usize = 0;
        let mut headers: Vec<usize> = Vec::new();
        for i in 0..keys.len()
            invariant
                keys@.len() == ids@.len(),
                ids@.len() <= usize::MAX / 2,
                ks == group_keys(ids@),
                forall|j: int| 0 <= j < ids@.len() ==> (#[trigger] keys@[j])@ == spec_group_key(ids@[j]),
                folded == self.collapsed@.dom(),
                rows == table_layout(ks.take(i as int), folded).0,
                headers@.len() == table_layout(ks.take(i as int), folded).1.len(),
                forall|j: int|
                    0 <= j < headers@.len() ==> #[trigger] headers@[j] == table_layout(
                        ks.take(i as int),
                        folded,
                    ).1[j],
        {
            proof {
                let t = ks.take(i + 1);
                assert(t.drop_last() =~= ks.take(i as int));
                assert(t.last() == keys@[i as int]@);
                if i > 0 {
                    assert(t[i - 1] == keys@[i - 1]@);
                }
                lemma_table_layout_bound(ks.take(i as int), folded);
            }
            let opens = i == 0 || keys[i - 1] != keys[i];
            if opens {
                headers.push(rows);
                rows = rows + 1;
            }
            if !self.collapsed.contains_key(&keys[i]) {
                rows = rows + 1;
            }
            proof {
                let t = ks.take(i + 1);
                let prev = table_layout(ks.take(i as int), folded);
                assert(table_layout(t, folded).1 =~= (if opens {
                    prev.1.push(prev.0)
                } else {
                    prev.1
                }));
            }
        }
        proof {
            assert(ks.take(keys@.len() as int) =~= ks);
        }
        let groups = unique_groups(ids);
        let last_row = rows.saturating_sub(1);
        if self.scroll_offset > last_row {
            self.scroll_offset = last_row;
        }
        if headers.len() > 0 && self.cursor >= headers.len() {
            self.cursor = headers.len() - 1;
        }
        DashboardLayout { total_rows: rows, group_indices: headers, groups }
    }

    /// Answers one event against this tick's layout; `true` means the user
    /// asked to quit.
    pub fn handle(&mut self, event: &DashboardEvent, layout: &DashboardLayout) -> (quit: bool)
        ensures
            quit == (*event == DashboardEvent::Quit),
            final(self).scroll_offset == scroll_after(
                old(self).scroll_offset as int,
                old(self).cursor as int,
                *event,
                layout.group_indices@,
                layout.total_rows as int,
            ),
            final(self).cursor == cursor_after(
                old(self).scroll_offset as int,
                old(self).cursor as int,
                *event,
                layout.group_indices@,
            ),
            final(self).collapsed@.dom() == collapsed_after(
                old(self).collapsed@.dom(),
                old(self).cursor as int,
                *event,
                layout.groups@.map_values(|s: String| s@),
            ),
            final(self).auto_collapsed == old(self).auto_collapsed,
    {
        let headers = &layout.group_indices;
        match event {
            DashboardEvent::Quit => {
                return true;
            },
            DashboardEvent::Up => {
                if self.cursor > 0 {
                    self.cursor = self.cursor - 1;
                    if self.cursor < headers.len() && headers[self.cursor] < self.scroll_offset {
                        self.scroll_offset = headers[self.cursor];
                    }
                }
            },
            DashboardEvent::Down { term_height } => {
                if headers.len() > 0 && self.cursor < headers.len() - 1 {
                    self.cursor = self.cursor + 1;
                    let row = headers[self.cursor];
                    let visible = (*term_height as usize).saturating_sub(6);
                    let below = self.scroll_offset <= usize::MAX - visible && row >= self.scroll_offset
                        + visible;
                    if below {
                        self.scroll_offset = row.saturating_sub(visible / 2);
                    }
                }
            },
            DashboardEvent::Toggle => {
                let groups = &layout.groups;
                if self.cursor < groups.len() {
                    let key = groups[self.cursor].clone();
                    assert(groups@.map_values(|s: String| s@)[self.cursor as int] == key@);
                    let mut collapsed = StrMap::new();
                    core::mem::swap(&mut collapsed, &mut self.collapsed);
                    if collapsed.contains_key(&key) {
                        collapsed.remove(&key);
                    } else {
                        collapsed.insert(key, ());
                    }
                    assert(collapsed@.dom() =~= collapsed_after(
                        old(self).collapsed@.dom(),
                        old(self).cursor as int,
                        *event,
                        layout.groups@.map_values(|s: String| s@),
                    ));
                    self.collapsed = collapsed;
                }
            },
            DashboardEvent::CollapseAll => {
                let groups = &layout.groups;
                let ghost gs = groups@.map_values(|s: String| s@);
                let ghost start = self.collapsed@.dom();
                let mut collapsed = StrMap::new();
                core::mem::swap(&mut collapsed, &mut self.collapsed);
                for g in 0..groups.len()
                    invariant
                        gs == groups@.map_values(|s: String| s@),
                        collapsed@.dom() == start + gs.take(g as int).to_set(),
                {
                    collapsed.insert(groups[g].clone(), ());
                    proof {
                        assert(gs[g as int] == groups@[g as int]@);
                        assert(gs.take(g + 1) =~= gs.take(g as int).push(gs[g as int]));
                        gs.take(g as int).lemma_push_to_set_commute(gs[g as int]);
                        assert(collapsed@.dom() =~= start + gs.take(g + 1).to_set());
                    }
                }
                assert(gs.take(groups@.len() as int) =~= gs);
                self.collapsed = collapsed;
            },
            DashboardEvent::ExpandAll => {
                self.collapsed = StrMap::new();
                assert(self.collapsed@.dom() =~= Set::<Seq<char>>::empty());
            },
            DashboardEvent::PageUp => {
                let scroll = self.scroll_offset.saturating_sub(20);
                let mut c = self.cursor;
                while c > 0 && !header_visible(headers, scroll, c)
                    invariant
                        page_up_cursor(headers@, scroll as int, c as int) == page_up_cursor(
                            headers@,
                            scroll as int,
                            old(self).cursor as int,
                        ),
                    decreases c,
                {
                    c = c - 1;
                }
                self.scroll_offset = scroll;
                self.cursor = c;
            },
            DashboardEvent::PageDown => {
                let scroll = self.scroll_offset.saturating_add(20);
                let mut c = self.cursor;
                while headers.len() > 0 && c < headers.len() - 1 && !header_visible(headers, scroll, c)
                    invariant
                        page_down_cursor(headers@, scroll as int, c as int) == page_down_cursor(
                            headers@,
                            scroll as int,
                            old(self).cursor as int,
                        ),
                    decreases headers@.len() - c,
                {
                    c = c + 1;
                }
                self.scroll_offset = scroll;
                self.cursor = c;
            },
            DashboardEvent::Home => {
                self.scroll_offset = 0;
                self.cursor = 0;
            },
            DashboardEvent::End => {
                self.scroll_offset = layout.total_rows.saturating_sub(1);
                self.cursor = headers.len().saturating_sub(1);
            },
            DashboardEvent::ScrollUp => {
                self.scroll_offset = self.scroll_offset.saturating_sub(3);
            },
            DashboardEvent::ScrollDown => {
                self.scroll_offset = self.scroll_offset.saturating_add(3);
            },
            DashboardEvent::Other => {},
        }
        false
    }
}


/// A key of the keyboard, as the dashboard tells them apart.
#[derive(Debug, Clone, Copy, PartialEq, Eq)]
pub enum KeyCode {
    Char(char),
    Up,
    Down,
    Enter,
    Esc,
    PageUp,
    PageDown,
    Home,
    End,
    Other,
}

/// An input event of the terminal: a key (pressed, or released or repeated),
/// the mouse wheel, a resize, or anything else.
#[derive(Debug, Clone, Copy, PartialEq, Eq)]
pub enum InputEvent {
    Key { code: KeyCode, press: bool },
    ScrollUp,
    ScrollDown,
    Resize,
    Other,
}

/// The dashboard event of an input: `q`/Esc quit, Up/`k` and Down/`j` move,
/// Enter/space toggle, `c` and `e` collapse and expand all, the paging keys
/// page, and the wheel scrolls; only key presses count. `term_height` is the
/// terminal's height when the input came.
pub open spec fn spec_event_for(input: InputEvent, term_height: u16) -> DashboardEvent {
    match input {
        InputEvent::Key { code, press } => if !press {
            DashboardEvent::Other
        } else {
            match code {
                KeyCode::Char(c) => if c == 'q' {
                    DashboardEvent::Quit
                } else if c == 'k' {
                    DashboardEvent::Up
                } else if c == 'j' {
                    DashboardEvent::Down { term_height }
                } else if c == ' ' {
                    DashboardEvent::Toggle
                } else if c == 'c' {
                    DashboardEvent::CollapseAll
                } else if c == 'e' {
                    DashboardEvent::ExpandAll
                } else {
                    DashboardEvent::Other
                },
                KeyCode::Esc => DashboardEvent::Quit,
                KeyCode::Up => DashboardEvent::Up,
                KeyCode::Down => DashboardEvent::Down { term_height },
                KeyCode::Enter => DashboardEvent::Toggle,
                KeyCode::PageUp => DashboardEvent::PageUp,
                KeyCode::PageDown => DashboardEvent::PageDown,
                KeyCode::Home => DashboardEvent::Home,
                KeyCode::End => DashboardEvent::End,
                KeyCode::Other => DashboardEvent::Other,
            }
        },
        InputEvent::ScrollUp => DashboardEvent::ScrollUp,
        InputEvent::ScrollDown => DashboardEvent::ScrollDown,
        _ => DashboardEvent::Other,
    }
}

/// The dashboard event that an input stands for.
pub fn event_for(input: &InputEvent, term_height: u16) -> (e: DashboardEvent)
    ensures
        e == spec_event_for(*input, term_height),
{
    match input {
        InputEvent::Key { code, press } => {
            if !*press {
                return DashboardEvent::Other;
            }
            match code {
                KeyCode::Char(c) => {
                    let c = *c;
                    if c == 'q' {
                        DashboardEvent::Quit
                    } else if c == 'k' {
                        DashboardEvent::Up
                    } else if c == 'j' {
                        DashboardEvent::Down { term_height }
                    } else if c == ' ' {
                        DashboardEvent::Toggle
                    } else if c == 'c' {
                        DashboardEvent::CollapseAll
                    } else if c == 'e' {
                        DashboardEvent::ExpandAll
                    } else {
                        DashboardEvent::Other
                    }
                },
                KeyCode::Esc => DashboardEvent::Quit,
                KeyCode::Up => DashboardEvent::Up,
                KeyCode::Down => DashboardEvent::Down { term_height },
                KeyCode::Enter => DashboardEvent::Toggle,
                KeyCode::PageUp => DashboardEvent::PageUp,
                KeyCode::PageDown => DashboardEvent::PageDown,
                KeyCode::Home => DashboardEvent::Home,
                KeyCode::End => DashboardEvent::End,
                KeyCode::Other => DashboardEvent::Other,
            }
        },
        InputEvent::ScrollUp => DashboardEvent::ScrollUp,
        InputEvent::ScrollDown => DashboardEvent::ScrollDown,
        _ => DashboardEvent::Other,
    }
}

/// The top line: sensor and group counts, the elapsed time, and a hint to run
/// as root when the process is not.
pub open spec fn spec_title(
    sensor_count: nat,
    group_count: nat,
    collapsed_count: nat,
    elapsed: Seq<char>,
    is_root: bool,
) -> Seq<char> {
    " sinfo \u{2014} Sensor Monitor | "@ + text::decimal(sensor_count) + " sensors | "@ + text::decimal(
        group_count,
    ) + " groups ("@ + text::decimal(collapsed_count) + " collapsed) | "@ + elapsed + if is_root {
        ""@
    } else {
        " | \u{26a0} run as root for SMART, DMI serials, MSR"@
    }
}

/// The top line of the dashboard.
pub fn title(
    sensor_count: usize,
    group_count: usize,
    collapsed_count: usize,
    elapsed: &str,
    is_root: bool,
) -> (t: String)
    ensures
        t@ == spec_title(
            sensor_count as nat,
            group_count as nat,
            collapsed_count as nat,
            elapsed@,
            is_root,
        ),
{
    let mut t = String::new();
    push_text(&mut t, " sinfo \u{2014} Sensor Monitor | ");
    push_decimal(&mut t, sensor_count as u64);
    push_text(&mut t, " sensors | ");
    push_decimal(&mut t, group_count as u64);
    push_text(&mut t, " groups (");
    push_decimal(&mut t, collapsed_count as u64);
    push_text(&mut t, " collapsed) | ");
    push_text(&mut t, elapsed);
    if is_root {
        push_text(&mut t, "");
    } else {
        push_text(&mut t, " | \u{26a0} run as root for SMART, DMI serials, MSR");
    }
    assert(t@ =~= spec_title(
        sensor_count as nat,
        group_count as nat,
        collapsed_count as nat,
        elapsed@,
        is_root,
    ));
    t
}

/// The texts of `parts` joined by `sep`.
pub open spec fn joined(parts: Seq<Seq<char>>, sep: Seq<char>) -> Seq<char>
    decreases parts.len(),
{
    if parts.len() == 0 {
        Seq::empty()
    } else if parts.len() == 1 {
        parts[0]
    } else {
        joined(parts.drop_last(), sep) + sep + parts.last()
    }
}

/// The bottom line: the key help, or the active alerts, then the sensor count
/// and the largest sample count.
pub open spec fn spec_status_line(alerts: Seq<Seq<char>>, sensor_count: nat, max_samples: nat) -> Seq<char> {
    if alerts.len() == 0 {
        " q: quit | \u{2191}\u{2193}: navigate | Enter: toggle | c/e: collapse/expand | Sensors: "@
            + text::decimal(sensor_count) + " | Samples: "@ + text::decimal(max_samples)
    } else {
        " \u{26a0} "@ + joined(alerts, " | "@) + " | "@ + "Sensors: "@ + text::decimal(sensor_count)
            + " | Samples: "@ + text::decimal(max_samples)
    }
}

/// The bottom line of the dashboard.
pub fn status_line(alerts: &Vec<String>, sensor_count: usize, max_samples: u64) -> (s: String)
    ensures
        s@ == spec_status_line(
            alerts@.map_values(|a: String| a@),
            sensor_count as nat,
            max_samples as nat,
        ),
{
    let ghost parts = alerts@.map_values(|a: String| a@);
    let mut s = String::new();
    if alerts.len() == 0 {
        push_text(
            &mut s,
            " q: quit | \u{2191}\u{2193}: navigate | Enter: toggle | c/e: collapse/expand | Sensors: ",
        );
    } else {
        push_text(&mut s, " \u{26a0} ");
        let ghost start = s@;
        for i in 0..alerts.len()
            invariant
                parts == alerts@.map_values(|a: String| a@),
                alerts@.len() > 0,
                s@ == start + joined(parts.take(i as int), " | "@),
        {
            let ghost before = s@;
            if i > 0 {
                push_text(&mut s, " | ");
            }
            let a = chars_of(alerts[i].as_str());
            push_chars(&mut s, a.as_slice());
            proof {
                let t = parts.take(i + 1);
                assert(t.drop_last() =~= parts.take(i as int));
                assert(t.last() == alerts@[i as int]@);
                if i == 0 {
                    assert(parts.take(0) =~= Seq::<Seq<char>>::empty());
                    assert(s@ =~= start + joined(t, " | "@));
                } else {
                    assert(s@ =~= start + joined(t, " | "@));
                }
            }
        }
        assert(parts.take(alerts@.len() as int) =~= parts);
        push_text(&mut s, " | ");
        push_text(&mut s, "Sensors: ");
    }
    push_decimal(&mut s, sensor_count as u64);
    push_text(&mut s, " | Samples: ");
    push_decimal(&mut s, max_samples);
    assert(s@ =~= spec_status_line(parts, sensor_count as nat, max_samples as nat));
    s
}

/// The header row text of a group: an arrow (right when folded, down when
/// open), the group key, and its sensor count.
pub open spec fn spec_group_header(key: Seq<char>, count: nat, folded: bool) -> Seq<char> {
    " "@ + (if folded {
        "\u{25b6}"@
    } else {
        "\u{25bc}"@
    }) + " "@ + key + " ("@ + text::decimal(count) + " sensor"@ + (if count == 1 {
        ""@
    } else {
        "s"@
    }) + ")"@
}

/// The header row text of a group.
pub fn group_header(key: &str, count: usize, folded: bool) -> (h: String)
    ensures
        h@ == spec_group_header(key@, count as nat, folded),
{
    let mut h = String::new();
    push_text(&mut h, " ");
    if folded {
        push_text(&mut h, "\u{25b6}");
    } else {
        push_text(&mut h, "\u{25bc}");
    }
    push_text(&mut h, " ");
    push_text(&mut h, key);
    push_text(&mut h, " (");
    push_decimal(&mut h, count as u64);
    push_text(&mut h, " sensor");
    if count == 1 {
        push_text(&mut h, "");
    } else {
        push_text(&mut h, "s");
    }
    push_text(&mut h, ")");
    assert(h@ =~= spec_group_header(key@, count as nat, folded));
    h
}

} // verus!
