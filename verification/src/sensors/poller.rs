//! The table of latest readings that the poller keeps for every sensor, and
//! the poller's settings. The polling thread, its sleep and the lock round the
//! table stay with the caller.

use vstd::prelude::*;
use crate::model::sensor::{find_id, id_view, id_views, SensorId};
use crate::sensors::cpu_freq::FreqReading;
use crate::sensors::cpu_util::UtilReading;
use crate::sensors::network_stats::NetReading;
use crate::sensors::superio::nct67xx::NctReading;
use crate::strmap::StrMap;

verus! {

/// No identity occurs twice in `ks`.
pub open spec fn all_distinct(ks: Seq<(Seq<char>, Seq<char>, Seq<char>)>) -> bool {
    forall|i: int, j: int| 0 <= i < j < ks.len() ==> ks[i] != ks[j]
}

/// The sensors that a batch adds to a table that already holds `known`: each
/// sensor of the batch that the table lacks, once, in the order of the batch.
pub open spec fn added_ids(
    known: Seq<(Seq<char>, Seq<char>, Seq<char>)>,
    batch: Seq<(Seq<char>, Seq<char>, Seq<char>)>,
) -> Seq<(Seq<char>, Seq<char>, Seq<char>)>
    decreases batch.len(),
{
    if batch.len() == 0 {
        Seq::empty()
    } else {
        let a = added_ids(known, batch.drop_last());
        if known.contains(batch.last()) || a.contains(batch.last()) {
            a
        } else {
            a.push(batch.last())
        }
    }
}

/// A reading that a newer reading of the same sensor refreshes in place
/// (its current value, and whatever it keeps of the values before).
pub trait Refresh: Sized {
    /// The reading that `self` becomes when `newer` refreshes it.
    spec fn refreshed(self, newer: Self) -> Self;

    fn refresh(&mut self, newer: Self)
        ensures
            *final(self) == old(self).refreshed(newer),
    ;
}

/// A newer frequency reading replaces the older one.
impl Refresh for FreqReading {
    open spec fn refreshed(self, newer: Self) -> Self {
        newer
    }

    fn refresh(&mut self, newer: Self) {
        *self = newer;
    }
}

/// A newer utilization reading replaces the older one.
impl Refresh for UtilReading {
    open spec fn refreshed(self, newer: Self) -> Self {
        newer
    }

    fn refresh(&mut self, newer: Self) {
        *self = newer;
    }
}

/// A newer throughput reading replaces the older one.
impl Refresh for NetReading {
    open spec fn refreshed(self, newer: Self) -> Self {
        newer
    }

    fn refresh(&mut self, newer: Self) {
        *self = newer;
    }
}

/// A newer hardware monitor reading replaces the older one.
impl Refresh for NctReading {
    open spec fn refreshed(self, newer: Self) -> Self {
        newer
    }

    fn refresh(&mut self, newer: Self) {
        *self = newer;
    }
}

/// Any reading kept as the latest one: a newer reading replaces it.
pub struct LatestReading<T> {
    pub reading: T,
}

impl<T> Refresh for LatestReading<T> {
    open spec fn refreshed(self, newer: Self) -> Self {
        newer
    }

    fn refresh(&mut self, newer: Self) {
        *self = newer;
    }
}

/// The latest reading of every sensor seen so far, one entry per sensor.
pub struct SensorState<R> {
    ids: Vec<SensorId>,
    readings: Vec<R>,
}

impl<R> SensorState<R> {
    #[verifier::type_invariant]
    closed spec fn inv(self) -> bool {
        &&& self.ids@.len() == self.readings@.len()
        &&& all_distinct(id_views(self.ids@))
    }

    /// The sensors of the table, in the order in which they were first seen.
    pub closed spec fn sensors(self) -> Seq<(Seq<char>, Seq<char>, Seq<char>)> {
        id_views(self.ids@)
    }

    /// The reading held for the `i`-th sensor.
    pub closed spec fn reading(self, i: int) -> R {
        self.readings@[i]
    }

    /// Number of sensors in the table.
    pub fn len(&self) -> (n: usize)
        ensures
            n == self.sensors().len(),
            all_distinct(self.sensors()),
    {
        proof {
            use_type_invariant(self);
        }
        self.ids.len()
    }

    /// The sensor at position `i` and its reading.
    pub fn entry(&self, i: usize) -> (r: (&SensorId, &R))
        requires
            i < self.sensors().len(),
        ensures
            id_view(*r.0) == self.sensors()[i as int],
            *r.1 == self.reading(i as int),
    {
        proof {
            use_type_invariant(self);
        }
        (&self.ids[i], &self.readings[i])
    }

    /// Stores `reading` for the sensor `id`, replacing the reading it had.
    pub fn insert(&mut self, id: SensorId, reading: R)
        ensures
            final(self).sensors() == (if old(self).sensors().contains(id_view(id)) {
                old(self).sensors()
            } else {
                old(self).sensors().push(id_view(id))
            }),
            forall|p: int|
                0 <= p < final(self).sensors().len() ==> #[trigger] final(self).reading(p) == (if final(self).sensors()[p]
                    == id_view(id) {
                    reading
                } else {
                    old(self).reading(p)
                }),
    {
        proof {
            use_type_invariant(&*self);
        }
        let mut taken = new_state();
        core::mem::swap(self, &mut taken);
        let SensorState { ids: mut ids, readings: mut readings } = taken;
        let ghost before = id_views(ids@);
        match find_id(&ids, &id) {
            Some(p) => {
                readings.set(p, reading);
                proof {
                    assert forall|q: int| 0 <= q < ids@.len() && q != p implies id_views(ids@)[q]
                        != id_view(id) by {
                        assert(id_views(ids@)[q] != id_views(ids@)[p as int]);
                    }
                    assert(before.contains(id_view(id))) by {
                        assert(before[p as int] == id_view(id));
                    }
                }
            },
            None => {
                ids.push(id);
                readings.push(reading);
                proof {
                    assert(id_views(ids@) =~= before.push(id_view(id)));
                }
            },
        }
        *self = SensorState { ids, readings };
    }
}

/// An empty table of readings.
pub fn new_state<R>() -> (s: SensorState<R>)
    ensures
        s.sensors() == Seq::<(Seq<char>, Seq<char>, Seq<char>)>::empty(),
{
    SensorState { ids: Vec::new(), readings: Vec::new() }
}

pub proof fn lemma_added_ids_contains(
    known: Seq<(Seq<char>, Seq<char>, Seq<char>)>,
    batch: Seq<(Seq<char>, Seq<char>, Seq<char>)>,
    x: (Seq<char>, Seq<char>, Seq<char>),
)
    ensures
        added_ids(known, batch).contains(x) <==> (batch.contains(x) && !known.contains(x)),
        all_distinct(added_ids(known, batch)),
        forall|y| #[trigger] added_ids(known, batch).contains(y) ==> !known.contains(y),
    decreases batch.len(),
{
    if batch.len() > 0 {
        let a = added_ids(known, batch.drop_last());
        lemma_added_ids_contains(known, batch.drop_last(), x);
        lemma_added_ids_contains(known, batch.drop_last(), batch.last());
        assert forall|y| #[trigger] batch.contains(y) <==> (batch.drop_last().contains(y) || y == batch.last()) by {
            if batch.contains(y) {
                let j = choose|j: int| 0 <= j < batch.len() && batch[j] == y;
                if j < batch.len() - 1 {
                    assert(batch.drop_last()[j] == y);
                }
            }
            if batch.drop_last().contains(y) {
                let j = choose|j: int| 0 <= j < batch.len() - 1 && batch.drop_last()[j] == y;
                assert(batch[j] == y);
            }
            if y == batch.last() {
                assert(batch[batch.len() - 1] == y);
            }
        }
        if !(known.contains(batch.last()) || a.contains(batch.last())) {
            let e = a.push(batch.last());
            assert forall|y| #[trigger] e.contains(y) <==> (a.contains(y) || y == batch.last()) by {
                if e.contains(y) {
                    let j = choose|j: int| 0 <= j < e.len() && e[j] == y;
                    if j < a.len() {
                        assert(a[j] == y);
                    }
                }
                if a.contains(y) {
                    let j = choose|j: int| 0 <= j < a.len() && a[j] == y;
                    assert(e[j] == y);
                }
                if y == batch.last() {
                    assert(e[a.len() as int] == y);
                }
            }
            assert forall|i: int, j: int| 0 <= i < j < e.len() implies e[i] != e[j] by {
                if j == a.len() {
                    assert(a.contains(e[i]));
                }
            }
        }
    }
}

/// The reading that a table holding `init` for the sensor `key` (or nothing,
/// for `None`) holds for it after taking in `batch`: each entry of the batch
/// for that sensor in turn is stored if the sensor has no reading yet, and
/// refreshes the reading otherwise.
pub open spec fn merged<R: Refresh>(init: Option<R>, key: (Seq<char>, Seq<char>, Seq<char>), batch: Seq<(SensorId, R)>) -> Option<R>
    decreases batch.len(),
{
    if batch.len() == 0 {
        init
    } else {
        let before = merged(init, key, batch.drop_last());
        if id_view(batch.last().0) == key {
            match before {
                Some(r) => Some(r.refreshed(batch.last().1)),
                None => Some(batch.last().1),
            }
        } else {
            before
        }
    }
}

/// The identities of the entries of a batch.
pub open spec fn batch_ids<R>(batch: Seq<(SensorId, R)>) -> Seq<(Seq<char>, Seq<char>, Seq<char>)> {
    Seq::new(batch.len(), |i: int| id_view(batch[i].0))
}

pub proof fn lemma_merged_untouched<R: Refresh>(
    init: Option<R>,
    key: (Seq<char>, Seq<char>, Seq<char>),
    batch: Seq<(SensorId, R)>,
)
    requires
        !batch_ids(batch).contains(key),
    ensures
        merged(init, key, batch) == init,
    decreases batch.len(),
{
    if batch.len() > 0 {
        assert(batch_ids(batch.drop_last()).contains(key) ==> batch_ids(batch).contains(key)) by {
            if batch_ids(batch.drop_last()).contains(key) {
                let j = choose|j: int| 0 <= j < batch.len() - 1 && batch_ids(batch.drop_last())[j] == key;
                assert(batch_ids(batch)[j] == key);
            }
        }
        assert(batch_ids(batch)[batch.len() - 1] == id_view(batch.last().0));
        lemma_merged_untouched(init, key, batch.drop_last());
    }
}

impl<R: Refresh> SensorState<R> {
    /// The reading that position `p` held before a merge, if it existed.
    pub open spec fn reading_before(self, p: int) -> Option<R> {
        if p < self.sensors().len() {
            Some(self.reading(p))
        } else {
            None
        }
    }

    /// Takes in one poll's readings, in order: a sensor the table holds has its
    /// reading refreshed by the new one, any other sensor is added with its
    /// reading (and refreshed by any later entry for it in the same batch).
    pub fn merge(&mut self, batch: Vec<(SensorId, R)>)
        ensures
            final(self).sensors() == old(self).sensors() + added_ids(old(self).sensors(), batch_ids(batch@)),
            forall|p: int|
                0 <= p < final(self).sensors().len() ==> Some(#[trigger] final(self).reading(p))
                    == merged(old(self).reading_before(p), final(self).sensors()[p], batch@),
    {
        proof {
            use_type_invariant(&*self);
        }
        let ghost old_ks = self.sensors();
        let ghost old_self = *self;
        let ghost bs = batch@;
        let ghost bk = batch_ids(batch@);
        let mut taken = new_state();
        core::mem::swap(self, &mut taken);
        let SensorState { ids: mut ids, readings: mut readings } = taken;
        assert(bs.take(0) =~= Seq::<(SensorId, R)>::empty());
        assert(bk.take(0) =~= Seq::<(Seq<char>, Seq<char>, Seq<char>)>::empty());
        for item in it: batch.into_iter()
            invariant
                it.seq() == bs,
                bk == batch_ids(bs),
                ids@.len() == readings@.len(),
                all_distinct(id_views(ids@)),
                id_views(ids@) == old_ks + added_ids(old_ks, bk.take(it.index() as int)),
                old_ks == old_self.sensors(),
                forall|p: int|
                    0 <= p < ids@.len() ==> Some(#[trigger] readings@[p]) == merged(
                        old_self.reading_before(p),
                        id_views(ids@)[p],
                        bs.take(it.index() as int),
                    ),
        {
            let ghost i = it.index();
            let ghost before_ids = ids@;
            let ghost before_readings = readings@;
            let (id, reading) = item;
            let ghost t1 = bs.take(i + 1);
            let ghost t0 = bs.take(i as int);
            proof {
                assert(bk[i] == id_view(bs[i].0));
                assert(t1.drop_last() =~= t0);
                assert(t1.last() == bs[i]);
                assert(bk.take(i + 1) =~= bk.take(i).push(bk[i]));
                assert(batch_ids(t0) =~= bk.take(i as int));
                lemma_added_ids_contains(old_ks, bk.take(i as int), bk[i]);
            }
            let found = find_id(&ids, &id);
            match found {
                Some(p) => {
                    proof {
                        let a = added_ids(old_ks, bk.take(i as int));
                        assert(id_views(ids@)[p as int] == bk[i]);
                        assert((old_ks + a)[p as int] == bk[i]);
                        let q = p as int;
                        assert((old_ks + a).len() == ids@.len());
                        if q < old_ks.len() {
                            assert((old_ks + a)[q] == old_ks[q]);
                            assert(old_ks.contains(bk[i]));
                        } else {
                            assert((old_ks + a)[q] == a[q - old_ks.len()]);
                            assert(a.contains(bk[i]));
                        }
                        assert(bk.take(i + 1).drop_last() =~= bk.take(i as int));
                    }
                    readings[p].refresh(reading);
                    proof {
                        assert forall|q: int| 0 <= q < ids@.len() implies Some(#[trigger] readings@[q])
                            == merged(old_self.reading_before(q), id_views(ids@)[q], t1) by {
                            if q != p {
                                assert(id_views(ids@)[q] != id_views(ids@)[p as int]);
                                assert(readings@[q] == before_readings[q]);
                            }
                        }
                    }
                },
                None => {
                    proof {
                        assert(!old_ks.contains(bk[i])) by {
                            if old_ks.contains(bk[i]) {
                                let q = choose|q: int| 0 <= q < old_ks.len() && old_ks[q] == bk[i];
                                assert(id_views(ids@)[q] == bk[i]);
                            }
                        }
                        assert(!added_ids(old_ks, bk.take(i as int)).contains(bk[i])) by {
                            let a = added_ids(old_ks, bk.take(i as int));
                            if a.contains(bk[i]) {
                                let q = choose|q: int| 0 <= q < a.len() && a[q] == bk[i];
                                assert(id_views(ids@)[old_ks.len() + q] == bk[i]);
                            }
                        }
                        assert(bk.take(i + 1).drop_last() =~= bk.take(i as int));
                        assert(bk.take(i + 1).last() == bk[i]);
                        assert(!batch_ids(t0).contains(bk[i]));
                        lemma_merged_untouched(None, bk[i], t0);
                        assert(ids@.len() >= old_ks.len());
                    }
                    ids.push(id);
                    readings.push(reading);
                    proof {
                        assert(id_views(ids@) =~= id_views(before_ids).push(bk[i]));
                        assert forall|q: int| 0 <= q < ids@.len() implies Some(#[trigger] readings@[q])
                            == merged(old_self.reading_before(q), id_views(ids@)[q], t1) by {
                            if q < before_ids.len() {
                                assert(id_views(ids@)[q] == id_views(before_ids)[q]);
                                assert(id_views(before_ids)[q] != bk[i]);
                                assert(readings@[q] == before_readings[q]);
                            } else {
                                assert(id_views(ids@)[q] == bk[i]);
                                assert(q >= old_ks.len());
                            }
                        }
                    }
                },
            }
        }
        proof {
            assert(bk.take(bs.len() as int) =~= bk);
            assert(bs.take(bs.len() as int) =~= bs);
        }
        *self = SensorState { ids, readings };
    }
}

/// The last reading that `batch` holds for the sensor `key`, if any.
pub open spec fn last_for<R>(key: (Seq<char>, Seq<char>, Seq<char>), batch: Seq<(SensorId, R)>) -> Option<R>
    decreases batch.len(),
{
    if batch.len() == 0 {
        None
    } else if id_view(batch.last().0) == key {
        Some(batch.last().1)
    } else {
        last_for(key, batch.drop_last())
    }
}

proof fn lemma_merged_replacing<R: Refresh>(
    init: Option<R>,
    key: (Seq<char>, Seq<char>, Seq<char>),
    batch: Seq<(SensorId, R)>,
)
    requires
        forall|a: R, b: R| #[trigger] a.refreshed(b) == b,
    ensures
        merged(init, key, batch) == match last_for(key, batch) {
            Some(r) => Some(r),
            None => init,
        },
    decreases batch.len(),
{
    if batch.len() > 0 {
        lemma_merged_replacing(init, key, batch.drop_last());
        if id_view(batch.last().0) == key {
            let before = merged(init, key, batch.drop_last());
            if before is Some {
                assert(before->0.refreshed(batch.last().1) == batch.last().1);
            }
        }
    }
}

/// In a table of frequency readings, a merge leaves each sensor that the batch
/// reports with the last reading the batch holds for it, and every other
/// sensor with the reading it had.
pub proof fn lemma_freq_table_keeps_newest(
    init: Option<FreqReading>,
    key: (Seq<char>, Seq<char>, Seq<char>),
    batch: Seq<(SensorId, FreqReading)>,
)
    ensures
        merged(init, key, batch) == match last_for(key, batch) {
            Some(r) => Some(r),
            None => init,
        },
{
    assert forall|a: FreqReading, b: FreqReading| #[trigger] a.refreshed(b) == b by {}
    lemma_merged_replacing(init, key, batch);
}

/// In a table of utilization readings, a merge leaves each sensor that the batch
/// reports with the last reading the batch holds for it, and every other
/// sensor with the reading it had.
pub proof fn lemma_util_table_keeps_newest(
    init: Option<UtilReading>,
    key: (Seq<char>, Seq<char>, Seq<char>),
    batch: Seq<(SensorId, UtilReading)>,
)
    ensures
        merged(init, key, batch) == match last_for(key, batch) {
            Some(r) => Some(r),
            None => init,
        },
{
    assert forall|a: UtilReading, b: UtilReading| #[trigger] a.refreshed(b) == b by {}
    lemma_merged_replacing(init, key, batch);
}

/// In a table of throughput readings, a merge leaves each sensor that the batch
/// reports with the last reading the batch holds for it, and every other
/// sensor with the reading it had.
pub proof fn lemma_net_table_keeps_newest(
    init: Option<NetReading>,
    key: (Seq<char>, Seq<char>, Seq<char>),
    batch: Seq<(SensorId, NetReading)>,
)
    ensures
        merged(init, key, batch) == match last_for(key, batch) {
            Some(r) => Some(r),
            None => init,
        },
{
    assert forall|a: NetReading, b: NetReading| #[trigger] a.refreshed(b) == b by {}
    lemma_merged_replacing(init, key, batch);
}

/// In a table of hardware monitor readings, a merge leaves each sensor that the batch
/// reports with the last reading the batch holds for it, and every other
/// sensor with the reading it had.
pub proof fn lemma_nct_table_keeps_newest(
    init: Option<NctReading>,
    key: (Seq<char>, Seq<char>, Seq<char>),
    batch: Seq<(SensorId, NctReading)>,
)
    ensures
        merged(init, key, batch) == match last_for(key, batch) {
            Some(r) => Some(r),
            None => init,
        },
{
    assert forall|a: NctReading, b: NctReading| #[trigger] a.refreshed(b) == b by {}
    lemma_merged_replacing(init, key, batch);
}

/// In a table of latest readings, a merge leaves each sensor that the batch
/// reports with the last reading the batch holds for it, and every other
/// sensor with the reading it had.
pub proof fn lemma_latest_table_keeps_newest<T>(
    init: Option<LatestReading<T>>,
    key: (Seq<char>, Seq<char>, Seq<char>),
    batch: Seq<(SensorId, LatestReading<T>)>,
)
    ensures
        merged(init, key, batch) == match last_for(key, batch) {
            Some(r) => Some(r),
            None => init,
        },
{
    assert forall|a: LatestReading<T>, b: LatestReading<T>| #[trigger] a.refreshed(b) == b by {}
    lemma_merged_replacing(init, key, batch);
}

/// The settings of the background poller and the table it fills.
pub struct Poller<S> {
    pub state: S,
    pub interval_ms: u64,
    pub no_nvidia: bool,
    pub label_overrides: StrMap<String>,
}

impl<S> Poller<S> {
    /// A poller that fills `state` every `interval_ms` milliseconds, skipping
    /// NVIDIA GPUs when `no_nvidia` is set, and naming sensors by
    /// `label_overrides` where it has a label for them.
    pub fn new(state: S, interval_ms: u64, no_nvidia: bool, label_overrides: StrMap<String>) -> (p:
        Self)
        ensures
            p.state == state,
            p.interval_ms == interval_ms,
            p.no_nvidia == no_nvidia,
            p.label_overrides@ == label_overrides@,
    {
        Poller { state, interval_ms, no_nvidia, label_overrides }
    }
}

} // verus!
