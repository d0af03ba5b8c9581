//! The CSV sensor log: its columns, its header cells and the cell each sensor
//! fills. Writing the file, the timestamp and the numbers stays with the
//! caller.

use vstd::prelude::*;
use crate::model::sensor::{copy_id, find_id, id_view, id_views, SensorId};
use crate::sort::{in_stable_order, sort_by_key, sorted_by_key};
use crate::text::{chars_of, push_chars, string_from};

verus! {

/// A sensor of the snapshot that a row is written from: its identity, its
/// label and the text of its unit.
pub struct CsvSensor {
    pub id: SensorId,
    pub label: String,
    pub unit: String,
}

/// The identities of the sensors of a snapshot.
pub open spec fn snapshot_ids(s: Seq<CsvSensor>) -> Seq<SensorId> {
    Seq::new(s.len(), |i: int| s[i].id)
}

/// The header cell of a sensor: `label [unit]`.
pub open spec fn caption(s: CsvSensor) -> Seq<char> {
    s.label@ + " ["@ + s.unit@ + "]"@
}

/// One row of the log: the header that goes out before it (on the first row
/// only), and for each column the position of its sensor in the snapshot, or
/// `None` for a sensor that has gone, whose cell stays empty.
pub struct CsvRow {
    pub header: Option<Vec<String>>,
    pub cells: Vec<Option<usize>>,
}

/// The column order of a CSV sensor log, fixed by the first row.
pub struct CsvLogger {
    columns: Vec<SensorId>,
    initialized: bool,
}

/// The header cell of `s`.
fn caption_of(s: &CsvSensor) -> (c: String)
    ensures
        c@ == caption(*s),
{
    let mut c = s.label.clone();
    let open = chars_of(" [");
    push_chars(&mut c, open.as_slice());
    let unit = chars_of(s.unit.as_str());
    push_chars(&mut c, unit.as_slice());
    let close = chars_of("]");
    push_chars(&mut c, close.as_slice());
    c
}

impl CsvLogger {
    /// The sensors of the columns, in column order.
    pub closed spec fn spec_columns(self) -> Seq<SensorId> {
        self.columns@
    }

    /// Whether the header has been written.
    pub closed spec fn spec_initialized(self) -> bool {
        self.initialized
    }

    /// A log with no row yet.
    pub fn new() -> (l: Self)
        ensures
            l.spec_columns() == Seq::<SensorId>::empty(),
            !l.spec_initialized(),
    {
        CsvLogger { columns: Vec::new(), initialized: false }
    }

    /// The sensors of the columns, in column order.
    pub fn columns(&self) -> (c: &Vec<SensorId>)
        ensures
            c@ == self.spec_columns(),
    {
        &self.columns
    }

    /// Plans the row for the sensors of `snapshot`. The first row fixes the
    /// columns: the snapshot's sensors sorted by source, chip and sensor; its
    /// header is `timestamp` followed by each column's `label [unit]`. Later
    /// rows keep those columns and have no header: a sensor that appeared since
    /// has no column, and a sensor that has gone leaves its cell empty.
    pub fn write_row(&mut self, snapshot: &Vec<CsvSensor>) -> (row: CsvRow)
        ensures
            row.header is Some == !old(self).spec_initialized(),
            final(self).spec_initialized(),
            old(self).spec_initialized() ==> final(self).spec_columns() == old(self).spec_columns(),
            !old(self).spec_initialized() ==> sorted_by_key(final(self).spec_columns())
                && final(self).spec_columns().to_multiset() == snapshot_ids(snapshot@).to_multiset()
                && in_stable_order(final(self).spec_columns(), snapshot_ids(snapshot@)),
            row.cells@.len() == final(self).spec_columns().len(),
            forall|c: int|
                0 <= c < row.cells@.len() ==> match #[trigger] row.cells@[c] {
                    Some(j) => j < snapshot@.len() && id_view(snapshot@[j as int].id) == id_view(
                        final(self).spec_columns()[c],
                    ),
                    None => !id_views(snapshot_ids(snapshot@)).contains(
                        id_view(final(self).spec_columns()[c]),
                    ),
                },
            match row.header {
                Some(h) => {
                    &&& h@.len() == row.cells@.len() + 1
                    &&& h@[0]@ == "timestamp"@
                    &&& forall|c: int|
                        0 <= c < row.cells@.len() ==> (#[trigger] row.cells@[c] matches Some(j)
                            && h@[c + 1]@ == caption(snapshot@[j as int]))
                },
                None => true,
            },
    {
        let mut ids: Vec<SensorId> = Vec::new();
        for i in 0..snapshot.len()
            invariant
                ids@ == snapshot_ids(snapshot@).take(i as int),
        {
            ids.push(copy_id(&snapshot[i].id));
            assert(ids@ =~= snapshot_ids(snapshot@).take(i + 1));
        }
        assert(ids@ =~= snapshot_ids(snapshot@));
        let first = !self.initialized;
        if first {
            let mut copies: Vec<SensorId> = Vec::new();
            for i in 0..ids.len()
                invariant
                    copies@ == ids@.take(i as int),
            {
                copies.push(copy_id(&ids[i]));
                assert(copies@ =~= ids@.take(i + 1));
            }
            assert(copies@ =~= ids@);
            self.columns = sort_by_key(copies);
            self.initialized = true;
        }
        let mut cells: Vec<Option<usize>> = Vec::new();
        for c in 0..self.columns.len()
            invariant
                ids@ == snapshot_ids(snapshot@),
                cells@.len() == c,
                forall|k: int|
                    0 <= k < c ==> match #[trigger] cells@[k] {
                        Some(j) => j < snapshot@.len() && id_view(snapshot@[j as int].id) == id_view(
                            self.columns@[k],
                        ),
                        None => !id_views(snapshot_ids(snapshot@)).contains(id_view(self.columns@[k])),
                    },
        {
            let slot = find_id(&ids, &self.columns[c]);
            proof {
                if let Some(j) = slot {
                    assert(id_views(ids@)[j as int] == id_view(ids@[j as int]));
                }
            }
            cells.push(slot);
        }
        let header = if first {
            let mut h: Vec<String> = Vec::new();
            let ts = chars_of("timestamp");
            h.push(string_from(ts.as_slice()));
            for c in 0..cells.len()
                invariant
                    h@.len() == c + 1,
                    h@[0]@ == "timestamp"@,
                    cells@.len() == self.columns@.len(),
                    sorted_by_key(self.columns@),
                    self.columns@.to_multiset() == snapshot_ids(snapshot@).to_multiset(),
                    forall|k: int|
                        0 <= k < cells@.len() ==> match #[trigger] cells@[k] {
                            Some(j) => j < snapshot@.len() && id_view(snapshot@[j as int].id) == id_view(
                                self.columns@[k],
                            ),
                            None => !id_views(snapshot_ids(snapshot@)).contains(
                                id_view(self.columns@[k]),
                            ),
                        },
                    forall|k: int|
                        0 <= k < c ==> (#[trigger] cells@[k] matches Some(j) && h@[k + 1]@ == caption(
                            snapshot@[j as int],
                        )),
            {
                proof {
                    let col = self.columns@[c as int];
                    let sids = snapshot_ids(snapshot@);
                    broadcast use vstd::seq_lib::to_multiset_contains;
                    assert(self.columns@.contains(col));
                    assert(self.columns@.to_multiset().count(col) > 0);
                    assert(sids.to_multiset().count(col) > 0);
                    assert(sids.contains(col));
                    let q = choose|q: int| 0 <= q < sids.len() && sids[q] == col;
                    assert(id_views(sids)[q] == id_view(col));
                }
                match cells[c] {
                    Some(j) => {
                        h.push(caption_of(&snapshot[j]));
                    },
                    None => {
                        assert(false);
                    },
                }
            }
            Some(h)
        } else {
            None
        };
        CsvRow { header, cells }
    }
}

} // verus!
