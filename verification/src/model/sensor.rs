//! Sensor identity and units, as the sensor sources and the dashboard use them.

use vstd::prelude::*;
use crate::sort::SortKey;
use crate::text;
use crate::text::{chars_of, lex_le};

verus! {

/// Identity of one sensor: the source that reads it, the chip, and the sensor
/// on that chip.
#[derive(Debug, Clone, PartialEq, Eq, Hash)]
pub struct SensorId {
    pub source: String,
    pub chip: String,
    pub sensor: String,
}

/// Unit of a sensor value.
#[derive(Debug, Clone, Copy, PartialEq, Eq)]
pub enum SensorUnit {
    Celsius,
    Volts,
    Millivolts,
    Watts,
    Milliwatts,
    Amps,
    Milliamps,
    Rpm,
    Mhz,
    Percent,
    BytesPerSec,
    MegabytesPerSec,
    Bytes,
    Megabytes,
    Unitless,
}

/// A sensor's identity as plain text: source, chip and sensor.
pub open spec fn id_view(id: SensorId) -> (Seq<char>, Seq<char>, Seq<char>) {
    (id.source@, id.chip@, id.sensor@)
}

/// The identities of `ids`, in order.
pub open spec fn id_views(ids: Seq<SensorId>) -> Seq<(Seq<char>, Seq<char>, Seq<char>)> {
    Seq::new(ids.len(), |i: int| id_view(ids[i]))
}

/// Whether two identities name the same sensor.
pub fn same_sensor(a: &SensorId, b: &SensorId) -> (r: bool)
    ensures
        r == (id_view(*a) == id_view(*b)),
{
    a.source == b.source && a.chip == b.chip && a.sensor == b.sensor
}

/// A copy of `id`.
pub fn copy_id(id: &SensorId) -> (r: SensorId)
    ensures
        r == *id,
{
    SensorId { source: id.source.clone(), chip: id.chip.clone(), sensor: id.sensor.clone() }
}

/// Position of the sensor `id` among `ids`, if it is there.
pub fn find_id(ids: &Vec<SensorId>, id: &SensorId) -> (r: Option<usize>)
    ensures
        match r {
            Some(p) => p < ids@.len() && id_views(ids@)[p as int] == id_view(*id),
            None => !id_views(ids@).contains(id_view(*id)),
        },
{
    for p in 0..ids.len()
        invariant
            forall|q: int| 0 <= q < p ==> (#[trigger] id_views(ids@)[q]) != id_view(*id),
    {
        if same_sensor(&ids[p], id) {
            assert(id_views(ids@)[p as int] == id_view(*id));
            return Some(p);
        }
    }
    None
}

/// The order of `a` and `b` by the text of one part of their identity, the
/// later parts breaking ties.
pub open spec fn parts_le(a: Seq<char>, b: Seq<char>, rest: bool) -> bool {
    if a != b {
        text::spec_lex_le(a, b)
    } else {
        rest
    }
}

impl SortKey for SensorId {
    /// By source, then chip, then sensor, each compared character by character.
    open spec fn spec_le(self, other: Self) -> bool {
        parts_le(
            self.source@,
            other.source@,
            parts_le(self.chip@, other.chip@, text::spec_lex_le(self.sensor@, other.sensor@)),
        )
    }

    fn key_le(&self, other: &Self) -> (r: bool) {
        if self.source != other.source {
            let a = chars_of(self.source.as_str());
            let b = chars_of(other.source.as_str());
            lex_le(a.as_slice(), b.as_slice())
        } else if self.chip != other.chip {
            let a = chars_of(self.chip.as_str());
            let b = chars_of(other.chip.as_str());
            lex_le(a.as_slice(), b.as_slice())
        } else {
            let a = chars_of(self.sensor.as_str());
            let b = chars_of(other.sensor.as_str());
            lex_le(a.as_slice(), b.as_slice())
        }
    }

    proof fn lemma_total(a: Self, b: Self) {
        text::lemma_lex_total(a.source@, b.source@);
        text::lemma_lex_total(a.chip@, b.chip@);
        text::lemma_lex_total(a.sensor@, b.sensor@);
    }

    proof fn lemma_trans(a: Self, b: Self, c: Self) {
        if a.source@ != b.source@ || b.source@ != c.source@ {
            if text::spec_lex_le(a.source@, b.source@) && text::spec_lex_le(b.source@, c.source@) {
                text::lemma_lex_trans(a.source@, b.source@, c.source@);
            }
            if a.source@ == c.source@ {
                if text::spec_lex_le(a.source@, b.source@) && text::spec_lex_le(b.source@, a.source@) {
                    text::lemma_lex_antisym(a.source@, b.source@);
                }
            }
        } else {
            if a.chip@ != b.chip@ && b.chip@ != c.chip@ {
                text::lemma_lex_trans(a.chip@, b.chip@, c.chip@);
                if a.chip@ == c.chip@ {
                    text::lemma_lex_antisym(a.chip@, b.chip@);
                }
            } else if a.chip@ == b.chip@ && b.chip@ == c.chip@ {
                text::lemma_lex_trans(a.sensor@, b.sensor@, c.sensor@);
            }
        }
    }
}

} // verus!
