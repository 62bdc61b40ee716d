use vstd::prelude::*;

verus! {

/// One row of the store: the calories recorded at a timestamp.
///
/// The timestamp is the natural key; the store keeps it unique and
/// non-zero, and keeps the calorie count non-negative.
#[derive(Clone, Copy, PartialEq, Eq, Structural, Debug)]
pub struct Entry {
    pub timestamp: i64,
    pub calories: i64,
}

/// The per-row constraints the store enforces: a non-zero timestamp and a
/// non-negative calorie count.
pub open spec fn entry_ok(e: Entry) -> bool {
    e.timestamp != 0 && e.calories >= 0
}

} // verus!
