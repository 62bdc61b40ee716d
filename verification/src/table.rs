//! An executable model of the store's single table together with the
//! constraints the storage engine enforces on it: timestamps are unique and
//! non-zero, calorie counts are non-negative. `insert` admits a row exactly
//! when the constraints allow it, `delete_by_timestamp` reports how many rows
//! went away, and `list_all` hands the rows out in storage order. The laws at
//! the end relate the three operations to one another.

use vstd::prelude::*;

use crate::entry::{entry_ok, Entry};

verus! {

/// Whether some row of `s` carries timestamp `t`.
pub open spec fn has_ts(s: Seq<Entry>, t: i64) -> bool {
    exists|i: int| 0 <= i < s.len() && (#[trigger] s[i]).timestamp == t
}

/// How many rows of `s` carry timestamp `t`.
pub open spec fn count_ts(s: Seq<Entry>, t: i64) -> nat
    decreases s.len(),
{
    if s.len() == 0 {
        0
    } else {
        count_ts(s.drop_last(), t) + if s.last().timestamp == t {
            1nat
        } else {
            0nat
        }
    }
}

/// The rows of `s` that carry timestamp `t`, in storage order.
pub open spec fn rows_ts(s: Seq<Entry>, t: i64) -> Seq<Entry>
    decreases s.len(),
{
    if s.len() == 0 {
        Seq::<Entry>::empty()
    } else if s.last().timestamp == t {
        rows_ts(s.drop_last(), t).push(s.last())
    } else {
        rows_ts(s.drop_last(), t)
    }
}

/// The table after deleting every row at timestamp `t`; the other rows keep
/// their order.
pub open spec fn remove_ts(s: Seq<Entry>, t: i64) -> Seq<Entry>
    decreases s.len(),
{
    if s.len() == 0 {
        Seq::<Entry>::empty()
    } else if s.last().timestamp == t {
        remove_ts(s.drop_last(), t)
    } else {
        remove_ts(s.drop_last(), t).push(s.last())
    }
}

/// The table invariant the storage engine maintains: every row meets the
/// per-row constraints and no two rows share a timestamp.
pub open spec fn table_inv(s: Seq<Entry>) -> bool {
    &&& forall|i: int| 0 <= i < s.len() ==> entry_ok(#[trigger] s[i])
    &&& forall|i: int, j: int|
        0 <= i < j < s.len() ==> (#[trigger] s[i]).timestamp != (#[trigger] s[j]).timestamp
}

/// Whether the engine admits an insert of (`t`, `c`) into table `s`: the
/// timestamp is non-zero and fresh, the calorie count non-negative.
pub open spec fn insert_admitted(s: Seq<Entry>, t: i64, c: i64) -> bool {
    t != 0 && c >= 0 && !has_ts(s, t)
}

/// The table after an attempted insert of (`t`, `c`): the row is appended
/// when the constraints admit it, and nothing changes otherwise.
pub open spec fn insert_result(s: Seq<Entry>, t: i64, c: i64) -> Seq<Entry> {
    if insert_admitted(s, t, c) {
        s.push(Entry { timestamp: t, calories: c })
    } else {
        s
    }
}

/// Which constraint a rejected insert of (`t`, `c`) ran into; the model
/// reports the zero-timestamp check first, then the calorie check, then
/// uniqueness.
pub open spec fn conflict_kind_of(t: i64, c: i64) -> ConflictKind {
    if t == 0 {
        ConflictKind::ZeroTimestamp
    } else if c < 0 {
        ConflictKind::NegativeCalories
    } else {
        ConflictKind::DuplicateTimestamp
    }
}

/// The constraint that rejected a write.
#[derive(Clone, Copy, PartialEq, Eq, Structural, Debug)]
pub enum ConflictKind {
    /// The row's timestamp was zero.
    ZeroTimestamp,
    /// The row's calorie count was negative.
    NegativeCalories,
    /// A row with the same timestamp already exists.
    DuplicateTimestamp,
}

/// What an attempted insert came to.
#[derive(Clone, Copy, PartialEq, Eq, Structural, Debug)]
pub enum InsertOutcome {
    /// The row was stored.
    Created,
    /// A constraint rejected the row; nothing was stored.
    Conflict(ConflictKind),
}

/// The in-memory model of the store's single table.
pub struct Table {
    rows: Vec<Entry>,
}

impl View for Table {
    type V = Seq<Entry>;

    closed spec fn view(&self) -> Seq<Entry> {
        self.rows@
    }
}

impl Table {
    /// The table's invariant, as maintained by the engine.
    pub open spec fn wf(&self) -> bool {
        table_inv(self@)
    }

    /// An empty table.
    pub fn new() -> (t: Table)
        ensures
            t@ == Seq::<Entry>::empty(),
            t.wf(),
    {
        Table { rows: Vec::new() }
    }

    /// Whether a row at timestamp `t` is stored.
    pub fn contains_ts(&self, t: i64) -> (b: bool)
        ensures
            b == has_ts(self@, t),
    {
        let n = self.rows.len();
        let mut i: usize = 0;
        while i < n
            invariant
                n == self.rows@.len(),
                i <= n,
                forall|k: int| 0 <= k < i ==> (#[trigger] self.rows@[k]).timestamp != t,
            decreases n - i,
        {
            if self.rows[i].timestamp == t {
                return true;
            }
            i += 1;
        }
        false
    }

    /// Attempt to store the row (`timestamp`, `calories`). The row is
    /// appended exactly when the constraints admit it; a rejection names the
    /// constraint and leaves the table unchanged.
    pub fn insert(&mut self, timestamp: i64, calories: i64) -> (r: InsertOutcome)
        requires
            old(self).wf(),
        ensures
            final(self).wf(),
            final(self)@ == insert_result(old(self)@, timestamp, calories),
            r is Created <==> insert_admitted(old(self)@, timestamp, calories),
            r matches InsertOutcome::Conflict(k) ==> k == conflict_kind_of(timestamp, calories)
                && !insert_admitted(old(self)@, timestamp, calories),
    {
        if timestamp == 0 {
            return InsertOutcome::Conflict(ConflictKind::ZeroTimestamp);
        }
        if calories < 0 {
            return InsertOutcome::Conflict(ConflictKind::NegativeCalories);
        }
        if self.contains_ts(timestamp) {
            return InsertOutcome::Conflict(ConflictKind::DuplicateTimestamp);
        }
        let ghost s0 = self@;
        self.rows.push(Entry { timestamp, calories });
        proof {
            let s1 = self@;
            assert forall|i: int, j: int|
                0 <= i < j < s1.len() implies (#[trigger] s1[i]).timestamp
                != (#[trigger] s1[j]).timestamp by {
                if j < s0.len() as int {
                } else {
                    assert(s1[i] == s0[i]);
                }
            }
        }
        InsertOutcome::Created
    }

    /// Delete the row at timestamp `timestamp`, if any, and report how many
    /// rows went away (0 or 1, since timestamps are unique).
    pub fn delete_by_timestamp(&mut self, timestamp: i64) -> (n: u64)
        requires
            old(self).wf(),
        ensures
            final(self).wf(),
            final(self)@ == remove_ts(old(self)@, timestamp),
            n as nat == count_ts(old(self)@, timestamp),
            n <= 1,
            !has_ts(final(self)@, timestamp),
    {
        let m = self.rows.len();
        let mut kept: Vec<Entry> = Vec::new();
        let mut removed: u64 = 0;
        let mut i: usize = 0;
        while i < m
            invariant
                table_inv(self.rows@),
                m == self.rows@.len(),
                i <= m,
                kept@ == remove_ts(self.rows@.take(i as int), timestamp),
                removed as nat == count_ts(self.rows@.take(i as int), timestamp),
                removed <= i,
                forall|k: int|
                    0 <= k < kept@.len() ==> exists|j: int|
                        0 <= j < i && #[trigger] kept@[k] == self.rows@[j],
            decreases m - i,
        {
            let e = self.rows[i];
            proof {
                assert(self.rows@.take(i + 1).drop_last() =~= self.rows@.take(i as int));
                assert(self.rows@.take(i + 1).last() == self.rows@[i as int]);
            }
            if e.timestamp == timestamp {
                removed += 1;
            } else {
                kept.push(e);
                proof {
                    assert forall|k: int|
                        0 <= k < kept@.len() implies exists|j: int|
                            0 <= j < i + 1 && #[trigger] kept@[k] == self.rows@[j] by {
                        if k < kept@.len() - 1 {
                            let j0 = choose|j: int|
                                0 <= j < i && kept@[k] == self.rows@[j];
                            assert(0 <= j0 < i + 1 && kept@[k] == self.rows@[j0]);
                        } else {
                            assert(kept@[k] == self.rows@[i as int]);
                        }
                    }
                }
            }
            i += 1;
        }
        proof {
            assert(self.rows@.take(m as int) =~= self.rows@);
            lemma_count_le_one(self.rows@, timestamp);
            lemma_remove_keeps_inv(self.rows@, timestamp);
            lemma_remove_not_has(self.rows@, timestamp);
        }
        self.rows = kept;
        removed
    }

    /// All stored rows, in storage order.
    pub fn list_all(&self) -> (v: Vec<Entry>)
        ensures
            v@ == self@,
    {
        let n = self.rows.len();
        let mut v: Vec<Entry> = Vec::new();
        let mut i: usize = 0;
        while i < n
            invariant
                n == self.rows@.len(),
                i <= n,
                v@ == self.rows@.take(i as int),
            decreases n - i,
        {
            v.push(self.rows[i]);
            proof {
                assert(self.rows@.take(i + 1) =~= self.rows@.take(i as int).push(
                    self.rows@[i as int],
                ));
            }
            i += 1;
        }
        proof {
            assert(self.rows@.take(n as int) =~= self.rows@);
        }
        v
    }
}

/// A pushed row is found exactly when it, or an earlier row, carries the
/// timestamp.
pub proof fn lemma_has_ts_push(s: Seq<Entry>, e: Entry, t: i64)
    ensures
        has_ts(s.push(e), t) <==> (has_ts(s, t) || e.timestamp == t),
{
    if has_ts(s, t) {
        let i = choose|i: int| 0 <= i < s.len() && s[i].timestamp == t;
        assert(s.push(e)[i].timestamp == t);
    }
    if e.timestamp == t {
        assert(s.push(e)[s.len() as int].timestamp == t);
    }
    if has_ts(s.push(e), t) && !has_ts(s, t) {
        let i = choose|i: int| 0 <= i < s.push(e).len() && s.push(e)[i].timestamp == t;
        if i < s.len() {
            assert(s[i].timestamp == t);
        }
    }
}

/// A timestamp no row carries is counted zero times and kept by no row list.
pub proof fn lemma_count_none(s: Seq<Entry>, t: i64)
    requires
        !has_ts(s, t),
    ensures
        count_ts(s, t) == 0,
        rows_ts(s, t) == Seq::<Entry>::empty(),
        remove_ts(s, t) == s,
    decreases s.len(),
{
    if s.len() > 0 {
        assert(s.last().timestamp != t);
        assert forall|i: int|
            0 <= i < s.drop_last().len() implies (#[trigger] s.drop_last()[i]).timestamp != t by {
            assert(s[i].timestamp != t);
        }
        lemma_count_none(s.drop_last(), t);
        assert(remove_ts(s, t) =~= s);
    }
}

/// A timestamp some row carries is counted at least once.
pub proof fn lemma_count_some(s: Seq<Entry>, t: i64)
    requires
        has_ts(s, t),
    ensures
        count_ts(s, t) >= 1,
    decreases s.len(),
{
    if s.last().timestamp != t {
        let i = choose|i: int| 0 <= i < s.len() && s[i].timestamp == t;
        assert(s.drop_last()[i].timestamp == t);
        lemma_count_some(s.drop_last(), t);
    }
}

/// Under the table invariant no timestamp is counted more than once.
pub proof fn lemma_count_le_one(s: Seq<Entry>, t: i64)
    requires
        table_inv(s),
    ensures
        count_ts(s, t) <= 1,
    decreases s.len(),
{
    if s.len() > 0 {
        let d = s.drop_last();
        assert forall|i: int, j: int|
            0 <= i < j < d.len() implies (#[trigger] d[i]).timestamp
            != (#[trigger] d[j]).timestamp by {
            assert(s[i].timestamp != s[j].timestamp);
        }
        assert forall|i: int| 0 <= i < d.len() implies entry_ok(#[trigger] d[i]) by {
            assert(entry_ok(s[i]));
        }
        lemma_count_le_one(d, t);
        if s.last().timestamp == t {
            assert forall|i: int| 0 <= i < d.len() implies (#[trigger] d[i]).timestamp != t by {
                assert(s[i].timestamp != s[s.len() - 1].timestamp);
            }
            lemma_count_none(d, t);
        }
    }
}

/// Deleting a timestamp keeps the table invariant.
pub proof fn lemma_remove_keeps_inv(s: Seq<Entry>, t: i64)
    requires
        table_inv(s),
    ensures
        table_inv(remove_ts(s, t)),
    decreases s.len(),
{
    if s.len() > 0 {
        let d = s.drop_last();
        assert forall|i: int, j: int|
            0 <= i < j < d.len() implies (#[trigger] d[i]).timestamp
            != (#[trigger] d[j]).timestamp by {
            assert(s[i].timestamp != s[j].timestamp);
        }
        assert forall|i: int| 0 <= i < d.len() implies entry_ok(#[trigger] d[i]) by {
            assert(entry_ok(s[i]));
        }
        lemma_remove_keeps_inv(d, t);
        lemma_remove_members(d, t);
        if s.last().timestamp != t {
            let r = remove_ts(d, t).push(s.last());
            assert(entry_ok(s[s.len() - 1]));
            assert forall|i: int, j: int|
                0 <= i < j < r.len() implies (#[trigger] r[i]).timestamp
                != (#[trigger] r[j]).timestamp by {
                if j == r.len() - 1 {
                    let j0 = choose|j0: int| 0 <= j0 < d.len() && r[i] == d[j0];
                    assert(s[j0].timestamp != s[s.len() - 1].timestamp);
                }
            }
        }
    }
}

/// Every row that survives a delete was already stored.
pub proof fn lemma_remove_members(s: Seq<Entry>, t: i64)
    ensures
        forall|k: int|
            0 <= k < remove_ts(s, t).len() ==> exists|j: int|
                0 <= j < s.len() && #[trigger] remove_ts(s, t)[k] == s[j],
    decreases s.len(),
{
    if s.len() > 0 {
        let d = s.drop_last();
        lemma_remove_members(d, t);
        assert forall|k: int|
            0 <= k < remove_ts(s, t).len() implies exists|j: int|
                0 <= j < s.len() && #[trigger] remove_ts(s, t)[k] == s[j] by {
            if s.last().timestamp == t {
                let j0 = choose|j: int| 0 <= j < d.len() && remove_ts(d, t)[k] == d[j];
                assert(remove_ts(s, t)[k] == s[j0]);
            } else {
                if k < remove_ts(s, t).len() - 1 {
                    let j0 = choose|j: int| 0 <= j < d.len() && remove_ts(d, t)[k] == d[j];
                    assert(remove_ts(s, t)[k] == s[j0]);
                } else {
                    assert(remove_ts(s, t)[k] == s[s.len() - 1]);
                }
            }
        }
    }
}

/// Round trip: after an admitted insert of (`t`, `c`) the table holds
/// exactly one row at `t`, and that row carries `c`.
pub proof fn lemma_create_round_trip(s: Seq<Entry>, t: i64, c: i64)
    requires
        table_inv(s),
        insert_admitted(s, t, c),
    ensures
        has_ts(insert_result(s, t, c), t),
        count_ts(insert_result(s, t, c), t) == 1,
        rows_ts(insert_result(s, t, c), t) == seq![Entry { timestamp: t, calories: c }],
{
    let e = Entry { timestamp: t, calories: c };
    let s1 = s.push(e);
    lemma_has_ts_push(s, e, t);
    lemma_count_none(s, t);
    assert(s1.drop_last() =~= s);
    assert(rows_ts(s1, t) =~= seq![e]);
}

/// Uniqueness: once a row stands at `t`, a second insert at `t` is rejected,
/// whatever its calorie count, and the stored row keeps the first count.
pub proof fn lemma_duplicate_create_rejected(s: Seq<Entry>, t: i64, c1: i64, c2: i64)
    requires
        table_inv(s),
        insert_admitted(s, t, c1),
    ensures
        !insert_admitted(insert_result(s, t, c1), t, c2),
        insert_result(insert_result(s, t, c1), t, c2) == insert_result(s, t, c1),
        rows_ts(insert_result(insert_result(s, t, c1), t, c2), t) == seq![
            Entry { timestamp: t, calories: c1 },
        ],
{
    let e = Entry { timestamp: t, calories: c1 };
    lemma_has_ts_push(s, e, t);
    lemma_create_round_trip(s, t, c1);
}

/// Non-negativity: an insert with a negative calorie count is rejected and
/// nothing is persisted at its timestamp that was not there before.
pub proof fn lemma_negative_calories_rejected(s: Seq<Entry>, t: i64, c: i64)
    requires
        c < 0,
    ensures
        !insert_admitted(s, t, c),
        insert_result(s, t, c) == s,
        !has_ts(s, t) ==> !has_ts(insert_result(s, t, c), t),
{
}

/// Zero-timestamp rejection: an insert at timestamp zero is rejected and
/// the table stands unchanged.
pub proof fn lemma_zero_timestamp_rejected(s: Seq<Entry>, c: i64)
    ensures
        !insert_admitted(s, 0, c),
        insert_result(s, 0, c) == s,
{
}

/// Delete idempotence signaling: deleting a timestamp no row carries removes
/// zero rows and leaves the table as it was, however often it is repeated.
pub proof fn lemma_delete_missing_not_found(s: Seq<Entry>, t: i64)
    requires
        !has_ts(s, t),
    ensures
        count_ts(s, t) == 0,
        remove_ts(s, t) == s,
        count_ts(remove_ts(s, t), t) == 0,
{
    lemma_count_none(s, t);
}

/// Create race: of two inserts at the same fresh, admissible timestamp, the
/// one the engine serializes first succeeds, the other is rejected, and
/// exactly one row stands at the timestamp afterwards.
pub proof fn lemma_create_race(s: Seq<Entry>, t: i64, c1: i64, c2: i64)
    requires
        table_inv(s),
        t != 0,
        c1 >= 0,
        c2 >= 0,
        !has_ts(s, t),
    ensures
        insert_admitted(s, t, c1),
        !insert_admitted(insert_result(s, t, c1), t, c2),
        insert_result(insert_result(s, t, c1), t, c2) == insert_result(s, t, c1),
        count_ts(insert_result(insert_result(s, t, c1), t, c2), t) == 1,
{
    lemma_duplicate_create_rejected(s, t, c1, c2);
    lemma_create_round_trip(s, t, c1);
}

/// After a delete, no row carries the deleted timestamp.
pub proof fn lemma_remove_not_has(s: Seq<Entry>, t: i64)
    ensures
        !has_ts(remove_ts(s, t), t),
    decreases s.len(),
{
    if s.len() > 0 {
        lemma_remove_not_has(s.drop_last(), t);
        if s.last().timestamp != t {
            lemma_has_ts_push(remove_ts(s.drop_last(), t), s.last(), t);
        }
    }
}

} // verus!
