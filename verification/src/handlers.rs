//! The three request handlers as pure mappings from a validated input and a
//! gateway outcome to an HTTP reply: list replies 200 with the JSON array,
//! create replies 201 on success and 400 with the failure's description
//! otherwise, delete replies 200, 404 when nothing was stored at the
//! timestamp, or 400 on a storage failure.

use vstd::prelude::*;
use vstd::string::StringExecFns;

use crate::entry::Entry;
use crate::json::{entries_to_json, spec_entries_json};
use crate::table::{
    conflict_kind_of, count_ts, has_ts, insert_admitted, insert_result, lemma_count_none,
    lemma_count_some, remove_ts, ConflictKind, InsertOutcome, Table,
};

verus! {

/// An HTTP reply: a status code and a plain body.
pub struct HttpReply {
    pub status: u16,
    pub body: String,
}

/// The storage engine's description of a rejected write, named after the
/// violated constraint of the table's schema.
pub open spec fn spec_conflict_message(k: ConflictKind) -> Seq<char> {
    match k {
        ConflictKind::ZeroTimestamp => "CHECK constraint failed: non_zero_timestamp"@,
        ConflictKind::NegativeCalories => "CHECK constraint failed: cal_not_neg"@,
        ConflictKind::DuplicateTimestamp => "UNIQUE constraint failed: data.timestamp"@,
    }
}

/// The description of a rejected write, as [`spec_conflict_message`] gives it.
pub fn conflict_message(k: ConflictKind) -> (s: String)
    ensures
        s@ == spec_conflict_message(k),
{
    match k {
        ConflictKind::ZeroTimestamp => String::from_str("CHECK constraint failed: non_zero_timestamp"),
        ConflictKind::NegativeCalories => String::from_str("CHECK constraint failed: cal_not_neg"),
        ConflictKind::DuplicateTimestamp => String::from_str("UNIQUE constraint failed: data.timestamp"),
    }
}

/// The body of a failure reply: the failure's description after `error: `.
pub open spec fn spec_error_body(m: Seq<char>) -> Seq<char> {
    "error: "@ + m
}

fn error_body(message: &String) -> (s: String)
    ensures
        s@ == spec_error_body(message@),
{
    String::from_str("error: ").concat(message.as_str())
}

/// The reply to a create attempt: 201 `Success` when the row was stored,
/// 400 with the failure's description otherwise.
pub fn create_response(result: Result<(), String>) -> (r: HttpReply)
    ensures
        result is Ok ==> r.status == 201 && r.body@ == "Success"@,
        result matches Err(m) ==> r.status == 400 && r.body@ == spec_error_body(m@),
{
    match result {
        Ok(()) => HttpReply { status: 201, body: String::from_str("Success") },
        Err(m) => HttpReply { status: 400, body: error_body(&m) },
    }
}

/// The reply to a delete attempt: 200 `Success` when a row went away, 404
/// `No data found` when none was stored at the timestamp, 400 with the
/// failure's description on a storage failure.
pub fn delete_response(result: Result<u64, String>) -> (r: HttpReply)
    ensures
        result matches Ok(n) && n == 0 ==> r.status == 404 && r.body@ == "No data found"@,
        result matches Ok(n) && n > 0 ==> r.status == 200 && r.body@ == "Success"@,
        result matches Err(m) ==> r.status == 400 && r.body@ == spec_error_body(m@),
{
    match result {
        Ok(n) => {
            if n == 0 {
                HttpReply { status: 404, body: String::from_str("No data found") }
            } else {
                HttpReply { status: 200, body: String::from_str("Success") }
            }
        },
        Err(m) => HttpReply { status: 400, body: error_body(&m) },
    }
}

/// The reply to a list request that the store answered: 200 with the rows as
/// a JSON array, in the rows' order.
pub fn list_response(rows: &Vec<Entry>) -> (r: HttpReply)
    ensures
        r.status == 200,
        r.body@ == spec_entries_json(rows@),
{
    HttpReply { status: 200, body: entries_to_json(rows) }
}

/// The reply to a list request the store failed to answer: 500 with the
/// failure's description.
pub fn list_error_response(message: String) -> (r: HttpReply)
    ensures
        r.status == 500,
        r.body@ == spec_error_body(message@),
{
    HttpReply { status: 500, body: error_body(&message) }
}

/// The whole create operation against the table model: attempt the insert
/// and map the outcome.
pub fn handle_create(table: &mut Table, timestamp: i64, calories: i64) -> (r: HttpReply)
    requires
        old(table).wf(),
    ensures
        final(table).wf(),
        final(table)@ == insert_result(old(table)@, timestamp, calories),
        insert_admitted(old(table)@, timestamp, calories) ==> r.status == 201 && r.body@
            == "Success"@,
        !insert_admitted(old(table)@, timestamp, calories) ==> r.status == 400 && r.body@
            == spec_error_body(spec_conflict_message(conflict_kind_of(timestamp, calories))),
{
    match table.insert(timestamp, calories) {
        InsertOutcome::Created => create_response(Ok(())),
        InsertOutcome::Conflict(k) => create_response(Err(conflict_message(k))),
    }
}

/// The whole delete operation against the table model: delete the row at the
/// timestamp, if any, and map the count of removed rows.
pub fn handle_delete(table: &mut Table, timestamp: i64) -> (r: HttpReply)
    requires
        old(table).wf(),
    ensures
        final(table).wf(),
        final(table)@ == remove_ts(old(table)@, timestamp),
        !has_ts(final(table)@, timestamp),
        has_ts(old(table)@, timestamp) ==> r.status == 200 && r.body@ == "Success"@,
        !has_ts(old(table)@, timestamp) ==> r.status == 404 && r.body@ == "No data found"@,
{
    let n = table.delete_by_timestamp(timestamp);
    proof {
        if has_ts(old(table)@, timestamp) {
            lemma_count_some(old(table)@, timestamp);
        } else {
            lemma_count_none(old(table)@, timestamp);
        }
    }
    delete_response(Ok(n))
}

/// The whole list operation against the table model: every stored row as a
/// JSON array, in storage order.
pub fn handle_list(table: &Table) -> (r: HttpReply)
    ensures
        r.status == 200,
        r.body@ == spec_entries_json(table@),
{
    let rows = table.list_all();
    list_response(&rows)
}

} // verus!
