//! The durable timestamp store, an external collaborator reached through
//! rusqlite.  Each wrapper makes one SQL call against the `timestamps`
//! table; what comes back depends on the database, so the wrappers
//! promise nothing of the values and the verified callers take them as
//! arguments.

use vstd::prelude::*;

use crate::types::StoreError;
use crate::types::TimestampRecord;
use crate::types::SourceInstanceId;

verus! {

#[verifier::external_type_specification]
#[verifier::external_body]
pub struct ExConnection(rusqlite::Connection);

/// Relies on rusqlite's `Connection::query_row` running
/// `SELECT MAX(timestamp)` over the persisted records: one row comes
/// back, holding NULL when no record exists.
#[verifier::external_body]
pub(crate) fn store_max_timestamp(conn: &rusqlite::Connection) -> (r: Result<
    Option<i64>,
    StoreError,
>) {
    let res = conn.query_row(
        "SELECT MAX(timestamp) FROM timestamps",
        [],
        |row| row.get::<usize, Option<i64>>(0),
    );
    match res {
        Ok(v) => Ok(v),
        Err(_) => Err(StoreError {}),
    }
}

/// Relies on rusqlite's `Connection::execute` running an `INSERT` of one
/// record's six columns; reports only whether the statement succeeded.
/// Source and view ids are bound through the one-to-one wrapping cast
/// into SQL integers, the same cast every store call uses.
#[verifier::external_body]
pub(crate) fn store_insert(
    conn: &rusqlite::Connection,
    sid: u64,
    vid: u64,
    pcount: i32,
    pid: i32,
    timestamp: i64,
    offset: i64,
) -> (ok: bool) {
    conn.execute(
        "INSERT INTO timestamps (sid, vid, pcount, pid, timestamp, offset) VALUES (?, ?, ?, ?, ?, ?)",
        (sid as i64, vid as i64, pcount, pid, timestamp, offset),
    ).is_ok()
}

/// Relies on rusqlite's `Connection::execute` running a `DELETE` of all
/// records of one source instance; deleting no rows is a success.
#[verifier::external_body]
pub(crate) fn store_delete(conn: &rusqlite::Connection, sid: u64, vid: u64) -> (ok: bool) {
    conn.execute(
        "DELETE FROM timestamps WHERE sid = ? AND vid = ?",
        (sid as i64, vid as i64),
    ).is_ok()
}

/// Ascending by the timestamp column, the order a replay comes back in.
pub open spec fn spec_rows_sorted_by_timestamp(rows: Seq<(i32, i32, i64, i64)>) -> bool {
    forall|j: int, k: int|
        0 <= j < k < rows.len() ==> (#[trigger] rows[j]).2 <= (#[trigger] rows[k]).2
}

/// Relies on rusqlite's `Connection::prepare` and
/// `Statement::query_map` reading back every record of one source
/// instance as `(pcount, pid, timestamp, offset)` rows: the statement's
/// `ORDER BY timestamp` yields them ascending by that column.
#[verifier::external_body]
pub(crate) fn store_replay(conn: &rusqlite::Connection, sid: u64, vid: u64) -> (r: Result<
    Vec<(i32, i32, i64, i64)>,
    StoreError,
>)
    ensures
        r matches Ok(rows) ==> spec_rows_sorted_by_timestamp(rows@),
{
    let res = conn.prepare(
        "SELECT pcount, pid, timestamp, offset FROM timestamps WHERE sid = ? AND vid = ? ORDER BY timestamp",
    ).and_then(|mut stmt| {
        stmt.query_map(
            (sid as i64, vid as i64),
            |row| Ok((row.get(0)?, row.get(1)?, row.get(2)?, row.get(3)?)),
        ).and_then(|rows| rows.collect())
    });
    match res {
        Ok(v) => Ok(v),
        Err(_) => Err(StoreError {}),
    }
}

/// The clock value recovered from the store's answer: the persisted
/// maximum, or zero when the store is empty or holds a value below the
/// representable range.
pub open spec fn spec_recovered_timestamp(raw: Option<i64>) -> u64 {
    match raw {
        Option::Some(v) => if v < 0 {
            0
        } else {
            v as u64
        },
        Option::None => 0,
    }
}

pub fn recovered_timestamp(raw: Option<i64>) -> (r: u64)
    ensures
        r == spec_recovered_timestamp(raw),
{
    match raw {
        Option::Some(v) => if v < 0 {
            0
        } else {
            v as u64
        },
        Option::None => 0,
    }
}

/// One replayed row as a record of the identified source, its timestamp
/// clamped into `u64` from the store's signed representation.
pub open spec fn spec_record_of_row(id: SourceInstanceId, row: (i32, i32, i64, i64)) -> TimestampRecord {
    TimestampRecord {
        id,
        pcount: row.0,
        pid: row.1,
        timestamp: if row.2 < 0 {
            0
        } else {
            row.2 as u64
        },
        offset: row.3,
    }
}

pub fn records_from_rows(id: SourceInstanceId, rows: &Vec<(i32, i32, i64, i64)>) -> (records: Vec<
    TimestampRecord,
>)
    ensures
        records@ == rows@.map_values(|row: (i32, i32, i64, i64)| spec_record_of_row(id, row)),
{
    let ghost target = rows@.map_values(|row: (i32, i32, i64, i64)| spec_record_of_row(id, row));
    let n = rows.len();
    let mut records: Vec<TimestampRecord> = Vec::new();
    let mut i: usize = 0;
    while i < n
        invariant
            0 <= i <= n,
            n == rows@.len(),
            target == rows@.map_values(|row: (i32, i32, i64, i64)| spec_record_of_row(id, row)),
            records@ =~= target.take(i as int),
        decreases n - i,
    {
        let row = rows[i];
        let ts: u64 = if row.2 < 0 {
            0
        } else {
            row.2 as u64
        };
        records.push(TimestampRecord { id, pcount: row.0, pid: row.1, timestamp: ts, offset: row.3 });
        i = i + 1;
    }
    proof {
        assert(records@ =~= target);
    }
    records
}

} // verus!
