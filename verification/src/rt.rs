//! Real-time timestamping: per-source offset state, and the bounded
//! advance computed from a polled high watermark.  A single tick covers
//! at most `max_size` new offsets per partition, so downstream views
//! become visible promptly instead of waiting on one giant batch.

use vstd::prelude::*;

use crate::registry::find_key_index;
use crate::types::AdvanceSourceTimestamp;
use crate::types::SourceInstanceId;
use crate::types::TimestampRecord;

verus! {

/// Which kind of client serves an RT source.  The live client is owned
/// by the driver; file sources are unsupported stubs, and shard-stream
/// sources report a placeholder instead of true progress.
#[derive(Clone, Copy, PartialEq, Eq, Structural, Debug)]
pub enum RtTimestampConnector {
    Kafka,
    File,
    Kinesis,
}

/// Progress state of one tracked RT source: the highest offset already
/// closed off by some timestamp.
#[derive(Clone, Copy, PartialEq, Eq, Structural, Debug)]
pub struct RtTimestampConsumer {
    pub connector: RtTimestampConnector,
    pub last_offset: i64,
}

/// One polled watermark: partition `pid` of the identified source, out
/// of `pcount` partitions, is known to have produced offsets up to
/// `high`.
#[derive(Clone, Copy, PartialEq, Eq, Structural, Debug)]
pub struct RtWatermark {
    pub id: SourceInstanceId,
    pub pcount: i32,
    pub pid: i32,
    pub high: i64,
}

/// One per-partition target chosen by a tick, to be persisted and
/// announced under the tick's minted timestamp.
#[derive(Clone, Copy, PartialEq, Eq, Structural, Debug)]
pub struct RtUpdate {
    pub id: SourceInstanceId,
    pub pcount: i32,
    pub pid: i32,
    pub offset: i64,
}

/// The offset the next timestamp closes off: the watermark, capped at
/// `max_size` offsets beyond what is already closed.
pub open spec fn spec_bounded_next_offset(last_offset: int, high: int, max_size: int) -> int {
    if high - last_offset > max_size {
        last_offset + max_size
    } else {
        high
    }
}

pub fn bounded_next_offset(last_offset: i64, high: i64, max_size: i64) -> (next: i64)
    requires
        0 <= max_size,
    ensures
        next == spec_bounded_next_offset(last_offset as int, high as int, max_size as int),
        next <= high,
        next - last_offset <= max_size,
{
    if last_offset <= i64::MAX - max_size && high > last_offset + max_size {
        last_offset + max_size
    } else {
        high
    }
}

/// The registry and emitted target after one polled watermark: a
/// watermark for a tracked partitioned-log source advances that source's
/// closed offset and emits one target; any other watermark is ignored.
pub open spec fn rt_observe_step(
    reg: Seq<(SourceInstanceId, RtTimestampConsumer)>,
    ev: RtWatermark,
    max_size: i64,
) -> (Seq<(SourceInstanceId, RtTimestampConsumer)>, Seq<RtUpdate>) {
    let i = find_key_index(reg, ev.id);
    if i >= 0 && reg[i].1.connector is Kafka {
        let next = spec_bounded_next_offset(
            reg[i].1.last_offset as int,
            ev.high as int,
            max_size as int,
        );
        (
            reg.update(
                i,
                (ev.id, RtTimestampConsumer { connector: RtTimestampConnector::Kafka, last_offset: next as i64 }),
            ),
            seq![RtUpdate { id: ev.id, pcount: ev.pcount, pid: ev.pid, offset: next as i64 }],
        )
    } else {
        (reg, Seq::empty())
    }
}

/// The registry and emitted targets after a whole tick's polled
/// watermarks, applied in order.  A source polled for several partitions
/// advances its single closed offset once per partition, in order.
pub open spec fn rt_observe_run(
    reg: Seq<(SourceInstanceId, RtTimestampConsumer)>,
    evs: Seq<RtWatermark>,
    max_size: i64,
) -> (Seq<(SourceInstanceId, RtTimestampConsumer)>, Seq<RtUpdate>)
    decreases evs.len(),
{
    if evs.len() == 0 {
        (reg, Seq::empty())
    } else {
        let (r1, out1) = rt_observe_run(reg, evs.drop_last(), max_size);
        let (r2, out2) = rt_observe_step(r1, evs.last(), max_size);
        (r2, out1 + out2)
    }
}

/// The placeholder targets of shard-stream sources: partition id and
/// count both zero, the offset standing in for progress as the current
/// logical time.
pub open spec fn rt_placeholders(
    reg: Seq<(SourceInstanceId, RtTimestampConsumer)>,
    ts_offset: i64,
) -> Seq<RtUpdate>
    decreases reg.len(),
{
    if reg.len() == 0 {
        Seq::empty()
    } else {
        let front = rt_placeholders(reg.drop_last(), ts_offset);
        if reg.last().1.connector is Kinesis {
            front.push(RtUpdate { id: reg.last().0, pcount: 0, pid: 0, offset: ts_offset })
        } else {
            front
        }
    }
}

/// The highest offset among replayed records, and at least zero: the
/// offset already closed off before a restart.
pub open spec fn spec_max_offset(records: Seq<TimestampRecord>) -> int
    decreases records.len(),
{
    if records.len() == 0 {
        0
    } else {
        let front = spec_max_offset(records.drop_last());
        if records.last().offset > front {
            records.last().offset as int
        } else {
            front
        }
    }
}

pub fn recover_max_offset(records: &Vec<TimestampRecord>) -> (m: i64)
    ensures
        m == spec_max_offset(records@),
        m >= 0,
{
    let n = records.len();
    let mut m: i64 = 0;
    let mut i: usize = 0;
    proof {
        assert(records@.take(0) =~= Seq::<TimestampRecord>::empty());
    }
    while i < n
        invariant
            0 <= i <= n,
            n == records@.len(),
            m == spec_max_offset(records@.take(i as int)),
            m >= 0,
        decreases n - i,
    {
        proof {
            assert(records@.take(i + 1).drop_last() =~= records@.take(i as int));
            assert(records@.take(i + 1).last() == records@[i as int]);
        }
        if records[i].offset > m {
            m = records[i].offset;
        }
        i = i + 1;
    }
    proof {
        assert(records@.take(n as int) =~= records@);
    }
    m
}

/// The notification a replayed record turns into, re-announcing
/// previously committed progress.
pub open spec fn spec_record_notification(r: TimestampRecord) -> AdvanceSourceTimestamp {
    AdvanceSourceTimestamp {
        id: r.id,
        partition_count: r.pcount,
        pid: r.pid,
        timestamp: r.timestamp,
        offset: r.offset,
    }
}

pub fn records_to_notifications(records: &Vec<TimestampRecord>) -> (out: Vec<
    AdvanceSourceTimestamp,
>)
    ensures
        out@ == records@.map_values(|r: TimestampRecord| spec_record_notification(r)),
{
    let ghost target = records@.map_values(|r: TimestampRecord| spec_record_notification(r));
    let n = records.len();
    let mut out: Vec<AdvanceSourceTimestamp> = Vec::new();
    let mut i: usize = 0;
    while i < n
        invariant
            0 <= i <= n,
            n == records@.len(),
            target == records@.map_values(|r: TimestampRecord| spec_record_notification(r)),
            out@ =~= target.take(i as int),
        decreases n - i,
    {
        let r = records[i];
        out.push(
            AdvanceSourceTimestamp {
                id: r.id,
                partition_count: r.pcount,
                pid: r.pid,
                timestamp: r.timestamp,
                offset: r.offset,
            },
        );
        i = i + 1;
    }
    proof {
        assert(out@ =~= target);
    }
    out
}

} // verus!
