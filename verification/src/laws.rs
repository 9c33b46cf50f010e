//! The protocol's global laws, stated and proved over the same spec
//! functions the operations' contracts use.

use vstd::prelude::*;

use crate::byo::ByoStateModel;
use crate::byo::accepts;
use crate::byo::byo_run;
use crate::byo::byo_step_notifications;
use crate::byo::byo_step_state;
use crate::byo::last_partition_timestamp;
use crate::registry::find_key_index;
use crate::rt::RtTimestampConsumer;
use crate::rt::RtWatermark;
use crate::rt::rt_observe_run;
use crate::rt::rt_observe_step;
use crate::rt::spec_bounded_next_offset;
use crate::types::AdvanceSourceTimestamp;
use crate::types::SourceInstanceId;

verus! {

proof fn lemma_chain_lt(values: Seq<u64>, j: int, k: int)
    requires
        forall|m: int| 0 <= m < values.len() - 1 ==> (#[trigger] values[m]) < values[m + 1],
        0 <= j < k < values.len(),
    ensures
        values[j] < values[k],
    decreases k - j,
{
    if j + 1 < k {
        lemma_chain_lt(values, j, k - 1);
    }
}

/// Monotonic clock: across any run of mints — where each minted value
/// is strictly greater than the value it replaced, as
/// `rt_generate_next_timestamp` ensures — every minted value is
/// strictly greater than every value minted before it, for the life of
/// the process.
pub proof fn lemma_monotonic_clock(values: Seq<u64>)
    requires
        forall|m: int| 0 <= m < values.len() - 1 ==> (#[trigger] values[m]) < values[m + 1],
    ensures
        forall|j: int, k: int| 0 <= j < k < values.len() ==> values[j] < values[k],
{
    assert forall|j: int, k: int| 0 <= j < k < values.len() implies values[j] < values[k] by {
        lemma_chain_lt(values, j, k);
    }
}

/// Restart non-regression: when the clock is seeded with the maximum
/// timestamp `t` persisted before a restart — as `new_with_max_ts`
/// ensures — every timestamp minted afterwards is strictly greater
/// than `t`.
pub proof fn lemma_restart_non_regression(t: u64, minted: Seq<u64>)
    requires
        minted.len() > 0 ==> t < minted[0],
        forall|m: int| 0 <= m < minted.len() - 1 ==> (#[trigger] minted[m]) < minted[m + 1],
    ensures
        forall|k: int| 0 <= k < minted.len() ==> t < minted[k],
{
    assert forall|k: int| 0 <= k < minted.len() implies t < minted[k] by {
        if k > 0 {
            lemma_chain_lt(minted, 0, k);
        }
    }
}

/// Real-time increment bound: the offset a tick closes off never
/// exceeds the polled watermark, and never advances the source by more
/// than the configured increment.
pub proof fn lemma_rt_increment_bound(last_offset: int, high: int, max_size: int)
    requires
        0 <= max_size,
    ensures
        spec_bounded_next_offset(last_offset, high, max_size) <= high,
        spec_bounded_next_offset(last_offset, high, max_size) - last_offset <= max_size,
{
}

/// Real-time increment bound, at the tick level: a watermark that
/// advances a tracked partitioned-log source emits exactly one target,
/// whose offset neither exceeds the watermark nor runs more than
/// `max_size` past the offset the source had closed before.
pub proof fn lemma_rt_observe_step_bounds(
    reg: Seq<(SourceInstanceId, RtTimestampConsumer)>,
    ev: RtWatermark,
    max_size: i64,
)
    requires
        0 <= max_size,
    ensures
        ({
            let i = find_key_index(reg, ev.id);
            let out = rt_observe_step(reg, ev, max_size).1;
            i >= 0 && reg[i].1.connector is Kafka ==> {
                &&& out.len() == 1
                &&& out[0].offset <= ev.high
                &&& out[0].offset - reg[i].1.last_offset <= max_size
            }
        }),
{
}

/// Real-time increment bound, across a whole tick: the run is the fold
/// of its steps, so every target it emits — one per watermark of a
/// tracked partitioned-log source, processed against the offset that
/// source had closed at that point of the tick — stays at or below its
/// watermark and advances the source by at most `max_size`.
pub proof fn lemma_rt_observe_run_bounds(
    reg: Seq<(SourceInstanceId, RtTimestampConsumer)>,
    evs: Seq<RtWatermark>,
    max_size: i64,
)
    requires
        0 <= max_size,
    ensures
        forall|k: int|
            0 <= k < evs.len() ==> {
                let before = rt_observe_run(reg, evs.take(k), max_size).0;
                let i = find_key_index(before, (#[trigger] evs[k]).id);
                i >= 0 && before[i].1.connector is Kafka ==> {
                    let step_out = rt_observe_step(before, evs[k], max_size).1;
                    &&& rt_observe_run(reg, evs.take(k + 1), max_size).1 == rt_observe_run(
                        reg,
                        evs.take(k),
                        max_size,
                    ).1 + step_out
                    &&& step_out.len() == 1
                    &&& step_out[0].offset <= evs[k].high
                    &&& step_out[0].offset - before[i].1.last_offset <= max_size
                }
            },
{
    assert forall|k: int| 0 <= k < evs.len() implies {
        let before = rt_observe_run(reg, evs.take(k), max_size).0;
        let i = find_key_index(before, (#[trigger] evs[k]).id);
        i >= 0 && before[i].1.connector is Kafka ==> {
            let step_out = rt_observe_step(before, evs[k], max_size).1;
            &&& rt_observe_run(reg, evs.take(k + 1), max_size).1 == rt_observe_run(
                reg,
                evs.take(k),
                max_size,
            ).1 + step_out
            &&& step_out.len() == 1
            &&& step_out[0].offset <= evs[k].high
            &&& step_out[0].offset - before[i].1.last_offset <= max_size
        }
    } by {
        assert(evs.take(k + 1).drop_last() =~= evs.take(k));
        assert(evs.take(k + 1).last() == evs[k]);
        lemma_rt_observe_step_bounds(rt_observe_run(reg, evs.take(k), max_size).0, evs[k], max_size);
    }
}

/// BYO acceptance rule: with partition count `c`, source-wide last
/// timestamp `L` and per-partition last timestamp `Lp`, a declared
/// tuple is applied iff its timestamp is neither zero nor the maximum,
/// exceeds `Lp`, is at least `L`, and either the partition count grew
/// or the timestamp strictly exceeds `L`; every other tuple leaves the
/// state unchanged and emits nothing.
pub proof fn lemma_byo_acceptance_rule(
    id: SourceInstanceId,
    m: ByoStateModel,
    pcount: i32,
    pid: i32,
    ts: u64,
    offset: i64,
)
    ensures
        accepts(m, pcount, pid, ts) <==> {
            &&& ts != 0
            &&& ts != u64::MAX
            &&& ts > last_partition_timestamp(m, pid)
            &&& ts >= m.last_ts
            &&& (pcount > m.current_partition_count || ts > m.last_ts)
        },
        !accepts(m, pcount, pid, ts) ==> byo_step_state(m, pcount, pid, ts) == m
            && byo_step_notifications(id, m, pcount, pid, ts, offset) == Seq::<
            AdvanceSourceTimestamp,
        >::empty(),
        accepts(m, pcount, pid, ts) ==> {
            let m2 = byo_step_state(m, pcount, pid, ts);
            &&& m2.last_ts == ts
            &&& m2.current_partition_count == pcount
            &&& m2.last_partition_ts == m.last_partition_ts.insert(pid, ts)
        },
{
}

/// Accepted timestamps never regress: across any batch of declared
/// tuples, the source-wide last timestamp is non-decreasing, and every
/// partition's last accepted timestamp stays known and non-decreasing.
/// Together with the acceptance rule — which admits a tuple only
/// strictly above its partition's last timestamp — the accepted
/// timestamps of each partition strictly increase.
pub proof fn lemma_byo_run_monotonic(
    id: SourceInstanceId,
    m: ByoStateModel,
    ups: Seq<(i32, i32, u64, i64)>,
)
    ensures
        byo_run(id, m, ups).0.last_ts >= m.last_ts,
        forall|p: i32|
            m.last_partition_ts.contains_key(p) ==> {
                &&& byo_run(id, m, ups).0.last_partition_ts.contains_key(p)
                &&& byo_run(id, m, ups).0.last_partition_ts[p] >= m.last_partition_ts[p]
            },
    decreases ups.len(),
{
    if ups.len() > 0 {
        lemma_byo_run_monotonic(id, m, ups.drop_last());
    }
}

/// Partition growth closing update: a tuple accepted with a grown
/// partition count `c + 1` emits, before the real notification, a
/// synthetic notification closing the new partition `c` as empty —
/// offset zero — up to the previously closed timestamp `L`.
pub proof fn lemma_partition_growth_closing_update(
    id: SourceInstanceId,
    m: ByoStateModel,
    pid: i32,
    ts: u64,
    offset: i64,
)
    requires
        m.current_partition_count < i32::MAX,
        accepts(m, (m.current_partition_count + 1) as i32, pid, ts),
    ensures
        ({
            let out = byo_step_notifications(
                id,
                m,
                (m.current_partition_count + 1) as i32,
                pid,
                ts,
                offset,
            );
            &&& out.len() == 2
            &&& out[0] == AdvanceSourceTimestamp {
                id,
                partition_count: (m.current_partition_count + 1) as i32,
                pid: m.current_partition_count,
                timestamp: m.last_ts,
                offset: 0,
            }
            &&& out[1] == AdvanceSourceTimestamp {
                id,
                partition_count: (m.current_partition_count + 1) as i32,
                pid,
                timestamp: ts,
                offset,
            }
        }),
{
}

} // verus!
