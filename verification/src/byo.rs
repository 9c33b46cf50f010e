//! Bring-your-own timestamping: per-source progress state, the
//! acceptance rule that an untrusted control producer is held to, and the
//! application of a batch of declared timestamp bindings.
//!
//! A declared tuple `(pcount, pid, ts, offset)` is accepted iff
//! `ts` is neither `0` nor `u64::MAX`, `ts` is strictly above the
//! partition's last accepted timestamp, `ts` is at least the source-wide
//! last timestamp, and either the partition count grew or `ts` is
//! strictly above the source-wide last timestamp.  Anything else is
//! dropped without touching the state, so a misbehaving producer cannot
//! corrupt the global order.

use vstd::prelude::*;

use std::collections::HashMap;

use crate::types::AdvanceSourceTimestamp;
use crate::types::Envelope;
use crate::types::SourceInstanceId;

verus! {

/// Which kind of client serves a BYO source's control stream.  The live
/// client itself is owned by the driver; only partitioned-log sources are
/// ever polled.
#[derive(Clone, Copy, PartialEq, Eq, Structural, Debug)]
pub enum ByoTimestampConnector {
    Kafka,
    File,
    Kinesis,
}

/// The mathematical state of one BYO source: the highest accepted
/// timestamp overall, the declared partition count, and the highest
/// accepted timestamp of each partition.
pub ghost struct ByoStateModel {
    pub last_ts: u64,
    pub current_partition_count: i32,
    pub last_partition_ts: Map<i32, u64>,
}

/// The partition's last accepted timestamp, or `0` if none was accepted
/// yet.
pub open spec fn last_partition_timestamp(m: ByoStateModel, pid: i32) -> u64 {
    if m.last_partition_ts.contains_key(pid) {
        m.last_partition_ts[pid]
    } else {
        0
    }
}

/// The acceptance rule for a declared tuple.
pub open spec fn accepts(m: ByoStateModel, pcount: i32, pid: i32, ts: u64) -> bool {
    &&& ts != 0
    &&& ts != u64::MAX
    &&& ts > last_partition_timestamp(m, pid)
    &&& ts >= m.last_ts
    &&& (pcount > m.current_partition_count || ts > m.last_ts)
}

/// The state after one declared tuple: unchanged if rejected, otherwise
/// advanced to the accepted timestamp.
pub open spec fn byo_step_state(m: ByoStateModel, pcount: i32, pid: i32, ts: u64) -> ByoStateModel {
    if accepts(m, pcount, pid, ts) {
        ByoStateModel {
            last_ts: ts,
            current_partition_count: pcount,
            last_partition_ts: m.last_partition_ts.insert(pid, ts),
        }
    } else {
        m
    }
}

/// What one declared tuple emits: nothing if rejected; the real
/// notification if accepted; and, when the partition count grew, first a
/// synthetic notification closing the newest partition (numbered
/// `pcount - 1`) as empty up to the previously closed timestamp.
pub open spec fn byo_step_notifications(
    id: SourceInstanceId,
    m: ByoStateModel,
    pcount: i32,
    pid: i32,
    ts: u64,
    offset: i64,
) -> Seq<AdvanceSourceTimestamp> {
    if accepts(m, pcount, pid, ts) {
        let accepted_note = AdvanceSourceTimestamp {
            id,
            partition_count: pcount,
            pid,
            timestamp: ts,
            offset,
        };
        if pcount > m.current_partition_count {
            seq![
                AdvanceSourceTimestamp {
                    id,
                    partition_count: pcount,
                    pid: (pcount - 1) as i32,
                    timestamp: m.last_ts,
                    offset: 0,
                },
                accepted_note,
            ]
        } else {
            seq![accepted_note]
        }
    } else {
        Seq::empty()
    }
}

/// The state and emissions after a whole batch of declared tuples,
/// applied in arrival order.
pub open spec fn byo_run(
    id: SourceInstanceId,
    m: ByoStateModel,
    ups: Seq<(i32, i32, u64, i64)>,
) -> (ByoStateModel, Seq<AdvanceSourceTimestamp>)
    decreases ups.len(),
{
    if ups.len() == 0 {
        (m, Seq::empty())
    } else {
        let (m1, out1) = byo_run(id, m, ups.drop_last());
        let u = ups.last();
        (byo_step_state(m1, u.0, u.1, u.2), out1 + byo_step_notifications(
            id,
            m1,
            u.0,
            u.1,
            u.2,
            u.3,
        ))
    }
}

/// Well-formedness: every per-partition timestamp was once accepted, so
/// it is nonzero and at most the source-wide last timestamp, which in
/// turn never reaches `u64::MAX`.
pub open spec fn byo_state_wf(m: ByoStateModel) -> bool {
    &&& m.last_ts < u64::MAX
    &&& forall|p: i32|
        m.last_partition_ts.contains_key(p) ==> 0 < #[trigger] m.last_partition_ts[p] <= m.last_ts
}

pub proof fn lemma_byo_step_preserves_wf(m: ByoStateModel, pcount: i32, pid: i32, ts: u64)
    requires
        byo_state_wf(m),
    ensures
        byo_state_wf(byo_step_state(m, pcount, pid, ts)),
{
}

pub proof fn lemma_byo_run_preserves_wf(
    id: SourceInstanceId,
    m: ByoStateModel,
    ups: Seq<(i32, i32, u64, i64)>,
)
    requires
        byo_state_wf(m),
    ensures
        byo_state_wf(byo_run(id, m, ups).0),
    decreases ups.len(),
{
    if ups.len() > 0 {
        lemma_byo_run_preserves_wf(id, m, ups.drop_last());
        let u = ups.last();
        lemma_byo_step_preserves_wf(byo_run(id, m, ups.drop_last()).0, u.0, u.1, u.2);
    }
}

/// Progress state of one tracked BYO source, between ticks.
pub struct ByoTimestampConsumer {
    pub connector: ByoTimestampConnector,
    pub source_name: Vec<u8>,
    pub envelope: Envelope,
    pub last_partition_ts: HashMap<i32, u64>,
    pub last_ts: u64,
    pub current_partition_count: i32,
}

impl ByoTimestampConsumer {
    pub open spec fn model(&self) -> ByoStateModel {
        ByoStateModel {
            last_ts: self.last_ts,
            current_partition_count: self.current_partition_count,
            last_partition_ts: self.last_partition_ts@,
        }
    }

    pub open spec fn wf(&self) -> bool {
        byo_state_wf(self.model())
    }

    /// A freshly registered BYO source: nothing accepted yet.
    pub fn new(connector: ByoTimestampConnector, source_name: Vec<u8>, envelope: Envelope) -> (c:
        Self)
        ensures
            c.connector == connector,
            c.source_name@ == source_name@,
            c.envelope == envelope,
            c.last_ts == 0,
            c.current_partition_count == 0,
            c.last_partition_ts@ == Map::<i32, u64>::empty(),
            c.wf(),
    {
        ByoTimestampConsumer {
            connector,
            source_name,
            envelope,
            last_partition_ts: HashMap::new(),
            last_ts: 0,
            current_partition_count: 0,
        }
    }

    /// Validates one declared tuple against the acceptance rule and, if
    /// accepted, advances the state and appends the emitted
    /// notifications (the synthetic closing notification first when the
    /// partition count grew).
    pub fn apply_update(
        &mut self,
        id: SourceInstanceId,
        pcount: i32,
        pid: i32,
        ts: u64,
        offset: i64,
        out: &mut Vec<AdvanceSourceTimestamp>,
    )
        ensures
            final(self).model() == byo_step_state(old(self).model(), pcount, pid, ts),
            final(self).connector == old(self).connector,
            final(self).source_name@ == old(self).source_name@,
            final(self).envelope == old(self).envelope,
            final(out)@ == old(out)@ + byo_step_notifications(
                id,
                old(self).model(),
                pcount,
                pid,
                ts,
                offset,
            ),
    {
        let last_p: u64 = match self.last_partition_ts.get(&pid) {
            Some(v) => *v,
            None => 0,
        };
        proof {
            assert(last_p == last_partition_timestamp(self.model(), pid));
        }
        if ts == 0 || ts == u64::MAX || ts < self.last_ts || ts <= last_p || (pcount
            <= self.current_partition_count && ts == self.last_ts) {
            proof {
                assert(!accepts(self.model(), pcount, pid, ts));
                assert(final(out)@ =~= old(out)@ + byo_step_notifications(
                    id,
                    old(self).model(),
                    pcount,
                    pid,
                    ts,
                    offset,
                ));
            }
        } else {
            proof {
                assert(accepts(self.model(), pcount, pid, ts));
            }
            if self.current_partition_count < pcount {
                out.push(
                    AdvanceSourceTimestamp {
                        id,
                        partition_count: pcount,
                        pid: pcount - 1,
                        timestamp: self.last_ts,
                        offset: 0,
                    },
                );
            }
            self.current_partition_count = pcount;
            self.last_ts = ts;
            self.last_partition_ts.insert(pid, ts);
            out.push(AdvanceSourceTimestamp { id, partition_count: pcount, pid, timestamp: ts, offset });
            proof {
                assert(final(out)@ =~= old(out)@ + byo_step_notifications(
                    id,
                    old(self).model(),
                    pcount,
                    pid,
                    ts,
                    offset,
                ));
            }
        }
    }

    /// Applies a whole batch of declared tuples in order, returning every
    /// emitted notification.
    pub fn apply_updates(
        &mut self,
        id: SourceInstanceId,
        ups: &Vec<(i32, i32, u64, i64)>,
    ) -> (out: Vec<AdvanceSourceTimestamp>)
        ensures
            (final(self).model(), out@) == byo_run(id, old(self).model(), ups@),
            final(self).connector == old(self).connector,
            final(self).source_name@ == old(self).source_name@,
            final(self).envelope == old(self).envelope,
    {
        let ghost m0 = self.model();
        let n = ups.len();
        let mut out: Vec<AdvanceSourceTimestamp> = Vec::new();
        let mut i: usize = 0;
        proof {
            assert(ups@.take(0) =~= Seq::<(i32, i32, u64, i64)>::empty());
        }
        while i < n
            invariant
                0 <= i <= n,
                n == ups@.len(),
                m0 == old(self).model(),
                (self.model(), out@) == byo_run(id, m0, ups@.take(i as int)),
                self.connector == old(self).connector,
                self.source_name@ == old(self).source_name@,
                self.envelope == old(self).envelope,
            decreases n - i,
        {
            proof {
                assert(ups@.take(i + 1).drop_last() =~= ups@.take(i as int));
                assert(ups@.take(i + 1).last() == ups@[i as int]);
            }
            let u = ups[i];
            self.apply_update(id, u.0, u.1, u.2, u.3, &mut out);
            i = i + 1;
        }
        proof {
            assert(ups@.take(n as int) =~= ups@);
        }
        out
    }
}

} // verus!
