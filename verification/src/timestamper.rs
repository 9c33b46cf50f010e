//! The timestamper: the live registry of tracked sources, the global
//! logical clock, and the per-tick operations that a driver invokes —
//! draining control messages, advancing real-time sources, and draining
//! BYO control streams.
//!
//! The driver owns the actual clients and channels; every decision —
//! what a control message changes, which offset a timestamp closes off,
//! which declared tuples are accepted — is made here.

use vstd::prelude::*;

use crate::byo::ByoStateModel;
use crate::byo::ByoTimestampConsumer;
use crate::byo::ByoTimestampConnector;
use crate::byo::byo_run;
use crate::byo::byo_state_wf;
use crate::byo::lemma_byo_run_preserves_wf;
use crate::registry::lemma_has_key_same_keys;
use crate::registry::remove_key;
use crate::parse::byo_extract_ts_update;
use crate::parse::spec_extracted;
use crate::registry::find_key;
use crate::registry::find_key_index;
use crate::registry::has_key;
use crate::registry::lemma_find_key_index_props;
use crate::registry::unique_keys;
use crate::registry::vec_index_mut;
use crate::rt::RtTimestampConsumer;
use crate::rt::RtTimestampConnector;
use crate::rt::RtUpdate;
use crate::rt::RtWatermark;
use crate::rt::bounded_next_offset;
use crate::rt::rt_observe_run;
use crate::rt::rt_observe_step;
use crate::rt::rt_placeholders;
use crate::store::store_insert;
use crate::types::AdvanceSourceTimestamp;
use crate::types::ByoError;
use crate::types::Consistency;
use crate::types::Envelope;
use crate::parse::clone_bytes;
use crate::store::store_delete;
use crate::store::store_replay;
use crate::store::records_from_rows;
use crate::rt::recover_max_offset;
use crate::rt::records_to_notifications;
use crate::rt::spec_max_offset;
use crate::rt::spec_record_notification;
use crate::types::SourceConnector;
use crate::types::SourceInstanceId;
use crate::types::StoreError;
use crate::types::TimestampConfig;
use crate::types::TimestampMessage;
use crate::types::TimestampRecord;

verus! {

/// Relies on std's `SystemTime::now`: one wall-clock reading, converted
/// to whole milliseconds since the Unix epoch, or zero for a reading
/// before the epoch.  Nothing is promised of the value: successive
/// readings may repeat or go backwards.
#[verifier::external_body]
pub(crate) fn now_millis() -> (r: u64) {
    match std::time::SystemTime::now().duration_since(std::time::UNIX_EPOCH) {
        Ok(d) => d.as_millis() as u64,
        Err(_) => 0,
    }
}

/// How many stalled clock readings a mint tolerates before stepping the
/// logical clock by one instead of sampling further.
pub const CLOCK_RESAMPLE_BOUND: u64 = 1000000;

/// The timestamp assigner: two disjoint registries of tracked sources
/// and the process-wide logical clock.
pub struct Timestamper {
    pub rt_sources: Vec<(SourceInstanceId, RtTimestampConsumer)>,
    pub byo_sources: Vec<(SourceInstanceId, ByoTimestampConsumer)>,
    pub current_timestamp: u64,
    pub timestamp_frequency: core::time::Duration,
    pub max_increment_size: i64,
}

impl Timestamper {
    /// Well-formedness: each registry keyed uniquely, no source tracked
    /// under both consistency models, every BYO state well-formed, and a
    /// nonnegative increment bound.
    pub open spec fn wf(&self) -> bool {
        &&& unique_keys(self.rt_sources@)
        &&& unique_keys(self.byo_sources@)
        &&& forall|k: int|
            0 <= k < self.byo_sources@.len() ==> !has_key(
                self.rt_sources@,
                (#[trigger] self.byo_sources@[k]).0,
            )
        &&& forall|k: int|
            0 <= k < self.byo_sources@.len() ==> byo_state_wf(
                (#[trigger] self.byo_sources@[k]).1.model(),
            )
        &&& 0 <= self.max_increment_size
    }

    /// A tracked source is in exactly one registry.
    pub open spec fn tracks(&self, id: SourceInstanceId) -> bool {
        has_key(self.rt_sources@, id) || has_key(self.byo_sources@, id)
    }

    /// A fresh assigner whose clock starts at the given recovered
    /// maximum, so that no previously persisted timestamp is ever
    /// reused or regressed past.
    pub fn new_with_max_ts(config: &TimestampConfig, max_ts: u64) -> (t: Timestamper)
        requires
            0 <= config.max_size,
        ensures
            t.rt_sources@ == Seq::<(SourceInstanceId, RtTimestampConsumer)>::empty(),
            t.byo_sources@ == Seq::<(SourceInstanceId, ByoTimestampConsumer)>::empty(),
            t.current_timestamp == max_ts,
            t.timestamp_frequency == config.frequency,
            t.max_increment_size == config.max_size,
            t.wf(),
    {
        Timestamper {
            rt_sources: Vec::new(),
            byo_sources: Vec::new(),
            current_timestamp: max_ts,
            timestamp_frequency: config.frequency,
            max_increment_size: config.max_size,
        }
    }

    /// A fresh assigner seeded from the store: the clock starts at the
    /// maximum persisted timestamp, or zero on an empty store.  A store
    /// that cannot be read is fatal.
    pub fn new(config: &TimestampConfig, conn: &rusqlite::Connection) -> (r: Result<
        Timestamper,
        crate::types::StoreError,
    >)
        requires
            0 <= config.max_size,
        ensures
            match r {
                Ok(t) => {
                    &&& t.rt_sources@ == Seq::<(SourceInstanceId, RtTimestampConsumer)>::empty()
                    &&& t.byo_sources@ == Seq::<(SourceInstanceId, ByoTimestampConsumer)>::empty()
                    &&& t.timestamp_frequency == config.frequency
                    &&& t.max_increment_size == config.max_size
                    &&& exists|raw: Option<i64>| t.current_timestamp
                        == crate::store::spec_recovered_timestamp(raw)
                    &&& t.current_timestamp <= i64::MAX as u64
                    &&& t.wf()
                },
                Err(_) => true,
            },
    {
        let raw = match crate::store::store_max_timestamp(conn) {
            Ok(v) => v,
            Err(e) => {
                return Err(e);
            },
        };
        let max_ts = crate::store::recovered_timestamp(raw);
        Ok(Self::new_with_max_ts(config, max_ts))
    }

    /// Mints the next logical timestamp: strictly greater than the
    /// current one, taken from the wall clock when a reading above the
    /// current value arrives, and stepped past a stalled clock after a
    /// bounded number of readings, so a tick never blocks forever.
    pub fn rt_generate_next_timestamp(&mut self)
        requires
            old(self).current_timestamp < u64::MAX,
        ensures
            final(self).current_timestamp > old(self).current_timestamp,
            final(self).rt_sources@ == old(self).rt_sources@,
            final(self).byo_sources@ == old(self).byo_sources@,
            final(self).timestamp_frequency == old(self).timestamp_frequency,
            final(self).max_increment_size == old(self).max_increment_size,
    {
        let mut new_ts: u64 = 0;
        let mut attempts: u64 = CLOCK_RESAMPLE_BOUND;
        while new_ts <= self.current_timestamp && attempts > 0
            invariant
                *self == *old(self),
            decreases attempts,
        {
            new_ts = now_millis();
            attempts = attempts - 1;
        }
        if new_ts <= self.current_timestamp {
            new_ts = self.current_timestamp + 1;
        }
        self.current_timestamp = new_ts;
    }

    pub fn contains_source(&self, id: SourceInstanceId) -> (r: bool)
        ensures
            r == self.tracks(id),
    {
        proof {
            lemma_find_key_index_props(self.rt_sources@, id);
            lemma_find_key_index_props(self.byo_sources@, id);
        }
        match find_key(&self.rt_sources, id) {
            Some(_) => true,
            None => match find_key(&self.byo_sources, id) {
                Some(_) => true,
                None => false,
            },
        }
    }

    /// Registers a real-time source with its recovered offset.  Adding a
    /// source that is already tracked, under either model, is a no-op.
    pub fn add_rt_source(
        &mut self,
        id: SourceInstanceId,
        connector: RtTimestampConnector,
        last_offset: i64,
    )
        requires
            old(self).wf(),
        ensures
            final(self).wf(),
            old(self).tracks(id) ==> *final(self) == *old(self),
            !old(self).tracks(id) ==> final(self).rt_sources@ == old(self).rt_sources@.push(
                (id, RtTimestampConsumer { connector, last_offset }),
            ),
            final(self).byo_sources@ == old(self).byo_sources@,
            final(self).current_timestamp == old(self).current_timestamp,
            final(self).timestamp_frequency == old(self).timestamp_frequency,
            final(self).max_increment_size == old(self).max_increment_size,
            final(self).tracks(id),
    {
        if !self.contains_source(id) {
            self.rt_sources.push((id, RtTimestampConsumer { connector, last_offset }));
            proof {
                let s = final(self).rt_sources@;
                assert(s.last().0 == id);
                assert(has_key(s, id));
            }
        }
    }

    /// Registers a BYO source with a fresh progress state.  Adding a
    /// source that is already tracked, under either model, is a no-op.
    pub fn add_byo_source(
        &mut self,
        id: SourceInstanceId,
        connector: ByoTimestampConnector,
        source_name: Vec<u8>,
        envelope: Envelope,
    )
        requires
            old(self).wf(),
        ensures
            final(self).wf(),
            old(self).tracks(id) ==> *final(self) == *old(self),
            !old(self).tracks(id) ==> {
                &&& final(self).byo_sources@.len() == old(self).byo_sources@.len() + 1
                &&& final(self).byo_sources@.drop_last() == old(self).byo_sources@
                &&& final(self).byo_sources@.last().0 == id
                &&& final(self).byo_sources@.last().1.connector == connector
                &&& final(self).byo_sources@.last().1.source_name@ == source_name@
                &&& final(self).byo_sources@.last().1.envelope == envelope
                &&& final(self).byo_sources@.last().1.last_ts == 0
                &&& final(self).byo_sources@.last().1.current_partition_count == 0
                &&& final(self).byo_sources@.last().1.last_partition_ts@ == Map::<i32, u64>::empty()
            },
            final(self).rt_sources@ == old(self).rt_sources@,
            final(self).current_timestamp == old(self).current_timestamp,
            final(self).timestamp_frequency == old(self).timestamp_frequency,
            final(self).max_increment_size == old(self).max_increment_size,
            final(self).tracks(id),
    {
        if !self.contains_source(id) {
            let consumer = ByoTimestampConsumer::new(connector, source_name, envelope);
            self.byo_sources.push((id, consumer));
            proof {
                let s = final(self).byo_sources@;
                assert(s.drop_last() =~= old(self).byo_sources@);
                assert(s.last().0 == id);
                assert(has_key(s, id));
                assert(forall|k: int|
                    0 <= k < s.len() - 1 ==> (#[trigger] s[k]) == old(self).byo_sources@[k]);
            }
        }
    }

    /// Deregisters a source from whichever registry holds it.  Dropping
    /// an untracked source changes nothing.
    pub fn drop_source(&mut self, id: SourceInstanceId)
        requires
            old(self).wf(),
        ensures
            final(self).wf(),
            ({
                let i = find_key_index(old(self).rt_sources@, id);
                final(self).rt_sources@ == if i >= 0 {
                    old(self).rt_sources@.remove(i)
                } else {
                    old(self).rt_sources@
                }
            }),
            ({
                let i = find_key_index(old(self).byo_sources@, id);
                final(self).byo_sources@ == if i >= 0 {
                    old(self).byo_sources@.remove(i)
                } else {
                    old(self).byo_sources@
                }
            }),
            !old(self).tracks(id) ==> *final(self) == *old(self),
            !final(self).tracks(id),
            final(self).current_timestamp == old(self).current_timestamp,
            final(self).timestamp_frequency == old(self).timestamp_frequency,
            final(self).max_increment_size == old(self).max_increment_size,
    {
        proof {
            lemma_find_key_index_props(old(self).rt_sources@, id);
            lemma_find_key_index_props(old(self).byo_sources@, id);
        }
        match find_key(&self.rt_sources, id) {
            Some(i) => {
                self.rt_sources.remove(i);
            },
            None => {},
        }
        match find_key(&self.byo_sources, id) {
            Some(i) => {
                self.byo_sources.remove(i);
            },
            None => {},
        }
        proof {
            lemma_remove_key_absent(old(self).rt_sources@, id);
            lemma_remove_key_absent(old(self).byo_sources@, id);
        }
    }
}

/// Whether some drained message is a `Shutdown`: the tick that drains
/// one finishes applying the whole drain, then reports it.
pub open spec fn has_shutdown(msgs: Seq<TimestampMessage>) -> bool {
    exists|k: int| 0 <= k < msgs.len() && (#[trigger] msgs[k]) is Shutdown
}

/// Whether some drained message makes the drain touch the store: a
/// `DropInstance` purges history, and an `Add` under the real-time
/// model replays it.  A batch with neither is owed success.
pub open spec fn touches_store(msgs: Seq<TimestampMessage>) -> bool {
    exists|k: int|
        0 <= k < msgs.len() && ((#[trigger] msgs[k]) matches TimestampMessage::DropInstance(_id)
            || msgs[k] matches TimestampMessage::Add(_id, _sc, Consistency::RealTime, _env))
}

/// The client kind that serves a connector in real time.
pub open spec fn rt_kind_of(sc: SourceConnector) -> RtTimestampConnector {
    match sc {
        SourceConnector::Kafka { topic: _ } => RtTimestampConnector::Kafka,
        SourceConnector::File => RtTimestampConnector::File,
        SourceConnector::AvroOcf => RtTimestampConnector::File,
        SourceConnector::Kinesis => RtTimestampConnector::Kinesis,
    }
}

/// The client kind that serves a connector's BYO control stream.
pub open spec fn byo_kind_of(sc: SourceConnector) -> ByoTimestampConnector {
    match sc {
        SourceConnector::Kafka { topic: _ } => ByoTimestampConnector::Kafka,
        SourceConnector::File => ByoTimestampConnector::File,
        SourceConnector::AvroOcf => ByoTimestampConnector::File,
        SourceConnector::Kinesis => ByoTimestampConnector::Kinesis,
    }
}

/// The name a BYO source's control messages are filtered by: the topic
/// for a partitioned log, empty for the unsupported kinds.
pub open spec fn byo_name_of(sc: SourceConnector) -> Seq<u8> {
    match sc {
        SourceConnector::Kafka { topic } => topic@,
        SourceConnector::File => Seq::empty(),
        SourceConnector::AvroOcf => Seq::empty(),
        SourceConnector::Kinesis => Seq::empty(),
    }
}

/// What a tracked BYO source is, mathematically: its client kind, the
/// name it filters by, its envelope and its progress state.
pub ghost struct ByoEntryModel {
    pub connector: ByoTimestampConnector,
    pub source_name: Seq<u8>,
    pub envelope: Envelope,
    pub state: ByoStateModel,
}

pub open spec fn byo_entry_model(c: ByoTimestampConsumer) -> ByoEntryModel {
    ByoEntryModel {
        connector: c.connector,
        source_name: c.source_name@,
        envelope: c.envelope,
        state: c.model(),
    }
}

/// The BYO registry, entry by entry, as mathematical values.
pub open spec fn byo_reg_model(s: Seq<(SourceInstanceId, ByoTimestampConsumer)>) -> Seq<
    (SourceInstanceId, ByoEntryModel),
> {
    s.map_values(|p: (SourceInstanceId, ByoTimestampConsumer)| (p.0, byo_entry_model(p.1)))
}

/// A freshly registered BYO source's progress state.
pub open spec fn fresh_byo_state() -> ByoStateModel {
    ByoStateModel { last_ts: 0, current_partition_count: 0, last_partition_ts: Map::empty() }
}

/// Both registries, the notifications emitted so far, and whether a
/// shutdown was seen: the state a control drain folds over.
pub ghost struct ControlState {
    pub rt: Seq<(SourceInstanceId, RtTimestampConsumer)>,
    pub byo: Seq<(SourceInstanceId, ByoEntryModel)>,
    pub out: Seq<AdvanceSourceTimestamp>,
    pub shutdown: bool,
}

/// One control message's effect.  `recs` is what the store replayed
/// for the message; it matters only for an `Add` of an untracked
/// source under the real-time model, which registers the source at the
/// highest replayed offset and re-announces every replayed record.  An
/// `Add` of a tracked source is a no-op, a `DropInstance` deregisters
/// everywhere and touches nothing else, and a `Shutdown` only raises
/// the flag.
pub open spec fn control_step(
    st: ControlState,
    msg: TimestampMessage,
    recs: Seq<TimestampRecord>,
) -> ControlState {
    match msg {
        TimestampMessage::Add(id, sc, consistency, envelope) => {
            if has_key(st.rt, id) || has_key(st.byo, id) {
                st
            } else {
                match consistency {
                    Consistency::RealTime => ControlState {
                        rt: st.rt.push(
                            (
                                id,
                                RtTimestampConsumer {
                                    connector: rt_kind_of(sc),
                                    last_offset: spec_max_offset(recs) as i64,
                                },
                            ),
                        ),
                        byo: st.byo,
                        out: st.out + recs.map_values(
                            |rec: TimestampRecord| spec_record_notification(rec),
                        ),
                        shutdown: st.shutdown,
                    },
                    Consistency::BringYourOwn(_) => ControlState {
                        rt: st.rt,
                        byo: st.byo.push(
                            (
                                id,
                                ByoEntryModel {
                                    connector: byo_kind_of(sc),
                                    source_name: byo_name_of(sc),
                                    envelope,
                                    state: fresh_byo_state(),
                                },
                            ),
                        ),
                        out: st.out,
                        shutdown: st.shutdown,
                    },
                }
            }
        },
        TimestampMessage::DropInstance(id) => ControlState {
            rt: remove_key(st.rt, id),
            byo: remove_key(st.byo, id),
            out: st.out,
            shutdown: st.shutdown,
        },
        TimestampMessage::Shutdown => ControlState {
            rt: st.rt,
            byo: st.byo,
            out: st.out,
            shutdown: true,
        },
    }
}

/// A whole drain's effect: every message applied in order — also those
/// after a `Shutdown` — each with what the store replayed for it.
pub open spec fn control_run(
    st: ControlState,
    msgs: Seq<TimestampMessage>,
    recss: Seq<Seq<TimestampRecord>>,
) -> ControlState
    decreases msgs.len(),
{
    if msgs.len() == 0 {
        st
    } else {
        control_step(
            control_run(st, msgs.drop_last(), recss.drop_last()),
            msgs.last(),
            recss.last(),
        )
    }
}

/// What a replay handed to a real-time `Add` satisfies: every record
/// belongs to the added source, ascending by timestamp.
pub open spec fn records_match(msg: TimestampMessage, recs: Seq<TimestampRecord>) -> bool {
    match msg {
        TimestampMessage::Add(id, _sc, Consistency::RealTime, _env) => {
            &&& forall|j: int| 0 <= j < recs.len() ==> (#[trigger] recs[j]).id == id
            &&& forall|j: int, l: int|
                #![trigger recs[j], recs[l]]
                0 <= j < l < recs.len() ==> recs[j].timestamp <= recs[l].timestamp
        },
        _ => true,
    }
}

/// `records_match`, message by message.
pub open spec fn replayed_records_ok(
    msgs: Seq<TimestampMessage>,
    recss: Seq<Seq<TimestampRecord>>,
) -> bool
    decreases msgs.len(),
{
    if msgs.len() == 0 {
        true
    } else {
        replayed_records_ok(msgs.drop_last(), recss.drop_last()) && records_match(
            msgs.last(),
            recss.last(),
        )
    }
}

/// The BYO registry's model carries the registry's own keys at the
/// same positions.
pub proof fn lemma_byo_model_keys(
    s: Seq<(SourceInstanceId, ByoTimestampConsumer)>,
    id: SourceInstanceId,
)
    ensures
        find_key_index(byo_reg_model(s), id) == find_key_index(s, id),
        has_key(byo_reg_model(s), id) == has_key(s, id),
    decreases s.len(),
{
    lemma_find_key_index_props(s, id);
    lemma_find_key_index_props(byo_reg_model(s), id);
    if s.len() > 0 {
        assert(byo_reg_model(s)[0].0 == s[0].0);
        if s[0].0 != id {
            lemma_byo_model_keys(s.drop_first(), id);
            assert(byo_reg_model(s).drop_first() =~= byo_reg_model(s.drop_first()));
        }
    }
}

/// A drain's shutdown flag is raised iff some drained message is a
/// `Shutdown` (or it was already raised).
pub proof fn lemma_control_run_shutdown(
    st: ControlState,
    msgs: Seq<TimestampMessage>,
    recss: Seq<Seq<TimestampRecord>>,
)
    ensures
        control_run(st, msgs, recss).shutdown == (st.shutdown || has_shutdown(msgs)),
    decreases msgs.len(),
{
    if msgs.len() == 0 {
        assert(!has_shutdown(msgs));
    } else {
        lemma_control_run_shutdown(st, msgs.drop_last(), recss.drop_last());
        if has_shutdown(msgs.drop_last()) {
            let k = choose|k: int|
                0 <= k < msgs.drop_last().len() && (#[trigger] msgs.drop_last()[k]) is Shutdown;
            assert(msgs[k] is Shutdown);
        }
        if msgs.last() is Shutdown {
            assert(msgs[msgs.len() - 1] is Shutdown);
        }
        if has_shutdown(msgs) && !(msgs.last() is Shutdown) {
            let k = choose|k: int| 0 <= k < msgs.len() && (#[trigger] msgs[k]) is Shutdown;
            assert(msgs.drop_last()[k] is Shutdown);
        }
    }
}

/// Taking a key out of the BYO registry and modelling it commute.
pub proof fn lemma_byo_model_remove(
    s: Seq<(SourceInstanceId, ByoTimestampConsumer)>,
    id: SourceInstanceId,
)
    ensures
        byo_reg_model(remove_key(s, id)) == remove_key(byo_reg_model(s), id),
{
    lemma_byo_model_keys(s, id);
    lemma_find_key_index_props(s, id);
    let i = find_key_index(s, id);
    if i >= 0 {
        assert(forall|k: int|
            0 <= k < s.remove(i).len() ==> (#[trigger] s.remove(i)[k]) == if k < i {
                s[k]
            } else {
                s[k + 1]
            });
        assert(forall|k: int|
            0 <= k < byo_reg_model(s).remove(i).len() ==> (#[trigger] byo_reg_model(s).remove(
                i,
            )[k]) == if k < i {
                byo_reg_model(s)[k]
            } else {
                byo_reg_model(s)[k + 1]
            });
        assert(byo_reg_model(s.remove(i)) =~~= byo_reg_model(s).remove(i));
    }
}

impl Timestamper {
    /// Replays one source's persisted records: the notifications that
    /// re-announce its committed progress, ascending by timestamp, and
    /// the highest persisted offset, from which live tracking resumes.
    pub fn rt_recover_source(conn: &rusqlite::Connection, id: SourceInstanceId) -> (r: Result<
        (i64, Vec<AdvanceSourceTimestamp>),
        StoreError,
    >)
        ensures
            match r {
                Ok(v) => exists|records: Seq<TimestampRecord>|
                    {
                        &&& v.0 == spec_max_offset(records)
                        &&& v.0 >= 0
                        &&& v.1@ == records.map_values(|rec: TimestampRecord| spec_record_notification(rec))
                        &&& forall|k: int|
                            0 <= k < records.len() ==> (#[trigger] records[k]).id == id
                        &&& forall|j: int, l: int|
                            #![trigger records[j], records[l]]
                            0 <= j < l < records.len() ==> records[j].timestamp
                                <= records[l].timestamp
                    },
                Err(_) => true,
            },
    {
        let rows = match store_replay(conn, id.sid, id.vid) {
            Ok(v) => v,
            Err(e) => {
                return Err(e);
            },
        };
        let records = records_from_rows(id, &rows);
        let max_offset = recover_max_offset(&records);
        let out = records_to_notifications(&records);
        proof {
            assert(forall|k: int|
                0 <= k < records@.len() ==> (#[trigger] records@[k]).id == id);
            assert forall|j: int, l: int|
                #![trigger records@[j], records@[l]]
                0 <= j < l < records@.len() implies records@[j].timestamp
                <= records@[l].timestamp by {
                assert(records@[j] == crate::store::spec_record_of_row(id, rows@[j]));
                assert(records@[l] == crate::store::spec_record_of_row(id, rows@[l]));
                assert(rows@[j].2 <= rows@[l].2);
            }
        }
        Ok((max_offset, out))
    }

    /// Applies a tick's drained control messages, every one and in
    /// order: registers and deregisters sources, replaying a newly
    /// registered real-time source's committed progress, and purging a
    /// dropped source's persisted history.  A `Shutdown` does not cut
    /// the drain short — the messages after it are still applied — it
    /// is reported once the whole batch is done.  A store that cannot
    /// be read or purged is fatal; a batch that never touches the store
    /// cannot fail.
    pub fn update_sources(
        &mut self,
        conn: &rusqlite::Connection,
        messages: &Vec<TimestampMessage>,
    ) -> (r: Result<(bool, Vec<AdvanceSourceTimestamp>), StoreError>)
        requires
            old(self).wf(),
        ensures
            final(self).wf(),
            final(self).current_timestamp == old(self).current_timestamp,
            final(self).timestamp_frequency == old(self).timestamp_frequency,
            final(self).max_increment_size == old(self).max_increment_size,
            !touches_store(messages@) ==> r is Ok,
            match r {
                Ok(v) => {
                    &&& v.0 == has_shutdown(messages@)
                    &&& exists|recss: Seq<Seq<TimestampRecord>>|
                    {
                        &&& recss.len() == messages@.len()
                        &&& replayed_records_ok(messages@, recss)
                        &&& ({
                            let st = control_run(
                                ControlState {
                                    rt: old(self).rt_sources@,
                                    byo: byo_reg_model(old(self).byo_sources@),
                                    out: Seq::empty(),
                                    shutdown: false,
                                },
                                messages@,
                                recss,
                            );
                            &&& final(self).rt_sources@ == st.rt
                            &&& byo_reg_model(final(self).byo_sources@) == st.byo
                            &&& v.1@ == st.out
                            &&& v.0 == st.shutdown
                        })
                    }
                },
                Err(_) => true,
            },
    {
        let ghost st0 = ControlState {
            rt: old(self).rt_sources@,
            byo: byo_reg_model(old(self).byo_sources@),
            out: Seq::empty(),
            shutdown: false,
        };
        let ghost mut recss: Seq<Seq<TimestampRecord>> = Seq::empty();
        let mut out: Vec<AdvanceSourceTimestamp> = Vec::new();
        let mut saw_shutdown = false;
        let n = messages.len();
        let mut i: usize = 0;
        proof {
            assert(messages@.take(0) =~= Seq::<TimestampMessage>::empty());
        }
        while i < n
            invariant
                0 <= i <= n,
                n == messages@.len(),
                st0 == (ControlState {
                    rt: old(self).rt_sources@,
                    byo: byo_reg_model(old(self).byo_sources@),
                    out: Seq::empty(),
                    shutdown: false,
                }),
                recss.len() == i,
                replayed_records_ok(messages@.take(i as int), recss),
                ({
                    let st = control_run(st0, messages@.take(i as int), recss);
                    &&& self.rt_sources@ == st.rt
                    &&& byo_reg_model(self.byo_sources@) == st.byo
                    &&& out@ == st.out
                    &&& saw_shutdown == st.shutdown
                }),
                self.wf(),
                self.current_timestamp == old(self).current_timestamp,
                self.timestamp_frequency == old(self).timestamp_frequency,
                self.max_increment_size == old(self).max_increment_size,
            decreases n - i,
        {
            let ghost st_i = control_run(st0, messages@.take(i as int), recss);
            let ghost recss_i = recss;
            let msg = &messages[i];
            match msg {
                TimestampMessage::Add(id, sc, consistency, envelope) => {
                    let is_tracked = self.contains_source(*id);
                    proof {
                        lemma_byo_model_keys(self.byo_sources@, *id);
                    }
                    if !is_tracked {
                        match consistency {
                            Consistency::RealTime => {
                                let recovered = match Self::rt_recover_source(conn, *id) {
                                    Ok(v) => v,
                                    Err(e) => {
                                        proof {
                                            assert(touches_store(messages@));
                                        }
                                        return Err(e);
                                    },
                                };
                                let (last_offset, mut notes) = recovered;
                                let ghost records = choose|records: Seq<TimestampRecord>|
                                    {
                                        &&& last_offset == spec_max_offset(records)
                                        &&& last_offset >= 0
                                        &&& notes@ == records.map_values(
                                            |rec: TimestampRecord| spec_record_notification(rec),
                                        )
                                        &&& forall|k: int|
                                            0 <= k < records.len() ==> (#[trigger] records[k]).id
                                                == *id
                                        &&& forall|j: int, l: int|
                                            #![trigger records[j], records[l]]
                                            0 <= j < l < records.len() ==> records[j].timestamp
                                                <= records[l].timestamp
                                    };
                                out.append(&mut notes);
                                let kind = match sc {
                                    SourceConnector::Kafka { topic: _ } => RtTimestampConnector::Kafka,
                                    SourceConnector::File => RtTimestampConnector::File,
                                    SourceConnector::AvroOcf => RtTimestampConnector::File,
                                    SourceConnector::Kinesis => RtTimestampConnector::Kinesis,
                                };
                                self.add_rt_source(*id, kind, last_offset);
                                proof {
                                    recss = recss.push(records);
                                    assert(kind == rt_kind_of(*sc));
                                    assert(control_step(st_i, messages@[i as int], records)
                                        == ControlState {
                                        rt: st_i.rt.push(
                                            (
                                                *id,
                                                RtTimestampConsumer {
                                                    connector: kind,
                                                    last_offset,
                                                },
                                            ),
                                        ),
                                        byo: st_i.byo,
                                        out: st_i.out + records.map_values(
                                            |rec: TimestampRecord| spec_record_notification(rec),
                                        ),
                                        shutdown: st_i.shutdown,
                                    });
                                }
                            },
                            Consistency::BringYourOwn(_topic) => {
                                let (kind, name) = match sc {
                                    SourceConnector::Kafka { topic } => (
                                        ByoTimestampConnector::Kafka,
                                        clone_bytes(topic),
                                    ),
                                    SourceConnector::File => (ByoTimestampConnector::File, Vec::new()),
                                    SourceConnector::AvroOcf => (ByoTimestampConnector::File, Vec::new()),
                                    SourceConnector::Kinesis => (
                                        ByoTimestampConnector::Kinesis,
                                        Vec::new(),
                                    ),
                                };
                                let ghost name0 = name@;
                                let ghost byo_pre = self.byo_sources@;
                                self.add_byo_source(*id, kind, name, *envelope);
                                proof {
                                    recss = recss.push(Seq::empty());
                                    assert(kind == byo_kind_of(*sc));
                                    assert(name0 == byo_name_of(*sc));
                                    assert(self.byo_sources@ =~= byo_pre.push(
                                        self.byo_sources@.last(),
                                    ));
                                    assert(byo_entry_model(self.byo_sources@.last().1)
                                        == ByoEntryModel {
                                        connector: kind,
                                        source_name: name0,
                                        envelope: *envelope,
                                        state: fresh_byo_state(),
                                    });
                                    assert(byo_reg_model(self.byo_sources@) =~~= st_i.byo.push(
                                        (
                                            *id,
                                            ByoEntryModel {
                                                connector: kind,
                                                source_name: name0,
                                                envelope: *envelope,
                                                state: fresh_byo_state(),
                                            },
                                        ),
                                    ));
                                }
                            },
                        }
                    } else {
                        proof {
                            recss = recss.push(Seq::empty());
                        }
                    }
                },
                TimestampMessage::DropInstance(id) => {
                    if !store_delete(conn, id.sid, id.vid) {
                        proof {
                            assert(touches_store(messages@));
                        }
                        return Err(StoreError {});
                    }
                    let ghost rt_pre = self.rt_sources@;
                    let ghost byo_pre = self.byo_sources@;
                    self.drop_source(*id);
                    proof {
                        recss = recss.push(Seq::empty());
                        lemma_byo_model_remove(byo_pre, *id);
                        assert(self.rt_sources@ == remove_key(rt_pre, *id));
                        assert(self.byo_sources@ == remove_key(byo_pre, *id));
                    }
                },
                TimestampMessage::Shutdown => {
                    saw_shutdown = true;
                    proof {
                        recss = recss.push(Seq::empty());
                    }
                },
            }
            proof {
                assert(messages@.take(i + 1).drop_last() =~= messages@.take(i as int));
                assert(messages@.take(i + 1).last() == messages@[i as int]);
                assert(recss.drop_last() =~= recss_i);
                assert(control_run(st0, messages@.take(i + 1), recss) == control_step(
                    st_i,
                    messages@[i as int],
                    recss.last(),
                ));
            }
            i = i + 1;
        }
        proof {
            assert(messages@.take(n as int) =~= messages@);
            lemma_control_run_shutdown(st0, messages@, recss);
        }
        Ok((saw_shutdown, out))
    }
}

impl Timestamper {
    /// Folds a tick's polled watermarks into the real-time registry:
    /// each watermark of a tracked partitioned-log source advances its
    /// closed offset by at most `max_increment_size` and yields one
    /// per-partition target; shard-stream sources yield their
    /// placeholder targets.  The targets carry no timestamp yet — the
    /// tick mints one afterwards.
    pub fn rt_query_sources(&mut self, watermarks: &Vec<RtWatermark>) -> (ups: Vec<RtUpdate>)
        requires
            old(self).wf(),
            old(self).current_timestamp <= i64::MAX as u64,
        ensures
            final(self).wf(),
            final(self).rt_sources@ == rt_observe_run(
                old(self).rt_sources@,
                watermarks@,
                old(self).max_increment_size,
            ).0,
            ups@ == rt_observe_run(old(self).rt_sources@, watermarks@, old(self).max_increment_size).1
                + rt_placeholders(final(self).rt_sources@, old(self).current_timestamp as i64),
            final(self).byo_sources@ == old(self).byo_sources@,
            final(self).current_timestamp == old(self).current_timestamp,
            final(self).timestamp_frequency == old(self).timestamp_frequency,
            final(self).max_increment_size == old(self).max_increment_size,
    {
        let ghost reg0 = self.rt_sources@;
        let ghost max = self.max_increment_size;
        let n = watermarks.len();
        let mut ups: Vec<RtUpdate> = Vec::new();
        let mut i: usize = 0;
        proof {
            assert(watermarks@.take(0) =~= Seq::<RtWatermark>::empty());
        }
        while i < n
            invariant
                0 <= i <= n,
                n == watermarks@.len(),
                reg0 == old(self).rt_sources@,
                max == self.max_increment_size,
                self.wf(),
                (self.rt_sources@, ups@) == rt_observe_run(reg0, watermarks@.take(i as int), max),
                self.byo_sources@ == old(self).byo_sources@,
                self.current_timestamp == old(self).current_timestamp,
                self.timestamp_frequency == old(self).timestamp_frequency,
                self.max_increment_size == old(self).max_increment_size,
            decreases n - i,
        {
            proof {
                assert(watermarks@.take(i + 1).drop_last() =~= watermarks@.take(i as int));
                assert(watermarks@.take(i + 1).last() == watermarks@[i as int]);
            }
            let ghost reg_i = self.rt_sources@;
            let ghost ups_i = ups@;
            let wm = watermarks[i];
            match find_key(&self.rt_sources, wm.id) {
                Some(j) => {
                    let is_kafka = match self.rt_sources[j].1.connector {
                        RtTimestampConnector::Kafka => true,
                        _ => false,
                    };
                    if is_kafka {
                        proof {
                            lemma_find_key_index_props(reg_i, wm.id);
                        }
                        let last = self.rt_sources[j].1.last_offset;
                        let next = bounded_next_offset(last, wm.high, self.max_increment_size);
                        let element = vec_index_mut(&mut self.rt_sources, j);
                        element.1.last_offset = next;
                        ups.push(RtUpdate { id: wm.id, pcount: wm.pcount, pid: wm.pid, offset: next });
                        proof {
                            assert(self.rt_sources@ =~= rt_observe_step(reg_i, wm, max).0);
                            assert(ups@ =~= ups_i + rt_observe_step(reg_i, wm, max).1);
                            assert(forall|k: int|
                                0 <= k < self.rt_sources@.len() ==> (
                                #[trigger] self.rt_sources@[k]).0 == reg_i[k].0);
                            lemma_has_key_same_keys(self.rt_sources@, reg_i);
                        }
                    } else {
                        proof {
                            assert(ups@ =~= ups_i + rt_observe_step(reg_i, wm, max).1);
                        }
                    }
                },
                None => {
                    proof {
                        assert(ups@ =~= ups_i + rt_observe_step(reg_i, wm, max).1);
                    }
                },
            }
            i = i + 1;
        }
        proof {
            assert(watermarks@.take(n as int) =~= watermarks@);
        }
        let ghost reg2 = self.rt_sources@;
        let ghost run_out = ups@;
        let ts_offset: i64 = self.current_timestamp as i64;
        let m = self.rt_sources.len();
        let mut j: usize = 0;
        proof {
            assert(reg2.take(0) =~= Seq::<(SourceInstanceId, RtTimestampConsumer)>::empty());
        }
        while j < m
            invariant
                0 <= j <= m,
                m == self.rt_sources@.len(),
                reg2 == self.rt_sources@,
                ups@ == run_out + rt_placeholders(reg2.take(j as int), ts_offset),
            decreases m - j,
        {
            proof {
                assert(reg2.take(j + 1).drop_last() =~= reg2.take(j as int));
                assert(reg2.take(j + 1).last() == reg2[j as int]);
            }
            let ghost ups_j = ups@;
            let is_kinesis = match self.rt_sources[j].1.connector {
                RtTimestampConnector::Kinesis => true,
                _ => false,
            };
            if is_kinesis {
                let id = self.rt_sources[j].0;
                ups.push(RtUpdate { id, pcount: 0, pid: 0, offset: ts_offset });
            }
            j = j + 1;
        }
        proof {
            assert(reg2.take(m as int) =~= reg2);
        }
        ups
    }

    /// Tries to persist the tick's targets under the current logical
    /// timestamp, from position `start` on, stopping at the first write
    /// the store refuses.  Returns the position reached: the caller
    /// retries from there after a backoff rather than dropping an
    /// update, so persistence failure stalls progress but loses
    /// nothing.
    pub fn rt_persist_timestamp(
        &self,
        conn: &rusqlite::Connection,
        updates: &Vec<RtUpdate>,
        start: usize,
    ) -> (n: usize)
        requires
            start <= updates@.len(),
            self.current_timestamp <= i64::MAX as u64,
        ensures
            start <= n <= updates@.len(),
    {
        let len = updates.len();
        let mut i = start;
        while i < len
            invariant
                start <= i <= len,
                len == updates@.len(),
                self.current_timestamp <= i64::MAX as u64,
            decreases len - i,
        {
            let u = updates[i];
            let ok = store_insert(
                conn,
                u.id.sid,
                u.id.vid,
                u.pcount,
                u.pid,
                self.current_timestamp as i64,
                u.offset,
            );
            if !ok {
                return i;
            }
            i = i + 1;
        }
        i
    }

    /// The notifications announcing the tick's targets, each closed at
    /// the current logical timestamp.
    pub fn rt_notifications(&self, updates: &Vec<RtUpdate>) -> (out: Vec<AdvanceSourceTimestamp>)
        ensures
            out@ == updates@.map_values(
                |u: RtUpdate| AdvanceSourceTimestamp {
                    id: u.id,
                    partition_count: u.pcount,
                    pid: u.pid,
                    timestamp: self.current_timestamp,
                    offset: u.offset,
                },
            ),
    {
        let ghost target = updates@.map_values(
            |u: RtUpdate| AdvanceSourceTimestamp {
                id: u.id,
                partition_count: u.pcount,
                pid: u.pid,
                timestamp: self.current_timestamp,
                offset: u.offset,
            },
        );
        let n = updates.len();
        let mut out: Vec<AdvanceSourceTimestamp> = Vec::new();
        let mut i: usize = 0;
        while i < n
            invariant
                0 <= i <= n,
                n == updates@.len(),
                target == updates@.map_values(
                    |u: RtUpdate| AdvanceSourceTimestamp {
                        id: u.id,
                        partition_count: u.pcount,
                        pid: u.pid,
                        timestamp: self.current_timestamp,
                        offset: u.offset,
                    },
                ),
                out@ =~= target.take(i as int),
            decreases n - i,
        {
            let u = updates[i];
            out.push(
                AdvanceSourceTimestamp {
                    id: u.id,
                    partition_count: u.pcount,
                    pid: u.pid,
                    timestamp: self.current_timestamp,
                    offset: u.offset,
                },
            );
            i = i + 1;
        }
        proof {
            assert(out@ =~= target);
        }
        out
    }

    /// One real-time tick: folds the polled watermarks into the
    /// registry, mints a fresh logical timestamp strictly above every
    /// earlier one, and starts persisting the targets under it.
    /// Returns the targets with how many are already durable; the
    /// caller finishes persistence with `rt_persist_timestamp` under
    /// its own backoff, then announces `rt_notifications`.  A logical
    /// clock beyond the store's representable range is fatal.
    pub fn update_rt_timestamp(
        &mut self,
        conn: &rusqlite::Connection,
        watermarks: &Vec<RtWatermark>,
    ) -> (r: Result<(Vec<RtUpdate>, usize), StoreError>)
        requires
            old(self).wf(),
        ensures
            final(self).wf(),
            final(self).byo_sources@ == old(self).byo_sources@,
            final(self).timestamp_frequency == old(self).timestamp_frequency,
            final(self).max_increment_size == old(self).max_increment_size,
            final(self).current_timestamp >= old(self).current_timestamp,
            old(self).current_timestamp >= i64::MAX as u64 ==> r is Err,
            r is Err ==> old(self).current_timestamp >= i64::MAX as u64 || final(self).current_timestamp > i64::MAX as u64,
            match r {
                Ok(v) => {
                    &&& final(self).rt_sources@ == rt_observe_run(
                        old(self).rt_sources@,
                        watermarks@,
                        old(self).max_increment_size,
                    ).0
                    &&& v.0@ == rt_observe_run(
                        old(self).rt_sources@,
                        watermarks@,
                        old(self).max_increment_size,
                    ).1 + rt_placeholders(
                        final(self).rt_sources@,
                        old(self).current_timestamp as i64,
                    )
                    &&& final(self).current_timestamp > old(self).current_timestamp
                    &&& final(self).current_timestamp <= i64::MAX as u64
                    &&& v.1 <= v.0@.len()
                },
                Err(_) => true,
            },
    {
        if self.current_timestamp >= i64::MAX as u64 {
            return Err(StoreError {});
        }
        let ups = self.rt_query_sources(watermarks);
        self.rt_generate_next_timestamp();
        if self.current_timestamp > i64::MAX as u64 {
            return Err(StoreError {});
        }
        let n = self.rt_persist_timestamp(conn, &ups, 0);
        Ok((ups, n))
    }

    /// One BYO tick for one source, over the raw messages drained from
    /// its control stream: parses them, keeps the tuples addressed to
    /// the source, and validates and applies each in order.  An
    /// untracked source is a no-op; a source whose envelope has no
    /// implemented handling is a fatal error, applied to nothing.
    pub fn update_byo_timestamp(
        &mut self,
        id: SourceInstanceId,
        messages: &Vec<Vec<u8>>,
    ) -> (r: Result<Vec<AdvanceSourceTimestamp>, ByoError>)
        requires
            old(self).wf(),
        ensures
            final(self).wf(),
            final(self).rt_sources@ == old(self).rt_sources@,
            final(self).current_timestamp == old(self).current_timestamp,
            final(self).timestamp_frequency == old(self).timestamp_frequency,
            final(self).max_increment_size == old(self).max_increment_size,
            ({
                let j = find_key_index(old(self).byo_sources@, id);
                if j == -1 {
                    &&& r matches Ok(out) && out@ == Seq::<AdvanceSourceTimestamp>::empty()
                    &&& final(self).byo_sources@ == old(self).byo_sources@
                } else {
                    let consumer = old(self).byo_sources@[j].1;
                    match consumer.envelope {
                        Envelope::Plain => {
                            let ups = spec_extracted(
                                consumer.source_name@,
                                messages@.map_values(|m: Vec<u8>| m@),
                            );
                            let stepped = byo_run(id, consumer.model(), ups);
                            &&& r matches Ok(out) && out@ == stepped.1
                            &&& final(self).byo_sources@.len() == old(self).byo_sources@.len()
                            &&& forall|k: int|
                                0 <= k < old(self).byo_sources@.len() && k != j ==> (
                                #[trigger] final(self).byo_sources@[k]) == old(self).byo_sources@[k]
                            &&& final(self).byo_sources@[j].0 == id
                            &&& final(self).byo_sources@[j].1.model() == stepped.0
                            &&& final(self).byo_sources@[j].1.connector == consumer.connector
                            &&& final(self).byo_sources@[j].1.source_name@ == consumer.source_name@
                            &&& final(self).byo_sources@[j].1.envelope == consumer.envelope
                        },
                        Envelope::Debezium => {
                            &&& r == Err::<Vec<AdvanceSourceTimestamp>, _>(
                                ByoError::UnimplementedEnvelope,
                            )
                            &&& final(self).byo_sources@ == old(self).byo_sources@
                        },
                    }
                }
            }),
    {
        let j = match find_key(&self.byo_sources, id) {
            Some(j) => j,
            None => {
                let empty_out: Vec<AdvanceSourceTimestamp> = Vec::new();
                proof {
                    assert(empty_out@ =~= Seq::<AdvanceSourceTimestamp>::empty());
                }
                return Ok(empty_out);
            },
        };
        let envelope = self.byo_sources[j].1.envelope;
        match envelope {
            Envelope::Plain => {
                let ups = byo_extract_ts_update(&self.byo_sources[j].1.source_name, messages);
                let element = vec_index_mut(&mut self.byo_sources, j);
                let out = element.1.apply_updates(id, &ups);
                proof {
                    lemma_find_key_index_props(old(self).byo_sources@, id);
                    lemma_byo_run_preserves_wf(
                        id,
                        old(self).byo_sources@[j as int].1.model(),
                        ups@,
                    );
                    assert(forall|k: int|
                        0 <= k < self.byo_sources@.len() ==> (
                        #[trigger] self.byo_sources@[k]).0 == old(self).byo_sources@[k].0);
                    lemma_has_key_same_keys(self.byo_sources@, old(self).byo_sources@);
                }
                Ok(out)
            },
            Envelope::Debezium => Err(ByoError::UnimplementedEnvelope),
        }
    }
}

/// Removing the sole pair carrying a key leaves no pair carrying it,
/// and every other key untouched.
pub proof fn lemma_remove_key_absent<T>(s: Seq<(SourceInstanceId, T)>, id: SourceInstanceId)
    requires
        unique_keys(s),
    ensures
        ({
            let i = find_key_index(s, id);
            let s2 = if i >= 0 {
                s.remove(i)
            } else {
                s
            };
            &&& !has_key(s2, id)
            &&& unique_keys(s2)
            &&& forall|x: SourceInstanceId| x != id ==> has_key(s2, x) == has_key(s, x)
        }),
{
    lemma_find_key_index_props(s, id);
    let i = find_key_index(s, id);
    if i >= 0 {
        let s2 = s.remove(i);
        assert(forall|k: int|
            0 <= k < s2.len() ==> (#[trigger] s2[k]) == if k < i {
                s[k]
            } else {
                s[k + 1]
            });
        assert forall|x: SourceInstanceId| x != id && has_key(s, x) implies has_key(s2, x) by {
            let k = choose|k: int| 0 <= k < s.len() && (#[trigger] s[k]).0 == x;
            if k < i {
                assert(s2[k].0 == x);
            } else {
                assert(k != i);
                assert(s2[k - 1].0 == x);
            }
        }
    }
}

} // verus!
