//! Shared data model: source identities, consistency models, connector
//! kinds, control messages, outbound notifications, and persisted records.

use vstd::prelude::*;

verus! {

/// Compound identifier of one tracked ingestion instance: the source and
/// the view it feeds.  Never reused for a different source while live.
#[derive(Clone, Copy, PartialEq, Eq, Structural, Hash, Debug)]
pub struct SourceInstanceId {
    pub sid: u64,
    pub vid: u64,
}

/// How timestamps are assigned for a source: by polling the source's own
/// progress (`RealTime`), or by draining a control stream on which an
/// upstream producer declares timestamp/offset boundaries itself
/// (`BringYourOwn`, carrying the control topic's name).
#[derive(Clone, PartialEq, Eq, Debug)]
pub enum Consistency {
    RealTime,
    BringYourOwn(Vec<u8>),
}

/// Record envelope for a BYO control stream.  Only the plain, unenveloped
/// text format is implemented; `Debezium` is recognized but unsupported,
/// and reaching it is reported as a fatal error.
#[derive(Clone, Copy, PartialEq, Eq, Structural, Debug)]
pub enum Envelope {
    Plain,
    Debezium,
}

/// The part of an external source's description that timestamping reads:
/// which kind of client serves it, and for a partitioned log, its topic.
/// Connection details (addresses, credentials) stay with the caller that
/// builds the actual clients.
#[derive(Clone, PartialEq, Eq, Debug)]
pub enum SourceConnector {
    Kafka { topic: Vec<u8> },
    File,
    AvroOcf,
    Kinesis,
}

/// Inbound control messages that mutate the set of tracked sources.
#[derive(Clone, Debug)]
pub enum TimestampMessage {
    Add(SourceInstanceId, SourceConnector, Consistency, Envelope),
    DropInstance(SourceInstanceId),
    Shutdown,
}

/// Outbound notification: partition `pid` of the source is closed up to
/// `offset` at logical time `timestamp`.
#[derive(Clone, Copy, PartialEq, Eq, Structural, Debug)]
pub struct AdvanceSourceTimestamp {
    pub id: SourceInstanceId,
    pub partition_count: i32,
    pub pid: i32,
    pub timestamp: u64,
    pub offset: i64,
}

/// One persisted timestamp binding, as stored durably and as replayed at
/// source registration.
#[derive(Clone, Copy, PartialEq, Eq, Structural, Debug)]
pub struct TimestampRecord {
    pub id: SourceInstanceId,
    pub pcount: i32,
    pub pid: i32,
    pub timestamp: u64,
    pub offset: i64,
}

/// Configuration surface: how often a tick runs, and the largest offset
/// range (and BYO message batch) a single tick may cover per source.
pub struct TimestampConfig {
    pub frequency: core::time::Duration,
    pub max_size: i64,
}

/// A failed call into the durable timestamp store.  The storage engine is
/// an external collaborator; its own error value carries no meaning the
/// protocol can act on, so only the fact of the failure is kept.
#[derive(Clone, Copy, PartialEq, Eq, Structural, Debug)]
pub struct StoreError {}

/// A BYO source whose envelope has no implemented handling was ticked.
/// This is a fatal condition for that code path, surfaced as an error so
/// the owning driver can abort.
#[derive(Clone, Copy, PartialEq, Eq, Structural, Debug)]
pub enum ByoError {
    UnimplementedEnvelope,
}

} // verus!
