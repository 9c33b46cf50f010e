use std::collections::HashMap;
use std::time::Duration;

use timestamper::byo::ByoTimestampConnector;
use timestamper::byo::ByoTimestampConsumer;
use timestamper::timestamper::Timestamper;
use timestamper::types::AdvanceSourceTimestamp;
use timestamper::types::ByoError;
use timestamper::types::Envelope;
use timestamper::types::SourceInstanceId;
use timestamper::types::TimestampConfig;

fn config() -> TimestampConfig {
    TimestampConfig { frequency: Duration::from_millis(10), max_size: 100 }
}

fn id() -> SourceInstanceId {
    SourceInstanceId { sid: 7, vid: 3 }
}

/// A timestamper tracking one BYO source named `S` whose declared
/// partition count starts at 1, as the scenarios assume.
fn byo_fixture() -> Timestamper {
    let mut t = Timestamper::new_with_max_ts(&config(), 0);
    t.byo_sources.push((
        id(),
        ByoTimestampConsumer {
            connector: ByoTimestampConnector::Kafka,
            source_name: b"S".to_vec(),
            envelope: Envelope::Plain,
            last_partition_ts: HashMap::new(),
            last_ts: 0,
            current_partition_count: 1,
        },
    ));
    t
}

fn msg(s: &str) -> Vec<u8> {
    s.as_bytes().to_vec()
}

#[test]
fn first_update_accepted() {
    let mut t = byo_fixture();
    let out = t.update_byo_timestamp(id(), &vec![msg("S,1,0,100,50")]).unwrap();
    assert_eq!(
        out,
        vec![AdvanceSourceTimestamp { id: id(), partition_count: 1, pid: 0, timestamp: 100, offset: 50 }]
    );
    let state = &t.byo_sources[0].1;
    assert_eq!(state.last_ts, 100);
    assert_eq!(state.current_partition_count, 1);
    assert_eq!(state.last_partition_ts.get(&0), Some(&100));
}

#[test]
fn partition_growth_emits_closing_update() {
    let mut t = byo_fixture();
    t.update_byo_timestamp(id(), &vec![msg("S,1,0,100,50")]).unwrap();
    let out = t.update_byo_timestamp(id(), &vec![msg("S,2,1,150,0")]).unwrap();
    assert_eq!(
        out,
        vec![
            AdvanceSourceTimestamp { id: id(), partition_count: 2, pid: 1, timestamp: 100, offset: 0 },
            AdvanceSourceTimestamp { id: id(), partition_count: 2, pid: 1, timestamp: 150, offset: 0 },
        ]
    );
    let state = &t.byo_sources[0].1;
    assert_eq!(state.current_partition_count, 2);
    assert_eq!(state.last_ts, 150);
    assert_eq!(state.last_partition_ts.get(&0), Some(&100));
    assert_eq!(state.last_partition_ts.get(&1), Some(&150));
}

#[test]
fn regressing_timestamp_rejected() {
    let mut t = byo_fixture();
    t.update_byo_timestamp(id(), &vec![msg("S,1,0,100,50")]).unwrap();
    t.update_byo_timestamp(id(), &vec![msg("S,2,1,150,0")]).unwrap();
    let out = t.update_byo_timestamp(id(), &vec![msg("S,2,0,90,60")]).unwrap();
    assert_eq!(out, vec![]);
    let state = &t.byo_sources[0].1;
    assert_eq!(state.current_partition_count, 2);
    assert_eq!(state.last_ts, 150);
    assert_eq!(state.last_partition_ts.get(&0), Some(&100));
    assert_eq!(state.last_partition_ts.get(&1), Some(&150));
}

#[test]
fn malformed_message_discarded() {
    let mut t = byo_fixture();
    let out = t.update_byo_timestamp(id(), &vec![msg("S,1,0")]).unwrap();
    assert_eq!(out, vec![]);
    let state = &t.byo_sources[0].1;
    assert_eq!(state.last_ts, 0);
    assert_eq!(state.current_partition_count, 1);
    assert!(state.last_partition_ts.is_empty());
}

#[test]
fn zero_and_max_timestamps_rejected() {
    let mut t = byo_fixture();
    let out = t
        .update_byo_timestamp(
            id(),
            &vec![msg("S,1,0,0,5"), msg("S,1,0,18446744073709551615,5")],
        )
        .unwrap();
    assert_eq!(out, vec![]);
    assert_eq!(t.byo_sources[0].1.last_ts, 0);
}

#[test]
fn equal_timestamp_without_growth_rejected() {
    let mut t = byo_fixture();
    t.update_byo_timestamp(id(), &vec![msg("S,1,0,100,50")]).unwrap();
    // Same source-wide timestamp on another partition, same count: no
    // partition was added, so an exact repeat is refused.
    let out = t.update_byo_timestamp(id(), &vec![msg("S,1,1,100,10")]).unwrap();
    assert_eq!(out, vec![]);
    assert_eq!(t.byo_sources[0].1.last_ts, 100);
    assert_eq!(t.byo_sources[0].1.last_partition_ts.get(&1), None);
}

#[test]
fn equal_timestamp_with_growth_accepted() {
    let mut t = byo_fixture();
    t.update_byo_timestamp(id(), &vec![msg("S,1,0,100,50")]).unwrap();
    let out = t.update_byo_timestamp(id(), &vec![msg("S,2,1,100,10")]).unwrap();
    assert_eq!(
        out,
        vec![
            AdvanceSourceTimestamp { id: id(), partition_count: 2, pid: 1, timestamp: 100, offset: 0 },
            AdvanceSourceTimestamp { id: id(), partition_count: 2, pid: 1, timestamp: 100, offset: 10 },
        ]
    );
    assert_eq!(t.byo_sources[0].1.last_ts, 100);
}

#[test]
fn other_sources_messages_ignored() {
    let mut t = byo_fixture();
    let out = t
        .update_byo_timestamp(id(), &vec![msg("other,1,0,100,50"), msg("S,1,0,120,7")])
        .unwrap();
    assert_eq!(
        out,
        vec![AdvanceSourceTimestamp { id: id(), partition_count: 1, pid: 0, timestamp: 120, offset: 7 }]
    );
}

#[test]
fn untracked_source_is_noop() {
    let mut t = byo_fixture();
    let other = SourceInstanceId { sid: 99, vid: 99 };
    let out = t.update_byo_timestamp(other, &vec![msg("S,1,0,100,50")]).unwrap();
    assert_eq!(out, vec![]);
    assert_eq!(t.byo_sources[0].1.last_ts, 0);
}

#[test]
fn debezium_envelope_is_fatal() {
    let mut t = Timestamper::new_with_max_ts(&config(), 0);
    t.byo_sources.push((
        id(),
        ByoTimestampConsumer {
            connector: ByoTimestampConnector::Kafka,
            source_name: b"S".to_vec(),
            envelope: Envelope::Debezium,
            last_partition_ts: HashMap::new(),
            last_ts: 0,
            current_partition_count: 0,
        },
    ));
    let r = t.update_byo_timestamp(id(), &vec![msg("S,1,0,100,50")]);
    assert_eq!(r, Err(ByoError::UnimplementedEnvelope));
    assert_eq!(t.byo_sources[0].1.last_ts, 0);
}
