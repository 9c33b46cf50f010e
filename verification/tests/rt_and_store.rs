use std::time::Duration;

use timestamper::rt::bounded_next_offset;
use timestamper::rt::RtTimestampConnector;
use timestamper::rt::RtTimestampConsumer;
use timestamper::rt::RtWatermark;
use timestamper::timestamper::Timestamper;
use timestamper::types::SourceInstanceId;
use timestamper::types::TimestampConfig;

fn config(max_size: i64) -> TimestampConfig {
    TimestampConfig { frequency: Duration::from_millis(10), max_size }
}

fn id() -> SourceInstanceId {
    SourceInstanceId { sid: 1, vid: 2 }
}

fn open_store() -> rusqlite::Connection {
    let conn = rusqlite::Connection::open_in_memory().unwrap();
    conn.execute(
        "CREATE TABLE timestamps (sid INTEGER, vid INTEGER, pcount INTEGER, pid INTEGER, timestamp INTEGER, offset INTEGER)",
        (),
    )
    .unwrap();
    conn
}

#[test]
fn increment_bound_caps_offset() {
    assert_eq!(bounded_next_offset(1000, 2000, 500), 1500);
    assert_eq!(bounded_next_offset(1000, 1200, 500), 1200);
    assert_eq!(bounded_next_offset(0, 0, 500), 0);
    assert_eq!(bounded_next_offset(i64::MAX - 1, i64::MAX, 500), i64::MAX);
}

#[test]
fn rt_tick_bounds_and_advances_offsets() {
    let mut t = Timestamper::new_with_max_ts(&config(500), 0);
    t.rt_sources.push((
        id(),
        RtTimestampConsumer { connector: RtTimestampConnector::Kafka, last_offset: 1000 },
    ));
    let ups = t.rt_query_sources(&vec![RtWatermark { id: id(), pcount: 1, pid: 0, high: 2000 }]);
    assert_eq!(ups.len(), 1);
    assert_eq!(ups[0].offset, 1500);
    assert_eq!(t.rt_sources[0].1.last_offset, 1500);

    let ups = t.rt_query_sources(&vec![RtWatermark { id: id(), pcount: 1, pid: 0, high: 2000 }]);
    assert_eq!(ups[0].offset, 2000);
    assert_eq!(t.rt_sources[0].1.last_offset, 2000);
}

#[test]
fn regressing_watermark_is_followed() {
    // A watermark below the closed offset is taken as is: the source
    // is the authority on its own progress.
    assert_eq!(bounded_next_offset(1000, 900, 500), 900);
    assert_eq!(bounded_next_offset(0, -5, 500), -5);
}

#[test]
fn rt_tick_ignores_untracked_watermarks() {
    let mut t = Timestamper::new_with_max_ts(&config(500), 0);
    let ups = t.rt_query_sources(&vec![RtWatermark { id: id(), pcount: 1, pid: 0, high: 2000 }]);
    assert_eq!(ups, vec![]);
}

#[test]
fn shard_stream_source_reports_placeholder() {
    let mut t = Timestamper::new_with_max_ts(&config(500), 4242);
    t.rt_sources.push((
        id(),
        RtTimestampConsumer { connector: RtTimestampConnector::Kinesis, last_offset: 0 },
    ));
    let ups = t.rt_query_sources(&vec![]);
    assert_eq!(ups.len(), 1);
    assert_eq!(ups[0].pcount, 0);
    assert_eq!(ups[0].pid, 0);
    assert_eq!(ups[0].offset, 4242);
}

#[test]
fn minted_timestamps_strictly_increase() {
    let mut t = Timestamper::new_with_max_ts(&config(500), 0);
    let mut previous = t.current_timestamp;
    for _ in 0..5 {
        t.rt_generate_next_timestamp();
        assert!(t.current_timestamp > previous);
        previous = t.current_timestamp;
    }
}

#[test]
fn restart_never_regresses_past_persisted_maximum() {
    let mut t = Timestamper::new_with_max_ts(&config(500), 5000);
    assert_eq!(t.current_timestamp, 5000);
    t.rt_generate_next_timestamp();
    assert!(t.current_timestamp > 5000);
}

#[test]
fn startup_recovers_persisted_maximum_from_store() {
    let conn = open_store();
    conn.execute(
        "INSERT INTO timestamps (sid, vid, pcount, pid, timestamp, offset) VALUES (1, 2, 1, 0, 5000, 10)",
        (),
    )
    .unwrap();
    let mut t = Timestamper::new(&config(500), &conn).unwrap();
    assert_eq!(t.current_timestamp, 5000);
    t.rt_generate_next_timestamp();
    assert!(t.current_timestamp > 5000);
}

#[test]
fn startup_on_empty_store_seeds_zero() {
    let conn = open_store();
    let t = Timestamper::new(&config(500), &conn).unwrap();
    assert_eq!(t.current_timestamp, 0);
}

#[test]
fn startup_on_unreadable_store_is_fatal() {
    let conn = rusqlite::Connection::open_in_memory().unwrap();
    assert!(Timestamper::new(&config(500), &conn).is_err());
}

#[test]
fn rt_tick_persists_and_recovery_replays() {
    let conn = open_store();
    let mut t = Timestamper::new(&config(500), &conn).unwrap();
    t.rt_sources.push((
        id(),
        RtTimestampConsumer { connector: RtTimestampConnector::Kafka, last_offset: 1000 },
    ));
    let (ups, persisted) = t
        .update_rt_timestamp(&conn, &vec![RtWatermark { id: id(), pcount: 1, pid: 0, high: 2000 }])
        .unwrap();
    assert_eq!(persisted, 1);
    assert_eq!(ups[0].offset, 1500);
    let notes = t.rt_notifications(&ups);
    assert_eq!(notes.len(), 1);
    assert_eq!(notes[0].timestamp, t.current_timestamp);
    assert_eq!(notes[0].offset, 1500);

    let (max_offset, replayed) = Timestamper::rt_recover_source(&conn, id()).unwrap();
    assert_eq!(max_offset, 1500);
    assert_eq!(replayed.len(), 1);
    assert_eq!(replayed[0].id, id());
    assert_eq!(replayed[0].timestamp, t.current_timestamp);
    assert_eq!(replayed[0].offset, 1500);
}

#[test]
fn recovery_of_unknown_source_is_empty() {
    let conn = open_store();
    let (max_offset, replayed) = Timestamper::rt_recover_source(&conn, id()).unwrap();
    assert_eq!(max_offset, 0);
    assert_eq!(replayed, vec![]);
}

#[test]
fn persist_failure_reports_position() {
    let conn = rusqlite::Connection::open_in_memory().unwrap();
    // No timestamps table: every insert is refused, so persistence
    // stalls at the start instead of dropping the update.
    let mut t = Timestamper::new_with_max_ts(&config(500), 10);
    t.rt_sources.push((
        id(),
        RtTimestampConsumer { connector: RtTimestampConnector::Kafka, last_offset: 0 },
    ));
    let (ups, persisted) = t
        .update_rt_timestamp(&conn, &vec![RtWatermark { id: id(), pcount: 1, pid: 0, high: 100 }])
        .unwrap();
    assert_eq!(persisted, 0);
    assert_eq!(ups.len(), 1);
    // After the store recovers, the retry picks up where it stopped.
    let conn2 = open_store();
    let done = t.rt_persist_timestamp(&conn2, &ups, persisted);
    assert_eq!(done, 1);
}
