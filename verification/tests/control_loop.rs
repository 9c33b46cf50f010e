use std::time::Duration;

use timestamper::byo::ByoTimestampConnector;
use timestamper::rt::RtTimestampConnector;
use timestamper::timestamper::Timestamper;
use timestamper::types::Consistency;
use timestamper::types::Envelope;
use timestamper::types::SourceConnector;
use timestamper::types::SourceInstanceId;
use timestamper::types::TimestampConfig;
use timestamper::types::TimestampMessage;

fn config() -> TimestampConfig {
    TimestampConfig { frequency: Duration::from_millis(10), max_size: 100 }
}

fn id(n: u64) -> SourceInstanceId {
    SourceInstanceId { sid: n, vid: n + 100 }
}

fn open_store() -> rusqlite::Connection {
    let conn = rusqlite::Connection::open_in_memory().unwrap();
    conn.execute(
        "CREATE TABLE timestamps (sid INTEGER, vid INTEGER, pcount INTEGER, pid INTEGER, timestamp INTEGER, offset INTEGER)",
        (),
    )
    .unwrap();
    conn
}

fn kafka(topic: &str) -> SourceConnector {
    SourceConnector::Kafka { topic: topic.as_bytes().to_vec() }
}

#[test]
fn add_classifies_by_consistency() {
    let conn = open_store();
    let mut t = Timestamper::new(&config(), &conn).unwrap();
    let msgs = vec![
        TimestampMessage::Add(id(1), kafka("a"), Consistency::RealTime, Envelope::Plain),
        TimestampMessage::Add(
            id(2),
            kafka("b"),
            Consistency::BringYourOwn(b"b-consistency".to_vec()),
            Envelope::Plain,
        ),
    ];
    let (shutdown, notes) = t.update_sources(&conn, &msgs).unwrap();
    assert!(!shutdown);
    assert_eq!(notes, vec![]);
    assert_eq!(t.rt_sources.len(), 1);
    assert_eq!(t.rt_sources[0].0, id(1));
    assert_eq!(t.rt_sources[0].1.connector, RtTimestampConnector::Kafka);
    assert_eq!(t.rt_sources[0].1.last_offset, 0);
    assert_eq!(t.byo_sources.len(), 1);
    assert_eq!(t.byo_sources[0].0, id(2));
    assert_eq!(t.byo_sources[0].1.connector, ByoTimestampConnector::Kafka);
    assert_eq!(t.byo_sources[0].1.source_name, b"b".to_vec());
    assert_eq!(t.byo_sources[0].1.last_ts, 0);
    assert_eq!(t.byo_sources[0].1.current_partition_count, 0);
}

#[test]
fn adding_tracked_source_is_noop() {
    let conn = open_store();
    let mut t = Timestamper::new(&config(), &conn).unwrap();
    let add_rt = TimestampMessage::Add(id(1), kafka("a"), Consistency::RealTime, Envelope::Plain);
    t.update_sources(&conn, &vec![add_rt.clone()]).unwrap();
    // A second add of the same instance, even under the other model,
    // changes nothing.
    let add_byo = TimestampMessage::Add(
        id(1),
        kafka("a"),
        Consistency::BringYourOwn(b"c".to_vec()),
        Envelope::Plain,
    );
    t.update_sources(&conn, &vec![add_rt, add_byo]).unwrap();
    assert_eq!(t.rt_sources.len(), 1);
    assert_eq!(t.byo_sources.len(), 0);
}

#[test]
fn rt_add_replays_committed_progress() {
    let conn = open_store();
    conn.execute(
        "INSERT INTO timestamps (sid, vid, pcount, pid, timestamp, offset) VALUES (1, 101, 1, 0, 40, 70)",
        (),
    )
    .unwrap();
    conn.execute(
        "INSERT INTO timestamps (sid, vid, pcount, pid, timestamp, offset) VALUES (1, 101, 1, 0, 50, 90)",
        (),
    )
    .unwrap();
    let mut t = Timestamper::new(&config(), &conn).unwrap();
    let msgs = vec![TimestampMessage::Add(id(1), kafka("a"), Consistency::RealTime, Envelope::Plain)];
    let (_, notes) = t.update_sources(&conn, &msgs).unwrap();
    assert_eq!(notes.len(), 2);
    assert_eq!(notes[0].timestamp, 40);
    assert_eq!(notes[0].offset, 70);
    assert_eq!(notes[1].timestamp, 50);
    assert_eq!(notes[1].offset, 90);
    assert_eq!(t.rt_sources[0].1.last_offset, 90);
}

#[test]
fn drop_removes_source_and_history() {
    let conn = open_store();
    let mut t = Timestamper::new(&config(), &conn).unwrap();
    t.update_sources(
        &conn,
        &vec![TimestampMessage::Add(id(1), kafka("a"), Consistency::RealTime, Envelope::Plain)],
    )
    .unwrap();
    let (ups, _) = t
        .update_rt_timestamp(
            &conn,
            &vec![timestamper::rt::RtWatermark { id: id(1), pcount: 1, pid: 0, high: 10 }],
        )
        .unwrap();
    assert_eq!(ups.len(), 1);
    t.update_sources(&conn, &vec![TimestampMessage::DropInstance(id(1))]).unwrap();
    assert_eq!(t.rt_sources.len(), 0);
    let count: i64 = conn
        .query_row("SELECT COUNT(*) FROM timestamps WHERE sid = 1", (), |row| row.get(0))
        .unwrap();
    assert_eq!(count, 0);
}

#[test]
fn dropping_unknown_source_changes_nothing() {
    let conn = open_store();
    let mut t = Timestamper::new(&config(), &conn).unwrap();
    t.update_sources(
        &conn,
        &vec![TimestampMessage::Add(id(1), kafka("a"), Consistency::RealTime, Envelope::Plain)],
    )
    .unwrap();
    let (shutdown, notes) = t
        .update_sources(&conn, &vec![TimestampMessage::DropInstance(id(9))])
        .unwrap();
    assert!(!shutdown);
    assert_eq!(notes, vec![]);
    assert_eq!(t.rt_sources.len(), 1);
    assert_eq!(t.byo_sources.len(), 0);
    // Dropping it again is just as harmless.
    t.update_sources(&conn, &vec![TimestampMessage::DropInstance(id(9))]).unwrap();
    assert_eq!(t.rt_sources.len(), 1);
}

#[test]
fn shutdown_reported_after_full_drain() {
    let conn = open_store();
    let mut t = Timestamper::new(&config(), &conn).unwrap();
    let msgs = vec![
        TimestampMessage::Add(id(1), kafka("a"), Consistency::RealTime, Envelope::Plain),
        TimestampMessage::Shutdown,
        TimestampMessage::Add(id(2), kafka("b"), Consistency::RealTime, Envelope::Plain),
    ];
    let (shutdown, _) = t.update_sources(&conn, &msgs).unwrap();
    assert!(shutdown);
    // The shutdown is honored only once the whole drain is finished:
    // the message after it was applied too.
    assert_eq!(t.rt_sources.len(), 2);
    assert_eq!(t.rt_sources[0].0, id(1));
    assert_eq!(t.rt_sources[1].0, id(2));
}

#[test]
fn drop_after_shutdown_is_still_applied() {
    let conn = open_store();
    let mut t = Timestamper::new(&config(), &conn).unwrap();
    t.update_sources(
        &conn,
        &vec![TimestampMessage::Add(id(1), kafka("a"), Consistency::RealTime, Envelope::Plain)],
    )
    .unwrap();
    conn.execute(
        "INSERT INTO timestamps (sid, vid, pcount, pid, timestamp, offset) VALUES (1, 101, 1, 0, 40, 70)",
        (),
    )
    .unwrap();
    let msgs = vec![TimestampMessage::Shutdown, TimestampMessage::DropInstance(id(1))];
    let (shutdown, _) = t.update_sources(&conn, &msgs).unwrap();
    assert!(shutdown);
    // The drop drained alongside the shutdown still deregisters the
    // source and purges its history: nothing leaks.
    assert_eq!(t.rt_sources.len(), 0);
    let count: i64 = conn
        .query_row("SELECT COUNT(*) FROM timestamps WHERE sid = 1", (), |row| row.get(0))
        .unwrap();
    assert_eq!(count, 0);
}

#[test]
fn file_and_shard_stream_byo_sources_get_empty_names() {
    let conn = open_store();
    let mut t = Timestamper::new(&config(), &conn).unwrap();
    let msgs = vec![
        TimestampMessage::Add(
            id(1),
            SourceConnector::File,
            Consistency::BringYourOwn(b"c1".to_vec()),
            Envelope::Plain,
        ),
        TimestampMessage::Add(
            id(2),
            SourceConnector::Kinesis,
            Consistency::BringYourOwn(b"c2".to_vec()),
            Envelope::Plain,
        ),
    ];
    t.update_sources(&conn, &msgs).unwrap();
    assert_eq!(t.byo_sources[0].1.connector, ByoTimestampConnector::File);
    assert_eq!(t.byo_sources[0].1.source_name, Vec::<u8>::new());
    assert_eq!(t.byo_sources[1].1.connector, ByoTimestampConnector::Kinesis);
    assert_eq!(t.byo_sources[1].1.source_name, Vec::<u8>::new());
}
