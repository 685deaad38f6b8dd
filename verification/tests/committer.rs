use logship::common::log::ParseLogErr;
use logship::persistor::app_config::AppConfig;
use logship::persistor::committer::{Action, Committer, CommitterError};

const RECORD: &[u8] = b"{\"time\": 1000, \"msg\":\"a\"}";

#[test]
fn record_is_written_before_anything_is_committed() {
    let mut committer = Committer::new();
    assert_eq!(committer.outstanding(), None);
    match committer.handle_message(41, Some(RECORD)) {
        Action::Write(log) => {
            assert_eq!(log.time, 1000);
            assert_eq!(log.payload(), RECORD);
        }
        _ => panic!("a record must be written first"),
    }
    assert_eq!(committer.outstanding(), Some(41));
    match committer.written(Ok(())) {
        Action::Commit { offset, skipped } => {
            assert_eq!(offset, 41);
            assert!(skipped.is_none());
        }
        _ => panic!("a written record must be committed"),
    }
    assert_eq!(committer.outstanding(), None);
}

#[test]
fn failed_write_commits_nothing() {
    let mut committer = Committer::new();
    assert!(matches!(committer.handle_message(7, Some(RECORD)), Action::Write(_)));
    match committer.written(Err("disk full".to_string())) {
        Action::Report(CommitterError::WriteFailed { reason }) => assert_eq!(reason, "disk full"),
        _ => panic!("a failed write must be surfaced"),
    }
    assert_eq!(committer.outstanding(), None);
}

#[test]
fn redelivered_message_is_committed_once() {
    let mut committer = Committer::new();
    let mut commits = Vec::new();
    assert!(matches!(committer.handle_message(7, Some(RECORD)), Action::Write(_)));
    if let Action::Commit { offset, .. } = committer.written(Err("disk full".to_string())) {
        commits.push(offset);
    }
    assert!(commits.is_empty());
    assert!(matches!(committer.handle_message(7, Some(RECORD)), Action::Write(_)));
    if let Action::Commit { offset, .. } = committer.written(Ok(())) {
        commits.push(offset);
    }
    assert_eq!(commits, vec![7]);
}

#[test]
fn undecodable_message_is_skipped_and_committed() {
    let mut committer = Committer::new();
    match committer.handle_message(12, Some(b"[1,2,3]")) {
        Action::Commit { offset, skipped } => {
            assert_eq!(offset, 12);
            assert!(matches!(skipped, Some(ParseLogErr::NotAnObject)));
        }
        _ => panic!("what cannot be decoded is skipped"),
    }
    assert_eq!(committer.outstanding(), None);
}

#[test]
fn message_without_payload_is_reported() {
    let mut committer = Committer::new();
    assert!(matches!(
        committer.handle_message(3, None),
        Action::Report(CommitterError::NoPayload)
    ));
    assert_eq!(committer.outstanding(), None);
}

#[test]
fn write_result_without_a_write_is_reported() {
    let mut committer = Committer::new();
    assert!(matches!(
        committer.written(Ok(())),
        Action::Report(CommitterError::NoWriteOutstanding)
    ));
    assert!(matches!(committer.handle_message(1, Some(b"{}")), Action::Commit { .. }));
    assert!(matches!(
        committer.written(Ok(())),
        Action::Report(CommitterError::NoWriteOutstanding)
    ));
}

#[test]
fn new_message_gives_up_the_outstanding_write() {
    let mut committer = Committer::new();
    assert!(matches!(committer.handle_message(1, Some(RECORD)), Action::Write(_)));
    assert!(matches!(committer.handle_message(2, Some(RECORD)), Action::Write(_)));
    assert_eq!(committer.outstanding(), Some(2));
    assert!(matches!(committer.written(Ok(())), Action::Commit { offset: 2, skipped: None }));
    assert!(matches!(committer.handle_message(3, Some(RECORD)), Action::Write(_)));
    assert!(matches!(
        committer.handle_message(4, None),
        Action::Report(CommitterError::NoPayload)
    ));
    assert!(matches!(
        committer.written(Ok(())),
        Action::Report(CommitterError::NoWriteOutstanding)
    ));
}

#[test]
fn committer_settings_compare_by_value() {
    let first = AppConfig { kafka_host: "broker".to_string(), kafka_log_topic: "logs".to_string() };
    let copy = first.clone();
    assert!(first == copy);
    let empty = AppConfig::default();
    assert_eq!(empty.kafka_host, "");
    assert_eq!(empty.kafka_log_topic, "");
    assert!(first != empty);
}
