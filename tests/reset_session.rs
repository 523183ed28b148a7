use kafka_cli::error::ConsumerGroupError;
use kafka_cli::offsets::{select_partitions, OffsetResetType, PartitionScope, ResolvedOffset};
use kafka_cli::reset::{BrokerReply, BrokerRequest, ResetSession};
use std::collections::HashMap;

fn ro(partition: i32, offset: i64) -> ResolvedOffset {
    ResolvedOffset { partition, offset }
}

/// A broker that does not change: partitions of the topic, watermarks by
/// partition, and the time index's answers by partition.
struct FakeBroker {
    partitions: Option<Vec<i32>>,
    watermarks: HashMap<i32, (i64, i64)>,
    time_index: HashMap<i32, i64>,
    accepts_commit: bool,
    committed: HashMap<i32, i64>,
    calls: Vec<String>,
}

impl FakeBroker {
    fn new(partitions: Vec<i32>, watermarks: &[(i32, i64, i64)]) -> FakeBroker {
        FakeBroker {
            partitions: Some(partitions),
            watermarks: watermarks.iter().map(|&(p, l, h)| (p, (l, h))).collect(),
            time_index: HashMap::new(),
            accepts_commit: true,
            committed: HashMap::new(),
            calls: Vec::new(),
        }
    }

    /// Runs a session to its end and gives its outcome.
    fn run(&mut self, mut session: ResetSession) -> Result<Vec<ResolvedOffset>, ConsumerGroupError> {
        for _ in 0..1000 {
            let reply = match session.request() {
                BrokerRequest::FetchMetadata => {
                    self.calls.push("metadata".to_string());
                    match &self.partitions {
                        Some(p) => BrokerReply::TopicPartitions(p.clone()),
                        None => BrokerReply::TopicMissing,
                    }
                }
                BrokerRequest::FetchWatermarks { partition, .. } => {
                    self.calls.push(format!("watermarks {}", partition));
                    match self.watermarks.get(&partition) {
                        Some(&(low, high)) => BrokerReply::Watermarks { low, high },
                        None => BrokerReply::Failed,
                    }
                }
                BrokerRequest::LookupTimestamp { partition, .. } => {
                    self.calls.push(format!("lookup {}", partition));
                    match self.time_index.get(&partition) {
                        Some(&o) => BrokerReply::TimestampOffset(o),
                        None => BrokerReply::Failed,
                    }
                }
                BrokerRequest::Commit(set) => {
                    self.calls.push("commit".to_string());
                    if self.accepts_commit {
                        for r in set {
                            self.committed.insert(r.partition, r.offset);
                        }
                        BrokerReply::Committed
                    } else {
                        BrokerReply::Failed
                    }
                }
                BrokerRequest::Finished(outcome) => return outcome,
            };
            session.step(reply);
        }
        panic!("session did not finish");
    }
}

#[test]
fn reset_earliest_on_two_of_three_partitions_leaves_third() {
    let mut broker = FakeBroker::new(vec![0, 1, 2], &[(0, 0, 3), (1, 0, 3), (2, 0, 3)]);
    for p in 0..3 {
        broker.committed.insert(p, 2);
    }
    let scope = PartitionScope::from_request(Some(vec![0, 1]));
    let session = ResetSession::new(OffsetResetType::Earliest, scope, true);
    let out = broker.run(session).unwrap();
    assert_eq!(out, vec![ro(0, 0), ro(1, 0)]);
    assert_eq!(broker.committed[&0], 0);
    assert_eq!(broker.committed[&1], 0);
    assert_eq!(broker.committed[&2], 2);
}

#[test]
fn earliest_and_latest_resolve_to_watermarks() {
    let mut broker = FakeBroker::new(vec![0, 1], &[(0, 4, 9), (1, 2, 20)]);
    let earliest = ResetSession::new(OffsetResetType::Earliest, PartitionScope::AllPartitions, false);
    assert_eq!(broker.run(earliest).unwrap(), vec![ro(0, 4), ro(1, 2)]);
    let latest = ResetSession::new(OffsetResetType::Latest, PartitionScope::AllPartitions, false);
    assert_eq!(broker.run(latest).unwrap(), vec![ro(0, 9), ro(1, 20)]);
}

#[test]
fn absolute_offset_makes_no_lookup() {
    let mut broker = FakeBroker::new(vec![0, 1, 2], &[]);
    let session = ResetSession::new(OffsetResetType::Offset(42), PartitionScope::AllPartitions, true);
    let out = broker.run(session).unwrap();
    assert_eq!(out, vec![ro(0, 42), ro(1, 42), ro(2, 42)]);
    assert_eq!(broker.calls, vec!["metadata".to_string(), "commit".to_string()]);
}

#[test]
fn timestamp_without_match_falls_back_to_low_watermark() {
    let mut broker = FakeBroker::new(vec![0, 1, 2], &[(0, 5, 50), (1, 6, 60), (2, 7, 70)]);
    broker.time_index.insert(0, 30);
    broker.time_index.insert(1, -1);
    let session = ResetSession::new(OffsetResetType::Timestamp(1_700_000_000_000), PartitionScope::AllPartitions, true);
    let out = broker.run(session).unwrap();
    assert_eq!(out, vec![ro(0, 30), ro(1, 6), ro(2, 7)]);
    assert!(!broker.calls.contains(&"watermarks 0".to_string()));
    assert!(broker.calls.contains(&"watermarks 1".to_string()));
}

#[test]
fn fallback_is_flagged_on_the_watermark_request() {
    let mut session = ResetSession::new(OffsetResetType::Timestamp(10), PartitionScope::AllPartitions, false);
    session.step(BrokerReply::TopicPartitions(vec![3]));
    match session.request() {
        BrokerRequest::LookupTimestamp { partition, timestamp } => {
            assert_eq!(partition, 3);
            assert_eq!(timestamp, 10);
        }
        other => panic!("unexpected request {:?}", other),
    }
    session.step(BrokerReply::Failed);
    match session.request() {
        BrokerRequest::FetchWatermarks { partition, after_failed_lookup } => {
            assert_eq!(partition, 3);
            assert!(after_failed_lookup);
        }
        other => panic!("unexpected request {:?}", other),
    }
}

#[test]
fn dry_run_resolves_like_execute_and_commits_nothing() {
    let mut dry_broker = FakeBroker::new(vec![0, 1], &[(0, 1, 8), (1, 3, 9)]);
    dry_broker.committed.insert(0, 5);
    let mut exec_broker = FakeBroker::new(vec![0, 1], &[(0, 1, 8), (1, 3, 9)]);
    exec_broker.committed.insert(0, 5);
    let dry = ResetSession::new(OffsetResetType::Latest, PartitionScope::AllPartitions, false);
    let exec = ResetSession::new(OffsetResetType::Latest, PartitionScope::AllPartitions, true);
    let a = dry_broker.run(dry).unwrap();
    let b = exec_broker.run(exec).unwrap();
    assert_eq!(a, b);
    assert_eq!(dry_broker.committed.len(), 1);
    assert_eq!(dry_broker.committed[&0], 5);
    assert!(!dry_broker.calls.contains(&"commit".to_string()));
    assert_eq!(exec_broker.committed[&0], 8);
    assert_eq!(exec_broker.committed[&1], 9);
}

#[test]
fn empty_explicit_set_selects_all_partitions() {
    let topic = vec![0, 1, 2, 3];
    let empty = select_partitions(&topic, &PartitionScope::ExplicitSet(vec![]));
    let all = select_partitions(&topic, &PartitionScope::AllPartitions);
    assert_eq!(empty, all);
    assert_eq!(all, vec![0, 1, 2, 3]);
    assert_eq!(select_partitions(&topic, &PartitionScope::ExplicitSet(vec![2, 7])), vec![2, 7]);
    assert!(PartitionScope::from_request(Some(vec![])).covers_all());
    assert!(PartitionScope::from_request(None).covers_all());
    assert!(!PartitionScope::from_request(Some(vec![1])).covers_all());
}

#[test]
fn unknown_topic_fails() {
    let mut broker = FakeBroker::new(vec![], &[]);
    broker.partitions = None;
    let session = ResetSession::new(OffsetResetType::Earliest, PartitionScope::AllPartitions, true);
    assert_eq!(broker.run(session), Err(ConsumerGroupError::UnknownTopicOrPartition));
}

#[test]
fn unreachable_broker_fails() {
    let mut session = ResetSession::new(OffsetResetType::Earliest, PartitionScope::AllPartitions, true);
    session.step(BrokerReply::Failed);
    assert!(session.is_finished());
    match session.request() {
        BrokerRequest::Finished(r) => assert_eq!(r, Err(ConsumerGroupError::BrokerUnavailable)),
        other => panic!("unexpected request {:?}", other),
    }
}

#[test]
fn watermark_failure_fails_the_reset() {
    let mut broker = FakeBroker::new(vec![0, 1], &[(0, 0, 4)]);
    let session = ResetSession::new(OffsetResetType::Earliest, PartitionScope::AllPartitions, true);
    assert_eq!(broker.run(session), Err(ConsumerGroupError::BrokerUnavailable));
    assert!(broker.committed.is_empty());
}

#[test]
fn refused_commit_fails_the_reset() {
    let mut broker = FakeBroker::new(vec![0], &[(0, 0, 4)]);
    broker.accepts_commit = false;
    let session = ResetSession::new(OffsetResetType::Latest, PartitionScope::AllPartitions, true);
    assert_eq!(broker.run(session), Err(ConsumerGroupError::CommitFailed));
}

#[test]
fn reply_that_does_not_fit_is_ignored() {
    let mut session = ResetSession::new(OffsetResetType::Earliest, PartitionScope::AllPartitions, true);
    session.step(BrokerReply::Committed);
    assert!(matches!(session.request(), BrokerRequest::FetchMetadata));
}

#[test]
fn reset_target_needs_exactly_one_form() {
    assert_eq!(OffsetResetType::from_flags(true, false, None, None), Ok(OffsetResetType::Earliest));
    assert_eq!(OffsetResetType::from_flags(false, true, None, None), Ok(OffsetResetType::Latest));
    assert_eq!(OffsetResetType::from_flags(false, false, Some(7), None), Ok(OffsetResetType::Offset(7)));
    assert_eq!(
        OffsetResetType::from_flags(false, false, None, Some(1000)),
        Ok(OffsetResetType::Timestamp(1000))
    );
    assert_eq!(
        OffsetResetType::from_flags(false, false, None, None),
        Err(ConsumerGroupError::InvalidResetRequest)
    );
    assert_eq!(
        OffsetResetType::from_flags(true, true, None, None),
        Err(ConsumerGroupError::InvalidResetRequest)
    );
}

#[test]
fn negative_offset_target_is_refused() {
    assert_eq!(
        OffsetResetType::from_flags(false, false, Some(-1), None),
        Err(ConsumerGroupError::InvalidResetRequest)
    );
    assert_eq!(
        OffsetResetType::from_flags(false, false, Some(-2), None),
        Err(ConsumerGroupError::InvalidResetRequest)
    );
    assert_eq!(OffsetResetType::from_flags(false, false, Some(0), None), Ok(OffsetResetType::Offset(0)));
}

#[test]
fn timestamp_target_renders_a_calendar_date() {
    let text = OffsetResetType::Timestamp(1_700_000_000_000).datetime_text().unwrap();
    assert!(text.starts_with("2023-11-1"), "{}", text);
    assert_eq!(text.as_bytes()[10], b' ');
    assert!(OffsetResetType::Timestamp(-62_167_219_200_000).datetime_text().is_some());
    assert!(OffsetResetType::Timestamp(253_402_300_799_999).datetime_text().is_some());
    assert_eq!(OffsetResetType::Earliest.datetime_text(), None);
    assert_eq!(OffsetResetType::Offset(3).datetime_text(), None);
}
