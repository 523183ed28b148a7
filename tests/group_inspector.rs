use kafka_cli::error::ConsumerGroupError;
use kafka_cli::groups::{
    check_group_deletable, find_group, is_internal_topic, lag_listing, offset_row, row_needs_log_end, topic_selected, CommittedPosition,
    ConsumerGroupInfo, GroupMemberInfo, GroupOffsetInfo,
};

fn group(name: &str, members: usize) -> ConsumerGroupInfo {
    ConsumerGroupInfo {
        name: name.to_string(),
        state: if members > 0 { "Stable".to_string() } else { "Empty".to_string() },
        members: (0..members)
            .map(|i| GroupMemberInfo {
                member_id: format!("member-{}", i),
                client_id: "client".to_string(),
                host: "/127.0.0.1".to_string(),
            })
            .collect(),
    }
}

#[test]
fn describe_unknown_group_fails() {
    let groups = vec![group("orders", 1), group("billing", 0)];
    assert_eq!(find_group(groups, "nonexistent-group").unwrap_err(), ConsumerGroupError::UnknownGroup);
}

#[test]
fn describe_known_group_gives_its_members() {
    let groups = vec![group("orders", 2), group("billing", 0)];
    let g = find_group(groups, "orders").unwrap();
    assert_eq!(g.name, "orders");
    assert_eq!(g.state, "Stable");
    assert_eq!(g.members.len(), 2);
    assert_eq!(g.members[1].member_id, "member-1");
}

#[test]
fn delete_group_with_members_fails() {
    let groups = vec![group("orders", 1)];
    assert_eq!(check_group_deletable(&groups, "orders"), Err(ConsumerGroupError::GroupNotEmpty));
}

#[test]
fn delete_empty_group_is_allowed() {
    let groups = vec![group("orders", 1), group("billing", 0)];
    assert_eq!(check_group_deletable(&groups, "billing"), Ok(()));
    assert_eq!(check_group_deletable(&groups, "missing"), Err(ConsumerGroupError::UnknownGroup));
}

#[test]
fn lag_is_end_minus_committed() {
    let row = GroupOffsetInfo::new("t".to_string(), 0, 7, 10);
    assert_eq!(row.lag, 3);
    assert_eq!(row.current_offset, 7);
    assert_eq!(row.log_end_offset, 10);
}

#[test]
fn uncommitted_row_keeps_minus_one_and_leaves_lag_listing() {
    let rows = vec![
        GroupOffsetInfo::new("t".to_string(), 0, 7, 10),
        GroupOffsetInfo::new("t".to_string(), 1, -1, 10),
        GroupOffsetInfo::new("__consumer_offsets".to_string(), 0, 4, 5),
    ];
    assert_eq!(rows[1].current_offset, -1);
    assert_eq!(rows[1].lag, -1);
    let listed = lag_listing(&rows);
    assert_eq!(listed.len(), 1);
    assert_eq!(listed[0].partition, 0);
    assert_eq!(listed[0].lag, 3);
}

#[test]
fn unknown_high_watermark_gives_unknown_lag() {
    let row = GroupOffsetInfo::new("t".to_string(), 2, 5, -1);
    assert_eq!(row.lag, -1);
}

#[test]
fn committed_position_gives_reported_offset() {
    assert_eq!(CommittedPosition::At(12).current_offset(), Some(12));
    assert_eq!(CommittedPosition::NotCommitted.current_offset(), Some(-1));
    assert_eq!(CommittedPosition::Symbolic.current_offset(), None);
}

#[test]
fn internal_topics_start_with_two_underscores() {
    assert!(is_internal_topic("__consumer_offsets"));
    assert!(!is_internal_topic("_single"));
    assert!(!is_internal_topic("orders"));
    assert!(!is_internal_topic(""));
}

#[test]
fn topic_filter_selects_named_topics() {
    assert!(topic_selected(&None, "orders"));
    let filter = Some(vec!["orders".to_string(), "billing".to_string()]);
    assert!(topic_selected(&filter, "billing"));
    assert!(!topic_selected(&filter, "audit"));
    assert!(!topic_selected(&Some(vec![]), "audit"));
}

#[test]
fn offset_rows_from_fetch_results() {
    let row = offset_row("t".to_string(), 1, Some(CommittedPosition::At(7)), Some(10)).unwrap();
    assert_eq!((row.partition, row.current_offset, row.log_end_offset, row.lag), (1, 7, 10, 3));
    let unknown_end = offset_row("t".to_string(), 1, Some(CommittedPosition::At(7)), None).unwrap();
    assert_eq!((unknown_end.log_end_offset, unknown_end.lag), (-1, -1));
    let uncommitted = offset_row("t".to_string(), 2, Some(CommittedPosition::NotCommitted), Some(10)).unwrap();
    assert_eq!((uncommitted.current_offset, uncommitted.lag), (-1, -1));
    assert!(offset_row("t".to_string(), 3, Some(CommittedPosition::Symbolic), Some(10)).is_none());
    assert!(offset_row("t".to_string(), 4, None, Some(10)).is_none());
}

#[test]
fn log_end_fetched_only_for_usable_positions() {
    assert!(row_needs_log_end(Some(CommittedPosition::At(0))));
    assert!(row_needs_log_end(Some(CommittedPosition::NotCommitted)));
    assert!(!row_needs_log_end(Some(CommittedPosition::Symbolic)));
    assert!(!row_needs_log_end(None));
}
