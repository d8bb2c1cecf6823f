use guild_scrape::FatalError;
use guild_scrape::progress::ProgressRecord;
use guild_scrape::progress::reconcile;

fn record(
    guild_id: u64,
    current_channel: Option<u64>,
    last_seen_message_id: Option<u64>,
    completed_channels: Vec<u64>,
) -> ProgressRecord {
    ProgressRecord { guild_id, current_channel, last_seen_message_id, completed_channels }
}

#[test]
fn fresh_record_is_empty() {
    let r = ProgressRecord::new(9);
    assert_eq!(r.guild_id, 9);
    assert_eq!(r.current_channel, None);
    assert_eq!(r.last_seen_message_id, None);
    assert!(r.completed_channels.is_empty());
}

#[test]
fn is_completed_checks_membership() {
    let r = record(9, None, None, vec![1, 2, 3]);
    assert!(r.is_completed(2));
    assert!(!r.is_completed(4));
}

#[test]
fn validate_accepts_sound_records() {
    assert!(record(9, None, None, vec![1, 2, 3]).validate());
    assert!(record(9, Some(4), Some(100), vec![1, 2, 3]).validate());
    assert!(record(9, Some(4), None, vec![]).validate());
}

#[test]
fn validate_rejects_duplicate_completion() {
    assert!(!record(9, None, None, vec![1, 2, 1]).validate());
}

#[test]
fn validate_rejects_completed_channel_in_flight() {
    assert!(!record(9, Some(2), None, vec![1, 2]).validate());
}

#[test]
fn validate_rejects_cursor_without_channel() {
    assert!(!record(9, None, Some(100), vec![1]).validate());
}

#[test]
fn snapshot_copies_every_field() {
    let r = record(9, Some(4), Some(100), vec![1, 2]);
    let s = r.snapshot();
    assert_eq!(s.guild_id, r.guild_id);
    assert_eq!(s.current_channel, r.current_channel);
    assert_eq!(s.last_seen_message_id, r.last_seen_message_id);
    assert_eq!(s.completed_channels, r.completed_channels);
}

#[test]
fn begin_advance_complete_cycle() {
    let mut r = ProgressRecord::new(9);
    r.begin_channel(5);
    assert_eq!(r.current_channel, Some(5));
    assert_eq!(r.last_seen_message_id, None);
    r.advance_cursor(200);
    assert_eq!(r.last_seen_message_id, Some(200));
    r.advance_cursor(150);
    assert_eq!(r.last_seen_message_id, Some(150));
    let done = r.complete_current();
    assert_eq!(done, 5);
    assert_eq!(r.current_channel, None);
    assert_eq!(r.last_seen_message_id, None);
    assert_eq!(r.completed_channels, vec![5]);
}

#[test]
fn begin_channel_resets_stale_cursor() {
    let mut r = ProgressRecord::new(9);
    r.begin_channel(5);
    r.advance_cursor(200);
    r.begin_channel(6);
    assert_eq!(r.current_channel, Some(6));
    assert_eq!(r.last_seen_message_id, None);
}

#[test]
fn reconcile_missing_checkpoint_is_fresh() {
    let p = reconcile(9, None).unwrap();
    assert_eq!(p.guild_id, 9);
    assert!(p.completed_channels.is_empty());
}

#[test]
fn reconcile_keeps_sound_matching_record() {
    let p = reconcile(9, Some(record(9, Some(4), Some(100), vec![1, 2]))).unwrap();
    assert_eq!(p.current_channel, Some(4));
    assert_eq!(p.last_seen_message_id, Some(100));
    assert_eq!(p.completed_channels, vec![1, 2]);
}

#[test]
fn reconcile_rejects_other_guild() {
    let r = reconcile(9, Some(record(8, None, None, vec![])));
    assert!(matches!(r, Err(FatalError::GuildMismatch)));
}

#[test]
fn reconcile_treats_corrupt_record_as_fresh() {
    let p = reconcile(9, Some(record(9, Some(2), None, vec![1, 2]))).unwrap();
    assert_eq!(p.current_channel, None);
    assert!(p.completed_channels.is_empty());
}
