use std::cmp::Ordering;
use vibevault::merge::{
    compare_timestamps, decide_merge, LocalRecordMeta, MergeAction, MergeResult, SyncEntry,
};

fn entry(updated_at: &str, version: i64, deleted: bool) -> SyncEntry {
    SyncEntry {
        entry_uuid: "e1".to_string(),
        uuid: "example.com".to_string(),
        data_blob: vec![1, 2, 3],
        nonce: vec![0; 12],
        profile_name: "Personal".to_string(),
        sync_version: version,
        created_at: "2024-01-01T00:00:00+00:00".to_string(),
        updated_at: updated_at.to_string(),
        deleted_at: if deleted { Some(updated_at.to_string()) } else { None },
    }
}

fn local(updated_at: &str, version: i64, deleted: bool) -> LocalRecordMeta {
    LocalRecordMeta { updated_at: updated_at.to_string(), sync_version: version, deleted }
}

#[test]
fn timestamps_compare_lexicographically() {
    assert_eq!(compare_timestamps("2024-01-02", "2024-01-01"), Ordering::Greater);
    assert_eq!(compare_timestamps("2024-01-01", "2024-01-02"), Ordering::Less);
    assert_eq!(compare_timestamps("2024-01-01", "2024-01-01"), Ordering::Equal);
    assert_eq!(compare_timestamps("2024-01-01", "2024-01-01T00"), Ordering::Less);
    assert_eq!(compare_timestamps("", ""), Ordering::Equal);
}

#[test]
fn unknown_record_is_inserted() {
    let e = entry("2024-05-01T10:00:00Z", 1, false);
    assert_eq!(decide_merge(None, &e), MergeAction::Insert);
}

#[test]
fn later_incoming_wins() {
    let l = local("2024-05-01T10:00:00Z", 5, false);
    let e = entry("2024-05-01T10:00:01Z", 1, false);
    assert_eq!(decide_merge(Some(&l), &e), MergeAction::Update);
}

#[test]
fn earlier_incoming_is_skipped() {
    let l = local("2024-05-01T10:00:01Z", 1, false);
    let e = entry("2024-05-01T10:00:00Z", 9, false);
    assert_eq!(decide_merge(Some(&l), &e), MergeAction::Skip);
}

#[test]
fn equal_time_higher_version_wins() {
    let l = local("2024-05-01T10:00:00Z", 2, false);
    assert_eq!(decide_merge(Some(&l), &entry("2024-05-01T10:00:00Z", 3, false)), MergeAction::Update);
    assert_eq!(decide_merge(Some(&l), &entry("2024-05-01T10:00:00Z", 2, false)), MergeAction::Skip);
    assert_eq!(decide_merge(Some(&l), &entry("2024-05-01T10:00:00Z", 1, false)), MergeAction::Skip);
}

#[test]
fn skip_is_counted_as_skipped_not_conflict() {
    let mut result = MergeResult::default();
    result.record(MergeAction::Skip);
    assert_eq!(result, MergeResult { inserted: 0, updated: 0, deleted: 0, skipped: 1, conflicts: 0 });
    result.record(MergeAction::Update);
    result.record(MergeAction::Insert);
    assert_eq!(result, MergeResult { inserted: 1, updated: 1, deleted: 0, skipped: 1, conflicts: 1 });
}

#[test]
fn tombstone_soft_deletes_active_local() {
    let l = local("2024-05-01T10:00:00Z", 1, false);
    let e = entry("2024-06-01T10:00:00Z", 2, true);
    let action = decide_merge(Some(&l), &e);
    assert_eq!(action, MergeAction::SoftDelete);
    let mut result = MergeResult::new();
    result.record(action);
    assert_eq!(result.deleted, 1);
    assert_eq!(result.conflicts, 1);
    assert_eq!(result.updated, 0);
}

#[test]
fn tombstone_over_tombstone_is_an_update() {
    let l = local("2024-05-01T10:00:00Z", 1, true);
    let e = entry("2024-06-01T10:00:00Z", 2, true);
    assert_eq!(decide_merge(Some(&l), &e), MergeAction::Update);
}

#[test]
fn older_tombstone_is_skipped() {
    let l = local("2024-07-01T10:00:00Z", 1, false);
    let e = entry("2024-06-01T10:00:00Z", 2, true);
    assert_eq!(decide_merge(Some(&l), &e), MergeAction::Skip);
}
