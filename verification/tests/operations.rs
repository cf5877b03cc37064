use mtgo_notes::domain::{IdempotencyKey, RepoError, Revision, UtcMillis};
use mtgo_notes::operations::{
    recover_interrupted_operations, OperationCoordinator, OperationKind, OperationRecord,
    OperationState, OperationUpdate,
};

#[test]
fn ut_086_coordinator_allows_snapshots_together_and_excludes_mutation() {
    let mut coordinator = OperationCoordinator::new();
    let backup = coordinator
        .begin(OperationKind::BackupSnapshot, Some("backup.mtgonotes"))
        .expect("backup");
    let export = coordinator
        .begin(OperationKind::ExportSnapshot, Some("export.txt"))
        .expect("export");
    assert!(matches!(
        coordinator.begin(OperationKind::RestoreMerge, None),
        Err(RepoError::OperationBusy)
    ));
    coordinator.release(backup);
    coordinator.release(export);
    assert!(coordinator.begin(OperationKind::RestoreMerge, None).is_ok());
}

#[test]
fn same_destination_is_exclusive_even_for_snapshot_operations() {
    let mut coordinator = OperationCoordinator::new();
    let _backup = coordinator
        .begin(OperationKind::BackupSnapshot, Some("portable.file"))
        .expect("backup");
    assert!(matches!(
        coordinator.begin(OperationKind::ExportSnapshot, Some("portable.file")),
        Err(RepoError::OperationBusy)
    ));
}

#[test]
fn ut_087_cancellation_is_safe_only_before_commit() {
    let mut coordinator = OperationCoordinator::new();
    let lease = coordinator
        .begin(OperationKind::BackupSnapshot, None)
        .expect("lease");
    coordinator
        .cancel(lease.cancellation_token())
        .expect("cancel before commit");
    coordinator.release(lease);

    let lease = coordinator
        .begin(OperationKind::ExportSnapshot, None)
        .expect("lease");
    let token = lease.cancellation_token();
    coordinator.enter_commit(&lease);
    assert_eq!(coordinator.cancel(token), Err(RepoError::CancelUnsafe));
}

#[test]
fn it_268_progress_is_monotonic_through_terminal_state() {
    let mut coordinator = OperationCoordinator::new();
    let mut record = OperationRecord::requested(
        OperationKind::BackupSnapshot,
        IdempotencyKey::new().expect("key"),
    )
    .expect("record");
    let id = record.id.clone();
    record.transition(OperationState::Running).expect("running");
    coordinator.register(record).expect("register");
    coordinator
        .update(&id, OperationUpdate::Progress { completed: 10, total: 100 })
        .expect("progress");
    coordinator
        .update(&id, OperationUpdate::Progress { completed: 100, total: 100 })
        .expect("progress");
    let terminal = coordinator
        .update(&id, OperationUpdate::Transition(OperationState::Completed))
        .expect("completed");
    assert_eq!((terminal.completed, terminal.total), (100, 100));
    assert!(terminal.completed_at.is_some());
}

#[test]
fn progress_cannot_move_backwards() {
    let mut coordinator = OperationCoordinator::new();
    let mut record = OperationRecord::requested(
        OperationKind::ExportSnapshot,
        IdempotencyKey::new().expect("key"),
    )
    .expect("record");
    let id = record.id.clone();
    record.transition(OperationState::Running).expect("running");
    coordinator.register(record).expect("register");
    coordinator
        .update(&id, OperationUpdate::Progress { completed: 50, total: 100 })
        .expect("progress");
    assert_eq!(
        coordinator.update(&id, OperationUpdate::Progress { completed: 40, total: 100 }),
        Err(RepoError::InvalidRequest)
    );
    assert_eq!(coordinator.get(&id).expect("record").completed, 50);
}

#[test]
fn terminal_state_accepts_no_further_transition() {
    let mut coordinator = OperationCoordinator::new();
    let mut record = OperationRecord::requested(
        OperationKind::BackupSnapshot,
        IdempotencyKey::new().expect("key"),
    )
    .expect("record");
    let id = record.id.clone();
    record.transition(OperationState::Running).expect("running");
    coordinator.register(record).expect("register");
    coordinator
        .update(&id, OperationUpdate::Transition(OperationState::Failed))
        .expect("failed");
    assert!(coordinator
        .update(&id, OperationUpdate::Transition(OperationState::Running))
        .is_err());
}

#[test]
fn released_destination_can_be_claimed_again() {
    let mut coordinator = OperationCoordinator::new();
    let first = coordinator
        .begin(OperationKind::BackupSnapshot, Some("same.mtgonotes"))
        .expect("first");
    coordinator.release(first);
    assert!(coordinator
        .begin(OperationKind::BackupSnapshot, Some("same.mtgonotes"))
        .is_ok());
}

#[test]
fn interrupted_operations_fail_or_become_recoverable() {
    let record = |state: OperationState, rollback: Option<&str>| {
        let mut rec = OperationRecord::requested(OperationKind::RestoreReplace, IdempotencyKey::new().expect("key"))
            .expect("record");
        rec.state = state;
        rec.rollback_location = rollback.map(str::to_string);
        rec
    };
    let mut records = vec![
        record(OperationState::Running, None),
        record(OperationState::Committing, Some("notebook.rollback")),
        record(OperationState::Completed, None),
    ];
    let now = UtcMillis::new(42).expect("time");
    assert_eq!(recover_interrupted_operations(&mut records, now), 2);
    assert_eq!(records[0].state, OperationState::Failed);
    assert_eq!(records[0].completed_at, Some(now));
    assert_eq!(records[0].revision, Revision(2));
    assert_eq!(records[1].state, OperationState::Recoverable);
    assert_eq!(records[2].state, OperationState::Completed);
    assert_eq!(records[2].revision, Revision(1));
}
