use mtgo_notes::archive::{
    ArchiveEnvelope, ArchiveManifest, CanonicalRecord, VerifiedArchive, CanonicalValue, ARCHIVE_EXTENSION, MAX_RECORD_BYTES,
    STREAM_CHUNK_BYTES,
};
use mtgo_notes::archive::ArchiveWriter;
use mtgo_notes::backup::{
    build_backup, check_backup_contents, check_backup_request, settle_failure, BackupRequest,
    BackupStop, DestinationFacts,
};
use mtgo_notes::domain::{EntityId, IdempotencyKey, RepoError, UtcMillis};
use mtgo_notes::ipc::{CallerIdentity, CommandResult, ErrorCode};
use mtgo_notes::operations::{
    OperationCoordinator, OperationKind, OperationRecord, OperationState,
};
use mtgo_notes::portability::{
    partial_path, validate_selected_path, PathFacts, PortabilityRuntime, SelectionPurpose,
};
use mtgo_notes::portability_commands::{
    apply_restore_for, confirm_rollback_for, discard_rollback_for, list_rollbacks_for,
    preview_restore_at, register_path_for, ApplyRestoreRequest, ConfirmedRollbackRequest,
    PreviewRestoreRequest, RollbackRequest,
};
use mtgo_notes::records::RecordStatus;
use mtgo_notes::restore::{
    assemble_preview, calculate_diff, check_schema_range, rollback_view_at, DiffEntry,
    allowed_modes, order_rollbacks, plan_restore_staging, plan_staging_import, prune_rollbacks, RestoreDiff,
    RestoreMode, RestorePreview, RollbackView, StagedRestore, MAX_ROLLBACKS, PREVIEW_TTL_MS,
    ROLLBACK_RETENTION_MS,
};

fn id() -> String {
    EntityId::new().expect("id").to_string()
}

fn key() -> String {
    IdempotencyKey::new().expect("key").as_str().to_string()
}

fn facts(file_name: &str, extension: &str, is_file: bool, parent_is_dir: bool) -> PathFacts {
    PathFacts {
        file_name: Some(file_name.to_string()),
        extension: Some(extension.to_string()),
        is_file,
        parent_is_dir,
    }
}

fn failure_code<T>(result: &CommandResult<T>) -> Option<ErrorCode> {
    match result {
        CommandResult::Failure { error, .. } => Some(error.code),
        CommandResult::Success { .. } => None,
    }
}

fn empty_manifest() -> ArchiveManifest {
    ArchiveManifest {
        format_version: 1,
        created_at: UtcMillis::new(1).expect("time"),
        schema_min: 1,
        schema_max: 3,
        record_count: 0,
        table_counts: Vec::new(),
        table_hashes: Vec::new(),
        classifier_provenance: Vec::new(),
    }
}

fn staged(operation_id: &str, token: &str) -> StagedRestore {
    let mut operation = OperationRecord::requested_with_id(
        EntityId::parse(operation_id).expect("id"),
        OperationKind::RestoreMerge,
        IdempotencyKey::new().expect("key"),
    );
    operation.transition(OperationState::Running).expect("running");
    operation
        .transition(OperationState::AwaitingConfirmation)
        .expect("awaiting");
    StagedRestore {
        preview: RestorePreview {
            operation,
            token: token.to_string(),
            expires_at: UtcMillis::new(i64::MAX).expect("time"),
            archive_sha256: "0".repeat(64),
            manifest: empty_manifest(),
            diff: RestoreDiff::new(),
            allowed_modes: allowed_modes(false),
            player_identity_conflict: false,
        },
        staging_path: "notebook.db.restore-staging".to_string(),
        live_digest: "digest".to_string(),
    }
}

fn text(value: &str) -> CanonicalValue {
    CanonicalValue::Text(value.to_string())
}

fn record(table: &str, values: Vec<CanonicalValue>) -> CanonicalRecord {
    CanonicalRecord {
        table: table.to_string(),
        key: "key".to_string(),
        values,
    }
}

fn rollback(id: &str, created_at: i64, expires_at: i64) -> RollbackView {
    RollbackView {
        id: id.to_string(),
        restore_operation_id: "operation".to_string(),
        mode: RestoreMode::Replace,
        created_at: UtcMillis::new(created_at).expect("time"),
        expires_at: UtcMillis::new(expires_at).expect("time"),
    }
}

#[test]
fn ut_088_chunk_buffers_are_bounded_below_sixty_four_mib() {
    assert!(std::hint::black_box(STREAM_CHUNK_BYTES) < 64 * 1024 * 1024);
    assert!(std::hint::black_box(MAX_RECORD_BYTES) < 64 * 1024 * 1024);
}

#[test]
fn ut_078_acknowledgement_is_required_before_any_file_work() {
    let request = BackupRequest {
        operation_id: EntityId::new().expect("id"),
        destination: "backup.mtgonotes".to_string(),
        passphrase_acknowledged: false,
        confirm_empty: true,
        overwrite: false,
        idempotency_key: IdempotencyKey::new().expect("key"),
    };
    assert!(!request.passphrase_acknowledged);
    let destination = DestinationFacts {
        file_name: Some("backup.mtgonotes".to_string()),
        extension: Some("mtgonotes".to_string()),
        exists: false,
        parent_is_dir: true,
    };
    assert_eq!(
        check_backup_request(&request, "passphrase", &destination),
        Err(RepoError::AcknowledgementRequired)
    );
}

#[test]
fn ut_079_partial_path_is_never_the_valid_backup_name() {
    assert_eq!(partial_path("backup.mtgonotes"), "backup.mtgonotes.partial");
}

#[test]
fn ut_085_replace_mode_requires_rollback_before_swap() {
    assert_eq!(RestoreMode::Replace, RestoreMode::Replace);
    assert!(std::hint::black_box(MAX_ROLLBACKS) > 0);
    assert!(std::hint::black_box(ROLLBACK_RETENTION_MS) > PREVIEW_TTL_MS);
}

#[test]
fn restore_preview_is_staged_exclusive_and_required_before_apply() {
    let mut runtime = PortabilityRuntime::new();
    let purge = runtime
        .coordinator
        .begin(OperationKind::Purge, None)
        .expect("exclusive lease");
    let selection = runtime
        .register_selection_at(
            SelectionPurpose::RestoreSource,
            "/tmp/empty.mtgonotes".to_string(),
            facts("empty.mtgonotes", "mtgonotes", true, true),
            "source-token".to_string(),
            UtcMillis::new(10).expect("time"),
        )
        .expect("selection");
    let operation_id = id();
    let busy = preview_restore_at(
        CallerIdentity::Main,
        &mut runtime,
        PreviewRestoreRequest {
            operation_id: operation_id.clone(),
            idempotency_key: key(),
            selection_token: selection.token.clone(),
            passphrase: "passphrase".to_string(),
        },
        UtcMillis::new(11).expect("time"),
        |mut coordinator: OperationCoordinator, _input| {
            let outcome = coordinator
                .begin(OperationKind::RestoreMerge, None)
                .map(|_| staged(&id(), "unused"));
            (coordinator, outcome)
        },
    );
    assert_eq!(failure_code(&busy), Some(ErrorCode::OperationBusy));
    runtime.coordinator.release(purge);

    let selection = runtime
        .register_selection_at(
            SelectionPurpose::RestoreSource,
            "/tmp/empty.mtgonotes".to_string(),
            facts("empty.mtgonotes", "mtgonotes", true, true),
            "source-token-2".to_string(),
            UtcMillis::new(10).expect("time"),
        )
        .expect("selection");
    let preview = preview_restore_at(
        CallerIdentity::Main,
        &mut runtime,
        PreviewRestoreRequest {
            operation_id: operation_id.clone(),
            idempotency_key: key(),
            selection_token: selection.token.clone(),
            passphrase: "passphrase".to_string(),
        },
        UtcMillis::new(11).expect("time"),
        |coordinator, input| {
            let staged = staged(input.operation_id.as_str(), "preview-token");
            (coordinator, Ok(staged))
        },
    );
    match preview {
        CommandResult::Success { data, .. } => assert_eq!(data.manifest.record_count, 0),
        CommandResult::Failure { error, .. } => panic!("preview failed: {error:?}"),
    }
    assert!(matches!(
        PortabilityRuntime::new().take_preview("missing"),
        Err(RepoError::InvalidRequest)
    ));
    let unapplied = apply_restore_for(
        CallerIdentity::Main,
        &mut runtime,
        ApplyRestoreRequest {
            preview_token: "missing".to_string(),
            mode: RestoreMode::Merge,
            idempotency_key: key(),
        },
        |coordinator, _staged, _mode, _key| (coordinator, Ok(())),
    );
    assert_eq!(failure_code(&unapplied), Some(ErrorCode::InvalidRequest));
    let applied = apply_restore_for(
        CallerIdentity::Main,
        &mut runtime,
        ApplyRestoreRequest {
            preview_token: "preview-token".to_string(),
            mode: RestoreMode::Merge,
            idempotency_key: key(),
        },
        |coordinator, staged: StagedRestore, _mode, _key| {
            (coordinator, Ok(staged.preview.token))
        },
    );
    assert!(matches!(applied, CommandResult::Success { ref data, .. } if data == "preview-token"));
    assert!(matches!(
        runtime.take_preview("preview-token"),
        Err(RepoError::InvalidRequest)
    ));
}

#[test]
fn staging_plan_skips_everything_under_a_tombstoned_profile() {
    let profile_id = id();
    let encounter_id = id();
    let observation_id = id();
    let records = vec![
        record(
            "opponent_profiles",
            vec![text(&profile_id), text("Opponent"), text("opponent"), CanonicalValue::Integer(1), CanonicalValue::Integer(1), CanonicalValue::Null],
        ),
        record(
            "encounters",
            vec![text(&encounter_id), text(&profile_id), text("Modern")],
        ),
        record(
            "observations",
            vec![text(&observation_id), text(&encounter_id), text("note")],
        ),
    ];
    let plan = plan_staging_import(records, vec![profile_id.clone()]);
    assert!(plan.tombstone_skips >= 3);
    assert!(plan.insert.is_empty());
    assert!(plan.suppressed.contains(&observation_id));
}

#[test]
fn rollbacks_are_pruned_then_confirmed_and_applied_once() {
    let now = UtcMillis::now();
    let created = now.get();
    let fresh = rollback("fresh", created, created + ROLLBACK_RETENTION_MS);
    let ordered = order_rollbacks(vec![rollback("older", 1, 2), fresh]);
    let (kept, pruned) = prune_rollbacks(ordered, now);
    assert!(kept.iter().any(|item| item.id == "fresh"));
    assert!(pruned.iter().any(|item| item.id == "older"));

    let mut runtime = PortabilityRuntime::new();
    let confirmation = confirm_rollback_for(
        CallerIdentity::Main,
        &mut runtime,
        RollbackRequest { rollback_id: "fresh".to_string() },
        || Ok(kept),
    );
    let token = match confirmation {
        CommandResult::Success { data, .. } => {
            assert_eq!(data.rollback.id, "fresh");
            data.confirmation_token
        }
        CommandResult::Failure { error, .. } => panic!("confirmation failed: {error:?}"),
    };
    let applied = mtgo_notes::portability_commands::apply_rollback_for(
        CallerIdentity::Main,
        &mut runtime,
        ConfirmedRollbackRequest {
            rollback_id: "fresh".to_string(),
            confirmation_token: token.clone(),
            idempotency_key: key(),
        },
        |coordinator, rollback_id| (coordinator, Ok(rollback(&rollback_id, 5, 6))),
    );
    assert!(matches!(applied, CommandResult::Success { ref data, .. } if data.id == "fresh"));
    let replayed = mtgo_notes::portability_commands::apply_rollback_for(
        CallerIdentity::Main,
        &mut runtime,
        ConfirmedRollbackRequest {
            rollback_id: "fresh".to_string(),
            confirmation_token: token,
            idempotency_key: key(),
        },
        |coordinator, rollback_id| (coordinator, Ok(rollback(&rollback_id, 5, 6))),
    );
    assert_eq!(failure_code(&replayed), Some(ErrorCode::InvalidRequest));
}

#[test]
fn export_rejects_invalid_unwritable_and_concurrently_claimed_destinations() {
    let mut runtime = PortabilityRuntime::new();
    let invalid = register_path_for(
        CallerIdentity::Main,
        &mut runtime,
        SelectionPurpose::ExportDestination,
        "not-text.bin".to_string(),
        facts("not-text.bin", "bin", false, true),
    );
    assert_eq!(failure_code(&invalid), Some(ErrorCode::InvalidRequest));
    let unwritable = register_path_for(
        CallerIdentity::Main,
        &mut runtime,
        SelectionPurpose::ExportDestination,
        "missing/export.txt".to_string(),
        facts("export.txt", "txt", false, false),
    );
    assert_eq!(failure_code(&unwritable), Some(ErrorCode::DestinationUnwritable));
    let _lease = runtime
        .coordinator
        .begin(OperationKind::ExportSnapshot, Some("claimed.txt"))
        .expect("path lease");
    assert!(matches!(
        runtime
            .coordinator
            .begin(OperationKind::ExportSnapshot, Some("claimed.txt")),
        Err(RepoError::OperationBusy)
    ));
}

#[test]
fn rollback_discovery_apply_and_discard_lifecycle_is_explicit_and_bounded() {
    let now = UtcMillis::now().get();
    let mut available = vec![rollback("merge-rollback", now, now + ROLLBACK_RETENTION_MS)];
    let mut runtime = PortabilityRuntime::new();
    let listed = list_rollbacks_for(CallerIdentity::Main, || Ok(available.clone()));
    assert!(matches!(listed, CommandResult::Success { ref data, .. }
        if data.iter().any(|item| item.id == "merge-rollback")));
    let confirmation = confirm_rollback_for(
        CallerIdentity::Main,
        &mut runtime,
        RollbackRequest { rollback_id: "merge-rollback".to_string() },
        || Ok(available.clone()),
    );
    let token = match confirmation {
        CommandResult::Success { data, .. } => data.confirmation_token,
        CommandResult::Failure { error, .. } => panic!("confirmation failed: {error:?}"),
    };
    let discarded = discard_rollback_for(
        CallerIdentity::Main,
        &mut runtime,
        ConfirmedRollbackRequest {
            rollback_id: "merge-rollback".to_string(),
            confirmation_token: token,
            idempotency_key: key(),
        },
        |rollback_id| {
            let position = available
                .iter()
                .position(|item| item.id == rollback_id)
                .ok_or(RepoError::NotFound)?;
            Ok(available.remove(position))
        },
    );
    assert!(matches!(discarded, CommandResult::Success { .. }));
    let listed = list_rollbacks_for(CallerIdentity::Main, || Ok(Vec::<RollbackView>::new()));
    assert!(matches!(listed, CommandResult::Success { ref data, .. } if data.is_empty()));
}

#[test]
fn portability_fixture_paths_are_local_and_explicit() {
    let chosen = facts("portable.mtgonotes", ARCHIVE_EXTENSION, true, true);
    assert_eq!(chosen.extension.as_deref(), Some(ARCHIVE_EXTENSION));
    assert_eq!(validate_selected_path(SelectionPurpose::RestoreSource, &chosen), Ok(()));
}

#[test]
fn restore_source_must_exist_and_destinations_need_a_directory() {
    assert_eq!(
        validate_selected_path(
            SelectionPurpose::RestoreSource,
            &facts("gone.mtgonotes", "mtgonotes", false, true)
        ),
        Err(RepoError::NotFound)
    );
    assert_eq!(
        validate_selected_path(
            SelectionPurpose::BackupDestination,
            &facts("b.mtgonotes", "mtgonotes", false, false)
        ),
        Err(RepoError::DestinationUnwritable)
    );
    assert_eq!(
        validate_selected_path(
            SelectionPurpose::BackupDestination,
            &facts("b.txt", "txt", false, true)
        ),
        Err(RepoError::InvalidRequest)
    );
}

#[test]
fn selection_is_single_use_and_bound_to_its_purpose() {
    let mut runtime = PortabilityRuntime::new();
    let selection = runtime
        .register_selection_at(
            SelectionPurpose::BackupDestination,
            "/tmp/b.mtgonotes".to_string(),
            facts("b.mtgonotes", "mtgonotes", false, true),
            "t1".to_string(),
            UtcMillis::new(100).expect("time"),
        )
        .expect("selection");
    assert_eq!(selection.display_name, "b.mtgonotes");
    assert_eq!(selection.expires_at, UtcMillis::new(600_100).expect("time"));
    assert_eq!(
        runtime.resolve_selection_at("t1", SelectionPurpose::RestoreSource, UtcMillis::new(101).expect("time")),
        Err(RepoError::InvalidRequest)
    );
    assert_eq!(
        runtime.resolve_selection_at("t1", SelectionPurpose::BackupDestination, UtcMillis::new(101).expect("time")),
        Err(RepoError::InvalidRequest)
    );
    runtime
        .register_selection_at(
            SelectionPurpose::BackupDestination,
            "/tmp/b.mtgonotes".to_string(),
            facts("b.mtgonotes", "mtgonotes", false, true),
            "t2".to_string(),
            UtcMillis::new(100).expect("time"),
        )
        .expect("selection");
    assert_eq!(
        runtime.resolve_selection_at("t2", SelectionPurpose::BackupDestination, UtcMillis::new(600_101).expect("time")),
        Err(RepoError::InvalidRequest)
    );
    runtime
        .register_selection_at(
            SelectionPurpose::BackupDestination,
            "/tmp/b.mtgonotes".to_string(),
            facts("b.mtgonotes", "mtgonotes", false, true),
            "t3".to_string(),
            UtcMillis::new(100).expect("time"),
        )
        .expect("selection");
    assert_eq!(
        runtime.resolve_selection_at("t3", SelectionPurpose::BackupDestination, UtcMillis::new(600_100).expect("time")),
        Ok("/tmp/b.mtgonotes".to_string())
    );
}

#[test]
fn only_the_newest_three_unexpired_rollbacks_are_kept() {
    let ordered = order_rollbacks(vec![
        rollback("a", 10, 1_000),
        rollback("e", 50, 1_000),
        rollback("b", 40, 1_000),
        rollback("d", 40, 1_000),
        rollback("c", 30, 20),
    ]);
    let ids: Vec<&str> = ordered.iter().map(|item| item.id.as_str()).collect();
    assert_eq!(ids, ["e", "b", "d", "c", "a"]);
    let (kept, pruned) = prune_rollbacks(ordered, UtcMillis::new(100).expect("time"));
    let kept_ids: Vec<&str> = kept.iter().map(|item| item.id.as_str()).collect();
    assert_eq!(kept_ids, ["e", "b", "d"]);
    assert_eq!(pruned.len(), 2);
}

#[test]
fn backup_contents_and_failures_settle_as_documented() {
    let request = BackupRequest {
        operation_id: EntityId::new().expect("id"),
        destination: "backup.mtgonotes".to_string(),
        passphrase_acknowledged: true,
        confirm_empty: false,
        overwrite: false,
        idempotency_key: IdempotencyKey::new().expect("key"),
    };
    assert_eq!(
        check_backup_contents(&request, 0, false),
        Err(RepoError::EmptyPortabilityConfirmationRequired)
    );
    assert_eq!(check_backup_contents(&request, 2, true), Err(RepoError::OperationBusy));
    assert_eq!(check_backup_contents(&request, 2, false), Ok(()));
    let existing = DestinationFacts {
        file_name: Some("backup.mtgonotes".to_string()),
        extension: Some("mtgonotes".to_string()),
        exists: true,
        parent_is_dir: true,
    };
    assert_eq!(check_backup_request(&request, "", &existing), Err(RepoError::InvalidRequest));
    assert_eq!(
        check_backup_request(&request, "secret", &existing),
        Err(RepoError::InvalidRequest)
    );
    assert_eq!(
        settle_failure(true, RepoError::DestinationUnwritable),
        (OperationState::Cancelled, RepoError::InvalidRequest)
    );
    assert_eq!(
        settle_failure(false, RepoError::DestinationUnwritable),
        (OperationState::Failed, RepoError::DestinationUnwritable)
    );
}

#[test]
fn overlay_cannot_pick_paths() {
    let mut runtime = PortabilityRuntime::new();
    let refused = register_path_for(
        CallerIdentity::Overlay,
        &mut runtime,
        SelectionPurpose::BackupDestination,
        "b.mtgonotes".to_string(),
        facts("b.mtgonotes", "mtgonotes", false, true),
    );
    assert_eq!(failure_code(&refused), Some(ErrorCode::UnauthorizedCaller));
}

#[test]
fn preview_tally_counts_mapped_identities_as_duplicates() {
    let entry = |table: &str, status: RecordStatus, mapped: bool| DiffEntry {
        table: table.to_string(),
        status,
        mapped,
    };
    let diff = calculate_diff(&vec![
        entry("opponent_profiles", RecordStatus::Missing, true),
        entry("opponent_profiles", RecordStatus::Missing, false),
        entry("encounters", RecordStatus::Divergent, false),
        entry("observations", RecordStatus::Exact, false),
        entry("card_observations", RecordStatus::Missing, false),
    ]);
    assert_eq!(diff.imported_records, 2);
    assert_eq!(diff.exact_duplicates, 2);
    assert_eq!(diff.conflicts, 1);
    assert_eq!(diff.profiles, 2);
    assert_eq!(diff.encounters, 1);
    assert_eq!(diff.observations, 1);
    assert_eq!(diff.tombstone_skips, 0);
}

#[test]
fn preview_is_assembled_with_expiry_and_modes() {
    let manifest = empty_manifest();
    assert_eq!(check_schema_range(2, &manifest), Ok(()));
    assert_eq!(check_schema_range(4, &manifest), Err(RepoError::InvalidBackup));
    assert_eq!(check_schema_range(0, &manifest), Err(RepoError::InvalidBackup));
    let operation = staged(&id(), "t").preview.operation;
    let verified = || VerifiedArchive {
        envelope: ArchiveEnvelope::with_material([1; 16], [2; 4]),
        manifest: empty_manifest(),
        archive_sha256: "ab".repeat(32),
    };
    let staged = assemble_preview(
        operation.clone(),
        "preview".to_string(),
        UtcMillis::new(1_000).expect("time"),
        verified(),
        RestoreDiff::new(),
        4,
        &Some("live-player".to_string()),
        &Some("archived-player".to_string()),
        "staging.db".to_string(),
        "digest".to_string(),
    )
    .expect("preview");
    assert_eq!(staged.preview.expires_at.get(), 1_000 + PREVIEW_TTL_MS);
    assert!(staged.preview.player_identity_conflict);
    assert_eq!(staged.preview.allowed_modes, vec![RestoreMode::Replace]);
    assert_eq!(staged.preview.diff.tombstone_skips, 4);
    let unconflicted = assemble_preview(
        operation,
        "preview".to_string(),
        UtcMillis::new(1_000).expect("time"),
        verified(),
        RestoreDiff::new(),
        0,
        &None,
        &Some("archived-player".to_string()),
        "staging.db".to_string(),
        "digest".to_string(),
    )
    .expect("preview");
    assert_eq!(unconflicted.preview.allowed_modes, vec![RestoreMode::Merge, RestoreMode::Replace]);
    let rollback = rollback_view_at(
        "r".to_string(),
        "op".to_string(),
        RestoreMode::Merge,
        UtcMillis::new(5).expect("time"),
    )
    .expect("rollback");
    assert_eq!(rollback.expires_at.get(), 5 + ROLLBACK_RETENTION_MS);
    assert!(rollback_view_at(
        "r".to_string(),
        "op".to_string(),
        RestoreMode::Merge,
        UtcMillis::new(i64::MAX).expect("time"),
    )
    .is_err());
}

#[test]
fn backup_validates_acknowledgement_empty_state_and_destination_before_writing() {
    let mut request = BackupRequest {
        operation_id: EntityId::new().expect("id"),
        destination: "/fixture/invalid.txt".to_string(),
        passphrase_acknowledged: false,
        confirm_empty: true,
        overwrite: false,
        idempotency_key: IdempotencyKey::new().expect("key"),
    };
    let invalid = DestinationFacts {
        file_name: Some("invalid.txt".to_string()),
        extension: Some("txt".to_string()),
        exists: false,
        parent_is_dir: true,
    };
    assert_eq!(
        check_backup_request(&request, "passphrase", &invalid),
        Err(RepoError::AcknowledgementRequired)
    );

    request.destination = "/fixture/empty.mtgonotes".to_string();
    request.passphrase_acknowledged = true;
    request.confirm_empty = false;
    let empty = DestinationFacts {
        file_name: Some("empty.mtgonotes".to_string()),
        extension: Some("mtgonotes".to_string()),
        exists: false,
        parent_is_dir: true,
    };
    let outcome = check_backup_request(&request, "passphrase", &empty)
        .and_then(|()| check_backup_contents(&request, 0, false));
    assert_eq!(outcome, Err(RepoError::EmptyPortabilityConfirmationRequired));

    request.confirm_empty = true;
    request.destination = "/fixture/missing/backup.mtgonotes".to_string();
    let missing = DestinationFacts {
        file_name: Some("backup.mtgonotes".to_string()),
        extension: Some("mtgonotes".to_string()),
        exists: false,
        parent_is_dir: false,
    };
    let outcome = check_backup_request(&request, "passphrase", &missing)
        .and_then(|()| check_backup_contents(&request, 0, false));
    assert_eq!(outcome, Err(RepoError::DestinationUnwritable));
    assert_eq!(
        partial_path(&request.destination),
        "/fixture/missing/backup.mtgonotes.partial"
    );
}

fn fresh_writer() -> ArchiveWriter {
    let (envelope, key) =
        ArchiveWriter::prepare("passphrase", ArchiveEnvelope::with_material([1; 16], [2; 4]))
            .expect("prepare");
    ArchiveWriter::new(key, envelope.cipher.nonce_prefix, b"{}").expect("writer").0
}

fn destination_of(name: &str, extension: &str, parent_is_dir: bool) -> DestinationFacts {
    DestinationFacts {
        file_name: Some(name.to_string()),
        extension: Some(extension.to_string()),
        exists: false,
        parent_is_dir,
    }
}

#[test]
fn build_backup_refuses_before_sealing_in_the_order_of_its_checks() {
    let mut request = BackupRequest {
        operation_id: EntityId::new().expect("id"),
        destination: "invalid.txt".to_string(),
        passphrase_acknowledged: false,
        confirm_empty: true,
        overwrite: false,
        idempotency_key: IdempotencyKey::new().expect("key"),
    };
    let lines: Vec<(String, Vec<u8>)> = Vec::new();
    let mut writer = fresh_writer();
    assert_eq!(
        build_backup(&request, "passphrase", &destination_of("invalid.txt", "txt", true), 0, false, false, &mut writer, &lines).err(),
        Some(BackupStop::Refused(RepoError::AcknowledgementRequired))
    );

    request.destination = "empty.mtgonotes".to_string();
    request.passphrase_acknowledged = true;
    request.confirm_empty = false;
    assert_eq!(
        build_backup(&request, "passphrase", &destination_of("empty.mtgonotes", "mtgonotes", true), 0, false, false, &mut writer, &lines).err(),
        Some(BackupStop::Refused(RepoError::EmptyPortabilityConfirmationRequired))
    );

    request.confirm_empty = true;
    request.destination = "missing/backup.mtgonotes".to_string();
    assert_eq!(
        build_backup(&request, "passphrase", &destination_of("backup.mtgonotes", "mtgonotes", false), 0, false, false, &mut writer, &lines).err(),
        Some(BackupStop::Refused(RepoError::DestinationUnwritable))
    );
    assert_eq!(writer.counter, 0);
    assert!(writer.pending.is_empty());
}

#[test]
fn backup_same_path_overwrite_and_pending_deletion_obey_exclusion_contracts() {
    let mut coordinator = OperationCoordinator::new();
    let lease = coordinator
        .begin(OperationKind::BackupSnapshot, Some("exclusive.mtgonotes"))
        .expect("path lease");
    assert!(matches!(
        coordinator.begin(OperationKind::BackupSnapshot, Some("exclusive.mtgonotes")),
        Err(RepoError::OperationBusy)
    ));
    coordinator.release(lease);
    let request = BackupRequest {
        operation_id: EntityId::new().expect("id"),
        destination: "exclusive.mtgonotes".to_string(),
        passphrase_acknowledged: true,
        confirm_empty: true,
        overwrite: false,
        idempotency_key: IdempotencyKey::new().expect("key"),
    };
    let mut writer = fresh_writer();
    assert_eq!(
        build_backup(&request, "passphrase", &destination_of("exclusive.mtgonotes", "mtgonotes", true), 1, true, false, &mut writer, &Vec::new()).err(),
        Some(BackupStop::Refused(RepoError::OperationBusy))
    );
}

#[test]
fn restore_staging_needs_the_notebook_schema_in_the_archive_range() {
    let profile_id = id();
    let records = || {
        vec![record(
            "opponent_profiles",
            vec![text(&profile_id), text("Opponent"), text("opponent"), CanonicalValue::Integer(1), CanonicalValue::Integer(1), CanonicalValue::Null],
        )]
    };
    assert!(matches!(
        plan_restore_staging(4, &empty_manifest(), records(), Vec::new()),
        Err(RepoError::InvalidBackup)
    ));
    assert!(matches!(
        plan_restore_staging(0, &empty_manifest(), records(), Vec::new()),
        Err(RepoError::InvalidBackup)
    ));
    let plan = plan_restore_staging(2, &empty_manifest(), records(), Vec::new()).expect("plan");
    assert_eq!(plan.insert.len(), 1);
    assert_eq!(plan.tombstone_skips, 0);
}
