//! Backup, restore, export and rollback commands: caller admission, picked
//! paths, idempotency keys and operation identifiers, cancellation handles,
//! and how the outcome is reported. The archive and notebook work itself is
//! handed in by the caller; it borrows the operation coordinator for the
//! length of the call and hands it back.
use vstd::prelude::*;

use crate::backup::BackupRequest;
use crate::commands::{
    fails_with_repo, refuses_caller, refuses_key, refuses_operation_id, report_read, reports_read,
    require_idempotency_key, require_operation_id,
};
use crate::domain::{valid_id, EntityId, IdempotencyKey, RepoError, UtcMillis};
use crate::ipc::{CallerIdentity, CommandResult};
use crate::operations::{
    allowed_transition, CancellationState, CancellationToken, OperationCoordinator,
    OperationRecord, OperationState, OperationUpdate,
};
use crate::portability::{PathFacts, PathSelection, PortabilityRuntime, SelectionPurpose};
use crate::restore::{same_preview, RestoreMode, RestorePreview, RestorePreviewInput, RollbackView, StagedRestore};
use crate::text::str_eq;

verus! {

#[derive(Debug, PartialEq, Eq)]
pub struct SelectPathRequest {
    pub purpose: SelectionPurpose,
}

#[derive(Debug, PartialEq, Eq)]
pub struct StartBackupRequest {
    pub operation_id: String,
    pub selection_token: String,
    pub passphrase: String,
    pub passphrase_acknowledged: bool,
    pub confirm_empty: bool,
    pub overwrite: bool,
    pub idempotency_key: String,
}

#[derive(Debug, PartialEq, Eq)]
pub struct PreviewRestoreRequest {
    pub operation_id: String,
    pub idempotency_key: String,
    pub selection_token: String,
    pub passphrase: String,
}

#[derive(Debug, PartialEq, Eq)]
pub struct ApplyRestoreRequest {
    pub preview_token: String,
    pub mode: RestoreMode,
    pub idempotency_key: String,
}

/// `S` is the export scope the notebook accepts.
#[derive(Debug, PartialEq, Eq)]
pub struct StartExportRequest<S> {
    pub operation_id: String,
    pub selection_token: String,
    pub scope: S,
    pub plaintext_acknowledged: bool,
    pub confirm_empty: bool,
    pub unsaved_edits_resolved: bool,
    pub overwrite: bool,
    pub idempotency_key: String,
}

/// A plain-text export to a resolved destination.
#[derive(Debug, PartialEq, Eq)]
pub struct ExportRequest<S> {
    pub operation_id: EntityId,
    pub destination: String,
    pub scope: S,
    pub plaintext_acknowledged: bool,
    pub confirm_empty: bool,
    pub unsaved_edits_resolved: bool,
    pub overwrite: bool,
    pub idempotency_key: IdempotencyKey,
}

#[derive(Debug, PartialEq, Eq)]
pub struct OperationRequest {
    pub operation_id: String,
}

#[derive(Debug, PartialEq, Eq)]
pub struct RollbackRequest {
    pub rollback_id: String,
}

#[derive(Debug, PartialEq, Eq)]
pub struct ConfirmedRollbackRequest {
    pub rollback_id: String,
    pub confirmation_token: String,
    pub idempotency_key: String,
}

#[derive(Debug, PartialEq, Eq)]
pub struct RollbackConfirmation {
    pub rollback: RollbackView,
    pub confirmation_token: String,
    pub expires_at: UtcMillis,
}

/// What resolving a picked path for `purpose` at `now` gives.
pub open spec fn resolved_path(
    rt: PortabilityRuntime,
    token: Seq<char>,
    purpose: SelectionPurpose,
    now: UtcMillis,
) -> Result<Seq<char>, RepoError> {
    if !rt.selections().contains_key(token) {
        Err(RepoError::InvalidRequest)
    } else {
        let s = rt.selections()[token];
        if s.purpose != purpose || s.expires_at.0 < now.0 {
            Err(RepoError::InvalidRequest)
        } else {
            Ok(s.path@)
        }
    }
}

/// Only the picked paths changed, by spending `token`.
pub open spec fn spent_selection(
    old: PortabilityRuntime,
    new: PortabilityRuntime,
    token: Seq<char>,
) -> bool {
    &&& new.wf()
    &&& new.selections() == old.selections().remove(token)
    &&& new.previews() == old.previews()
    &&& new.confirmations() == old.confirmations()
}

/// The coordinator and the cancellation handles are as they were.
pub open spec fn nothing_started(old: PortabilityRuntime, new: PortabilityRuntime) -> bool {
    &&& new.coordinator == old.coordinator
    &&& new.cancellations() == old.cancellations()
}

/// The request a backup runs with, field for field.
pub open spec fn backup_request_for(
    b: BackupRequest,
    request: StartBackupRequest,
    destination: Seq<char>,
) -> bool {
    &&& b.operation_id@ == request.operation_id@
    &&& b.destination@ == destination
    &&& b.passphrase_acknowledged == request.passphrase_acknowledged
    &&& b.confirm_empty == request.confirm_empty
    &&& b.overwrite == request.overwrite
    &&& b.idempotency_key.0@ == request.idempotency_key@
}

/// `c` is `before` with one more cancellation handle, `t`, fresh: not
/// cancelled and safe to cancel; nothing else changed.
pub open spec fn fresh_handle(before: OperationCoordinator, c: OperationCoordinator, t: CancellationToken) -> bool {
    &&& c.wf()
    &&& c.view() == before.view()
    &&& forall|id: Seq<char>| c.operation(id) == before.operation(id)
    &&& before.token_state(t) is None
    &&& c.token_state(t) == Some(CancellationState { cancelled: false, safe_to_cancel: true })
    &&& forall|o: CancellationToken| o != t ==> c.token_state(o) == before.token_state(o)
    &&& c.tokens_issued() == before.tokens_issued() + 1
}

/// The reply of a backup command at time `now`: the caller must be the
/// main window; the picked destination is spent; then the idempotency key
/// and the operation identifier are checked, a cancellation handle is
/// registered for the length of the backup, and the backup's outcome is
/// reported.
pub open spec fn backup_reply<T, F: FnOnce(OperationCoordinator, BackupRequest, String, CancellationToken) -> (OperationCoordinator, Result<T, RepoError>)>(
    old: PortabilityRuntime,
    new: PortabilityRuntime,
    caller: CallerIdentity,
    request: StartBackupRequest,
    now: UtcMillis,
    backup: F,
    r: CommandResult<T>,
) -> bool {
    if caller != CallerIdentity::Main {
        refuses_caller(r) && new == old
    } else {
        &&& spent_selection(old, new, request.selection_token@)
        &&& match resolved_path(old, request.selection_token@, SelectionPurpose::BackupDestination, now) {
            Err(e) => fails_with_repo(r, e) && nothing_started(old, new),
            Ok(path) => if !valid_id(request.idempotency_key@) {
                refuses_key(r) && nothing_started(old, new)
            } else if !valid_id(request.operation_id@) {
                refuses_operation_id(r) && nothing_started(old, new)
            } else {
                if old.coordinator.tokens_exhausted() {
                    fails_with_repo(r, RepoError::OperationBusy) && nothing_started(old, new)
                } else {
                    new.cancellations() == old.cancellations().remove(request.operation_id@)
                    && exists|c: OperationCoordinator, b: BackupRequest, t: CancellationToken, out: (OperationCoordinator, Result<T, RepoError>)|
                        #![trigger backup.ensures((c, b, request.passphrase, t), out)]
                        fresh_handle(old.coordinator, c, t) && backup_request_for(b, request, path)
                        && backup.ensures((c, b, request.passphrase, t), out)
                        && new.coordinator == out.0 && reports_read(out.1, r)
                }
            },
        }
    }
}

/// The reply to registering a picked path: the refusal, if there is one;
/// otherwise the selection, recorded under its token, or a failure that
/// recorded nothing.
pub open spec fn registered_reply(
    old: PortabilityRuntime,
    new: PortabilityRuntime,
    purpose: SelectionPurpose,
    path: Seq<char>,
    facts: PathFacts,
    r: CommandResult<PathSelection>,
) -> bool {
    match crate::portability::selection_refusal(purpose, facts) {
        Some(e) => fails_with_repo(r, e) && new.selections() == old.selections(),
        None => match r {
            CommandResult::Success { data, revision, .. } => {
                &&& revision == 1
                &&& data.purpose == purpose
                &&& data.path@ == path
                &&& data.display_name@ == facts.file_name->0@
                &&& new.selections() == old.selections().insert(data.token@, data)
            },
            CommandResult::Failure { .. } => new.selections() == old.selections(),
        },
    }
}

/// Records a path the user picked (main window).
pub fn register_path_for(
    caller: CallerIdentity,
    runtime: &mut PortabilityRuntime,
    purpose: SelectionPurpose,
    path: String,
    facts: PathFacts,
) -> (r: CommandResult<PathSelection>)
    requires
        old(runtime).wf(),
    ensures
        final(runtime).wf(),
        caller != CallerIdentity::Main ==> refuses_caller(r) && *final(runtime) == *old(runtime),
        caller == CallerIdentity::Main ==> nothing_started(*old(runtime), *final(runtime))
            && final(runtime).previews() == old(runtime).previews()
            && final(runtime).confirmations() == old(runtime).confirmations(),
        caller == CallerIdentity::Main ==> registered_reply(
            *old(runtime),
            *final(runtime),
            purpose,
            path@,
            facts,
            r,
        ),
{
    if let Err(error) = caller.require(&[CallerIdentity::Main]) {
        return CommandResult::failure(error);
    }
    report_read(runtime.register_selection(purpose, path, facts))
}

/// Writes an encrypted backup to a picked destination (main window), at
/// time `now`.
pub fn start_backup_at<T, F>(
    caller: CallerIdentity,
    runtime: &mut PortabilityRuntime,
    request: StartBackupRequest,
    now: UtcMillis,
    backup: F,
) -> (r: CommandResult<T>) where
    F: FnOnce(OperationCoordinator, BackupRequest, String, CancellationToken) -> (OperationCoordinator, Result<T, RepoError>),
    requires
        old(runtime).wf(),
        forall|c: OperationCoordinator, b: BackupRequest, p: String, t: CancellationToken|
            c.wf() ==> #[trigger] backup.requires((c, b, p, t)),
        forall|c: OperationCoordinator, b: BackupRequest, p: String, t: CancellationToken, out: (OperationCoordinator, Result<T, RepoError>)|
            c.wf() && #[trigger] backup.ensures((c, b, p, t), out) ==> out.0.wf(),
    ensures
        final(runtime).wf(),
        backup_reply(*old(runtime), *final(runtime), caller, request, now, backup, r),
{
    if let Err(error) = caller.require(&[CallerIdentity::Main]) {
        return CommandResult::failure(error);
    }
    let destination = match runtime.resolve_selection_at(
        request.selection_token.as_str(),
        SelectionPurpose::BackupDestination,
        now,
    ) {
        Ok(path) => path,
        Err(error) => {
            return CommandResult::failure(error.to_app_error());
        },
    };
    let idempotency_key = match require_idempotency_key(request.idempotency_key.as_str()) {
        Ok(key) => key,
        Err(error) => {
            return CommandResult::failure(error);
        },
    };
    let operation_id = match require_operation_id(request.operation_id.as_str()) {
        Ok(id) => id,
        Err(error) => {
            return CommandResult::failure(error);
        },
    };
    let ghost before = *runtime;
    let cancellation = match runtime.coordinator.new_token() {
        Ok(t) => t,
        Err(error) => {
            return CommandResult::failure(error.to_app_error());
        },
    };
    let _ = runtime.register_cancellation(operation_id.as_str(), cancellation);
    let backup_request = BackupRequest {
        operation_id: operation_id.clone(),
        destination,
        passphrase_acknowledged: request.passphrase_acknowledged,
        confirm_empty: request.confirm_empty,
        overwrite: request.overwrite,
        idempotency_key,
    };
    let mut coordinator = OperationCoordinator::new();
    core::mem::swap(&mut coordinator, &mut runtime.coordinator);
    let ghost c = coordinator;
    let ghost b = backup_request;
    let ghost p = request.passphrase;
    let out = backup(coordinator, backup_request, request.passphrase, cancellation);
    let (coordinator, outcome) = out;
    runtime.coordinator = coordinator;
    runtime.remove_cancellation(operation_id.as_str());
    let r = report_read(outcome);
    proof {
        assert(backup.ensures((c, b, p, cancellation), out));
        assert(runtime.cancellations() =~= before.cancellations().remove(request.operation_id@));
    }
    r
}

/// [`start_backup_at`] at the current time.
pub fn start_backup_for<T, F>(
    caller: CallerIdentity,
    runtime: &mut PortabilityRuntime,
    request: StartBackupRequest,
    backup: F,
) -> (r: CommandResult<T>) where
    F: FnOnce(OperationCoordinator, BackupRequest, String, CancellationToken) -> (OperationCoordinator, Result<T, RepoError>),
    requires
        old(runtime).wf(),
        forall|c: OperationCoordinator, b: BackupRequest, p: String, t: CancellationToken|
            c.wf() ==> #[trigger] backup.requires((c, b, p, t)),
        forall|c: OperationCoordinator, b: BackupRequest, p: String, t: CancellationToken, out: (OperationCoordinator, Result<T, RepoError>)|
            c.wf() && #[trigger] backup.ensures((c, b, p, t), out) ==> out.0.wf(),
    ensures
        final(runtime).wf(),
        exists|now: UtcMillis|
            now.0 >= 0 && #[trigger] backup_reply(*old(runtime), *final(runtime), caller, request, now, backup, r),
{
    let now = UtcMillis::now();
    start_backup_at(caller, runtime, request, now, backup)
}

/// An operation's record (main window).
pub fn get_operation_for(caller: CallerIdentity, runtime: &PortabilityRuntime, request: OperationRequest) -> (r:
    CommandResult<OperationRecord>)
    requires
        runtime.wf(),
    ensures
        caller != CallerIdentity::Main ==> refuses_caller(r),
        caller == CallerIdentity::Main && !valid_id(request.operation_id@) ==> fails_with_repo(
            r,
            RepoError::InvalidRequest,
        ),
        caller == CallerIdentity::Main && valid_id(request.operation_id@) ==> match runtime.coordinator.operation(
            request.operation_id@,
        ) {
            Some(rec) => r == CommandResult::Success { ok: true, data: rec, revision: 1 },
            None => fails_with_repo(r, RepoError::NotFound),
        },
{
    if let Err(error) = caller.require(&[CallerIdentity::Main]) {
        return CommandResult::failure(error);
    }
    let operation_id = match EntityId::parse(request.operation_id.as_str()) {
        Ok(id) => id,
        Err(error) => {
            return CommandResult::failure(error.to_app_error());
        },
    };
    report_read(runtime.coordinator.get(&operation_id))
}

/// The rollback points a restore left behind (main window).
pub fn list_rollbacks_for<F: FnOnce() -> Result<Vec<RollbackView>, RepoError>>(
    caller: CallerIdentity,
    list: F,
) -> (r: CommandResult<Vec<RollbackView>>)
    requires
        list.requires(()),
    ensures
        caller != CallerIdentity::Main ==> refuses_caller(r),
        caller == CallerIdentity::Main ==> exists|o: Result<Vec<RollbackView>, RepoError>|
            list.ensures((), o) && reports_read(o, r),
{
    if let Err(error) = caller.require(&[CallerIdentity::Main]) {
        return CommandResult::failure(error);
    }
    report_read(list())
}


/// The input a restore preview is staged from, field for field.
pub open spec fn preview_input_for(
    input: RestorePreviewInput,
    request: PreviewRestoreRequest,
    archive_path: Seq<char>,
) -> bool {
    &&& input.operation_id@ == request.operation_id@
    &&& input.idempotency_key.0@ == request.idempotency_key@
    &&& input.archive_path@ == archive_path
    &&& input.passphrase == request.passphrase
}

/// The reply of a restore preview at time `now`: the caller must be the
/// main window; the picked archive is spent; then the operation identifier
/// and the idempotency key are checked and a cancellation handle is
/// registered. A staged preview is kept under its token, with its handle,
/// until it is applied or cancelled; a failed one leaves neither behind.
pub open spec fn preview_reply<F: FnOnce(OperationCoordinator, RestorePreviewInput) -> (OperationCoordinator, Result<StagedRestore, RepoError>)>(
    old: PortabilityRuntime,
    new: PortabilityRuntime,
    caller: CallerIdentity,
    request: PreviewRestoreRequest,
    now: UtcMillis,
    stage: F,
    r: CommandResult<RestorePreview>,
) -> bool {
    if caller != CallerIdentity::Main {
        refuses_caller(r) && new == old
    } else {
        &&& new.wf()
        &&& new.selections() == old.selections().remove(request.selection_token@)
        &&& new.confirmations() == old.confirmations()
        &&& match resolved_path(old, request.selection_token@, SelectionPurpose::RestoreSource, now) {
            Err(e) => fails_with_repo(r, e) && nothing_started(old, new) && new.previews() == old.previews(),
            Ok(path) => if !valid_id(request.operation_id@) {
                refuses_operation_id(r) && nothing_started(old, new) && new.previews() == old.previews()
            } else if !valid_id(request.idempotency_key@) {
                refuses_key(r) && nothing_started(old, new) && new.previews() == old.previews()
            } else {
                if old.coordinator.tokens_exhausted() {
                    fails_with_repo(r, RepoError::OperationBusy) && nothing_started(old, new)
                    && new.previews() == old.previews()
                } else {
                exists|c: OperationCoordinator, input: RestorePreviewInput, out: (OperationCoordinator, Result<StagedRestore, RepoError>)|
                    #![trigger stage.ensures((c, input), out)]
                    fresh_handle(old.coordinator, c, input.cancellation) && preview_input_for(input, request, path)
                    && stage.ensures((c, input), out) && new.coordinator == out.0
                    && match out.1 {
                        Ok(staged) => {
                            &&& r matches CommandResult::Success { data, revision, .. } && revision == 1
                                && same_preview(data, staged.preview)
                            &&& new.previews() == old.previews().insert(staged.preview.token@, staged)
                            &&& new.cancellations() == old.cancellations().insert(
                                request.operation_id@,
                                input.cancellation,
                            )
                        },
                        Err(e) => {
                            &&& fails_with_repo(r, e)
                            &&& new.previews() == old.previews()
                            &&& new.cancellations() == old.cancellations().remove(request.operation_id@)
                        },
                    }
                }
            },
        }
    }
}

/// Verifies and stages an archive for restore, awaiting confirmation (main
/// window), at time `now`.
pub fn preview_restore_at<F>(
    caller: CallerIdentity,
    runtime: &mut PortabilityRuntime,
    request: PreviewRestoreRequest,
    now: UtcMillis,
    stage: F,
) -> (r: CommandResult<RestorePreview>) where
    F: FnOnce(OperationCoordinator, RestorePreviewInput) -> (OperationCoordinator, Result<StagedRestore, RepoError>),
    requires
        old(runtime).wf(),
        forall|c: OperationCoordinator, input: RestorePreviewInput|
            c.wf() ==> #[trigger] stage.requires((c, input)),
        forall|c: OperationCoordinator, input: RestorePreviewInput, out: (OperationCoordinator, Result<StagedRestore, RepoError>)|
            c.wf() && #[trigger] stage.ensures((c, input), out) ==> out.0.wf(),
    ensures
        final(runtime).wf(),
        preview_reply(*old(runtime), *final(runtime), caller, request, now, stage, r),
{
    if let Err(error) = caller.require(&[CallerIdentity::Main]) {
        return CommandResult::failure(error);
    }
    let archive_path = match runtime.resolve_selection_at(
        request.selection_token.as_str(),
        SelectionPurpose::RestoreSource,
        now,
    ) {
        Ok(path) => path,
        Err(error) => {
            return CommandResult::failure(error.to_app_error());
        },
    };
    let operation_id = match require_operation_id(request.operation_id.as_str()) {
        Ok(id) => id,
        Err(error) => {
            return CommandResult::failure(error);
        },
    };
    let idempotency_key = match require_idempotency_key(request.idempotency_key.as_str()) {
        Ok(key) => key,
        Err(error) => {
            return CommandResult::failure(error);
        },
    };
    let ghost before = *runtime;
    let cancellation = match runtime.coordinator.new_token() {
        Ok(t) => t,
        Err(error) => {
            return CommandResult::failure(error.to_app_error());
        },
    };
    let _ = runtime.register_cancellation(operation_id.as_str(), cancellation);
    let input = RestorePreviewInput {
        operation_id: operation_id.clone(),
        idempotency_key,
        archive_path,
        passphrase: request.passphrase,
        cancellation,
    };
    let mut coordinator = OperationCoordinator::new();
    core::mem::swap(&mut coordinator, &mut runtime.coordinator);
    let ghost c = coordinator;
    let ghost i = input;
    let out = stage(coordinator, input);
    let (coordinator, outcome) = out;
    runtime.coordinator = coordinator;
    proof {
        assert(stage.ensures((c, i), out));
    }
    match outcome {
        Ok(staged) => {
            let preview = staged.preview.copy();
            let _ = runtime.store_preview(staged);
            CommandResult::success(preview, 1)
        },
        Err(error) => {
            runtime.remove_cancellation(operation_id.as_str());
            proof {
                assert(runtime.cancellations() =~= before.cancellations().remove(request.operation_id@));
            }
            CommandResult::failure(error.to_app_error())
        },
    }
}

/// [`preview_restore_at`] at the current time.
pub fn preview_restore_for<F>(
    caller: CallerIdentity,
    runtime: &mut PortabilityRuntime,
    request: PreviewRestoreRequest,
    stage: F,
) -> (r: CommandResult<RestorePreview>) where
    F: FnOnce(OperationCoordinator, RestorePreviewInput) -> (OperationCoordinator, Result<StagedRestore, RepoError>),
    requires
        old(runtime).wf(),
        forall|c: OperationCoordinator, input: RestorePreviewInput|
            c.wf() ==> #[trigger] stage.requires((c, input)),
        forall|c: OperationCoordinator, input: RestorePreviewInput, out: (OperationCoordinator, Result<StagedRestore, RepoError>)|
            c.wf() && #[trigger] stage.ensures((c, input), out) ==> out.0.wf(),
    ensures
        final(runtime).wf(),
        exists|now: UtcMillis|
            now.0 >= 0 && #[trigger] preview_reply(*old(runtime), *final(runtime), caller, request, now, stage, r),
{
    let now = UtcMillis::now();
    preview_restore_at(caller, runtime, request, now, stage)
}

/// Applies a staged restore in the chosen mode (main window). The preview
/// is taken out, and its cancellation handle dropped, before the key is
/// checked.
pub fn apply_restore_for<T, F>(
    caller: CallerIdentity,
    runtime: &mut PortabilityRuntime,
    request: ApplyRestoreRequest,
    apply: F,
) -> (r: CommandResult<T>) where
    F: FnOnce(OperationCoordinator, StagedRestore, RestoreMode, IdempotencyKey) -> (OperationCoordinator, Result<T, RepoError>),
    requires
        old(runtime).wf(),
        forall|c: OperationCoordinator, s: StagedRestore, m: RestoreMode, k: IdempotencyKey|
            c.wf() ==> #[trigger] apply.requires((c, s, m, k)),
        forall|c: OperationCoordinator, s: StagedRestore, m: RestoreMode, k: IdempotencyKey, out: (OperationCoordinator, Result<T, RepoError>)|
            c.wf() && #[trigger] apply.ensures((c, s, m, k), out) ==> out.0.wf(),
    ensures
        final(runtime).wf(),
        caller != CallerIdentity::Main ==> refuses_caller(r) && *final(runtime) == *old(runtime),
        caller == CallerIdentity::Main ==> ({
            let token = request.preview_token@;
            &&& final(runtime).selections() == old(runtime).selections()
            &&& final(runtime).confirmations() == old(runtime).confirmations()
            &&& final(runtime).previews() == old(runtime).previews().remove(token)
            &&& if !old(runtime).previews().contains_key(token) {
                fails_with_repo(r, RepoError::InvalidRequest) && nothing_started(*old(runtime), *final(runtime))
            } else {
                let staged = old(runtime).previews()[token];
                &&& final(runtime).cancellations() == old(runtime).cancellations().remove(
                    staged.preview.operation.id@,
                )
                &&& if !valid_id(request.idempotency_key@) {
                    refuses_key(r) && final(runtime).coordinator == old(runtime).coordinator
                } else {
                    exists|k: IdempotencyKey, out: (OperationCoordinator, Result<T, RepoError>)|
                        #![trigger apply.ensures((old(runtime).coordinator, staged, request.mode, k), out)]
                        k.0@ == request.idempotency_key@ && apply.ensures(
                            (old(runtime).coordinator, staged, request.mode, k),
                            out,
                        ) && final(runtime).coordinator == out.0 && reports_read(out.1, r)
                }
            }
        }),
{
    if let Err(error) = caller.require(&[CallerIdentity::Main]) {
        return CommandResult::failure(error);
    }
    let staged = match runtime.take_preview(request.preview_token.as_str()) {
        Ok(staged) => staged,
        Err(error) => {
            return CommandResult::failure(error.to_app_error());
        },
    };
    runtime.remove_cancellation(staged.preview.operation.id.as_str());
    let idempotency_key = match require_idempotency_key(request.idempotency_key.as_str()) {
        Ok(key) => key,
        Err(error) => {
            return CommandResult::failure(error);
        },
    };
    let mut coordinator = OperationCoordinator::new();
    core::mem::swap(&mut coordinator, &mut runtime.coordinator);
    let ghost c = coordinator;
    let ghost s = staged;
    let ghost k = idempotency_key;
    let out = apply(coordinator, staged, request.mode, idempotency_key);
    let (coordinator, outcome) = out;
    runtime.coordinator = coordinator;
    proof {
        assert(apply.ensures((c, s, request.mode, k), out));
    }
    report_read(outcome)
}


/// The request an export runs with, field for field.
pub open spec fn export_request_for<S>(
    e: ExportRequest<S>,
    request: StartExportRequest<S>,
    destination: Seq<char>,
) -> bool {
    &&& e.operation_id@ == request.operation_id@
    &&& e.destination@ == destination
    &&& e.scope == request.scope
    &&& e.plaintext_acknowledged == request.plaintext_acknowledged
    &&& e.confirm_empty == request.confirm_empty
    &&& e.unsaved_edits_resolved == request.unsaved_edits_resolved
    &&& e.overwrite == request.overwrite
    &&& e.idempotency_key.0@ == request.idempotency_key@
}

/// The reply of an export command at time `now`, in the same steps as a
/// backup's.
pub open spec fn export_reply<S, T, F: FnOnce(OperationCoordinator, ExportRequest<S>, CancellationToken) -> (OperationCoordinator, Result<T, RepoError>)>(
    old: PortabilityRuntime,
    new: PortabilityRuntime,
    caller: CallerIdentity,
    request: StartExportRequest<S>,
    now: UtcMillis,
    export: F,
    r: CommandResult<T>,
) -> bool {
    if caller != CallerIdentity::Main {
        refuses_caller(r) && new == old
    } else {
        &&& spent_selection(old, new, request.selection_token@)
        &&& match resolved_path(old, request.selection_token@, SelectionPurpose::ExportDestination, now) {
            Err(e) => fails_with_repo(r, e) && nothing_started(old, new),
            Ok(path) => if !valid_id(request.idempotency_key@) {
                refuses_key(r) && nothing_started(old, new)
            } else if !valid_id(request.operation_id@) {
                refuses_operation_id(r) && nothing_started(old, new)
            } else {
                if old.coordinator.tokens_exhausted() {
                    fails_with_repo(r, RepoError::OperationBusy) && nothing_started(old, new)
                } else {
                    new.cancellations() == old.cancellations().remove(request.operation_id@)
                    && exists|c: OperationCoordinator, e: ExportRequest<S>, t: CancellationToken, out: (OperationCoordinator, Result<T, RepoError>)|
                        #![trigger export.ensures((c, e, t), out)]
                        fresh_handle(old.coordinator, c, t) && export_request_for(e, request, path)
                        && export.ensures((c, e, t), out)
                        && new.coordinator == out.0 && reports_read(out.1, r)
                }
            },
        }
    }
}

/// Writes a plain-text export to a picked destination (main window), at
/// time `now`.
pub fn start_export_at<S, T, F>(
    caller: CallerIdentity,
    runtime: &mut PortabilityRuntime,
    request: StartExportRequest<S>,
    now: UtcMillis,
    export: F,
) -> (r: CommandResult<T>) where
    F: FnOnce(OperationCoordinator, ExportRequest<S>, CancellationToken) -> (OperationCoordinator, Result<T, RepoError>),
    requires
        old(runtime).wf(),
        forall|c: OperationCoordinator, e: ExportRequest<S>, t: CancellationToken|
            c.wf() ==> #[trigger] export.requires((c, e, t)),
        forall|c: OperationCoordinator, e: ExportRequest<S>, t: CancellationToken, out: (OperationCoordinator, Result<T, RepoError>)|
            c.wf() && #[trigger] export.ensures((c, e, t), out) ==> out.0.wf(),
    ensures
        final(runtime).wf(),
        export_reply(*old(runtime), *final(runtime), caller, request, now, export, r),
{
    if let Err(error) = caller.require(&[CallerIdentity::Main]) {
        return CommandResult::failure(error);
    }
    let destination = match runtime.resolve_selection_at(
        request.selection_token.as_str(),
        SelectionPurpose::ExportDestination,
        now,
    ) {
        Ok(path) => path,
        Err(error) => {
            return CommandResult::failure(error.to_app_error());
        },
    };
    let idempotency_key = match require_idempotency_key(request.idempotency_key.as_str()) {
        Ok(key) => key,
        Err(error) => {
            return CommandResult::failure(error);
        },
    };
    let operation_id = match require_operation_id(request.operation_id.as_str()) {
        Ok(id) => id,
        Err(error) => {
            return CommandResult::failure(error);
        },
    };
    let ghost before = *runtime;
    let cancellation = match runtime.coordinator.new_token() {
        Ok(t) => t,
        Err(error) => {
            return CommandResult::failure(error.to_app_error());
        },
    };
    let _ = runtime.register_cancellation(operation_id.as_str(), cancellation);
    let export_request = ExportRequest {
        operation_id: operation_id.clone(),
        destination,
        scope: request.scope,
        plaintext_acknowledged: request.plaintext_acknowledged,
        confirm_empty: request.confirm_empty,
        unsaved_edits_resolved: request.unsaved_edits_resolved,
        overwrite: request.overwrite,
        idempotency_key,
    };
    let mut coordinator = OperationCoordinator::new();
    core::mem::swap(&mut coordinator, &mut runtime.coordinator);
    let ghost c = coordinator;
    let ghost e = export_request;
    let out = export(coordinator, export_request, cancellation);
    let (coordinator, outcome) = out;
    runtime.coordinator = coordinator;
    runtime.remove_cancellation(operation_id.as_str());
    let r = report_read(outcome);
    proof {
        assert(export.ensures((c, e, cancellation), out));
        assert(runtime.cancellations() =~= before.cancellations().remove(request.operation_id@));
    }
    r
}

/// [`start_export_at`] at the current time.
pub fn start_export_for<S, T, F>(
    caller: CallerIdentity,
    runtime: &mut PortabilityRuntime,
    request: StartExportRequest<S>,
    export: F,
) -> (r: CommandResult<T>) where
    F: FnOnce(OperationCoordinator, ExportRequest<S>, CancellationToken) -> (OperationCoordinator, Result<T, RepoError>),
    requires
        old(runtime).wf(),
        forall|c: OperationCoordinator, e: ExportRequest<S>, t: CancellationToken|
            c.wf() ==> #[trigger] export.requires((c, e, t)),
        forall|c: OperationCoordinator, e: ExportRequest<S>, t: CancellationToken, out: (OperationCoordinator, Result<T, RepoError>)|
            c.wf() && #[trigger] export.ensures((c, e, t), out) ==> out.0.wf(),
    ensures
        final(runtime).wf(),
        exists|now: UtcMillis|
            now.0 >= 0 && #[trigger] export_reply(*old(runtime), *final(runtime), caller, request, now, export, r),
{
    let now = UtcMillis::now();
    start_export_at(caller, runtime, request, now, export)
}

/// The reply to a cancellation request, once the identifier parsed: the
/// operation's handle is asked to cancel; an operation that was awaiting
/// confirmation is then cancelled outright, its staged preview and handle
/// dropped; any other is reported as it stands.
pub open spec fn cancel_reply(
    old: PortabilityRuntime,
    new: PortabilityRuntime,
    op: Seq<char>,
    r: CommandResult<OperationRecord>,
) -> bool {
    &&& new.selections() == old.selections()
    &&& new.confirmations() == old.confirmations()
    &&& new.coordinator.view() == old.coordinator.view()
    &&& if !old.cancellations().contains_key(op) {
        fails_with_repo(r, RepoError::NotFound) && nothing_started(old, new) && new.previews()
            == old.previews()
    } else {
        let t = old.cancellations()[op];
        match old.coordinator.token_state(t) {
            None => fails_with_repo(r, RepoError::NotFound) && new.previews() == old.previews()
                && new.cancellations() == old.cancellations(),
            Some(s) => if !s.safe_to_cancel {
                fails_with_repo(r, RepoError::CancelUnsafe) && new.previews() == old.previews()
                    && new.cancellations() == old.cancellations()
            } else {
                &&& new.coordinator.token_state(t) == Some(
                    CancellationState { cancelled: true, safe_to_cancel: true },
                )
                &&& match old.coordinator.operation(op) {
                    None => fails_with_repo(r, RepoError::NotFound) && new.previews() == old.previews()
                        && new.cancellations() == old.cancellations(),
                    Some(rec) => if rec.state == OperationState::AwaitingConfirmation {
                        &&& new.cancellations() == old.cancellations().remove(op)
                        &&& (r is Success <==> rec.revision.0 < u64::MAX)
                        &&& r matches CommandResult::Success { data, revision, .. } ==> revision == 1
                            && data.state == OperationState::Cancelled
                            && new.coordinator.operation(op) == Some(data)
                    } else {
                        &&& r == CommandResult::Success { ok: true, data: rec, revision: 1 }
                        &&& new.previews() == old.previews()
                        &&& new.cancellations() == old.cancellations()
                    },
                }
            },
        }
    }
}

/// Cancels an operation (main window). The staged files of a dropped
/// preview go to `discard`; the cancelled record goes to `persist`.
pub fn cancel_operation_for<D, P>(
    caller: CallerIdentity,
    runtime: &mut PortabilityRuntime,
    request: OperationRequest,
    discard: D,
    persist: P,
) -> (r: CommandResult<OperationRecord>) where D: FnOnce(StagedRestore), P: FnOnce(OperationRecord)
    requires
        old(runtime).wf(),
        forall|s: StagedRestore| #[trigger] discard.requires((s,)),
        forall|o: OperationRecord| #[trigger] persist.requires((o,)),
    ensures
        final(runtime).wf(),
        caller != CallerIdentity::Main ==> refuses_caller(r) && *final(runtime) == *old(runtime),
        caller == CallerIdentity::Main && !valid_id(request.operation_id@) ==> fails_with_repo(
            r,
            RepoError::InvalidRequest,
        ) && *final(runtime) == *old(runtime),
        caller == CallerIdentity::Main && valid_id(request.operation_id@) ==> cancel_reply(
            *old(runtime),
            *final(runtime),
            request.operation_id@,
            r,
        ),
{
    if let Err(error) = caller.require(&[CallerIdentity::Main]) {
        return CommandResult::failure(error);
    }
    let operation_id = match EntityId::parse(request.operation_id.as_str()) {
        Ok(id) => id,
        Err(error) => {
            return CommandResult::failure(error.to_app_error());
        },
    };
    if let Err(error) = runtime.cancel(operation_id.as_str()) {
        return CommandResult::failure(error.to_app_error());
    }
    let awaiting = match runtime.coordinator.get(&operation_id) {
        Ok(record) => record.state == OperationState::AwaitingConfirmation,
        Err(_) => false,
    };
    if awaiting {
        if let Some(staged) = runtime.discard_preview_for_operation(operation_id.as_str()) {
            discard(staged);
        }
        runtime.remove_cancellation(operation_id.as_str());
        return match runtime.coordinator.update(
            &operation_id,
            OperationUpdate::Transition(OperationState::Cancelled),
        ) {
            Ok(operation) => {
                persist(operation.clone());
                CommandResult::success(operation, 1)
            },
            Err(error) => CommandResult::failure(error.to_app_error()),
        };
    }
    report_read(runtime.coordinator.get(&operation_id))
}

/// The first rollback with identifier `id`.
pub open spec fn first_rollback(views: Seq<RollbackView>, id: Seq<char>, i: int) -> bool {
    &&& 0 <= i < views.len()
    &&& views[i].id@ == id
    &&& forall|j: int| 0 <= j < i ==> #[trigger] views[j].id@ != id
}

fn find_rollback(views: &Vec<RollbackView>, id: &str) -> (r: Option<usize>)
    ensures
        r matches Some(i) ==> first_rollback(views@, id@, i as int),
        r is None ==> forall|j: int| 0 <= j < views@.len() ==> #[trigger] views@[j].id@ != id@,
{
    let mut i: usize = 0;
    while i < views.len()
        invariant
            i <= views@.len(),
            forall|j: int| 0 <= j < i ==> #[trigger] views@[j].id@ != id@,
        decreases views.len() - i,
    {
        if str_eq(views[i].id.as_str(), id) {
            return Some(i);
        }
        i = i + 1;
    }
    None
}

/// Issues a confirmation token for an existing rollback (main window).
pub fn confirm_rollback_for<F: FnOnce() -> Result<Vec<RollbackView>, RepoError>>(
    caller: CallerIdentity,
    runtime: &mut PortabilityRuntime,
    request: RollbackRequest,
    list: F,
) -> (r: CommandResult<RollbackConfirmation>)
    requires
        old(runtime).wf(),
        list.requires(()),
    ensures
        final(runtime).wf(),
        caller != CallerIdentity::Main ==> refuses_caller(r) && *final(runtime) == *old(runtime),
        caller == CallerIdentity::Main ==> final(runtime).coordinator == old(runtime).coordinator
            && final(runtime).selections() == old(runtime).selections()
            && final(runtime).previews() == old(runtime).previews()
            && final(runtime).cancellations() == old(runtime).cancellations(),
        caller == CallerIdentity::Main ==> exists|o: Result<Vec<RollbackView>, RepoError>|
            #![trigger list.ensures((), o)]
            list.ensures((), o) && match o {
                Err(e) => fails_with_repo(r, e) && final(runtime).confirmations() == old(
                    runtime,
                ).confirmations(),
                Ok(views) => if forall|j: int| 0 <= j < views@.len() ==> #[trigger] views@[j].id@
                    != request.rollback_id@ {
                    fails_with_repo(r, RepoError::NotFound) && final(runtime).confirmations() == old(
                        runtime,
                    ).confirmations()
                } else {
                    match r {
                        CommandResult::Success { data, revision, .. } => {
                            &&& revision == 1
                            &&& exists|i: int| first_rollback(views@, request.rollback_id@, i) && data.rollback == views@[i]
                            &&& final(runtime).confirmations().contains_key(data.confirmation_token@)
                            &&& final(runtime).confirmations()[data.confirmation_token@].0@ == request.rollback_id@
                            &&& final(runtime).confirmations()[data.confirmation_token@].1 == data.expires_at
                            &&& final(runtime).confirmations().remove(data.confirmation_token@) == old(
                                runtime,
                            ).confirmations().remove(data.confirmation_token@)
                        },
                        CommandResult::Failure { .. } => final(runtime).confirmations() == old(
                            runtime,
                        ).confirmations(),
                    }
                },
            },
{
    if let Err(error) = caller.require(&[CallerIdentity::Main]) {
        return CommandResult::failure(error);
    }
    let views = match list() {
        Ok(views) => views,
        Err(error) => {
            return CommandResult::failure(error.to_app_error());
        },
    };
    let i = match find_rollback(&views, request.rollback_id.as_str()) {
        Some(i) => i,
        None => {
            return CommandResult::failure(RepoError::NotFound.to_app_error());
        },
    };
    let rollback = views[i].clone();
    match runtime.confirm_rollback(rollback.id.as_str(), true) {
        Ok((confirmation_token, expires_at)) => CommandResult::success(
            RollbackConfirmation { rollback, confirmation_token, expires_at },
            1,
        ),
        Err(error) => CommandResult::failure(error.to_app_error()),
    }
}

/// Whether the confirmation `token` confirms rollback `id` at time `now`.
pub open spec fn confirms(rt: PortabilityRuntime, token: Seq<char>, id: Seq<char>, now: UtcMillis) -> bool {
    &&& rt.confirmations().contains_key(token)
    &&& rt.confirmations()[token].0@ == id
    &&& !(rt.confirmations()[token].1.0 < now.0)
}

/// The reply of a confirmed rollback command at time `now`: the caller must
/// be the main window and the key valid; the confirmation is spent, and
/// only a confirmation of this rollback, still valid, lets `act` run.
pub open spec fn rollback_reply<T>(
    old: PortabilityRuntime,
    new: PortabilityRuntime,
    caller: CallerIdentity,
    request: ConfirmedRollbackRequest,
    now: UtcMillis,
    acted: spec_fn(Result<T, RepoError>) -> bool,
    r: CommandResult<T>,
) -> bool {
    if caller != CallerIdentity::Main {
        refuses_caller(r) && new == old
    } else if !valid_id(request.idempotency_key@) {
        refuses_key(r) && new == old
    } else {
        &&& new.wf()
        &&& new.selections() == old.selections()
        &&& new.previews() == old.previews()
        &&& new.cancellations() == old.cancellations()
        &&& new.confirmations() == old.confirmations().remove(request.confirmation_token@)
        &&& if confirms(old, request.confirmation_token@, request.rollback_id@, now) {
            exists|o: Result<T, RepoError>| #[trigger] acted(o) && reports_read(o, r)
        } else {
            fails_with_repo(r, RepoError::InvalidRequest) && new.coordinator == old.coordinator
        }
    }
}

/// The outcomes of restoring rollback `id` with `apply`, which took the
/// coordinator `before` and gave back `after`.
pub open spec fn applied<F: FnOnce(OperationCoordinator, String) -> (OperationCoordinator, Result<RollbackView, RepoError>)>(
    apply: F,
    before: OperationCoordinator,
    id: String,
    after: OperationCoordinator,
) -> spec_fn(Result<RollbackView, RepoError>) -> bool {
    |o: Result<RollbackView, RepoError>|
        exists|out: (OperationCoordinator, Result<RollbackView, RepoError>)|
            apply.ensures((before, id), out) && out.1 == o && after == out.0
}

/// The outcomes of deleting rollback `id` with `discard`, the coordinator
/// left as it was.
pub open spec fn discarded<F: FnOnce(String) -> Result<RollbackView, RepoError>>(
    discard: F,
    id: String,
    before: OperationCoordinator,
    after: OperationCoordinator,
) -> spec_fn(Result<RollbackView, RepoError>) -> bool {
    |o: Result<RollbackView, RepoError>| discard.ensures((id,), o) && after == before
}

/// Restores the notebook from a confirmed rollback point (main window), at
/// time `now`.
pub fn apply_rollback_at<F>(
    caller: CallerIdentity,
    runtime: &mut PortabilityRuntime,
    request: ConfirmedRollbackRequest,
    now: UtcMillis,
    apply: F,
) -> (r: CommandResult<RollbackView>) where
    F: FnOnce(OperationCoordinator, String) -> (OperationCoordinator, Result<RollbackView, RepoError>),
    requires
        old(runtime).wf(),
        forall|c: OperationCoordinator, id: String| c.wf() ==> #[trigger] apply.requires((c, id)),
        forall|c: OperationCoordinator, id: String, out: (OperationCoordinator, Result<RollbackView, RepoError>)|
            c.wf() && #[trigger] apply.ensures((c, id), out) ==> out.0.wf(),
    ensures
        final(runtime).wf(),
        rollback_reply(
            *old(runtime),
            *final(runtime),
            caller,
            request,
            now,
            applied(apply, old(runtime).coordinator, request.rollback_id, final(runtime).coordinator),
            r,
        ),
{
    if let Err(error) = caller.require(&[CallerIdentity::Main]) {
        return CommandResult::failure(error);
    }
    if let Err(error) = require_idempotency_key(request.idempotency_key.as_str()) {
        return CommandResult::failure(error);
    }
    if let Err(error) = runtime.consume_rollback_confirmation_at(
        request.confirmation_token.as_str(),
        request.rollback_id.as_str(),
        now,
    ) {
        return CommandResult::failure(error.to_app_error());
    }
    let mut coordinator = OperationCoordinator::new();
    core::mem::swap(&mut coordinator, &mut runtime.coordinator);
    let ghost c = coordinator;
    let ghost id = request.rollback_id;
    let out = apply(coordinator, request.rollback_id);
    let (coordinator, outcome) = out;
    runtime.coordinator = coordinator;
    let r = report_read(outcome);
    proof {
        assert(apply.ensures((c, id), out));
        assert(applied(apply, c, id, runtime.coordinator)(outcome));
    }
    r
}

/// [`apply_rollback_at`] at the current time.
pub fn apply_rollback_for<F>(
    caller: CallerIdentity,
    runtime: &mut PortabilityRuntime,
    request: ConfirmedRollbackRequest,
    apply: F,
) -> (r: CommandResult<RollbackView>) where
    F: FnOnce(OperationCoordinator, String) -> (OperationCoordinator, Result<RollbackView, RepoError>),
    requires
        old(runtime).wf(),
        forall|c: OperationCoordinator, id: String| c.wf() ==> #[trigger] apply.requires((c, id)),
        forall|c: OperationCoordinator, id: String, out: (OperationCoordinator, Result<RollbackView, RepoError>)|
            c.wf() && #[trigger] apply.ensures((c, id), out) ==> out.0.wf(),
    ensures
        final(runtime).wf(),
        exists|now: UtcMillis|
            now.0 >= 0 && #[trigger] rollback_reply(
                *old(runtime),
                *final(runtime),
                caller,
                request,
                now,
                applied(apply, old(runtime).coordinator, request.rollback_id, final(runtime).coordinator),
                r,
            ),
{
    let now = UtcMillis::now();
    apply_rollback_at(caller, runtime, request, now, apply)
}

/// Deletes a confirmed rollback point (main window), at time `now`.
pub fn discard_rollback_at<F: FnOnce(String) -> Result<RollbackView, RepoError>>(
    caller: CallerIdentity,
    runtime: &mut PortabilityRuntime,
    request: ConfirmedRollbackRequest,
    now: UtcMillis,
    discard: F,
) -> (r: CommandResult<RollbackView>)
    requires
        old(runtime).wf(),
        forall|id: String| #[trigger] discard.requires((id,)),
    ensures
        final(runtime).wf(),
        rollback_reply(
            *old(runtime),
            *final(runtime),
            caller,
            request,
            now,
            discarded(discard, request.rollback_id, old(runtime).coordinator, final(runtime).coordinator),
            r,
        ),
{
    if let Err(error) = caller.require(&[CallerIdentity::Main]) {
        return CommandResult::failure(error);
    }
    if let Err(error) = require_idempotency_key(request.idempotency_key.as_str()) {
        return CommandResult::failure(error);
    }
    if let Err(error) = runtime.consume_rollback_confirmation_at(
        request.confirmation_token.as_str(),
        request.rollback_id.as_str(),
        now,
    ) {
        return CommandResult::failure(error.to_app_error());
    }
    let ghost id = request.rollback_id;
    let outcome = discard(request.rollback_id);
    let r = report_read(outcome);
    proof {
        assert(discarded(discard, id, runtime.coordinator, runtime.coordinator)(outcome));
    }
    r
}

/// [`discard_rollback_at`] at the current time.
pub fn discard_rollback_for<F: FnOnce(String) -> Result<RollbackView, RepoError>>(
    caller: CallerIdentity,
    runtime: &mut PortabilityRuntime,
    request: ConfirmedRollbackRequest,
    discard: F,
) -> (r: CommandResult<RollbackView>)
    requires
        old(runtime).wf(),
        forall|id: String| #[trigger] discard.requires((id,)),
    ensures
        final(runtime).wf(),
        exists|now: UtcMillis|
            now.0 >= 0 && #[trigger] rollback_reply(
                *old(runtime),
                *final(runtime),
                caller,
                request,
                now,
                discarded(discard, request.rollback_id, old(runtime).coordinator, final(runtime).coordinator),
                r,
            ),
{
    let now = UtcMillis::now();
    discard_rollback_at(caller, runtime, request, now, discard)
}

} // verus!
