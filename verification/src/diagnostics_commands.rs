//! Support-bundle commands: the diagnostics consent gate, the destinations
//! the user picked (so the renderer can never name a path itself), and how
//! the outcome is reported. Building and writing the bundle is handed in
//! by the caller.
use vstd::prelude::*;

use crate::commands::{refuses_caller, refuses_key, require_idempotency_key};
use crate::domain::{valid_id, EntityId, UtcMillis};
use crate::ipc::{AppError, CallerIdentity, CommandResult, ErrorCode};
use crate::keyed::KeyedMap;
use crate::text::copy_string;

verus! {

/// How long a picked diagnostics destination may be used.
pub const DIAGNOSTICS_SELECTION_TTL_MS: i64 = 600000;

pub struct DiagnosticsDestination {
    pub path: String,
    pub expires_at: i64,
}

#[derive(Debug, PartialEq, Eq)]
pub struct DiagnosticsPathSelection {
    pub selection_token: String,
    pub file_name: String,
}

#[derive(Debug, PartialEq, Eq)]
pub struct CreateDiagnosticsRequest {
    pub idempotency_key: String,
    pub preview_token: String,
    pub selection_token: String,
}

#[derive(Debug, PartialEq, Eq)]
pub struct CancelDiagnosticsRequest {
    pub preview_token: String,
}

/// The refusal of a destination token that names no live destination.
pub open spec fn is_selection_refusal(e: AppError) -> bool {
    &&& e.code == ErrorCode::InvalidRequest
    &&& e.message@ == "Choose a diagnostics destination again."@
    &&& e.retryable
    &&& e.field matches Some(f) && f@ == "selectionToken"@
}

fn invalid_selection() -> (e: AppError)
    ensures
        is_selection_refusal(e),
{
    AppError::new(
        ErrorCode::InvalidRequest,
        copy_string("Choose a diagnostics destination again."),
        true,
    ).with_field(copy_string("selectionToken"))
}

/// The refusal of diagnostics work while diagnostics are off.
pub open spec fn is_consent_refusal(e: AppError, message: Seq<char>) -> bool {
    &&& e.code == ErrorCode::ConsentRequired
    &&& e.message@ == message
    &&& !e.retryable
    &&& e.field is None
}

/// `base + ttl`, saturating.
pub open spec fn saturating_expiry(base: i64, ttl: i64) -> i64 {
    if base + ttl > i64::MAX {
        i64::MAX
    } else {
        (base + ttl) as i64
    }
}

pub struct DiagnosticsRuntime {
    pub log_directory: String,
    pub destinations: KeyedMap<DiagnosticsDestination>,
}

/// A destination is live at `now` while it has not expired.
pub open spec fn live_at(now: i64) -> spec_fn(DiagnosticsDestination) -> bool {
    |d: DiagnosticsDestination| d.expires_at > now
}

impl DiagnosticsRuntime {
    pub open spec fn wf(&self) -> bool {
        self.destinations.wf()
    }

    /// Picked destinations by token.
    pub open spec fn destinations(&self) -> Map<Seq<char>, DiagnosticsDestination> {
        self.destinations.map()
    }

    /// A runtime that reads logs from `log_directory` and has no
    /// destinations.
    pub fn new(log_directory: String) -> (r: Self)
        ensures
            r.wf(),
            r.log_directory == log_directory,
            r.destinations() == Map::<Seq<char>, DiagnosticsDestination>::empty(),
    {
        DiagnosticsRuntime { log_directory, destinations: KeyedMap::new() }
    }

    pub fn set_log_directory(&mut self, path: String) -> (r: Result<(), AppError>)
        requires
            old(self).wf(),
        ensures
            final(self).wf(),
            r is Ok,
            final(self).log_directory == path,
            final(self).destinations() == old(self).destinations(),
    {
        self.log_directory = path;
        Ok(())
    }

    /// Records a picked destination under `token`, valid until `now` plus
    /// [`DIAGNOSTICS_SELECTION_TTL_MS`]; a path without a file name is
    /// refused.
    pub fn register_destination_at(
        &mut self,
        path: String,
        file_name: Option<String>,
        token: String,
        now: i64,
    ) -> (r: Result<DiagnosticsPathSelection, AppError>)
        requires
            old(self).wf(),
        ensures
            final(self).wf(),
            final(self).log_directory == old(self).log_directory,
            (file_name is None || file_name->0@.len() == 0) ==> (r matches Err(e) && is_selection_refusal(e))
                && final(self).destinations() == old(self).destinations(),
            !(file_name is None || file_name->0@.len() == 0) ==> (r matches Ok(s) && s.selection_token@
                == token@ && s.file_name@ == file_name->0@ && final(self).destinations().contains_key(
                token@,
            ) && final(self).destinations()[token@].path == path
                && final(self).destinations()[token@].expires_at == saturating_expiry(
                now,
                DIAGNOSTICS_SELECTION_TTL_MS,
            ) && final(self).destinations().remove(token@) == old(self).destinations().remove(
                token@,
            )),
    {
        let name = match file_name {
            Some(name) => name,
            None => {
                return Err(invalid_selection());
            },
        };
        if name.as_str().unicode_len() == 0 {
            return Err(invalid_selection());
        }
        let expires_at = if now > i64::MAX - DIAGNOSTICS_SELECTION_TTL_MS {
            i64::MAX
        } else {
            now + DIAGNOSTICS_SELECTION_TTL_MS
        };
        self.destinations.insert(token.clone(), DiagnosticsDestination { path, expires_at });
        proof {
            assert(self.destinations().remove(token@) =~= old(self).destinations().remove(token@));
        }
        Ok(DiagnosticsPathSelection { selection_token: token, file_name: name })
    }

    /// [`Self::register_destination_at`] under a fresh token, from now.
    pub fn register_destination(&mut self, path: String, file_name: Option<String>) -> (r: Result<
        DiagnosticsPathSelection,
        AppError,
    >)
        requires
            old(self).wf(),
        ensures
            final(self).wf(),
            final(self).log_directory == old(self).log_directory,
            (file_name is None || file_name->0@.len() == 0) ==> (r matches Err(e) && is_selection_refusal(e)),
            r is Err ==> final(self).destinations() == old(self).destinations(),
            r matches Ok(s) ==> s.file_name@ == file_name->0@ && final(self).destinations().contains_key(
                s.selection_token@,
            ) && final(self).destinations()[s.selection_token@].path == path,
    {
        let named = match &file_name {
            Some(name) => name.as_str().unicode_len() > 0,
            None => false,
        };
        if !named {
            return Err(invalid_selection());
        }
        let token = match EntityId::new() {
            Ok(id) => id.to_string(),
            Err(e) => {
                return Err(e.to_app_error());
            },
        };
        let now = UtcMillis::now();
        self.register_destination_at(path, file_name, token, now.get())
    }

    /// The destination picked under `token`, once expired destinations are
    /// dropped.
    pub fn resolve_destination_at(&mut self, token: &str, now: i64) -> (r: Result<String, AppError>)
        requires
            old(self).wf(),
        ensures
            final(self).wf(),
            final(self).log_directory == old(self).log_directory,
            final(self).destinations() == old(self).destinations().restrict(
                old(self).destinations().dom().filter(
                    |k: Seq<char>| live_at(now)(old(self).destinations()[k]),
                ),
            ),
            final(self).destinations().contains_key(token@) ==> r == Ok::<String, AppError>(
                final(self).destinations()[token@].path,
            ),
            !final(self).destinations().contains_key(token@) ==> (r matches Err(e) && is_selection_refusal(e)),
    {
        let keep = |d: &DiagnosticsDestination| -> (b: bool)
            ensures
                b == (d.expires_at > now),
            { d.expires_at > now };
        self.destinations.retain(keep, Ghost(live_at(now)));
        match self.destinations.get(token) {
            Some(d) => Ok(d.path.clone()),
            None => Err(invalid_selection()),
        }
    }

    pub fn consume_destination(&mut self, token: &str)
        requires
            old(self).wf(),
        ensures
            final(self).wf(),
            final(self).log_directory == old(self).log_directory,
            final(self).destinations() == old(self).destinations().remove(token@),
    {
        let _ = self.destinations.remove(token);
    }
}

/// Previews what a support bundle would hold (main window, diagnostics
/// on); `preview` reads the log directory at the given time.
pub fn preview_diagnostics_for<T, F: FnOnce(String, i64) -> Result<T, AppError>>(
    caller: CallerIdentity,
    diagnostics_enabled: bool,
    runtime: &DiagnosticsRuntime,
    preview: F,
) -> (r: CommandResult<T>)
    requires
        forall|d: String, now: i64| #[trigger] preview.requires((d, now)),
    ensures
        caller != CallerIdentity::Main ==> refuses_caller(r),
        caller == CallerIdentity::Main && !diagnostics_enabled ==> (r matches CommandResult::Failure {
            error,
            ..
        } && is_consent_refusal(error, "Enable private diagnostics before previewing a support bundle."@)),
        caller == CallerIdentity::Main && diagnostics_enabled ==> exists|now: i64, o: Result<T, AppError>|
            #![trigger preview.ensures((runtime.log_directory, now), o)]
            preview.ensures((runtime.log_directory, now), o) && reports_app(o, r),
{
    if let Err(error) = caller.require(&[CallerIdentity::Main]) {
        return CommandResult::failure(error);
    }
    if !diagnostics_enabled {
        return CommandResult::failure(
            AppError::new(
                ErrorCode::ConsentRequired,
                copy_string("Enable private diagnostics before previewing a support bundle."),
                false,
            ),
        );
    }
    let now = UtcMillis::now().get();
    let directory = runtime.log_directory.clone();
    let ghost d = directory;
    let outcome = preview(directory, now);
    proof {
        assert(preview.ensures((d, now), outcome));
    }
    report_app(outcome)
}

/// `r` reports an outcome whose error is already a command error.
pub open spec fn reports_app<T>(o: Result<T, AppError>, r: CommandResult<T>) -> bool {
    match o {
        Ok(data) => r == CommandResult::Success { ok: true, data, revision: 1 },
        Err(e) => r == CommandResult::<T>::Failure { ok: false, error: e },
    }
}

fn report_app<T>(o: Result<T, AppError>) -> (r: CommandResult<T>)
    ensures
        reports_app(o, r),
{
    match o {
        Ok(data) => CommandResult::success(data, 1),
        Err(e) => CommandResult::failure(e),
    }
}

/// Writes a previewed bundle to the destination picked under the
/// request's token (main window, valid key, diagnostics on). The token is
/// spent only when the bundle was written.
pub fn create_diagnostics_at<T, F: FnOnce(String, String, i64) -> Result<T, AppError>>(
    caller: CallerIdentity,
    diagnostics_enabled: bool,
    runtime: &mut DiagnosticsRuntime,
    request: CreateDiagnosticsRequest,
    now: i64,
    create: F,
) -> (r: CommandResult<T>)
    requires
        old(runtime).wf(),
        forall|p: String, d: String, t: i64| #[trigger] create.requires((p, d, t)),
    ensures
        final(runtime).wf(),
        final(runtime).log_directory == old(runtime).log_directory,
        caller != CallerIdentity::Main ==> refuses_caller(r) && final(runtime).destinations() == old(
            runtime,
        ).destinations(),
        caller == CallerIdentity::Main && !valid_id(request.idempotency_key@) ==> refuses_key(r)
            && final(runtime).destinations() == old(runtime).destinations(),
        caller == CallerIdentity::Main && valid_id(request.idempotency_key@) && !diagnostics_enabled
            ==> (r matches CommandResult::Failure { error, .. } && is_consent_refusal(
            error,
            "Enable private diagnostics before creating a support bundle."@,
        )) && final(runtime).destinations() == old(runtime).destinations(),
        caller == CallerIdentity::Main && valid_id(request.idempotency_key@) && diagnostics_enabled
            ==> ({
            let live = old(runtime).destinations().restrict(
                old(runtime).destinations().dom().filter(
                    |k: Seq<char>| live_at(now)(old(runtime).destinations()[k]),
                ),
            );
            let token = request.selection_token@;
            if !live.contains_key(token) {
                (r matches CommandResult::Failure { error, .. } && is_selection_refusal(error))
                    && final(runtime).destinations() == live
            } else {
                exists|o: Result<T, AppError>|
                    #![trigger create.ensures((request.preview_token, live[token].path, now), o)]
                    create.ensures((request.preview_token, live[token].path, now), o)
                        && reports_app(o, r) && final(runtime).destinations() == if o is Ok {
                        live.remove(token)
                    } else {
                        live
                    }
            }
        }),
{
    if let Err(error) = caller.require(&[CallerIdentity::Main]) {
        return CommandResult::failure(error);
    }
    if let Err(error) = require_idempotency_key(request.idempotency_key.as_str()) {
        return CommandResult::failure(error);
    }
    if !diagnostics_enabled {
        return CommandResult::failure(
            AppError::new(
                ErrorCode::ConsentRequired,
                copy_string("Enable private diagnostics before creating a support bundle."),
                false,
            ),
        );
    }
    let destination = match runtime.resolve_destination_at(request.selection_token.as_str(), now) {
        Ok(path) => path,
        Err(error) => {
            return CommandResult::failure(error);
        },
    };
    let ghost p = request.preview_token;
    let ghost d = destination;
    let outcome = create(request.preview_token, destination, now);
    proof {
        assert(create.ensures((p, d, now), outcome));
    }
    match outcome {
        Ok(bundle) => {
            runtime.consume_destination(request.selection_token.as_str());
            CommandResult::success(bundle, 1)
        },
        Err(error) => CommandResult::failure(error),
    }
}

/// [`create_diagnostics_at`] at the current time.
pub fn create_diagnostics_for<T, F: FnOnce(String, String, i64) -> Result<T, AppError>>(
    caller: CallerIdentity,
    diagnostics_enabled: bool,
    runtime: &mut DiagnosticsRuntime,
    request: CreateDiagnosticsRequest,
    create: F,
) -> (r: CommandResult<T>)
    requires
        old(runtime).wf(),
        forall|p: String, d: String, t: i64| #[trigger] create.requires((p, d, t)),
    ensures
        final(runtime).wf(),
        final(runtime).log_directory == old(runtime).log_directory,
        caller != CallerIdentity::Main ==> refuses_caller(r),
        caller == CallerIdentity::Main && !valid_id(request.idempotency_key@) ==> refuses_key(r),
        caller == CallerIdentity::Main && valid_id(request.idempotency_key@) && !diagnostics_enabled
            ==> (r matches CommandResult::Failure { error, .. } && is_consent_refusal(
            error,
            "Enable private diagnostics before creating a support bundle."@,
        )),
        caller == CallerIdentity::Main && valid_id(request.idempotency_key@) && diagnostics_enabled
            && !old(runtime).destinations().contains_key(request.selection_token@) ==> (
        r matches CommandResult::Failure { error, .. } && is_selection_refusal(error)),
{
    let now = UtcMillis::now().get();
    create_diagnostics_at(caller, diagnostics_enabled, runtime, request, now, create)
}

/// A successful registration names the picked file and keeps the path
/// under the returned token.
pub open spec fn registered_destination(
    rt: DiagnosticsRuntime,
    path: String,
    file_name: Option<String>,
    r: CommandResult<DiagnosticsPathSelection>,
) -> bool {
    match r {
        CommandResult::Success { data, revision, .. } => {
            &&& revision == 1
            &&& data.file_name@ == file_name->0@
            &&& rt.destinations().contains_key(data.selection_token@)
            &&& rt.destinations()[data.selection_token@].path == path
        },
        CommandResult::Failure { .. } => true,
    }
}

/// Records a destination the user picked for a support bundle (main
/// window).
pub fn register_diagnostics_path_for(
    caller: CallerIdentity,
    runtime: &mut DiagnosticsRuntime,
    path: String,
    file_name: Option<String>,
) -> (r: CommandResult<DiagnosticsPathSelection>)
    requires
        old(runtime).wf(),
    ensures
        final(runtime).wf(),
        caller != CallerIdentity::Main ==> refuses_caller(r) && final(runtime).destinations() == old(
            runtime,
        ).destinations(),
        caller == CallerIdentity::Main && (file_name is None || file_name->0@.len() == 0) ==> (
        r matches CommandResult::Failure { error, .. } && is_selection_refusal(error)),
        caller == CallerIdentity::Main ==> registered_destination(*final(runtime), path, file_name, r),
{
    if let Err(error) = caller.require(&[CallerIdentity::Main]) {
        return CommandResult::failure(error);
    }
    match runtime.register_destination(path, file_name) {
        Ok(selection) => CommandResult::success(selection, 1),
        Err(error) => CommandResult::failure(error),
    }
}

/// `r` reports that the work was done, or its error.
pub open spec fn reports_done(o: Result<(), AppError>, r: CommandResult<bool>) -> bool {
    match o {
        Ok(_) => r == CommandResult::Success { ok: true, data: true, revision: 1 },
        Err(e) => r == CommandResult::<bool>::Failure { ok: false, error: e },
    }
}

/// Drops a pending preview (main window).
pub fn cancel_diagnostics_for<F: FnOnce(String) -> Result<(), AppError>>(
    caller: CallerIdentity,
    request: CancelDiagnosticsRequest,
    cancel: F,
) -> (r: CommandResult<bool>)
    requires
        cancel.requires((request.preview_token,)),
    ensures
        caller != CallerIdentity::Main ==> refuses_caller(r),
        caller == CallerIdentity::Main ==> exists|o: Result<(), AppError>|
            #![trigger cancel.ensures((request.preview_token,), o)]
            cancel.ensures((request.preview_token,), o) && reports_done(o, r),
{
    if let Err(error) = caller.require(&[CallerIdentity::Main]) {
        return CommandResult::failure(error);
    }
    let ghost token = request.preview_token;
    let outcome = cancel(request.preview_token);
    proof {
        assert(cancel.ensures((token,), outcome));
    }
    match outcome {
        Ok(()) => CommandResult::success(true, 1),
        Err(error) => CommandResult::failure(error),
    }
}

} // verus!
