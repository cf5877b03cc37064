//! Application and classifier updates: checks are opt-in, classifier assets
//! are validated before they are staged, and staged assets are activated
//! only on the user's confirmation.
//!
//! Validating assets, activating them, and talking to the update services are
//! handed in as functions; this module decides when each may run and what the
//! window is told.
use vstd::prelude::*;

use crate::commands::{fails_with, refuses_caller};
use crate::ipc::{AppError, CallerIdentity, CommandResult, ErrorCode};
use crate::text::copy_string;

verus! {

/// A signed classifier asset bundle, as fetched.
#[derive(Debug, PartialEq, Eq)]
pub struct ClassifierAssetBundle {
    pub manifest_json: String,
    pub definitions_json: String,
    pub corpus_json: String,
    pub golden_json: String,
}

impl Clone for ClassifierAssetBundle {
    fn clone(&self) -> (r: Self)
        ensures
            r == *self,
    {
        ClassifierAssetBundle {
            manifest_json: self.manifest_json.clone(),
            definitions_json: self.definitions_json.clone(),
            corpus_json: self.corpus_json.clone(),
            golden_json: self.golden_json.clone(),
        }
    }
}

/// What the window is shown of validated classifier assets.
#[derive(Debug, PartialEq, Eq)]
pub struct ClassifierUpdateView {
    pub classifier_version: String,
    pub digest: String,
    pub formats: Vec<String>,
}

#[derive(Clone, Copy, Debug, PartialEq, Eq)]
pub struct InstallClassifierUpdateRequest {
    pub confirmed: bool,
}

/// The error for a disabled check or an update that is not there.
pub open spec fn is_update_unavailable(e: AppError) -> bool {
    &&& e.code == ErrorCode::UpdateUnavailable
    &&& e.message@ == "No newer signed classifier assets are available."@
    &&& !e.retryable
    &&& e.field is None
}

pub fn update_unavailable() -> (e: AppError)
    ensures
        is_update_unavailable(e),
{
    AppError::new(
        ErrorCode::UpdateUnavailable,
        copy_string("No newer signed classifier assets are available."),
        false,
    )
}

/// The error for an activation the user has not confirmed.
pub open spec fn is_unconfirmed_activation(e: AppError) -> bool {
    &&& e.code == ErrorCode::InvalidRequest
    &&& e.message@ == "Confirm classifier activation before applying signed assets."@
    &&& !e.retryable
    &&& e.field is None
}

/// The classifier assets waiting for confirmation, if any.
pub struct UpdateRuntime {
    pub classifier_pending: Option<ClassifierAssetBundle>,
}

impl UpdateRuntime {
    pub fn new() -> (r: Self)
        ensures
            r.classifier_pending is None,
    {
        UpdateRuntime { classifier_pending: None }
    }

    /// Stages a bundle once `validate` accepts it. A disabled check or a
    /// refused bundle leaves what was staged before in place.
    pub fn stage_classifier_bundle<V>(&mut self, enabled: bool, bundle: ClassifierAssetBundle, validate: V) -> (r:
        Result<ClassifierUpdateView, AppError>) where
        V: FnOnce(&ClassifierAssetBundle) -> Result<ClassifierUpdateView, AppError>,
        requires
            forall|b: &ClassifierAssetBundle| #[trigger] validate.requires((b,)),
        ensures
            !enabled ==> *final(self) == *old(self) && (r matches Err(e) && is_update_unavailable(e)),
            enabled ==> validate.ensures((&bundle,), r),
            enabled && r is Err ==> *final(self) == *old(self),
            enabled && r is Ok ==> final(self).classifier_pending == Some(bundle),
    {
        if !enabled {
            return Err(update_unavailable());
        }
        let view = validate(&bundle);
        match view {
            Ok(view) => {
                self.classifier_pending = Some(bundle);
                Ok(view)
            },
            Err(error) => Err(error),
        }
    }

    /// The staged bundle.
    pub fn pending_classifier(&self) -> (r: Result<ClassifierAssetBundle, AppError>)
        ensures
            match self.classifier_pending {
                Some(b) => r == Ok::<ClassifierAssetBundle, AppError>(b),
                None => r matches Err(e) && is_update_unavailable(e),
            },
    {
        match &self.classifier_pending {
            Some(bundle) => Ok(bundle.clone()),
            None => Err(update_unavailable()),
        }
    }

    pub fn clear_classifier(&mut self)
        ensures
            final(self).classifier_pending is None,
    {
        self.classifier_pending = None;
    }
}

/// Checks for an application update (main window) with `check`, which is
/// told whether checks are enabled.
pub fn check_update_for<R, C>(caller: CallerIdentity, enabled: bool, check: C) -> (r: CommandResult<R>) where
    C: FnOnce(bool) -> Result<R, AppError>,
    requires
        check.requires((enabled,)),
    ensures
        caller != CallerIdentity::Main ==> refuses_caller(r),
        caller == CallerIdentity::Main ==> exists|found: Result<R, AppError>|
            #[trigger] check.ensures((enabled,), found) && match found {
                Ok(release) => r == (CommandResult::Success { ok: true, data: release, revision: 1 }),
                Err(e) => fails_with(r, e),
            },
{
    if let Err(error) = caller.require(&[CallerIdentity::Main]) {
        return CommandResult::failure(error);
    }
    match check(enabled) {
        Ok(release) => CommandResult::success(release, 1),
        Err(error) => CommandResult::failure(error),
    }
}

/// Installs an application update (main window), only while checks are enabled.
pub fn install_update_for<Q, R, I>(caller: CallerIdentity, enabled: bool, request: Q, install: I) -> (r:
    CommandResult<R>) where I: FnOnce(Q) -> Result<R, AppError>,
    requires
        install.requires((request,)),
    ensures
        caller != CallerIdentity::Main ==> refuses_caller(r),
        caller == CallerIdentity::Main && !enabled ==> (r matches CommandResult::Failure { ok, error }
            && !ok && is_update_unavailable(error)),
        caller == CallerIdentity::Main && enabled ==> exists|done: Result<R, AppError>|
            #[trigger] install.ensures((request,), done) && match done {
                Ok(status) => r == (CommandResult::Success { ok: true, data: status, revision: 1 }),
                Err(e) => fails_with(r, e),
            },
{
    if let Err(error) = caller.require(&[CallerIdentity::Main]) {
        return CommandResult::failure(error);
    }
    if !enabled {
        return CommandResult::failure(update_unavailable());
    }
    match install(request) {
        Ok(status) => CommandResult::success(status, 1),
        Err(error) => CommandResult::failure(error),
    }
}

/// `r` reports `outcome` at revision 1.
pub open spec fn reports_view(outcome: Result<ClassifierUpdateView, AppError>, r: CommandResult<ClassifierUpdateView>) -> bool {
    match outcome {
        Ok(view) => r == (CommandResult::Success { ok: true, data: view, revision: 1 }),
        Err(e) => fails_with(r, e),
    }
}

/// Checks for classifier assets (main window, only while enabled): staged
/// assets are validated again and shown; otherwise `fetch` asks the update
/// service, and what it returns is staged once validated.
pub fn check_classifier_update_for<V, F>(
    caller: CallerIdentity,
    enabled: bool,
    runtime: &mut UpdateRuntime,
    validate: V,
    fetch: F,
) -> (r: CommandResult<ClassifierUpdateView>) where
    V: Fn(&ClassifierAssetBundle) -> Result<ClassifierUpdateView, AppError>,
    F: FnOnce() -> Result<Option<ClassifierAssetBundle>, AppError>,
    requires
        forall|b: &ClassifierAssetBundle| #[trigger] validate.requires((b,)),
        fetch.requires(()),
    ensures
        caller != CallerIdentity::Main ==> refuses_caller(r) && *final(runtime) == *old(runtime),
        caller == CallerIdentity::Main && !enabled ==> *final(runtime) == *old(runtime) && (
        r matches CommandResult::Failure { ok, error } && !ok && is_update_unavailable(error)),
        caller == CallerIdentity::Main && enabled ==> match old(runtime).classifier_pending {
            Some(staged) => *final(runtime) == *old(runtime) && exists|v: Result<ClassifierUpdateView, AppError>|
                #[trigger] validate.ensures((&staged,), v) && reports_view(v, r),
            None => exists|found: Result<Option<ClassifierAssetBundle>, AppError>|
                #[trigger] fetch.ensures((), found) && match found {
                    Err(e) => *final(runtime) == *old(runtime) && fails_with(r, e),
                    Ok(None) => *final(runtime) == *old(runtime) && (r matches CommandResult::Failure {
                        ok,
                        error,
                    } && !ok && is_update_unavailable(error)),
                    Ok(Some(bundle)) => exists|v: Result<ClassifierUpdateView, AppError>|
                        #[trigger] validate.ensures((&bundle,), v) && reports_view(v, r) && match v {
                            Ok(_) => final(runtime).classifier_pending == Some(bundle),
                            Err(_) => *final(runtime) == *old(runtime),
                        },
                },
        },
{
    if let Err(error) = caller.require(&[CallerIdentity::Main]) {
        return CommandResult::failure(error);
    }
    if !enabled {
        return CommandResult::failure(update_unavailable());
    }
    if let Ok(bundle) = runtime.pending_classifier() {
        let checked = validate(&bundle);
        let ghost witness = checked;
        assert(validate.ensures((&bundle,), witness));
        return match checked {
            Ok(view) => {
                let reply = CommandResult::success(view, 1);
                assert(reports_view(witness, reply));
                reply
            },
            Err(error) => CommandResult::failure(error),
        };
    }
    let found = fetch();
    let ghost fetched = found;
    assert(fetch.ensures((), fetched));
    match found {
        Ok(Some(bundle)) => {
            let ghost staged = bundle;
            let check = |b: &ClassifierAssetBundle| -> (v: Result<ClassifierUpdateView, AppError>)
                requires
                    validate.requires((b,)),
                ensures
                    validate.ensures((b,), v),
                { validate(b) };
            let staged_view = runtime.stage_classifier_bundle(true, bundle, check);
            let ghost witness = staged_view;
            assert(validate.ensures((&staged,), witness));
            match staged_view {
                Ok(view) => {
                    let reply = CommandResult::success(view, 1);
                    assert(reports_view(witness, reply));
                    reply
                },
                Err(error) => CommandResult::failure(error),
            }
        },
        Ok(None) => CommandResult::failure(update_unavailable()),
        Err(error) => CommandResult::failure(error),
    }
}

/// Activates the staged classifier assets (main window): only on
/// confirmation and while enabled; `activate` applies them and starts
/// reclassification, and on success the staged assets are cleared.
pub fn install_classifier_update_for<P, A>(
    caller: CallerIdentity,
    enabled: bool,
    runtime: &mut UpdateRuntime,
    request: InstallClassifierUpdateRequest,
    activate: A,
) -> (r: CommandResult<P>) where A: FnOnce(ClassifierAssetBundle) -> Result<P, AppError>,
    requires
        forall|b: ClassifierAssetBundle| #[trigger] activate.requires((b,)),
    ensures
        caller != CallerIdentity::Main ==> refuses_caller(r) && *final(runtime) == *old(runtime),
        caller == CallerIdentity::Main && !request.confirmed ==> *final(runtime) == *old(runtime) && (
        r matches CommandResult::Failure { ok, error } && !ok && is_unconfirmed_activation(error)),
        caller == CallerIdentity::Main && request.confirmed && (!enabled
            || old(runtime).classifier_pending is None) ==> *final(runtime) == *old(runtime) && (
        r matches CommandResult::Failure { ok, error } && !ok && is_update_unavailable(error)),
        caller == CallerIdentity::Main && request.confirmed && enabled ==> match old(runtime).classifier_pending {
            Some(staged) => exists|done: Result<P, AppError>|
                #[trigger] activate.ensures((staged,), done) && match done {
                    Ok(progress) => final(runtime).classifier_pending is None && r == (
                    CommandResult::Success { ok: true, data: progress, revision: 1 }),
                    Err(e) => *final(runtime) == *old(runtime) && fails_with(r, e),
                },
            None => true,
        },
{
    if let Err(error) = caller.require(&[CallerIdentity::Main]) {
        return CommandResult::failure(error);
    }
    if !request.confirmed {
        return CommandResult::failure(
            AppError::new(
                ErrorCode::InvalidRequest,
                copy_string("Confirm classifier activation before applying signed assets."),
                false,
            ),
        );
    }
    if !enabled {
        return CommandResult::failure(update_unavailable());
    }
    let bundle = match runtime.pending_classifier() {
        Ok(bundle) => bundle,
        Err(error) => {
            return CommandResult::failure(error);
        },
    };
    match activate(bundle) {
        Ok(progress) => {
            runtime.clear_classifier();
            CommandResult::success(progress, 1)
        },
        Err(error) => CommandResult::failure(error),
    }
}

} // verus!
