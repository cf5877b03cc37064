//! Changing the settings: a guarded write that names the revision it was
//! based on, and answers a repeated request with the result it first had.
//! The settings themselves are of the caller's type `S`; saving them is
//! handed in as `persist`.
use vstd::prelude::*;

use crate::commands::{fails_with, refuses_caller, refuses_key, require_idempotency_key};
use crate::domain::valid_id;
use crate::ipc::{AppError, CallerIdentity, CommandResult, ErrorCode};
use crate::keyed::KeyedMap;
use crate::provider_commands::next_revision;
use crate::text::copy_string;

verus! {

pub struct UpdateSettingsRequest<S> {
    pub settings: S,
    pub expected_revision: u64,
    pub idempotency_key: String,
}

/// The settings in force, their revision, and the outcome of each applied
/// request by its idempotency key.
pub struct SettingsStore<S> {
    pub settings: S,
    pub revision: u64,
    pub idempotent_results: KeyedMap<(S, u64)>,
}

impl<S> SettingsStore<S> {
    pub open spec fn wf(&self) -> bool {
        self.idempotent_results.wf()
    }

    pub fn new(settings: S, revision: u64) -> (r: Self)
        ensures
            r.wf(),
            r.settings == settings,
            r.revision == revision,
            r.idempotent_results.map().is_empty(),
    {
        SettingsStore { settings, revision, idempotent_results: KeyedMap::new() }
    }
}

/// The error for a request based on a revision that is no longer current.
pub open spec fn is_settings_conflict(e: AppError) -> bool {
    &&& e.code == ErrorCode::RevisionConflict
    &&& e.message@ == "Settings changed after this view was loaded."@
    &&& e.retryable
    &&& e.field matches Some(f) && f@ == "expectedRevision"@
}

/// The reply to a settings change once the caller and key are accepted.
pub open spec fn settings_reply<S: Clone, P: FnOnce(&S, u64) -> Result<(), AppError>>(
    before: SettingsStore<S>,
    after: SettingsStore<S>,
    request: UpdateSettingsRequest<S>,
    persist: P,
    r: CommandResult<S>,
) -> bool {
    let key = request.idempotency_key@;
    let results = before.idempotent_results.map();
    if results.contains_key(key) {
        &&& after == before
        &&& r matches CommandResult::Success { ok, data, revision }
        &&& ok && revision == results[key].1 && cloned(results[key].0, data)
    } else if request.expected_revision != before.revision {
        after == before && (r matches CommandResult::Failure { ok, error } && !ok && is_settings_conflict(error))
    } else {
        let next = next_revision(before.revision);
        exists|saved: Result<(), AppError>|
            #[trigger] persist.ensures((&request.settings, next), saved) && match saved {
                Err(e) => after == before && fails_with(r, e),
                Ok(()) => {
                    &&& after.settings == request.settings
                    &&& after.revision == next
                    &&& after.idempotent_results.map().dom() == results.dom().insert(key)
                    &&& after.idempotent_results.map()[key].1 == next
                    &&& cloned(request.settings, after.idempotent_results.map()[key].0)
                    &&& forall|k: Seq<char>| #[trigger] results.contains_key(k) ==> after.idempotent_results.map()[k] == results[k]
                    &&& r matches CommandResult::Success { ok, data, revision }
                    &&& ok && revision == next && cloned(request.settings, data)
                },
            }
    }
}

/// Changes the settings (main window). A request whose key was applied is
/// answered with its first result; one based on an older revision is
/// refused; otherwise the new settings are saved with the next revision,
/// and only then take effect.
pub fn update_settings_for<S: Clone, P>(
    caller: CallerIdentity,
    store: &mut SettingsStore<S>,
    request: UpdateSettingsRequest<S>,
    persist: P,
) -> (r: CommandResult<S>) where P: FnOnce(&S, u64) -> Result<(), AppError>
    requires
        old(store).wf(),
        forall|s: &S, rev: u64| #[trigger] persist.requires((s, rev)),
    ensures
        final(store).wf(),
        caller != CallerIdentity::Main ==> refuses_caller(r) && *final(store) == *old(store),
        caller == CallerIdentity::Main && !valid_id(request.idempotency_key@) ==> refuses_key(r)
            && *final(store) == *old(store),
        caller == CallerIdentity::Main && valid_id(request.idempotency_key@) ==> settings_reply(
            *old(store),
            *final(store),
            request,
            persist,
            r,
        ),
{
    if let Err(error) = caller.require(&[CallerIdentity::Main]) {
        return CommandResult::failure(error);
    }
    if let Err(error) = require_idempotency_key(request.idempotency_key.as_str()) {
        return CommandResult::failure(error);
    }
    let ghost before = *store;
    if let Some(found) = store.idempotent_results.get(request.idempotency_key.as_str()) {
        let settings = found.0.clone();
        let revision = found.1;
        return CommandResult::success(settings, revision);
    }
    if request.expected_revision != store.revision {
        return CommandResult::failure(
            AppError::new(
                ErrorCode::RevisionConflict,
                copy_string("Settings changed after this view was loaded."),
                true,
            ).with_field(copy_string("expectedRevision")),
        );
    }
    let revision = store.revision.saturating_add(1);
    let saved = persist(&request.settings, revision);
    let ghost witness = saved;
    assert(persist.ensures((&request.settings, revision), witness));
    if let Err(error) = saved {
        return CommandResult::failure(error);
    }
    let UpdateSettingsRequest { settings, expected_revision: _, idempotency_key } = request;
    store.revision = revision;
    store.settings = settings;
    let kept = store.settings.clone();
    let reply = store.settings.clone();
    store.idempotent_results.insert(idempotency_key, (kept, revision));
    proof {
        let results = before.idempotent_results.map();
        assert(store.idempotent_results.map().dom() =~= results.dom().insert(request.idempotency_key@));
    }
    CommandResult::success(reply, revision)
}

} // verus!
