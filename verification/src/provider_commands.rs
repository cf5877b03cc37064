//! The visible-window provider's commands: consent to what it may disclose,
//! the choice of the MTGO window, pausing, and what a window may list.
//!
//! The detection engine itself is held by the caller as `E`; its operations
//! are handed in as functions that take the engine and give it back, and
//! `status` reads the status (`S`) that every reply carries.
use vstd::prelude::*;

use crate::commands::{fails_with_repo, refuses_caller, refuses_key, require_idempotency_key};
use crate::domain::{valid_id, RepoError, UtcMillis};
use crate::ipc::{CallerIdentity, CommandResult};
use crate::text::{contains_control, copy_string, has_ctrl, is_blank, str_eq, trimmed};

verus! {

/// The provider these commands speak for.
pub const PROVIDER_ID: &'static str = "windows_visible_mtgo";

/// How many applied idempotency keys are remembered for replay.
pub const MAX_IDEMPOTENCY_KEYS: usize = 64;

/// The fields the provider may disclose, as shown to the user.
pub open spec fn is_disclosed_field(f: Seq<char>) -> bool {
    ||| f == "visible opponent handle"@
    ||| f == "visible match phase"@
    ||| f == "visible format, game, and result labels"@
}

pub fn disclosed_field(f: &str) -> (r: bool)
    ensures
        r == is_disclosed_field(f@),
{
    str_eq(f, "visible opponent handle") || str_eq(f, "visible match phase") || str_eq(
        f,
        "visible format, game, and result labels",
    )
}

#[derive(Clone, Debug, PartialEq, Eq)]
pub struct SetProviderConsentRequest {
    pub provider_id: String,
    pub disclosure_version: u16,
    pub disclosed_fields: Vec<String>,
    pub granted: bool,
    pub idempotency_key: String,
}

#[derive(Clone, Debug, PartialEq, Eq)]
pub struct SelectMtgoWindowRequest {
    pub native_handle: u64,
    pub class_name: String,
    pub visible_title: String,
    pub visible: bool,
    pub minimized: bool,
    pub usable_bounds: bool,
    pub idempotency_key: String,
}

#[derive(Clone, Debug, PartialEq, Eq)]
pub struct PauseDetectionRequest {
    pub paused: bool,
    pub idempotency_key: String,
}

/// A window the user chose, as the engine is told of it.
#[derive(Clone, Debug, PartialEq, Eq)]
pub struct AuthorizedWindow {
    pub native_handle: u64,
    pub class_name: String,
    pub visible_title: String,
    pub selected_at: i64,
    pub visible: bool,
    pub minimized: bool,
    pub usable_bounds: bool,
}

/// The texts of a list of strings.
pub open spec fn texts(v: Seq<String>) -> Seq<Seq<char>> {
    v.map_values(|s: String| s@)
}

/// Every listed field may be disclosed, and none is listed twice.
pub open spec fn fields_ok(fields: Seq<Seq<char>>) -> bool {
    &&& forall|i: int| 0 <= i < fields.len() ==> is_disclosed_field(#[trigger] fields[i])
    &&& forall|i: int, j: int| 0 <= i < j < fields.len() ==> fields[i] != fields[j]
}

/// A consent request names this provider, the first disclosure, and a
/// non-empty list of disclosable fields without repeats.
pub open spec fn consent_request_ok(r: SetProviderConsentRequest) -> bool {
    &&& r.provider_id@ == PROVIDER_ID@
    &&& r.disclosure_version == 1
    &&& r.disclosed_fields@.len() > 0
    &&& fields_ok(texts(r.disclosed_fields@))
}

/// Whether every field in `fields` may be disclosed and none repeats.
pub fn check_fields(fields: &Vec<String>) -> (r: bool)
    ensures
        r == fields_ok(texts(fields@)),
{
    let ghost t = texts(fields@);
    let mut i: usize = 0;
    while i < fields.len()
        invariant
            i <= fields@.len(),
            t == texts(fields@),
            forall|k: int| 0 <= k < i ==> is_disclosed_field(#[trigger] t[k]),
            forall|k: int, l: int| 0 <= k < l < i ==> t[k] != t[l],
        decreases fields.len() - i,
    {
        assert(t[i as int] == fields@[i as int]@);
        if !disclosed_field(fields[i].as_str()) {
            return false;
        }
        let mut j: usize = 0;
        while j < i
            invariant
                j <= i < fields@.len(),
                t == texts(fields@),
                forall|k: int| 0 <= k < j ==> t[k] != t[i as int],
            decreases i - j,
        {
            assert(t[j as int] == fields@[j as int]@);
            if str_eq(fields[j].as_str(), fields[i].as_str()) {
                assert(t[j as int] == t[i as int]);
                return false;
            }
            j = j + 1;
        }
        i = i + 1;
    }
    true
}

pub fn check_consent_request(request: &SetProviderConsentRequest) -> (r: bool)
    ensures
        r == consent_request_ok(*request),
{
    str_eq(request.provider_id.as_str(), PROVIDER_ID) && request.disclosure_version == 1
        && request.disclosed_fields.len() > 0 && check_fields(&request.disclosed_fields)
}

/// A window request names a window by a non-blank class and title, neither
/// holding a control character.
pub open spec fn window_request_ok(r: SelectMtgoWindowRequest) -> bool {
    &&& trimmed(r.class_name@).len() > 0
    &&& trimmed(r.visible_title@).len() > 0
    &&& !has_ctrl(r.class_name@)
    &&& !has_ctrl(r.visible_title@)
}

/// The window a request describes, chosen at `now`.
pub open spec fn window_of(r: SelectMtgoWindowRequest, now: UtcMillis) -> AuthorizedWindow {
    AuthorizedWindow {
        native_handle: r.native_handle,
        class_name: r.class_name,
        visible_title: r.visible_title,
        selected_at: now.0,
        visible: r.visible,
        minimized: r.minimized,
        usable_bounds: r.usable_bounds,
    }
}

/// The state the detection commands keep: the engine, the revision of its
/// status, and the idempotency keys applied so far, oldest first.
pub struct DetectionRuntime<E> {
    pub engine: E,
    pub revision: u64,
    pub applied_idempotency_keys: Vec<String>,
}

/// The remembered keys after `key` is applied: the oldest is forgotten
/// when the list is full.
pub open spec fn recorded(keys: Seq<Seq<char>>, key: Seq<char>) -> Seq<Seq<char>> {
    if keys.len() == MAX_IDEMPOTENCY_KEYS {
        keys.drop_first().push(key)
    } else {
        keys.push(key)
    }
}

/// The revision after a change; it stays at the largest value.
pub open spec fn next_revision(revision: u64) -> u64 {
    if revision == u64::MAX {
        revision
    } else {
        (revision + 1) as u64
    }
}

impl<E> DetectionRuntime<E> {
    pub open spec fn keys(&self) -> Seq<Seq<char>> {
        texts(self.applied_idempotency_keys@)
    }

    pub open spec fn wf(&self) -> bool {
        self.keys().len() <= MAX_IDEMPOTENCY_KEYS
    }

    pub open spec fn applied(&self, key: Seq<char>) -> bool {
        self.keys().contains(key)
    }

    pub fn new(engine: E) -> (r: Self)
        ensures
            r.wf(),
            r.engine == engine,
            r.revision == 0,
            r.keys().len() == 0,
    {
        DetectionRuntime { engine, revision: 0, applied_idempotency_keys: Vec::new() }
    }

    /// Whether a command with this idempotency key was already applied.
    pub fn was_applied(&self, key: &str) -> (r: bool)
        ensures
            r == self.applied(key@),
    {
        let ghost t = self.keys();
        let mut i: usize = 0;
        while i < self.applied_idempotency_keys.len()
            invariant
                i <= self.applied_idempotency_keys@.len(),
                t == self.keys(),
                forall|k: int| 0 <= k < i ==> t[k] != key@,
            decreases self.applied_idempotency_keys.len() - i,
        {
            if str_eq(self.applied_idempotency_keys[i].as_str(), key) {
                assert(t[i as int] == key@);
                return true;
            }
            i = i + 1;
        }
        false
    }

    /// Remembers `key` as applied, forgetting the oldest when full.
    pub fn record_idempotency(&mut self, key: &str)
        requires
            old(self).wf(),
        ensures
            final(self).wf(),
            final(self).engine == old(self).engine,
            final(self).revision == old(self).revision,
            final(self).keys() == recorded(old(self).keys(), key@),
    {
        let ghost before = self.keys();
        if self.applied_idempotency_keys.len() == MAX_IDEMPOTENCY_KEYS {
            let _ = self.applied_idempotency_keys.remove(0);
            assert(self.keys() =~= before.drop_first());
        }
        let ghost mid = self.keys();
        self.applied_idempotency_keys.push(copy_string(key));
        assert(self.keys() =~= mid.push(key@));
    }
}

/// `r` carries a status that `status` reads from `engine`, at `revision`.
pub open spec fn reports_status<E, S, G: Fn(&E) -> S>(
    status: G,
    engine: E,
    revision: u64,
    r: CommandResult<S>,
) -> bool {
    &&& r matches CommandResult::Success { ok, data, revision: at }
    &&& ok
    &&& at == revision
    &&& status.ensures((&engine,), data)
}

/// The outcome of applying an engine operation that gave back `engine` and
/// `res`: a failure changes neither the revision nor the remembered keys;
/// a success advances the revision, remembers the key, and reports the
/// engine's status at the new revision.
pub open spec fn applied_reply<E, S, G: Fn(&E) -> S>(
    before: DetectionRuntime<E>,
    after: DetectionRuntime<E>,
    key: Seq<char>,
    engine: E,
    res: Result<(), RepoError>,
    status: G,
    r: CommandResult<S>,
) -> bool {
    &&& after.engine == engine
    &&& match res {
        Err(e) => {
            &&& after.revision == before.revision
            &&& after.keys() == before.keys()
            &&& fails_with_repo(r, e)
        },
        Ok(()) => {
            &&& after.revision == next_revision(before.revision)
            &&& after.keys() == recorded(before.keys(), key)
            &&& reports_status(status, engine, after.revision, r)
        },
    }
}

/// Settles an engine operation whose engine `runtime` already holds: a
/// failure is reported as it is; a success advances the revision, remembers
/// the key, and reports the engine's status.
fn settle<E, S, G>(runtime: DetectionRuntime<E>, key: &str, res: Result<(), RepoError>, status: G) -> (r: (
    DetectionRuntime<E>,
    CommandResult<S>,
)) where G: Fn(&E) -> S
    requires
        runtime.wf(),
        forall|e: E| #[trigger] status.requires((&e,)),
    ensures
        r.0.wf(),
        applied_reply(runtime, r.0, key@, runtime.engine, res, status, r.1),
{
    match res {
        Err(e) => (runtime, CommandResult::failure(e.to_app_error())),
        Ok(()) => {
            let mut after = runtime;
            after.revision = after.revision.saturating_add(1);
            let data = status(&after.engine);
            after.record_idempotency(key);
            let at = after.revision;
            (after, CommandResult::success(data, at))
        },
    }
}

/// The current status at the current revision, with nothing changed.
fn current<E, S, G>(runtime: DetectionRuntime<E>, status: G) -> (r: (DetectionRuntime<E>, CommandResult<S>)) where
    G: Fn(&E) -> S
    requires
        forall|e: E| #[trigger] status.requires((&e,)),
    ensures
        replayed(runtime, r.0, status, r.1),
{
    let data = status(&runtime.engine);
    let at = runtime.revision;
    (runtime, CommandResult::success(data, at))
}

/// The reply to a command whose key was already applied: the current
/// status, at the current revision, with nothing changed.
pub open spec fn replayed<E, S, G: Fn(&E) -> S>(
    before: DetectionRuntime<E>,
    after: DetectionRuntime<E>,
    status: G,
    r: CommandResult<S>,
) -> bool {
    after == before && reports_status(status, before.engine, before.revision, r)
}

/// Every detection command first checks the caller and the key: a refused
/// caller or key changes nothing.
pub open spec fn admitted<E, S>(
    allowed: bool,
    key: Seq<char>,
    before: DetectionRuntime<E>,
    after: DetectionRuntime<E>,
    r: CommandResult<S>,
) -> bool {
    &&& !allowed ==> refuses_caller(r) && after == before
    &&& allowed && !valid_id(key) ==> refuses_key(r) && after == before
}

/// The statuses the provider list reports (main window only).
pub fn list_providers_for<E, S, G>(caller: CallerIdentity, runtime: &DetectionRuntime<E>, status: G) -> (r:
    CommandResult<Vec<S>>) where G: Fn(&E) -> S
    requires
        forall|e: E| #[trigger] status.requires((&e,)),
    ensures
        caller != CallerIdentity::Main ==> refuses_caller(r),
        caller == CallerIdentity::Main ==> (r matches CommandResult::Success { ok, data, revision }
            && ok && revision == runtime.revision && data@.len() == 1 && status.ensures(
            (&runtime.engine,),
            data@[0],
        )),
{
    if let Err(error) = caller.require(&[CallerIdentity::Main]) {
        return CommandResult::failure(error);
    }
    let current = status(&runtime.engine);
    let mut list = Vec::new();
    list.push(current);
    CommandResult::success(list, runtime.revision)
}

/// The windows the user may choose from (main window only): what `list`
/// finds, at revision 1. `list` is not asked for a refused caller.
pub fn list_mtgo_windows_for<L>(caller: CallerIdentity, list: L) -> (r: CommandResult<
    Vec<AuthorizedWindow>,
>) where L: FnOnce() -> Result<Vec<AuthorizedWindow>, RepoError>
    requires
        list.requires(()),
    ensures
        caller != CallerIdentity::Main ==> refuses_caller(r),
        caller == CallerIdentity::Main ==> exists|found: Result<Vec<AuthorizedWindow>, RepoError>|
            list.ensures((), found) && match found {
                Ok(w) => r == (CommandResult::Success { ok: true, data: w, revision: 1 }),
                Err(e) => fails_with_repo(r, e),
            },
{
    if let Err(error) = caller.require(&[CallerIdentity::Main]) {
        return CommandResult::failure(error);
    }
    match list() {
        Ok(windows) => CommandResult::success(windows, 1),
        Err(error) => CommandResult::failure(error.to_app_error()),
    }
}

/// The reply to a consent request: the caller and key are checked, then
/// the request; a replayed key reports the current status; otherwise the
/// consent is persisted, and only if that succeeds is the engine told.
pub open spec fn consent_reply<E, S, P, C, G>(
    before: DetectionRuntime<E>,
    after: DetectionRuntime<E>,
    caller: CallerIdentity,
    request: SetProviderConsentRequest,
    persist: P,
    set_consent: C,
    status: G,
    r: CommandResult<S>,
) -> bool where
    P: FnOnce(bool, &Vec<String>) -> Result<(), RepoError>,
    C: FnOnce(E, bool, Vec<String>) -> E,
    G: Fn(&E) -> S,
 {
    let key = request.idempotency_key@;
    &&& admitted(caller == CallerIdentity::Main, key, before, after, r)
    &&& (caller == CallerIdentity::Main && valid_id(key)) ==> if !consent_request_ok(request) {
        after == before && fails_with_repo(r, RepoError::InvalidRequest)
    } else if before.applied(key) {
        replayed(before, after, status, r)
    } else {
        exists|stored: Result<(), RepoError>|
            #[trigger] persist.ensures((request.granted, &request.disclosed_fields), stored) && match stored {
                Err(e) => after == before && fails_with_repo(r, e),
                Ok(()) => exists|engine: E|
                    #[trigger] set_consent.ensures(
                        (before.engine, request.granted, request.disclosed_fields),
                        engine,
                    ) && applied_reply(before, after, key, engine, Ok(()), status, r),
            }
    }
}

/// Records the user's consent to the listed disclosures (main window).
pub fn set_provider_consent_for<E, S, P, C, G>(
    caller: CallerIdentity,
    runtime: DetectionRuntime<E>,
    request: SetProviderConsentRequest,
    persist: P,
    set_consent: C,
    status: G,
) -> (r: (DetectionRuntime<E>, CommandResult<S>)) where
    P: FnOnce(bool, &Vec<String>) -> Result<(), RepoError>,
    C: FnOnce(E, bool, Vec<String>) -> E,
    G: Fn(&E) -> S,
    requires
        runtime.wf(),
        forall|g: bool, f: &Vec<String>| #[trigger] persist.requires((g, f)),
        forall|e: E, g: bool, f: Vec<String>| #[trigger] set_consent.requires((e, g, f)),
        forall|e: E| #[trigger] status.requires((&e,)),
    ensures
        r.0.wf(),
        consent_reply(runtime, r.0, caller, request, persist, set_consent, status, r.1),
{
    if let Err(error) = caller.require(&[CallerIdentity::Main]) {
        return (runtime, CommandResult::failure(error));
    }
    if let Err(error) = require_idempotency_key(request.idempotency_key.as_str()) {
        return (runtime, CommandResult::failure(error));
    }
    if !check_consent_request(&request) {
        return (runtime, CommandResult::failure(RepoError::InvalidRequest.to_app_error()));
    }
    if runtime.was_applied(request.idempotency_key.as_str()) {
        return current(runtime, status);
    }
    let ghost before = runtime;
    let stored = persist(request.granted, &request.disclosed_fields);
    if let Err(error) = stored {
        return (runtime, CommandResult::failure(error.to_app_error()));
    }
    let DetectionRuntime { engine, revision, applied_idempotency_keys } = runtime;
    let engine = set_consent(engine, request.granted, request.disclosed_fields);
    let ghost told = engine;
    let mid = DetectionRuntime { engine, revision, applied_idempotency_keys };
    let out = settle(mid, request.idempotency_key.as_str(), Ok(()), status);
    assert(applied_reply(before, out.0, request.idempotency_key@, told, Ok(()), status, out.1));
    out
}

/// The reply to a window choice: the caller and key are checked; a replayed
/// key reports the current status; a blank or control-bearing class or title
/// names no window; otherwise the engine is told of the window, chosen now.
pub open spec fn window_reply<E, S, F, G>(
    before: DetectionRuntime<E>,
    after: DetectionRuntime<E>,
    caller: CallerIdentity,
    request: SelectMtgoWindowRequest,
    now: UtcMillis,
    select: F,
    status: G,
    r: CommandResult<S>,
) -> bool where F: FnOnce(E, AuthorizedWindow) -> (E, Result<(), RepoError>), G: Fn(&E) -> S {
    let key = request.idempotency_key@;
    &&& admitted(caller == CallerIdentity::Main, key, before, after, r)
    &&& (caller == CallerIdentity::Main && valid_id(key)) ==> if before.applied(key) {
        replayed(before, after, status, r)
    } else if !window_request_ok(request) {
        after == before && fails_with_repo(r, RepoError::WindowNotFound)
    } else {
        exists|out: (E, Result<(), RepoError>)|
            #[trigger] select.ensures((before.engine, window_of(request, now)), out) && applied_reply(
                before,
                after,
                key,
                out.0,
                out.1,
                status,
                r,
            )
    }
}

/// Chooses the MTGO window to read (main window), at `now`. `select` checks
/// the window with the system and tells the engine of it.
pub fn select_mtgo_window_at<E, S, F, G>(
    caller: CallerIdentity,
    runtime: DetectionRuntime<E>,
    request: SelectMtgoWindowRequest,
    now: UtcMillis,
    select: F,
    status: G,
) -> (r: (DetectionRuntime<E>, CommandResult<S>)) where
    F: FnOnce(E, AuthorizedWindow) -> (E, Result<(), RepoError>),
    G: Fn(&E) -> S,
    requires
        runtime.wf(),
        forall|e: E, w: AuthorizedWindow| #[trigger] select.requires((e, w)),
        forall|e: E| #[trigger] status.requires((&e,)),
    ensures
        r.0.wf(),
        window_reply(runtime, r.0, caller, request, now, select, status, r.1),
{
    if let Err(error) = caller.require(&[CallerIdentity::Main]) {
        return (runtime, CommandResult::failure(error));
    }
    if let Err(error) = require_idempotency_key(request.idempotency_key.as_str()) {
        return (runtime, CommandResult::failure(error));
    }
    if runtime.was_applied(request.idempotency_key.as_str()) {
        return current(runtime, status);
    }
    if is_blank(request.class_name.as_str()) || is_blank(request.visible_title.as_str())
        || contains_control(request.class_name.as_str()) || contains_control(
        request.visible_title.as_str(),
    ) {
        return (runtime, CommandResult::failure(RepoError::WindowNotFound.to_app_error()));
    }
    let ghost before = runtime;
    let key = request.idempotency_key;
    let window = AuthorizedWindow {
        native_handle: request.native_handle,
        class_name: request.class_name,
        visible_title: request.visible_title,
        selected_at: now.get(),
        visible: request.visible,
        minimized: request.minimized,
        usable_bounds: request.usable_bounds,
    };
    let DetectionRuntime { engine, revision, applied_idempotency_keys } = runtime;
    let out = select(engine, window);
    let ghost witness = out;
    assert(select.ensures((before.engine, window_of(request, now)), witness));
    let (engine, res) = out;
    let mid = DetectionRuntime { engine, revision, applied_idempotency_keys };
    let settled = settle(mid, key.as_str(), res, status);
    assert(applied_reply(before, settled.0, key@, witness.0, witness.1, status, settled.1));
    settled
}

/// Chooses the MTGO window to read (main window), now.
pub fn select_mtgo_window_for<E, S, F, G>(
    caller: CallerIdentity,
    runtime: DetectionRuntime<E>,
    request: SelectMtgoWindowRequest,
    select: F,
    status: G,
) -> (r: (DetectionRuntime<E>, CommandResult<S>)) where
    F: FnOnce(E, AuthorizedWindow) -> (E, Result<(), RepoError>),
    G: Fn(&E) -> S,
    requires
        runtime.wf(),
        forall|e: E, w: AuthorizedWindow| #[trigger] select.requires((e, w)),
        forall|e: E| #[trigger] status.requires((&e,)),
    ensures
        r.0.wf(),
        exists|now: UtcMillis|
            now.0 >= 0 && #[trigger] window_reply(runtime, r.0, caller, request, now, select, status, r.1),
{
    let now = UtcMillis::now();
    select_mtgo_window_at(caller, runtime, request, now, select, status)
}

/// The reply to a pause request: the main and overlay windows may pause or
/// resume; a replayed key reports the current status; otherwise the engine
/// is told.
pub open spec fn pause_reply<E, S, F, G>(
    before: DetectionRuntime<E>,
    after: DetectionRuntime<E>,
    caller: CallerIdentity,
    request: PauseDetectionRequest,
    pause: F,
    status: G,
    r: CommandResult<S>,
) -> bool where F: FnOnce(E, bool) -> (E, Result<(), RepoError>), G: Fn(&E) -> S {
    let key = request.idempotency_key@;
    let allowed = caller == CallerIdentity::Main || caller == CallerIdentity::Overlay;
    &&& admitted(allowed, key, before, after, r)
    &&& (allowed && valid_id(key)) ==> if before.applied(key) {
        replayed(before, after, status, r)
    } else {
        exists|out: (E, Result<(), RepoError>)|
            #[trigger] pause.ensures((before.engine, request.paused), out) && applied_reply(
                before,
                after,
                key,
                out.0,
                out.1,
                status,
                r,
            )
    }
}

/// Pauses or resumes detection (main or overlay window).
pub fn pause_detection_for<E, S, F, G>(
    caller: CallerIdentity,
    runtime: DetectionRuntime<E>,
    request: PauseDetectionRequest,
    pause: F,
    status: G,
) -> (r: (DetectionRuntime<E>, CommandResult<S>)) where
    F: FnOnce(E, bool) -> (E, Result<(), RepoError>),
    G: Fn(&E) -> S,
    requires
        runtime.wf(),
        forall|e: E, p: bool| #[trigger] pause.requires((e, p)),
        forall|e: E| #[trigger] status.requires((&e,)),
    ensures
        r.0.wf(),
        pause_reply(runtime, r.0, caller, request, pause, status, r.1),
{
    if let Err(error) = caller.require(&[CallerIdentity::Main, CallerIdentity::Overlay]) {
        return (runtime, CommandResult::failure(error));
    }
    if let Err(error) = require_idempotency_key(request.idempotency_key.as_str()) {
        return (runtime, CommandResult::failure(error));
    }
    if runtime.was_applied(request.idempotency_key.as_str()) {
        return current(runtime, status);
    }
    let ghost before = runtime;
    let DetectionRuntime { engine, revision, applied_idempotency_keys } = runtime;
    let out = pause(engine, request.paused);
    let ghost witness = out;
    assert(pause.ensures((before.engine, request.paused), witness));
    let (engine, res) = out;
    let mid = DetectionRuntime { engine, revision, applied_idempotency_keys };
    let settled = settle(mid, request.idempotency_key.as_str(), res, status);
    assert(applied_reply(before, settled.0, request.idempotency_key@, witness.0, witness.1, status, settled.1));
    settled
}

/// Every listed field may be disclosed.
pub open spec fn all_disclosed(fields: Seq<Seq<char>>) -> bool {
    forall|i: int| 0 <= i < fields.len() ==> is_disclosed_field(#[trigger] fields[i])
}

fn all_fields_disclosed(fields: &Vec<String>) -> (r: bool)
    ensures
        r == all_disclosed(texts(fields@)),
{
    let ghost t = texts(fields@);
    let mut i: usize = 0;
    while i < fields.len()
        invariant
            i <= fields@.len(),
            t == texts(fields@),
            forall|k: int| 0 <= k < i ==> is_disclosed_field(#[trigger] t[k]),
        decreases fields.len() - i,
    {
        assert(t[i as int] == fields@[i as int]@);
        if !disclosed_field(fields[i].as_str()) {
            return false;
        }
        i = i + 1;
    }
    true
}

/// Restores a consent that the notebook kept: nothing kept changes nothing;
/// a kept field that may not be disclosed marks the notebook invalid;
/// otherwise the engine is told, and the revision and keys stay as they are.
pub fn hydrate_provider_consent<E, C>(
    runtime: DetectionRuntime<E>,
    stored: Option<(bool, Vec<String>)>,
    set_consent: C,
) -> (r: (DetectionRuntime<E>, Result<(), RepoError>)) where C: FnOnce(E, bool, Vec<String>) -> E
    requires
        forall|e: E, g: bool, f: Vec<String>| #[trigger] set_consent.requires((e, g, f)),
    ensures
        match stored {
            None => r.0 == runtime && r.1 is Ok,
            Some((granted, fields)) => if all_disclosed(texts(fields@)) {
                &&& r.1 is Ok
                &&& r.0.revision == runtime.revision
                &&& r.0.applied_idempotency_keys == runtime.applied_idempotency_keys
                &&& set_consent.ensures((runtime.engine, granted, fields), r.0.engine)
            } else {
                r.0 == runtime && r.1 == Err::<(), RepoError>(RepoError::NotebookInvalid)
            },
        },
{
    match stored {
        None => (runtime, Ok(())),
        Some((granted, fields)) => {
            if !all_fields_disclosed(&fields) {
                return (runtime, Err(RepoError::NotebookInvalid));
            }
            let DetectionRuntime { engine, revision, applied_idempotency_keys } = runtime;
            let engine = set_consent(engine, granted, fields);
            (DetectionRuntime { engine, revision, applied_idempotency_keys }, Ok(()))
        },
    }
}

/// A key that a command applied is remembered, so the same request made
/// again is answered as a replay and changes nothing.
pub proof fn law_applied_key_is_replayed<E, S, G: Fn(&E) -> S>(
    before: DetectionRuntime<E>,
    after: DetectionRuntime<E>,
    key: Seq<char>,
    engine: E,
    status: G,
    r: CommandResult<S>,
)
    requires
        before.wf(),
        applied_reply(before, after, key, engine, Ok(()), status, r),
    ensures
        after.applied(key),
        after.wf(),
{
    let keys = after.keys();
    assert(keys[keys.len() - 1] == key);
}

} // verus!
