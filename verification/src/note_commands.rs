//! Profile, observation and identity-merge commands: caller admission,
//! idempotency keys and identifier parsing before the notebook does the
//! work, and how its answer is reported. The notebook operation itself is
//! handed in by the caller, which owns the database connection.
use vstd::prelude::*;

use crate::commands::{
    fails_with_repo, refuses_caller, refuses_key, report_read, report_revisioned, reports_read,
    reports_revisioned, require_idempotency_key,
};
use crate::domain::{valid_id, EntityId, IdempotencyKey, RepoError, Revision};
use crate::ipc::{CallerIdentity, CommandResult};

verus! {

#[derive(Debug, PartialEq, Eq)]
pub struct HandleRequest {
    pub handle: String,
    pub idempotency_key: String,
}

#[derive(Debug, PartialEq, Eq)]
pub struct ProfileHandleRequest {
    pub profile_id: String,
    pub handle: String,
    pub idempotency_key: String,
    pub expected_revision: Option<u64>,
}

#[derive(Debug, PartialEq, Eq)]
pub struct SuggestProfilesRequest {
    pub query: String,
    pub limit: usize,
}

/// How many suggestions a request asks for when it names no limit.
pub const DEFAULT_SUGGESTION_LIMIT: usize = 20;

/// A new observation with its optional enrichment; `C` is the card
/// observation the notebook accepts.
#[derive(Debug, PartialEq, Eq)]
pub struct SaveObservationRequest<C> {
    pub encounter_id: String,
    pub text: String,
    pub cards: Vec<C>,
    pub tags: Vec<String>,
    pub user_deck_label: Option<String>,
    pub idempotency_key: String,
}

#[derive(Debug, PartialEq, Eq)]
pub struct UpdateObservationRequest {
    pub observation_id: String,
    pub text: String,
    pub expected_revision: u64,
    pub idempotency_key: String,
}

#[derive(Debug, PartialEq, Eq)]
pub struct SetCardObservationsRequest<C> {
    pub observation_id: String,
    pub expected_revision: u64,
    pub cards: Vec<C>,
    pub idempotency_key: String,
}

#[derive(Debug, PartialEq, Eq)]
pub struct SetTendencyTagsRequest {
    pub observation_id: String,
    pub expected_revision: u64,
    pub tags: Vec<String>,
    pub idempotency_key: String,
}

#[derive(Debug, PartialEq, Eq)]
pub struct PreviewMergeRequest {
    pub left_profile_id: String,
    pub right_profile_id: String,
    pub primary_profile_id: String,
}

/// `P` is the merge preview the notebook issued.
#[derive(Debug, PartialEq, Eq)]
pub struct ApplyMergeRequest<P> {
    pub preview: P,
    pub idempotency_key: String,
}

#[derive(Debug, PartialEq, Eq)]
pub struct PreviewUnmergeRequest {
    pub merge_id: String,
}

#[derive(Debug, PartialEq, Eq)]
pub struct ApplyUnmergeRequest<P> {
    pub preview: P,
    pub idempotency_key: String,
}

/// Creates a profile for a handle (main window, with a key).
pub fn create_profile_for<T, F: FnOnce(String) -> Result<(T, u64), RepoError>>(
    caller: CallerIdentity,
    request: HandleRequest,
    create: F,
) -> (r: CommandResult<T>)
    requires
        create.requires((request.handle,)),
    ensures
        caller != CallerIdentity::Main ==> refuses_caller(r),
        caller == CallerIdentity::Main && !valid_id(request.idempotency_key@) ==> refuses_key(r),
        caller == CallerIdentity::Main && valid_id(request.idempotency_key@) ==> exists|
            o: Result<(T, u64), RepoError>,
        | create.ensures((request.handle,), o) && reports_revisioned(o, r),
{
    if let Err(error) = caller.require(&[CallerIdentity::Main]) {
        return CommandResult::failure(error);
    }
    if let Err(error) = require_idempotency_key(request.idempotency_key.as_str()) {
        return CommandResult::failure(error);
    }
    report_revisioned(create(request.handle))
}

/// Finds the profile of a handle exactly (main window).
pub fn resolve_profile_for<T, F: FnOnce(String) -> Result<T, RepoError>>(
    caller: CallerIdentity,
    request: HandleRequest,
    resolve: F,
) -> (r: CommandResult<T>)
    requires
        resolve.requires((request.handle,)),
    ensures
        caller != CallerIdentity::Main ==> refuses_caller(r),
        caller == CallerIdentity::Main ==> exists|o: Result<T, RepoError>|
            resolve.ensures((request.handle,), o) && reports_read(o, r),
{
    if let Err(error) = caller.require(&[CallerIdentity::Main]) {
        return CommandResult::failure(error);
    }
    report_read(resolve(request.handle))
}

/// Suggests profiles for a partial handle (main window).
pub fn suggest_profiles_for<T, F: FnOnce(String, usize) -> Result<T, RepoError>>(
    caller: CallerIdentity,
    request: SuggestProfilesRequest,
    suggest: F,
) -> (r: CommandResult<T>)
    requires
        suggest.requires((request.query, request.limit)),
    ensures
        caller != CallerIdentity::Main ==> refuses_caller(r),
        caller == CallerIdentity::Main ==> exists|o: Result<T, RepoError>|
            suggest.ensures((request.query, request.limit), o) && reports_read(o, r),
{
    if let Err(error) = caller.require(&[CallerIdentity::Main]) {
        return CommandResult::failure(error);
    }
    report_read(suggest(request.query, request.limit))
}

/// Adds an alias handle to a profile (main window, with a key).
pub fn add_alias_for<T, F: FnOnce(EntityId, String) -> Result<(T, u64), RepoError>>(
    caller: CallerIdentity,
    request: ProfileHandleRequest,
    add_alias: F,
) -> (r: CommandResult<T>)
    requires
        forall|id: EntityId| id@ == request.profile_id@ ==> #[trigger] add_alias.requires((id, request.handle)),
    ensures
        caller != CallerIdentity::Main ==> refuses_caller(r),
        caller == CallerIdentity::Main && !valid_id(request.idempotency_key@) ==> refuses_key(r),
        caller == CallerIdentity::Main && valid_id(request.idempotency_key@) && !valid_id(
            request.profile_id@,
        ) ==> fails_with_repo(r, RepoError::InvalidRequest),
        caller == CallerIdentity::Main && valid_id(request.idempotency_key@) && valid_id(
            request.profile_id@,
        ) ==> exists|id: EntityId, o: Result<(T, u64), RepoError>|
            id@ == request.profile_id@ && add_alias.ensures((id, request.handle), o)
                && reports_revisioned(o, r),
{
    if let Err(error) = caller.require(&[CallerIdentity::Main]) {
        return CommandResult::failure(error);
    }
    if let Err(error) = require_idempotency_key(request.idempotency_key.as_str()) {
        return CommandResult::failure(error);
    }
    let profile_id = match EntityId::parse(request.profile_id.as_str()) {
        Ok(id) => id,
        Err(error) => {
            return CommandResult::failure(error.to_app_error());
        },
    };
    report_revisioned(add_alias(profile_id, request.handle))
}

/// Replaces a profile's primary handle at an expected revision (main
/// window, with a key).
pub fn update_profile_for<T, F: FnOnce(EntityId, Revision, String) -> Result<(T, u64), RepoError>>(
    caller: CallerIdentity,
    request: ProfileHandleRequest,
    update: F,
) -> (r: CommandResult<T>)
    requires
        forall|id: EntityId, rev: Revision|
            id@ == request.profile_id@ && Some(rev.0) == request.expected_revision
                ==> #[trigger] update.requires((id, rev, request.handle)),
    ensures
        caller != CallerIdentity::Main ==> refuses_caller(r),
        caller == CallerIdentity::Main && !valid_id(request.idempotency_key@) ==> refuses_key(r),
        caller == CallerIdentity::Main && valid_id(request.idempotency_key@) && (!valid_id(
            request.profile_id@,
        ) || request.expected_revision is None || request.expected_revision == Some(0u64))
            ==> fails_with_repo(r, RepoError::InvalidRequest),
        caller == CallerIdentity::Main && valid_id(request.idempotency_key@) && valid_id(
            request.profile_id@,
        ) && request.expected_revision is Some && request.expected_revision->0 >= 1 ==> exists|
            id: EntityId,
            o: Result<(T, u64), RepoError>,
        |
            id@ == request.profile_id@ && update.ensures(
                (id, Revision(request.expected_revision->0), request.handle),
                o,
            ) && reports_revisioned(o, r),
{
    if let Err(error) = caller.require(&[CallerIdentity::Main]) {
        return CommandResult::failure(error);
    }
    if let Err(error) = require_idempotency_key(request.idempotency_key.as_str()) {
        return CommandResult::failure(error);
    }
    let profile_id = match EntityId::parse(request.profile_id.as_str()) {
        Ok(id) => id,
        Err(error) => {
            return CommandResult::failure(error.to_app_error());
        },
    };
    let expected = match request.expected_revision {
        Some(value) => match Revision::new(value) {
            Ok(revision) => revision,
            Err(error) => {
                return CommandResult::failure(error.to_app_error());
            },
        },
        None => {
            return CommandResult::failure(RepoError::InvalidRequest.to_app_error());
        },
    };
    report_revisioned(update(profile_id, expected, request.handle))
}

/// Replaces an observation's text at an expected revision (main window,
/// with a key).
pub fn update_observation_for<T, F: FnOnce(EntityId, Revision, String) -> Result<(T, u64), RepoError>>(
    caller: CallerIdentity,
    request: UpdateObservationRequest,
    update: F,
) -> (r: CommandResult<T>)
    requires
        forall|id: EntityId|
            id@ == request.observation_id@ ==> #[trigger] update.requires(
                (id, Revision(request.expected_revision), request.text),
            ),
    ensures
        caller != CallerIdentity::Main ==> refuses_caller(r),
        caller == CallerIdentity::Main && !valid_id(request.idempotency_key@) ==> refuses_key(r),
        caller == CallerIdentity::Main && valid_id(request.idempotency_key@) && (!valid_id(
            request.observation_id@,
        ) || request.expected_revision == 0) ==> fails_with_repo(r, RepoError::InvalidRequest),
        caller == CallerIdentity::Main && valid_id(request.idempotency_key@) && valid_id(
            request.observation_id@,
        ) && request.expected_revision >= 1 ==> exists|id: EntityId, o: Result<(T, u64), RepoError>|
            id@ == request.observation_id@ && update.ensures(
                (id, Revision(request.expected_revision), request.text),
                o,
            ) && reports_revisioned(o, r),
{
    if let Err(error) = caller.require(&[CallerIdentity::Main]) {
        return CommandResult::failure(error);
    }
    if let Err(error) = require_idempotency_key(request.idempotency_key.as_str()) {
        return CommandResult::failure(error);
    }
    let id = match EntityId::parse(request.observation_id.as_str()) {
        Ok(id) => id,
        Err(error) => {
            return CommandResult::failure(error.to_app_error());
        },
    };
    let revision = match Revision::new(request.expected_revision) {
        Ok(revision) => revision,
        Err(error) => {
            return CommandResult::failure(error.to_app_error());
        },
    };
    report_revisioned(update(id, revision, request.text))
}

/// Replaces an observation's card notes at an expected revision (main
/// window, with a key).
pub fn set_card_observations_for<C, T, F: FnOnce(EntityId, Revision, Vec<C>) -> Result<(T, u64), RepoError>>(
    caller: CallerIdentity,
    request: SetCardObservationsRequest<C>,
    set_cards: F,
) -> (r: CommandResult<T>)
    requires
        forall|id: EntityId|
            id@ == request.observation_id@ ==> #[trigger] set_cards.requires(
                (id, Revision(request.expected_revision), request.cards),
            ),
    ensures
        caller != CallerIdentity::Main ==> refuses_caller(r),
        caller == CallerIdentity::Main && !valid_id(request.idempotency_key@) ==> refuses_key(r),
        caller == CallerIdentity::Main && valid_id(request.idempotency_key@) && (!valid_id(
            request.observation_id@,
        ) || request.expected_revision == 0) ==> fails_with_repo(r, RepoError::InvalidRequest),
        caller == CallerIdentity::Main && valid_id(request.idempotency_key@) && valid_id(
            request.observation_id@,
        ) && request.expected_revision >= 1 ==> exists|id: EntityId, o: Result<(T, u64), RepoError>|
            id@ == request.observation_id@ && set_cards.ensures(
                (id, Revision(request.expected_revision), request.cards),
                o,
            ) && reports_revisioned(o, r),
{
    if let Err(error) = caller.require(&[CallerIdentity::Main]) {
        return CommandResult::failure(error);
    }
    if let Err(error) = require_idempotency_key(request.idempotency_key.as_str()) {
        return CommandResult::failure(error);
    }
    let id = match EntityId::parse(request.observation_id.as_str()) {
        Ok(id) => id,
        Err(error) => {
            return CommandResult::failure(error.to_app_error());
        },
    };
    let revision = match Revision::new(request.expected_revision) {
        Ok(revision) => revision,
        Err(error) => {
            return CommandResult::failure(error.to_app_error());
        },
    };
    report_revisioned(set_cards(id, revision, request.cards))
}

/// Replaces an observation's tendency tags at an expected revision (main
/// window, with a key).
pub fn set_tendency_tags_for<T, F: FnOnce(EntityId, Revision, Vec<String>) -> Result<(T, u64), RepoError>>(
    caller: CallerIdentity,
    request: SetTendencyTagsRequest,
    set_tags: F,
) -> (r: CommandResult<T>)
    requires
        forall|id: EntityId|
            id@ == request.observation_id@ ==> #[trigger] set_tags.requires(
                (id, Revision(request.expected_revision), request.tags),
            ),
    ensures
        caller != CallerIdentity::Main ==> refuses_caller(r),
        caller == CallerIdentity::Main && !valid_id(request.idempotency_key@) ==> refuses_key(r),
        caller == CallerIdentity::Main && valid_id(request.idempotency_key@) && (!valid_id(
            request.observation_id@,
        ) || request.expected_revision == 0) ==> fails_with_repo(r, RepoError::InvalidRequest),
        caller == CallerIdentity::Main && valid_id(request.idempotency_key@) && valid_id(
            request.observation_id@,
        ) && request.expected_revision >= 1 ==> exists|id: EntityId, o: Result<(T, u64), RepoError>|
            id@ == request.observation_id@ && set_tags.ensures(
                (id, Revision(request.expected_revision), request.tags),
                o,
            ) && reports_revisioned(o, r),
{
    if let Err(error) = caller.require(&[CallerIdentity::Main]) {
        return CommandResult::failure(error);
    }
    if let Err(error) = require_idempotency_key(request.idempotency_key.as_str()) {
        return CommandResult::failure(error);
    }
    let id = match EntityId::parse(request.observation_id.as_str()) {
        Ok(id) => id,
        Err(error) => {
            return CommandResult::failure(error.to_app_error());
        },
    };
    let revision = match Revision::new(request.expected_revision) {
        Ok(revision) => revision,
        Err(error) => {
            return CommandResult::failure(error.to_app_error());
        },
    };
    report_revisioned(set_tags(id, revision, request.tags))
}

/// Previews merging two profiles into the primary one (main window).
pub fn preview_merge_for<T, F: FnOnce(EntityId, EntityId, EntityId) -> Result<T, RepoError>>(
    caller: CallerIdentity,
    request: PreviewMergeRequest,
    preview: F,
) -> (r: CommandResult<T>)
    requires
        forall|a: EntityId, b: EntityId, c: EntityId|
            a@ == request.left_profile_id@ && b@ == request.right_profile_id@ && c@
                == request.primary_profile_id@ ==> #[trigger] preview.requires((a, b, c)),
    ensures
        caller != CallerIdentity::Main ==> refuses_caller(r),
        caller == CallerIdentity::Main && !(valid_id(request.left_profile_id@) && valid_id(
            request.right_profile_id@,
        ) && valid_id(request.primary_profile_id@)) ==> fails_with_repo(
            r,
            RepoError::InvalidRequest,
        ),
        caller == CallerIdentity::Main && valid_id(request.left_profile_id@) && valid_id(
            request.right_profile_id@,
        ) && valid_id(request.primary_profile_id@) ==> exists|
            a: EntityId,
            b: EntityId,
            c: EntityId,
            o: Result<T, RepoError>,
        |
            a@ == request.left_profile_id@ && b@ == request.right_profile_id@ && c@
                == request.primary_profile_id@ && preview.ensures((a, b, c), o) && reports_read(
                o,
                r,
            ),
{
    if let Err(error) = caller.require(&[CallerIdentity::Main]) {
        return CommandResult::failure(error);
    }
    let left = match EntityId::parse(request.left_profile_id.as_str()) {
        Ok(id) => id,
        Err(error) => {
            return CommandResult::failure(error.to_app_error());
        },
    };
    let right = match EntityId::parse(request.right_profile_id.as_str()) {
        Ok(id) => id,
        Err(error) => {
            return CommandResult::failure(error.to_app_error());
        },
    };
    let primary = match EntityId::parse(request.primary_profile_id.as_str()) {
        Ok(id) => id,
        Err(error) => {
            return CommandResult::failure(error.to_app_error());
        },
    };
    report_read(preview(left, right, primary))
}

/// Applies a merge preview under an idempotency key (main window); the
/// reply carries the canonical profile's new revision.
pub fn apply_merge_for<P, T, F: FnOnce(P, IdempotencyKey) -> Result<(T, u64), RepoError>>(
    caller: CallerIdentity,
    request: ApplyMergeRequest<P>,
    apply: F,
) -> (r: CommandResult<T>)
    requires
        forall|k: IdempotencyKey|
            k.0@ == request.idempotency_key@ ==> #[trigger] apply.requires((request.preview, k)),
    ensures
        caller != CallerIdentity::Main ==> refuses_caller(r),
        caller == CallerIdentity::Main && !valid_id(request.idempotency_key@) ==> refuses_key(r),
        caller == CallerIdentity::Main && valid_id(request.idempotency_key@) ==> exists|
            k: IdempotencyKey,
            o: Result<(T, u64), RepoError>,
        |
            k.0@ == request.idempotency_key@ && apply.ensures((request.preview, k), o)
                && reports_revisioned(o, r),
{
    if let Err(error) = caller.require(&[CallerIdentity::Main]) {
        return CommandResult::failure(error);
    }
    let key = match require_idempotency_key(request.idempotency_key.as_str()) {
        Ok(key) => key,
        Err(error) => {
            return CommandResult::failure(error);
        },
    };
    report_revisioned(apply(request.preview, key))
}

/// Previews undoing a merge (main window).
pub fn preview_unmerge_for<T, F: FnOnce(EntityId) -> Result<T, RepoError>>(
    caller: CallerIdentity,
    request: PreviewUnmergeRequest,
    preview: F,
) -> (r: CommandResult<T>)
    requires
        forall|id: EntityId| id@ == request.merge_id@ ==> #[trigger] preview.requires((id,)),
    ensures
        caller != CallerIdentity::Main ==> refuses_caller(r),
        caller == CallerIdentity::Main && !valid_id(request.merge_id@) ==> fails_with_repo(
            r,
            RepoError::InvalidRequest,
        ),
        caller == CallerIdentity::Main && valid_id(request.merge_id@) ==> exists|
            id: EntityId,
            o: Result<T, RepoError>,
        | id@ == request.merge_id@ && preview.ensures((id,), o) && reports_read(o, r),
{
    if let Err(error) = caller.require(&[CallerIdentity::Main]) {
        return CommandResult::failure(error);
    }
    let id = match EntityId::parse(request.merge_id.as_str()) {
        Ok(id) => id,
        Err(error) => {
            return CommandResult::failure(error.to_app_error());
        },
    };
    report_read(preview(id))
}

/// Applies an unmerge preview under an idempotency key (main window).
pub fn apply_unmerge_for<P, T, F: FnOnce(P, IdempotencyKey) -> Result<(T, u64), RepoError>>(
    caller: CallerIdentity,
    request: ApplyUnmergeRequest<P>,
    apply: F,
) -> (r: CommandResult<T>)
    requires
        forall|k: IdempotencyKey|
            k.0@ == request.idempotency_key@ ==> #[trigger] apply.requires((request.preview, k)),
    ensures
        caller != CallerIdentity::Main ==> refuses_caller(r),
        caller == CallerIdentity::Main && !valid_id(request.idempotency_key@) ==> refuses_key(r),
        caller == CallerIdentity::Main && valid_id(request.idempotency_key@) ==> exists|
            k: IdempotencyKey,
            o: Result<(T, u64), RepoError>,
        |
            k.0@ == request.idempotency_key@ && apply.ensures((request.preview, k), o)
                && reports_revisioned(o, r),
{
    if let Err(error) = caller.require(&[CallerIdentity::Main]) {
        return CommandResult::failure(error);
    }
    let key = match require_idempotency_key(request.idempotency_key.as_str()) {
        Ok(key) => key,
        Err(error) => {
            return CommandResult::failure(error);
        },
    };
    report_revisioned(apply(request.preview, key))
}

pub open spec fn nonempty<X>(v: Seq<X>) -> bool {
    v.len() > 0
}

pub open spec fn present<X>(o: Option<X>) -> bool {
    o is Some
}

/// One step of saving an observation with its enrichment, after the step
/// that left `prev` (the detail, the observation's id and its revision): a
/// step that does not apply leaves `prev`; one that does is made at the
/// revision `prev` reports, which must be a valid revision of a valid id.
pub open spec fn observation_step<X, T, F: FnOnce(EntityId, Revision, X) -> Result<(T, String, u64), RepoError>>(
    applies: bool,
    f: F,
    prev: (T, String, u64),
    arg: X,
    out: Result<(T, String, u64), RepoError>,
) -> bool {
    if !applies {
        out == Ok::<(T, String, u64), RepoError>(prev)
    } else if prev.2 == 0 || !valid_id(prev.1@) {
        out == Err::<(T, String, u64), RepoError>(RepoError::InvalidRequest)
    } else {
        exists|id: EntityId| id@ == prev.1@ && #[trigger] f.ensures((id, Revision(prev.2), arg), out)
    }
}

fn observation_step_run<X, T, F: FnOnce(EntityId, Revision, X) -> Result<(T, String, u64), RepoError>>(
    applies: bool,
    prev: (T, String, u64),
    arg: X,
    f: F,
) -> (out: Result<(T, String, u64), RepoError>)
    requires
        forall|id: EntityId, r: Revision, x: X| #[trigger] f.requires((id, r, x)),
    ensures
        observation_step(applies, f, prev, arg, out),
{
    if !applies {
        return Ok(prev);
    }
    let revision = match Revision::new(prev.2) {
        Ok(revision) => revision,
        Err(error) => {
            return Err(error);
        },
    };
    let id = match EntityId::parse(prev.1.as_str()) {
        Ok(id) => id,
        Err(error) => {
            return Err(error);
        },
    };
    let out = f(id, revision, arg);
    assert(f.ensures((id, Revision(prev.2), arg), out));
    out
}

/// What saving an observation reports once the caller, key and encounter
/// id are accepted: enrichment that `validate` refuses stops before
/// anything is written; then the observation is created, and its cards,
/// tags and deck label are set in turn where the request has them, each at
/// the revision the last step left. The first failure is reported; at the
/// end, the detail at its revision.
pub open spec fn observation_saved<C, T, V, N, K, G, L>(
    request: SaveObservationRequest<C>,
    validate: V,
    create: N,
    set_cards: K,
    set_tags: G,
    set_label: L,
    r: CommandResult<T>,
) -> bool where
    V: FnOnce(&SaveObservationRequest<C>) -> Result<(), RepoError>,
    N: FnOnce(EntityId, String) -> Result<(T, String, u64), RepoError>,
    K: FnOnce(EntityId, Revision, Vec<C>) -> Result<(T, String, u64), RepoError>,
    G: FnOnce(EntityId, Revision, Vec<String>) -> Result<(T, String, u64), RepoError>,
    L: FnOnce(EntityId, Revision, Option<String>) -> Result<(T, String, u64), RepoError>,
 {
    exists|checked: Result<(), RepoError>|
        #[trigger] validate.ensures((&request,), checked) && match checked {
            Err(e) => fails_with_repo(r, e),
            Ok(()) => exists|id: EntityId, made: Result<(T, String, u64), RepoError>|
                id@ == request.encounter_id@ && #[trigger] create.ensures((id, request.text), made)
                    && match made {
                    Err(e) => fails_with_repo(r, e),
                    Ok(d0) => exists|s1: Result<(T, String, u64), RepoError>|
                        #[trigger] observation_step(nonempty(request.cards@), set_cards, d0, request.cards, s1)
                            && match s1 {
                            Err(e) => fails_with_repo(r, e),
                            Ok(d1) => exists|s2: Result<(T, String, u64), RepoError>|
                                #[trigger] observation_step(nonempty(request.tags@), set_tags, d1, request.tags, s2)
                                    && match s2 {
                                    Err(e) => fails_with_repo(r, e),
                                    Ok(d2) => exists|s3: Result<(T, String, u64), RepoError>|
                                        #[trigger] observation_step(
                                            present(request.user_deck_label),
                                            set_label,
                                            d2,
                                            request.user_deck_label,
                                            s3,
                                        ) && match s3 {
                                            Err(e) => fails_with_repo(r, e),
                                            Ok(d3) => r == (CommandResult::Success { ok: true, data: d3.0, revision: d3.2 }),
                                        },
                                },
                        },
                },
        }
}

/// The reply to a request to save an observation: the main and capture
/// windows may save, with a key, for a valid encounter id.
pub open spec fn observation_reply<C, T, V, N, K, G, L>(
    caller: CallerIdentity,
    request: SaveObservationRequest<C>,
    validate: V,
    create: N,
    set_cards: K,
    set_tags: G,
    set_label: L,
    r: CommandResult<T>,
) -> bool where
    V: FnOnce(&SaveObservationRequest<C>) -> Result<(), RepoError>,
    N: FnOnce(EntityId, String) -> Result<(T, String, u64), RepoError>,
    K: FnOnce(EntityId, Revision, Vec<C>) -> Result<(T, String, u64), RepoError>,
    G: FnOnce(EntityId, Revision, Vec<String>) -> Result<(T, String, u64), RepoError>,
    L: FnOnce(EntityId, Revision, Option<String>) -> Result<(T, String, u64), RepoError>,
 {
    &&& caller != CallerIdentity::Main && caller != CallerIdentity::Capture ==> refuses_caller(r)
    &&& caller == CallerIdentity::Main || caller == CallerIdentity::Capture ==> {
        &&& !valid_id(request.idempotency_key@) ==> refuses_key(r)
        &&& valid_id(request.idempotency_key@) && !valid_id(request.encounter_id@) ==> fails_with_repo(
            r,
            RepoError::InvalidRequest,
        )
        &&& valid_id(request.idempotency_key@) && valid_id(request.encounter_id@) ==> observation_saved(
            request,
            validate,
            create,
            set_cards,
            set_tags,
            set_label,
            r,
        )
    }
}

/// Saves a new observation with its enrichment (main or capture window,
/// with a key).
pub fn save_observation_for<C, T, V, N, K, G, L>(
    caller: CallerIdentity,
    request: SaveObservationRequest<C>,
    validate: V,
    create: N,
    set_cards: K,
    set_tags: G,
    set_label: L,
) -> (r: CommandResult<T>) where
    V: FnOnce(&SaveObservationRequest<C>) -> Result<(), RepoError>,
    N: FnOnce(EntityId, String) -> Result<(T, String, u64), RepoError>,
    K: FnOnce(EntityId, Revision, Vec<C>) -> Result<(T, String, u64), RepoError>,
    G: FnOnce(EntityId, Revision, Vec<String>) -> Result<(T, String, u64), RepoError>,
    L: FnOnce(EntityId, Revision, Option<String>) -> Result<(T, String, u64), RepoError>,
    requires
        forall|q: &SaveObservationRequest<C>| #[trigger] validate.requires((q,)),
        forall|id: EntityId, t: String| #[trigger] create.requires((id, t)),
        forall|id: EntityId, v: Revision, x: Vec<C>| #[trigger] set_cards.requires((id, v, x)),
        forall|id: EntityId, v: Revision, x: Vec<String>| #[trigger] set_tags.requires((id, v, x)),
        forall|id: EntityId, v: Revision, x: Option<String>| #[trigger] set_label.requires((id, v, x)),
    ensures
        observation_reply(caller, request, validate, create, set_cards, set_tags, set_label, r),
{
    if let Err(error) = caller.require(&[CallerIdentity::Main, CallerIdentity::Capture]) {
        return CommandResult::failure(error);
    }
    if let Err(error) = require_idempotency_key(request.idempotency_key.as_str()) {
        return CommandResult::failure(error);
    }
    let encounter_id = match EntityId::parse(request.encounter_id.as_str()) {
        Ok(id) => id,
        Err(error) => {
            return CommandResult::failure(error.to_app_error());
        },
    };
    let ghost req = request;
    let checked = validate(&request);
    assert(validate.ensures((&req,), checked));
    if let Err(error) = checked {
        return CommandResult::failure(error.to_app_error());
    }
    let SaveObservationRequest { encounter_id: _, text, cards, tags, user_deck_label, idempotency_key: _ } =
        request;
    let made = create(encounter_id, text);
    assert(create.ensures((encounter_id, req.text), made));
    let d0 = match made {
        Ok(d) => d,
        Err(error) => {
            return CommandResult::failure(error.to_app_error());
        },
    };
    let has_cards = cards.len() > 0;
    let s1 = observation_step_run(has_cards, d0, cards, set_cards);
    let ghost g1 = s1;
    assert(observation_step(nonempty(req.cards@), set_cards, d0, req.cards, g1));
    let d1 = match s1 {
        Ok(d) => d,
        Err(error) => {
            return CommandResult::failure(error.to_app_error());
        },
    };
    let has_tags = tags.len() > 0;
    let s2 = observation_step_run(has_tags, d1, tags, set_tags);
    let ghost g2 = s2;
    assert(observation_step(nonempty(req.tags@), set_tags, d1, req.tags, g2));
    let d2 = match s2 {
        Ok(d) => d,
        Err(error) => {
            return CommandResult::failure(error.to_app_error());
        },
    };
    let has_label = user_deck_label.is_some();
    let s3 = observation_step_run(has_label, d2, user_deck_label, set_label);
    let ghost g3 = s3;
    assert(observation_step(present(req.user_deck_label), set_label, d2, req.user_deck_label, g3));
    match s3 {
        Ok(d3) => {
            let (detail, _, revision) = d3;
            CommandResult::success(detail, revision)
        },
        Err(error) => CommandResult::failure(error.to_app_error()),
    }
}

/// Saves an observation; from the capture window the typed text is first
/// kept as an encrypted draft by `preserve`, and the draft is removed by
/// `complete` only once the observation is saved. A draft that cannot be
/// kept stops the save; a save that fails leaves the draft.
pub fn save_observation_with_capture_for<C, T, V, N, K, G, L, P, Q>(
    caller: CallerIdentity,
    request: SaveObservationRequest<C>,
    validate: V,
    create: N,
    set_cards: K,
    set_tags: G,
    set_label: L,
    preserve: P,
    complete: Q,
) -> (r: CommandResult<T>) where
    V: FnOnce(&SaveObservationRequest<C>) -> Result<(), RepoError>,
    N: FnOnce(EntityId, String) -> Result<(T, String, u64), RepoError>,
    K: FnOnce(EntityId, Revision, Vec<C>) -> Result<(T, String, u64), RepoError>,
    G: FnOnce(EntityId, Revision, Vec<String>) -> Result<(T, String, u64), RepoError>,
    L: FnOnce(EntityId, Revision, Option<String>) -> Result<(T, String, u64), RepoError>,
    P: FnOnce(EntityId, &String) -> Result<(), RepoError>,
    Q: FnOnce(EntityId) -> Result<(), RepoError>,
    requires
        forall|q: &SaveObservationRequest<C>| #[trigger] validate.requires((q,)),
        forall|id: EntityId, t: String| #[trigger] create.requires((id, t)),
        forall|id: EntityId, v: Revision, x: Vec<C>| #[trigger] set_cards.requires((id, v, x)),
        forall|id: EntityId, v: Revision, x: Vec<String>| #[trigger] set_tags.requires((id, v, x)),
        forall|id: EntityId, v: Revision, x: Option<String>| #[trigger] set_label.requires((id, v, x)),
        forall|id: EntityId, t: &String| #[trigger] preserve.requires((id, t)),
        forall|id: EntityId| #[trigger] complete.requires((id,)),
    ensures
        caller != CallerIdentity::Capture ==> observation_reply(
            caller,
            request,
            validate,
            create,
            set_cards,
            set_tags,
            set_label,
            r,
        ),
        caller == CallerIdentity::Capture && !valid_id(request.encounter_id@) ==> fails_with_repo(
            r,
            RepoError::InvalidRequest,
        ),
        caller == CallerIdentity::Capture && valid_id(request.encounter_id@) ==> exists|
            id: EntityId,
            kept: Result<(), RepoError>,
        |
            id@ == request.encounter_id@ && #[trigger] preserve.ensures((id, &request.text), kept) && match kept {
                Err(e) => fails_with_repo(r, e),
                Ok(()) => exists|saved: CommandResult<T>|
                    #[trigger] observation_reply(
                        caller,
                        request,
                        validate,
                        create,
                        set_cards,
                        set_tags,
                        set_label,
                        saved,
                    ) && if saved is Success {
                        exists|done: Result<(), RepoError>|
                            #[trigger] complete.ensures((id,), done) && match done {
                                Err(e) => fails_with_repo(r, e),
                                Ok(()) => r == saved,
                            }
                    } else {
                        r == saved
                    },
            },
{
    if caller != CallerIdentity::Capture {
        return save_observation_for(caller, request, validate, create, set_cards, set_tags, set_label);
    }
    let encounter_id = match EntityId::parse(request.encounter_id.as_str()) {
        Ok(id) => id,
        Err(error) => {
            return CommandResult::failure(error.to_app_error());
        },
    };
    let kept = preserve(encounter_id.clone(), &request.text);
    assert(preserve.ensures((encounter_id, &request.text), kept));
    if let Err(error) = kept {
        return CommandResult::failure(error.to_app_error());
    }
    let ghost req = request;
    let saved = save_observation_for(caller, request, validate, create, set_cards, set_tags, set_label);
    assert(observation_reply(caller, req, validate, create, set_cards, set_tags, set_label, saved));
    if saved.is_success() {
        let done = complete(encounter_id);
        assert(complete.ensures((encounter_id,), done));
        if let Err(error) = done {
            return CommandResult::failure(error.to_app_error());
        }
    }
    saved
}

} // verus!
