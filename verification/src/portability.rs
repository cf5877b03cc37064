//! The portability runtime: destinations and sources the user picked, staged
//! restore previews awaiting confirmation, rollback confirmations, and the
//! cancellation handle of each running backup, restore or export.
//!
//! Whatever touches the file system (whether a picked path is a file, the
//! staging databases of a discarded preview) is read or done by the caller;
//! this runtime keeps the state and makes the decisions.
use vstd::prelude::*;

use crate::archive::ARCHIVE_EXTENSION;
use crate::domain::{EntityId, RepoError, UtcMillis};
use crate::keyed::KeyedMap;
use crate::operations::{CancellationToken, OperationCoordinator};
use crate::restore::StagedRestore;
use crate::text::str_eq;

verus! {

/// How long a picked path may be used.
pub const SELECTION_TTL_MS: i64 = 600000;

/// How long a rollback confirmation may be used.
pub const ROLLBACK_CONFIRMATION_TTL_MS: i64 = 300000;

#[derive(Clone, Copy, Debug, PartialEq, Eq, Structural)]
pub enum SelectionPurpose {
    BackupDestination,
    RestoreSource,
    ExportDestination,
}

/// What the caller read off a picked path: its file name and extension as
/// text (`None` where the path has none, or it is not Unicode), whether it
/// names an existing file, and whether its parent is an existing directory.
#[derive(Debug, PartialEq, Eq)]
pub struct PathFacts {
    pub file_name: Option<String>,
    pub extension: Option<String>,
    pub is_file: bool,
    pub parent_is_dir: bool,
}

/// The extension a path picked for `purpose` must have.
pub open spec fn expected_extension(purpose: SelectionPurpose) -> Seq<char> {
    match purpose {
        SelectionPurpose::ExportDestination => "txt"@,
        _ => ARCHIVE_EXTENSION@,
    }
}

/// Why a picked path is refused, if it is: the wrong extension or no file
/// name, a restore source that is not a file, or a destination whose
/// directory does not exist.
pub open spec fn selection_refusal(purpose: SelectionPurpose, facts: PathFacts) -> Option<RepoError> {
    if !(facts.extension matches Some(e) && e@ == expected_extension(purpose))
        || facts.file_name is None {
        Some(RepoError::InvalidRequest)
    } else if purpose == SelectionPurpose::RestoreSource && !facts.is_file {
        Some(RepoError::NotFound)
    } else if purpose != SelectionPurpose::RestoreSource && !facts.parent_is_dir {
        Some(RepoError::DestinationUnwritable)
    } else {
        None
    }
}

pub fn validate_selected_path(purpose: SelectionPurpose, facts: &PathFacts) -> (r: Result<
    (),
    RepoError,
>)
    ensures
        match selection_refusal(purpose, *facts) {
            Some(e) => r == Err::<(), RepoError>(e),
            None => r is Ok,
        },
{
    let expected: &str = match purpose {
        SelectionPurpose::ExportDestination => "txt",
        _ => ARCHIVE_EXTENSION,
    };
    let extension_ok = match &facts.extension {
        Some(e) => str_eq(e.as_str(), expected),
        None => false,
    };
    if !extension_ok || facts.file_name.is_none() {
        return Err(RepoError::InvalidRequest);
    }
    match purpose {
        SelectionPurpose::RestoreSource => {
            if !facts.is_file {
                return Err(RepoError::NotFound);
            }
        },
        _ => {
            if !facts.parent_is_dir {
                return Err(RepoError::DestinationUnwritable);
            }
        },
    }
    Ok(())
}

/// A path the user picked, handed to the renderer by its token.
#[derive(Debug, PartialEq, Eq)]
pub struct PathSelection {
    pub token: String,
    pub purpose: SelectionPurpose,
    pub display_name: String,
    pub expires_at: UtcMillis,
    /// The picked path itself, which the renderer never sees.
    pub path: String,
}

impl Clone for PathSelection {
    fn clone(&self) -> (r: Self)
        ensures
            r == *self,
    {
        PathSelection {
            token: self.token.clone(),
            purpose: self.purpose,
            display_name: self.display_name.clone(),
            expires_at: self.expires_at,
            path: self.path.clone(),
        }
    }
}

/// `base + ttl`, where that is a valid time.
pub open spec fn expiry(base: UtcMillis, ttl: i64) -> Option<UtcMillis> {
    if 0 <= base.0 + ttl <= i64::MAX {
        Some(UtcMillis((base.0 + ttl) as i64))
    } else {
        None
    }
}

fn expiry_after(base: UtcMillis, ttl: i64) -> (r: Result<UtcMillis, RepoError>)
    requires
        ttl >= 0,
    ensures
        expiry(base, ttl) matches Some(t) ==> r == Ok::<UtcMillis, RepoError>(t),
        expiry(base, ttl) is None ==> r == Err::<UtcMillis, RepoError>(RepoError::InvalidRequest),
{
    match base.get().checked_add(ttl) {
        Some(t) => UtcMillis::new(t),
        None => Err(RepoError::InvalidRequest),
    }
}

pub struct PortabilityRuntime {
    pub coordinator: OperationCoordinator,
    pub selections: KeyedMap<PathSelection>,
    pub previews: KeyedMap<StagedRestore>,
    pub rollback_confirmations: KeyedMap<(String, UtcMillis)>,
    pub cancellations: KeyedMap<CancellationToken>,
}

impl PortabilityRuntime {
    pub open spec fn wf(&self) -> bool {
        &&& self.coordinator.wf()
        &&& self.selections.wf()
        &&& self.previews.wf()
        &&& self.rollback_confirmations.wf()
        &&& self.cancellations.wf()
    }

    /// Picked paths by token.
    pub open spec fn selections(&self) -> Map<Seq<char>, PathSelection> {
        self.selections.map()
    }

    /// Staged restores by preview token.
    pub open spec fn previews(&self) -> Map<Seq<char>, StagedRestore> {
        self.previews.map()
    }

    /// Rollback confirmations by token: the rollback and when the
    /// confirmation expires.
    pub open spec fn confirmations(&self) -> Map<Seq<char>, (String, UtcMillis)> {
        self.rollback_confirmations.map()
    }

    /// Cancellation handles by operation identifier.
    pub open spec fn cancellations(&self) -> Map<Seq<char>, CancellationToken> {
        self.cancellations.map()
    }

    pub fn new() -> (r: Self)
        ensures
            r.wf(),
            r.selections() == Map::<Seq<char>, PathSelection>::empty(),
            r.previews() == Map::<Seq<char>, StagedRestore>::empty(),
            r.confirmations() == Map::<Seq<char>, (String, UtcMillis)>::empty(),
            r.cancellations() == Map::<Seq<char>, CancellationToken>::empty(),
            r.coordinator.view().snapshots == 0,
            !r.coordinator.view().exclusive,
            r.coordinator.view().claimed == Set::<Seq<char>>::empty(),
            forall|id: Seq<char>| r.coordinator.operation(id) is None,
            forall|t: CancellationToken| r.coordinator.token_state(t) is None,
    {
        PortabilityRuntime {
            coordinator: OperationCoordinator::new(),
            selections: KeyedMap::new(),
            previews: KeyedMap::new(),
            rollback_confirmations: KeyedMap::new(),
            cancellations: KeyedMap::new(),
        }
    }

    /// Records a picked path under `token`, valid until `now` plus
    /// [`SELECTION_TTL_MS`].
    pub fn register_selection_at(
        &mut self,
        purpose: SelectionPurpose,
        path: String,
        facts: PathFacts,
        token: String,
        now: UtcMillis,
    ) -> (r: Result<PathSelection, RepoError>)
        requires
            old(self).wf(),
        ensures
            final(self).wf(),
            final(self).coordinator == old(self).coordinator,
            final(self).previews() == old(self).previews(),
            final(self).confirmations() == old(self).confirmations(),
            final(self).cancellations() == old(self).cancellations(),
            selection_refusal(purpose, facts) matches Some(e) ==> r == Err::<PathSelection, RepoError>(e),
            selection_refusal(purpose, facts) is None && expiry(now, SELECTION_TTL_MS) is None ==> r
                == Err::<PathSelection, RepoError>(RepoError::InvalidRequest),
            r is Err ==> final(self).selections() == old(self).selections(),
            selection_refusal(purpose, facts) is None && expiry(now, SELECTION_TTL_MS) is Some ==> (
            r matches Ok(s) && s.token@ == token@ && s.purpose == purpose && s.display_name@
                == facts.file_name->0@ && Some(s.expires_at) == expiry(now, SELECTION_TTL_MS)
                && s.path@ == path@ && final(self).selections() == old(self).selections().insert(
                token@,
                s,
            )),
    {
        validate_selected_path(purpose, &facts)?;
        let expires_at = expiry_after(now, SELECTION_TTL_MS)?;
        let display_name = match facts.file_name {
            Some(name) => name,
            None => {
                return Err(RepoError::InvalidRequest);
            },
        };
        let selection = PathSelection { token: token.clone(), purpose, display_name, expires_at, path };
        self.selections.insert(token, selection.clone());
        Ok(selection)
    }

    /// Records a picked path under a fresh token, valid for
    /// [`SELECTION_TTL_MS`] from now.
    pub fn register_selection(&mut self, purpose: SelectionPurpose, path: String, facts: PathFacts) -> (r:
        Result<PathSelection, RepoError>)
        requires
            old(self).wf(),
        ensures
            final(self).wf(),
            final(self).coordinator == old(self).coordinator,
            final(self).previews() == old(self).previews(),
            final(self).confirmations() == old(self).confirmations(),
            final(self).cancellations() == old(self).cancellations(),
            selection_refusal(purpose, facts) matches Some(e) ==> r == Err::<PathSelection, RepoError>(e),
            r is Err ==> final(self).selections() == old(self).selections(),
            r matches Ok(s) ==> s.purpose == purpose && s.display_name@ == facts.file_name->0@
                && s.path@ == path@ && final(self).selections() == old(self).selections().insert(
                s.token@,
                s,
            ),
    {
        validate_selected_path(purpose, &facts)?;
        let token = EntityId::new()?;
        let now = UtcMillis::now();
        self.register_selection_at(purpose, path, facts, token.to_string(), now)
    }

    /// Hands out a picked path once: the token is spent whatever the
    /// outcome, and the path comes back only for the purpose it was picked
    /// for and before it expired.
    pub fn resolve_selection_at(&mut self, token: &str, purpose: SelectionPurpose, now: UtcMillis) -> (r:
        Result<String, RepoError>)
        requires
            old(self).wf(),
        ensures
            final(self).wf(),
            final(self).coordinator == old(self).coordinator,
            final(self).previews() == old(self).previews(),
            final(self).confirmations() == old(self).confirmations(),
            final(self).cancellations() == old(self).cancellations(),
            final(self).selections() == old(self).selections().remove(token@),
            !old(self).selections().contains_key(token@) ==> r == Err::<String, RepoError>(
                RepoError::InvalidRequest,
            ),
            old(self).selections().contains_key(token@) ==> ({
                let s = old(self).selections()[token@];
                if s.purpose != purpose || s.expires_at.0 < now.0 {
                    r == Err::<String, RepoError>(RepoError::InvalidRequest)
                } else {
                    r matches Ok(p) && p@ == s.path@
                }
            }),
    {
        let selection = match self.selections.remove(token) {
            Some(s) => s,
            None => {
                return Err(RepoError::InvalidRequest);
            },
        };
        if selection.purpose != purpose || selection.expires_at.get() < now.get() {
            return Err(RepoError::InvalidRequest);
        }
        Ok(selection.path)
    }

    /// [`Self::resolve_selection_at`] at the current time.
    pub fn resolve_selection(&mut self, token: &str, purpose: SelectionPurpose) -> (r: Result<
        String,
        RepoError,
    >)
        requires
            old(self).wf(),
        ensures
            final(self).wf(),
            final(self).coordinator == old(self).coordinator,
            final(self).previews() == old(self).previews(),
            final(self).confirmations() == old(self).confirmations(),
            final(self).cancellations() == old(self).cancellations(),
            final(self).selections() == old(self).selections().remove(token@),
            !old(self).selections().contains_key(token@) ==> r == Err::<String, RepoError>(
                RepoError::InvalidRequest,
            ),
            old(self).selections().contains_key(token@) && old(self).selections()[token@].purpose
                != purpose ==> r == Err::<String, RepoError>(RepoError::InvalidRequest),
            r matches Ok(p) ==> old(self).selections().contains_key(token@) && p@ == old(
                self,
            ).selections()[token@].path@,
    {
        let now = UtcMillis::now();
        self.resolve_selection_at(token, purpose, now)
    }

    /// Keeps a staged restore under its preview token.
    pub fn store_preview(&mut self, staged: StagedRestore) -> (r: Result<(), RepoError>)
        requires
            old(self).wf(),
        ensures
            final(self).wf(),
            r is Ok,
            final(self).coordinator == old(self).coordinator,
            final(self).selections() == old(self).selections(),
            final(self).confirmations() == old(self).confirmations(),
            final(self).cancellations() == old(self).cancellations(),
            final(self).previews() == old(self).previews().insert(staged.preview.token@, staged),
    {
        let token = staged.preview.token.clone();
        self.previews.insert(token, staged);
        Ok(())
    }

    /// Takes a staged restore out by its preview token.
    pub fn take_preview(&mut self, token: &str) -> (r: Result<StagedRestore, RepoError>)
        requires
            old(self).wf(),
        ensures
            final(self).wf(),
            final(self).coordinator == old(self).coordinator,
            final(self).selections() == old(self).selections(),
            final(self).confirmations() == old(self).confirmations(),
            final(self).cancellations() == old(self).cancellations(),
            final(self).previews() == old(self).previews().remove(token@),
            old(self).previews().contains_key(token@) ==> r == Ok::<StagedRestore, RepoError>(
                old(self).previews()[token@],
            ),
            !old(self).previews().contains_key(token@) ==> r == Err::<StagedRestore, RepoError>(
                RepoError::InvalidRequest,
            ),
    {
        match self.previews.remove(token) {
            Some(s) => Ok(s),
            None => Err(RepoError::InvalidRequest),
        }
    }

    /// Takes out the staged restore of an operation, if one is waiting; the
    /// caller discards its staging files.
    pub fn discard_preview_for_operation(&mut self, operation_id: &str) -> (r: Option<StagedRestore>)
        requires
            old(self).wf(),
        ensures
            final(self).wf(),
            final(self).coordinator == old(self).coordinator,
            final(self).selections() == old(self).selections(),
            final(self).confirmations() == old(self).confirmations(),
            final(self).cancellations() == old(self).cancellations(),
            r is None ==> final(self).previews() == old(self).previews() && forall|k: Seq<char>|
                #[trigger] old(self).previews().contains_key(k) ==> old(self).previews()[k].preview.operation.id@
                    != operation_id@,
            r matches Some(s) ==> s.preview.operation.id@ == operation_id@ && exists|k: Seq<char>|
                #[trigger] old(self).previews().contains_key(k) && old(self).previews()[k] == s
                    && final(self).previews() == old(self).previews().remove(k),
    {
        let keys = self.previews.keys();
        let mut i: usize = 0;
        while i < keys.len()
            invariant
                self.wf(),
                self.previews.wf(),
                i <= keys@.len(),
                *self == *old(self),
                forall|k: Seq<char>| self.previews.map().contains_key(k) <==> exists|j: int|
                    0 <= j < keys@.len() && #[trigger] keys@[j]@ == k,
                forall|j: int|
                    0 <= j < i ==> self.previews.map()[#[trigger] keys@[j]@].preview.operation.id@
                        != operation_id@,
            decreases keys.len() - i,
        {
            let matches = match self.previews.get(keys[i].as_str()) {
                Some(staged) => str_eq(staged.preview.operation.id.as_str(), operation_id),
                None => false,
            };
            if matches {
                let ghost k = keys@[i as int]@;
                let removed = self.previews.remove(keys[i].as_str());
                return removed;
            }
            i = i + 1;
        }
        proof {
            assert forall|k: Seq<char>| #[trigger] self.previews.map().contains_key(k) implies self.previews.map()[k].preview.operation.id@
                != operation_id@ by {
                let j = choose|j: int| 0 <= j < keys@.len() && #[trigger] keys@[j]@ == k;
                assert(self.previews.map()[keys@[j]@].preview.operation.id@ != operation_id@);
            }
        }
        None
    }

    /// Issues a confirmation for an existing rollback, valid until `now`
    /// plus [`ROLLBACK_CONFIRMATION_TTL_MS`].
    pub fn confirm_rollback_at(
        &mut self,
        rollback_id: &str,
        exists: bool,
        token: String,
        now: UtcMillis,
    ) -> (r: Result<(String, UtcMillis), RepoError>)
        requires
            old(self).wf(),
        ensures
            final(self).wf(),
            final(self).coordinator == old(self).coordinator,
            final(self).selections() == old(self).selections(),
            final(self).previews() == old(self).previews(),
            final(self).cancellations() == old(self).cancellations(),
            !exists ==> r == Err::<(String, UtcMillis), RepoError>(RepoError::NotFound),
            exists && expiry(now, ROLLBACK_CONFIRMATION_TTL_MS) is None ==> r == Err::<
                (String, UtcMillis),
                RepoError,
            >(RepoError::InvalidRequest),
            r is Err ==> final(self).confirmations() == old(self).confirmations(),
            exists && expiry(now, ROLLBACK_CONFIRMATION_TTL_MS) is Some ==> ({
                let t = expiry(now, ROLLBACK_CONFIRMATION_TTL_MS)->0;
                &&& r matches Ok(c) && c.0@ == token@ && c.1 == t
                &&& final(self).confirmations().contains_key(token@)
                &&& final(self).confirmations()[token@].0@ == rollback_id@
                &&& final(self).confirmations()[token@].1 == t
                &&& final(self).confirmations().remove(token@) == old(self).confirmations().remove(token@)
            }),
    {
        if !exists {
            return Err(RepoError::NotFound);
        }
        let expires_at = expiry_after(now, ROLLBACK_CONFIRMATION_TTL_MS)?;
        let id = crate::text::copy_string(rollback_id);
        self.rollback_confirmations.insert(token.clone(), (id, expires_at));
        proof {
            assert(self.confirmations().remove(token@) =~= old(self).confirmations().remove(token@));
        }
        Ok((token, expires_at))
    }

    /// [`Self::confirm_rollback_at`] under a fresh token, from now.
    pub fn confirm_rollback(&mut self, rollback_id: &str, exists: bool) -> (r: Result<
        (String, UtcMillis),
        RepoError,
    >)
        requires
            old(self).wf(),
        ensures
            final(self).wf(),
            final(self).coordinator == old(self).coordinator,
            final(self).selections() == old(self).selections(),
            final(self).previews() == old(self).previews(),
            final(self).cancellations() == old(self).cancellations(),
            !exists ==> r == Err::<(String, UtcMillis), RepoError>(RepoError::NotFound),
            r is Err ==> final(self).confirmations() == old(self).confirmations(),
            r matches Ok(c) ==> final(self).confirmations().contains_key(c.0@)
                && final(self).confirmations()[c.0@].0@ == rollback_id@
                && final(self).confirmations()[c.0@].1 == c.1 && final(self).confirmations().remove(
                c.0@,
            ) == old(self).confirmations().remove(c.0@),
    {
        if !exists {
            return Err(RepoError::NotFound);
        }
        let token = EntityId::new()?;
        let now = UtcMillis::now();
        self.confirm_rollback_at(rollback_id, exists, token.to_string(), now)
    }

    /// Spends a rollback confirmation: the token is gone whatever the
    /// outcome, and it confirms only the rollback it was issued for, before
    /// it expired.
    pub fn consume_rollback_confirmation_at(&mut self, token: &str, rollback_id: &str, now: UtcMillis) -> (r:
        Result<(), RepoError>)
        requires
            old(self).wf(),
        ensures
            final(self).wf(),
            final(self).coordinator == old(self).coordinator,
            final(self).selections() == old(self).selections(),
            final(self).previews() == old(self).previews(),
            final(self).cancellations() == old(self).cancellations(),
            final(self).confirmations() == old(self).confirmations().remove(token@),
            r is Ok <==> (old(self).confirmations().contains_key(token@) && old(
                self,
            ).confirmations()[token@].0@ == rollback_id@ && !(old(self).confirmations()[token@].1.0
                < now.0)),
            r is Err ==> r == Err::<(), RepoError>(RepoError::InvalidRequest),
    {
        let (confirmed_id, expires_at) = match self.rollback_confirmations.remove(token) {
            Some(c) => c,
            None => {
                return Err(RepoError::InvalidRequest);
            },
        };
        if !str_eq(confirmed_id.as_str(), rollback_id) || expires_at.get() < now.get() {
            return Err(RepoError::InvalidRequest);
        }
        Ok(())
    }

    /// [`Self::consume_rollback_confirmation_at`] at the current time.
    pub fn consume_rollback_confirmation(&mut self, token: &str, rollback_id: &str) -> (r: Result<
        (),
        RepoError,
    >)
        requires
            old(self).wf(),
        ensures
            final(self).wf(),
            final(self).coordinator == old(self).coordinator,
            final(self).selections() == old(self).selections(),
            final(self).previews() == old(self).previews(),
            final(self).cancellations() == old(self).cancellations(),
            final(self).confirmations() == old(self).confirmations().remove(token@),
            r is Ok ==> old(self).confirmations().contains_key(token@) && old(
                self,
            ).confirmations()[token@].0@ == rollback_id@,
            !(old(self).confirmations().contains_key(token@) && old(self).confirmations()[token@].0@
                == rollback_id@) ==> r == Err::<(), RepoError>(RepoError::InvalidRequest),
            r is Err ==> r == Err::<(), RepoError>(RepoError::InvalidRequest),
    {
        let now = UtcMillis::now();
        self.consume_rollback_confirmation_at(token, rollback_id, now)
    }

    /// Keeps the cancellation handle of a running operation.
    pub fn register_cancellation(&mut self, operation_id: &str, cancellation: CancellationToken) -> (r:
        Result<(), RepoError>)
        requires
            old(self).wf(),
        ensures
            final(self).wf(),
            r is Ok,
            final(self).coordinator == old(self).coordinator,
            final(self).selections() == old(self).selections(),
            final(self).previews() == old(self).previews(),
            final(self).confirmations() == old(self).confirmations(),
            final(self).cancellations() == old(self).cancellations().insert(
                operation_id@,
                cancellation,
            ),
    {
        let id = crate::text::copy_string(operation_id);
        self.cancellations.insert(id, cancellation);
        Ok(())
    }

    /// Requests cancellation of a running operation through its handle.
    pub fn cancel(&mut self, operation_id: &str) -> (r: Result<(), RepoError>)
        requires
            old(self).wf(),
        ensures
            final(self).wf(),
            final(self).selections() == old(self).selections(),
            final(self).previews() == old(self).previews(),
            final(self).confirmations() == old(self).confirmations(),
            final(self).cancellations() == old(self).cancellations(),
            final(self).coordinator.view() == old(self).coordinator.view(),
            forall|id: Seq<char>| final(self).coordinator.operation(id) == old(self).coordinator.operation(id),
            !old(self).cancellations().contains_key(operation_id@) ==> r == Err::<(), RepoError>(
                RepoError::NotFound,
            ) && final(self).coordinator == old(self).coordinator,
            old(self).cancellations().contains_key(operation_id@) ==> ({
                let t = old(self).cancellations()[operation_id@];
                &&& forall|o: CancellationToken|
                    o.id != t.id ==> final(self).coordinator.token_state(o) == old(
                        self,
                    ).coordinator.token_state(o)
                &&& match old(self).coordinator.token_state(t) {
                    None => r == Err::<(), RepoError>(RepoError::NotFound)
                        && final(self).coordinator.token_state(t) is None,
                    Some(s) => if s.safe_to_cancel {
                        r is Ok && final(self).coordinator.token_state(t) == Some(
                            crate::operations::CancellationState {
                                cancelled: true,
                                safe_to_cancel: true,
                            },
                        )
                    } else {
                        r == Err::<(), RepoError>(RepoError::CancelUnsafe)
                            && final(self).coordinator.token_state(t) == Some(s)
                    },
                }
            }),
    {
        let token = match self.cancellations.get(operation_id) {
            Some(t) => *t,
            None => {
                return Err(RepoError::NotFound);
            },
        };
        self.coordinator.cancel(token)
    }

    /// Forgets the cancellation handle of a finished operation.
    pub fn remove_cancellation(&mut self, operation_id: &str)
        requires
            old(self).wf(),
        ensures
            final(self).wf(),
            final(self).coordinator == old(self).coordinator,
            final(self).selections() == old(self).selections(),
            final(self).previews() == old(self).previews(),
            final(self).confirmations() == old(self).confirmations(),
            final(self).cancellations() == old(self).cancellations().remove(operation_id@),
    {
        let _ = self.cancellations.remove(operation_id);
    }
}

/// The temporary file a destination is written to before it is published.
pub fn partial_path(final_path: &str) -> (r: String)
    ensures
        r@ == final_path@ + ".partial"@,
{
    let mut value = crate::text::copy_string(final_path);
    value.append(".partial");
    value
}

/// A picked path is handed out once: once its token was spent, resolving
/// it again is refused, whatever the purpose and time.
pub proof fn law_selection_is_single_use(
    before: PortabilityRuntime,
    after: PortabilityRuntime,
    token: Seq<char>,
)
    requires
        after.selections() == before.selections().remove(token),
    ensures
        !after.selections().contains_key(token),
{
}

/// A rollback confirmation is spent by its first use: after that, it
/// confirms nothing.
pub proof fn law_rollback_confirmation_is_single_use(
    before: PortabilityRuntime,
    after: PortabilityRuntime,
    token: Seq<char>,
)
    requires
        after.confirmations() == before.confirmations().remove(token),
    ensures
        !after.confirmations().contains_key(token),
{
}

/// A staged restore is taken at most once: after it was taken, its token
/// names no preview.
pub proof fn law_preview_is_taken_once(
    before: PortabilityRuntime,
    after: PortabilityRuntime,
    token: Seq<char>,
)
    requires
        after.previews() == before.previews().remove(token),
    ensures
        !after.previews().contains_key(token),
{
}

/// A path is refused for a purpose unless it has the purpose's extension:
/// a backup or restore needs the archive extension, an export `txt`.
pub proof fn law_selection_needs_purpose_extension(purpose: SelectionPurpose, facts: PathFacts)
    requires
        !(facts.extension matches Some(e) && e@ == expected_extension(purpose)),
    ensures
        selection_refusal(purpose, facts) == Some(RepoError::InvalidRequest),
{
}

} // verus!
