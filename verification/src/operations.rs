//! Long-running notebook operations: their recorded lifecycle, and the
//! coordinator that lets snapshots share the notebook while anything that
//! mutates it runs alone.
use vstd::prelude::*;

use crate::domain::{EntityId, IdempotencyKey, RepoError, Revision, UtcMillis};
use crate::text::str_eq;

verus! {

#[derive(Clone, Copy, Debug, PartialEq, Eq, Structural)]
pub enum OperationKind {
    BackupSnapshot,
    ExportSnapshot,
    Migration,
    RestoreMerge,
    RestoreReplace,
    Purge,
    RollbackApply,
}

impl OperationKind {
    pub open spec fn spec_is_snapshot(self) -> bool {
        self is BackupSnapshot || self is ExportSnapshot
    }

    /// Snapshot operations only read the notebook.
    pub fn is_snapshot(self) -> (r: bool)
        ensures
            r == self.spec_is_snapshot(),
    {
        matches!(self, OperationKind::BackupSnapshot | OperationKind::ExportSnapshot)
    }
}

#[derive(Clone, Copy, Debug, PartialEq, Eq, Structural)]
pub enum OperationState {
    Requested,
    Running,
    AwaitingConfirmation,
    Committing,
    Completed,
    Failed,
    Cancelled,
    Recoverable,
}

/// The lifecycle edges an operation may take.
pub open spec fn allowed_transition(from: OperationState, to: OperationState) -> bool {
    match (from, to) {
        (OperationState::Requested, OperationState::Running) => true,
        (OperationState::Running, OperationState::AwaitingConfirmation) => true,
        (OperationState::Running, OperationState::Committing) => true,
        (OperationState::AwaitingConfirmation, OperationState::Committing) => true,
        (OperationState::AwaitingConfirmation, OperationState::Cancelled) => true,
        (OperationState::AwaitingConfirmation, OperationState::Failed) => true,
        (OperationState::Committing, OperationState::Completed) => true,
        (OperationState::Committing, OperationState::Recoverable) => true,
        (OperationState::Committing, OperationState::Failed) => true,
        (OperationState::Running, OperationState::Completed) => true,
        (OperationState::Running, OperationState::Failed) => true,
        (OperationState::Running, OperationState::Cancelled) => true,
        _ => false,
    }
}

pub open spec fn is_terminal(state: OperationState) -> bool {
    state is Completed || state is Failed || state is Cancelled || state is Recoverable
}

/// `after` is `before` moved to `state`: its revision is the next one, a
/// terminal state stamps a completion time, and all else is kept.
pub open spec fn transitioned(before: OperationRecord, state: OperationState, after: OperationRecord) -> bool {
    &&& after == (OperationRecord {
        state,
        revision: Revision((before.revision.0 + 1) as u64),
        completed_at: after.completed_at,
        ..before
    })
    &&& if is_terminal(state) {
        after.completed_at is Some
    } else {
        after.completed_at == before.completed_at
    }
}

#[derive(Debug, PartialEq, Eq)]
pub struct OperationRecord {
    pub id: EntityId,
    pub kind: OperationKind,
    pub idempotency_key: IdempotencyKey,
    pub state: OperationState,
    pub requested_at: UtcMillis,
    pub completed_at: Option<UtcMillis>,
    pub completed: u64,
    pub total: u64,
    pub rollback_location: Option<String>,
    pub revision: Revision,
}

impl Clone for OperationRecord {
    fn clone(&self) -> (r: Self)
        ensures
            r == *self,
    {
        OperationRecord {
            id: self.id.clone(),
            kind: self.kind,
            idempotency_key: self.idempotency_key.clone(),
            state: self.state,
            requested_at: self.requested_at,
            completed_at: self.completed_at,
            completed: self.completed,
            total: self.total,
            rollback_location: match &self.rollback_location {
                Some(s) => Some(s.clone()),
                None => None,
            },
            revision: self.revision,
        }
    }
}

impl OperationRecord {
    /// A freshly requested operation under a new random identifier.
    pub fn requested(kind: OperationKind, idempotency_key: IdempotencyKey) -> (r: Result<
        Self,
        RepoError,
    >)
        ensures
            r matches Ok(rec) ==> rec.kind == kind && rec.idempotency_key == idempotency_key
                && rec.state == OperationState::Requested && rec.completed_at is None
                && rec.completed == 0 && rec.total == 0 && rec.rollback_location is None
                && rec.revision.0 == 1,
            r matches Err(e) ==> e == RepoError::KeyUnavailable,
    {
        let id = EntityId::new()?;
        Ok(Self::requested_with_id(id, kind, idempotency_key))
    }

    pub fn requested_with_id(
        id: EntityId,
        kind: OperationKind,
        idempotency_key: IdempotencyKey,
    ) -> (r: Self)
        ensures
            r.id == id,
            r.kind == kind,
            r.idempotency_key == idempotency_key,
            r.state == OperationState::Requested,
            r.requested_at.0 >= 0,
            r.completed_at is None,
            r.completed == 0,
            r.total == 0,
            r.rollback_location is None,
            r.revision.0 == 1,
    {
        OperationRecord {
            id,
            kind,
            idempotency_key,
            state: OperationState::Requested,
            requested_at: UtcMillis::now(),
            completed_at: None,
            completed: 0,
            total: 0,
            rollback_location: None,
            revision: Revision::initial(),
        }
    }

    /// Progress never moves backwards and never passes its total.
    pub fn update_progress(&mut self, completed: u64, total: u64) -> (r: Result<(), RepoError>)
        ensures
            (total < old(self).total || completed < old(self).completed || completed > total)
                ==> r == Err::<(), RepoError>(RepoError::InvalidRequest) && *final(self) == *old(
                self),
            !(total < old(self).total || completed < old(self).completed || completed > total)
                && old(self).revision.0 == u64::MAX ==> r == Err::<(), RepoError>(
                RepoError::InvalidRequest),
            !(total < old(self).total || completed < old(self).completed || completed > total)
                && old(self).revision.0 < u64::MAX ==> r is Ok && *final(self) == (OperationRecord {
                completed,
                total,
                revision: Revision((old(self).revision.0 + 1) as u64),
                ..*old(self)
            }),
    {
        if total < self.total || completed < self.completed || completed > total {
            return Err(RepoError::InvalidRequest);
        }
        let revision = self.revision.next()?;
        self.completed = completed;
        self.total = total;
        self.revision = revision;
        Ok(())
    }

    /// Moves along an allowed lifecycle edge; a terminal state stamps the
    /// completion time.
    pub fn transition(&mut self, state: OperationState) -> (r: Result<(), RepoError>)
        ensures
            !allowed_transition(old(self).state, state) ==> r == Err::<(), RepoError>(
                RepoError::InvalidTransition) && *final(self) == *old(self),
            allowed_transition(old(self).state, state) && old(self).revision.0 == u64::MAX
                ==> r == Err::<(), RepoError>(RepoError::InvalidRequest) && *final(self) == *old(
                self),
            allowed_transition(old(self).state, state) && old(self).revision.0 < u64::MAX
                ==> r is Ok && transitioned(*old(self), state, *final(self)),
    {
        let allowed = match (self.state, state) {
            (OperationState::Requested, OperationState::Running) => true,
            (OperationState::Running, OperationState::AwaitingConfirmation) => true,
            (OperationState::Running, OperationState::Committing) => true,
            (OperationState::AwaitingConfirmation, OperationState::Committing) => true,
            (OperationState::AwaitingConfirmation, OperationState::Cancelled) => true,
            (OperationState::AwaitingConfirmation, OperationState::Failed) => true,
            (OperationState::Committing, OperationState::Completed) => true,
            (OperationState::Committing, OperationState::Recoverable) => true,
            (OperationState::Committing, OperationState::Failed) => true,
            (OperationState::Running, OperationState::Completed) => true,
            (OperationState::Running, OperationState::Failed) => true,
            (OperationState::Running, OperationState::Cancelled) => true,
            _ => false,
        };
        if !allowed {
            return Err(RepoError::InvalidTransition);
        }
        let revision = self.revision.next()?;
        self.state = state;
        if matches!(
            state,
            OperationState::Completed | OperationState::Failed | OperationState::Cancelled
                | OperationState::Recoverable
        ) {
            self.completed_at = Some(UtcMillis::now());
        }
        self.revision = revision;
        Ok(())
    }
}

/// What an operation still in progress when the application stopped
/// becomes: recoverable when it left a rollback copy, failed otherwise.
pub open spec fn interrupted(rec: OperationRecord, now: UtcMillis) -> OperationRecord {
    if is_terminal(rec.state) {
        rec
    } else {
        OperationRecord {
            state: if rec.rollback_location is Some {
                OperationState::Recoverable
            } else {
                OperationState::Failed
            },
            completed_at: Some(now),
            revision: Revision((rec.revision.0 + 1) as u64),
            ..rec
        }
    }
}

/// Settles every operation the last run left in progress, as of `now`, and
/// returns how many it settled; finished ones are left as they are.
pub fn recover_interrupted_operations(records: &mut Vec<OperationRecord>, now: UtcMillis) -> (r: usize)
    requires
        forall|i: int| 0 <= i < old(records)@.len() ==> (#[trigger] old(records)@[i]).revision.0 < u64::MAX,
    ensures
        final(records)@.len() == old(records)@.len(),
        forall|i: int|
            0 <= i < old(records)@.len() ==> #[trigger] final(records)@[i] == interrupted(old(records)@[i], now),
        r == old(records)@.filter(|rec: OperationRecord| !is_terminal(rec.state)).len(),
{
    let ghost start = records@;
    let mut count: usize = 0;
    let mut i: usize = 0;
    while i < records.len()
        invariant
            records@.len() == start.len(),
            i <= start.len(),
            forall|k: int| 0 <= k < start.len() ==> (#[trigger] start[k]).revision.0 < u64::MAX,
            forall|k: int| 0 <= k < i ==> #[trigger] records@[k] == interrupted(start[k], now),
            forall|k: int| i <= k < start.len() ==> #[trigger] records@[k] == start[k],
            count == start.take(i as int).filter(|rec: OperationRecord| !is_terminal(rec.state)).len(),
            count <= i,
        decreases start.len() - i,
    {
        proof {
            let keep = |rec: OperationRecord| !is_terminal(rec.state);
            assert(start.take(i + 1) =~= start.take(i as int).push(start[i as int]));
            start.take(i as int).lemma_filter_push(start[i as int], keep);
        }
        let state = records[i].state;
        let open = match state {
            OperationState::Requested | OperationState::Running | OperationState::AwaitingConfirmation
            | OperationState::Committing => true,
            _ => false,
        };
        if open {
            let mut rec = records[i].clone();
            rec.state = if rec.rollback_location.is_some() {
                OperationState::Recoverable
            } else {
                OperationState::Failed
            };
            rec.completed_at = Some(now);
            rec.revision = Revision(rec.revision.0 + 1);
            records.set(i, rec);
            count = count + 1;
        }
        i = i + 1;
    }
    proof {
        assert(start.take(start.len() as int) =~= start);
    }
    count
}

/// A change applied to a registered operation record.
#[derive(Debug, PartialEq, Eq)]
pub enum OperationUpdate {
    Progress { completed: u64, total: u64 },
    Transition(OperationState),
    Kind(OperationKind),
    RollbackLocation(String),
}

/// The cancellation flags of one operation.
#[derive(Clone, Copy, Debug, PartialEq, Eq, Structural)]
pub struct CancellationState {
    pub cancelled: bool,
    pub safe_to_cancel: bool,
}

/// A handle on cancellation flags kept by the coordinator.
#[derive(Clone, Copy, Debug, PartialEq, Eq, Structural)]
pub struct CancellationToken {
    pub id: u64,
}

/// A claim on the notebook; give it back with `OperationCoordinator::release`.
#[derive(Debug, PartialEq, Eq)]
pub struct OperationLease {
    pub kind: OperationKind,
    pub claimed_path: Option<String>,
    pub token: CancellationToken,
}

impl OperationLease {
    pub fn cancellation_token(&self) -> (t: CancellationToken)
        ensures
            t == self.token,
    {
        self.token
    }
}

/// What the coordinator admits: shared snapshots, one exclusive mutation,
/// and each destination path at most once.
pub struct CoordinatorView {
    pub snapshots: nat,
    pub exclusive: bool,
    pub claimed: Set<Seq<char>>,
}

pub open spec fn admitted_view(
    v: CoordinatorView,
    kind: OperationKind,
    path: Option<Seq<char>>,
) -> Option<CoordinatorView> {
    if path matches Some(p) && v.claimed.contains(p) {
        None
    } else if kind.spec_is_snapshot() && v.exclusive {
        None
    } else if !kind.spec_is_snapshot() && (v.exclusive || v.snapshots > 0) {
        None
    } else {
        let claimed = match path {
            Some(p) => v.claimed.insert(p),
            None => v.claimed,
        };
        if kind.spec_is_snapshot() {
            Some(CoordinatorView { snapshots: v.snapshots + 1, exclusive: v.exclusive, claimed })
        } else {
            Some(CoordinatorView { snapshots: v.snapshots, exclusive: true, claimed })
        }
    }
}

pub open spec fn release_view(
    v: CoordinatorView,
    kind: OperationKind,
    path: Option<Seq<char>>,
) -> CoordinatorView {
    let claimed = match path {
        Some(p) => v.claimed.remove(p),
        None => v.claimed,
    };
    if kind.spec_is_snapshot() {
        CoordinatorView {
            snapshots: if v.snapshots > 0 {
                (v.snapshots - 1) as nat
            } else {
                0
            },
            exclusive: v.exclusive,
            claimed,
        }
    } else {
        CoordinatorView { snapshots: v.snapshots, exclusive: false, claimed }
    }
}

pub open spec fn opt_view(p: Option<String>) -> Option<Seq<char>> {
    match p {
        Some(s) => Some(s@),
        None => None,
    }
}

pub open spec fn seq_strings_view(s: Seq<String>) -> Seq<Seq<char>> {
    s.map_values(|x: String| x@)
}

pub struct OperationCoordinator {
    snapshots: usize,
    exclusive: bool,
    claimed_paths: Vec<String>,
    operations: Vec<OperationRecord>,
    tokens: Vec<(u64, CancellationState)>,
    next_token: u64,
}

impl OperationCoordinator {
    pub closed spec fn wf(&self) -> bool {
        &&& forall|i: int, j: int|
            0 <= i < j < self.claimed_paths@.len() ==> self.claimed_paths@[i]@
                != self.claimed_paths@[j]@
        &&& forall|i: int, j: int|
            0 <= i < j < self.operations@.len() ==> self.operations@[i].id@
                != self.operations@[j].id@
        &&& forall|i: int, j: int|
            0 <= i < j < self.tokens@.len() ==> self.tokens@[i].0 != self.tokens@[j].0
        &&& forall|i: int| 0 <= i < self.tokens@.len() ==> self.tokens@[i].0 < self.next_token
    }

    pub closed spec fn view(&self) -> CoordinatorView {
        CoordinatorView {
            snapshots: self.snapshots as nat,
            exclusive: self.exclusive,
            claimed: seq_strings_view(self.claimed_paths@).to_set(),
        }
    }

    /// The registered record with identifier `id`, if any.
    pub closed spec fn operation(&self, id: Seq<char>) -> Option<OperationRecord> {
        if exists|i: int| 0 <= i < self.operations@.len() && self.operations@[i].id@ == id {
            let i = choose|i: int| 0 <= i < self.operations@.len() && self.operations@[i].id@ == id;
            Some(self.operations@[i])
        } else {
            None
        }
    }

    /// The cancellation flags behind `token`, if it was issued here.
    pub closed spec fn token_state(&self, token: CancellationToken) -> Option<CancellationState> {
        if exists|i: int| 0 <= i < self.tokens@.len() && self.tokens@[i].0 == token.id {
            let i = choose|i: int| 0 <= i < self.tokens@.len() && self.tokens@[i].0 == token.id;
            Some(self.tokens@[i].1)
        } else {
            None
        }
    }

    /// How many cancellation handles have been numbered so far.
    pub closed spec fn tokens_issued(&self) -> nat {
        self.next_token as nat
    }

    /// Every cancellation handle this coordinator can number has been issued.
    pub open spec fn tokens_exhausted(&self) -> bool {
        self.tokens_issued() == u64::MAX
    }

    pub closed spec fn token_count(&self) -> nat {
        self.tokens@.len()
    }

    pub fn new() -> (r: Self)
        ensures
            r.wf(),
            r.view().snapshots == 0,
            !r.view().exclusive,
            r.view().claimed == Set::<Seq<char>>::empty(),
            forall|id: Seq<char>| r.operation(id) is None,
            forall|t: CancellationToken| r.token_state(t) is None,
            r.tokens_issued() == 0,
    {
        let r = OperationCoordinator {
            snapshots: 0,
            exclusive: false,
            claimed_paths: Vec::new(),
            operations: Vec::new(),
            tokens: Vec::new(),
            next_token: 0,
        };
        assert(seq_strings_view(r.claimed_paths@).to_set() =~= Set::<Seq<char>>::empty());
        r
    }

    fn path_index(&self, path: &str) -> (r: Option<usize>)
        ensures
            r matches Some(i) ==> i < self.claimed_paths@.len() && self.claimed_paths@[i as int]@
                == path@,
            r is None ==> forall|i: int|
                0 <= i < self.claimed_paths@.len() ==> self.claimed_paths@[i]@ != path@,
    {
        let mut i: usize = 0;
        while i < self.claimed_paths.len()
            invariant
                i <= self.claimed_paths@.len(),
                forall|j: int| 0 <= j < i ==> self.claimed_paths@[j]@ != path@,
            decreases self.claimed_paths.len() - i,
        {
            if str_eq(self.claimed_paths[i].as_str(), path) {
                return Some(i);
            }
            i = i + 1;
        }
        None
    }

    /// Issues fresh cancellation flags: not cancelled, safe to cancel.
    pub fn new_token(&mut self) -> (t: Result<CancellationToken, RepoError>)
        requires
            old(self).wf(),
        ensures
            final(self).wf(),
            final(self).view() == old(self).view(),
            forall|id: Seq<char>| final(self).operation(id) == old(self).operation(id),
            t matches Ok(tok) ==> old(self).token_state(tok) is None && final(self).token_state(
                tok) == Some((CancellationState { cancelled: false, safe_to_cancel: true }))
                && forall|o: CancellationToken|
                o != tok ==> final(self).token_state(o) == old(self).token_state(o),
            t is Err ==> t == Err::<CancellationToken, RepoError>(RepoError::OperationBusy)
                && *final(self) == *old(self),
            t is Ok <==> !old(self).tokens_exhausted(),
            t is Ok ==> final(self).tokens_issued() == old(self).tokens_issued() + 1,
    {
        if self.next_token == u64::MAX {
            return Err(RepoError::OperationBusy);
        }
        let id = self.next_token;
        let ghost old_tokens = self.tokens@;
        self.tokens.push((id, CancellationState { cancelled: false, safe_to_cancel: true }));
        self.next_token = self.next_token + 1;
        let tok = CancellationToken { id };
        proof {
            let n = old_tokens.len() as int;
            assert(self.tokens@[n].0 == id);
            assert forall|o: CancellationToken| o != tok implies self.token_state(o) == old(
                self,
            ).token_state(o) by {
                if exists|i: int| 0 <= i < self.tokens@.len() && self.tokens@[i].0 == o.id {
                    let i = choose|i: int| 0 <= i < self.tokens@.len() && self.tokens@[i].0 == o.id;
                    assert(i < n);
                    assert(old_tokens[i].0 == o.id);
                }
                if exists|i: int| 0 <= i < old_tokens.len() && old_tokens[i].0 == o.id {
                    let i = choose|i: int| 0 <= i < old_tokens.len() && old_tokens[i].0 == o.id;
                    assert(self.tokens@[i].0 == o.id);
                }
            }
            assert(old(self).token_state(tok) is None);
            assert(self.token_state(tok) == Some((CancellationState { cancelled: false, safe_to_cancel: true }))) by {
                let i = choose|i: int| 0 <= i < self.tokens@.len() && self.tokens@[i].0 == tok.id;
                assert(i == n);
            }
        }
        Ok(tok)
    }

    fn token_index(&self, token: CancellationToken) -> (r: Option<usize>)
        requires
            self.wf(),
        ensures
            r matches Some(i) ==> i < self.tokens@.len() && self.tokens@[i as int].0 == token.id
                && self.token_state(token) == Some(self.tokens@[i as int].1),
            r is None ==> self.token_state(token) is None,
    {
        let mut i: usize = 0;
        while i < self.tokens.len()
            invariant
                self.wf(),
                i <= self.tokens@.len(),
                forall|j: int| 0 <= j < i ==> self.tokens@[j].0 != token.id,
            decreases self.tokens.len() - i,
        {
            if self.tokens[i].0 == token.id {
                proof {
                    let k = choose|k: int| 0 <= k < self.tokens@.len() && self.tokens@[k].0 == token.id;
                    if k < i {
                        assert(self.tokens@[k].0 != self.tokens@[i as int].0);
                    }
                    if k > i {
                        assert(self.tokens@[i as int].0 != self.tokens@[k].0);
                    }
                }
                return Some(i);
            }
            i = i + 1;
        }
        None
    }

    /// Requests cancellation; refused once the operation has entered its
    /// commit phase.
    pub fn cancel(&mut self, token: CancellationToken) -> (r: Result<(), RepoError>)
        requires
            old(self).wf(),
        ensures
            final(self).wf(),
            final(self).tokens_issued() == old(self).tokens_issued(),
            final(self).view() == old(self).view(),
            forall|id: Seq<char>| final(self).operation(id) == old(self).operation(id),
            old(self).token_state(token) is None ==> r == Err::<(), RepoError>(RepoError::NotFound)
                && final(self).token_state(token) is None,
            old(self).token_state(token) matches Some(s) ==> (!s.safe_to_cancel ==> r == Err::<
                (),
                RepoError,
            >(RepoError::CancelUnsafe) && final(self).token_state(token) == Some(s)),
            old(self).token_state(token) matches Some(s) ==> (s.safe_to_cancel ==> r is Ok
                && final(self).token_state(token) == Some(
                (CancellationState { cancelled: true, safe_to_cancel: true }),
            )),
            forall|o: CancellationToken|
                o.id != token.id ==> final(self).token_state(o) == old(self).token_state(o),
    {
        match self.token_index(token) {
            None => Err(RepoError::NotFound),
            Some(i) => {
                if !self.tokens[i].1.safe_to_cancel {
                    return Err(RepoError::CancelUnsafe);
                }
                self.set_token(i, CancellationState { cancelled: true, safe_to_cancel: true });
                Ok(())
            },
        }
    }

    fn set_token(&mut self, i: usize, s: CancellationState)
        requires
            old(self).wf(),
            i < old(self).tokens@.len(),
        ensures
            final(self).wf(),
            final(self).tokens_issued() == old(self).tokens_issued(),
            final(self).view() == old(self).view(),
            forall|id: Seq<char>| final(self).operation(id) == old(self).operation(id),
            final(self).token_state(CancellationToken { id: old(self).tokens@[i as int].0 })
                == Some(s),
            forall|o: CancellationToken|
                o.id != old(self).tokens@[i as int].0 ==> final(self).token_state(o) == old(
                    self,
                ).token_state(o),
    {
        let id = self.tokens[i].0;
        let ghost old_tokens = self.tokens@;
        self.tokens.set(i, (id, s));
        proof {
            assert forall|o: CancellationToken| true implies (o.id != id ==> self.token_state(o)
                == old(self).token_state(o)) && (o.id == id ==> self.token_state(o) == Some(s)) by {
                if exists|k: int| 0 <= k < self.tokens@.len() && self.tokens@[k].0 == o.id {
                    let k = choose|k: int| 0 <= k < self.tokens@.len() && self.tokens@[k].0 == o.id;
                    assert(old_tokens[k].0 == o.id);
                    if o.id == id {
                        assert(k == i as int);
                    }
                }
                if exists|k: int| 0 <= k < old_tokens.len() && old_tokens[k].0 == o.id {
                    let k = choose|k: int| 0 <= k < old_tokens.len() && old_tokens[k].0 == o.id;
                    assert(self.tokens@[k].0 == o.id);
                }
            }
        }
    }

    pub fn is_cancelled(&self, token: CancellationToken) -> (r: bool)
        requires
            self.wf(),
        ensures
            r == (self.token_state(token) matches Some(s) && s.cancelled),
    {
        match self.token_index(token) {
            Some(i) => self.tokens[i].1.cancelled,
            None => false,
        }
    }

    /// From here on the operation can no longer be cancelled.
    pub fn enter_commit(&mut self, lease: &OperationLease)
        requires
            old(self).wf(),
        ensures
            final(self).wf(),
            final(self).tokens_issued() == old(self).tokens_issued(),
            final(self).view() == old(self).view(),
            forall|id: Seq<char>| final(self).operation(id) == old(self).operation(id),
            old(self).token_state(lease.token) matches Some(s) ==> final(self).token_state(
                lease.token,
            ) == Some((CancellationState { cancelled: s.cancelled, safe_to_cancel: false })),
            old(self).token_state(lease.token) is None ==> final(self).token_state(lease.token)
                is None,
            forall|o: CancellationToken|
                o.id != lease.token.id ==> final(self).token_state(o) == old(self).token_state(
                    o,
                ),
    {
        if let Some(i) = self.token_index(lease.token) {
            let cancelled = self.tokens[i].1.cancelled;
            self.set_token(i, CancellationState { cancelled, safe_to_cancel: false });
        }
    }

    /// Claims the notebook for `kind` with fresh cancellation flags.
    pub fn begin(&mut self, kind: OperationKind, claimed_path: Option<&str>) -> (r: Result<
        OperationLease,
        RepoError,
    >)
        requires
            old(self).wf(),
            old(self).view().snapshots < usize::MAX,
        ensures
            final(self).wf(),
            r is Ok ==> final(self).tokens_issued() == old(self).tokens_issued() + 1,
            forall|id: Seq<char>| final(self).operation(id) == old(self).operation(id),
            r matches Ok(lease) ==> admitted_view(
                old(self).view(),
                kind,
                match claimed_path {
                    Some(p) => Some(p@),
                    None => None,
                },
            ) == Some(final(self).view()) && lease.kind == kind && opt_view(lease.claimed_path)
                == match claimed_path {
                Some(p) => Some(p@),
                None => None::<Seq<char>>,
            } && final(self).token_state(lease.token) == Some(
                (CancellationState { cancelled: false, safe_to_cancel: true }),
            ),
            r is Err ==> r == Err::<OperationLease, RepoError>(RepoError::OperationBusy)
                && *final(self) == *old(self),
            r matches Ok(lease) ==> old(self).token_state(lease.token) is None && forall|t: CancellationToken|
                t != lease.token ==> final(self).token_state(t) == old(self).token_state(t),
            r is Err <==> admitted_view(
                old(self).view(),
                kind,
                match claimed_path {
                    Some(p) => Some(p@),
                    None => None,
                },
            ) is None || old(self).tokens_exhausted(),
    {
        if !self.admits(kind, claimed_path) {
            return Err(RepoError::OperationBusy);
        }
        let token = self.new_token()?;
        let r = self.begin_with_cancellation(kind, claimed_path, token);
        r
    }

    /// Whether `kind` may start now, claiming `claimed_path`.
    pub fn admits(&self, kind: OperationKind, claimed_path: Option<&str>) -> (r: bool)
        requires
            self.wf(),
        ensures
            r == admitted_view(
                self.view(),
                kind,
                match claimed_path {
                    Some(p) => Some(p@),
                    None => None,
                },
            ) is Some,
    {
        if let Some(p) = claimed_path {
            proof {
                self.lemma_claimed_contains(p@);
            }
            if let Some(_) = self.path_index(p) {
                return false;
            }
        }
        if kind.is_snapshot() {
            !self.exclusive
        } else {
            !self.exclusive && self.snapshots == 0
        }
    }

    /// Claims the notebook for `kind`, bound to existing cancellation flags.
    pub fn begin_with_cancellation(
        &mut self,
        kind: OperationKind,
        claimed_path: Option<&str>,
        cancellation: CancellationToken,
    ) -> (r: Result<OperationLease, RepoError>)
        requires
            old(self).wf(),
            old(self).view().snapshots < usize::MAX,
        ensures
            final(self).wf(),
            final(self).tokens_issued() == old(self).tokens_issued(),
            forall|id: Seq<char>| final(self).operation(id) == old(self).operation(id),
            forall|t: CancellationToken| final(self).token_state(t) == old(self).token_state(t),
            ({
                let path = match claimed_path {
                    Some(p) => Some(p@),
                    None => None::<Seq<char>>,
                };
                match admitted_view(old(self).view(), kind, path) {
                    None => r == Err::<OperationLease, RepoError>(RepoError::OperationBusy)
                        && final(self).view() == old(self).view(),
                    Some(v) => r matches Ok(lease) && final(self).view() == v && lease.kind
                        == kind && opt_view(lease.claimed_path) == path && lease.token
                        == cancellation,
                }
            }),
    {
        let ghost path = match claimed_path {
            Some(p) => Some(p@),
            None => None::<Seq<char>>,
        };
        if let Some(p) = claimed_path {
            if let Some(_) = self.path_index(p) {
                proof {
                    self.lemma_claimed_contains(p@);
                }
                return Err(RepoError::OperationBusy);
            }
            proof {
                self.lemma_claimed_contains(p@);
            }
        }
        if kind.is_snapshot() {
            if self.exclusive {
                return Err(RepoError::OperationBusy);
            }
            self.snapshots = self.snapshots + 1;
        } else {
            if self.exclusive || self.snapshots > 0 {
                return Err(RepoError::OperationBusy);
            }
            self.exclusive = true;
        }
        let ghost before = self.claimed_paths@;
        let owned = match claimed_path {
            Some(p) => {
                let s = p.to_owned();
                self.claimed_paths.push(p.to_owned());
                proof {
                    assert(seq_strings_view(self.claimed_paths@) =~= seq_strings_view(before).push(
                        p@,
                    ));
                    let s0 = seq_strings_view(before);
                    let s1 = seq_strings_view(self.claimed_paths@);
                    assert forall|x: Seq<char>| s1.to_set().contains(x) <==> s0.to_set().insert(
                        p@,
                    ).contains(x) by {
                        if s1.to_set().contains(x) {
                            assert(s1.contains(x));
                            let k = choose|k: int| 0 <= k < s1.len() && s1[k] == x;
                            if k < s0.len() {
                                assert(s0[k] == x);
                                assert(s0.contains(x));
                            }
                        }
                        if s0.to_set().insert(p@).contains(x) {
                            if x == p@ {
                                assert(s1[s0.len() as int] == x);
                            } else {
                                assert(s0.contains(x));
                                let k = choose|k: int| 0 <= k < s0.len() && s0[k] == x;
                                assert(s1[k] == x);
                            }
                            assert(s1.contains(x));
                        }
                    }
                    assert(s1.to_set() =~= s0.to_set().insert(p@));
                    assert forall|i: int, j: int|
                        0 <= i < j < self.claimed_paths@.len() implies self.claimed_paths@[i]@
                        != self.claimed_paths@[j]@ by {
                        if j == before.len() {
                            assert(self.claimed_paths@[i] == before[i]);
                        }
                    }
                }
                Some(s)
            },
            None => None,
        };
        assert(self.tokens@ == old(self).tokens@);
        Ok(OperationLease { kind, claimed_path: owned, token: cancellation })
    }

    proof fn lemma_claimed_contains(&self, p: Seq<char>)
        ensures
            seq_strings_view(self.claimed_paths@).to_set().contains(p) <==> exists|i: int|
                0 <= i < self.claimed_paths@.len() && self.claimed_paths@[i]@ == p,
    {
        let s = seq_strings_view(self.claimed_paths@);
        if s.to_set().contains(p) {
            assert(s.contains(p));
            let i = choose|i: int| 0 <= i < s.len() && s[i] == p;
            assert(self.claimed_paths@[i]@ == p);
        }
        if exists|i: int| 0 <= i < self.claimed_paths@.len() && self.claimed_paths@[i]@ == p {
            let i = choose|i: int| 0 <= i < self.claimed_paths@.len() && self.claimed_paths@[i]@ == p;
            assert(s[i] == p);
            assert(s.contains(p));
        }
    }

    /// Gives a lease back: the snapshot count or the exclusive claim and the
    /// claimed path are released.
    pub fn release(&mut self, lease: OperationLease)
        requires
            old(self).wf(),
        ensures
            final(self).wf(),
            final(self).tokens_issued() == old(self).tokens_issued(),
            final(self).view() == release_view(old(self).view(), lease.kind, opt_view(lease.claimed_path)),
            forall|id: Seq<char>| final(self).operation(id) == old(self).operation(id),
            forall|t: CancellationToken| final(self).token_state(t) == old(self).token_state(t),
    {
        let ghost old_tokens = self.tokens;
        if lease.kind.is_snapshot() {
            if self.snapshots > 0 {
                self.snapshots = self.snapshots - 1;
            }
        } else {
            self.exclusive = false;
        }
        if let Some(path) = &lease.claimed_path {
            let ghost before = self.claimed_paths@;
            if let Some(i) = self.path_index(path.as_str()) {
                self.claimed_paths.remove(i);
                proof {
                    let s0 = seq_strings_view(before);
                    let s1 = seq_strings_view(self.claimed_paths@);
                    assert(s1 =~= s0.remove(i as int));
                    assert forall|x: Seq<char>| s1.to_set().contains(x) <==> s0.to_set().remove(
                        path@,
                    ).contains(x) by {
                        if s1.to_set().contains(x) {
                            assert(s1.contains(x));
                            let k = choose|k: int| 0 <= k < s1.len() && s1[k] == x;
                            if k < i {
                                assert(s0[k] == x);
                            } else {
                                assert(s0[k + 1] == x);
                            }
                            assert(s0.contains(x));
                            assert(x != path@);
                        }
                        if s0.to_set().remove(path@).contains(x) {
                            assert(s0.contains(x));
                            let k = choose|k: int| 0 <= k < s0.len() && s0[k] == x;
                            assert(k != i);
                            if k < i {
                                assert(s1[k] == x);
                            } else {
                                assert(s1[k - 1] == x);
                            }
                            assert(s1.contains(x));
                        }
                    }
                    assert(s1.to_set() =~= s0.to_set().remove(path@));
                }
            } else {
                proof {
                    self.lemma_claimed_contains(path@);
                    assert(seq_strings_view(self.claimed_paths@).to_set() =~= seq_strings_view(
                        self.claimed_paths@,
                    ).to_set().remove(path@));
                }
            }
        }
        assert(self.tokens@ == old(self).tokens@);
        assert(forall|t: CancellationToken| self.token_state(t) == old(self).token_state(t));
    }

    fn op_index(&self, id: &EntityId) -> (r: Option<usize>)
        requires
            self.wf(),
        ensures
            r matches Some(i) ==> i < self.operations@.len() && self.operations@[i as int].id@
                == id@ && self.operation(id@) == Some(self.operations@[i as int]),
            r is None ==> self.operation(id@) is None,
    {
        let mut i: usize = 0;
        while i < self.operations.len()
            invariant
                self.wf(),
                i <= self.operations@.len(),
                forall|j: int| 0 <= j < i ==> self.operations@[j].id@ != id@,
            decreases self.operations.len() - i,
        {
            if self.operations[i].id.same(id) {
                proof {
                    let k = choose|k: int| 0 <= k < self.operations@.len() && self.operations@[k].id@ == id@;
                    if k < i {
                        assert(self.operations@[k].id@ != self.operations@[i as int].id@);
                    }
                    if k > i {
                        assert(self.operations@[i as int].id@ != self.operations@[k].id@);
                    }
                }
                return Some(i);
            }
            i = i + 1;
        }
        None
    }

    /// Registers (or replaces) the record under its identifier.
    pub fn register(&mut self, record: OperationRecord) -> (r: Result<(), RepoError>)
        requires
            old(self).wf(),
        ensures
            final(self).wf(),
            final(self).tokens_issued() == old(self).tokens_issued(),
            r is Ok,
            final(self).view() == old(self).view(),
            forall|t: CancellationToken| final(self).token_state(t) == old(self).token_state(t),
            final(self).operation(record.id@) == Some(record),
            forall|id: Seq<char>| id != record.id@ ==> final(self).operation(id) == old(self).operation(id),
    {
        let ghost old_ops = self.operations@;
        let ghost rid = record.id@;
        match self.op_index(&record.id) {
            Some(i) => {
                self.operations.set(i, record);
                proof {
                    self.lemma_ops_after_set(old_ops, i as int, rid);
                }
            },
            None => {
                self.operations.push(record);
                proof {
                    self.lemma_ops_after_push(old_ops, rid);
                }
            },
        }
        assert(self.tokens@ == old(self).tokens@);
        Ok(())
    }

    proof fn lemma_ops_after_set(&self, old_ops: Seq<OperationRecord>, i: int, rid: Seq<char>)
        requires
            0 <= i < old_ops.len(),
            self.operations@ == old_ops.update(i, self.operations@[i]),
            old_ops[i].id@ == rid,
            self.operations@[i].id@ == rid,
            forall|a: int, b: int| 0 <= a < b < old_ops.len() ==> old_ops[a].id@ != old_ops[b].id@,
        ensures
            forall|a: int, b: int|
                0 <= a < b < self.operations@.len() ==> self.operations@[a].id@
                    != self.operations@[b].id@,
            self.operation(rid) == Some(self.operations@[i]),
            forall|id: Seq<char>| id != rid ==> self.operation(id) == ({
                if exists|k: int| 0 <= k < old_ops.len() && old_ops[k].id@ == id {
                    let k = choose|k: int| 0 <= k < old_ops.len() && old_ops[k].id@ == id;
                    Some(old_ops[k])
                } else {
                    None
                }
            }),
    {
        assert forall|a: int, b: int|
            0 <= a < b < self.operations@.len() implies self.operations@[a].id@
            != self.operations@[b].id@ by {
            if a != i && b != i {
                assert(self.operations@[a] == old_ops[a]);
                assert(self.operations@[b] == old_ops[b]);
            } else if a == i {
                assert(self.operations@[b] == old_ops[b]);
            } else {
                assert(self.operations@[a] == old_ops[a]);
            }
        }
        let k = choose|k: int| 0 <= k < self.operations@.len() && self.operations@[k].id@ == rid;
        assert(k == i);
        assert forall|id: Seq<char>| id != rid implies self.operation(id) == ({
            if exists|k: int| 0 <= k < old_ops.len() && old_ops[k].id@ == id {
                let k = choose|k: int| 0 <= k < old_ops.len() && old_ops[k].id@ == id;
                Some(old_ops[k])
            } else {
                None
            }
        }) by {
            if exists|k: int| 0 <= k < old_ops.len() && old_ops[k].id@ == id {
                let k = choose|k: int| 0 <= k < old_ops.len() && old_ops[k].id@ == id;
                assert(k != i);
                assert(self.operations@[k] == old_ops[k]);
                let m = choose|m: int| 0 <= m < self.operations@.len() && self.operations@[m].id@ == id;
                assert(m != i);
                assert(self.operations@[m] == old_ops[m]);
            }
            if exists|m: int| 0 <= m < self.operations@.len() && self.operations@[m].id@ == id {
                let m = choose|m: int| 0 <= m < self.operations@.len() && self.operations@[m].id@ == id;
                assert(m != i);
                assert(old_ops[m].id@ == id);
            }
        }
    }

    proof fn lemma_ops_after_push(&self, old_ops: Seq<OperationRecord>, rid: Seq<char>)
        requires
            self.operations@.len() == old_ops.len() + 1,
            forall|k: int| 0 <= k < old_ops.len() ==> self.operations@[k] == old_ops[k],
            self.operations@[old_ops.len() as int].id@ == rid,
            forall|k: int| 0 <= k < old_ops.len() ==> old_ops[k].id@ != rid,
            forall|a: int, b: int| 0 <= a < b < old_ops.len() ==> old_ops[a].id@ != old_ops[b].id@,
        ensures
            forall|a: int, b: int|
                0 <= a < b < self.operations@.len() ==> self.operations@[a].id@
                    != self.operations@[b].id@,
            self.operation(rid) == Some(self.operations@[old_ops.len() as int]),
            forall|id: Seq<char>| id != rid ==> self.operation(id) == ({
                if exists|k: int| 0 <= k < old_ops.len() && old_ops[k].id@ == id {
                    let k = choose|k: int| 0 <= k < old_ops.len() && old_ops[k].id@ == id;
                    Some(old_ops[k])
                } else {
                    None
                }
            }),
    {
        let n = old_ops.len() as int;
        assert forall|a: int, b: int|
            0 <= a < b < self.operations@.len() implies self.operations@[a].id@
            != self.operations@[b].id@ by {
            if b < n {
                assert(self.operations@[a] == old_ops[a]);
                assert(self.operations@[b] == old_ops[b]);
            } else {
                assert(self.operations@[a] == old_ops[a]);
            }
        }
        assert(self.operations@[n].id@ == rid);
        let k = choose|k: int| 0 <= k < self.operations@.len() && self.operations@[k].id@ == rid;
        if k < n {
            assert(old_ops[k].id@ == rid);
        }
        assert forall|id: Seq<char>| id != rid implies self.operation(id) == ({
            if exists|k: int| 0 <= k < old_ops.len() && old_ops[k].id@ == id {
                let k = choose|k: int| 0 <= k < old_ops.len() && old_ops[k].id@ == id;
                Some(old_ops[k])
            } else {
                None
            }
        }) by {
            if exists|k: int| 0 <= k < old_ops.len() && old_ops[k].id@ == id {
                let k = choose|k: int| 0 <= k < old_ops.len() && old_ops[k].id@ == id;
                assert(self.operations@[k].id@ == id);
                let m = choose|m: int| 0 <= m < self.operations@.len() && self.operations@[m].id@ == id;
                assert(m != n);
            }
            if exists|m: int| 0 <= m < self.operations@.len() && self.operations@[m].id@ == id {
                let m = choose|m: int| 0 <= m < self.operations@.len() && self.operations@[m].id@ == id;
                assert(m != n);
                assert(old_ops[m].id@ == id);
            }
        }
    }

    /// The registered record, or `NotFound`.
    pub fn get(&self, operation_id: &EntityId) -> (r: Result<OperationRecord, RepoError>)
        requires
            self.wf(),
        ensures
            self.operation(operation_id@) matches Some(rec) ==> r == Ok::<
                OperationRecord,
                RepoError,
            >(rec),
            self.operation(operation_id@) is None ==> r == Err::<OperationRecord, RepoError>(
                RepoError::NotFound,
            ),
    {
        match self.op_index(operation_id) {
            Some(i) => Ok(self.operations[i].clone()),
            None => Err(RepoError::NotFound),
        }
    }

    /// Applies `change` to the registered record and returns the result; a
    /// refused change leaves the record as it was.
    pub fn update(&mut self, operation_id: &EntityId, change: OperationUpdate) -> (r: Result<
        OperationRecord,
        RepoError,
    >)
        requires
            old(self).wf(),
        ensures
            final(self).wf(),
            final(self).tokens_issued() == old(self).tokens_issued(),
            final(self).view() == old(self).view(),
            forall|t: CancellationToken| final(self).token_state(t) == old(self).token_state(t),
            forall|id: Seq<char>| id != operation_id@ ==> final(self).operation(id) == old(self).operation(id),
            old(self).operation(operation_id@) is None ==> r == Err::<OperationRecord, RepoError>(
                RepoError::NotFound),
            r matches Ok(rec) ==> final(self).operation(operation_id@) == Some(rec),
            r is Err ==> final(self).operation(operation_id@) == old(self).operation(operation_id@),
            old(self).operation(operation_id@) matches Some(before) ==> match change {
                OperationUpdate::Kind(k) => r == Ok::<OperationRecord, RepoError>(
                    (OperationRecord { kind: k, ..before }),
                ),
                OperationUpdate::RollbackLocation(loc) => r == Ok::<OperationRecord, RepoError>(
                    (OperationRecord { rollback_location: Some(loc), ..before }),
                ),
                OperationUpdate::Transition(s) => (r is Ok <==> (allowed_transition(before.state, s)
                    && before.revision.0 < u64::MAX)) && (r matches Ok(rec) ==> transitioned(before, s, rec)),
                OperationUpdate::Progress { completed, total } => (r is Ok <==> (!(total
                    < before.total || completed < before.completed || completed > total)
                    && before.revision.0 < u64::MAX)) && (r matches Ok(rec) ==> rec
                    == (OperationRecord {
                    completed,
                    total,
                    revision: Revision((before.revision.0 + 1) as u64),
                    ..before
                })),
            },
    {
        let i = match self.op_index(operation_id) {
            Some(i) => i,
            None => {
                return Err(RepoError::NotFound);
            },
        };
        let mut record = self.operations[i].clone();
        match change {
            OperationUpdate::Progress { completed, total } => {
                record.update_progress(completed, total)?;
            },
            OperationUpdate::Transition(state) => {
                record.transition(state)?;
            },
            OperationUpdate::Kind(kind) => {
                record.kind = kind;
            },
            OperationUpdate::RollbackLocation(location) => {
                record.rollback_location = Some(location);
            },
        }
        let ghost old_ops = self.operations@;
        let result = record.clone();
        self.operations.set(i, record);
        proof {
            self.lemma_ops_after_set(old_ops, i as int, operation_id@);
        }
        assert(self.tokens@ == old(self).tokens@);
        Ok(result)
    }
}

/// Snapshots share the notebook but nothing may start beside a mutation, and
/// no mutation may start beside a snapshot.
pub proof fn law_mutation_runs_alone(
    v: CoordinatorView,
    first: OperationKind,
    first_path: Option<Seq<char>>,
    second: OperationKind,
    second_path: Option<Seq<char>>,
)
    requires
        admitted_view(v, first, first_path) is Some,
        !first.spec_is_snapshot() || !second.spec_is_snapshot(),
    ensures
        admitted_view(admitted_view(v, first, first_path)->0, second, second_path) is None,
{
}

/// Two snapshots may run together when they write to different places.
pub proof fn law_snapshots_share(
    v: CoordinatorView,
    first_path: Option<Seq<char>>,
    second_path: Option<Seq<char>>,
)
    requires
        !v.exclusive,
        first_path matches Some(p) ==> !v.claimed.contains(p),
        second_path matches Some(p) ==> !v.claimed.contains(p),
        first_path is Some && second_path is Some ==> first_path != second_path,
    ensures
        admitted_view(v, OperationKind::BackupSnapshot, first_path) is Some,
        admitted_view(
            admitted_view(v, OperationKind::BackupSnapshot, first_path)->0,
            OperationKind::ExportSnapshot,
            second_path,
        ) is Some,
{
}

/// A claimed destination is claimed once, whatever the operations.
pub proof fn law_destination_claimed_once(
    v: CoordinatorView,
    first: OperationKind,
    second: OperationKind,
    path: Seq<char>,
)
    requires
        admitted_view(v, first, Some(path)) is Some,
    ensures
        admitted_view(admitted_view(v, first, Some(path))->0, second, Some(path)) is None,
{
    assert(admitted_view(v, first, Some(path))->0.claimed.contains(path));
}

/// Releasing a lease undoes what admitting it did.
pub proof fn law_release_undoes_admitted_view(v: CoordinatorView, kind: OperationKind, path: Option<Seq<char>>)
    requires
        admitted_view(v, kind, path) is Some,
    ensures
        release_view(admitted_view(v, kind, path)->0, kind, path) == v,
{
    let w = admitted_view(v, kind, path)->0;
    let r = release_view(w, kind, path);
    match path {
        Some(p) => {
            assert(r.claimed =~= v.claimed);
        },
        None => {},
    }
}

/// Progress accepted by a record never moves backwards and never passes its
/// total.
pub proof fn law_progress_is_monotonic(before: OperationRecord, completed: u64, total: u64)
    requires
        !(total < before.total || completed < before.completed || completed > total),
    ensures
        completed >= before.completed,
        total >= before.total,
        completed <= total,
{
}

/// No lifecycle edge leaves a terminal state.
pub proof fn law_terminal_states_are_final(from: OperationState, to: OperationState)
    requires
        is_terminal(from),
    ensures
        !allowed_transition(from, to),
{
}

/// Every operation that has not ended can still complete successfully: a
/// requested one by running, a running one directly or by committing, one
/// awaiting confirmation by committing, and a committing one directly.
pub proof fn law_every_live_operation_can_complete(state: OperationState)
    requires
        !is_terminal(state),
    ensures
        allowed_transition(state, OperationState::Completed)
            || (allowed_transition(state, OperationState::Committing) && allowed_transition(
            OperationState::Committing,
            OperationState::Completed,
        )) || (allowed_transition(state, OperationState::Running) && allowed_transition(
            OperationState::Running,
            OperationState::Completed,
        )),
        allowed_transition(OperationState::Committing, OperationState::Completed),
        allowed_transition(OperationState::Running, OperationState::Committing),
        allowed_transition(OperationState::AwaitingConfirmation, OperationState::Committing),
{
}

/// A committing operation completes: the transition succeeds while its
/// revision can still grow, the record is then completed with the next
/// revision and a completion time, and everything else is kept.
pub proof fn law_committing_operation_completes(before: OperationRecord, after: OperationRecord)
    requires
        before.state == OperationState::Committing,
        transitioned(before, OperationState::Completed, after),
    ensures
        allowed_transition(before.state, OperationState::Completed),
        after.state == OperationState::Completed,
        after.revision.0 == before.revision.0 + 1 || before.revision.0 == u64::MAX,
        after.completed_at is Some,
        after.id == before.id && after.kind == before.kind,
{
}

} // verus!
