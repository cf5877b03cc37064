//! Restore decisions: which modes a preview allows, the import plan that
//! lets tombstones suppress whatever depends on a deleted entity, the
//! checks before a staged restore is applied, the diff tally, and rollback
//! retention.
use vstd::prelude::*;

use crate::archive::{ArchiveManifest, CanonicalRecord, CanonicalValue, VerifiedArchive};
use crate::domain::{EntityId, IdempotencyKey, RepoError, UtcMillis};
use crate::operations::{CancellationToken, OperationKind, OperationRecord};
use crate::records::{
    primary_ids, primary_text_ids, references_any, refers_to, text_at, texts, RecordStatus,
};
use crate::text::{copy_string, lex_le, str_eq, str_le};

verus! {

pub const PREVIEW_TTL_MS: i64 = 900000;

pub const ROLLBACK_RETENTION_MS: i64 = 604800000;

pub const MAX_ROLLBACKS: usize = 3;

#[derive(Clone, Copy, Debug, PartialEq, Eq, Structural)]
pub enum RestoreMode {
    Merge,
    Replace,
}

/// What a restore would import, by outcome and by table.
#[derive(Clone, Copy, Debug, PartialEq, Eq, Structural)]
pub struct RestoreDiff {
    pub imported_records: u64,
    pub exact_duplicates: u64,
    pub conflicts: u64,
    pub tombstone_skips: u64,
    pub profiles: u64,
    pub encounters: u64,
    pub observations: u64,
    pub player_identities: u64,
    pub player_evidence: u64,
    pub player_empty_outcomes: u64,
    pub player_tombstones: u64,
}

pub open spec fn bump_sat(n: u64) -> u64 {
    if n == u64::MAX {
        n
    } else {
        (n + 1) as u64
    }
}

fn inc(n: u64) -> (r: u64)
    ensures
        r == bump_sat(n),
{
    if n == u64::MAX {
        n
    } else {
        n + 1
    }
}

impl RestoreDiff {
    pub fn new() -> (r: Self)
        ensures
            r == (RestoreDiff {
                imported_records: 0,
                exact_duplicates: 0,
                conflicts: 0,
                tombstone_skips: 0,
                profiles: 0,
                encounters: 0,
                observations: 0,
                player_identities: 0,
                player_evidence: 0,
                player_empty_outcomes: 0,
                player_tombstones: 0,
            }),
    {
        RestoreDiff {
            imported_records: 0,
            exact_duplicates: 0,
            conflicts: 0,
            tombstone_skips: 0,
            profiles: 0,
            encounters: 0,
            observations: 0,
            player_identities: 0,
            player_evidence: 0,
            player_empty_outcomes: 0,
            player_tombstones: 0,
        }
    }

    /// The diff after counting one staged record of `table` whose status
    /// against the live notebook is `status`.
    pub open spec fn counted(self, status: RecordStatus, table: Seq<char>) -> RestoreDiff {
        let d = match status {
            RecordStatus::Missing => RestoreDiff { imported_records: bump_sat(self.imported_records), ..self },
            RecordStatus::Exact => RestoreDiff { exact_duplicates: bump_sat(self.exact_duplicates), ..self },
            RecordStatus::Divergent => RestoreDiff { conflicts: bump_sat(self.conflicts), ..self },
        };
        if table == "opponent_profiles"@ {
            RestoreDiff { profiles: bump_sat(d.profiles), ..d }
        } else if table == "encounters"@ {
            RestoreDiff { encounters: bump_sat(d.encounters), ..d }
        } else if table == "observations"@ {
            RestoreDiff { observations: bump_sat(d.observations), ..d }
        } else if table == "player_identities"@ {
            RestoreDiff { player_identities: bump_sat(d.player_identities), ..d }
        } else if table == "player_evidence"@ {
            RestoreDiff { player_evidence: bump_sat(d.player_evidence), ..d }
        } else if table == "player_empty_outcomes"@ {
            RestoreDiff { player_empty_outcomes: bump_sat(d.player_empty_outcomes), ..d }
        } else if table == "player_tombstones"@ {
            RestoreDiff { player_tombstones: bump_sat(d.player_tombstones), ..d }
        } else {
            d
        }
    }

    /// Counts one staged record by its status and, for the tables a preview
    /// shows, by its table.
    pub fn count(&mut self, status: RecordStatus, table: &str)
        ensures
            *final(self) == old(self).counted(status, table@),
    {
        match status {
            RecordStatus::Missing => {
                self.imported_records = inc(self.imported_records);
            },
            RecordStatus::Exact => {
                self.exact_duplicates = inc(self.exact_duplicates);
            },
            RecordStatus::Divergent => {
                self.conflicts = inc(self.conflicts);
            },
        }
        if str_eq(table, "opponent_profiles") {
            self.profiles = inc(self.profiles);
        } else if str_eq(table, "encounters") {
            self.encounters = inc(self.encounters);
        } else if str_eq(table, "observations") {
            self.observations = inc(self.observations);
        } else if str_eq(table, "player_identities") {
            self.player_identities = inc(self.player_identities);
        } else if str_eq(table, "player_evidence") {
            self.player_evidence = inc(self.player_evidence);
        } else if str_eq(table, "player_empty_outcomes") {
            self.player_empty_outcomes = inc(self.player_empty_outcomes);
        } else if str_eq(table, "player_tombstones") {
            self.player_tombstones = inc(self.player_tombstones);
        }
    }
}

/// A rollback point a restore left behind.
#[derive(Debug, PartialEq, Eq)]
pub struct RollbackView {
    pub id: String,
    pub restore_operation_id: String,
    pub mode: RestoreMode,
    pub created_at: UtcMillis,
    pub expires_at: UtcMillis,
}

impl Clone for RollbackView {
    fn clone(&self) -> (r: Self)
        ensures
            r == *self,
    {
        RollbackView {
            id: self.id.clone(),
            restore_operation_id: self.restore_operation_id.clone(),
            mode: self.mode,
            created_at: self.created_at,
            expires_at: self.expires_at,
        }
    }
}

/// What a verified and staged archive would do, awaiting confirmation.
#[derive(Debug, PartialEq, Eq)]
pub struct RestorePreview {
    pub operation: OperationRecord,
    pub token: String,
    pub expires_at: UtcMillis,
    pub archive_sha256: String,
    pub manifest: ArchiveManifest,
    pub diff: RestoreDiff,
    pub allowed_modes: Vec<RestoreMode>,
    pub player_identity_conflict: bool,
}

/// Two previews agree field for field (lists by their elements).
pub open spec fn same_preview(a: RestorePreview, b: RestorePreview) -> bool {
    &&& a.operation == b.operation
    &&& a.token == b.token
    &&& a.expires_at == b.expires_at
    &&& a.archive_sha256 == b.archive_sha256
    &&& a.manifest.format_version == b.manifest.format_version
    &&& a.manifest.created_at == b.manifest.created_at
    &&& a.manifest.schema_min == b.manifest.schema_min
    &&& a.manifest.schema_max == b.manifest.schema_max
    &&& a.manifest.record_count == b.manifest.record_count
    &&& a.manifest.table_counts@ == b.manifest.table_counts@
    &&& a.manifest.table_hashes@ == b.manifest.table_hashes@
    &&& a.manifest.classifier_provenance@ == b.manifest.classifier_provenance@
    &&& a.diff == b.diff
    &&& a.allowed_modes@ == b.allowed_modes@
    &&& a.player_identity_conflict == b.player_identity_conflict
}

impl RestorePreview {
    pub fn copy(&self) -> (r: RestorePreview)
        ensures
            same_preview(r, *self),
    {
        let mut modes: Vec<RestoreMode> = Vec::new();
        let mut i: usize = 0;
        while i < self.allowed_modes.len()
            invariant
                i <= self.allowed_modes@.len(),
                modes@ == self.allowed_modes@.take(i as int),
            decreases self.allowed_modes.len() - i,
        {
            modes.push(self.allowed_modes[i]);
            proof {
                assert(self.allowed_modes@.take(i + 1) =~= self.allowed_modes@.take(i as int).push(self.allowed_modes@[i as int]));
            }
            i = i + 1;
        }
        proof {
            assert(self.allowed_modes@.take(self.allowed_modes@.len() as int) =~= self.allowed_modes@);
        }
        RestorePreview {
            operation: self.operation.clone(),
            token: self.token.clone(),
            expires_at: self.expires_at,
            archive_sha256: self.archive_sha256.clone(),
            manifest: self.manifest.copy(),
            diff: self.diff,
            allowed_modes: modes,
            player_identity_conflict: self.player_identity_conflict,
        }
    }
}

/// A preview with its staging database and the live notebook's digest at
/// preview time.
#[derive(Debug, PartialEq, Eq)]
pub struct StagedRestore {
    pub preview: RestorePreview,
    pub staging_path: String,
    pub live_digest: String,
}

/// What staging a restore preview starts from.
pub struct RestorePreviewInput {
    pub operation_id: EntityId,
    pub idempotency_key: IdempotencyKey,
    pub archive_path: String,
    pub passphrase: String,
    pub cancellation: CancellationToken,
}

#[derive(Debug, PartialEq, Eq)]
pub struct RestoreResult {
    pub operation: OperationRecord,
    pub mode: RestoreMode,
    pub imported_records: u64,
    pub exact_duplicates: u64,
    pub conflicts: u64,
    pub tombstone_skips: u64,
    pub rollback: RollbackView,
}

pub open spec fn opt_text(o: Option<String>) -> Option<Seq<char>> {
    match o {
        Some(s) => Some(s@),
        None => None,
    }
}

/// The live notebook and the archive each have a Player identity, and not
/// the same one.
pub fn player_identity_conflict(live: &Option<String>, archived: &Option<String>) -> (r: bool)
    ensures
        r == (live is Some && archived is Some && opt_text(*live) != opt_text(*archived)),
{
    match (live, archived) {
        (Some(a), Some(b)) => !str_eq(a.as_str(), b.as_str()),
        _ => false,
    }
}

/// Replace is always offered; merge only without an identity conflict.
pub fn allowed_modes(player_identity_conflict: bool) -> (r: Vec<RestoreMode>)
    ensures
        player_identity_conflict ==> r@ == seq![RestoreMode::Replace],
        !player_identity_conflict ==> r@ == seq![RestoreMode::Merge, RestoreMode::Replace],
{
    let mut modes: Vec<RestoreMode> = Vec::new();
    if !player_identity_conflict {
        modes.push(RestoreMode::Merge);
    }
    modes.push(RestoreMode::Replace);
    proof {
        if player_identity_conflict {
            assert(modes@ =~= seq![RestoreMode::Replace]);
        } else {
            assert(modes@ =~= seq![RestoreMode::Merge, RestoreMode::Replace]);
        }
    }
    modes
}

/// The operation kind that applies a restore mode.
pub fn restore_kind(mode: RestoreMode) -> (r: OperationKind)
    ensures
        mode == RestoreMode::Merge ==> r == OperationKind::RestoreMerge,
        mode == RestoreMode::Replace ==> r == OperationKind::RestoreReplace,
{
    match mode {
        RestoreMode::Merge => OperationKind::RestoreMerge,
        RestoreMode::Replace => OperationKind::RestoreReplace,
    }
}

/// Why a staged restore may not be applied, if it may not: an expired
/// preview, a live notebook that changed since the preview, or a missing
/// staging database make the request invalid; merging across an identity
/// conflict is refused.
pub open spec fn apply_refusal(
    preview_expires_at: UtcMillis,
    now: UtcMillis,
    live_unchanged: bool,
    staging_present: bool,
    identity_conflict: bool,
    mode: RestoreMode,
) -> Option<RepoError> {
    if preview_expires_at.0 <= now.0 || !live_unchanged || !staging_present {
        Some(RepoError::InvalidRequest)
    } else if identity_conflict && mode == RestoreMode::Merge {
        Some(RepoError::MergeConflict)
    } else {
        None
    }
}

pub fn check_apply(
    staged: &StagedRestore,
    now: UtcMillis,
    current_live_digest: &str,
    staging_present: bool,
    mode: RestoreMode,
) -> (r: Result<(), RepoError>)
    ensures
        match apply_refusal(
            staged.preview.expires_at,
            now,
            staged.live_digest@ == current_live_digest@,
            staging_present,
            staged.preview.player_identity_conflict,
            mode,
        ) {
            Some(e) => r == Err::<(), RepoError>(e),
            None => r is Ok,
        },
{
    if staged.preview.expires_at.get() <= now.get() || !str_eq(
        staged.live_digest.as_str(),
        current_live_digest,
    ) || !staging_present {
        return Err(RepoError::InvalidRequest);
    }
    if staged.preview.player_identity_conflict && mode == RestoreMode::Merge {
        return Err(RepoError::MergeConflict);
    }
    Ok(())
}

/// Deletion tombstones of either kind.
pub open spec fn is_tombstone(record: CanonicalRecord) -> bool {
    record.table@ == "deletion_tombstones"@ || record.table@ == "player_tombstones"@
}

pub fn is_tombstone_record(record: &CanonicalRecord) -> (r: bool)
    ensures
        r == is_tombstone(*record),
{
    str_eq(record.table.as_str(), "deletion_tombstones") || str_eq(
        record.table.as_str(),
        "player_tombstones",
    )
}

/// The entity ids a tombstone suppresses: the deleted entity, and for a
/// Player tombstone also the identity it belonged to.
pub open spec fn tombstone_ids(record: CanonicalRecord) -> Seq<Seq<char>> {
    let first = match text_at(record.values@, 1) {
        Some(t) => seq![t],
        None => Seq::empty(),
    };
    if record.table@ == "player_tombstones"@ {
        first + match text_at(record.values@, 2) {
            Some(t) => seq![t],
            None => Seq::empty(),
        }
    } else {
        first
    }
}

fn add_id(ids: &mut Vec<String>, value: &str)
    ensures
        forall|v: Seq<char>|
            texts(final(ids)@).contains(v) <==> (texts(old(ids)@).contains(v) || v == value@),
{
    let mut i: usize = 0;
    while i < ids.len()
        invariant
            i <= ids@.len(),
            *ids == *old(ids),
            forall|k: int| 0 <= k < i ==> ids@[k]@ != value@,
        decreases ids.len() - i,
    {
        if str_eq(ids[i].as_str(), value) {
            proof {
                assert(texts(ids@)[i as int] == value@);
                assert(texts(ids@).contains(value@));
            }
            return;
        }
        i = i + 1;
    }
    let ghost before = ids@;
    assert(before == old(ids)@);
    ids.push(copy_string(value));
    proof {
        assert forall|v: Seq<char>| texts(ids@).contains(v) <==> (texts(before).contains(v) || v == value@) by {
            if texts(ids@).contains(v) {
                let k = choose|k: int| 0 <= k < texts(ids@).len() && texts(ids@)[k] == v;
                if k < before.len() {
                    assert(texts(before)[k] == v);
                } else {
                    assert(ids@[k]@ == value@);
                }
            }
            if texts(before).contains(v) {
                let k = choose|k: int| 0 <= k < texts(before).len() && texts(before)[k] == v;
                assert(texts(ids@)[k] == v);
            }
            if v == value@ {
                assert(texts(ids@)[before.len() as int] == v);
            }
        }
    }
}

/// Adds a tombstone's suppressed ids to `ids`.
pub fn extend_tombstone_ids(record: &CanonicalRecord, ids: &mut Vec<String>)
    ensures
        extends_by(texts(old(ids)@), texts(final(ids)@), tombstone_ids(*record)),
{
    let ghost start = texts(ids@);
    if 1 < record.values.len() {
        match &record.values[1] {
            CanonicalValue::Text(value) => {
                add_id(ids, value.as_str());
            },
            _ => {},
        }
    }
    let ghost middle = texts(ids@);
    if str_eq(record.table.as_str(), "player_tombstones") && 2 < record.values.len() {
        match &record.values[2] {
            CanonicalValue::Text(value) => {
                add_id(ids, value.as_str());
            },
            _ => {},
        }
    }
    proof {
        assert forall|v: Seq<char>|
            texts(ids@).contains(v) <==> (start.contains(v) || tombstone_ids(*record).contains(v)) by {
            let first = match text_at(record.values@, 1) {
                Some(t) => seq![t],
                None => Seq::<Seq<char>>::empty(),
            };
            let second = match text_at(record.values@, 2) {
                Some(t) => seq![t],
                None => Seq::<Seq<char>>::empty(),
            };
            if tombstone_ids(*record).contains(v) {
                if record.table@ == "player_tombstones"@ {
                    let k = choose|k: int| 0 <= k < (first + second).len() && (first + second)[k] == v;
                    if k < first.len() {
                        assert(first[k] == v);
                    } else {
                        assert(second[k - first.len()] == v);
                    }
                } else {
                    let k = choose|k: int| 0 <= k < first.len() && first[k] == v;
                }
            }
            if middle.contains(v) && !start.contains(v) {
                assert(first.len() == 1 && first[0] == v);
                assert(tombstone_ids(*record)[0] == v);
            }
            if texts(ids@).contains(v) && !middle.contains(v) {
                assert(second.len() == 1 && second[0] == v);
                assert(tombstone_ids(*record)[first.len() as int] == v);
            }
        }
    }
}

/// Tombstones first, then every other record, each group in its original
/// order.
pub open spec fn import_order(records: Seq<CanonicalRecord>) -> Seq<CanonicalRecord> {
    records.filter(tombstone_pred()) + records.filter(other_pred())
}

pub open spec fn tombstone_pred() -> spec_fn(CanonicalRecord) -> bool {
    |r: CanonicalRecord| is_tombstone(r)
}

pub open spec fn other_pred() -> spec_fn(CanonicalRecord) -> bool {
    |r: CanonicalRecord| !is_tombstone(r)
}

/// The import state after a record: the records inserted, the suppressed
/// ids (as a membership predicate's witnesses) and the skip count.
pub open spec fn plan_step(
    state: (Seq<CanonicalRecord>, Seq<Seq<char>>, u64),
    record: CanonicalRecord,
) -> (Seq<CanonicalRecord>, Seq<Seq<char>>, u64) {
    if is_tombstone(record) {
        (state.0.push(record), state.1 + tombstone_ids(record), state.2)
    } else if refers_to(record, state.1) {
        (state.0, state.1 + primary_ids(record), bump_sat(state.2))
    } else {
        (state.0.push(record), state.1, state.2)
    }
}

pub open spec fn plan_fold(
    records: Seq<CanonicalRecord>,
    state: (Seq<CanonicalRecord>, Seq<Seq<char>>, u64),
) -> (Seq<CanonicalRecord>, Seq<Seq<char>>, u64)
    decreases records.len(),
{
    if records.len() == 0 {
        state
    } else {
        plan_step(plan_fold(records.drop_last(), state), records.last())
    }
}

/// Which staged records to insert: tombstones always; any other record is
/// skipped when it refers to a suppressed id, and then its own ids are
/// suppressed too, so the whole dependent graph of a deleted entity stays
/// out.
pub struct ImportPlan {
    pub insert: Vec<CanonicalRecord>,
    pub suppressed: Vec<String>,
    pub tombstone_skips: u64,
}

/// `after` holds exactly what `before` or `extra` holds.
pub open spec fn extends_by(before: Seq<Seq<char>>, after: Seq<Seq<char>>, extra: Seq<Seq<char>>) -> bool {
    forall|v: Seq<char>| #[trigger] after.contains(v) <==> (before.contains(v) || extra.contains(v))
}

pub open spec fn same_members(a: Seq<Seq<char>>, b: Seq<Seq<char>>) -> bool {
    forall|v: Seq<char>| a.contains(v) <==> b.contains(v)
}

proof fn lemma_refers_members(record: CanonicalRecord, a: Seq<Seq<char>>, b: Seq<Seq<char>>)
    requires
        same_members(a, b),
    ensures
        refers_to(record, a) == refers_to(record, b),
{
    if refers_to(record, a) && crate::records::table_shape(record.table@) is Some {
        let shape = crate::records::table_shape(record.table@)->0;
        let i = choose|i: int|
            0 <= i < shape.0.len() && crate::records::is_id_column(#[trigger] shape.0[i])
                && crate::records::id_hit(record.values@, i, a);
        assert(crate::records::id_hit(record.values@, i, b));
    }
    if refers_to(record, b) && crate::records::table_shape(record.table@) is Some {
        let shape = crate::records::table_shape(record.table@)->0;
        let i = choose|i: int|
            0 <= i < shape.0.len() && crate::records::is_id_column(#[trigger] shape.0[i])
                && crate::records::id_hit(record.values@, i, b);
        assert(crate::records::id_hit(record.values@, i, a));
    }
}

proof fn lemma_concat_members(a: Seq<Seq<char>>, b: Seq<Seq<char>>, v: Seq<char>)
    ensures
        (a + b).contains(v) <==> (a.contains(v) || b.contains(v)),
{
    if (a + b).contains(v) {
        let k = choose|k: int| 0 <= k < (a + b).len() && (a + b)[k] == v;
        if k < a.len() {
            assert(a[k] == v);
        } else {
            assert(b[k - a.len()] == v);
        }
    }
    if a.contains(v) {
        let k = choose|k: int| 0 <= k < a.len() && a[k] == v;
        assert((a + b)[k] == v);
    }
    if b.contains(v) {
        let k = choose|k: int| 0 <= k < b.len() && b[k] == v;
        assert((a + b)[a.len() + k] == v);
    }
}

/// The elements of `v` in reverse, so that popping yields them in order.
fn reversed<T>(v: Vec<T>) -> (r: Vec<T>)
    ensures
        r@.len() == v@.len(),
        forall|k: int| 0 <= k < v@.len() ==> #[trigger] r@[k] == v@[v@.len() - 1 - k],
{
    let ghost all = v@;
    let mut rest = v;
    let mut out: Vec<T> = Vec::new();
    while rest.len() > 0
        invariant
            rest@ == all.take(rest@.len() as int),
            rest@.len() <= all.len(),
            out@.len() == all.len() - rest@.len(),
            forall|k: int| 0 <= k < out@.len() ==> #[trigger] out@[k] == all[all.len() - 1 - k],
        decreases rest.len(),
    {
        let ghost before = rest@;
        let item = rest.pop().unwrap();
        proof {
            assert(item == all[before.len() - 1]);
            assert(rest@ =~= all.take(rest@.len() as int));
        }
        out.push(item);
    }
    out
}

proof fn lemma_filter_take_step(s: Seq<CanonicalRecord>, p: int, pred: spec_fn(CanonicalRecord) -> bool)
    requires
        0 <= p < s.len(),
    ensures
        s.take(p + 1).filter(pred) == if pred(s[p]) {
            s.take(p).filter(pred).push(s[p])
        } else {
            s.take(p).filter(pred)
        },
{
    assert(s.take(p + 1) =~= s.take(p).push(s[p]));
    s.take(p).lemma_filter_push(s[p], pred);
}

proof fn lemma_push_members(s: Seq<Seq<char>>, x: Seq<char>, v: Seq<char>)
    ensures
        s.push(x).contains(v) <==> (s.contains(v) || v == x),
{
    if s.push(x).contains(v) {
        let k = choose|k: int| 0 <= k < s.push(x).len() && s.push(x)[k] == v;
        if k < s.len() {
            assert(s[k] == v);
        }
    }
    if s.contains(v) {
        let k = choose|k: int| 0 <= k < s.len() && s[k] == v;
        assert(s.push(x)[k] == v);
    }
    if v == x {
        assert(s.push(x)[s.len() as int] == v);
    }
}

/// Tombstones first, then the rest, each group in order (the same order
/// as `import_order`).
pub fn order_for_import(records: Vec<CanonicalRecord>) -> (r: Vec<CanonicalRecord>)
    ensures
        r@ == import_order(records@),
{
    let ghost all = records@;
    let mut queue = reversed(records);
    let mut tombstones: Vec<CanonicalRecord> = Vec::new();
    let mut others: Vec<CanonicalRecord> = Vec::new();
    while queue.len() > 0
        invariant
            queue@.len() <= all.len(),
            forall|k: int| 0 <= k < queue@.len() ==> #[trigger] queue@[k] == all[all.len() - 1 - k],
            tombstones@ == all.take(all.len() - queue@.len()).filter(tombstone_pred()),
            others@ == all.take(all.len() - queue@.len()).filter(other_pred()),
        decreases queue.len(),
    {
        let ghost p = all.len() - queue@.len();
        let record = queue.pop().unwrap();
        proof {
            assert(record == all[p]);
            lemma_filter_take_step(all, p, tombstone_pred());
            lemma_filter_take_step(all, p, other_pred());
        }
        if is_tombstone_record(&record) {
            tombstones.push(record);
        } else {
            others.push(record);
        }
    }
    proof {
        assert(all.take(all.len() as int) =~= all);
    }
    let mut ordered = tombstones;
    ordered.append(&mut others);
    ordered
}

/// Orders the records for import and plans them against the ids already
/// suppressed in the live notebook.
pub fn plan_staging_import(records: Vec<CanonicalRecord>, suppressed: Vec<String>) -> (r: ImportPlan)
    ensures
        ({
            let planned = plan_fold(import_order(records@), (Seq::empty(), texts(suppressed@), 0u64));
            &&& r.insert@ == planned.0
            &&& r.tombstone_skips == planned.2
            &&& same_members(texts(r.suppressed@), planned.1)
        }),
{
    let ghost start = texts(suppressed@);
    let ordered = order_for_import(records);
    let ghost all = ordered@;
    let mut queue = reversed(ordered);
    let mut insert: Vec<CanonicalRecord> = Vec::new();
    let mut ids = suppressed;
    let mut skips: u64 = 0;
    while queue.len() > 0
        invariant
            queue@.len() <= all.len(),
            forall|k: int| 0 <= k < queue@.len() ==> #[trigger] queue@[k] == all[all.len() - 1 - k],
            ({
                let st = plan_fold(all.take(all.len() - queue@.len()), (Seq::empty(), start, 0u64));
                &&& insert@ == st.0
                &&& skips == st.2
                &&& same_members(texts(ids@), st.1)
            }),
        decreases queue.len(),
    {
        let ghost p = all.len() - queue@.len();
        let ghost st = plan_fold(all.take(p), (Seq::empty(), start, 0u64));
        let record = queue.pop().unwrap();
        proof {
            assert(record == all[p]);
            assert(all.take(p + 1).drop_last() =~= all.take(p));
            assert(all.take(p + 1).last() == record);
        }
        if is_tombstone_record(&record) {
            let ghost before = texts(ids@);
            assert(same_members(before, st.1));
            let ghost old_ids = ids@;
            extend_tombstone_ids(&record, &mut ids);
            proof {
                assert(extends_by(texts(old_ids), texts(ids@), tombstone_ids(record)));
                assert(texts(old_ids) == before);
                let after = texts(ids@);
                assert forall|v: Seq<char>| #[trigger] after.contains(v) <==> (st.1 + tombstone_ids(record)).contains(v) by {
                    lemma_concat_members(st.1, tombstone_ids(record), v);
                    assert(before.contains(v) <==> st.1.contains(v));
                    assert(after.contains(v) <==> (before.contains(v) || tombstone_ids(record).contains(v)));
                }
                assert(same_members(after, st.1 + tombstone_ids(record)));
            }
            insert.push(record);
        } else {
            let refers = references_any(&record, &ids);
            proof {
                lemma_refers_members(record, texts(ids@), st.1);
            }
            if refers {
                let keys = primary_text_ids(&record);
                let ghost before = texts(ids@);
                let mut k: usize = 0;
                while k < keys.len()
                    invariant
                        k <= keys@.len(),
                        forall|v: Seq<char>|
                            texts(ids@).contains(v) <==> (before.contains(v) || texts(keys@).take(k as int).contains(v)),
                    decreases keys.len() - k,
                {
                    assert(forall|v: Seq<char>| texts(ids@).contains(v) <==> (before.contains(v) || texts(keys@).take(k as int).contains(v)));
                    let ghost mid = texts(ids@);
                    assert(forall|v: Seq<char>| mid.contains(v) <==> (before.contains(v) || texts(keys@).take(k as int).contains(v)));
                    add_id(&mut ids, keys[k].as_str());
                    proof {
                        let after = texts(ids@);
                        let prev = texts(keys@).take(k as int);
                        let next = texts(keys@).take(k + 1);
                        assert(next =~= prev.push(keys@[k as int]@));
                        assert forall|v: Seq<char>| #[trigger] after.contains(v) <==> (before.contains(v) || next.contains(v)) by {
                            lemma_push_members(prev, keys@[k as int]@, v);
                            assert(after.contains(v) <==> (mid.contains(v) || v == keys@[k as int]@));
                            assert(mid.contains(v) <==> (before.contains(v) || prev.contains(v)));
                        }
                    }
                    k = k + 1;
                }
                proof {
                    assert(texts(keys@).take(keys@.len() as int) =~= texts(keys@));
                    assert forall|v: Seq<char>| texts(ids@).contains(v) <==> (st.1 + primary_ids(record)).contains(v) by {
                        lemma_concat_members(st.1, primary_ids(record), v);
                        assert(before.contains(v) <==> st.1.contains(v));
                    }
                }
                skips = inc(skips);
            } else {
                insert.push(record);
            }
        }
    }
    proof {
        assert(all.take(all.len() as int) =~= all);
    }
    ImportPlan { insert, suppressed: ids, tombstone_skips: skips }
}


/// Rollback `a` is listed no later than `b`: newer first, ties by
/// identifier.
pub open spec fn rollback_le(a: RollbackView, b: RollbackView) -> bool {
    a.created_at.0 > b.created_at.0 || (a.created_at.0 == b.created_at.0 && lex_le(a.id@, b.id@))
}

pub open spec fn rollbacks_ordered(s: Seq<RollbackView>) -> bool {
    forall|i: int, j: int| 0 <= i <= j < s.len() ==> rollback_le(#[trigger] s[i], #[trigger] s[j])
}

proof fn lemma_rollback_le_transitive(a: RollbackView, b: RollbackView, c: RollbackView)
    requires
        rollback_le(a, b),
        rollback_le(b, c),
    ensures
        rollback_le(a, c),
{
    if a.created_at.0 == b.created_at.0 && b.created_at.0 == c.created_at.0 {
        crate::text::lemma_lex_le_transitive(a.id@, b.id@, c.id@);
    }
}

proof fn lemma_rollback_le_total(a: RollbackView, b: RollbackView)
    ensures
        rollback_le(a, b) || rollback_le(b, a),
{
    crate::text::lemma_lex_le_total(a.id@, b.id@);
}

/// The rollbacks newest first, ties by identifier (a stable sort).
pub fn order_rollbacks(views: Vec<RollbackView>) -> (r: Vec<RollbackView>)
    ensures
        rollbacks_ordered(r@),
        r@.to_multiset() == views@.to_multiset(),
{
    let mut sorted: Vec<RollbackView> = Vec::new();
    let mut i: usize = 0;
    assert(sorted@ =~= views@.take(0));
    while i < views.len()
        invariant
            i <= views@.len(),
            rollbacks_ordered(sorted@),
            sorted@.to_multiset() == views@.take(i as int).to_multiset(),
        decreases views.len() - i,
    {
        let v = views[i].clone();
        let mut p: usize = sorted.len();
        while p > 0 && !(sorted[p - 1].created_at.get() > v.created_at.get() || (
        sorted[p - 1].created_at.get() == v.created_at.get() && str_le(
            sorted[p - 1].id.as_str(),
            v.id.as_str(),
        )))
            invariant
                p <= sorted@.len(),
                forall|k: int| p <= k < sorted@.len() ==> !rollback_le(#[trigger] sorted@[k], v),
            decreases p,
        {
            p = p - 1;
        }
        proof {
            vstd::seq_lib::to_multiset_insert(sorted@, p as int, v);
            assert(views@.take(i + 1) =~= views@.take(i as int).push(views@[i as int]));
            vstd::seq_lib::to_multiset_build(views@.take(i as int), views@[i as int]);
        }
        let ghost before = sorted@;
        sorted.insert(p, v);
        proof {
            assert forall|a: int, b: int| 0 <= a <= b < sorted@.len() implies rollback_le(
                #[trigger] sorted@[a],
                #[trigger] sorted@[b],
            ) by {
                if a == b {
                    crate::text::lemma_lex_le_reflexive(sorted@[a].id@);
                } else if b < p {
                    assert(sorted@[a] == before[a] && sorted@[b] == before[b]);
                } else if b == p {
                    assert(rollback_le(before[a], before[p - 1]));
                    lemma_rollback_le_transitive(before[a], before[p - 1], v);
                } else if a == p {
                    assert(sorted@[b] == before[b - 1]);
                    lemma_rollback_le_total(before[b - 1], v);
                } else if a < p {
                    assert(sorted@[b] == before[b - 1]);
                    assert(rollback_le(before[a], before[b - 1]));
                } else {
                    assert(sorted@[a] == before[a - 1] && sorted@[b] == before[b - 1]);
                    assert(rollback_le(before[a - 1], before[b - 1]));
                }
            }
        }
        i = i + 1;
    }
    proof {
        assert(views@.take(views@.len() as int) =~= views@);
    }
    sorted
}

/// Whether a rollback has expired at `now`.
pub open spec fn rollback_expired(view: RollbackView, now: UtcMillis) -> bool {
    view.expires_at.0 < now.0
}

/// The rollbacks kept: among the newest [`MAX_ROLLBACKS`], those that
/// have not expired, in order.
pub open spec fn kept_rollbacks(ordered: Seq<RollbackView>, now: UtcMillis) -> Seq<RollbackView> {
    ordered.take(if ordered.len() < 3 { ordered.len() as int } else { 3 }).filter(unexpired(now))
}

pub open spec fn unexpired(now: UtcMillis) -> spec_fn(RollbackView) -> bool {
    |v: RollbackView| !rollback_expired(v, now)
}

/// Splits ordered rollbacks into those kept and those pruned: any beyond
/// the newest [`MAX_ROLLBACKS`], and any that expired.
pub fn prune_rollbacks(ordered: Vec<RollbackView>, now: UtcMillis) -> (r: (Vec<RollbackView>, Vec<RollbackView>))
    ensures
        r.0@ == kept_rollbacks(ordered@, now),
        r.0@.len() <= MAX_ROLLBACKS,
        forall|k: int| 0 <= k < r.0@.len() ==> !rollback_expired(#[trigger] r.0@[k], now),
        forall|k: int| 0 <= k < r.1@.len() ==> ordered@.contains(#[trigger] r.1@[k]),
        r.0@.len() + r.1@.len() == ordered@.len(),
{
    let ghost keep = unexpired(now);
    let ghost n: int = if ordered@.len() < 3 { ordered@.len() as int } else { 3 };
    let mut kept: Vec<RollbackView> = Vec::new();
    let mut pruned: Vec<RollbackView> = Vec::new();
    let mut i: usize = 0;
    while i < ordered.len()
        invariant
            i <= ordered@.len(),
            keep == unexpired(now),
            kept@ == ordered@.take(if i < 3 { i as int } else { 3 }).filter(keep),
            kept@.len() <= i,
            forall|k: int| 0 <= k < pruned@.len() ==> ordered@.contains(#[trigger] pruned@[k]),
            kept@.len() + pruned@.len() == i,
        decreases ordered.len() - i,
    {
        let v = ordered[i].clone();
        proof {
            let s = ordered@;
            if i < 3 {
                assert(s.take(i + 1) =~= s.take(i as int).push(s[i as int]));
                s.take(i as int).lemma_filter_push(s[i as int], keep);
            } else {
                assert(s.take(if i + 1 < 3 { i + 1 } else { 3 }) =~= s.take(3));
            }
            assert(s[i as int] == v);
        }
        let ghost prev = kept@;
        if i < MAX_ROLLBACKS && !(v.expires_at.get() < now.get()) {
            assert(keep(v));
            kept.push(v);
            assert(kept@ == prev.push(v));
        } else {
            pruned.push(v);
        }
        i = i + 1;
        proof {
            assert(kept@ == ordered@.take(if i < 3 { i as int } else { 3 }).filter(keep));
        }
    }
    proof {
        let t = ordered@.take(n);
        assert(ordered@.take(if i < 3 { i as int } else { 3 }) =~= t);
        t.lemma_filter_len(keep);
        assert forall|k: int| 0 <= k < kept@.len() implies !rollback_expired(#[trigger] kept@[k], now) by {
            t.lemma_filter_pred(keep, k);
        }
    }
    (kept, pruned)
}

proof fn lemma_plan_fold_concat(
    a: Seq<CanonicalRecord>,
    b: Seq<CanonicalRecord>,
    state: (Seq<CanonicalRecord>, Seq<Seq<char>>, u64),
)
    ensures
        plan_fold(a + b, state) == plan_fold(b, plan_fold(a, state)),
    decreases b.len(),
{
    if b.len() == 0 {
        assert(a + b =~= a);
    } else {
        lemma_plan_fold_concat(a, b.drop_last(), state);
        assert((a + b).drop_last() =~= a + b.drop_last());
        assert((a + b).last() == b.last());
    }
}

proof fn lemma_suppression_grows(
    records: Seq<CanonicalRecord>,
    state: (Seq<CanonicalRecord>, Seq<Seq<char>>, u64),
    v: Seq<char>,
)
    requires
        state.1.contains(v),
    ensures
        plan_fold(records, state).1.contains(v),
    decreases records.len(),
{
    if records.len() > 0 {
        lemma_suppression_grows(records.drop_last(), state, v);
        let inner = plan_fold(records.drop_last(), state);
        let r = records.last();
        lemma_concat_members(inner.1, tombstone_ids(r), v);
        lemma_concat_members(inner.1, primary_ids(r), v);
    }
}

/// Planning an import never un-suppresses an identifier: whatever was
/// suppressed before is still suppressed after any further records.
pub proof fn law_suppression_only_grows(
    records: Seq<CanonicalRecord>,
    state: (Seq<CanonicalRecord>, Seq<Seq<char>>, u64),
    v: Seq<char>,
)
    requires
        state.1.contains(v),
    ensures
        plan_fold(records, state).1.contains(v),
{
    lemma_suppression_grows(records, state, v);
}

/// Tombstones suppress the whole dependency graph: a record that, when it
/// is reached, refers to a suppressed identifier is not imported, is
/// counted as a tombstone skip, and its own identifiers stay suppressed for
/// every record after it, so whatever depends on it is skipped in turn.
pub proof fn law_dependents_of_suppressed_are_skipped(
    records: Seq<CanonicalRecord>,
    state: (Seq<CanonicalRecord>, Seq<Seq<char>>, u64),
    i: int,
    k: Seq<char>,
)
    requires
        0 <= i < records.len(),
        !is_tombstone(records[i]),
        refers_to(records[i], plan_fold(records.take(i), state).1),
    ensures
        plan_fold(records.take(i + 1), state).0 == plan_fold(records.take(i), state).0,
        plan_fold(records.take(i + 1), state).2 == bump_sat(plan_fold(records.take(i), state).2),
        primary_ids(records[i]).contains(k) ==> plan_fold(records, state).1.contains(k),
{
    let before = plan_fold(records.take(i), state);
    assert(records.take(i + 1).drop_last() =~= records.take(i));
    assert(records.take(i + 1).last() == records[i]);
    let after = plan_fold(records.take(i + 1), state);
    if primary_ids(records[i]).contains(k) {
        lemma_concat_members(before.1, primary_ids(records[i]), k);
        assert(after.1.contains(k));
        lemma_plan_fold_concat(records.take(i + 1), records.skip(i + 1), state);
        assert(records.take(i + 1) + records.skip(i + 1) =~= records);
        lemma_suppression_grows(records.skip(i + 1), after, k);
    }
}

/// Tombstones themselves are always imported, and what they name is
/// suppressed from then on.
pub proof fn law_tombstones_are_imported(
    records: Seq<CanonicalRecord>,
    state: (Seq<CanonicalRecord>, Seq<Seq<char>>, u64),
    i: int,
    k: Seq<char>,
)
    requires
        0 <= i < records.len(),
        is_tombstone(records[i]),
    ensures
        plan_fold(records.take(i + 1), state).0 == plan_fold(records.take(i), state).0.push(records[i]),
        tombstone_ids(records[i]).contains(k) ==> plan_fold(records, state).1.contains(k),
{
    let before = plan_fold(records.take(i), state);
    assert(records.take(i + 1).drop_last() =~= records.take(i));
    assert(records.take(i + 1).last() == records[i]);
    let after = plan_fold(records.take(i + 1), state);
    if tombstone_ids(records[i]).contains(k) {
        lemma_concat_members(before.1, tombstone_ids(records[i]), k);
        lemma_plan_fold_concat(records.take(i + 1), records.skip(i + 1), state);
        assert(records.take(i + 1) + records.skip(i + 1) =~= records);
        lemma_suppression_grows(records.skip(i + 1), after, k);
    }
}

/// How a staged record counts in a preview: a missing record whose
/// identity the live notebook already holds under another id counts as an
/// exact duplicate.
pub open spec fn diff_status(status: RecordStatus, mapped: bool) -> RecordStatus {
    if status == RecordStatus::Missing && mapped {
        RecordStatus::Exact
    } else {
        status
    }
}

/// One staged record as the preview counts it: its table, its status
/// against the live notebook, and whether the live notebook holds its
/// identity under another id.
#[derive(Debug, PartialEq, Eq)]
pub struct DiffEntry {
    pub table: String,
    pub status: RecordStatus,
    pub mapped: bool,
}

pub open spec fn diff_fold(entries: Seq<DiffEntry>) -> RestoreDiff
    decreases entries.len(),
{
    if entries.len() == 0 {
        RestoreDiff {
            imported_records: 0,
            exact_duplicates: 0,
            conflicts: 0,
            tombstone_skips: 0,
            profiles: 0,
            encounters: 0,
            observations: 0,
            player_identities: 0,
            player_evidence: 0,
            player_empty_outcomes: 0,
            player_tombstones: 0,
        }
    } else {
        let e = entries.last();
        diff_fold(entries.drop_last()).counted(diff_status(e.status, e.mapped), e.table@)
    }
}

/// The preview's tally of the staged records, in order.
pub fn calculate_diff(entries: &Vec<DiffEntry>) -> (r: RestoreDiff)
    ensures
        r == diff_fold(entries@),
{
    let mut diff = RestoreDiff::new();
    let mut i: usize = 0;
    while i < entries.len()
        invariant
            i <= entries@.len(),
            diff == diff_fold(entries@.take(i as int)),
        decreases entries.len() - i,
    {
        let e = &entries[i];
        let status = if e.status == RecordStatus::Missing && e.mapped {
            RecordStatus::Exact
        } else {
            e.status
        };
        diff.count(status, e.table.as_str());
        proof {
            assert(entries@.take(i + 1).drop_last() =~= entries@.take(i as int));
            assert(entries@.take(i + 1).last() == entries@[i as int]);
        }
        i = i + 1;
    }
    proof {
        assert(entries@.take(entries@.len() as int) =~= entries@);
    }
    diff
}

/// A staged archive must have been written by a schema this notebook
/// has.
pub fn check_schema_range(schema_version: i64, manifest: &ArchiveManifest) -> (r: Result<(), RepoError>)
    ensures
        (schema_version < manifest.schema_min || schema_version > manifest.schema_max) ==> r == Err::<
            (),
            RepoError,
        >(RepoError::InvalidBackup),
        !(schema_version < manifest.schema_min || schema_version > manifest.schema_max) ==> r is Ok,
{
    if schema_version < manifest.schema_min || schema_version > manifest.schema_max {
        Err(RepoError::InvalidBackup)
    } else {
        Ok(())
    }
}

/// What a restore preview stages from a verified archive: refused as an
/// invalid backup when the archive's schema range does not hold the
/// notebook's schema; otherwise the staging plan for its records, given
/// the ids the live notebook's tombstones already suppress.
pub fn plan_restore_staging(
    schema_version: i64,
    manifest: &ArchiveManifest,
    records: Vec<CanonicalRecord>,
    suppressed: Vec<String>,
) -> (r: Result<ImportPlan, RepoError>)
    ensures
        (schema_version < manifest.schema_min || schema_version > manifest.schema_max) ==> r is Err
            && r->Err_0 == RepoError::InvalidBackup,
        !(schema_version < manifest.schema_min || schema_version > manifest.schema_max) ==> (r matches Ok(plan) && {
            let planned = plan_fold(import_order(records@), (Seq::empty(), texts(suppressed@), 0u64));
            &&& plan.insert@ == planned.0
            &&& plan.tombstone_skips == planned.2
            &&& same_members(texts(plan.suppressed@), planned.1)
        }),
{
    if let Err(e) = check_schema_range(schema_version, manifest) {
        return Err(e);
    }
    Ok(plan_staging_import(records, suppressed))
}

/// The staged restore a preview hands out: valid for [`PREVIEW_TTL_MS`]
/// from `now`, with the staging tally (its tombstone skips counted while
/// staging), and merge offered only when the two notebooks do not hold
/// different Player identities.
pub fn assemble_preview(
    operation: OperationRecord,
    token: String,
    now: UtcMillis,
    verified: VerifiedArchive,
    diff: RestoreDiff,
    tombstone_skips: u64,
    live_player: &Option<String>,
    archived_player: &Option<String>,
    staging_path: String,
    live_digest: String,
) -> (r: Result<StagedRestore, RepoError>)
    ensures
        !(0 <= now.0 + PREVIEW_TTL_MS <= i64::MAX) ==> r == Err::<StagedRestore, RepoError>(
            RepoError::InvalidRequest,
        ),
        (0 <= now.0 + PREVIEW_TTL_MS <= i64::MAX) ==> (r matches Ok(s) && {
            let conflict = live_player is Some && archived_player is Some && opt_text(*live_player)
                != opt_text(*archived_player);
            &&& s.preview.operation == operation
            &&& s.preview.token == token
            &&& s.preview.expires_at.0 == now.0 + PREVIEW_TTL_MS
            &&& s.preview.archive_sha256 == verified.archive_sha256
            &&& s.preview.manifest == verified.manifest
            &&& s.preview.diff == (RestoreDiff { tombstone_skips, ..diff })
            &&& s.preview.player_identity_conflict == conflict
            &&& (conflict ==> s.preview.allowed_modes@ == seq![RestoreMode::Replace])
            &&& (!conflict ==> s.preview.allowed_modes@ == seq![RestoreMode::Merge, RestoreMode::Replace])
            &&& s.staging_path == staging_path
            &&& s.live_digest == live_digest
        }),
{
    let expires_at = match now.get().checked_add(PREVIEW_TTL_MS) {
        Some(t) => UtcMillis::new(t)?,
        None => {
            return Err(RepoError::InvalidRequest);
        },
    };
    let conflict = player_identity_conflict(live_player, archived_player);
    let modes = allowed_modes(conflict);
    let mut diff = diff;
    diff.tombstone_skips = tombstone_skips;
    Ok(
        StagedRestore {
            preview: RestorePreview {
                operation,
                token,
                expires_at,
                archive_sha256: verified.archive_sha256,
                manifest: verified.manifest,
                diff,
                allowed_modes: modes,
                player_identity_conflict: conflict,
            },
            staging_path,
            live_digest,
        },
    )
}

/// The rollback point a restore leaves behind at `now`, kept for
/// [`ROLLBACK_RETENTION_MS`].
pub fn rollback_view_at(
    id: String,
    restore_operation_id: String,
    mode: RestoreMode,
    now: UtcMillis,
) -> (r: Result<RollbackView, RepoError>)
    ensures
        !(0 <= now.0 + ROLLBACK_RETENTION_MS <= i64::MAX) ==> r == Err::<RollbackView, RepoError>(
            RepoError::InvalidRequest,
        ),
        (0 <= now.0 + ROLLBACK_RETENTION_MS <= i64::MAX) ==> r == Ok::<RollbackView, RepoError>(
            RollbackView {
                id,
                restore_operation_id,
                mode,
                created_at: now,
                expires_at: UtcMillis((now.0 + ROLLBACK_RETENTION_MS) as i64),
            },
        ),
{
    let expires_at = match now.get().checked_add(ROLLBACK_RETENTION_MS) {
        Some(t) => UtcMillis::new(t)?,
        None => {
            return Err(RepoError::InvalidRequest);
        },
    };
    Ok(RollbackView { id, restore_operation_id, mode, created_at: now, expires_at })
}

/// How many of `entries` belong to `table`.
pub open spec fn entries_of(entries: Seq<DiffEntry>, table: Seq<char>) -> nat
    decreases entries.len(),
{
    if entries.len() == 0 {
        0
    } else {
        entries_of(entries.drop_last(), table) + if entries.last().table@ == table {
            1nat
        } else {
            0nat
        }
    }
}

/// Each per-table counter of a restore preview is the number of staged
/// entries of that table, whatever their status.
pub proof fn law_preview_counts_each_table(entries: Seq<DiffEntry>)
    requires
        entries.len() < u64::MAX,
    ensures
        diff_fold(entries).profiles == entries_of(entries, "opponent_profiles"@),
        diff_fold(entries).encounters == entries_of(entries, "encounters"@),
        diff_fold(entries).observations == entries_of(entries, "observations"@),
        diff_fold(entries).player_identities == entries_of(entries, "player_identities"@),
        diff_fold(entries).player_evidence == entries_of(entries, "player_evidence"@),
        diff_fold(entries).player_empty_outcomes == entries_of(entries, "player_empty_outcomes"@),
        diff_fold(entries).player_tombstones == entries_of(entries, "player_tombstones"@),
    decreases entries.len(),
{
    reveal_strlit("opponent_profiles");
    reveal_strlit("encounters");
    reveal_strlit("observations");
    reveal_strlit("player_identities");
    reveal_strlit("player_evidence");
    reveal_strlit("player_empty_outcomes");
    reveal_strlit("player_tombstones");
    assert("opponent_profiles"@.len() == 17);
    assert("encounters"@.len() == 10);
    assert("observations"@.len() == 12);
    assert("player_identities"@.len() == 17);
    assert("player_evidence"@.len() == 15);
    assert("player_empty_outcomes"@.len() == 21);
    assert("player_tombstones"@.len() == 17);
    assert("opponent_profiles"@[0] != "player_identities"@[0]);
    assert("opponent_profiles"@[0] != "player_tombstones"@[0]);
    assert("player_identities"@[7] != "player_tombstones"@[7]);
    if entries.len() > 0 {
        law_preview_counts_each_table(entries.drop_last());
        lemma_entries_of_bounded(entries.drop_last(), "opponent_profiles"@);
        lemma_entries_of_bounded(entries.drop_last(), "encounters"@);
        lemma_entries_of_bounded(entries.drop_last(), "observations"@);
        lemma_entries_of_bounded(entries.drop_last(), "player_identities"@);
        lemma_entries_of_bounded(entries.drop_last(), "player_evidence"@);
        lemma_entries_of_bounded(entries.drop_last(), "player_empty_outcomes"@);
        lemma_entries_of_bounded(entries.drop_last(), "player_tombstones"@);
    }
}

proof fn lemma_entries_of_bounded(entries: Seq<DiffEntry>, table: Seq<char>)
    ensures
        entries_of(entries, table) <= entries.len(),
    decreases entries.len(),
{
    if entries.len() > 0 {
        lemma_entries_of_bounded(entries.drop_last(), table);
    }
}

/// How many of `entries` satisfy `pred`.
pub open spec fn entries_where(entries: Seq<DiffEntry>, pred: spec_fn(DiffEntry) -> bool) -> nat
    decreases entries.len(),
{
    if entries.len() == 0 {
        0
    } else {
        entries_where(entries.drop_last(), pred) + if pred(entries.last()) {
            1nat
        } else {
            0nat
        }
    }
}

/// A restore preview counts each staged entry once by its status: a
/// missing record the live notebook does not hold under another id is
/// imported, one it does hold is an exact duplicate like an exact record,
/// and a divergent record is a conflict; the three add up to the entries.
pub proof fn law_preview_counts_each_status(entries: Seq<DiffEntry>)
    requires
        entries.len() < u64::MAX,
    ensures
        diff_fold(entries).imported_records == entries_where(
            entries,
            |e: DiffEntry| e.status == RecordStatus::Missing && !e.mapped,
        ),
        diff_fold(entries).exact_duplicates == entries_where(
            entries,
            |e: DiffEntry| e.status == RecordStatus::Exact || (e.status == RecordStatus::Missing && e.mapped),
        ),
        diff_fold(entries).conflicts == entries_where(
            entries,
            |e: DiffEntry| e.status == RecordStatus::Divergent,
        ),
        diff_fold(entries).imported_records + diff_fold(entries).exact_duplicates + diff_fold(
            entries,
        ).conflicts == entries.len(),
    decreases entries.len(),
{
    if entries.len() > 0 {
        law_preview_counts_each_status(entries.drop_last());
    }
}

} // verus!
