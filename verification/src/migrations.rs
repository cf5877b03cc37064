//! Schema migrations: each migration's checksum, the manager's ordered
//! list and supported version, which migrations are pending after a given
//! version, and the check that the migrations a notebook recorded are the
//! ones this build knows. Running them against the database is the
//! caller's part.
use vstd::prelude::*;

use crate::crypto::{sha256, sha256_of};
use crate::domain::{hex_encode, hex_of, RepoError};
use crate::text::str_eq;

verus! {

#[derive(Debug, PartialEq, Eq)]
pub struct Migration {
    pub version: i64,
    pub sql: String,
}

impl Clone for Migration {
    fn clone(&self) -> (r: Self)
        ensures
            r == *self,
    {
        Migration { version: self.version, sql: self.sql.clone() }
    }
}

/// The checksum a migration is recorded with: SHA-256 of its SQL text, in
/// lower-case hexadecimal.
pub open spec fn migration_checksum(sql: Seq<char>) -> Seq<char> {
    hex_of(sha256_of(vstd::utf8::encode_utf8(sql)))
}

impl Migration {
    pub fn new(version: i64, sql: String) -> (r: Self)
        ensures
            r.version == version,
            r.sql == sql,
    {
        Migration { version, sql }
    }

    pub fn checksum(&self) -> (r: String)
        ensures
            r@ == migration_checksum(self.sql@),
    {
        let digest = sha256(self.sql.as_str().as_bytes());
        hex_encode(digest.as_slice())
    }
}

#[derive(Clone, Copy, Debug, PartialEq, Eq, Structural)]
pub enum RollbackStatus {
    NotRequired,
    Created,
    Restored,
}

#[derive(Clone, Copy, Debug, PartialEq, Eq, Structural)]
pub struct MigrationReport {
    pub previous_version: i64,
    pub current_version: i64,
    pub rollback_status: RollbackStatus,
}

/// Versions never decrease along `s`.
pub open spec fn ordered_by_version(s: Seq<Migration>) -> bool {
    forall|i: int, j: int| 0 <= i <= j < s.len() ==> #[trigger] s[i].version <= #[trigger] s[j].version
}

/// Migrations with a version after `version`.
pub open spec fn after_version(version: i64) -> spec_fn(Migration) -> bool {
    |m: Migration| m.version > version
}

pub struct MigrationManager {
    migrations: Vec<Migration>,
    supported_version: i64,
}

impl MigrationManager {
    /// The migrations, in version order.
    pub closed spec fn migrations(&self) -> Seq<Migration> {
        self.migrations@
    }

    /// The last migration's version, or 0 without any.
    pub closed spec fn supported(&self) -> i64 {
        self.supported_version
    }

    pub closed spec fn wf(&self) -> bool {
        &&& ordered_by_version(self.migrations@)
        &&& self.supported_version == if self.migrations@.len() == 0 {
            0
        } else {
            self.migrations@.last().version
        }
    }

    /// The manager of `migrations`, put in version order (those with equal
    /// versions keep their order).
    pub fn new(migrations: Vec<Migration>) -> (r: Self)
        ensures
            r.wf(),
            r.migrations().to_multiset() == migrations@.to_multiset(),
            ordered_by_version(r.migrations()),
            r.supported() == if migrations@.len() == 0 {
                0
            } else {
                r.migrations().last().version
            },
    {
        let sorted = sort_by_version(migrations);
        let supported_version = if sorted.len() == 0 {
            0
        } else {
            sorted[sorted.len() - 1].version
        };
        proof {
            vstd::seq_lib::to_multiset_len(sorted@);
            vstd::seq_lib::to_multiset_len(migrations@);
        }
        MigrationManager { migrations: sorted, supported_version }
    }

    pub fn supported_version(&self) -> (r: i64)
        ensures
            r == self.supported(),
    {
        self.supported_version
    }

    /// The migrations still to run on a notebook at `previous_version`, in
    /// order; a notebook newer than this build is refused.
    pub fn pending_after(&self, previous_version: i64) -> (r: Result<Vec<Migration>, RepoError>)
        requires
            self.wf(),
        ensures
            previous_version > self.supported() ==> r == Err::<Vec<Migration>, RepoError>(
                RepoError::MigrationFailed,
            ),
            previous_version <= self.supported() ==> (r matches Ok(v) && v@ == self.migrations().filter(
                after_version(previous_version),
            )),
    {
        if previous_version > self.supported_version {
            return Err(RepoError::MigrationFailed);
        }
        let mut pending: Vec<Migration> = Vec::new();
        let mut i: usize = 0;
        while i < self.migrations.len()
            invariant
                i <= self.migrations@.len(),
                pending@ == self.migrations@.take(i as int).filter(after_version(previous_version)),
            decreases self.migrations.len() - i,
        {
            proof {
                let s = self.migrations@;
                assert(s.take(i + 1) =~= s.take(i as int).push(s[i as int]));
                s.take(i as int).lemma_filter_push(s[i as int], after_version(previous_version));
            }
            if self.migrations[i].version > previous_version {
                pending.push(self.migrations[i].clone());
            }
            i = i + 1;
        }
        proof {
            assert(self.migrations@.take(self.migrations@.len() as int) =~= self.migrations@);
        }
        Ok(pending)
    }
}

/// Stable insertion sort by version.
fn sort_by_version(migrations: Vec<Migration>) -> (r: Vec<Migration>)
    ensures
        ordered_by_version(r@),
        r@.to_multiset() == migrations@.to_multiset(),
{
    let mut sorted: Vec<Migration> = Vec::new();
    let mut i: usize = 0;
    assert(sorted@ =~= migrations@.take(0));
    while i < migrations.len()
        invariant
            i <= migrations@.len(),
            ordered_by_version(sorted@),
            sorted@.to_multiset() == migrations@.take(i as int).to_multiset(),
        decreases migrations.len() - i,
    {
        let m = migrations[i].clone();
        let mut p: usize = sorted.len();
        while p > 0 && sorted[p - 1].version > m.version
            invariant
                p <= sorted@.len(),
                forall|k: int| p <= k < sorted@.len() ==> #[trigger] sorted@[k].version > m.version,
            decreases p,
        {
            p = p - 1;
        }
        proof {
            if p > 0 {
                assert(sorted@[p - 1].version <= m.version);
            }
            vstd::seq_lib::to_multiset_insert(sorted@, p as int, m);
            assert(migrations@.take(i + 1) =~= migrations@.take(i as int).push(migrations@[i as int]));
            vstd::seq_lib::to_multiset_build(migrations@.take(i as int), migrations@[i as int]);
        }
        let ghost before = sorted@;
        sorted.insert(p, m);
        proof {
            assert forall|a: int, b: int| 0 <= a <= b < sorted@.len() implies #[trigger] sorted@[a].version
                <= #[trigger] sorted@[b].version by {
                if a < p && b < p {
                    assert(sorted@[a] == before[a] && sorted@[b] == before[b]);
                } else if a < p && b == p {
                    assert(before[a].version <= before[p - 1].version);
                } else if a < p {
                    assert(sorted@[b] == before[b - 1]);
                    assert(before[a].version <= before[b - 1].version);
                } else if a == p && b > p {
                    assert(sorted@[b] == before[b - 1]);
                } else if a > p {
                    assert(sorted@[a] == before[a - 1] && sorted@[b] == before[b - 1]);
                }
            }
        }
        i = i + 1;
    }
    proof {
        assert(migrations@.take(migrations@.len() as int) =~= migrations@);
    }
    sorted
}

/// The first migration of version `version`, if any.
pub open spec fn first_of_version(migrations: Seq<Migration>, version: i64, i: int) -> bool {
    &&& 0 <= i < migrations.len()
    &&& migrations[i].version == version
    &&& forall|j: int| 0 <= j < i ==> #[trigger] migrations[j].version != version
}

/// A recorded migration is one this build knows, with the same checksum.
pub open spec fn recorded_ok(migrations: Seq<Migration>, row: (i64, String)) -> bool {
    exists|i: int|
        #[trigger] first_of_version(migrations, row.0, i) && row.1@ == migration_checksum(
            migrations[i].sql@,
        )
}

/// Checks each recorded `(version, checksum)` against the migration of that
/// version.
pub fn verify_applied_checksums(migrations: &Vec<Migration>, applied: &Vec<(i64, String)>) -> (r: Result<
    (),
    RepoError,
>)
    ensures
        r is Ok <==> forall|k: int| 0 <= k < applied@.len() ==> #[trigger] recorded_ok(migrations@, applied@[k]),
        r is Err ==> r == Err::<(), RepoError>(RepoError::MigrationFailed),
{
    let mut k: usize = 0;
    while k < applied.len()
        invariant
            k <= applied@.len(),
            forall|j: int| 0 <= j < k ==> #[trigger] recorded_ok(migrations@, applied@[j]),
        decreases applied.len() - k,
    {
        let version = applied[k].0;
        let mut i: usize = 0;
        while i < migrations.len() && migrations[i].version != version
            invariant
                i <= migrations@.len(),
                forall|j: int| 0 <= j < i ==> #[trigger] migrations@[j].version != version,
            decreases migrations.len() - i,
        {
            i = i + 1;
        }
        if i == migrations.len() {
            proof {
                assert forall|x: int| !#[trigger] first_of_version(migrations@, version, x) by {}
                assert(!recorded_ok(migrations@, applied@[k as int]));
            }
            return Err(RepoError::MigrationFailed);
        }
        let expected = migrations[i].checksum();
        proof {
            assert(first_of_version(migrations@, version, i as int));
            assert forall|x: int| #[trigger] first_of_version(migrations@, version, x) implies x == i by {
                if x < i {
                    assert(migrations@[x].version != version);
                } else if x > i {
                    assert(migrations@[i as int].version != version);
                }
            }
        }
        if !str_eq(applied[k].1.as_str(), expected.as_str()) {
            proof {
                assert(!recorded_ok(migrations@, applied@[k as int]));
            }
            return Err(RepoError::MigrationFailed);
        }
        k = k + 1;
    }
    Ok(())
}

impl MigrationManager {
    /// A notebook at the supported version has nothing pending, and one at
    /// an older version has at least the last migration pending.
    pub proof fn law_pending_ends_at_supported_version(&self, previous_version: i64)
        requires
            self.wf(),
        ensures
            previous_version == self.supported() ==> self.migrations().filter(after_version(previous_version)).len() == 0,
            previous_version < self.supported() && self.migrations().len() > 0 ==> self.migrations().filter(after_version(previous_version)).len() > 0,
    {
        let s = self.migrations();
        let p = after_version(previous_version);
        if previous_version == self.supported() {
            if s.filter(p).len() > 0 {
                let m = s.filter(p)[0];
                s.lemma_filter_pred(p, 0);
                assert(s.filter(p).contains(m));
                s.lemma_filter_contains_rev(p, m);
                assert(s.contains(m));
                let j = choose|j: int| 0 <= j < s.len() && s[j] == m;
                assert(s[j].version <= s[s.len() - 1].version);
            }
        }
        if previous_version < self.supported() && s.len() > 0 {
            assert(p(s[s.len() - 1]));
            s.lemma_filter_contains(p, s.len() - 1);
        }
    }
}

/// `states` are the notebook after each of the first `states.len() - 1`
/// pending migrations ran and succeeded, starting from `states[0]`.
pub open spec fn ran_in_order<D, A: Fn(D, &Migration) -> (D, Result<(), RepoError>)>(
    apply: A,
    pending: Seq<Migration>,
    states: Seq<D>,
) -> bool {
    &&& 1 <= states.len() <= pending.len() + 1
    &&& forall|i: int|
        0 <= i < states.len() - 1 ==> #[trigger] apply.ensures(
            (states[i], &pending[i]),
            (states[i + 1], Ok::<(), RepoError>(())),
        )
}

/// After a failed migration, the notebook is put back from its rollback copy
/// and the migration is reported failed, or the restore's own error is.
pub open spec fn rolled_back<D, R: FnOnce(D) -> (D, Result<(), RepoError>)>(
    restore: R,
    failed: D,
    r: (D, Result<MigrationReport, RepoError>),
) -> bool {
    exists|back: (D, Result<(), RepoError>)|
        #[trigger] restore.ensures((failed,), back) && r.0 == back.0 && match back.1 {
            Ok(()) => r.1 == Err::<MigrationReport, RepoError>(RepoError::MigrationFailed),
            Err(e) => r.1 == Err::<MigrationReport, RepoError>(e),
        }
}

/// The outcome of running `pending` after the rollback copy was taken of
/// `start`: the migrations run in order until one fails; a failure, or a
/// failed integrity check after all of them, rolls back; otherwise the
/// rollback copy is discarded and the notebook is at the supported version.
pub open spec fn migrations_ran<D, A, I, F, R>(
    apply: A,
    check: I,
    discard: F,
    restore: R,
    pending: Seq<Migration>,
    start: D,
    previous_version: i64,
    supported: i64,
    r: (D, Result<MigrationReport, RepoError>),
) -> bool where
    A: Fn(D, &Migration) -> (D, Result<(), RepoError>),
    I: FnOnce(D) -> (D, Result<(), RepoError>),
    F: FnOnce(D) -> D,
    R: FnOnce(D) -> (D, Result<(), RepoError>),
 {
    exists|states: Seq<D>|
        #[trigger] ran_in_order(apply, pending, states) && states[0] == start && {
            let k = states.len() - 1;
            let reached = states[k];
            if k < pending.len() {
                exists|out: (D, Result<(), RepoError>)|
                    #[trigger] apply.ensures((reached, &pending[k]), out) && out.1 is Err && rolled_back(
                        restore,
                        out.0,
                        r,
                    )
            } else {
                exists|checked: (D, Result<(), RepoError>)|
                    #[trigger] check.ensures((reached,), checked) && match checked.1 {
                        Ok(()) => discard.ensures((checked.0,), r.0) && r.1 == Ok::<MigrationReport, RepoError>(
                            MigrationReport {
                                previous_version,
                                current_version: supported,
                                rollback_status: RollbackStatus::Created,
                            },
                        ),
                        Err(_) => rolled_back(restore, checked.0, r),
                    }
            }
        }
}

impl MigrationManager {
    /// Brings a notebook at `previous_version`, which recorded the
    /// migrations `applied`, up to the supported version. A notebook newer
    /// than this build, or one whose recorded migrations differ from this
    /// build's, is refused untouched; one with nothing pending is reported
    /// as it is. Otherwise `backup` takes a rollback copy, and the pending
    /// migrations are run by `apply` in version order and checked by
    /// `check`; `discard` drops the copy after success, and `restore` puts
    /// it back after a failure.
    pub fn migrate<D, B, A, I, F, R>(
        &self,
        db: D,
        previous_version: i64,
        applied: &Vec<(i64, String)>,
        backup: B,
        apply: A,
        check: I,
        discard: F,
        restore: R,
    ) -> (r: (D, Result<MigrationReport, RepoError>)) where
        B: FnOnce(D) -> (D, Result<(), RepoError>),
        A: Fn(D, &Migration) -> (D, Result<(), RepoError>),
        I: FnOnce(D) -> (D, Result<(), RepoError>),
        F: FnOnce(D) -> D,
        R: FnOnce(D) -> (D, Result<(), RepoError>),
        requires
            self.wf(),
            forall|d: D| #[trigger] backup.requires((d,)),
            forall|d: D, m: &Migration| #[trigger] apply.requires((d, m)),
            forall|d: D| #[trigger] check.requires((d,)),
            forall|d: D| #[trigger] discard.requires((d,)),
            forall|d: D| #[trigger] restore.requires((d,)),
        ensures
            previous_version > self.supported() ==> r == (db, Err::<MigrationReport, RepoError>(RepoError::MigrationFailed)),
            previous_version <= self.supported() && previous_version != 0 && !(forall|k: int|
                0 <= k < applied@.len() ==> #[trigger] recorded_ok(self.migrations(), applied@[k])) ==> r == (
            db,
            Err::<MigrationReport, RepoError>(RepoError::MigrationFailed),
            ),
            previous_version <= self.supported() && (previous_version == 0 || forall|k: int|
                0 <= k < applied@.len() ==> #[trigger] recorded_ok(self.migrations(), applied@[k])) ==> {
                let pending = self.migrations().filter(after_version(previous_version));
                if pending.len() == 0 {
                    r == (db, Ok::<MigrationReport, RepoError>(
                        MigrationReport {
                            previous_version,
                            current_version: previous_version,
                            rollback_status: RollbackStatus::NotRequired,
                        },
                    ))
                } else {
                    exists|copied: (D, Result<(), RepoError>)|
                        #[trigger] backup.ensures((db,), copied) && match copied.1 {
                            Err(e) => r == (copied.0, Err::<MigrationReport, RepoError>(e)),
                            Ok(()) => migrations_ran(
                                apply,
                                check,
                                discard,
                                restore,
                                pending,
                                copied.0,
                                previous_version,
                                self.supported(),
                                r,
                            ),
                        }
                }
            },
    {
        let pending = match self.pending_after(previous_version) {
            Ok(pending) => pending,
            Err(error) => {
                return (db, Err(error));
            },
        };
        if previous_version != 0 {
            if let Err(error) = verify_applied_checksums(&self.migrations, applied) {
                return (db, Err(error));
            }
        }
        if pending.len() == 0 {
            return (
                db,
                Ok(
                    MigrationReport {
                        previous_version,
                        current_version: previous_version,
                        rollback_status: RollbackStatus::NotRequired,
                    },
                ),
            );
        }
        let ghost before = db;
        let copied = backup(db);
        assert(backup.ensures((before,), copied));
        let (db, copy_result) = copied;
        if let Err(error) = copy_result {
            return (db, Err(error));
        }
        let ghost start = db;
        let ghost mut states: Seq<D> = seq![db];
        let mut db = db;
        let mut i: usize = 0;
        let mut failed = false;
        while i < pending.len()
            invariant_except_break
                !failed,
            invariant
                i <= pending@.len(),
                states.len() == i + 1,
                states[0] == start,
                states.last() == db || failed,
                ran_in_order(apply, pending@, states),
                forall|d: D, m: &Migration| #[trigger] apply.requires((d, m)),
            ensures
                failed ==> i < pending@.len() && exists|out: (D, Result<(), RepoError>)|
                    #[trigger] apply.ensures((states.last(), &pending@[i as int]), out) && out.1 is Err && out.0 == db,
                !failed ==> i == pending@.len() && states.last() == db,
            decreases pending.len() - i,
        {
            let ghost from = db;
            let out = apply(db, &pending[i]);
            let ghost witness = out;
            assert(apply.ensures((from, &pending@[i as int]), witness));
            let (next, result) = out;
            db = next;
            match result {
                Err(_) => {
                    failed = true;
                    break;
                },
                Ok(()) => {},
            }
            proof {
                assert(witness.1 is Ok);
                let unit: () = witness.1->Ok_0;
                assert(unit == ());
                assert(witness.1 == Ok::<(), RepoError>(()));
                assert(witness == (db, Ok::<(), RepoError>(())));
                assert(from == states.last());
                let old_states = states;
                states = states.push(db);
                assert forall|j: int| 0 <= j < states.len() - 1 implies #[trigger] apply.ensures(
                    (states[j], &pending@[j]),
                    (states[j + 1], Ok::<(), RepoError>(())),
                ) by {
                    if j < old_states.len() - 1 {
                        assert(states[j] == old_states[j] && states[j + 1] == old_states[j + 1]);
                    } else {
                        assert(states[j] == from && states[j + 1] == db);
                    }
                }
            }
            i = i + 1;
        }
        if failed {
            let ghost failed_at = db;
            let back = restore(db);
            assert(restore.ensures((failed_at,), back));
            let (db, restored) = back;
            let reply = match restored {
                Ok(()) => Err(RepoError::MigrationFailed),
                Err(error) => Err(error),
            };
            return (db, reply);
        }
        let ghost reached = db;
        let checked = check(db);
        assert(check.ensures((reached,), checked));
        let (db, check_result) = checked;
        match check_result {
            Ok(()) => {
                let db = discard(db);
                (
                    db,
                    Ok(
                        MigrationReport {
                            previous_version,
                            current_version: self.supported_version,
                            rollback_status: RollbackStatus::Created,
                        },
                    ),
                )
            },
            Err(_) => {
                let ghost failed_at = db;
                let back = restore(db);
                assert(restore.ensures((failed_at,), back));
                let (db, restored) = back;
                let reply = match restored {
                    Ok(()) => Err(RepoError::MigrationFailed),
                    Err(error) => Err(error),
                };
                (db, reply)
            },
        }
    }
}

} // verus!
