use mtgo_notes::domain::RepoError;
use mtgo_notes::migrations::{
    verify_applied_checksums, Migration, MigrationManager, MigrationReport, RollbackStatus,
};
use mtgo_notes::notebook_key::{key_source, DatabaseKey, KeyCustody, KeyProtector, KeySource};

#[derive(Clone)]
struct ScopedProtector {
    scope: u8,
    fail_unprotect: bool,
}

impl KeyProtector for ScopedProtector {
    /// The fixture allows whatever it answers.
    fn protect_outcome(
        &self,
        _plaintext: vstd::seq::Seq<u8>,
        _out: Result<vstd::seq::Seq<u8>, RepoError>,
    ) -> bool {
        true
    }

    fn unprotect_outcome(
        &self,
        _ciphertext: vstd::seq::Seq<u8>,
        _out: Result<vstd::seq::Seq<u8>, RepoError>,
    ) -> bool {
        true
    }

    fn protect(&self, plaintext: &[u8]) -> Result<Vec<u8>, RepoError> {
        let mut protected = Vec::with_capacity(plaintext.len() + 1);
        protected.push(self.scope);
        protected.extend(plaintext.iter().map(|byte| byte ^ self.scope));
        Ok(protected)
    }

    fn unprotect(&self, ciphertext: &[u8]) -> Result<Vec<u8>, RepoError> {
        if self.fail_unprotect || ciphertext.first() != Some(&self.scope) {
            return Err(RepoError::KeyUnavailable);
        }
        Ok(ciphertext[1..].iter().map(|byte| byte ^ self.scope).collect())
    }
}

fn custody(scope: u8, fail_unprotect: bool) -> KeyCustody<ScopedProtector> {
    KeyCustody::new(
        "notebook.key".to_string(),
        "notebook.db".to_string(),
        ScopedProtector { scope, fail_unprotect },
    )
}

#[test]
fn it_278_current_user_scope_round_trips_and_foreign_scope_fails() {
    let owner = custody(7, false);
    let (original, sealed) = owner.load_or_create_from(None, false).expect("owner key");
    let sealed = sealed.expect("sealed bytes to write");
    let (reopened, rewrite) = owner
        .load_or_create_from(Some(sealed.clone()), true)
        .expect("same user key");
    assert!(rewrite.is_none());
    assert_eq!(original.expose(), reopened.expose());
    let foreign_user = custody(8, false);
    assert!(matches!(
        foreign_user.load_or_create_from(Some(sealed), true),
        Err(RepoError::KeyUnavailable)
    ));
}

#[test]
fn unseal_failure_and_missing_key_never_create_a_replacement() {
    let failing = custody(7, true);
    assert!(matches!(
        failing.load_or_create_from(Some(vec![7, 1, 2]), true),
        Err(RepoError::KeyUnavailable)
    ));
    assert!(matches!(
        failing.load_or_create_from(None, true),
        Err(RepoError::KeyUnavailable)
    ));
    assert_eq!(key_source(true, true), KeySource::Unseal);
    assert_eq!(key_source(false, true), KeySource::Refuse);
    assert_eq!(key_source(false, false), KeySource::Create);
}

#[test]
fn database_key_is_exactly_thirty_two_bytes() {
    let bytes: Vec<u8> = (0..32).collect();
    let key = DatabaseKey::from_bytes(&bytes).expect("key");
    assert_eq!(key.expose().as_slice(), bytes.as_slice());
    assert!(matches!(DatabaseKey::from_bytes(&bytes[..31]), Err(RepoError::KeyUnavailable)));
    assert_eq!(DatabaseKey::generate().expect("key").expose().len(), 32);
}

#[test]
fn migrations_are_ordered_and_only_newer_ones_are_pending() {
    let manager = MigrationManager::new(vec![
        Migration::new(3, "CREATE TABLE c(x);".to_string()),
        Migration::new(1, "CREATE TABLE a(x);".to_string()),
        Migration::new(2, "CREATE TABLE b(x);".to_string()),
    ]);
    assert_eq!(manager.supported_version(), 3);
    let pending = manager.pending_after(1).expect("pending");
    let versions: Vec<i64> = pending.iter().map(|m| m.version).collect();
    assert_eq!(versions, [2, 3]);
    assert!(manager.pending_after(3).expect("pending").is_empty());
    assert!(matches!(manager.pending_after(4), Err(RepoError::MigrationFailed)));
    assert_eq!(MigrationManager::new(Vec::new()).supported_version(), 0);
}

#[test]
fn recorded_checksums_must_match_known_migrations() {
    let migrations = vec![Migration::new(1, "abc".to_string())];
    let checksum = migrations[0].checksum();
    assert_eq!(
        checksum,
        "ba7816bf8f01cfea414140de5dae2223b00361a396177a9cb410ff61f20015ad"
    );
    assert_eq!(
        verify_applied_checksums(&migrations, &vec![(1, checksum.clone())]),
        Ok(())
    );
    assert_eq!(
        verify_applied_checksums(&migrations, &vec![(1, "0".repeat(64))]),
        Err(RepoError::MigrationFailed)
    );
    assert_eq!(
        verify_applied_checksums(&migrations, &vec![(2, checksum)]),
        Err(RepoError::MigrationFailed)
    );
}

/// A notebook standing in for the database: its tables, the migrations it
/// recorded, and the rollback copy, if one was taken.
#[derive(Clone, Debug, PartialEq)]
struct FakeNotebook {
    tables: Vec<String>,
    recorded: Vec<(i64, String)>,
    rollback: Option<Box<FakeNotebook>>,
}

fn fresh() -> FakeNotebook {
    FakeNotebook { tables: Vec::new(), recorded: Vec::new(), rollback: None }
}

fn backup(mut db: FakeNotebook) -> (FakeNotebook, Result<(), RepoError>) {
    let copy = FakeNotebook { rollback: None, ..db.clone() };
    db.rollback = Some(Box::new(copy));
    (db, Ok(()))
}

/// Runs a migration's SQL as "CREATE TABLE name;" statements; anything else fails.
fn apply(mut db: FakeNotebook, migration: &Migration) -> (FakeNotebook, Result<(), RepoError>) {
    for statement in migration.sql.split(';').map(str::trim).filter(|s| !s.is_empty()) {
        match statement.strip_prefix("CREATE TABLE ") {
            Some(name) => db.tables.push(name.to_string()),
            None => return (db, Err(RepoError::MigrationFailed)),
        }
    }
    db.recorded.push((migration.version, migration.checksum()));
    (db, Ok(()))
}

fn check(db: FakeNotebook) -> (FakeNotebook, Result<(), RepoError>) {
    (db, Ok(()))
}

fn discard(mut db: FakeNotebook) -> FakeNotebook {
    db.rollback = None;
    db
}

fn restore(db: FakeNotebook) -> (FakeNotebook, Result<(), RepoError>) {
    match db.rollback {
        Some(copy) => (*copy, Ok(())),
        None => (db, Err(RepoError::MigrationFailed)),
    }
}

fn run(manager: &MigrationManager, db: FakeNotebook) -> (FakeNotebook, Result<MigrationReport, RepoError>) {
    let previous = db.recorded.iter().map(|(v, _)| *v).max().unwrap_or(0);
    let applied = db.recorded.clone();
    manager.migrate(db, previous, &applied, backup, apply, check, discard, restore)
}

fn v2() -> Vec<Migration> {
    vec![
        Migration::new(1, "CREATE TABLE opponent_profiles;".to_string()),
        Migration::new(2, "CREATE TABLE retired_tags;".to_string()),
    ]
}

#[test]
fn it_002_failed_v3_migration_restores_v2() {
    let (db, report) = run(&MigrationManager::new(v2()), fresh());
    assert_eq!(
        report,
        Ok(MigrationReport { previous_version: 0, current_version: 2, rollback_status: RollbackStatus::Created })
    );
    assert_eq!(db.rollback, None);
    let mut failing = v2();
    failing.push(Migration::new(3, "CREATE TABLE partial_player; SELECT no_such_function();".to_string()));
    let (restored, outcome) = run(&MigrationManager::new(failing), db.clone());
    assert_eq!(outcome, Err(RepoError::MigrationFailed));
    assert_eq!(restored.recorded.iter().map(|(v, _)| *v).max(), Some(2));
    assert!(!restored.tables.contains(&"partial_player".to_string()));
    assert_eq!(restored, FakeNotebook { rollback: None, ..db });
}

#[test]
fn an_up_to_date_or_newer_or_altered_notebook_is_not_migrated() {
    let (db, _) = run(&MigrationManager::new(v2()), fresh());
    let (same, report) = run(&MigrationManager::new(v2()), db.clone());
    assert_eq!(
        report,
        Ok(MigrationReport { previous_version: 2, current_version: 2, rollback_status: RollbackStatus::NotRequired })
    );
    assert_eq!(same, db);
    let older_build = MigrationManager::new(vec![Migration::new(1, "CREATE TABLE opponent_profiles;".to_string())]);
    assert_eq!(run(&older_build, db.clone()).1, Err(RepoError::MigrationFailed));
    let mut altered = v2();
    altered[0] = Migration::new(1, "CREATE TABLE something_else;".to_string());
    altered.push(Migration::new(3, "CREATE TABLE player_graph;".to_string()));
    let (untouched, refused) = run(&MigrationManager::new(altered), db.clone());
    assert_eq!(refused, Err(RepoError::MigrationFailed));
    assert_eq!(untouched, db);
}
