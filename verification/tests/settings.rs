use mtgo_notes::domain::EntityId;
use mtgo_notes::ipc::{AppError, CallerIdentity, CommandResult, ErrorCode};
use mtgo_notes::settings_commands::{update_settings_for, SettingsStore, UpdateSettingsRequest};

fn key() -> String {
    EntityId::new().expect("id").to_string()
}

fn request(settings: &str, expected_revision: u64, idempotency_key: &str) -> UpdateSettingsRequest<String> {
    UpdateSettingsRequest {
        settings: settings.to_string(),
        expected_revision,
        idempotency_key: idempotency_key.to_string(),
    }
}

fn saved(_settings: &String, _revision: u64) -> Result<(), AppError> {
    Ok(())
}

#[test]
fn a_change_is_saved_with_the_next_revision_and_replayed_by_key() {
    let mut store = SettingsStore::new("light".to_string(), 1);
    let k = key();
    let first = update_settings_for(CallerIdentity::Main, &mut store, request("dark", 1, &k), saved);
    assert_eq!(first, CommandResult::Success { ok: true, data: "dark".to_string(), revision: 2 });
    assert_eq!(store.settings, "dark");
    assert_eq!(store.revision, 2);

    // The same request again is answered with its first result, even though
    // the revision it names is no longer current.
    let again = update_settings_for(
        CallerIdentity::Main,
        &mut store,
        request("dark", 1, &k),
        |_s: &String, _r: u64| -> Result<(), AppError> { panic!("saved twice") },
    );
    assert_eq!(again, CommandResult::Success { ok: true, data: "dark".to_string(), revision: 2 });
    assert_eq!(store.revision, 2);
}

#[test]
fn a_stale_revision_is_a_conflict_and_changes_nothing() {
    let mut store = SettingsStore::new("light".to_string(), 3);
    let result = update_settings_for(CallerIdentity::Main, &mut store, request("dark", 2, &key()), saved);
    match result {
        CommandResult::Failure { error, .. } => {
            assert_eq!(error.code, ErrorCode::RevisionConflict);
            assert!(error.retryable);
            assert_eq!(error.field.as_deref(), Some("expectedRevision"));
        }
        CommandResult::Success { .. } => panic!("stale write accepted"),
    }
    assert_eq!(store.settings, "light");
    assert_eq!(store.revision, 3);
}

#[test]
fn a_failed_save_leaves_the_settings_in_force() {
    let mut store = SettingsStore::new("light".to_string(), 1);
    let result = update_settings_for(
        CallerIdentity::Main,
        &mut store,
        request("dark", 1, &key()),
        |_s: &String, _r: u64| Err(AppError::internal("settings-write")),
    );
    assert!(!result.is_success());
    assert_eq!(store.settings, "light");
    assert_eq!(store.revision, 1);
}

#[test]
fn only_the_main_window_with_a_valid_key_may_change_settings() {
    let mut store = SettingsStore::new("light".to_string(), 1);
    let overlay = update_settings_for(CallerIdentity::Overlay, &mut store, request("dark", 1, &key()), saved);
    match overlay {
        CommandResult::Failure { error, .. } => assert_eq!(error.code, ErrorCode::UnauthorizedCaller),
        CommandResult::Success { .. } => panic!("overlay changed settings"),
    }
    let bad_key = update_settings_for(CallerIdentity::Main, &mut store, request("dark", 1, "not a key"), saved);
    match bad_key {
        CommandResult::Failure { error, .. } => {
            assert_eq!(error.code, ErrorCode::InvalidRequest);
            assert_eq!(error.field.as_deref(), Some("idempotencyKey"));
        }
        CommandResult::Success { .. } => panic!("invalid key accepted"),
    }
    assert_eq!(store.settings, "light");
}
