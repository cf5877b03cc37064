use mtgo_notes::bootstrap_commands::{bootstrap_for, get_settings_for, APP_NAME};
use mtgo_notes::ipc::{AppError, CallerIdentity, CommandResult, ErrorCode};

#[test]
fn bootstrap_reports_the_local_app_the_settings_and_the_caller() {
    let result = bootstrap_for(CallerIdentity::Overlay, None, 7u32, 3, "1.2.3");
    match result {
        CommandResult::Success { ok, data, revision } => {
            assert!(ok);
            assert_eq!(revision, 3);
            assert_eq!(data.app.name, APP_NAME);
            assert_eq!(data.app.version, "1.2.3");
            assert!(data.app.local_only);
            assert_eq!(data.settings, 7);
            assert!(data.encounter.is_none());
            assert_eq!(data.caller, CallerIdentity::Overlay);
        }
        CommandResult::Failure { error, .. } => panic!("bootstrap failed: {error:?}"),
    }
}

#[test]
fn bootstrap_reports_a_notebook_that_did_not_open() {
    let result = bootstrap_for(CallerIdentity::Main, Some(AppError::internal("abc")), 0u32, 1, "1.0.0");
    assert_eq!(result, CommandResult::Failure { ok: false, error: AppError::internal("abc") });
}

#[test]
fn settings_are_read_by_the_main_window_only() {
    assert_eq!(
        get_settings_for(CallerIdentity::Main, "s".to_string(), 4),
        CommandResult::Success { ok: true, data: "s".to_string(), revision: 4 }
    );
    match get_settings_for(CallerIdentity::Capture, 1u8, 4) {
        CommandResult::Failure { ok, error } => {
            assert!(!ok);
            assert_eq!(error.code, ErrorCode::UnauthorizedCaller);
        }
        CommandResult::Success { .. } => panic!("capture window read settings"),
    }
}
