use mtgo_notes::diagnostics_commands::{
    cancel_diagnostics_for, create_diagnostics_at, create_diagnostics_for,
    preview_diagnostics_for, register_diagnostics_path_for, CancelDiagnosticsRequest,
    CreateDiagnosticsRequest, DiagnosticsRuntime, DIAGNOSTICS_SELECTION_TTL_MS,
};
use mtgo_notes::domain::IdempotencyKey;
use mtgo_notes::ipc::{AppError, CallerIdentity, CommandResult, ErrorCode};

fn key() -> String {
    IdempotencyKey::new().expect("key").as_str().to_string()
}

#[test]
fn renderer_cannot_supply_an_arbitrary_diagnostics_path() {
    let mut runtime = DiagnosticsRuntime::new("/tmp/mtgo-notes-diagnostics".to_string());
    let result = create_diagnostics_for(
        CallerIdentity::Main,
        true,
        &mut runtime,
        CreateDiagnosticsRequest {
            idempotency_key: key(),
            preview_token: "preview".to_string(),
            selection_token: "/renderer/chosen/path".to_string(),
        },
        |_preview: String, destination: String, _now: i64| Ok::<String, AppError>(destination),
    );
    assert!(matches!(
        result,
        CommandResult::Failure {
            error: AppError {
                code: ErrorCode::InvalidRequest,
                ..
            },
            ..
        }
    ));
}

#[test]
fn picked_destination_is_used_once_and_only_before_it_expires() {
    let mut runtime = DiagnosticsRuntime::new("/tmp/logs".to_string());
    let selection = runtime
        .register_destination_at(
            "/home/user/support.mtgodiag".to_string(),
            Some("support.mtgodiag".to_string()),
            "token".to_string(),
            1_000,
        )
        .expect("selection");
    assert_eq!(selection.file_name, "support.mtgodiag");
    let request = || CreateDiagnosticsRequest {
        idempotency_key: key(),
        preview_token: "preview".to_string(),
        selection_token: "token".to_string(),
    };
    let failed = create_diagnostics_at(
        CallerIdentity::Main,
        true,
        &mut runtime,
        request(),
        1_001,
        |_p: String, _d: String, _n: i64| {
            Err::<String, AppError>(AppError::internal("bundle"))
        },
    );
    assert!(matches!(failed, CommandResult::Failure { .. }));
    let written = create_diagnostics_at(
        CallerIdentity::Main,
        true,
        &mut runtime,
        request(),
        1_002,
        |_p: String, destination: String, _n: i64| Ok::<String, AppError>(destination),
    );
    assert!(matches!(written, CommandResult::Success { ref data, .. } if data == "/home/user/support.mtgodiag"));
    let spent = create_diagnostics_at(
        CallerIdentity::Main,
        true,
        &mut runtime,
        request(),
        1_003,
        |_p: String, destination: String, _n: i64| Ok::<String, AppError>(destination),
    );
    assert!(matches!(spent, CommandResult::Failure { ref error, .. } if error.code == ErrorCode::InvalidRequest));

    runtime
        .register_destination_at(
            "/home/user/late.mtgodiag".to_string(),
            Some("late.mtgodiag".to_string()),
            "late".to_string(),
            0,
        )
        .expect("selection");
    let expired = create_diagnostics_at(
        CallerIdentity::Main,
        true,
        &mut runtime,
        CreateDiagnosticsRequest {
            idempotency_key: key(),
            preview_token: "preview".to_string(),
            selection_token: "late".to_string(),
        },
        DIAGNOSTICS_SELECTION_TTL_MS,
        |_p: String, destination: String, _n: i64| Ok::<String, AppError>(destination),
    );
    assert!(matches!(expired, CommandResult::Failure { .. }));
}

#[test]
fn diagnostics_need_consent_and_the_main_window() {
    let mut runtime = DiagnosticsRuntime::new("/tmp/logs".to_string());
    let off = preview_diagnostics_for(CallerIdentity::Main, false, &runtime, |d: String, _n: i64| {
        Ok::<String, AppError>(d)
    });
    assert!(matches!(off, CommandResult::Failure { ref error, .. } if error.code == ErrorCode::ConsentRequired));
    let on = preview_diagnostics_for(CallerIdentity::Main, true, &runtime, |d: String, _n: i64| {
        Ok::<String, AppError>(d)
    });
    assert!(matches!(on, CommandResult::Success { ref data, .. } if data == "/tmp/logs"));
    let overlay = register_diagnostics_path_for(
        CallerIdentity::Overlay,
        &mut runtime,
        "/x.mtgodiag".to_string(),
        Some("x.mtgodiag".to_string()),
    );
    assert!(matches!(overlay, CommandResult::Failure { ref error, .. } if error.code == ErrorCode::UnauthorizedCaller));
    let nameless = register_diagnostics_path_for(CallerIdentity::Main, &mut runtime, "/".to_string(), None);
    assert!(matches!(nameless, CommandResult::Failure { ref error, .. } if error.code == ErrorCode::InvalidRequest));
    let cancelled = cancel_diagnostics_for(
        CallerIdentity::Main,
        CancelDiagnosticsRequest { preview_token: "p".to_string() },
        |_token: String| Ok::<(), AppError>(()),
    );
    assert!(matches!(cancelled, CommandResult::Success { data: true, .. }));
    runtime.set_log_directory("/var/logs".to_string()).expect("directory");
    assert_eq!(runtime.log_directory, "/var/logs");
}
