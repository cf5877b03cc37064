use mtgo_notes::domain::{EntityId, RepoError, UtcMillis};
use mtgo_notes::ipc::{CallerIdentity, CommandResult, ErrorCode};
use mtgo_notes::provider_commands::{
    hydrate_provider_consent, list_mtgo_windows_for, list_providers_for, pause_detection_for,
    select_mtgo_window_at, select_mtgo_window_for, set_provider_consent_for, AuthorizedWindow,
    DetectionRuntime, PauseDetectionRequest, SelectMtgoWindowRequest, SetProviderConsentRequest,
    MAX_IDEMPOTENCY_KEYS, PROVIDER_ID,
};

/// A small engine standing in for the detector: consent gates the window.
#[derive(Clone, Debug, PartialEq)]
struct Engine {
    consent_granted: bool,
    disclosed_fields: Vec<String>,
    selected_window: Option<AuthorizedWindow>,
    paused: bool,
}

fn engine() -> Engine {
    Engine {
        consent_granted: false,
        disclosed_fields: Vec::new(),
        selected_window: None,
        paused: true,
    }
}

fn status(engine: &Engine) -> Engine {
    engine.clone()
}

fn set_consent(mut engine: Engine, granted: bool, fields: Vec<String>) -> Engine {
    engine.consent_granted = granted;
    engine.disclosed_fields = fields;
    engine
}

fn select(mut engine: Engine, window: AuthorizedWindow) -> (Engine, Result<(), RepoError>) {
    if !engine.consent_granted {
        return (engine, Err(RepoError::ConsentRequired));
    }
    engine.selected_window = Some(window);
    (engine, Ok(()))
}

fn pause(mut engine: Engine, paused: bool) -> (Engine, Result<(), RepoError>) {
    engine.paused = paused;
    (engine, Ok(()))
}

fn key() -> String {
    EntityId::new().expect("id").to_string()
}

fn consent(runtime: DetectionRuntime<Engine>) -> (DetectionRuntime<Engine>, CommandResult<Engine>) {
    set_provider_consent_for(
        CallerIdentity::Main,
        runtime,
        SetProviderConsentRequest {
            provider_id: PROVIDER_ID.into(),
            disclosure_version: 1,
            disclosed_fields: vec!["visible opponent handle".into()],
            granted: true,
            idempotency_key: key(),
        },
        |_granted: bool, _fields: &Vec<String>| Ok(()),
        set_consent,
        status,
    )
}

fn window_request() -> SelectMtgoWindowRequest {
    SelectMtgoWindowRequest {
        native_handle: 42,
        class_name: "SyntheticMtgoWindow".into(),
        visible_title: "Magic Online".into(),
        visible: true,
        minimized: false,
        usable_bounds: true,
        idempotency_key: key(),
    }
}

fn revision<T>(result: &CommandResult<T>) -> Option<u64> {
    match result {
        CommandResult::Success { revision, .. } => Some(*revision),
        CommandResult::Failure { .. } => None,
    }
}

#[test]
fn consent_and_window_selection_are_explicit_and_idempotent() {
    let runtime = DetectionRuntime::new(engine());
    let (runtime, granted) = consent(runtime);
    assert!(granted.is_success());
    let request = window_request();
    let (runtime, first) =
        select_mtgo_window_for(CallerIdentity::Main, runtime, request.clone(), select, status);
    let (_runtime, replay) =
        select_mtgo_window_for(CallerIdentity::Main, runtime, request, select, status);
    assert!(first.is_success());
    assert_eq!(revision(&first), revision(&replay));
}

#[test]
fn invalid_or_unauthorized_selection_fails_without_capture() {
    let runtime = DetectionRuntime::new(engine());
    let (runtime, result) = select_mtgo_window_for(
        CallerIdentity::Main,
        runtime,
        SelectMtgoWindowRequest {
            native_handle: 0,
            class_name: String::new(),
            visible_title: String::new(),
            visible: false,
            minimized: true,
            usable_bounds: false,
            idempotency_key: key(),
        },
        select,
        status,
    );
    assert!(!result.is_success());
    assert!(runtime.engine.selected_window.is_none());

    let (runtime, result) =
        select_mtgo_window_for(CallerIdentity::Overlay, runtime, window_request(), select, status);
    match result {
        CommandResult::Failure { error, .. } => assert_eq!(error.code, ErrorCode::UnauthorizedCaller),
        CommandResult::Success { .. } => panic!("overlay chose a window"),
    }
    assert!(runtime.engine.selected_window.is_none());
}

#[test]
fn pause_does_not_remove_selected_context() {
    let runtime = DetectionRuntime::new(engine());
    let (runtime, granted) = consent(runtime);
    assert!(granted.is_success());
    let (runtime, chosen) =
        select_mtgo_window_for(CallerIdentity::Main, runtime, window_request(), select, status);
    assert!(chosen.is_success());
    let (runtime, result) = pause_detection_for(
        CallerIdentity::Main,
        runtime,
        PauseDetectionRequest {
            paused: true,
            idempotency_key: key(),
        },
        pause,
        status,
    );
    assert!(result.is_success());
    assert!(runtime.engine.selected_window.is_some());
}

#[test]
fn persisted_consent_is_hydrated_without_restoring_window_authority() {
    let runtime = DetectionRuntime::new(engine());
    let (runtime, hydrated) = hydrate_provider_consent(
        runtime,
        Some((true, vec!["visible opponent handle".to_owned()])),
        set_consent,
    );
    assert_eq!(hydrated, Ok(()));
    let status = status(&runtime.engine);
    assert!(status.consent_granted);
    assert!(status.paused);
    assert!(status.selected_window.is_none());
    assert_eq!(status.disclosed_fields, vec!["visible opponent handle".to_owned()]);
    assert_eq!(runtime.revision, 0);
}

#[test]
fn hydration_refuses_fields_that_were_never_disclosed() {
    let runtime = DetectionRuntime::new(engine());
    let (runtime, hydrated) = hydrate_provider_consent(
        runtime,
        Some((true, vec!["clipboard".to_owned()])),
        set_consent,
    );
    assert_eq!(hydrated, Err(RepoError::NotebookInvalid));
    assert!(!runtime.engine.consent_granted);
    let (runtime, nothing) = hydrate_provider_consent(runtime, None, set_consent);
    assert_eq!(nothing, Ok(()));
    assert!(!runtime.engine.consent_granted);
}

#[test]
fn consent_requests_are_checked_before_anything_is_stored() {
    let cases = vec![
        ("other_provider", 1, vec!["visible opponent handle"]),
        (PROVIDER_ID, 2, vec!["visible opponent handle"]),
        (PROVIDER_ID, 1, vec![]),
        (PROVIDER_ID, 1, vec!["clipboard"]),
        (PROVIDER_ID, 1, vec!["visible match phase", "visible match phase"]),
    ];
    let mut runtime = DetectionRuntime::new(engine());
    for (provider, version, fields) in cases {
        let (next, result) = set_provider_consent_for(
            CallerIdentity::Main,
            runtime,
            SetProviderConsentRequest {
                provider_id: provider.into(),
                disclosure_version: version,
                disclosed_fields: fields.into_iter().map(String::from).collect(),
                granted: true,
                idempotency_key: key(),
            },
            |_granted: bool, _fields: &Vec<String>| -> Result<(), RepoError> {
                panic!("an invalid request reached the notebook")
            },
            set_consent,
            status,
        );
        match result {
            CommandResult::Failure { error, .. } => assert_eq!(error.code, ErrorCode::InvalidRequest),
            CommandResult::Success { .. } => panic!("invalid consent accepted"),
        }
        assert_eq!(next.revision, 0);
        runtime = next;
    }
}

#[test]
fn a_failed_save_leaves_consent_and_revision_unchanged() {
    let runtime = DetectionRuntime::new(engine());
    let (runtime, result) = set_provider_consent_for(
        CallerIdentity::Main,
        runtime,
        SetProviderConsentRequest {
            provider_id: PROVIDER_ID.into(),
            disclosure_version: 1,
            disclosed_fields: vec!["visible match phase".into()],
            granted: true,
            idempotency_key: key(),
        },
        |_granted: bool, _fields: &Vec<String>| Err(RepoError::NotebookInvalid),
        set_consent,
        status,
    );
    match result {
        CommandResult::Failure { error, .. } => assert_eq!(error.code, ErrorCode::NotebookInvalid),
        CommandResult::Success { .. } => panic!("consent reported saved"),
    }
    assert!(!runtime.engine.consent_granted);
    assert_eq!(runtime.revision, 0);
}

#[test]
fn applied_keys_are_bounded_and_the_oldest_is_forgotten() {
    let mut runtime = DetectionRuntime::new(engine());
    let first = key();
    let (next, result) = pause_detection_for(
        CallerIdentity::Overlay,
        runtime,
        PauseDetectionRequest { paused: false, idempotency_key: first.clone() },
        pause,
        status,
    );
    assert_eq!(revision(&result), Some(1));
    runtime = next;
    for _ in 0..MAX_IDEMPOTENCY_KEYS {
        let (next, _) = pause_detection_for(
            CallerIdentity::Main,
            runtime,
            PauseDetectionRequest { paused: true, idempotency_key: key() },
            pause,
            status,
        );
        runtime = next;
    }
    assert_eq!(runtime.applied_idempotency_keys.len(), MAX_IDEMPOTENCY_KEYS);
    assert!(!runtime.was_applied(&first));
    let before = runtime.revision;
    let (runtime, again) = pause_detection_for(
        CallerIdentity::Main,
        runtime,
        PauseDetectionRequest { paused: false, idempotency_key: first },
        pause,
        status,
    );
    assert_eq!(revision(&again), Some(before + 1));
    assert!(!runtime.engine.paused);
}

#[test]
fn window_selection_records_the_time_it_was_made() {
    let runtime = DetectionRuntime::new(engine());
    let (runtime, _) = consent(runtime);
    let (runtime, chosen) = select_mtgo_window_at(
        CallerIdentity::Main,
        runtime,
        window_request(),
        UtcMillis::new(1_700).expect("time"),
        select,
        status,
    );
    assert_eq!(revision(&chosen), Some(2));
    let window = runtime.engine.selected_window.expect("window");
    assert_eq!(window.selected_at, 1_700);
    assert_eq!(window.native_handle, 42);
}

#[test]
fn listings_are_for_the_main_window() {
    let runtime = DetectionRuntime::new(engine());
    match list_providers_for(CallerIdentity::Main, &runtime, status) {
        CommandResult::Success { data, revision, .. } => {
            assert_eq!(data.len(), 1);
            assert_eq!(revision, 0);
        }
        CommandResult::Failure { error, .. } => panic!("listing failed: {error:?}"),
    }
    assert!(!list_providers_for(CallerIdentity::Overlay, &runtime, status).is_success());
    let listed = list_mtgo_windows_for(CallerIdentity::Main, || Ok(Vec::new()));
    assert_eq!(listed, CommandResult::Success { ok: true, data: Vec::new(), revision: 1 });
    let refused = list_mtgo_windows_for(CallerIdentity::Capture, || -> Result<Vec<AuthorizedWindow>, RepoError> {
        panic!("listed windows for a refused caller")
    });
    assert!(!refused.is_success());
}
