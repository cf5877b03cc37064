use mtgo_notes::ipc::{AppError, CallerIdentity, CommandResult, ErrorCode};
use mtgo_notes::update_commands::{
    check_classifier_update_for, check_update_for, install_classifier_update_for,
    install_update_for, ClassifierAssetBundle, ClassifierUpdateView,
    InstallClassifierUpdateRequest, UpdateRuntime,
};

const CORPUS: &str = "{\"decks\":[]}";

fn bundle(corpus: &str) -> ClassifierAssetBundle {
    ClassifierAssetBundle {
        manifest_json: "{\"classifierVersion\":\"1\"}".to_string(),
        definitions_json: "{}".to_string(),
        corpus_json: corpus.to_string(),
        golden_json: "[]".to_string(),
    }
}

/// Accepts only the signed corpus, as the classifier's digest check does.
fn validate(bundle: &ClassifierAssetBundle) -> Result<ClassifierUpdateView, AppError> {
    if bundle.corpus_json == CORPUS {
        Ok(ClassifierUpdateView {
            classifier_version: "1".to_string(),
            digest: "d".repeat(64),
            formats: vec!["Modern".to_string()],
        })
    } else {
        Err(AppError::new(ErrorCode::AssetsInvalid, "invalid".to_string(), false))
    }
}

fn code<T>(result: &CommandResult<T>) -> Option<ErrorCode> {
    match result {
        CommandResult::Failure { error, .. } => Some(error.code),
        CommandResult::Success { .. } => None,
    }
}

#[test]
fn configured_classifier_endpoint_stages_validated_assets() {
    let mut runtime = UpdateRuntime::new();
    let result = check_classifier_update_for(
        CallerIdentity::Main,
        true,
        &mut runtime,
        validate,
        || Ok(Some(bundle(CORPUS))),
    );
    assert!(result.is_success());
    assert!(runtime.pending_classifier().is_ok());
}

#[test]
fn tampered_classifier_update_never_replaces_pending_last_known_good() {
    let mut runtime = UpdateRuntime::new();
    let mut corpus = CORPUS.to_string();
    corpus.push(' ');
    let result = runtime.stage_classifier_bundle(true, bundle(&corpus), validate);
    assert_eq!(result.expect_err("tampered").code, ErrorCode::AssetsInvalid);
    assert!(runtime.pending_classifier().is_err());

    let staged = runtime.stage_classifier_bundle(true, bundle(CORPUS), validate);
    assert!(staged.is_ok());
    let again = runtime.stage_classifier_bundle(true, bundle(&corpus), validate);
    assert!(again.is_err());
    assert_eq!(runtime.pending_classifier().expect("kept"), bundle(CORPUS));
}

#[test]
fn classifier_checks_are_opt_in_and_main_window_only() {
    let mut runtime = UpdateRuntime::new();
    let disabled = check_classifier_update_for(
        CallerIdentity::Main,
        false,
        &mut runtime,
        validate,
        || -> Result<Option<ClassifierAssetBundle>, AppError> { panic!("fetched while disabled") },
    );
    assert_eq!(code(&disabled), Some(ErrorCode::UpdateUnavailable));
    let overlay = check_classifier_update_for(
        CallerIdentity::Overlay,
        true,
        &mut runtime,
        validate,
        || Ok(Some(bundle(CORPUS))),
    );
    assert_eq!(code(&overlay), Some(ErrorCode::UnauthorizedCaller));
    let nothing = check_classifier_update_for(CallerIdentity::Main, true, &mut runtime, validate, || Ok(None));
    assert_eq!(code(&nothing), Some(ErrorCode::UpdateUnavailable));
    assert!(runtime.pending_classifier().is_err());
}

#[test]
fn staged_assets_are_shown_without_fetching_again() {
    let mut runtime = UpdateRuntime::new();
    runtime.stage_classifier_bundle(true, bundle(CORPUS), validate).expect("staged");
    let shown = check_classifier_update_for(
        CallerIdentity::Main,
        true,
        &mut runtime,
        validate,
        || -> Result<Option<ClassifierAssetBundle>, AppError> { panic!("fetched with assets staged") },
    );
    match shown {
        CommandResult::Success { data, revision, .. } => {
            assert_eq!(revision, 1);
            assert_eq!(data.formats, vec!["Modern".to_string()]);
        }
        CommandResult::Failure { error, .. } => panic!("check failed: {error:?}"),
    }
}

#[test]
fn activation_needs_confirmation_and_clears_the_staged_assets() {
    let mut runtime = UpdateRuntime::new();
    runtime.stage_classifier_bundle(true, bundle(CORPUS), validate).expect("staged");
    let unconfirmed = install_classifier_update_for(
        CallerIdentity::Main,
        true,
        &mut runtime,
        InstallClassifierUpdateRequest { confirmed: false },
        |_b: ClassifierAssetBundle| -> Result<u32, AppError> { panic!("activated unconfirmed") },
    );
    match unconfirmed {
        CommandResult::Failure { error, .. } => {
            assert_eq!(error.code, ErrorCode::InvalidRequest);
            assert_eq!(error.message, "Confirm classifier activation before applying signed assets.");
        }
        CommandResult::Success { .. } => panic!("activated unconfirmed"),
    }
    assert!(runtime.pending_classifier().is_ok());

    let failed = install_classifier_update_for(
        CallerIdentity::Main,
        true,
        &mut runtime,
        InstallClassifierUpdateRequest { confirmed: true },
        |_b: ClassifierAssetBundle| -> Result<u32, AppError> { Err(AppError::internal("activation")) },
    );
    assert_eq!(code(&failed), Some(ErrorCode::InternalError));
    assert!(runtime.pending_classifier().is_ok());

    let done = install_classifier_update_for(
        CallerIdentity::Main,
        true,
        &mut runtime,
        InstallClassifierUpdateRequest { confirmed: true },
        |b: ClassifierAssetBundle| -> Result<usize, AppError> { Ok(b.corpus_json.len()) },
    );
    assert_eq!(done, CommandResult::Success { ok: true, data: CORPUS.len(), revision: 1 });
    assert!(runtime.pending_classifier().is_err());

    let nothing_staged = install_classifier_update_for(
        CallerIdentity::Main,
        true,
        &mut runtime,
        InstallClassifierUpdateRequest { confirmed: true },
        |_b: ClassifierAssetBundle| -> Result<u32, AppError> { panic!("nothing to activate") },
    );
    assert_eq!(code(&nothing_staged), Some(ErrorCode::UpdateUnavailable));
}

#[test]
fn application_updates_are_checked_and_installed_only_when_enabled() {
    let checked = check_update_for(CallerIdentity::Main, false, |enabled: bool| -> Result<bool, AppError> {
        Ok(enabled)
    });
    assert_eq!(checked, CommandResult::Success { ok: true, data: false, revision: 1 });
    let refused = check_update_for(CallerIdentity::Capture, true, |_e: bool| -> Result<bool, AppError> {
        panic!("checked for a refused caller")
    });
    assert_eq!(code(&refused), Some(ErrorCode::UnauthorizedCaller));
    let disabled = install_update_for(CallerIdentity::Main, false, 7u8, |_r: u8| -> Result<u8, AppError> {
        panic!("installed while disabled")
    });
    assert_eq!(code(&disabled), Some(ErrorCode::UpdateUnavailable));
    let installed = install_update_for(CallerIdentity::Main, true, 7u8, |r: u8| -> Result<u8, AppError> { Ok(r + 1) });
    assert_eq!(installed, CommandResult::Success { ok: true, data: 8, revision: 1 });
}
