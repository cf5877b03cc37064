use mtgo_notes::domain::{InternalPhase, Revision, UtcMillis};
use mtgo_notes::ipc::CallerIdentity;
use mtgo_notes::json::JsonValue;
use mtgo_notes::player_census::{
    ApprovedCensusScope, CensusProviderMode, PlayerProviderError, SyntheticProvider,
};
use mtgo_notes::player_models::{PlayerId, PlayerOperationKey, PlayerPreviewToken, PlayerSourceRoute};
use mtgo_notes::player_runtime::{
    authorize_command, LookupOutcome, LookupSession, PlayerCommandKind, PlayerError,
    PlayerErrorCode, PlayerPublicResultsRuntime, ProviderAvailability, MAX_COMMAND_PAYLOAD_BYTES,
};

fn runtime() -> PlayerPublicResultsRuntime {
    let mut runtime = PlayerPublicResultsRuntime::new();
    runtime
        .set_provider_mode(
            CensusProviderMode::Synthetic,
            Some("v1".to_string()),
            Some("a".repeat(64)),
            Some(UtcMillis::new(100_000).expect("time")),
            Some(ApprovedCensusScope {
                catalog_id: "mocs".to_string(),
                start_date: "2026-01-01".to_string(),
                as_of_date: "2026-01-02".to_string(),
            }),
        )
        .expect("mode");
    runtime
        .grant_consent(
            PlayerSourceRoute::CensusMocs,
            "disclosure-v1".to_string(),
            "b".repeat(64),
        )
        .expect("consent");
    runtime
}

fn session(runtime: &mut PlayerPublicResultsRuntime) -> LookupSession {
    runtime
        .begin_lookup(
            CallerIdentity::Main,
            InternalPhase::Idle,
            10,
            PlayerId::new().expect("id"),
            Revision::initial(),
            "Teichou_Aisu".to_string(),
            "disclosure-v1",
            &"b".repeat(64),
            PlayerOperationKey::new().expect("key"),
            UtcMillis::new(1).expect("time"),
        )
        .expect("session")
}

fn empty_rows() -> JsonValue {
    JsonValue::Object(vec![("rows".to_string(), JsonValue::Array(Vec::new()))])
}

#[test]
fn ut_011_and_ut_035_empty_is_only_valid_zero_match() {
    let mut runtime = runtime();
    let session = session(&mut runtime);
    let provider = SyntheticProvider::from_response(&empty_rows(), 10).expect("provider");
    assert!(matches!(
        runtime.complete_lookup(&session, provider.lookup(), UtcMillis::new(2).expect("time")),
        Ok(LookupOutcome::Empty(_))
    ));
    let mut runtime_again = self::runtime();
    let session_again = self::session(&mut runtime_again);
    assert!(matches!(
        runtime_again.complete_lookup(
            &session_again,
            Err(PlayerProviderError::Unavailable),
            UtcMillis::new(2).expect("time")
        ),
        Ok(LookupOutcome::Degraded(_))
    ));
}

#[test]
fn ut_018_to_021_status_consent_phase_and_payload_admission() {
    let runtime = PlayerPublicResultsRuntime::new();
    assert_eq!(
        runtime
            .consent_status(PlayerSourceRoute::CensusMocs)
            .expect("status")
            .availability,
        ProviderAvailability::Disabled
    );
    assert!(authorize_command(
        CallerIdentity::Overlay,
        InternalPhase::Idle,
        PlayerCommandKind::Lookup,
        1
    )
    .is_err());
    assert!(authorize_command(
        CallerIdentity::Main,
        InternalPhase::InGameRestricted,
        PlayerCommandKind::Lookup,
        1
    )
    .is_err());
    assert!(authorize_command(
        CallerIdentity::Main,
        InternalPhase::Idle,
        PlayerCommandKind::Status,
        MAX_COMMAND_PAYLOAD_BYTES + 1
    )
    .is_err());
}

#[test]
fn ut_039_to_050_fencing_lease_replay_and_redacted_error() {
    let mut runtime = runtime();
    let first = session(&mut runtime);
    assert!(matches!(
        runtime.begin_lookup(
            CallerIdentity::Main,
            InternalPhase::Idle,
            1,
            first.player_identity_id.clone(),
            Revision::initial(),
            "other".to_string(),
            "disclosure-v1",
            &"b".repeat(64),
            PlayerOperationKey::new().expect("key"),
            UtcMillis::new(2).expect("time")
        ),
        Err(PlayerError {
            code: PlayerErrorCode::LookupInProgress,
            ..
        })
    ));
    let cancelled = runtime
        .cancel_lookup(
            CallerIdentity::Main,
            InternalPhase::InGameRestricted,
            &first.operation_key,
        )
        .expect("cancel");
    assert_eq!(cancelled, LookupOutcome::Cancelled);
    assert_eq!(
        runtime.replay(&first.operation_key).expect("replay"),
        Some(LookupOutcome::Cancelled)
    );
}

#[test]
fn completed_session_cannot_complete_again() {
    let mut runtime = runtime();
    let session = session(&mut runtime);
    let provider = SyntheticProvider::from_response(&empty_rows(), 10).expect("provider");
    assert!(runtime
        .complete_lookup(&session, provider.lookup(), UtcMillis::new(2).expect("time"))
        .is_ok());
    let again = runtime.complete_lookup(&session, provider.lookup(), UtcMillis::new(3).expect("time"));
    assert!(matches!(
        again,
        Err(PlayerError {
            code: PlayerErrorCode::LookupSessionStale,
            ..
        })
    ));
}

#[test]
fn a_bound_preview_verifies_until_exactly_its_expiry() {
    let mut rt = runtime();
    let token = PlayerPreviewToken::new().expect("token");
    let id = PlayerId::new().expect("id");
    let bound = rt
        .bind_manual_preview(
            token.clone(),
            id.clone(),
            Revision::initial(),
            "source".to_string(),
            "c".repeat(64),
            "d".repeat(64),
            PlayerOperationKey::new().expect("key"),
            UtcMillis::new(1_000).expect("time"),
        )
        .expect("bind");
    assert_eq!(bound.expires_at, UtcMillis::new(901_000).expect("time"));
    let verify = |rt: &PlayerPublicResultsRuntime, source: &str, now: i64| {
        rt.verify_manual_preview(
            &token,
            &id,
            Revision::initial(),
            source,
            &"c".repeat(64),
            &"d".repeat(64),
            UtcMillis::new(now).expect("time"),
        )
    };
    assert_eq!(verify(&rt, "source", 900_999), Ok(bound.clone()));
    assert_eq!(
        verify(&rt, "source", 901_000).map_err(|e| e.code),
        Err(PlayerErrorCode::PreviewExpired)
    );
    assert_eq!(
        verify(&rt, "other", 2_000).map_err(|e| e.code),
        Err(PlayerErrorCode::PreviewMismatch)
    );
    let unbound = PlayerPreviewToken::new().expect("token");
    assert_eq!(
        rt.verify_manual_preview(
            &unbound,
            &id,
            Revision::initial(),
            "source",
            &"c".repeat(64),
            &"d".repeat(64),
            UtcMillis::new(2_000).expect("time"),
        )
        .map_err(|e| e.code),
        Err(PlayerErrorCode::PreviewMismatch)
    );
}
