use mtgo_notes::domain::UtcMillis;
use mtgo_notes::json::{JsonValue};
use mtgo_notes::domain::RepoError;
use mtgo_notes::player_classification::{
    classify_and_persist, is_classification_eligible, CompleteDeck, PlayerClassificationOutcome,
    PlayerClassificationReason,
};
use mtgo_notes::player_models::{
    EvidenceKind, EvidenceProvenance, PlayerCard, PlayerEvidence, PlayerEvidenceId, PlayerId,
};
use mtgo_notes::player_routes::{validate_official_artifact_url, BrowserRoute, MTGTOP8_PLAYER_ROUTE};

#[test]
fn ut_046_and_ut_047_build_closed_percent_encoded_routes() {
    let official = BrowserRoute::OfficialMtgo.build("A nickname").expect("route");
    assert!(official.contains("player=A+nickname") || official.contains("player=A%20nickname"));
    assert!(BrowserRoute::MtgTop8
        .build("A nickname")
        .expect("route")
        .starts_with(MTGTOP8_PLAYER_ROUTE));
}

#[test]
fn ut_022_and_ut_048_manual_url_validation_is_closed() {
    assert!(validate_official_artifact_url("https://www.mtgo.com/decklists/abc").is_ok());
    assert!(validate_official_artifact_url("http://www.mtgo.com/decklists/abc").is_err());
    assert!(validate_official_artifact_url("https://evil.example/deck").is_err());
    assert!(validate_official_artifact_url("https://www.mtgo.com/decklists/abc#token").is_err());
    assert!(
        validate_official_artifact_url(&format!("https://www.mtgo.com/{}", "d".repeat(2_050)))
            .is_err()
    );
}

fn object(entries: &[(&str, &str)]) -> JsonValue {
    JsonValue::Object(
        entries
            .iter()
            .map(|(k, v)| (k.to_string(), JsonValue::String(v.to_string())))
            .collect(),
    )
}

fn evidence(complete: bool) -> PlayerEvidence {
    PlayerEvidence {
        id: PlayerEvidenceId::new().expect("id"),
        player_identity_id: PlayerId::new().expect("id"),
        evidence_schema_version: 1,
        kind: EvidenceKind::OfficialPublishedDecklist,
        provenance_mode: EvidenceProvenance::UserAttestedOfficialSource,
        provider_id: "official_mtgo".to_string(),
        attribution_url: "https://www.mtgo.com/decklists/x".to_string(),
        canonical_source_url: Some("https://www.mtgo.com/decklists/x".to_string()),
        lookup_nickname: "Alpha".to_string(),
        source_nickname: "Alpha".to_string(),
        exact_match_rule: "case_insensitive_full_string".to_string(),
        scope: object(&[("format", "Modern")]),
        observed_at: UtcMillis::new(1).expect("time"),
        imported_at: UtcMillis::new(1).expect("time"),
        source_key: "source".to_string(),
        source_digest: "a".repeat(64),
        preview_digest: "b".repeat(64),
        payload: object(&[
            ("format", "Modern"),
            ("contents", if complete { "complete_deck" } else { "reference_only" }),
        ]),
        selected_fields: JsonValue::Object(vec![
            ("source_nickname".to_string(), JsonValue::Bool(true)),
            ("attribution_url".to_string(), JsonValue::Bool(true)),
        ]),
        supersedes_evidence_id: None,
        cards: if complete {
            vec![PlayerCard {
                oracle_id: "one".to_string(),
                display_name: "One".to_string(),
                zone: "main".to_string(),
                quantity: 1,
                basic_land: false,
            }]
        } else {
            Vec::new()
        },
    }
}

#[test]
fn ut_017_only_complete_official_evidence_is_eligible() {
    assert!(is_classification_eligible(&evidence(true)));
    assert!(!is_classification_eligible(&evidence(false)));
}

fn no_assets() -> Result<u8, RepoError> {
    panic!("assets read for ineligible evidence")
}

#[test]
fn classification_is_stored_only_for_complete_official_decks() {
    let reference = classify_and_persist(
        &evidence(false),
        no_assets,
        |_d: CompleteDeck, _s: u8| -> Result<String, RepoError> { panic!("classified") },
        |_r: String| -> Result<String, RepoError> { panic!("stored") },
    );
    assert_eq!(
        reference,
        Ok(PlayerClassificationOutcome::Unclassified { reason: PlayerClassificationReason::IneligibleEvidence })
    );

    let stored = classify_and_persist(
        &evidence(true),
        || Ok(7u8),
        |deck: CompleteDeck, assets: u8| -> Result<String, RepoError> {
            assert_eq!(assets, 7);
            assert_eq!(deck.format, "Modern");
            assert!(deck.complete);
            assert_eq!(deck.cards.len(), 1);
            assert_eq!(deck.cards[0].oracle_id, "one");
            Ok("Burn".to_string())
        },
        |result: String| -> Result<String, RepoError> { Ok(format!("run:{result}")) },
    );
    assert_eq!(stored, Ok(PlayerClassificationOutcome::Classified("run:Burn".to_string())));
}

#[test]
fn classifier_failures_leave_evidence_unclassified() {
    let unsupported = classify_and_persist(
        &evidence(true),
        || Ok(0u8),
        |_d: CompleteDeck, _s: u8| -> Result<String, RepoError> { Err(RepoError::FormatUnsupported) },
        |_r: String| -> Result<String, RepoError> { panic!("stored") },
    );
    assert_eq!(
        unsupported,
        Ok(PlayerClassificationOutcome::Unclassified { reason: PlayerClassificationReason::UnsupportedFormat })
    );
    let failed = classify_and_persist(
        &evidence(true),
        || Ok(0u8),
        |_d: CompleteDeck, _s: u8| -> Result<String, RepoError> { Err(RepoError::NotebookInvalid) },
        |_r: String| -> Result<String, RepoError> { panic!("stored") },
    );
    assert_eq!(
        failed,
        Ok(PlayerClassificationOutcome::Unclassified { reason: PlayerClassificationReason::ClassifierFailed })
    );
    let no_assets = classify_and_persist(
        &evidence(true),
        || -> Result<u8, RepoError> { Err(RepoError::NotFound) },
        |_d: CompleteDeck, _s: u8| -> Result<String, RepoError> { panic!("classified") },
        |_r: String| -> Result<String, RepoError> { panic!("stored") },
    );
    assert_eq!(no_assets, Err(RepoError::AssetsInvalid));
}
