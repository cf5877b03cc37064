use mtgo_notes::decks::{
    execute_retry, select_candidates, validate_candidate, validate_official_url,
    validate_response, AccessMode, DeckCandidate, DeckCard, DeckZone, LookupOutcome,
    OfficialDeckProvider, ProviderConsent, ProviderResponse, RetrySummary, MAX_RESPONSE_BYTES,
    OFFICIAL_DECKLIST_URL, PROVIDER_ID,
};
use mtgo_notes::domain::{EntityId, RepoError, UtcMillis};

fn binding_token() -> String {
    EntityId::new().expect("id").to_string()
}

fn cards() -> Vec<DeckCard> {
    vec![DeckCard {
        oracle_id: "oracle-card".to_string(),
        display_name: "Fixture Card".to_string(),
        zone: DeckZone::Main,
        quantity: 60,
        basic_land: false,
    }]
}

fn candidate(token: &str, generation: u64, publication_date: i64) -> DeckCandidate {
    DeckCandidate {
        provider: PROVIDER_ID.to_string(),
        event: "Fixture Challenge".to_string(),
        format: "Modern".to_string(),
        publication_date: UtcMillis::new(publication_date).expect("date"),
        source_url: OFFICIAL_DECKLIST_URL.to_string(),
        provider_label: Some("Fixture label".to_string()),
        response_token: token.to_string(),
        encounter_generation: generation,
        cards: cards(),
    }
}

#[test]
fn ut_046_official_request_is_minimized_allowlisted_and_bound() {
    let mut provider = OfficialDeckProvider::new();
    let token = binding_token();
    let outcome = provider
        .lookup(&ProviderConsent::official_decks(true), "Opponent_42", "Modern", 7, &token)
        .expect("lookup");
    let LookupOutcome::InteractiveRequired { official_url, binding, .. } = outcome;
    let url = validate_official_url(&official_url).expect("official URL");
    assert_eq!(url.host.as_deref(), Some("www.mtgo.com"));
    assert_eq!(url.query.as_deref(), Some("player=Opponent_42&format=Modern"));
    assert_eq!(binding.encounter_generation, 7);
    assert_eq!(binding.request_token, token);
}

#[test]
fn ut_047_and_it_094_missing_consent_stops_before_lookup() {
    let mut provider = OfficialDeckProvider::new();
    let token = binding_token();
    assert_eq!(
        provider.lookup(&ProviderConsent::official_decks(false), "Opponent", "Modern", 1, &token),
        Err(RepoError::ConsentRequired)
    );
    assert_eq!(
        provider.validate_confirmation(&candidate(&token, 1, 10), 1, "Modern"),
        Err(RepoError::StaleProviderResult)
    );
}

#[test]
fn ut_048_and_it_091_reject_unsafe_or_malformed_sources() {
    for url in [
        "http://www.mtgo.com/decklists",
        "https://evil.example/decklists",
        "not a URL",
    ] {
        assert_eq!(validate_official_url(url), Err(RepoError::UnsafeSource));
    }
    let mut malformed = candidate(&binding_token(), 1, 10);
    malformed.event.clear();
    assert_eq!(
        validate_candidate(&malformed, "Modern"),
        Err(RepoError::ProviderInvalidResponse)
    );
}

#[test]
fn ut_049_and_it_095_ignore_stale_generation_or_token() {
    let mut provider = OfficialDeckProvider::new();
    let token = binding_token();
    provider
        .lookup(&ProviderConsent::official_decks(true), "Opponent", "Modern", 2, &token)
        .expect("lookup");
    assert_eq!(
        provider.validate_confirmation(&candidate(&token, 1, 10), 2, "Modern"),
        Err(RepoError::StaleProviderResult)
    );
    assert_eq!(
        provider.validate_confirmation(&candidate(&binding_token(), 2, 10), 2, "Modern"),
        Err(RepoError::StaleProviderResult)
    );
}

#[test]
fn ut_050_retry_stops_after_three_and_exposes_manual_retry() {
    let mut calls = 0;
    let result = execute_retry::<(), _>(|_| {
        calls += 1;
        Err(RepoError::ProviderUnavailable)
    });
    assert_eq!(calls, 3);
    assert_eq!(
        result,
        Err((
            RepoError::ProviderUnavailable,
            RetrySummary {
                attempts: 3,
                manual_retry_available: true
            }
        ))
    );
}

#[test]
fn ut_051_it_092_and_it_093_select_newest_exact_format_with_provenance() {
    assert!(select_candidates(Vec::new(), "Modern").is_empty());
    let mut legacy = candidate("legacy", 1, 30);
    legacy.format = "Legacy".to_string();
    let older = candidate("older", 1, 10);
    let newer = candidate("newer", 1, 20);
    let selected = select_candidates(vec![legacy, older, newer], "Modern");
    assert_eq!(
        selected
            .iter()
            .map(|item| item.response_token.as_str())
            .collect::<Vec<_>>(),
        ["newer", "older", "legacy"]
    );
    assert!(selected.iter().all(|item| !item.event.is_empty()));
}

#[test]
fn ut_052_rejects_size_shape_and_content_type() {
    for response in [
        ProviderResponse {
            content_type: "text/html".to_string(),
            body_size: 100,
            candidates: vec![candidate(&binding_token(), 1, 10)],
        },
        ProviderResponse {
            content_type: "application/json".to_string(),
            body_size: MAX_RESPONSE_BYTES + 1,
            candidates: vec![candidate(&binding_token(), 1, 10)],
        },
    ] {
        assert_eq!(
            validate_response(&response, "Modern"),
            Err(RepoError::ProviderInvalidResponse)
        );
    }
}

#[test]
fn ut_053_interactive_fallback_uses_official_site_only() {
    let mut provider = OfficialDeckProvider::new();
    assert_eq!(provider.access_mode(), AccessMode::InteractiveRequired);
    let LookupOutcome::InteractiveRequired { official_url, .. } = provider
        .lookup(&ProviderConsent::official_decks(true), "Opponent", "Modern", 1, &binding_token())
        .expect("interactive");
    assert!(validate_official_url(&official_url).is_ok());
}

#[test]
fn it_096_received_candidate_remains_confirmable_after_disconnect() {
    let mut provider = OfficialDeckProvider::new();
    let token = binding_token();
    provider
        .lookup(&ProviderConsent::official_decks(true), "Opponent", "Modern", 1, &token)
        .expect("lookup");
    assert!(provider
        .validate_confirmation(&candidate(&token, 1, 10), 1, "Modern")
        .is_ok());
}

#[test]
fn it_098_format_or_generation_change_invalidates_old_candidate() {
    let mut provider = OfficialDeckProvider::new();
    let token = binding_token();
    provider
        .lookup(&ProviderConsent::official_decks(true), "Opponent", "Modern", 1, &token)
        .expect("lookup");
    provider.invalidate_before(2).expect("invalidate");
    assert_eq!(
        provider.validate_confirmation(&candidate(&token, 1, 10), 2, "Legacy"),
        Err(RepoError::StaleProviderResult)
    );
}

#[test]
fn it_280_local_fixture_covers_minimization_allowlist_retry_and_validation() {
    ut_046_official_request_is_minimized_allowlisted_and_bound();
    ut_048_and_it_091_reject_unsafe_or_malformed_sources();
    ut_050_retry_stops_after_three_and_exposes_manual_retry();
    ut_052_rejects_size_shape_and_content_type();
}

#[test]
fn retry_stops_at_first_success() {
    let mut calls = 0;
    let result = execute_retry::<u8, _>(|n| {
        calls += 1;
        if n == 2 {
            Ok(n)
        } else {
            Err(RepoError::ProviderUnavailable)
        }
    });
    assert_eq!(calls, 2);
    assert_eq!(
        result,
        Ok((
            2,
            RetrySummary {
                attempts: 2,
                manual_retry_available: false
            }
        ))
    );
}

#[test]
fn non_retryable_error_stops_retrying() {
    let mut calls = 0;
    let result = execute_retry::<(), _>(|_| {
        calls += 1;
        Err(RepoError::ConsentRequired)
    });
    assert_eq!(calls, 1);
    assert!(matches!(result, Err((RepoError::ConsentRequired, _))));
}
