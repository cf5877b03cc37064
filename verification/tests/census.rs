use mtgo_notes::domain::UtcMillis;
use mtgo_notes::json::{JsonNumber, JsonValue};
use mtgo_notes::player_census::{
    build_request, exact_matches, validate_response, ApprovedCensusScope, DisabledProvider,
    PlayerProviderError, ReviewedCensusConfiguration, SyntheticProvider, MAX_RESPONSE_BYTES,
};

fn config() -> ReviewedCensusConfiguration {
    ReviewedCensusConfiguration {
        service_id: "s:approved".to_string(),
        scope: ApprovedCensusScope {
            catalog_id: "mocs".to_string(),
            start_date: "2026-01-01".to_string(),
            as_of_date: "2026-01-02".to_string(),
        },
        version: "v1".to_string(),
        expires_at: UtcMillis::new(10_000).expect("time"),
        reviewed: true,
        fingerprint: "a".repeat(64),
    }
}

fn number(n: u64) -> JsonValue {
    JsonValue::Number(JsonNumber::PosInt(n))
}

/// A row with its members in key order, as `serde_json` holds an object.
fn row(nickname: &str, points: u64, top8: u64, best: u64) -> JsonValue {
    JsonValue::Object(vec![
        ("best".to_string(), number(best)),
        ("nickname".to_string(), JsonValue::String(nickname.to_string())),
        ("points".to_string(), number(points)),
        ("top8".to_string(), number(top8)),
    ])
}

fn rows(items: Vec<JsonValue>) -> JsonValue {
    JsonValue::Object(vec![("rows".to_string(), JsonValue::Array(items))])
}

#[test]
fn ut_026_disabled_provider_makes_no_http_effect() {
    assert_eq!(
        DisabledProvider.lookup().expect_err("disabled").code(),
        "provider_disabled"
    );
}

#[test]
fn ut_027_and_ut_028_live_config_and_request_are_fail_closed_and_minimal() {
    let mut invalid = config();
    invalid.service_id = "s:example".to_string();
    assert_eq!(
        invalid.validate(UtcMillis::new(1).expect("time")),
        Err(PlayerProviderError::ConfigurationInvalid)
    );
    let request = build_request(&config()).expect("request");
    assert!(request
        .url
        .starts_with("https://census.daybreakgames.com/get/mg/leaderboard?"));
    assert!(!request.url.contains("nickname"));
    assert_eq!(request.query.len(), 4);
}

#[test]
fn ut_030_to_035_response_bounds_exact_match_and_degradation() {
    let body = rows(vec![
        row("Teichou_Aisu", 12, 1, 12),
        row("Teichou_Aisu_extra", 1, 0, 1),
    ]);
    let response = validate_response(&body, 100).expect("valid");
    assert_eq!(exact_matches(&response, "teichou_aisu").expect("match").len(), 1);
    assert!(validate_response(&body, MAX_RESPONSE_BYTES + 1).is_err());
    let partial = rows(vec![JsonValue::Object(vec![(
        "nickname".to_string(),
        JsonValue::String("x".to_string()),
    )])]);
    assert!(validate_response(&partial, 10).is_err());
}

#[test]
fn expired_configuration_is_refused() {
    assert_eq!(
        config().validate(UtcMillis::new(10_000).expect("time")),
        Err(PlayerProviderError::ConfigurationExpired)
    );
    assert_eq!(config().validate(UtcMillis::new(9_999).expect("time")), Ok(()));
}

#[test]
fn synthetic_provider_answers_its_fixture() {
    let provider = SyntheticProvider::from_response(&rows(vec![row("Someone", 3, 0, 3)]), 50)
        .expect("fixture");
    let board = provider.lookup().expect("lookup");
    assert_eq!(exact_matches(&board, "someone").expect("match").len(), 1);
    assert_eq!(exact_matches(&board, "nobody").expect("match").len(), 0);
}
