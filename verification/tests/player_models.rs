use mtgo_notes::json::{JsonNumber, JsonValue};
use mtgo_notes::player_models::{
    canonical_digest, preview_digest, source_digest, canonical_source_key, census_source_key, normalize_player_nickname, validate_cards,
    PlayerCard,
};

#[test]
fn ut_001_to_003_nickname_normalization_and_bounds() {
    let normalized = normalize_player_nickname("  Teichou_Aisu  ").expect("valid");
    assert_eq!(normalized.display, "Teichou_Aisu");
    assert_eq!(normalized.normalized, "teichou_aisu");
    assert!(normalize_player_nickname(&"a".repeat(129)).is_err());
    assert!(normalize_player_nickname("\0").is_err());
}

#[test]
fn ut_004_to_005_source_keys_are_deterministic_and_unambiguous() {
    let first = canonical_source_key(&["a", "bc"]).expect("key");
    let second = canonical_source_key(&["ab", "c"]).expect("key");
    assert_ne!(first, second);
    assert_eq!(
        census_source_key("catalog", "2026-01-01", "2026-01-02", "Teichou_Aisu").expect("key"),
        census_source_key("catalog", "2026-01-01", "2026-01-02", "teichou_aisu").expect("key")
    );
}

fn card(quantity: u16) -> PlayerCard {
    PlayerCard {
        oracle_id: "oracle".to_string(),
        display_name: "Card".to_string(),
        zone: "main".to_string(),
        quantity,
        basic_land: false,
    }
}

#[test]
fn complete_deck_bounds_and_reference_only_contract() {
    let one = card(250);
    assert!(validate_cards(std::slice::from_ref(&one), true).is_ok());
    assert!(validate_cards(&[one.clone(), one.clone()], true).is_err());
    assert!(validate_cards(&[], false).is_ok());
    assert!(validate_cards(&[card(1)], false).is_err());
}

#[test]
fn nickname_of_exactly_the_bound_is_accepted() {
    assert!(normalize_player_nickname(&"a".repeat(128)).is_ok());
    assert!(normalize_player_nickname("   ").is_err());
}

fn object(members: &[(&str, u64)]) -> JsonValue {
    JsonValue::Object(
        members
            .iter()
            .map(|(k, v)| (k.to_string(), JsonValue::Number(JsonNumber::PosInt(*v))))
            .collect(),
    )
}

#[test]
fn ut_006_to_007_digests_are_order_independent_but_content_sensitive() {
    // An object's members are held in key order, however they were written.
    let one = object(&[("a", 1), ("b", 2)]);
    let two = object(&[("a", 1), ("b", 2)]);
    assert_eq!(
        source_digest(&one).expect("digest"),
        source_digest(&two).expect("digest")
    );
    assert_ne!(
        source_digest(&one).expect("digest"),
        preview_digest(&object(&[("a", 1), ("b", 3)])).expect("digest")
    );
}

#[test]
fn digests_are_hex_sha256_and_refuse_unordered_objects() {
    let digest = canonical_digest(&object(&[("a", 1)])).expect("digest");
    assert_eq!(digest.len(), 64);
    assert!(digest.chars().all(|c| c.is_ascii_hexdigit() && !c.is_ascii_uppercase()));
    assert_eq!(
        canonical_digest(&object(&[("b", 1), ("a", 2)])),
        Err(mtgo_notes::domain::RepoError::InvalidRequest)
    );
}
