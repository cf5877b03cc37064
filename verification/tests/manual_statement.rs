use mtgo_notes::canonical::canonical_json;
use mtgo_notes::domain::{RepoError, UtcMillis};
use mtgo_notes::json::JsonValue;
use mtgo_notes::manual_statement::{
    default_selected_fields, manual_payload, manual_preview, manual_statement, sort_cards,
};
use mtgo_notes::player_evidence::ManualEvidenceInput;
use mtgo_notes::player_models::{
    canonical_digest, validate_cards, DeckContentsKind, PlayerCard, PlayerEvidenceId, PlayerId,
};
use mtgo_notes::player_routes::validate_official_artifact_url;

const URL: &str = "https://www.mtgo.com/decklists/event-1";

fn input(contents: DeckContentsKind) -> ManualEvidenceInput {
    ManualEvidenceInput {
        event_title: "Event".to_string(),
        event_date: "2026-08-03".to_string(),
        format: "Modern".to_string(),
        placement: Some("1".to_string()),
        record: Some("5-0".to_string()),
        source_nickname: "Teichou_Aisu".to_string(),
        attribution_url: URL.to_string(),
        contents,
        cards: Vec::new(),
    }
}

fn card(zone: &str, oracle: &str) -> PlayerCard {
    PlayerCard {
        oracle_id: oracle.to_string(),
        display_name: oracle.to_uppercase(),
        zone: zone.to_string(),
        quantity: 1,
        basic_land: false,
    }
}

fn time(t: i64) -> UtcMillis {
    UtcMillis::new(t).expect("time")
}

#[test]
fn ut_008_to_010_reference_and_complete_contracts() {
    let mut reference = input(DeckContentsKind::ReferenceOnly);
    reference.cards.push(PlayerCard {
        oracle_id: "one".into(),
        display_name: "One".into(),
        zone: "main".into(),
        quantity: 1,
        basic_land: false,
    });
    assert!(validate_cards(&reference.cards, false).is_err());
    let complete = input(DeckContentsKind::ReferenceOnly);
    let canonical_url = validate_official_artifact_url(&complete.attribution_url).expect("url");
    let preview = manual_preview(PlayerId::new().expect("id"), 1, &complete, canonical_url, time(1))
        .expect("preview");
    assert!(!preview.evidence.is_complete_official_deck());
}

#[test]
fn the_source_digest_covers_the_payload_alone() {
    let entered = input(DeckContentsKind::ReferenceOnly);
    let id = PlayerId::new().expect("id");
    let first = manual_statement(
        PlayerEvidenceId::new().expect("id"),
        id.clone(),
        1,
        &entered,
        URL.to_string(),
        time(1),
    )
    .expect("statement");
    assert_eq!(
        first.source_digest,
        "0cbb7469b78f7b06b4dd385efeff327ed995624a7a3db7ef7007798c2aa57041"
    );
    assert_eq!(first.source_digest, canonical_digest(&first.payload).expect("digest"));

    let later = manual_statement(
        PlayerEvidenceId::new().expect("id"),
        id.clone(),
        2,
        &entered,
        URL.to_string(),
        time(5),
    )
    .expect("statement");
    assert_eq!(later.source_digest, first.source_digest);
    assert_ne!(later.preview_digest, first.preview_digest);

    let other = manual_statement(
        PlayerEvidenceId::new().expect("id"),
        PlayerId::new().expect("id"),
        1,
        &entered,
        URL.to_string(),
        time(1),
    )
    .expect("statement");
    assert_eq!(other.source_digest, first.source_digest);
    assert_ne!(other.preview_digest, first.preview_digest);

    let mut retitled = input(DeckContentsKind::ReferenceOnly);
    retitled.event_title = "  Event 2 ".to_string();
    let changed = manual_statement(
        PlayerEvidenceId::new().expect("id"),
        id,
        1,
        &retitled,
        URL.to_string(),
        time(1),
    )
    .expect("statement");
    assert_ne!(changed.source_digest, first.source_digest);
}

#[test]
fn a_statement_keeps_the_entered_fields_trimmed() {
    let mut entered = input(DeckContentsKind::ReferenceOnly);
    entered.source_nickname = "  Teichou_Aisu ".to_string();
    entered.placement = None;
    let statement = manual_statement(
        PlayerEvidenceId::new().expect("id"),
        PlayerId::new().expect("id"),
        1,
        &entered,
        URL.to_string(),
        time(7),
    )
    .expect("statement");
    assert_eq!(statement.source_nickname, "Teichou_Aisu");
    assert_eq!(statement.lookup_nickname, "Teichou_Aisu");
    assert_eq!(statement.canonical_source_url.as_deref(), Some(URL));
    assert_eq!(statement.observed_at, time(7));
    assert_eq!(
        canonical_json(&statement.scope).expect("scope"),
        "{\"eventDate\":\"2026-08-03\",\"format\":\"Modern\"}"
    );
    let text = canonical_json(&statement.payload).expect("payload");
    assert!(text.contains("\"placement\":null"));
    assert!(text.contains("\"source_nickname\":\"Teichou_Aisu\""));
    assert!(statement.source_key.starts_with("source-v1:"));
}

#[test]
fn a_statement_needs_a_valid_nickname() {
    let mut entered = input(DeckContentsKind::ReferenceOnly);
    entered.source_nickname = "   ".to_string();
    assert_eq!(
        manual_statement(
            PlayerEvidenceId::new().expect("id"),
            PlayerId::new().expect("id"),
            1,
            &entered,
            URL.to_string(),
            time(1),
        )
        .err(),
        Some(RepoError::InvalidRequest)
    );
    assert_eq!(
        manual_preview(PlayerId::new().expect("id"), 1, &entered, URL.to_string(), time(1)).err(),
        Some(RepoError::InvalidRequest)
    );
}

#[test]
fn payload_cards_sort_by_zone_then_oracle_id_keeping_entry_order() {
    let mut first_b = card("main", "b");
    first_b.quantity = 2;
    let cards = vec![card("side", "a"), first_b.clone(), card("main", "a"), card("main", "b")];
    let sorted = sort_cards(&cards);
    assert_eq!(sorted, vec![card("main", "a"), first_b, card("main", "b"), card("side", "a")]);

    let mut complete = input(DeckContentsKind::CompleteDeck);
    complete.cards = vec![card("side", "x"), card("main", "y")];
    let text = canonical_json(&manual_payload(&complete)).expect("payload");
    assert!(text.contains(
        "\"cards\":[{\"basicLand\":false,\"displayName\":\"Y\",\"oracleId\":\"y\",\"quantity\":1,\"zone\":\"main\"},{\"basicLand\":false,\"displayName\":\"X\",\"oracleId\":\"x\",\"quantity\":1,\"zone\":\"side\"}]"
    ));
    assert!(text.contains("\"contents\":\"complete_deck\""));
}

#[test]
fn a_new_preview_selects_every_approved_field() {
    let text = canonical_json(&default_selected_fields()).expect("fields");
    assert_eq!(
        text,
        "{\"attribution_url\":true,\"contents\":true,\"event_date\":true,\"event_title\":true,\"format\":true,\"placement\":true,\"record\":true,\"source_nickname\":true}"
    );
    let preview = manual_preview(
        PlayerId::new().expect("id"),
        3,
        &input(DeckContentsKind::ReferenceOnly),
        URL.to_string(),
        time(1),
    )
    .expect("preview");
    assert_eq!(preview.identity_revision, 3);
    assert_eq!(preview.approved_fields.len(), 8);
    assert!(matches!(preview.evidence.payload, JsonValue::Object(_)));
}

#[test]
fn canonical_text_escapes_strings_as_serde_json_does() {
    let value = JsonValue::String("a\"b\\c\n\t\u{1}\u{1f}/é".to_string());
    assert_eq!(
        canonical_json(&value).expect("text"),
        "\"a\\\"b\\\\c\\n\\t\\u0001\\u001f/é\""
    );
}
