use mtgo_notes::canonical::canonical_json;
use mtgo_notes::commands::{require_idempotency_key, require_operation_id};
use mtgo_notes::domain::{check_id, hex_encode, EntityId, RepoError, Revision};
use mtgo_notes::ipc::{CallerIdentity, CommandResult, ErrorCode};
use mtgo_notes::json::{JsonNumber, JsonValue};
use mtgo_notes::keyed::KeyedMap;
use mtgo_notes::note_commands::{create_profile_for, HandleRequest};
use mtgo_notes::player_evidence::validate_iso_date;
use mtgo_notes::text::{str_le, trim_string};

#[test]
fn window_labels_map_to_callers_and_others_are_refused() {
    assert_eq!(CallerIdentity::from_window_label("main"), Ok(CallerIdentity::Main));
    assert_eq!(CallerIdentity::from_window_label("overlay"), Ok(CallerIdentity::Overlay));
    assert_eq!(CallerIdentity::from_window_label("capture"), Ok(CallerIdentity::Capture));
    let refused = CallerIdentity::from_window_label("devtools").expect_err("refused");
    assert_eq!(refused.code, ErrorCode::UnauthorizedCaller);
    assert_eq!(refused.message, "This window may not run that command.");
    assert!(CallerIdentity::Capture
        .require(&[CallerIdentity::Main, CallerIdentity::Capture])
        .is_ok());
    assert!(CallerIdentity::Overlay.require(&[CallerIdentity::Main]).is_err());
}

#[test]
fn keys_and_identifiers_are_checked_with_named_fields() {
    let key = require_idempotency_key("not a key").expect_err("refused");
    assert_eq!(key.field.as_deref(), Some("idempotencyKey"));
    let id = require_operation_id("").expect_err("refused");
    assert_eq!(id.field.as_deref(), Some("operationId"));
    let fresh = EntityId::new().expect("id");
    assert!(check_id(fresh.as_str()));
    assert_eq!(fresh.as_str().len(), 32);
    assert!(require_operation_id(fresh.as_str()).is_ok());
}

#[test]
fn repository_errors_map_to_stable_codes() {
    let busy = RepoError::OperationBusy.to_app_error();
    assert_eq!(busy.code, ErrorCode::OperationBusy);
    assert!(busy.retryable);
    let empty = RepoError::EmptyPortabilityConfirmationRequired.to_app_error();
    assert_eq!(empty.code, ErrorCode::AcknowledgementRequired);
    assert!(!empty.retryable);
    assert_eq!(empty.message, "The request could not be completed.");
}

#[test]
fn revisions_start_at_one_and_zero_is_refused() {
    assert_eq!(Revision::initial().get(), 1);
    assert_eq!(Revision::new(0), Err(RepoError::InvalidRequest));
    assert_eq!(Revision::new(5).expect("revision").next().expect("next").get(), 6);
    assert!(Revision::new(u64::MAX).expect("revision").next().is_err());
}

#[test]
fn hex_is_lower_case_two_digits_per_byte() {
    assert_eq!(hex_encode(&[0, 15, 16, 255]), "000f10ff");
}

#[test]
fn canonical_json_orders_keys_and_escapes() {
    let value = JsonValue::Object(vec![
        ("a".to_string(), JsonValue::Number(JsonNumber::PosInt(1))),
        ("b".to_string(), JsonValue::String("x\"y\n".to_string())),
    ]);
    assert_eq!(canonical_json(&value).expect("json"), "{\"a\":1,\"b\":\"x\\\"y\\n\"}");
    let unordered = JsonValue::Object(vec![
        ("b".to_string(), JsonValue::Null),
        ("a".to_string(), JsonValue::Null),
    ]);
    assert!(canonical_json(&unordered).is_err());
    assert_eq!(
        canonical_json(&JsonValue::Array(vec![
            JsonValue::Bool(true),
            JsonValue::Number(JsonNumber::NegInt(-3))
        ]))
        .expect("json"),
        "[true,-3]"
    );
}

#[test]
fn iso_dates_are_checked_by_shape() {
    assert_eq!(validate_iso_date("2026-01-02"), Ok(()));
    assert_eq!(validate_iso_date("2026-1-02"), Err(RepoError::InvalidRequest));
    assert_eq!(validate_iso_date("2026-01-02T00"), Err(RepoError::InvalidRequest));
}

#[test]
fn keyed_map_replaces_and_removes_by_key() {
    let mut map: KeyedMap<u32> = KeyedMap::new();
    map.insert("a".to_string(), 1);
    map.insert("b".to_string(), 2);
    map.insert("a".to_string(), 3);
    assert_eq!(map.len(), 2);
    assert_eq!(map.get("a"), Some(&3));
    assert_eq!(map.remove("a"), Some(3));
    assert_eq!(map.remove("a"), None);
    assert!(!map.contains_key("a"));
    assert_eq!(map.keys(), vec!["b".to_string()]);
}

#[test]
fn text_helpers_trim_and_order_by_code_point() {
    assert_eq!(trim_string("  Alice \t"), "Alice");
    assert!(str_le("abc", "abd"));
    assert!(str_le("ab", "abc"));
    assert!(!str_le("b", "abc"));
}

#[test]
fn profile_creation_needs_the_main_window_and_a_key() {
    let key = mtgo_notes::domain::IdempotencyKey::new().expect("key");
    let refused = create_profile_for(
        CallerIdentity::Overlay,
        HandleRequest {
            handle: "Alice".to_string(),
            idempotency_key: key.as_str().to_string(),
        },
        |handle: String| Ok::<(String, u64), RepoError>((handle, 1)),
    );
    assert!(matches!(refused, CommandResult::Failure { ref error, .. } if error.code == ErrorCode::UnauthorizedCaller));
    let no_key = create_profile_for(
        CallerIdentity::Main,
        HandleRequest {
            handle: "Alice".to_string(),
            idempotency_key: String::new(),
        },
        |handle: String| Ok::<(String, u64), RepoError>((handle, 1)),
    );
    assert!(matches!(no_key, CommandResult::Failure { ref error, .. } if error.code == ErrorCode::InvalidRequest));
    let created = create_profile_for(
        CallerIdentity::Main,
        HandleRequest {
            handle: "Alice".to_string(),
            idempotency_key: key.as_str().to_string(),
        },
        |handle: String| Ok::<(String, u64), RepoError>((handle, 4)),
    );
    assert_eq!(
        created,
        CommandResult::Success {
            ok: true,
            data: "Alice".to_string(),
            revision: 4
        }
    );
}
