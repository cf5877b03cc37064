use std::cell::RefCell;
use std::collections::BTreeMap;

use mtgo_notes::domain::{EntityId, Revision, RepoError};
use mtgo_notes::ipc::{CallerIdentity, CommandResult, ErrorCode};
use mtgo_notes::note_commands::{
    save_observation_for, save_observation_with_capture_for, SaveObservationRequest,
};

type Step = Result<(String, String, u64), RepoError>;

fn request(encounter_id: &str, text: &str) -> SaveObservationRequest<u8> {
    SaveObservationRequest {
        encounter_id: encounter_id.to_string(),
        text: text.into(),
        cards: Vec::new(),
        tags: Vec::new(),
        user_deck_label: None,
        idempotency_key: EntityId::new().expect("key").to_string(),
    }
}

fn id() -> String {
    EntityId::new().expect("id").to_string()
}

/// The notebook refuses blank text, as the observation service does.
fn create(observation: &str) -> impl Fn(EntityId, String) -> Step + '_ {
    move |_encounter: EntityId, text: String| {
        if text.trim().is_empty() {
            Err(RepoError::InvalidRequest)
        } else {
            Ok((text, observation.to_string(), 1))
        }
    }
}

fn never_cards(_id: EntityId, _r: Revision, _c: Vec<u8>) -> Step {
    panic!("no cards were given")
}

fn never_tags(_id: EntityId, _r: Revision, _t: Vec<String>) -> Step {
    panic!("no tags were given")
}

fn never_label(_id: EntityId, _r: Revision, _l: Option<String>) -> Step {
    panic!("no label was given")
}

fn accept(_request: &SaveObservationRequest<u8>) -> Result<(), RepoError> {
    Ok(())
}

#[test]
fn it_245_failed_capture_save_preserves_encrypted_draft_and_success_removes_it() {
    let encounter_id = id();
    let observation = id();
    let drafts: RefCell<BTreeMap<String, String>> = RefCell::new(BTreeMap::new());
    let preserve = |id: EntityId, text: &String| -> Result<(), RepoError> {
        drafts.borrow_mut().insert(id.to_string(), text.clone());
        Ok(())
    };
    let complete = |id: EntityId| -> Result<(), RepoError> {
        drafts.borrow_mut().remove(&id.to_string());
        Ok(())
    };

    let failed = save_observation_with_capture_for(
        CallerIdentity::Capture,
        request(&encounter_id, " "),
        accept,
        create(&observation),
        never_cards,
        never_tags,
        never_label,
        preserve,
        complete,
    );
    assert!(!failed.is_success());
    assert!(drafts.borrow().get(&encounter_id).is_some());

    let saved = save_observation_with_capture_for(
        CallerIdentity::Capture,
        request(&encounter_id, "Saved after retry"),
        accept,
        create(&observation),
        never_cards,
        never_tags,
        never_label,
        preserve,
        complete,
    );
    assert!(saved.is_success());
    assert!(drafts.borrow().get(&encounter_id).is_none());
}

#[test]
fn enrichment_is_set_in_turn_at_the_revision_each_step_leaves() {
    let observation = id();
    let mut full: SaveObservationRequest<u8> = request(&id(), "Plays fast");
    full.cards = vec![1, 2];
    full.tags = vec!["aggro".to_string()];
    full.user_deck_label = Some("Burn".to_string());
    let seen: RefCell<Vec<(String, u64)>> = RefCell::new(Vec::new());
    let result = save_observation_for(
        CallerIdentity::Main,
        full,
        accept,
        create(&observation),
        |id: EntityId, r: Revision, cards: Vec<u8>| -> Step {
            seen.borrow_mut().push(("cards".to_string(), r.0));
            Ok((format!("{} cards", cards.len()), id.to_string(), r.0 + 1))
        },
        |id: EntityId, r: Revision, tags: Vec<String>| -> Step {
            seen.borrow_mut().push(("tags".to_string(), r.0));
            Ok((tags.join(","), id.to_string(), r.0 + 1))
        },
        |id: EntityId, r: Revision, label: Option<String>| -> Step {
            seen.borrow_mut().push(("label".to_string(), r.0));
            Ok((label.unwrap_or_default(), id.to_string(), r.0 + 1))
        },
    );
    assert_eq!(result, CommandResult::Success { ok: true, data: "Burn".to_string(), revision: 4 });
    assert_eq!(
        *seen.borrow(),
        vec![("cards".to_string(), 1), ("tags".to_string(), 2), ("label".to_string(), 3)]
    );
}

#[test]
fn saving_checks_window_key_encounter_and_enrichment_first() {
    let observation = id();
    let overlay = save_observation_for(
        CallerIdentity::Overlay,
        request(&id(), "text"),
        accept,
        create(&observation),
        never_cards,
        never_tags,
        never_label,
    );
    assert!(matches!(overlay, CommandResult::Failure { ref error, .. } if error.code == ErrorCode::UnauthorizedCaller));
    let mut no_key = request(&id(), "text");
    no_key.idempotency_key = String::new();
    let refused = save_observation_for(CallerIdentity::Main, no_key, accept, create(&observation), never_cards, never_tags, never_label);
    assert!(matches!(refused, CommandResult::Failure { ref error, .. } if error.field.as_deref() == Some("idempotencyKey")));
    let bad_encounter = save_observation_for(
        CallerIdentity::Capture,
        request("no such encounter", "text"),
        accept,
        create(&observation),
        never_cards,
        never_tags,
        never_label,
    );
    assert!(matches!(bad_encounter, CommandResult::Failure { ref error, .. } if error.code == ErrorCode::InvalidRequest));
    let refused_enrichment = save_observation_for(
        CallerIdentity::Main,
        request(&id(), "text"),
        |_r: &SaveObservationRequest<u8>| Err(RepoError::InvalidRequest),
        |_e: EntityId, _t: String| -> Step { panic!("created despite invalid enrichment") },
        never_cards,
        never_tags,
        never_label,
    );
    assert!(!refused_enrichment.is_success());
}

#[test]
fn a_capture_draft_that_cannot_be_kept_stops_the_save() {
    let observation = id();
    let result = save_observation_with_capture_for(
        CallerIdentity::Capture,
        request(&id(), "text"),
        accept,
        create(&observation),
        never_cards,
        never_tags,
        never_label,
        |_id: EntityId, _t: &String| Err(RepoError::KeyUnavailable),
        |_id: EntityId| -> Result<(), RepoError> { panic!("completed without a save") },
    );
    assert!(matches!(result, CommandResult::Failure { ref error, .. } if error.code == ErrorCode::KeyUnavailable));
}
