use mtgo_notes::domain::{RepoError, Revision, UtcMillis};
use mtgo_notes::json::JsonValue;
use mtgo_notes::player_models::{
    EvidenceKind, EvidenceProvenance, PlayerCard, PlayerEvidence, PlayerEvidenceId, PlayerId,
    PlayerOperationKey,
};
use mtgo_notes::player_store::{
    cards_match, check_selection_replay, check_supersedes, create_identity, import_result_code,
    next_selection_revision, plan_import, replay_import, save_identity, update_identity,
    plan_selection, validate_digest, ImportPlan, ReceiptReplay, SaveIdentityInput,
    SelectionPlan, VerifiedImportBatch,
};

fn time(t: i64) -> UtcMillis {
    UtcMillis::new(t).expect("time")
}

#[test]
fn it_004_singleton_and_revision_conflicts_are_fail_closed() {
    let first = create_identity(None, PlayerId::new().expect("id"), "Alpha", time(1)).expect("first");
    assert!(matches!(
        create_identity(Some(first.clone()), PlayerId::new().expect("id"), "Beta", time(2)),
        Err(RepoError::IdentityConflict)
    ));
    let renamed = update_identity(Some(first.clone()), first.id.clone(), "Gamma", Revision(1), time(3));
    assert!(renamed.is_ok());
    let renamed = renamed.expect("renamed");
    assert!(matches!(
        update_identity(Some(renamed), first.id, "Delta", Revision(1), time(4)),
        Err(RepoError::RevisionConflict)
    ));
}

#[test]
fn a_save_renames_keeps_the_id_and_advances_the_revision() {
    let id = PlayerId::new().expect("id");
    let first = create_identity(None, id.clone(), "  Teichou_Aisu ", time(10)).expect("first");
    assert_eq!(first.display_nickname, "Teichou_Aisu");
    assert_eq!(first.normalized_nickname, "teichou_aisu");
    assert_eq!(first.revision, Revision(1));
    assert_eq!(first.created_at, time(10));
    let second = save_identity(
        Some(first),
        SaveIdentityInput {
            id: id.clone(),
            display_nickname: "Renamed".to_string(),
            expected_revision: Some(Revision(1)),
            now: time(20),
        },
    )
    .expect("second");
    assert_eq!(second.id, id);
    assert_eq!(second.revision, Revision(2));
    assert_eq!(second.created_at, time(10));
    assert_eq!(second.updated_at, time(20));
    assert!(matches!(
        update_identity(None, id.clone(), "Late", Revision(1), time(30)),
        Err(RepoError::RevisionConflict)
    ));
    assert!(matches!(
        save_identity(
            Some(second),
            SaveIdentityInput { id, display_nickname: "No revision".to_string(), expected_revision: None, now: time(40) }
        ),
        Err(RepoError::RevisionConflict)
    ));
    assert!(matches!(
        create_identity(None, PlayerId::new().expect("id"), "   ", time(1)),
        Err(RepoError::InvalidRequest)
    ));
}

#[test]
fn a_repeated_import_is_answered_from_its_receipt() {
    let evidence = PlayerEvidenceId::new().expect("id");
    let replay = ReceiptReplay {
        request_digest: "a".repeat(64),
        result_code: import_result_code(true).to_string(),
        result_locator: Some(evidence.as_str().to_string()),
    };
    let (id, inserted) = replay_import(&replay, &"a".repeat(64)).expect("replay");
    assert_eq!(id, evidence);
    assert!(inserted);
    assert_eq!(replay_import(&replay, &"b".repeat(64)), Err(RepoError::InvalidRequest));
    let already = ReceiptReplay { result_code: import_result_code(false).to_string(), ..replay };
    assert!(!replay_import(&already, &"a".repeat(64)).expect("replay").1);
    let damaged = ReceiptReplay { result_locator: None, ..already };
    assert_eq!(replay_import(&damaged, &"a".repeat(64)), Err(RepoError::NotebookInvalid));
    assert_eq!(import_result_code(false), "already_imported");
}

#[test]
fn superseding_needs_the_same_identity_and_source_and_a_new_digest() {
    let owner = PlayerId::new().expect("id");
    let prior = |o: &PlayerId, key: &str, digest: &str| Some((o.as_str().to_string(), key.to_string(), digest.to_string()));
    assert_eq!(check_supersedes(None, &owner, "k", "d2"), Err(RepoError::NotFound));
    assert_eq!(check_supersedes(prior(&owner, "k", "d1"), &owner, "k", "d2"), Ok(()));
    assert_eq!(check_supersedes(prior(&owner, "k", "d2"), &owner, "k", "d2"), Err(RepoError::InvalidRequest));
    assert_eq!(check_supersedes(prior(&owner, "other", "d1"), &owner, "k", "d2"), Err(RepoError::InvalidRequest));
    let stranger = PlayerId::new().expect("id");
    assert_eq!(check_supersedes(prior(&stranger, "k", "d1"), &owner, "k", "d2"), Err(RepoError::InvalidRequest));
}

#[test]
fn selection_revisions_are_append_only() {
    assert_eq!(next_selection_revision(0, Revision(1)), Err(RepoError::NotFound));
    assert_eq!(next_selection_revision(1, Revision(1)), Ok(Revision(2)));
    assert_eq!(next_selection_revision(2, Revision(1)), Err(RepoError::RevisionConflict));
    let replay = ReceiptReplay { request_digest: "d".repeat(64), result_code: "selection_updated".to_string(), result_locator: None };
    assert_eq!(check_selection_replay(&Some("d".repeat(64)), &replay), Ok(()));
    assert_eq!(check_selection_replay(&None, &replay), Err(RepoError::InvalidRequest));
    assert_eq!(validate_digest(&"A".repeat(64)), Ok(()));
    assert_eq!(validate_digest(&"g".repeat(64)), Err(RepoError::InvalidRequest));
    assert_eq!(validate_digest("abc"), Err(RepoError::InvalidRequest));
}

fn card(oracle: &str, quantity: u16) -> PlayerCard {
    PlayerCard {
        oracle_id: oracle.to_string(),
        display_name: oracle.to_uppercase(),
        zone: "main".to_string(),
        quantity,
        basic_land: false,
    }
}

fn batch(complete: bool) -> VerifiedImportBatch {
    let cards = if complete { vec![card("one", 4), card("two", 2)] } else { Vec::new() };
    let contents = if complete { "complete_deck" } else { "reference_only" };
    let evidence = PlayerEvidence {
        id: PlayerEvidenceId::new().expect("id"),
        player_identity_id: PlayerId::new().expect("id"),
        evidence_schema_version: 1,
        kind: EvidenceKind::OfficialPublishedDecklist,
        provenance_mode: EvidenceProvenance::UserAttestedOfficialSource,
        provider_id: "official_mtgo".to_string(),
        attribution_url: "https://www.mtgo.com/decklists/x".to_string(),
        canonical_source_url: None,
        lookup_nickname: "Alpha".to_string(),
        source_nickname: "Alpha".to_string(),
        exact_match_rule: "case_insensitive_full_string".to_string(),
        scope: JsonValue::Object(Vec::new()),
        observed_at: time(1),
        imported_at: time(2),
        source_key: "source".to_string(),
        source_digest: "c".repeat(64),
        preview_digest: "d".repeat(64),
        payload: JsonValue::Object(vec![(
            "contents".to_string(),
            JsonValue::String(contents.to_string()),
        )]),
        selected_fields: JsonValue::Object(Vec::new()),
        supersedes_evidence_id: None,
        cards: cards.clone(),
    };
    VerifiedImportBatch {
        operation_key: PlayerOperationKey::new().expect("key"),
        command_kind: "player_import".to_string(),
        request_digest: "a".repeat(64),
        evidence,
        selected_fields: JsonValue::Object(Vec::new()),
        cards,
        now: time(3),
    }
}

#[test]
fn an_import_is_refused_in_the_order_of_its_checks() {
    let mut bad_digest = batch(true);
    bad_digest.request_digest = "xyz".to_string();
    assert_eq!(plan_import(&bad_digest, false, None, None, None, None), Err(RepoError::InvalidRequest));

    let mut other_cards = batch(true);
    other_cards.cards[0].quantity = 3;
    assert_eq!(plan_import(&other_cards, true, None, None, None, None), Err(RepoError::InvalidRequest));

    let mut cards_on_reference = batch(false);
    cards_on_reference.cards = vec![card("one", 1)];
    cards_on_reference.evidence.cards = vec![card("one", 1)];
    assert_eq!(
        plan_import(&cards_on_reference, true, None, None, None, None),
        Err(RepoError::InvalidRequest)
    );

    assert_eq!(plan_import(&batch(true), false, None, None, None, None), Err(RepoError::NotFound));

    let other_request = ReceiptReplay {
        request_digest: "b".repeat(64),
        result_code: "imported".to_string(),
        result_locator: Some(PlayerEvidenceId::new().expect("id").as_str().to_string()),
    };
    assert_eq!(
        plan_import(&batch(true), true, Some(other_request), None, None, None),
        Err(RepoError::InvalidRequest)
    );

    let mut supersedes = batch(true);
    supersedes.evidence.supersedes_evidence_id = Some(PlayerEvidenceId::new().expect("id"));
    assert_eq!(plan_import(&supersedes, true, None, None, None, None), Err(RepoError::NotFound));
    let owner = supersedes.evidence.player_identity_id.as_str().to_string();
    let same_digest = Some((owner.clone(), "source".to_string(), "c".repeat(64)));
    assert_eq!(
        plan_import(&supersedes, true, None, None, same_digest, None),
        Err(RepoError::InvalidRequest)
    );
}

#[test]
fn an_import_replays_reuses_or_inserts() {
    let first = batch(true);
    let stored = PlayerEvidenceId::new().expect("id");
    let replay = ReceiptReplay {
        request_digest: "a".repeat(64),
        result_code: "already_imported".to_string(),
        result_locator: Some(stored.as_str().to_string()),
    };
    assert_eq!(
        plan_import(&first, true, Some(replay), None, None, None),
        Ok(ImportPlan::Replayed { evidence_id: stored.clone(), inserted: false })
    );
    assert_eq!(
        plan_import(&first, true, None, Some(stored.as_str().to_string()), None, None),
        Ok(ImportPlan::Reused { evidence_id: stored.clone() })
    );
    assert_eq!(
        plan_import(&first, true, None, None, None, Some(stored.clone())),
        Ok(ImportPlan::Inserted { evidence_id: first.evidence.id.clone(), supersedes: Some(stored.clone()) })
    );
    assert_eq!(
        plan_import(&batch(false), true, None, None, None, None).map(|p| matches!(p, ImportPlan::Inserted { supersedes: None, .. })),
        Ok(true)
    );

    let mut refresh = batch(true);
    let named = PlayerEvidenceId::new().expect("id");
    refresh.evidence.supersedes_evidence_id = Some(named.clone());
    let owner = refresh.evidence.player_identity_id.as_str().to_string();
    let earlier = Some((owner, "source".to_string(), "e".repeat(64)));
    assert_eq!(
        plan_import(&refresh, true, None, None, earlier, Some(stored)),
        Ok(ImportPlan::Inserted { evidence_id: refresh.evidence.id.clone(), supersedes: Some(named) })
    );
}

#[test]
fn card_lists_match_row_by_row() {
    assert!(cards_match(&[card("one", 1)], &[card("one", 1)]));
    assert!(!cards_match(&[card("one", 1)], &[card("one", 2)]));
    assert!(!cards_match(&[card("one", 1)], &[]));
    assert!(cards_match(&[], &[]));
}

#[test]
fn a_selection_is_refused_replayed_or_appended() {
    let digest = Some("a".repeat(64));
    let two = Revision::new(2).expect("revision");
    assert_eq!(plan_selection(&Some("xyz".to_string()), true, None, 2, two), Err(RepoError::InvalidRequest));
    assert_eq!(plan_selection(&digest, false, None, 2, two), Err(RepoError::NotFound));
    let replay = || ReceiptReplay {
        request_digest: "a".repeat(64),
        result_code: "selection_updated".to_string(),
        result_locator: None,
    };
    assert_eq!(
        plan_selection(&digest, true, Some(replay()), 3, two),
        Ok(SelectionPlan::Replayed { revision: Revision::new(3).expect("revision") })
    );
    assert_eq!(plan_selection(&None, true, Some(replay()), 3, two), Err(RepoError::InvalidRequest));
    assert_eq!(plan_selection(&digest, true, None, 0, two), Err(RepoError::NotFound));
    assert_eq!(plan_selection(&digest, true, None, 3, two), Err(RepoError::RevisionConflict));
    assert_eq!(
        plan_selection(&None, true, None, 2, two),
        Ok(SelectionPlan::Appended { revision: Revision::new(3).expect("revision") })
    );
    assert_eq!(
        plan_selection(&None, true, None, 2, Revision::new(u64::MAX).expect("revision")),
        Err(RepoError::InvalidRequest)
    );
}
