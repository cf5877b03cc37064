use mtgo_notes::domain::{EntityId, RepoError};
use mtgo_notes::encounter_store::{
    integrity_outcome, plan_confirmation, plan_undo_replacement, IntegrityOutcome,
};

fn id() -> EntityId {
    EntityId::new().expect("id")
}

#[test]
fn a_new_handle_gets_a_profile_and_replaces_the_active_encounter() {
    let new_profile = id();
    let previous = id();
    let other = id();
    let plan = plan_confirmation(
        3,
        "uia",
        None,
        new_profile.clone(),
        Some((previous.to_string(), other.to_string(), "between_games".to_string())),
    )
    .expect("plan");
    assert!(plan.create_profile);
    assert_eq!(plan.record.profile_id, new_profile);
    assert!(plan.record.started_new);
    assert_eq!(plan.record.replaced_encounter_id, Some(previous));
    assert_eq!(plan.finished_phase.as_deref(), Some("between_games"));
}

#[test]
fn confirming_the_active_opponent_again_starts_nothing() {
    let known = id();
    let plan = plan_confirmation(
        1,
        "manual",
        Some(known.to_string()),
        id(),
        Some(("not an id".to_string(), known.to_string(), "pre_match".to_string())),
    )
    .expect("plan");
    assert!(!plan.create_profile);
    assert_eq!(plan.record.profile_id, known);
    assert!(!plan.record.started_new);
    assert_eq!(plan.record.replaced_encounter_id, None);
    assert_eq!(plan.finished_phase, None);
}

#[test]
fn without_an_active_encounter_one_is_started() {
    let known = id();
    let plan = plan_confirmation(0, "ocr", Some(known.to_string()), id(), None).expect("plan");
    assert!(plan.record.started_new);
    assert_eq!(plan.record.replaced_encounter_id, None);
}

#[test]
fn unknown_sources_large_generations_and_bad_ids_are_refused() {
    assert_eq!(plan_confirmation(1, "clipboard", None, id(), None).err(), Some(RepoError::InvalidRequest));
    assert_eq!(plan_confirmation(u64::MAX, "manual", None, id(), None).err(), Some(RepoError::InvalidRequest));
    assert_eq!(
        plan_confirmation(1, "manual", Some("bad id".to_string()), id(), None).err(),
        Some(RepoError::InvalidRequest)
    );
    assert_eq!(
        plan_confirmation(1, "manual", None, id(), Some(("bad id".to_string(), id().to_string(), "idle".to_string()))).err(),
        Some(RepoError::InvalidRequest)
    );
}

#[test]
fn an_unclean_shutdown_is_accepted_only_after_an_integrity_check() {
    assert_eq!(integrity_outcome(1, || -> Result<(), RepoError> { panic!("checked a clean notebook") }), Ok(IntegrityOutcome::Clean));
    assert_eq!(integrity_outcome(0, || Ok(())), Ok(IntegrityOutcome::ValidAfterUncleanShutdown));
    assert_eq!(integrity_outcome(0, || Err(RepoError::NotebookInvalid)), Err(RepoError::NotebookInvalid));
}

fn t(encounter: &str, from: &str, to: &str) -> (String, String, String) {
    (encounter.to_string(), from.to_string(), to.to_string())
}

#[test]
fn a_replacement_is_undone_only_while_the_new_encounter_is_empty() {
    let transitions = vec![t("old", "between_games", "finished"), t("new", "idle", "pre_match")];
    let plan = plan_undo_replacement(&transitions, |id: &String| {
        assert_eq!(id, "new");
        Ok(false)
    });
    assert_eq!(plan, Ok((0, 1)));
    assert_eq!(plan_undo_replacement(&transitions, |_id: &String| Ok(true)), Err(RepoError::InvalidTransition));
    assert_eq!(
        plan_undo_replacement(&transitions, |_id: &String| Err(RepoError::NotebookInvalid)),
        Err(RepoError::NotebookInvalid)
    );
}

#[test]
fn anything_but_a_recorded_replacement_cannot_be_undone() {
    let never = |_id: &String| -> Result<bool, RepoError> { panic!("asked about data") };
    assert_eq!(plan_undo_replacement(&vec![t("new", "idle", "pre_match")], never), Err(RepoError::InvalidTransition));
    assert_eq!(
        plan_undo_replacement(&vec![t("a", "pre_match", "in_game"), t("new", "idle", "pre_match")], never),
        Err(RepoError::InvalidTransition)
    );
}
