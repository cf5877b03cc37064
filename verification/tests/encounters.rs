use mtgo_notes::domain::{EncounterStatus, EntityId, InternalPhase, RepoError};
use mtgo_notes::encounters::{
    ActiveEncounter, ContextEvidence, EncounterAction, EncounterReducer, EncounterRuntime,
    EvidenceKind, EvidenceSource, OCR_STABLE_DURATION_MS,
};

fn new_id() -> EntityId {
    EntityId::new().expect("id")
}

fn evidence(runtime: &EncounterRuntime, sequence: u64, kind: EvidenceKind) -> ContextEvidence {
    ContextEvidence {
        provider_session: runtime.provider_session.clone(),
        generation: runtime.generation,
        sequence,
        monotonic_ms: sequence * 10,
        source: EvidenceSource::TrustedUia,
        evidence: kind,
    }
}

fn confirmed(generation: u64, sequence: u64, monotonic_ms: u64) -> ContextEvidence {
    ContextEvidence {
        provider_session: "session".to_string(),
        generation,
        sequence,
        monotonic_ms,
        source: EvidenceSource::Manual,
        evidence: EvidenceKind::ConfirmedOpponent {
            profile_id: new_id(),
            encounter_id: new_id(),
        },
    }
}

fn start(reducer: &EncounterReducer) -> EncounterRuntime {
    let idle = EncounterRuntime::idle("session".to_string());
    reducer.reduce(&idle, confirmed(1, 1, 1)).expect("start").runtime
}

#[test]
fn ut_009_confirmed_candidate_starts_pre_match() {
    let reducer = EncounterReducer;
    let idle = EncounterRuntime::idle("session".to_string());
    let result = reducer.reduce(&idle, confirmed(1, 1, 1)).expect("reduce");
    assert_eq!(result.runtime.phase, InternalPhase::PreMatch);
    assert!(matches!(
        result.actions.as_slice(),
        [
            EncounterAction::ResolveProfile { .. },
            EncounterAction::StartEncounter { .. }
        ]
    ));
}

#[test]
fn ut_010_unknown_possible_gameplay_fails_closed() {
    let reducer = EncounterReducer;
    let runtime = start(&reducer);
    let result = reducer
        .reduce(&runtime, evidence(&runtime, 2, EvidenceKind::UnknownPossibleGameplay))
        .expect("reduce");
    assert_eq!(result.runtime.phase, InternalPhase::InGameRestricted);
}

#[test]
fn ut_011_strong_gameplay_signal_restricts_immediately() {
    let reducer = EncounterReducer;
    let runtime = start(&reducer);
    let result = reducer
        .reduce(&runtime, evidence(&runtime, 2, EvidenceKind::StrongGameplay))
        .expect("reduce");
    assert_eq!(result.runtime.phase, InternalPhase::InGameRestricted);
    assert_eq!(result.actions.len(), 1);
}

#[test]
fn ut_012_unstable_ocr_cannot_leave_restricted() {
    let reducer = EncounterReducer;
    let mut runtime = start(&reducer);
    runtime.phase = InternalPhase::InGameRestricted;
    let mut next = evidence(
        &runtime,
        2,
        EvidenceKind::TrustedPhase {
            phase: InternalPhase::BetweenGames,
            stable_for_ms: OCR_STABLE_DURATION_MS - 1,
        },
    );
    next.source = EvidenceSource::Ocr;
    let result = reducer.reduce(&runtime, next).expect("reduce");
    assert_eq!(result.runtime.phase, InternalPhase::InGameRestricted);
    assert!(result.actions.is_empty());
}

#[test]
fn ut_013_new_opponent_finishes_before_start_in_one_undo_group() {
    let reducer = EncounterReducer;
    let runtime = start(&reducer);
    let next = ContextEvidence {
        provider_session: runtime.provider_session.clone(),
        generation: 2,
        sequence: 1,
        monotonic_ms: 20,
        source: EvidenceSource::Manual,
        evidence: EvidenceKind::ConfirmedOpponent {
            profile_id: new_id(),
            encounter_id: new_id(),
        },
    };
    let result = reducer.reduce(&runtime, next).expect("reduce");
    let (finish_group, start_group) = match result.actions.as_slice() {
        [
            EncounterAction::FinishEncounter { undo_group, .. },
            EncounterAction::ResolveProfile { .. },
            EncounterAction::StartEncounter {
                undo_group: start_group,
                ..
            },
        ] => (undo_group, start_group),
        other => panic!("unexpected actions: {other:?}"),
    };
    assert!(finish_group.is_some());
    assert_eq!(finish_group, start_group);
}

#[test]
fn ut_014_repeated_end_is_idempotent() {
    let reducer = EncounterReducer;
    let runtime = start(&reducer);
    let finished = reducer
        .reduce(&runtime, evidence(&runtime, 2, EvidenceKind::End))
        .expect("finish")
        .runtime;
    let replay = reducer
        .reduce(&finished, evidence(&finished, 3, EvidenceKind::End))
        .expect("replay");
    assert!(replay.actions.is_empty());
    assert_eq!(replay.runtime.phase, InternalPhase::Finished);
}

#[test]
fn ut_015_older_generation_is_ignored() {
    let reducer = EncounterReducer;
    let runtime = start(&reducer);
    let stale = ContextEvidence {
        provider_session: runtime.provider_session.clone(),
        generation: 0,
        sequence: 100,
        monotonic_ms: 100,
        source: EvidenceSource::TrustedUia,
        evidence: EvidenceKind::StrongGameplay,
    };
    let result = reducer.reduce(&runtime, stale).expect("ignore stale");
    assert_eq!(result.runtime, runtime);
    assert!(result.actions.is_empty());
}

#[test]
fn ut_016_recovered_active_encounter_starts_restricted() {
    let recovered = EncounterRuntime::recover(
        "new-session".to_string(),
        4,
        ActiveEncounter {
            id: new_id(),
            profile_id: new_id(),
            status: EncounterStatus::Active,
            unconfirmed_deck_present: false,
        },
    );
    assert_eq!(recovered.phase, InternalPhase::InGameRestricted);
    assert!(recovered.active.is_some());
}

#[test]
fn ut_017_finish_without_attached_encounter_is_invalid() {
    let reducer = EncounterReducer;
    let idle = EncounterRuntime::idle("session".to_string());
    let error = reducer
        .reduce(&idle, evidence(&idle, 1, EvidenceKind::End))
        .expect_err("invalid");
    assert_eq!(error, RepoError::InvalidTransition);
}

#[test]
fn ut_018_ignored_completion_becomes_incomplete() {
    let reducer = EncounterReducer;
    let mut runtime = start(&reducer);
    runtime
        .active
        .as_mut()
        .expect("active")
        .unconfirmed_deck_present = true;
    let result = reducer
        .reduce(&runtime, evidence(&runtime, 2, EvidenceKind::CompletionIgnored))
        .expect("reduce");
    assert_eq!(result.runtime.phase, InternalPhase::Incomplete);
    assert!(matches!(
        result.actions.as_slice(),
        [EncounterAction::MarkIncomplete {
            excluded_unconfirmed_deck: true,
            ..
        }]
    ));
}

#[test]
fn ut_019_reopening_history_does_not_displace_active() {
    let reducer = EncounterReducer;
    let runtime = start(&reducer);
    let active_id = runtime.active.as_ref().expect("active").id.clone();
    let result = reducer
        .reduce(
            &runtime,
            evidence(&runtime, 2, EvidenceKind::Reopen { encounter_id: new_id() }),
        )
        .expect("reduce");
    assert_eq!(result.runtime.active.expect("active").id, active_id);
    assert!(matches!(
        result.actions.as_slice(),
        [EncounterAction::OpenHistoricalEditor { .. }]
    ));
}

#[test]
fn ut_020_event_interleavings_never_create_two_active_encounters() {
    let reducer = EncounterReducer;
    for order in 0..128_u64 {
        let mut runtime = EncounterRuntime::idle("session".to_string());
        for generation in 1..=8_u64 {
            let sequence = if order & (1 << (generation - 1)) == 0 { 1 } else { 2 };
            let result = reducer
                .reduce(&runtime, confirmed(generation, sequence, generation))
                .expect("reduce");
            runtime = result.runtime;
            assert!(usize::from(runtime.active.is_some()) <= 1);
        }
    }
}

#[test]
fn replayed_sequence_changes_nothing() {
    let reducer = EncounterReducer;
    let runtime = start(&reducer);
    let replay = evidence(&runtime, runtime.last_sequence, EvidenceKind::StrongGameplay);
    let result = reducer.reduce(&runtime, replay).expect("replay");
    assert_eq!(result.runtime, runtime);
    assert!(result.actions.is_empty());
}
