//! The encounter state machine: trusted evidence in, next runtime and the
//! persistence actions out.
use vstd::prelude::*;

use crate::domain::{EncounterStatus, EntityId, InternalPhase, RepoError, valid_id};

verus! {

/// How long OCR must report a phase before it may lift the gameplay restriction.
pub const OCR_STABLE_DURATION_MS: u64 = 1_500;

#[derive(Clone, Copy, Debug, PartialEq, Eq, Structural)]
pub enum EvidenceSource {
    TrustedUia,
    Ocr,
    Manual,
    System,
}

#[derive(Debug, PartialEq, Eq)]
pub enum EvidenceKind {
    ConfirmedOpponent { profile_id: EntityId, encounter_id: EntityId },
    TrustedPhase { phase: InternalPhase, stable_for_ms: u64 },
    UnknownPossibleGameplay,
    StrongGameplay,
    End,
    CompletionIgnored,
    Reopen { encounter_id: EntityId },
}

impl Clone for EvidenceKind {
    fn clone(&self) -> (r: Self)
        ensures
            r == *self,
    {
        match self {
            EvidenceKind::ConfirmedOpponent { profile_id, encounter_id } => {
                EvidenceKind::ConfirmedOpponent {
                    profile_id: profile_id.clone(),
                    encounter_id: encounter_id.clone(),
                }
            },
            EvidenceKind::TrustedPhase { phase, stable_for_ms } => EvidenceKind::TrustedPhase {
                phase: *phase,
                stable_for_ms: *stable_for_ms,
            },
            EvidenceKind::UnknownPossibleGameplay => EvidenceKind::UnknownPossibleGameplay,
            EvidenceKind::StrongGameplay => EvidenceKind::StrongGameplay,
            EvidenceKind::End => EvidenceKind::End,
            EvidenceKind::CompletionIgnored => EvidenceKind::CompletionIgnored,
            EvidenceKind::Reopen { encounter_id } => EvidenceKind::Reopen {
                encounter_id: encounter_id.clone(),
            },
        }
    }
}

#[derive(Debug, PartialEq, Eq)]
pub struct ContextEvidence {
    pub provider_session: String,
    pub generation: u64,
    pub sequence: u64,
    pub monotonic_ms: u64,
    pub source: EvidenceSource,
    pub evidence: EvidenceKind,
}

impl Clone for ContextEvidence {
    fn clone(&self) -> (r: Self)
        ensures
            r == *self,
    {
        ContextEvidence {
            provider_session: self.provider_session.clone(),
            generation: self.generation,
            sequence: self.sequence,
            monotonic_ms: self.monotonic_ms,
            source: self.source,
            evidence: self.evidence.clone(),
        }
    }
}

#[derive(Debug, PartialEq, Eq)]
pub struct ActiveEncounter {
    pub id: EntityId,
    pub profile_id: EntityId,
    pub status: EncounterStatus,
    pub unconfirmed_deck_present: bool,
}

impl Clone for ActiveEncounter {
    fn clone(&self) -> (r: Self)
        ensures
            r == *self,
    {
        ActiveEncounter {
            id: self.id.clone(),
            profile_id: self.profile_id.clone(),
            status: self.status,
            unconfirmed_deck_present: self.unconfirmed_deck_present,
        }
    }
}

#[derive(Debug, PartialEq, Eq)]
pub struct EncounterRuntime {
    pub provider_session: String,
    pub generation: u64,
    pub last_sequence: u64,
    pub phase: InternalPhase,
    pub active: Option<ActiveEncounter>,
}

impl Clone for EncounterRuntime {
    fn clone(&self) -> (r: Self)
        ensures
            r == *self,
    {
        EncounterRuntime {
            provider_session: self.provider_session.clone(),
            generation: self.generation,
            last_sequence: self.last_sequence,
            phase: self.phase,
            active: match &self.active {
                Some(a) => Some(a.clone()),
                None => None,
            },
        }
    }
}

impl EncounterRuntime {
    /// A runtime with no encounter for a fresh provider session.
    pub fn idle(provider_session: String) -> (r: Self)
        ensures
            r.provider_session == provider_session,
            r.generation == 0,
            r.last_sequence == 0,
            r.phase == InternalPhase::Idle,
            r.active is None,
    {
        EncounterRuntime {
            provider_session,
            generation: 0,
            last_sequence: 0,
            phase: InternalPhase::Idle,
            active: None,
        }
    }

    /// A runtime rebuilt after restart around a still-active encounter: it
    /// starts restricted until trusted evidence says otherwise.
    pub fn recover(provider_session: String, generation: u64, active: ActiveEncounter) -> (r: Self)
        ensures
            r.provider_session == provider_session,
            r.generation == generation,
            r.last_sequence == 0,
            r.phase == InternalPhase::InGameRestricted,
            r.active == Some(active),
    {
        EncounterRuntime {
            provider_session,
            generation,
            last_sequence: 0,
            phase: InternalPhase::InGameRestricted,
            active: Some(active),
        }
    }
}

#[derive(Debug, PartialEq, Eq)]
pub enum EncounterAction {
    ResolveProfile { profile_id: EntityId },
    StartEncounter { encounter_id: EntityId, profile_id: EntityId, undo_group: Option<EntityId> },
    FinishEncounter { encounter_id: EntityId, undo_group: Option<EntityId> },
    ChangePhase { encounter_id: EntityId, from: InternalPhase, to: InternalPhase },
    MarkIncomplete { encounter_id: EntityId, excluded_unconfirmed_deck: bool },
    OpenHistoricalEditor { encounter_id: EntityId },
}

#[derive(Debug, PartialEq, Eq)]
pub struct Reduction {
    pub runtime: EncounterRuntime,
    pub actions: Vec<EncounterAction>,
}

/// Evidence from another session, an older generation, or an already seen
/// sequence of the current generation.
pub open spec fn is_stale(current: EncounterRuntime, evidence: ContextEvidence) -> bool {
    ||| evidence.provider_session@ != current.provider_session@
    ||| evidence.generation < current.generation
    ||| (evidence.generation == current.generation && evidence.sequence <= current.last_sequence)
}

/// Only a confirmed opponent may open a newer generation.
pub open spec fn is_ignored(current: EncounterRuntime, evidence: ContextEvidence) -> bool {
    ||| is_stale(current, evidence)
    ||| (evidence.generation > current.generation
        && !(evidence.evidence is ConfirmedOpponent))
}

pub open spec fn with_sequence(rt: EncounterRuntime, sequence: u64) -> EncounterRuntime {
    EncounterRuntime { last_sequence: sequence, ..rt }
}

/// Moving an attached encounter to `phase`: nothing when it is already there.
pub open spec fn phase_step(rt: EncounterRuntime, phase: InternalPhase) -> Result<
    (EncounterRuntime, Seq<EncounterAction>),
    RepoError,
> {
    match rt.active {
        None => Err(RepoError::InvalidTransition),
        Some(active) => if rt.phase == phase {
            Ok((rt, Seq::empty()))
        } else {
            Ok(
                (
                    EncounterRuntime { phase, ..rt },
                    seq![EncounterAction::ChangePhase { encounter_id: active.id, from: rt.phase, to: phase }],
                ),
            )
        },
    }
}

/// The next runtime and actions for admitted evidence. `fresh` is the undo
/// group that joins finishing the previous encounter and starting the next.
pub open spec fn next_state(
    current: EncounterRuntime,
    evidence: ContextEvidence,
    fresh: EntityId,
) -> Result<(EncounterRuntime, Seq<EncounterAction>), RepoError> {
    if is_ignored(current, evidence) {
        Ok((current, Seq::empty()))
    } else {
        let rt = with_sequence(current, evidence.sequence);
        match evidence.evidence {
            EvidenceKind::ConfirmedOpponent { profile_id, encounter_id } => {
                if rt.active is Some && rt.active->0.profile_id@ == profile_id@ {
                    Ok((EncounterRuntime { generation: evidence.generation, ..rt }, Seq::empty()))
                } else {
                    let undo = if rt.active is Some {
                        Some(fresh)
                    } else {
                        None::<EntityId>
                    };
                    let finish = if rt.active is Some {
                        seq![EncounterAction::FinishEncounter { encounter_id: rt.active->0.id, undo_group: undo }]
                    } else {
                        Seq::empty()
                    };
                    Ok(
                        (
                            EncounterRuntime {
                                generation: evidence.generation,
                                phase: InternalPhase::PreMatch,
                                active: Some(
                                    ActiveEncounter {
                                        id: encounter_id,
                                        profile_id,
                                        status: EncounterStatus::Active,
                                        unconfirmed_deck_present: false,
                                    },
                                ),
                                ..rt
                            },
                            finish + seq![
                                EncounterAction::ResolveProfile { profile_id },
                                EncounterAction::StartEncounter { encounter_id, profile_id, undo_group: undo },
                            ],
                        ),
                    )
                }
            },
            EvidenceKind::UnknownPossibleGameplay => phase_step(rt, InternalPhase::InGameRestricted),
            EvidenceKind::StrongGameplay => phase_step(rt, InternalPhase::InGameRestricted),
            EvidenceKind::TrustedPhase { phase, stable_for_ms } => {
                if rt.phase == InternalPhase::InGameRestricted && evidence.source
                    == EvidenceSource::Ocr && stable_for_ms < OCR_STABLE_DURATION_MS {
                    Ok((rt, Seq::empty()))
                } else {
                    phase_step(rt, phase)
                }
            },
            EvidenceKind::End => match rt.active {
                None => if rt.phase == InternalPhase::Finished {
                    Ok((rt, Seq::empty()))
                } else {
                    Err(RepoError::InvalidTransition)
                },
                Some(active) => Ok(
                    (
                        EncounterRuntime { active: None, phase: InternalPhase::Finished, ..rt },
                        seq![EncounterAction::FinishEncounter { encounter_id: active.id, undo_group: None }],
                    ),
                ),
            },
            EvidenceKind::CompletionIgnored => match rt.active {
                None => Err(RepoError::InvalidTransition),
                Some(active) => Ok(
                    (
                        EncounterRuntime { active: None, phase: InternalPhase::Incomplete, ..rt },
                        seq![
                            EncounterAction::MarkIncomplete {
                                encounter_id: active.id,
                                excluded_unconfirmed_deck: active.unconfirmed_deck_present,
                            },
                        ],
                    ),
                ),
            },
            EvidenceKind::Reopen { encounter_id } => Ok(
                (rt, seq![EncounterAction::OpenHistoricalEditor { encounter_id }]),
            ),
        }
    }
}

/// Whether reducing `evidence` needs a fresh undo group: a confirmed new
/// opponent displacing an attached encounter.
pub open spec fn needs_undo_group(current: EncounterRuntime, evidence: ContextEvidence) -> bool {
    &&& !is_ignored(current, evidence)
    &&& evidence.evidence is ConfirmedOpponent
    &&& current.active is Some
    &&& current.active->0.profile_id@ != evidence.evidence->ConfirmedOpponent_profile_id@
}

#[derive(Default)]
pub struct EncounterReducer;

impl EncounterReducer {
    /// Applies one piece of context evidence. Stale or out-of-order evidence
    /// changes nothing; an `End` or ignored completion without an attached
    /// encounter is an invalid transition.
    pub fn reduce(&self, current: &EncounterRuntime, evidence: ContextEvidence) -> (r: Result<
        Reduction,
        RepoError,
    >)
        ensures
            r matches Ok(red) ==> exists|fresh: EntityId| #[trigger]
                next_state(*current, evidence, fresh) == Ok::<
                    (EncounterRuntime, Seq<EncounterAction>),
                    RepoError,
                >((red.runtime, red.actions@)),
            r matches Err(e) ==> (forall|fresh: EntityId| #[trigger]
                next_state(*current, evidence, fresh) == Err::<
                    (EncounterRuntime, Seq<EncounterAction>),
                    RepoError,
                >(e)) || (e == RepoError::KeyUnavailable && needs_undo_group(*current, evidence)),
            !needs_undo_group(*current, evidence) ==> forall|fresh: EntityId| #[trigger]
                next_state(*current, evidence, fresh) matches Ok(p) ==> (r matches Ok(red) && (
                red.runtime, red.actions@) == p),
            r matches Ok(red) ==> (needs_undo_group(*current, evidence) ==> (red.actions@[0]->FinishEncounter_undo_group matches Some(g) && valid_id(g@))),
            forall|fresh: EntityId| #[trigger]
                next_state(*current, evidence, fresh) is Err ==> r is Err,
    {
        let ghost fresh0: EntityId = vstd::pervasive::arbitrary();
        if !(evidence.provider_session == current.provider_session) || evidence.generation
            < current.generation || (evidence.generation == current.generation
            && evidence.sequence <= current.last_sequence) {
            let red = Reduction { runtime: current.clone(), actions: Vec::new() };
            proof {
                assert(red.actions@ =~= Seq::<EncounterAction>::empty());
                assert(next_state(*current, evidence, fresh0) == Ok::<(EncounterRuntime, Seq<EncounterAction>), RepoError>((red.runtime, red.actions@)));
            }
            return Ok(red);
        }
        let starts_generation = matches!(evidence.evidence, EvidenceKind::ConfirmedOpponent { .. });
        if evidence.generation > current.generation && !starts_generation {
            let red = Reduction { runtime: current.clone(), actions: Vec::new() };
            proof {
                assert(red.actions@ =~= Seq::<EncounterAction>::empty());
                assert(next_state(*current, evidence, fresh0) == Ok::<(EncounterRuntime, Seq<EncounterAction>), RepoError>((red.runtime, red.actions@)));
            }
            return Ok(red);
        }
        let mut runtime = current.clone();
        runtime.last_sequence = evidence.sequence;
        let mut actions: Vec<EncounterAction> = Vec::new();
        let ghost rt = runtime;
        match evidence.evidence {
            EvidenceKind::ConfirmedOpponent { profile_id, encounter_id } => {
                let same_profile = match &runtime.active {
                    Some(active) => active.profile_id.same(&profile_id),
                    None => false,
                };
                if same_profile {
                    runtime.generation = evidence.generation;
                    proof {
                        assert(actions@ =~= Seq::<EncounterAction>::empty());
                    }
                    return Ok(Reduction { runtime, actions });
                }
                let undo_group = match &runtime.active {
                    Some(_) => Some(EntityId::new()?),
                    None => None,
                };
                let ghost g = if undo_group is Some {
                    undo_group->0
                } else {
                    fresh0
                };
                let previous = runtime.active.take();
                if let Some(previous) = previous {
                    actions.push(
                        EncounterAction::FinishEncounter {
                            encounter_id: previous.id,
                            undo_group: undo_group.clone(),
                        },
                    );
                }
                actions.push(EncounterAction::ResolveProfile { profile_id: profile_id.clone() });
                actions.push(
                    EncounterAction::StartEncounter {
                        encounter_id: encounter_id.clone(),
                        profile_id: profile_id.clone(),
                        undo_group,
                    },
                );
                runtime.generation = evidence.generation;
                runtime.phase = InternalPhase::PreMatch;
                runtime.active = Some(
                    ActiveEncounter {
                        id: encounter_id,
                        profile_id,
                        status: EncounterStatus::Active,
                        unconfirmed_deck_present: false,
                    },
                );
                proof {
                    let expected = next_state(*current, evidence, g);
                    assert(expected matches Ok(p) && p.1 =~= actions@);
                }
                Ok(Reduction { runtime, actions })
            },
            EvidenceKind::UnknownPossibleGameplay | EvidenceKind::StrongGameplay => {
                self.change_phase(&mut runtime, InternalPhase::InGameRestricted, &mut actions)?;
                Ok(Reduction { runtime, actions })
            },
            EvidenceKind::TrustedPhase { phase, stable_for_ms } => {
                if runtime.phase == InternalPhase::InGameRestricted && evidence.source
                    == EvidenceSource::Ocr && stable_for_ms < OCR_STABLE_DURATION_MS {
                    proof {
                        assert(actions@ =~= Seq::<EncounterAction>::empty());
                    }
                    return Ok(Reduction { runtime, actions });
                }
                self.change_phase(&mut runtime, phase, &mut actions)?;
                Ok(Reduction { runtime, actions })
            },
            EvidenceKind::End => {
                let taken = runtime.active.take();
                match taken {
                    None => {
                        if runtime.phase == InternalPhase::Finished {
                            proof {
                                assert(actions@ =~= Seq::<EncounterAction>::empty());
                            }
                            return Ok(Reduction { runtime, actions });
                        }
                        Err(RepoError::InvalidTransition)
                    },
                    Some(active) => {
                        actions.push(
                            EncounterAction::FinishEncounter {
                                encounter_id: active.id,
                                undo_group: None,
                            },
                        );
                        runtime.phase = InternalPhase::Finished;
                        proof {
                            assert(actions@ =~= seq![EncounterAction::FinishEncounter { encounter_id: rt.active->0.id, undo_group: None }]);
                        }
                        Ok(Reduction { runtime, actions })
                    },
                }
            },
            EvidenceKind::CompletionIgnored => {
                let taken = runtime.active.take();
                match taken {
                    None => Err(RepoError::InvalidTransition),
                    Some(active) => {
                        actions.push(
                            EncounterAction::MarkIncomplete {
                                encounter_id: active.id,
                                excluded_unconfirmed_deck: active.unconfirmed_deck_present,
                            },
                        );
                        runtime.phase = InternalPhase::Incomplete;
                        proof {
                            assert(actions@ =~= seq![
                                EncounterAction::MarkIncomplete {
                                    encounter_id: rt.active->0.id,
                                    excluded_unconfirmed_deck: rt.active->0.unconfirmed_deck_present,
                                },
                            ]);
                        }
                        Ok(Reduction { runtime, actions })
                    },
                }
            },
            EvidenceKind::Reopen { encounter_id } => {
                actions.push(EncounterAction::OpenHistoricalEditor { encounter_id });
                proof {
                    assert(actions@ =~= seq![EncounterAction::OpenHistoricalEditor { encounter_id: evidence.evidence->Reopen_encounter_id }]);
                }
                Ok(Reduction { runtime, actions })
            },
        }
    }

    fn change_phase(
        &self,
        runtime: &mut EncounterRuntime,
        phase: InternalPhase,
        actions: &mut Vec<EncounterAction>,
    ) -> (r: Result<(), RepoError>)
        requires
            old(actions)@.len() == 0,
        ensures
            phase_step(*old(runtime), phase) matches Ok(p) ==> r is Ok && (*final(runtime),
            final(actions)@) == p,
            phase_step(*old(runtime), phase) matches Err(e) ==> r == Err::<(), RepoError>(e),
    {
        let active_id = match &runtime.active {
            Some(active) => active.id.clone(),
            None => {
                return Err(RepoError::InvalidTransition);
            },
        };
        if runtime.phase == phase {
            proof {
                assert(actions@ =~= Seq::<EncounterAction>::empty());
            }
            return Ok(());
        }
        actions.push(EncounterAction::ChangePhase { encounter_id: active_id, from: runtime.phase, to: phase });
        runtime.phase = phase;
        proof {
            assert(actions@ =~= seq![EncounterAction::ChangePhase { encounter_id: old(runtime).active->0.id, from: old(runtime).phase, to: phase }]);
        }
        Ok(())
    }
}

/// Evidence from another session, an older generation, or an already seen
/// sequence leaves the runtime as it was and asks for nothing.
pub proof fn law_stale_evidence_changes_nothing(
    current: EncounterRuntime,
    evidence: ContextEvidence,
    fresh: EntityId,
)
    requires
        is_stale(current, evidence),
    ensures
        next_state(current, evidence, fresh) == Ok::<
            (EncounterRuntime, Seq<EncounterAction>),
            RepoError,
        >((current, Seq::empty())),
{
}

/// Delivering the same evidence a second time is a no-op: the session,
/// generation and sequence already record it.
pub proof fn law_replayed_evidence_is_ignored(
    current: EncounterRuntime,
    evidence: ContextEvidence,
    fresh: EntityId,
    again: EntityId,
)
    requires
        next_state(current, evidence, fresh) is Ok,
    ensures
        ({
            let next = next_state(current, evidence, fresh)->Ok_0.0;
            next_state(next, evidence, again) == Ok::<
                (EncounterRuntime, Seq<EncounterAction>),
                RepoError,
            >((next, Seq::empty()))
        }),
{
}

/// The session never changes and the (generation, sequence) position only
/// moves forward.
pub proof fn law_position_only_moves_forward(
    current: EncounterRuntime,
    evidence: ContextEvidence,
    fresh: EntityId,
)
    requires
        next_state(current, evidence, fresh) is Ok,
    ensures
        ({
            let next = next_state(current, evidence, fresh)->Ok_0.0;
            &&& next.provider_session == current.provider_session
            &&& next.generation >= current.generation
            &&& next.generation == current.generation ==> next.last_sequence
                >= current.last_sequence
        }),
{
}

/// A newly confirmed opponent first finishes the attached encounter, and both
/// steps share one undo group.
pub proof fn law_new_opponent_finishes_previous_in_one_undo_group(
    current: EncounterRuntime,
    evidence: ContextEvidence,
    fresh: EntityId,
)
    requires
        needs_undo_group(current, evidence),
    ensures
        ({
            let actions = next_state(current, evidence, fresh)->Ok_0.1;
            &&& next_state(current, evidence, fresh) is Ok
            &&& actions.len() == 3
            &&& actions[0] == EncounterAction::FinishEncounter {
                encounter_id: current.active->0.id,
                undo_group: Some(fresh),
            }
            &&& actions[1] is ResolveProfile
            &&& actions[2] matches EncounterAction::StartEncounter { undo_group, .. }
                && undo_group == Some(fresh)
        }),
{
}

/// OCR that has not been stable long enough never lifts the gameplay
/// restriction.
pub proof fn law_unstable_ocr_keeps_restriction(
    current: EncounterRuntime,
    evidence: ContextEvidence,
    fresh: EntityId,
)
    requires
        current.phase == InternalPhase::InGameRestricted,
        evidence.source == EvidenceSource::Ocr,
        evidence.evidence matches EvidenceKind::TrustedPhase { stable_for_ms, .. }
            && stable_for_ms < OCR_STABLE_DURATION_MS,
    ensures
        next_state(current, evidence, fresh) matches Ok(p) && p.0.phase
            == InternalPhase::InGameRestricted && p.1.len() == 0,
{
}

/// Confirm before persist: only a confirmed opponent starts an encounter.
/// Any other evidence keeps the attached encounter or detaches it, and
/// never asks to start one.
pub proof fn law_only_confirmation_starts_an_encounter(
    current: EncounterRuntime,
    evidence: ContextEvidence,
    fresh: EntityId,
)
    requires
        !(evidence.evidence is ConfirmedOpponent),
        next_state(current, evidence, fresh) is Ok,
    ensures
        ({
            let (next, actions) = next_state(current, evidence, fresh)->Ok_0;
            &&& next.active is None || next.active == current.active
            &&& forall|i: int| 0 <= i < actions.len() ==> !(#[trigger] actions[i] is StartEncounter)
        }),
{
}

/// Possible or strong gameplay on an attached encounter fails closed: the
/// encounter is restricted at once.
pub proof fn law_gameplay_signal_restricts(
    current: EncounterRuntime,
    evidence: ContextEvidence,
    fresh: EntityId,
)
    requires
        !is_ignored(current, evidence),
        current.active is Some,
        evidence.evidence is UnknownPossibleGameplay || evidence.evidence is StrongGameplay,
    ensures
        next_state(current, evidence, fresh) matches Ok(p) && p.0.phase == InternalPhase::InGameRestricted
            && p.0.active == current.active,
{
}

/// A trusted phase signal moves an attached encounter to the phase it
/// reports, even out of the gameplay restriction; only OCR that has not yet
/// been stable long enough is held back while restricted. A change of phase
/// is recorded by exactly one `ChangePhase` from the phase before to the
/// phase after, and the encounter stays attached.
pub proof fn law_trusted_phase_signal_sets_the_phase(
    current: EncounterRuntime,
    evidence: ContextEvidence,
    fresh: EntityId,
    phase: InternalPhase,
    stable_for_ms: u64,
)
    requires
        !is_ignored(current, evidence),
        current.active is Some,
        evidence.evidence == (EvidenceKind::TrustedPhase { phase, stable_for_ms }),
        current.phase != InternalPhase::InGameRestricted || evidence.source != EvidenceSource::Ocr
            || stable_for_ms >= OCR_STABLE_DURATION_MS,
    ensures
        next_state(current, evidence, fresh) is Ok,
        ({
            let (next, actions) = next_state(current, evidence, fresh)->Ok_0;
            &&& next.phase == phase
            &&& next.active == current.active
            &&& phase != current.phase ==> actions == seq![
                EncounterAction::ChangePhase {
                    encounter_id: current.active->0.id,
                    from: current.phase,
                    to: phase,
                },
            ]
            &&& phase == current.phase ==> actions.len() == 0
        }),
{
}

/// The end of a game with an attached encounter finishes it: the encounter
/// is detached, the phase is finished, and exactly one `FinishEncounter`
/// for that encounter, outside any undo group, records it.
pub proof fn law_end_finishes_the_attached_encounter(
    current: EncounterRuntime,
    evidence: ContextEvidence,
    fresh: EntityId,
)
    requires
        !is_ignored(current, evidence),
        current.active is Some,
        evidence.evidence is End,
    ensures
        next_state(current, evidence, fresh) is Ok,
        ({
            let (next, actions) = next_state(current, evidence, fresh)->Ok_0;
            &&& next.active is None
            &&& next.phase == InternalPhase::Finished
            &&& actions == seq![
                EncounterAction::FinishEncounter { encounter_id: current.active->0.id, undo_group: None },
            ]
        }),
{
}

/// Every phase change a reduction records starts from the phase the
/// runtime was in, ends in the phase it is left in, and is a real change.
pub proof fn law_phase_changes_start_from_the_current_phase(
    current: EncounterRuntime,
    evidence: ContextEvidence,
    fresh: EntityId,
)
    requires
        next_state(current, evidence, fresh) is Ok,
    ensures
        ({
            let (next, actions) = next_state(current, evidence, fresh)->Ok_0;
            forall|i: int| 0 <= i < actions.len() ==> (#[trigger] actions[i] matches EncounterAction::ChangePhase { from, to, .. }
                ==> from == current.phase && to == next.phase && from != to)
        }),
{
}

} // verus!
