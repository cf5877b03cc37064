//! What the notebook decides when the player confirms an opponent, and the
//! records it reports about encounters and its own health.
//!
//! The notebook looks up the opponent's profile and the active encounter;
//! `plan_confirmation` says, from what it found, which profile the
//! encounter belongs to and whether an encounter is started or replaced.
use vstd::prelude::*;

use crate::domain::{valid_id, EntityId, InternalPhase, RepoError};
use crate::text::str_eq;

verus! {

/// Counts of what the notebook holds, at a schema version.
#[derive(Clone, Copy, Debug, PartialEq, Eq, Structural)]
pub struct ReadSnapshot {
    pub schema_version: i64,
    pub profile_count: i64,
    pub encounter_count: i64,
    pub observation_count: i64,
}

#[derive(Debug, PartialEq, Eq)]
pub struct ActiveEncounterRecord {
    pub id: String,
    pub profile_id: String,
    pub phase: InternalPhase,
    pub generation: u64,
    pub revision: u64,
}

#[derive(Debug, PartialEq, Eq)]
pub struct ConfirmedEncounterRecord {
    pub profile_id: EntityId,
    pub started_new: bool,
    pub replaced_encounter_id: Option<EntityId>,
}

/// How the notebook was found when it was opened.
#[derive(Clone, Copy, Debug, PartialEq, Eq, Structural)]
pub enum IntegrityOutcome {
    Clean,
    ValidAfterUncleanShutdown,
}

/// What a confirmation does: the record it reports, whether a profile is
/// created for the handle, and the phase of the active encounter it
/// finishes, if it finishes one.
#[derive(Debug, PartialEq, Eq)]
pub struct ConfirmationPlan {
    pub record: ConfirmedEncounterRecord,
    pub create_profile: bool,
    pub finished_phase: Option<String>,
}

/// The ways an encounter's source may be recorded.
pub open spec fn is_encounter_source(s: Seq<char>) -> bool {
    s == "manual"@ || s == "uia"@ || s == "ocr"@
}

/// Why a confirmation is refused before the notebook is touched: a
/// generation the notebook cannot hold, or an unknown source.
pub open spec fn confirmation_refusal(generation: u64, source: Seq<char>) -> bool {
    generation > i64::MAX || !is_encounter_source(source)
}

/// The plan for confirming an opponent, given the profile already known for
/// the handle (if any), the id a new profile would take, and the active
/// encounter as `(id, profile id, phase)`, if there is one.
///
/// A known profile is used, else one is created. Confirming the opponent of
/// the active encounter changes nothing; otherwise the active encounter,
/// if any, is finished and replaced by a new one.
pub open spec fn confirmation_planned(
    existing_profile: Option<String>,
    new_profile_id: EntityId,
    previous: Option<(String, String, String)>,
    plan: ConfirmationPlan,
) -> bool {
    let profile = match existing_profile {
        Some(p) => p@,
        None => new_profile_id@,
    };
    &&& plan.record.profile_id@ == profile
    &&& plan.create_profile == existing_profile is None
    &&& match previous {
        Some((id, owner, phase)) => if owner@ == profile {
            &&& !plan.record.started_new
            &&& plan.record.replaced_encounter_id is None
            &&& plan.finished_phase is None
        } else {
            &&& plan.record.started_new
            &&& plan.record.replaced_encounter_id matches Some(r) && r@ == id@
            &&& plan.finished_phase matches Some(f) && f@ == phase@
        },
        None => {
            &&& plan.record.started_new
            &&& plan.record.replaced_encounter_id is None
            &&& plan.finished_phase is None
        },
    }
}

/// What the notebook found holds an invalid id where the plan needs one: the
/// known profile's, or that of an active encounter to be replaced.
pub open spec fn confirmation_malformed(
    existing_profile: Option<String>,
    new_profile_id: EntityId,
    previous: Option<(String, String, String)>,
) -> bool {
    match existing_profile {
        Some(p) if !valid_id(p@) => true,
        _ => {
            let profile = match existing_profile {
                Some(p) => p@,
                None => new_profile_id@,
            };
            previous matches Some((id, owner, _)) && owner@ != profile && !valid_id(id@)
        },
    }
}

pub fn plan_confirmation(
    generation: u64,
    source: &str,
    existing_profile: Option<String>,
    new_profile_id: EntityId,
    previous: Option<(String, String, String)>,
) -> (r: Result<ConfirmationPlan, RepoError>)
    ensures
        confirmation_refusal(generation, source@) ==> r == Err::<ConfirmationPlan, RepoError>(
            RepoError::InvalidRequest,
        ),
        !confirmation_refusal(generation, source@) && confirmation_malformed(
            existing_profile,
            new_profile_id,
            previous,
        ) ==> r == Err::<ConfirmationPlan, RepoError>(RepoError::InvalidRequest),
        !confirmation_refusal(generation, source@) && !confirmation_malformed(
            existing_profile,
            new_profile_id,
            previous,
        ) ==> (r matches Ok(plan) && confirmation_planned(existing_profile, new_profile_id, previous, plan)),
{
    if generation > 0x7fff_ffff_ffff_ffff {
        return Err(RepoError::InvalidRequest);
    }
    if !(str_eq(source, "manual") || str_eq(source, "uia") || str_eq(source, "ocr")) {
        return Err(RepoError::InvalidRequest);
    }
    let create_profile = existing_profile.is_none();
    let profile_id = match existing_profile {
        Some(id) => match EntityId::parse(id.as_str()) {
            Ok(id) => id,
            Err(error) => {
                return Err(error);
            },
        },
        None => new_profile_id,
    };
    match previous {
        Some((previous_id, owner, phase)) => {
            if str_eq(owner.as_str(), profile_id.as_str()) {
                return Ok(
                    ConfirmationPlan {
                        record: ConfirmedEncounterRecord {
                            profile_id,
                            started_new: false,
                            replaced_encounter_id: None,
                        },
                        create_profile,
                        finished_phase: None,
                    },
                );
            }
            let replaced = match EntityId::parse(previous_id.as_str()) {
                Ok(id) => id,
                Err(error) => {
                    return Err(error);
                },
            };
            Ok(
                ConfirmationPlan {
                    record: ConfirmedEncounterRecord {
                        profile_id,
                        started_new: true,
                        replaced_encounter_id: Some(replaced),
                    },
                    create_profile,
                    finished_phase: Some(phase),
                },
            )
        },
        None => Ok(
            ConfirmationPlan {
                record: ConfirmedEncounterRecord {
                    profile_id,
                    started_new: true,
                    replaced_encounter_id: None,
                },
                create_profile,
                finished_phase: None,
            },
        ),
    }
}

/// Confirming the opponent the active encounter already has starts nothing
/// and replaces nothing, however often it is repeated.
pub proof fn law_reconfirming_the_active_opponent_changes_nothing(
    existing_profile: Option<String>,
    new_profile_id: EntityId,
    id: String,
    phase: String,
    owner: String,
    plan: ConfirmationPlan,
)
    requires
        owner@ == (match existing_profile {
            Some(p) => p@,
            None => new_profile_id@,
        }),
        confirmation_planned(existing_profile, new_profile_id, Some((id, owner, phase)), plan),
    ensures
        !plan.record.started_new,
        plan.record.replaced_encounter_id is None,
        plan.finished_phase is None,
{
}

/// The active encounter, as `(id, profile id)`, once `plan` is carried out
/// on a notebook whose active encounter was `active`: a started encounter,
/// under `encounter_id`, takes the place of the one it finishes; otherwise
/// the active encounter stays.
pub open spec fn active_after(
    active: Option<(Seq<char>, Seq<char>)>,
    plan: ConfirmationPlan,
    encounter_id: Seq<char>,
) -> Option<(Seq<char>, Seq<char>)> {
    if plan.record.started_new {
        Some((encounter_id, plan.record.profile_id@))
    } else {
        active
    }
}

/// A confirmation leaves exactly one active encounter, owned by the
/// confirmed profile; the encounter it replaces is the one that was active,
/// and where the active encounter already had that profile it stays as it
/// was.
pub proof fn law_confirmation_leaves_one_active_encounter(
    existing_profile: Option<String>,
    new_profile_id: EntityId,
    previous: Option<(String, String, String)>,
    plan: ConfirmationPlan,
    encounter_id: Seq<char>,
)
    requires
        confirmation_planned(existing_profile, new_profile_id, previous, plan),
    ensures
        ({
            let before = match previous {
                Some((id, owner, _)) => Some((id@, owner@)),
                None => None,
            };
            let after = active_after(before, plan, encounter_id);
            &&& after matches Some((_, owner)) && owner == plan.record.profile_id@
            &&& plan.record.replaced_encounter_id matches Some(r) ==> (before matches Some((id, _))
                && id == r@)
            &&& !plan.record.started_new ==> after == before
        }),
{
}

/// How the notebook is found when it is opened: clean after a clean
/// shutdown; otherwise only once `check` finds it intact.
pub fn integrity_outcome<C>(clean_shutdown: i64, check: C) -> (r: Result<IntegrityOutcome, RepoError>) where
    C: FnOnce() -> Result<(), RepoError>,
    requires
        check.requires(()),
    ensures
        clean_shutdown == 1 ==> r == Ok::<IntegrityOutcome, RepoError>(IntegrityOutcome::Clean),
        clean_shutdown != 1 ==> exists|checked: Result<(), RepoError>|
            #[trigger] check.ensures((), checked) && match checked {
                Ok(()) => r == Ok::<IntegrityOutcome, RepoError>(IntegrityOutcome::ValidAfterUncleanShutdown),
                Err(e) => r == Err::<IntegrityOutcome, RepoError>(e),
            },
{
    if clean_shutdown == 1 {
        return Ok(IntegrityOutcome::Clean);
    }
    let checked = check();
    assert(check.ensures((), checked));
    match checked {
        Ok(()) => Ok(IntegrityOutcome::ValidAfterUncleanShutdown),
        Err(error) => Err(error),
    }
}

/// A replacement's two transitions, as `(encounter id, from phase, to
/// phase)`: the first that finished the earlier encounter and the first
/// that started the new one.
pub open spec fn replacement_found(transitions: Seq<(String, String, String)>, previous: int, current: int) -> bool {
    &&& 0 <= previous < transitions.len()
    &&& transitions[previous].2@ == "finished"@
    &&& forall|k: int| 0 <= k < previous ==> (#[trigger] transitions[k]).2@ != "finished"@
    &&& 0 <= current < transitions.len()
    &&& transitions[current].1@ == "idle"@ && transitions[current].2@ == "pre_match"@
    &&& forall|k: int|
        0 <= k < current ==> !((#[trigger] transitions[k]).1@ == "idle"@ && transitions[k].2@ == "pre_match"@)
}

/// Whether a replacement recorded as `transitions` may be undone, and if
/// so which transitions it undoes (`(previous, current)` positions). A
/// replacement is two transitions, one finishing the earlier encounter and
/// one starting the new; it cannot be undone once `has_data` finds notes
/// or a public snapshot on the new encounter (`has_data` is asked for the
/// new encounter's id only).
pub fn plan_undo_replacement<D>(transitions: &Vec<(String, String, String)>, has_data: D) -> (r: Result<
    (usize, usize),
    RepoError,
>) where D: FnOnce(&String) -> Result<bool, RepoError>
    requires
        forall|id: &String| #[trigger] has_data.requires((id,)),
    ensures
        transitions@.len() != 2 ==> r == Err::<(usize, usize), RepoError>(RepoError::InvalidTransition),
        transitions@.len() == 2 && !(exists|p: int, c: int| #[trigger] replacement_found(transitions@, p, c))
            ==> r == Err::<(usize, usize), RepoError>(RepoError::InvalidTransition),
        transitions@.len() == 2 ==> forall|p: int, c: int|
            #[trigger] replacement_found(transitions@, p, c) ==> exists|found: Result<bool, RepoError>|
                #[trigger] has_data.ensures((&transitions@[c].0,), found) && match found {
                    Err(e) => r == Err::<(usize, usize), RepoError>(e),
                    Ok(true) => r == Err::<(usize, usize), RepoError>(RepoError::InvalidTransition),
                    Ok(false) => r == Ok::<(usize, usize), RepoError>((p as usize, c as usize)),
                },
{
    if transitions.len() != 2 {
        return Err(RepoError::InvalidTransition);
    }
    let mut previous: usize = 0;
    while previous < transitions.len() && !str_eq(transitions[previous].2.as_str(), "finished")
        invariant
            previous <= transitions@.len(),
            forall|k: int| 0 <= k < previous ==> (#[trigger] transitions@[k]).2@ != "finished"@,
        decreases transitions.len() - previous,
    {
        previous = previous + 1;
    }
    let mut current: usize = 0;
    while current < transitions.len() && !(str_eq(transitions[current].1.as_str(), "idle") && str_eq(
        transitions[current].2.as_str(),
        "pre_match",
    ))
        invariant
            current <= transitions@.len(),
            forall|k: int|
                0 <= k < current ==> !((#[trigger] transitions@[k]).1@ == "idle"@ && transitions@[k].2@
                    == "pre_match"@),
        decreases transitions.len() - current,
    {
        current = current + 1;
    }
    if previous == transitions.len() || current == transitions.len() {
        proof {
            assert forall|p: int, c: int| !#[trigger] replacement_found(transitions@, p, c) by {
                if replacement_found(transitions@, p, c) {
                    if previous == transitions@.len() {
                        assert(transitions@[p].2@ != "finished"@);
                    } else {
                        assert(!(transitions@[c].1@ == "idle"@ && transitions@[c].2@ == "pre_match"@));
                    }
                }
            }
        }
        return Err(RepoError::InvalidTransition);
    }
    proof {
        assert(replacement_found(transitions@, previous as int, current as int));
        assert forall|p: int, c: int| #[trigger] replacement_found(transitions@, p, c) implies p
            == previous && c == current by {
            if p < previous {
                assert(transitions@[p].2@ != "finished"@);
            }
            if previous < p {
                assert(transitions@[previous as int].2@ != "finished"@);
            }
            if c < current {
                assert(!(transitions@[c].1@ == "idle"@ && transitions@[c].2@ == "pre_match"@));
            }
            if current < c {
                assert(!(transitions@[current as int].1@ == "idle"@ && transitions@[current as int].2@
                    == "pre_match"@));
            }
        }
    }
    let found = has_data(&transitions[current].0);
    assert(has_data.ensures((&transitions@[current as int].0,), found));
    match found {
        Err(e) => Err(e),
        Ok(true) => Err(RepoError::InvalidTransition),
        Ok(false) => Ok((previous, current)),
    }
}

} // verus!
