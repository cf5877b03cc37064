//! The decisions the Player store makes inside its transactions: what the
//! singleton identity becomes when it is saved, how a recorded receipt
//! answers a repeated import, when an import may supersede earlier
//! evidence, and which selection revision comes next.
//!
//! The rows themselves are read and written by the notebook; these
//! functions take what was read and say what is written or returned.
use vstd::prelude::*;

use crate::domain::{valid_id, RepoError, Revision, UtcMillis};
use crate::json::{json_get, json_str, opt_str, JsonValue};
use crate::player_models::{
    cards_refused, nickname_key, nickname_valid, normalize_player_nickname, validate_cards,
    PlayerCard, PlayerEvidence, PlayerEvidenceId, PlayerId, PlayerIdentity, PlayerOperationKey,
    PlayerOperationReceipt,
};
use crate::text::{copy_string, is_digest, is_digest_text, str_eq, trimmed};

verus! {

#[derive(Debug, PartialEq, Eq)]
pub struct SaveIdentityInput {
    pub id: PlayerId,
    pub display_nickname: String,
    pub expected_revision: Option<Revision>,
    pub now: UtcMillis,
}

/// A receipt as read back for a repeated operation.
#[derive(Debug, PartialEq, Eq)]
pub struct ReceiptReplay {
    pub request_digest: String,
    pub result_code: String,
    pub result_locator: Option<String>,
}

#[derive(Debug, PartialEq, Eq)]
pub struct ImportOutcome {
    pub evidence_id: PlayerEvidenceId,
    pub inserted: bool,
    pub receipt: PlayerOperationReceipt,
}

/// Why saving the identity is refused, given the singleton as it stands:
/// an invalid nickname; a first save that names a revision; a save for a
/// different identity; one that does not name the current revision; or a
/// revision the notebook cannot hold.
pub open spec fn identity_refusal(
    current: Option<PlayerIdentity>,
    id: PlayerId,
    nickname: Seq<char>,
    expected_revision: Option<Revision>,
) -> Option<RepoError> {
    if !nickname_valid(nickname) {
        Some(RepoError::InvalidRequest)
    } else {
        match current {
            None => if expected_revision is Some {
                Some(RepoError::RevisionConflict)
            } else {
                None
            },
            Some(existing) => if existing.id@ != id@ {
                Some(RepoError::IdentityConflict)
            } else if !(expected_revision matches Some(e) && e == existing.revision) {
                Some(RepoError::RevisionConflict)
            } else if existing.revision.0 > i64::MAX {
                Some(RepoError::InvalidRequest)
            } else {
                None
            },
        }
    }
}

/// The singleton after a save that is not refused: a first save creates it
/// at revision 1; a later one renames it, keeps its id and creation time,
/// and advances its revision by one.
pub open spec fn identity_saved(
    current: Option<PlayerIdentity>,
    id: PlayerId,
    nickname: Seq<char>,
    now: UtcMillis,
    r: PlayerIdentity,
) -> bool {
    &&& r.id@ == id@
    &&& r.display_nickname@ == trimmed(nickname)
    &&& r.normalized_nickname@ == nickname_key(trimmed(nickname))
    &&& r.updated_at == now
    &&& match current {
        None => r.created_at == now && r.revision == Revision(1),
        Some(existing) => r.created_at == existing.created_at && r.revision.0 == existing.revision.0 + 1,
    }
}

/// What the singleton identity becomes when `input` is saved over `current`.
pub fn save_identity(current: Option<PlayerIdentity>, input: SaveIdentityInput) -> (r: Result<
    PlayerIdentity,
    RepoError,
>)
    ensures
        match identity_refusal(current, input.id, input.display_nickname@, input.expected_revision) {
            Some(e) => r == Err::<PlayerIdentity, RepoError>(e),
            None => r matches Ok(saved) && identity_saved(
                current,
                input.id,
                input.display_nickname@,
                input.now,
                saved,
            ),
        },
{
    let normalized = match normalize_player_nickname(input.display_nickname.as_str()) {
        Ok(n) => n,
        Err(error) => {
            return Err(error);
        },
    };
    match current {
        None => {
            if input.expected_revision.is_some() {
                return Err(RepoError::RevisionConflict);
            }
            Ok(
                PlayerIdentity {
                    id: input.id,
                    display_nickname: normalized.display,
                    normalized_nickname: normalized.normalized,
                    created_at: input.now,
                    updated_at: input.now,
                    revision: Revision(1),
                },
            )
        },
        Some(existing) => {
            if !existing.id.same(&input.id) {
                return Err(RepoError::IdentityConflict);
            }
            let expected = match input.expected_revision {
                Some(e) => e,
                None => {
                    return Err(RepoError::RevisionConflict);
                },
            };
            if existing.revision.0 != expected.0 {
                return Err(RepoError::RevisionConflict);
            }
            if expected.0 > 0x7fff_ffff_ffff_ffff {
                return Err(RepoError::InvalidRequest);
            }
            Ok(
                PlayerIdentity {
                    id: existing.id,
                    display_nickname: normalized.display,
                    normalized_nickname: normalized.normalized,
                    created_at: existing.created_at,
                    updated_at: input.now,
                    revision: Revision(existing.revision.0 + 1),
                },
            )
        },
    }
}

/// The singleton after a first save of the identity.
pub fn create_identity(current: Option<PlayerIdentity>, id: PlayerId, nickname: &str, now: UtcMillis) -> (r:
    Result<PlayerIdentity, RepoError>)
    ensures
        match identity_refusal(current, id, nickname@, None) {
            Some(e) => r == Err::<PlayerIdentity, RepoError>(e),
            None => r matches Ok(saved) && identity_saved(current, id, nickname@, now, saved),
        },
{
    save_identity(current, SaveIdentityInput { id, display_nickname: copy_string(nickname), expected_revision: None, now })
}

/// The singleton after renaming the identity at `expected_revision`.
pub fn update_identity(
    current: Option<PlayerIdentity>,
    id: PlayerId,
    nickname: &str,
    expected_revision: Revision,
    now: UtcMillis,
) -> (r: Result<PlayerIdentity, RepoError>)
    ensures
        match identity_refusal(current, id, nickname@, Some(expected_revision)) {
            Some(e) => r == Err::<PlayerIdentity, RepoError>(e),
            None => r matches Ok(saved) && identity_saved(current, id, nickname@, now, saved),
        },
{
    save_identity(
        current,
        SaveIdentityInput {
            id,
            display_nickname: copy_string(nickname),
            expected_revision: Some(expected_revision),
            now,
        },
    )
}

/// A saved identity's id never changes, and each save advances its
/// revision by exactly one.
pub proof fn law_identity_keeps_its_id(
    existing: PlayerIdentity,
    id: PlayerId,
    nickname: Seq<char>,
    expected_revision: Option<Revision>,
    now: UtcMillis,
    saved: PlayerIdentity,
)
    requires
        identity_refusal(Some(existing), id, nickname, expected_revision) is None,
        identity_saved(Some(existing), id, nickname, now, saved),
    ensures
        saved.id@ == existing.id@,
        saved.revision.0 == existing.revision.0 + 1,
{
}

/// The result code a receipt records for an import.
pub open spec fn import_code(inserted: bool) -> Seq<char> {
    if inserted {
        "imported"@
    } else {
        "already_imported"@
    }
}

pub fn import_result_code(inserted: bool) -> (r: &'static str)
    ensures
        r@ == import_code(inserted),
{
    if inserted {
        "imported"
    } else {
        "already_imported"
    }
}

/// How a recorded receipt answers a repeated import: a different request
/// under the same key is refused; a receipt without a locator means the
/// notebook is damaged; otherwise the evidence it names, and whether that
/// first import inserted it.
pub fn replay_import(replay: &ReceiptReplay, request_digest: &str) -> (r: Result<
    (PlayerEvidenceId, bool),
    RepoError,
>)
    ensures
        replay.request_digest@ != request_digest@ ==> r == Err::<(PlayerEvidenceId, bool), RepoError>(
            RepoError::InvalidRequest,
        ),
        replay.request_digest@ == request_digest@ ==> match replay.result_locator {
            None => r == Err::<(PlayerEvidenceId, bool), RepoError>(RepoError::NotebookInvalid),
            Some(locator) => if valid_id(locator@) {
                r matches Ok((id, inserted)) && id@ == locator@ && inserted == (replay.result_code@
                    == import_code(true))
            } else {
                r == Err::<(PlayerEvidenceId, bool), RepoError>(RepoError::InvalidRequest)
            },
        },
{
    if !str_eq(replay.request_digest.as_str(), request_digest) {
        return Err(RepoError::InvalidRequest);
    }
    let locator = match &replay.result_locator {
        Some(locator) => locator,
        None => {
            return Err(RepoError::NotebookInvalid);
        },
    };
    let id = match PlayerEvidenceId::parse(locator.as_str()) {
        Ok(id) => id,
        Err(error) => {
            return Err(error);
        },
    };
    let inserted = str_eq(replay.result_code.as_str(), import_result_code(true));
    Ok((id, inserted))
}

/// Evidence may supersede earlier evidence only when that evidence exists,
/// belongs to the same identity and source, and holds a different digest.
pub fn check_supersedes(
    prior: Option<(String, String, String)>,
    player_identity_id: &PlayerId,
    source_key: &str,
    source_digest: &str,
) -> (r: Result<(), RepoError>)
    ensures
        prior is None ==> r == Err::<(), RepoError>(RepoError::NotFound),
        prior matches Some((owner, key, digest)) ==> if owner@ == player_identity_id@ && key@
            == source_key@ && digest@ != source_digest@ {
            r is Ok
        } else {
            r == Err::<(), RepoError>(RepoError::InvalidRequest)
        },
{
    match prior {
        None => Err(RepoError::NotFound),
        Some((owner, key, digest)) => {
            if !str_eq(owner.as_str(), player_identity_id.as_str()) || !str_eq(key.as_str(), source_key)
                || str_eq(digest.as_str(), source_digest) {
                Err(RepoError::InvalidRequest)
            } else {
                Ok(())
            }
        },
    }
}

/// A request digest is sixty-four hexadecimal digits.
pub fn validate_digest(value: &str) -> (r: Result<(), RepoError>)
    ensures
        is_digest_text(value@) ==> r is Ok,
        !is_digest_text(value@) ==> r == Err::<(), RepoError>(RepoError::InvalidRequest),
{
    if is_digest(value) {
        Ok(())
    } else {
        Err(RepoError::InvalidRequest)
    }
}

/// The revision a new selection takes, given the latest one stored (0 when
/// none is) and the one the request expects: evidence without selections
/// is not found, and a request behind the latest conflicts.
pub fn next_selection_revision(current: u64, expected: Revision) -> (r: Result<Revision, RepoError>)
    requires
        current < u64::MAX,
    ensures
        current == 0 ==> r == Err::<Revision, RepoError>(RepoError::NotFound),
        current != 0 && current != expected.0 ==> r == Err::<Revision, RepoError>(
            RepoError::RevisionConflict,
        ),
        current != 0 && current == expected.0 ==> r == Ok::<Revision, RepoError>(Revision((current + 1) as u64)),
{
    if current == 0 {
        return Err(RepoError::NotFound);
    }
    if current != expected.0 {
        return Err(RepoError::RevisionConflict);
    }
    Ok(Revision(current + 1))
}

/// A repeated selection request must carry the digest its receipt holds.
pub fn check_selection_replay(request_digest: &Option<String>, replay: &ReceiptReplay) -> (r: Result<
    (),
    RepoError,
>)
    ensures
        (request_digest matches Some(d) && d@ == replay.request_digest@) ==> r is Ok,
        !(request_digest matches Some(d) && d@ == replay.request_digest@) ==> r == Err::<(), RepoError>(
            RepoError::InvalidRequest,
        ),
{
    match request_digest {
        Some(d) => if str_eq(d.as_str(), replay.request_digest.as_str()) {
            Ok(())
        } else {
            Err(RepoError::InvalidRequest)
        },
        None => Err(RepoError::InvalidRequest),
    }
}

/// An import whose evidence and cards have been read from a reviewed
/// preview, ready for the notebook to record under its operation key.
#[derive(Debug, PartialEq, Eq)]
pub struct VerifiedImportBatch {
    pub operation_key: PlayerOperationKey,
    pub command_kind: String,
    pub request_digest: String,
    pub evidence: PlayerEvidence,
    pub selected_fields: JsonValue,
    pub cards: Vec<PlayerCard>,
    pub now: UtcMillis,
}

/// What the notebook does with an import once every check has passed.
#[derive(Debug, PartialEq, Eq)]
pub enum ImportPlan {
    /// The operation key was used before: answer with what its receipt names.
    Replayed { evidence_id: PlayerEvidenceId, inserted: bool },
    /// The same source and digest are stored already: reuse that row and
    /// record the import as already imported.
    Reused { evidence_id: PlayerEvidenceId },
    /// Insert the evidence under its own id, linked to the evidence it
    /// supersedes, with its cards and first selection revision.
    Inserted { evidence_id: PlayerEvidenceId, supersedes: Option<PlayerEvidenceId> },
}

impl ImportPlan {
    /// The evidence the import resolves to, and whether this import (or the
    /// first one under its key) inserted it.
    pub open spec fn spec_outcome(self) -> (Seq<char>, bool) {
        match self {
            ImportPlan::Replayed { evidence_id, inserted } => (evidence_id@, inserted),
            ImportPlan::Reused { evidence_id } => (evidence_id@, false),
            ImportPlan::Inserted { evidence_id, .. } => (evidence_id@, true),
        }
    }
}

/// Two card rows with the same fields.
pub open spec fn card_same(a: PlayerCard, b: PlayerCard) -> bool {
    &&& a.oracle_id@ == b.oracle_id@
    &&& a.display_name@ == b.display_name@
    &&& a.zone@ == b.zone@
    &&& a.quantity == b.quantity
    &&& a.basic_land == b.basic_land
}

/// Two card lists with the same rows in the same order.
pub open spec fn same_cards(a: Seq<PlayerCard>, b: Seq<PlayerCard>) -> bool {
    &&& a.len() == b.len()
    &&& forall|i: int| 0 <= i < a.len() ==> card_same(#[trigger] a[i], b[i])
}

/// Whether a statement's payload says that it carries a complete deck.
pub open spec fn states_complete_deck(payload: JsonValue) -> bool {
    json_str(json_get(payload, "contents"@)) == Some("complete_deck"@)
}

/// Why an import is refused, in the order the checks are made: a malformed
/// request digest; cards that differ from the evidence's own; cards that
/// the statement cannot hold; an identity that is not stored; a receipt
/// under the same key for another request, or one that names no valid
/// evidence; and, for new evidence that names what it supersedes, earlier
/// evidence that is missing or not an earlier version of the same source.
pub open spec fn import_refusal(
    batch: VerifiedImportBatch,
    identity_exists: bool,
    replay: Option<ReceiptReplay>,
    existing: Option<Seq<char>>,
    prior: Option<(Seq<char>, Seq<char>, Seq<char>)>,
) -> Option<RepoError> {
    let ev = batch.evidence;
    if !is_digest_text(batch.request_digest@) {
        Some(RepoError::InvalidRequest)
    } else if !same_cards(batch.cards@, ev.cards@) {
        Some(RepoError::InvalidRequest)
    } else if cards_refused(batch.cards@, states_complete_deck(ev.payload)) {
        Some(RepoError::InvalidRequest)
    } else if !identity_exists {
        Some(RepoError::NotFound)
    } else if replay is Some {
        let rp = replay->0;
        if rp.request_digest@ != batch.request_digest@ {
            Some(RepoError::InvalidRequest)
        } else if rp.result_locator is None {
            Some(RepoError::NotebookInvalid)
        } else if !valid_id(rp.result_locator->0@) {
            Some(RepoError::InvalidRequest)
        } else {
            None
        }
    } else if existing is Some {
        if valid_id(existing->0) {
            None
        } else {
            Some(RepoError::InvalidRequest)
        }
    } else if ev.supersedes_evidence_id is Some {
        match prior {
            None => Some(RepoError::NotFound),
            Some((owner, key, digest)) => if owner == ev.player_identity_id@ && key
                == ev.source_key@ && digest != ev.source_digest@ {
                None
            } else {
                Some(RepoError::InvalidRequest)
            },
        }
    } else {
        None
    }
}

/// Decides an import from what the notebook read for it: whether the
/// identity exists, the receipt already recorded under the operation key,
/// the stored evidence with the same source key and digest, the identity,
/// source key and digest of the evidence it names as superseded, and the
/// latest stored evidence for the same source.
///
/// Every refusal is `import_refusal`. Otherwise a receipt is answered as it
/// stands; a stored row with the same source and digest is reused, so a
/// refresh never overwrites an import; and only then is new evidence
/// inserted, superseding what it names, or else the latest evidence of its
/// source.
pub fn plan_import(
    batch: &VerifiedImportBatch,
    identity_exists: bool,
    replay: Option<ReceiptReplay>,
    existing: Option<String>,
    prior: Option<(String, String, String)>,
    latest: Option<PlayerEvidenceId>,
) -> (r: Result<ImportPlan, RepoError>)
    ensures
        ({
            let refusal = import_refusal(
                *batch,
                identity_exists,
                replay,
                match existing {
                    Some(e) => Some(e@),
                    None => None,
                },
                match prior {
                    Some((o, k, d)) => Some((o@, k@, d@)),
                    None => None,
                },
            );
            &&& refusal matches Some(e) ==> r == Err::<ImportPlan, RepoError>(e)
            &&& refusal is None ==> r is Ok
        }),
        r matches Ok(plan) ==> match replay {
            Some(rp) => plan matches ImportPlan::Replayed { evidence_id, inserted } && evidence_id@
                == rp.result_locator->0@ && inserted == (rp.result_code@ == import_code(true)),
            None => match existing {
                Some(e) => plan matches ImportPlan::Reused { evidence_id } && evidence_id@ == e@,
                None => plan matches ImportPlan::Inserted { evidence_id, supersedes } && evidence_id
                    == batch.evidence.id && supersedes == match batch.evidence.supersedes_evidence_id {
                    Some(named) => Some(named),
                    None => latest,
                },
            },
        },
{
    if let Err(e) = validate_digest(batch.request_digest.as_str()) {
        return Err(e);
    }
    if !cards_match(batch.cards.as_slice(), batch.evidence.cards.as_slice()) {
        return Err(RepoError::InvalidRequest);
    }
    let complete = match opt_str(batch.evidence.payload.get("contents")) {
        Some(contents) => str_eq(contents, "complete_deck"),
        None => false,
    };
    proof {
        reveal_strlit("complete_deck");
    }
    assert(complete == states_complete_deck(batch.evidence.payload));
    if let Err(e) = validate_cards(batch.cards.as_slice(), complete) {
        return Err(e);
    }
    if !identity_exists {
        return Err(RepoError::NotFound);
    }
    if let Some(rp) = replay {
        let (evidence_id, inserted) = match replay_import(&rp, batch.request_digest.as_str()) {
            Ok(found) => found,
            Err(e) => {
                return Err(e);
            },
        };
        return Ok(ImportPlan::Replayed { evidence_id, inserted });
    }
    if let Some(e) = existing {
        let evidence_id = match PlayerEvidenceId::parse(e.as_str()) {
            Ok(id) => id,
            Err(err) => {
                return Err(err);
            },
        };
        return Ok(ImportPlan::Reused { evidence_id });
    }
    let supersedes = match &batch.evidence.supersedes_evidence_id {
        Some(named) => {
            if let Err(e) = check_supersedes(
                prior,
                &batch.evidence.player_identity_id,
                batch.evidence.source_key.as_str(),
                batch.evidence.source_digest.as_str(),
            ) {
                return Err(e);
            }
            Some(named.clone())
        },
        None => latest,
    };
    Ok(ImportPlan::Inserted { evidence_id: batch.evidence.id.clone(), supersedes })
}

/// Whether two card lists hold the same rows in the same order.
pub fn cards_match(a: &[PlayerCard], b: &[PlayerCard]) -> (r: bool)
    ensures
        r == same_cards(a@, b@),
{
    if a.len() != b.len() {
        return false;
    }
    let mut i: usize = 0;
    while i < a.len()
        invariant
            a@.len() == b@.len(),
            i <= a@.len(),
            forall|k: int| 0 <= k < i ==> card_same(#[trigger] a@[k], b@[k]),
        decreases a.len() - i,
    {
        let x = &a[i];
        let y = &b[i];
        if !(str_eq(x.oracle_id.as_str(), y.oracle_id.as_str()) && str_eq(
            x.display_name.as_str(),
            y.display_name.as_str(),
        ) && str_eq(x.zone.as_str(), y.zone.as_str()) && x.quantity == y.quantity && x.basic_land
            == y.basic_land) {
            assert(!card_same(a@[i as int], b@[i as int]));
            return false;
        }
        i = i + 1;
    }
    true
}

/// What the notebook does with a selection request once every check passed.
#[derive(Debug, PartialEq, Eq)]
pub enum SelectionPlan {
    /// A repeated request: answered with the latest revision as it stands.
    Replayed { revision: Revision },
    /// A new revision, one past the latest, appended.
    Appended { revision: Revision },
}

/// Why a selection request is refused, in the order the checks are made: a
/// malformed request digest; evidence that is not stored; a receipt under
/// the same key for another request (or a request without a digest); no
/// revision stored yet; an expected revision the notebook cannot hold; or
/// one behind the latest.
pub open spec fn selection_refusal(
    request_digest: Option<Seq<char>>,
    evidence_exists: bool,
    replay: Option<ReceiptReplay>,
    latest: u64,
    expected: Revision,
) -> Option<RepoError> {
    if request_digest matches Some(d) && !is_digest_text(d) {
        Some(RepoError::InvalidRequest)
    } else if !evidence_exists {
        Some(RepoError::NotFound)
    } else if replay is Some {
        if !(request_digest matches Some(d) && d == replay->0.request_digest@) {
            Some(RepoError::InvalidRequest)
        } else if latest == 0 {
            Some(RepoError::NotFound)
        } else {
            None
        }
    } else if latest == 0 {
        Some(RepoError::NotFound)
    } else if expected.0 > i64::MAX {
        Some(RepoError::InvalidRequest)
    } else if latest != expected.0 {
        Some(RepoError::RevisionConflict)
    } else {
        None
    }
}

/// Decides a selection request from what the notebook read for it: whether
/// its evidence is stored, the receipt recorded under its operation key
/// (`None` when the request has no key or nothing was recorded), and the
/// latest revision number stored for the evidence (0 when none is).
///
/// Every refusal is `selection_refusal`. Otherwise a repeated request is
/// answered with the latest revision, and a new one appends the next
/// revision; revisions only ever grow by one.
pub fn plan_selection(
    request_digest: &Option<String>,
    evidence_exists: bool,
    replay: Option<ReceiptReplay>,
    latest: u64,
    expected: Revision,
) -> (r: Result<SelectionPlan, RepoError>)
    requires
        latest < i64::MAX,
    ensures
        ({
            let refusal = selection_refusal(
                match request_digest {
                    Some(d) => Some(d@),
                    None => None,
                },
                evidence_exists,
                replay,
                latest,
                expected,
            );
            &&& refusal matches Some(e) ==> r == Err::<SelectionPlan, RepoError>(e)
            &&& refusal is None ==> r == Ok::<SelectionPlan, RepoError>(
                if replay is Some {
                    SelectionPlan::Replayed { revision: Revision(latest) }
                } else {
                    SelectionPlan::Appended { revision: Revision((latest + 1) as u64) }
                },
            )
        }),
{
    if let Some(digest) = request_digest {
        if let Err(e) = validate_digest(digest.as_str()) {
            return Err(e);
        }
    }
    if !evidence_exists {
        return Err(RepoError::NotFound);
    }
    if let Some(rp) = replay {
        if let Err(e) = check_selection_replay(request_digest, &rp) {
            return Err(e);
        }
        if latest == 0 {
            return Err(RepoError::NotFound);
        }
        return Ok(SelectionPlan::Replayed { revision: Revision(latest) });
    }
    if latest == 0 {
        return Err(RepoError::NotFound);
    }
    if expected.0 > 9223372036854775807u64 {
        return Err(RepoError::InvalidRequest);
    }
    match next_selection_revision(latest, expected) {
        Ok(revision) => Ok(SelectionPlan::Appended { revision }),
        Err(e) => Err(e),
    }
}

} // verus!
