//! Player-owned deletion: a preview of what a deletion removes, bound to a
//! digest of that statement and a short expiry, and the checks a
//! confirmation must pass before anything is deleted.
//!
//! Counting and deleting rows is the notebook's work; this module states
//! what the preview binds and when a confirmation still matches it.
use vstd::prelude::*;

use crate::canonical::{quoted, write_quoted};
use crate::domain::{RepoError, Revision, UtcMillis};
use crate::player_models::{
    canonical_digest_of, canonical_digest_of_json, PlayerEmptyOutcomeId, PlayerEvidenceId, PlayerId,
    PlayerPreviewToken,
};
use crate::text::{copy_string, decimal, decimal_u64, push_char, str_eq};
use crate::unicode::{nfc, nfc_of};
use vstd::utf8::encode_utf8;

verus! {

/// How long a deletion preview may be confirmed (fifteen minutes).
pub const DELETION_TTL_MILLIS: i64 = 900_000;

#[derive(Debug, PartialEq, Eq)]
pub enum PlayerDeletionTarget {
    Identity(PlayerId),
    Evidence(PlayerEvidenceId),
    EmptyOutcome(PlayerEmptyOutcomeId),
}

impl Clone for PlayerDeletionTarget {
    fn clone(&self) -> (r: Self)
        ensures
            r == *self,
    {
        match self {
            PlayerDeletionTarget::Identity(id) => PlayerDeletionTarget::Identity(id.clone()),
            PlayerDeletionTarget::Evidence(id) => PlayerDeletionTarget::Evidence(id.clone()),
            PlayerDeletionTarget::EmptyOutcome(id) => PlayerDeletionTarget::EmptyOutcome(id.clone()),
        }
    }
}

/// What a deletion removes, by kind.
#[derive(Clone, Copy, Debug, PartialEq, Eq, Structural)]
pub struct PlayerDeletionCounts {
    pub evidence: u64,
    pub cards: u64,
    pub selections: u64,
    pub classifications: u64,
    pub empty_outcomes: u64,
    pub consents: u64,
}

impl Default for PlayerDeletionCounts {
    fn default() -> (r: Self)
        ensures
            r == (PlayerDeletionCounts {
                evidence: 0,
                cards: 0,
                selections: 0,
                classifications: 0,
                empty_outcomes: 0,
                consents: 0,
            }),
    {
        PlayerDeletionCounts {
            evidence: 0,
            cards: 0,
            selections: 0,
            classifications: 0,
            empty_outcomes: 0,
            consents: 0,
        }
    }
}

#[derive(Debug, PartialEq, Eq)]
pub struct PlayerDeletionPreview {
    pub token: PlayerPreviewToken,
    pub target: PlayerDeletionTarget,
    pub player_identity_id: PlayerId,
    pub identity_revision: Revision,
    pub counts: PlayerDeletionCounts,
    pub digest: String,
    pub expires_at: UtcMillis,
}

#[derive(Debug, PartialEq, Eq)]
pub struct PlayerDeletionOutcome {
    pub target: PlayerDeletionTarget,
    pub player_identity_id: PlayerId,
    pub deleted: bool,
    pub tombstones_written: u64,
}

/// The JSON text of a target: its kind, in snake case, naming its id.
pub open spec fn target_text(t: PlayerDeletionTarget) -> Seq<char> {
    match t {
        PlayerDeletionTarget::Identity(id) => "{\"identity\":"@ + quoted(nfc_of(id@)) + seq!['}'],
        PlayerDeletionTarget::Evidence(id) => "{\"evidence\":"@ + quoted(nfc_of(id@)) + seq!['}'],
        PlayerDeletionTarget::EmptyOutcome(id) => "{\"empty_outcome\":"@ + quoted(nfc_of(id@)) + seq!['}'],
    }
}

/// The JSON text of the counts, members in key order.
pub open spec fn counts_text(c: PlayerDeletionCounts) -> Seq<char> {
    "{\"cards\":"@ + decimal(c.cards as nat) + ",\"classifications\":"@ + decimal(
        c.classifications as nat,
    ) + ",\"consents\":"@ + decimal(c.consents as nat) + ",\"emptyOutcomes\":"@ + decimal(
        c.empty_outcomes as nat,
    ) + ",\"evidence\":"@ + decimal(c.evidence as nat) + ",\"selections\":"@ + decimal(
        c.selections as nat,
    ) + seq!['}']
}

/// The canonical text of the statement a deletion preview's digest covers:
/// the counts, the identity's revision, the identity, and the target.
pub open spec fn deletion_statement(
    target: PlayerDeletionTarget,
    player_identity_id: Seq<char>,
    identity_revision: u64,
    counts: PlayerDeletionCounts,
) -> Seq<char> {
    "{\"counts\":"@ + counts_text(counts) + ",\"identityRevision\":"@ + decimal(
        identity_revision as nat,
    ) + ",\"playerIdentityId\":"@ + quoted(nfc_of(player_identity_id)) + ",\"target\":"@
        + target_text(target) + seq!['}']
}

/// The digest that binds a deletion preview to its statement.
pub open spec fn deletion_digest_of(
    target: PlayerDeletionTarget,
    player_identity_id: Seq<char>,
    identity_revision: u64,
    counts: PlayerDeletionCounts,
) -> Seq<char> {
    canonical_digest_of(encode_utf8(deletion_statement(target, player_identity_id, identity_revision, counts)))
}

fn write_target(out: &mut String, target: &PlayerDeletionTarget)
    ensures
        final(out)@ == old(out)@ + target_text(*target),
{
    let id = match target {
        PlayerDeletionTarget::Identity(id) => {
            out.append("{\"identity\":");
            nfc(id.as_str())
        },
        PlayerDeletionTarget::Evidence(id) => {
            out.append("{\"evidence\":");
            nfc(id.as_str())
        },
        PlayerDeletionTarget::EmptyOutcome(id) => {
            out.append("{\"empty_outcome\":");
            nfc(id.as_str())
        },
    };
    write_quoted(out, id.as_str());
    push_char(out, '}');
}

fn write_count(out: &mut String, label: &str, n: u64)
    ensures
        final(out)@ == old(out)@ + label@ + decimal(n as nat),
{
    out.append(label);
    let digits = decimal_u64(n);
    out.append(digits.as_str());
}

/// The canonical text of a deletion statement.
pub fn deletion_statement_text(
    target: &PlayerDeletionTarget,
    player_identity_id: &PlayerId,
    identity_revision: Revision,
    counts: &PlayerDeletionCounts,
) -> (r: String)
    ensures
        r@ == deletion_statement(*target, player_identity_id@, identity_revision.0, *counts),
{
    let mut out = copy_string("{\"counts\":");
    write_count(&mut out, "{\"cards\":", counts.cards);
    write_count(&mut out, ",\"classifications\":", counts.classifications);
    write_count(&mut out, ",\"consents\":", counts.consents);
    write_count(&mut out, ",\"emptyOutcomes\":", counts.empty_outcomes);
    write_count(&mut out, ",\"evidence\":", counts.evidence);
    write_count(&mut out, ",\"selections\":", counts.selections);
    push_char(&mut out, '}');
    write_count(&mut out, ",\"identityRevision\":", identity_revision.0);
    out.append(",\"playerIdentityId\":");
    let id = nfc(player_identity_id.as_str());
    write_quoted(&mut out, id.as_str());
    out.append(",\"target\":");
    write_target(&mut out, target);
    push_char(&mut out, '}');
    proof {
        assert(out@ =~= deletion_statement(*target, player_identity_id@, identity_revision.0, *counts));
    }
    out
}

/// When a preview made at `now` expires, if that instant can be held.
pub open spec fn deletion_expiry(now: UtcMillis) -> Option<UtcMillis> {
    if 0 <= now.0 + DELETION_TTL_MILLIS <= i64::MAX {
        Some(UtcMillis((now.0 + DELETION_TTL_MILLIS) as i64))
    } else {
        None
    }
}

/// `p` previews deleting `target` of the identity at `identity_revision`,
/// removing `counts`, under `token`, made at `now`.
pub open spec fn deletion_previewed(
    p: PlayerDeletionPreview,
    token: PlayerPreviewToken,
    target: PlayerDeletionTarget,
    player_identity_id: PlayerId,
    identity_revision: Revision,
    counts: PlayerDeletionCounts,
    now: UtcMillis,
) -> bool {
    &&& p.token == token
    &&& p.target == target
    &&& p.player_identity_id == player_identity_id
    &&& p.identity_revision == identity_revision
    &&& p.counts == counts
    &&& p.digest@ == deletion_digest_of(target, player_identity_id@, identity_revision.0, counts)
    &&& deletion_expiry(now) == Some(p.expires_at)
}

/// A deletion preview under a given token; fails only when its expiry
/// cannot be held.
pub fn build_deletion_preview_with(
    token: PlayerPreviewToken,
    target: PlayerDeletionTarget,
    player_identity_id: PlayerId,
    identity_revision: Revision,
    counts: PlayerDeletionCounts,
    now: UtcMillis,
) -> (r: Result<PlayerDeletionPreview, RepoError>)
    ensures
        deletion_expiry(now) is None ==> r == Err::<PlayerDeletionPreview, RepoError>(RepoError::InvalidRequest),
        deletion_expiry(now) is Some ==> (r matches Ok(p) && deletion_previewed(
            p,
            token,
            target,
            player_identity_id,
            identity_revision,
            counts,
            now,
        )),
{
    let expires = match now.get().checked_add(DELETION_TTL_MILLIS) {
        Some(at) => at,
        None => {
            return Err(RepoError::InvalidRequest);
        },
    };
    let expires_at = match UtcMillis::new(expires) {
        Ok(at) => at,
        Err(error) => {
            return Err(error);
        },
    };
    let statement = deletion_statement_text(&target, &player_identity_id, identity_revision, &counts);
    let digest = canonical_digest_of_json(statement.as_str());
    Ok(
        PlayerDeletionPreview {
            token,
            target,
            player_identity_id,
            identity_revision,
            counts,
            digest,
            expires_at,
        },
    )
}

/// A deletion preview under a fresh token.
pub fn build_deletion_preview(
    target: PlayerDeletionTarget,
    player_identity_id: PlayerId,
    identity_revision: Revision,
    counts: PlayerDeletionCounts,
    now: UtcMillis,
) -> (r: Result<PlayerDeletionPreview, RepoError>)
    ensures
        r matches Err(e) ==> e == RepoError::InvalidRequest || e == RepoError::KeyUnavailable,
        r is Err && deletion_expiry(now) is Some ==> r == Err::<PlayerDeletionPreview, RepoError>(
            RepoError::KeyUnavailable,
        ),
        r matches Ok(p) ==> deletion_previewed(
            p,
            p.token,
            target,
            player_identity_id,
            identity_revision,
            counts,
            now,
        ),
        deletion_expiry(now) is None ==> r is Err,
{
    let token = match PlayerPreviewToken::new() {
        Ok(token) => token,
        Err(error) => {
            return Err(error);
        },
    };
    build_deletion_preview_with(token, target, player_identity_id, identity_revision, counts, now)
}

/// A confirmation names the preview's digest before it expires.
pub open spec fn confirmation_current(p: PlayerDeletionPreview, digest: Seq<char>, now: UtcMillis) -> bool {
    now.0 < p.expires_at.0 && digest == p.digest@
}

pub fn confirmation_matches(preview: &PlayerDeletionPreview, digest: &str, now: UtcMillis) -> (r: bool)
    ensures
        r == confirmation_current(*preview, digest@, now),
{
    now.get() < preview.expires_at.get() && str_eq(digest, preview.digest.as_str())
}

/// What the notebook holds now still matches the preview: the same
/// statement digest at the same identity revision.
pub open spec fn preview_unchanged(p: PlayerDeletionPreview, current: PlayerDeletionPreview) -> bool {
    current.digest@ == p.digest@ && current.identity_revision == p.identity_revision
}

pub fn preview_still_current(preview: &PlayerDeletionPreview, current: &PlayerDeletionPreview) -> (r: bool)
    ensures
        r == preview_unchanged(*preview, *current),
{
    str_eq(current.digest.as_str(), preview.digest.as_str()) && current.identity_revision.0
        == preview.identity_revision.0
}

/// A preview rebuilt from the same facts still matches the first one.
pub proof fn law_unchanged_facts_keep_a_preview_current(
    first: PlayerDeletionPreview,
    again: PlayerDeletionPreview,
    target: PlayerDeletionTarget,
    player_identity_id: PlayerId,
    identity_revision: Revision,
    counts: PlayerDeletionCounts,
    then: UtcMillis,
    now: UtcMillis,
)
    requires
        deletion_previewed(first, first.token, target, player_identity_id, identity_revision, counts, then),
        deletion_previewed(again, again.token, target, player_identity_id, identity_revision, counts, now),
    ensures
        preview_unchanged(first, again),
{
}

} // verus!
