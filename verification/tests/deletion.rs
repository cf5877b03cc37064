use mtgo_notes::domain::{EntityId, Revision, UtcMillis};
use mtgo_notes::player_deletion::{
    build_deletion_preview, build_deletion_preview_with, confirmation_matches,
    deletion_statement_text, preview_still_current, PlayerDeletionCounts, PlayerDeletionTarget,
    DELETION_TTL_MILLIS,
};
use mtgo_notes::player_models::{PlayerEvidenceId, PlayerId, PlayerPreviewToken};

fn player(id: &str) -> PlayerId {
    PlayerId::parse(id).expect("id")
}

fn counts() -> PlayerDeletionCounts {
    PlayerDeletionCounts {
        evidence: 2,
        cards: 60,
        selections: 1,
        classifications: 3,
        empty_outcomes: 0,
        consents: 1,
    }
}

#[test]
fn deletion_statement_is_canonical_json() {
    let text = deletion_statement_text(
        &PlayerDeletionTarget::Identity(player("p-1")),
        &player("p-1"),
        Revision(4),
        &counts(),
    );
    assert_eq!(
        text,
        "{\"counts\":{\"cards\":60,\"classifications\":3,\"consents\":1,\"emptyOutcomes\":0,\"evidence\":2,\"selections\":1},\"identityRevision\":4,\"playerIdentityId\":\"p-1\",\"target\":{\"identity\":\"p-1\"}}"
    );
    let evidence = deletion_statement_text(
        &PlayerDeletionTarget::Evidence(PlayerEvidenceId::parse("e-9").expect("id")),
        &player("p-1"),
        Revision(1),
        &PlayerDeletionCounts::default(),
    );
    assert!(evidence.ends_with(",\"target\":{\"evidence\":\"e-9\"}}"));
}

#[test]
fn a_preview_expires_after_fifteen_minutes_and_binds_its_digest() {
    let now = UtcMillis::new(1_000).expect("time");
    let preview = build_deletion_preview(
        PlayerDeletionTarget::Identity(player("p-1")),
        player("p-1"),
        Revision(2),
        counts(),
        now,
    )
    .expect("preview");
    assert_eq!(preview.expires_at.get(), 1_000 + DELETION_TTL_MILLIS);
    assert_eq!(DELETION_TTL_MILLIS, 15 * 60 * 1_000);
    assert_eq!(preview.digest.len(), 64);
    assert!(confirmation_matches(&preview, &preview.digest.clone(), now));
    assert!(!confirmation_matches(&preview, &"0".repeat(64), now));
    assert!(!confirmation_matches(&preview, &preview.digest.clone(), preview.expires_at));
}

#[test]
fn a_preview_is_stale_once_the_identity_or_counts_change() {
    let now = UtcMillis::new(5).expect("time");
    let token = PlayerPreviewToken(EntityId::new().expect("id"));
    let first = build_deletion_preview_with(
        token.clone(),
        PlayerDeletionTarget::Identity(player("p-1")),
        player("p-1"),
        Revision(2),
        counts(),
        now,
    )
    .expect("preview");
    let same = build_deletion_preview_with(
        token.clone(),
        PlayerDeletionTarget::Identity(player("p-1")),
        player("p-1"),
        Revision(2),
        counts(),
        UtcMillis::new(9).expect("time"),
    )
    .expect("preview");
    assert!(preview_still_current(&first, &same));
    let moved = build_deletion_preview_with(
        token.clone(),
        PlayerDeletionTarget::Identity(player("p-1")),
        player("p-1"),
        Revision(3),
        counts(),
        now,
    )
    .expect("preview");
    assert!(!preview_still_current(&first, &moved));
    let mut more = counts();
    more.cards += 1;
    let grown = build_deletion_preview_with(
        token,
        PlayerDeletionTarget::Identity(player("p-1")),
        player("p-1"),
        Revision(2),
        more,
        now,
    )
    .expect("preview");
    assert!(!preview_still_current(&first, &grown));
}

#[test]
fn an_expiry_that_cannot_be_held_is_refused() {
    let late = UtcMillis::new(i64::MAX - 10).expect("time");
    let result = build_deletion_preview(
        PlayerDeletionTarget::Identity(player("p-1")),
        player("p-1"),
        Revision(1),
        counts(),
        late,
    );
    assert_eq!(result.err(), Some(mtgo_notes::domain::RepoError::InvalidRequest));
}
