//! Closed domain types for the local Player context: nickname
//! normalization, source identity keys and deck-card bounds.
//!
//! A Player nickname is a local screen name and public evidence is a
//! source-scoped immutable statement, never an account claim.
use vstd::prelude::*;

use crate::canonical::{canonical_json, canonical_text, json_wf};
use crate::crypto::{sha256, sha256_of};
use crate::domain::{hex_encode, hex_of, valid_id, EntityId, RepoError, Revision, UtcMillis};
use crate::json::{json_get, json_str, opt_str, JsonValue};
use crate::text::{
    char_count, chars_of, contains_control, copy_string, decimal, decimal_string, has_ctrl,
    is_blank, is_digit, lemma_decimal_digits, push_char, str_eq, trim_string, trimmed,
};
use crate::unicode::{case_fold, case_fold_of, nfkc, nfkc_of};
use vstd::string::StringSliceAdditionalSpecFns;

verus! {

pub const EVIDENCE_SCHEMA_VERSION: u32 = 1;

pub const CANONICALIZATION_VERSION: &'static str = "player-canonical-v1";

pub const MAX_NICKNAME_SCALARS: usize = 128;

pub const MAX_DECK_ROWS: usize = 500;

pub const MAX_CARD_QUANTITY: u16 = 250;

/// A Player-context identifier, never an opponent identifier.
#[derive(Debug, PartialEq, Eq, PartialOrd, Ord, Hash)]
pub struct PlayerId(pub EntityId);

impl Clone for PlayerId {
    fn clone(&self) -> (r: Self)
        ensures
            r == *self,
    {
        PlayerId(self.0.clone())
    }
}

impl View for PlayerId {
    type V = Seq<char>;

    open spec fn view(&self) -> Seq<char> {
        self.0@
    }
}

impl PlayerId {
    pub fn new() -> (r: Result<Self, RepoError>)
        ensures
            r matches Ok(id) ==> valid_id(id@),
            r matches Err(e) ==> e == RepoError::KeyUnavailable,
    {
        let id = EntityId::new()?;
        Ok(PlayerId(id))
    }

    pub fn parse(value: &str) -> (r: Result<Self, RepoError>)
        ensures
            valid_id(value@) ==> (r matches Ok(id) && id@ == value@),
            !valid_id(value@) ==> r == Err::<Self, RepoError>(RepoError::InvalidRequest),
    {
        let id = EntityId::parse(value)?;
        Ok(PlayerId(id))
    }

    pub fn as_str(&self) -> (r: &str)
        ensures
            r@ == self@,
    {
        self.0.as_str()
    }

    pub fn into_entity_id(self) -> (r: EntityId)
        ensures
            r == self.0,
    {
        self.0
    }

    pub fn same(&self, other: &Self) -> (r: bool)
        ensures
            r == (self@ == other@),
    {
        self.0.same(&other.0)
    }
}

/// A Player-context identifier, never an opponent identifier.
#[derive(Debug, PartialEq, Eq, PartialOrd, Ord, Hash)]
pub struct PlayerEvidenceId(pub EntityId);

impl Clone for PlayerEvidenceId {
    fn clone(&self) -> (r: Self)
        ensures
            r == *self,
    {
        PlayerEvidenceId(self.0.clone())
    }
}

impl View for PlayerEvidenceId {
    type V = Seq<char>;

    open spec fn view(&self) -> Seq<char> {
        self.0@
    }
}

impl PlayerEvidenceId {
    pub fn new() -> (r: Result<Self, RepoError>)
        ensures
            r matches Ok(id) ==> valid_id(id@),
            r matches Err(e) ==> e == RepoError::KeyUnavailable,
    {
        let id = EntityId::new()?;
        Ok(PlayerEvidenceId(id))
    }

    pub fn parse(value: &str) -> (r: Result<Self, RepoError>)
        ensures
            valid_id(value@) ==> (r matches Ok(id) && id@ == value@),
            !valid_id(value@) ==> r == Err::<Self, RepoError>(RepoError::InvalidRequest),
    {
        let id = EntityId::parse(value)?;
        Ok(PlayerEvidenceId(id))
    }

    pub fn as_str(&self) -> (r: &str)
        ensures
            r@ == self@,
    {
        self.0.as_str()
    }

    pub fn into_entity_id(self) -> (r: EntityId)
        ensures
            r == self.0,
    {
        self.0
    }

    pub fn same(&self, other: &Self) -> (r: bool)
        ensures
            r == (self@ == other@),
    {
        self.0.same(&other.0)
    }
}

/// A Player-context identifier, never an opponent identifier.
#[derive(Debug, PartialEq, Eq, PartialOrd, Ord, Hash)]
pub struct PlayerSelectionId(pub EntityId);

impl Clone for PlayerSelectionId {
    fn clone(&self) -> (r: Self)
        ensures
            r == *self,
    {
        PlayerSelectionId(self.0.clone())
    }
}

impl View for PlayerSelectionId {
    type V = Seq<char>;

    open spec fn view(&self) -> Seq<char> {
        self.0@
    }
}

impl PlayerSelectionId {
    pub fn new() -> (r: Result<Self, RepoError>)
        ensures
            r matches Ok(id) ==> valid_id(id@),
            r matches Err(e) ==> e == RepoError::KeyUnavailable,
    {
        let id = EntityId::new()?;
        Ok(PlayerSelectionId(id))
    }

    pub fn parse(value: &str) -> (r: Result<Self, RepoError>)
        ensures
            valid_id(value@) ==> (r matches Ok(id) && id@ == value@),
            !valid_id(value@) ==> r == Err::<Self, RepoError>(RepoError::InvalidRequest),
    {
        let id = EntityId::parse(value)?;
        Ok(PlayerSelectionId(id))
    }

    pub fn as_str(&self) -> (r: &str)
        ensures
            r@ == self@,
    {
        self.0.as_str()
    }

    pub fn into_entity_id(self) -> (r: EntityId)
        ensures
            r == self.0,
    {
        self.0
    }

    pub fn same(&self, other: &Self) -> (r: bool)
        ensures
            r == (self@ == other@),
    {
        self.0.same(&other.0)
    }
}

/// A Player-context identifier, never an opponent identifier.
#[derive(Debug, PartialEq, Eq, PartialOrd, Ord, Hash)]
pub struct PlayerEmptyOutcomeId(pub EntityId);

impl Clone for PlayerEmptyOutcomeId {
    fn clone(&self) -> (r: Self)
        ensures
            r == *self,
    {
        PlayerEmptyOutcomeId(self.0.clone())
    }
}

impl View for PlayerEmptyOutcomeId {
    type V = Seq<char>;

    open spec fn view(&self) -> Seq<char> {
        self.0@
    }
}

impl PlayerEmptyOutcomeId {
    pub fn new() -> (r: Result<Self, RepoError>)
        ensures
            r matches Ok(id) ==> valid_id(id@),
            r matches Err(e) ==> e == RepoError::KeyUnavailable,
    {
        let id = EntityId::new()?;
        Ok(PlayerEmptyOutcomeId(id))
    }

    pub fn parse(value: &str) -> (r: Result<Self, RepoError>)
        ensures
            valid_id(value@) ==> (r matches Ok(id) && id@ == value@),
            !valid_id(value@) ==> r == Err::<Self, RepoError>(RepoError::InvalidRequest),
    {
        let id = EntityId::parse(value)?;
        Ok(PlayerEmptyOutcomeId(id))
    }

    pub fn as_str(&self) -> (r: &str)
        ensures
            r@ == self@,
    {
        self.0.as_str()
    }

    pub fn into_entity_id(self) -> (r: EntityId)
        ensures
            r == self.0,
    {
        self.0
    }

    pub fn same(&self, other: &Self) -> (r: bool)
        ensures
            r == (self@ == other@),
    {
        self.0.same(&other.0)
    }
}

/// A Player-context identifier, never an opponent identifier.
#[derive(Debug, PartialEq, Eq, PartialOrd, Ord, Hash)]
pub struct PlayerClassificationRunId(pub EntityId);

impl Clone for PlayerClassificationRunId {
    fn clone(&self) -> (r: Self)
        ensures
            r == *self,
    {
        PlayerClassificationRunId(self.0.clone())
    }
}

impl View for PlayerClassificationRunId {
    type V = Seq<char>;

    open spec fn view(&self) -> Seq<char> {
        self.0@
    }
}

impl PlayerClassificationRunId {
    pub fn new() -> (r: Result<Self, RepoError>)
        ensures
            r matches Ok(id) ==> valid_id(id@),
            r matches Err(e) ==> e == RepoError::KeyUnavailable,
    {
        let id = EntityId::new()?;
        Ok(PlayerClassificationRunId(id))
    }

    pub fn parse(value: &str) -> (r: Result<Self, RepoError>)
        ensures
            valid_id(value@) ==> (r matches Ok(id) && id@ == value@),
            !valid_id(value@) ==> r == Err::<Self, RepoError>(RepoError::InvalidRequest),
    {
        let id = EntityId::parse(value)?;
        Ok(PlayerClassificationRunId(id))
    }

    pub fn as_str(&self) -> (r: &str)
        ensures
            r@ == self@,
    {
        self.0.as_str()
    }

    pub fn into_entity_id(self) -> (r: EntityId)
        ensures
            r == self.0,
    {
        self.0
    }

    pub fn same(&self, other: &Self) -> (r: bool)
        ensures
            r == (self@ == other@),
    {
        self.0.same(&other.0)
    }
}

/// A Player-context identifier, never an opponent identifier.
#[derive(Debug, PartialEq, Eq, PartialOrd, Ord, Hash)]
pub struct PlayerOperationKey(pub EntityId);

impl Clone for PlayerOperationKey {
    fn clone(&self) -> (r: Self)
        ensures
            r == *self,
    {
        PlayerOperationKey(self.0.clone())
    }
}

impl View for PlayerOperationKey {
    type V = Seq<char>;

    open spec fn view(&self) -> Seq<char> {
        self.0@
    }
}

impl PlayerOperationKey {
    pub fn new() -> (r: Result<Self, RepoError>)
        ensures
            r matches Ok(id) ==> valid_id(id@),
            r matches Err(e) ==> e == RepoError::KeyUnavailable,
    {
        let id = EntityId::new()?;
        Ok(PlayerOperationKey(id))
    }

    pub fn parse(value: &str) -> (r: Result<Self, RepoError>)
        ensures
            valid_id(value@) ==> (r matches Ok(id) && id@ == value@),
            !valid_id(value@) ==> r == Err::<Self, RepoError>(RepoError::InvalidRequest),
    {
        let id = EntityId::parse(value)?;
        Ok(PlayerOperationKey(id))
    }

    pub fn as_str(&self) -> (r: &str)
        ensures
            r@ == self@,
    {
        self.0.as_str()
    }

    pub fn into_entity_id(self) -> (r: EntityId)
        ensures
            r == self.0,
    {
        self.0
    }

    pub fn same(&self, other: &Self) -> (r: bool)
        ensures
            r == (self@ == other@),
    {
        self.0.same(&other.0)
    }
}

/// A Player-context identifier, never an opponent identifier.
#[derive(Debug, PartialEq, Eq, PartialOrd, Ord, Hash)]
pub struct PlayerPreviewToken(pub EntityId);

impl Clone for PlayerPreviewToken {
    fn clone(&self) -> (r: Self)
        ensures
            r == *self,
    {
        PlayerPreviewToken(self.0.clone())
    }
}

impl View for PlayerPreviewToken {
    type V = Seq<char>;

    open spec fn view(&self) -> Seq<char> {
        self.0@
    }
}

impl PlayerPreviewToken {
    pub fn new() -> (r: Result<Self, RepoError>)
        ensures
            r matches Ok(id) ==> valid_id(id@),
            r matches Err(e) ==> e == RepoError::KeyUnavailable,
    {
        let id = EntityId::new()?;
        Ok(PlayerPreviewToken(id))
    }

    pub fn parse(value: &str) -> (r: Result<Self, RepoError>)
        ensures
            valid_id(value@) ==> (r matches Ok(id) && id@ == value@),
            !valid_id(value@) ==> r == Err::<Self, RepoError>(RepoError::InvalidRequest),
    {
        let id = EntityId::parse(value)?;
        Ok(PlayerPreviewToken(id))
    }

    pub fn as_str(&self) -> (r: &str)
        ensures
            r@ == self@,
    {
        self.0.as_str()
    }

    pub fn into_entity_id(self) -> (r: EntityId)
        ensures
            r == self.0,
    {
        self.0
    }

    pub fn same(&self, other: &Self) -> (r: bool)
        ensures
            r == (self@ == other@),
    {
        self.0.same(&other.0)
    }
}


#[derive(Debug, PartialEq, Eq)]
pub struct NormalizedNickname {
    pub display: String,
    pub normalized: String,
}

/// The comparison key of a nickname: NFKC, then case folding.
pub open spec fn nickname_key(display: Seq<char>) -> Seq<char> {
    case_fold_of(nfkc_of(display))
}

/// Why a nickname is refused, if it is.
pub open spec fn nickname_valid(value: Seq<char>) -> bool {
    let display = trimmed(value);
    &&& display.len() > 0
    &&& display.len() <= MAX_NICKNAME_SCALARS
    &&& !has_ctrl(display)
    &&& nickname_key(display).len() > 0
    &&& !has_ctrl(nickname_key(display))
}

/// Trims, bounds and rejects controls, and produces the case-folded key used
/// by source identity and exact matching. NFKC applies to the key only; the
/// display spelling keeps everything but outer whitespace.
pub fn normalize_player_nickname(value: &str) -> (r: Result<NormalizedNickname, RepoError>)
    ensures
        nickname_valid(value@) ==> (r matches Ok(n) && n.display@ == trimmed(value@)
            && n.normalized@ == nickname_key(trimmed(value@))),
        !nickname_valid(value@) ==> r == Err::<NormalizedNickname, RepoError>(
            RepoError::InvalidRequest,
        ),
{
    let display = trim_string(value);
    if display.as_str().is_empty() || char_count(display.as_str()) > MAX_NICKNAME_SCALARS
        || contains_control(display.as_str()) {
        return Err(RepoError::InvalidRequest);
    }
    let folded = nfkc(display.as_str());
    let normalized = case_fold(folded.as_str());
    if normalized.as_str().is_empty() || contains_control(normalized.as_str()) {
        return Err(RepoError::InvalidRequest);
    }
    Ok(NormalizedNickname { display, normalized })
}

pub fn normalize_player_nickname_key(value: &str) -> (r: Result<String, RepoError>)
    ensures
        nickname_valid(value@) ==> (r matches Ok(k) && k@ == nickname_key(trimmed(value@))),
        !nickname_valid(value@) ==> r == Err::<String, RepoError>(RepoError::InvalidRequest),
{
    let identity = normalize_player_nickname(value)?;
    Ok(identity.normalized)
}

#[derive(Clone, Copy, Debug, PartialEq, Eq, Structural)]
pub enum EvidenceKind {
    MocsLeaderboardEntry,
    OfficialPublishedDecklist,
}

#[derive(Clone, Copy, Debug, PartialEq, Eq, Structural)]
pub enum EvidenceProvenance {
    ProviderObserved,
    UserAttestedOfficialSource,
}

#[derive(Clone, Copy, Debug, PartialEq, Eq, Structural)]
pub enum DeckContentsKind {
    ReferenceOnly,
    CompleteDeck,
}

#[derive(Clone, Copy, Debug, PartialEq, Eq, PartialOrd, Ord, Hash, Structural)]
pub enum PlayerSourceRoute {
    CensusMocs,
    OfficialMtgoBrowser,
    MtgTop8Browser,
}

#[derive(Clone, Copy, Debug, PartialEq, Eq, Structural)]
pub enum ClassificationMethod {
    Signature,
    Knn,
    Unsupported,
}

#[derive(Debug, PartialEq, Eq)]
pub struct PlayerIdentity {
    pub id: PlayerId,
    pub display_nickname: String,
    pub normalized_nickname: String,
    pub created_at: UtcMillis,
    pub updated_at: UtcMillis,
    pub revision: Revision,
}

impl Clone for PlayerIdentity {
    fn clone(&self) -> (r: Self)
        ensures
            r == *self,
    {
        PlayerIdentity {
            id: self.id.clone(),
            display_nickname: self.display_nickname.clone(),
            normalized_nickname: self.normalized_nickname.clone(),
            created_at: self.created_at,
            updated_at: self.updated_at,
            revision: self.revision,
        }
    }
}

#[derive(Debug, PartialEq, Eq)]
pub struct PlayerConsent {
    pub player_identity_id: PlayerId,
    pub route: PlayerSourceRoute,
    pub disclosure_version: String,
    pub outbound_fields: JsonValue,
    pub fields_digest: String,
    pub granted_at: UtcMillis,
    pub revision: Revision,
}

#[derive(Debug, PartialEq, Eq)]
pub struct PlayerCard {
    pub oracle_id: String,
    pub display_name: String,
    pub zone: String,
    pub quantity: u16,
    pub basic_land: bool,
}

impl Clone for PlayerCard {
    fn clone(&self) -> (r: Self)
        ensures
            r == *self,
    {
        PlayerCard {
            oracle_id: self.oracle_id.clone(),
            display_name: self.display_name.clone(),
            zone: self.zone.clone(),
            quantity: self.quantity,
            basic_land: self.basic_land,
        }
    }
}

#[derive(Debug, PartialEq, Eq)]
pub struct PlayerEvidence {
    pub id: PlayerEvidenceId,
    pub player_identity_id: PlayerId,
    pub evidence_schema_version: u32,
    pub kind: EvidenceKind,
    pub provenance_mode: EvidenceProvenance,
    pub provider_id: String,
    pub attribution_url: String,
    pub canonical_source_url: Option<String>,
    pub lookup_nickname: String,
    pub source_nickname: String,
    pub exact_match_rule: String,
    pub scope: JsonValue,
    pub observed_at: UtcMillis,
    pub imported_at: UtcMillis,
    pub source_key: String,
    pub source_digest: String,
    pub preview_digest: String,
    pub payload: JsonValue,
    pub selected_fields: JsonValue,
    pub supersedes_evidence_id: Option<PlayerEvidenceId>,
    pub cards: Vec<PlayerCard>,
}

impl PlayerEvidence {
    pub open spec fn spec_is_complete_official_deck(&self) -> bool {
        &&& self.kind == EvidenceKind::OfficialPublishedDecklist
        &&& json_str(json_get(self.payload, "contents"@)) == Some("complete_deck"@)
        &&& self.cards.len() > 0
    }

    /// An official decklist statement that carries its complete deck.
    pub fn is_complete_official_deck(&self) -> (r: bool)
        ensures
            r == self.spec_is_complete_official_deck(),
    {
        if self.kind != EvidenceKind::OfficialPublishedDecklist || self.cards.len() == 0 {
            return false;
        }
        match opt_str(self.payload.get("contents")) {
            Some(contents) => str_eq(contents, "complete_deck"),
            None => false,
        }
    }
}

#[derive(Debug, PartialEq, Eq)]
pub struct PlayerSelectionRevision {
    pub id: PlayerSelectionId,
    pub evidence_id: PlayerEvidenceId,
    pub revision_number: Revision,
    pub selected_fields: JsonValue,
    pub created_at: UtcMillis,
}

#[derive(Debug, PartialEq, Eq)]
pub struct PlayerEmptyOutcome {
    pub id: PlayerEmptyOutcomeId,
    pub player_identity_id: PlayerId,
    pub provider_id: String,
    pub lookup_nickname: String,
    pub exact_match_rule: String,
    pub scope: JsonValue,
    pub provider_configuration_version: String,
    pub completed_at: UtcMillis,
    pub operation_key: PlayerOperationKey,
}

#[derive(Debug, PartialEq, Eq)]
pub struct PlayerOperationReceipt {
    pub operation_key: PlayerOperationKey,
    pub command_kind: String,
    pub player_identity_id: PlayerId,
    pub request_digest: String,
    pub result_code: String,
    pub result_locator: Option<String>,
    pub created_at: UtcMillis,
}

#[derive(Debug, PartialEq, Eq)]
pub struct PlayerTombstone {
    pub entity_kind: String,
    pub entity_id: String,
    pub player_identity_id: PlayerId,
    pub deleted_at: UtcMillis,
}

/// A card row that a deck statement may hold.
pub open spec fn card_ok(c: PlayerCard) -> bool {
    &&& trimmed(c.oracle_id@).len() > 0
    &&& trimmed(c.display_name@).len() > 0
    &&& c.quantity != 0
    &&& c.quantity <= MAX_CARD_QUANTITY
    &&& trimmed(c.zone@).len() > 0
    &&& !has_ctrl(c.oracle_id@)
    &&& !has_ctrl(c.display_name@)
}

/// The identity of a card row within a deck: its oracle id after NFKC and
/// case folding, and its zone.
pub open spec fn card_key(c: PlayerCard) -> (Seq<char>, Seq<char>) {
    (case_fold_of(nfkc_of(c.oracle_id@)), c.zone@)
}

/// Whether a card list is refused for a statement that is (or is not) a
/// complete deck.
pub open spec fn cards_refused(cards: Seq<PlayerCard>, complete: bool) -> bool {
    ||| (!complete && cards.len() > 0)
    ||| cards.len() > MAX_DECK_ROWS
    ||| (exists|i: int| 0 <= i < cards.len() && !card_ok(#[trigger] cards[i]))
    ||| (exists|i: int, j: int|
        0 <= i < j < cards.len() && #[trigger] card_key(cards[i]) == #[trigger] card_key(cards[j]))
    ||| (complete && cards.len() == 0)
}

/// A reference-only statement carries no cards; a complete deck carries
/// between one and the row limit, each well formed and none repeated (by
/// normalized oracle id and zone).
pub fn validate_cards(cards: &[PlayerCard], complete: bool) -> (r: Result<(), RepoError>)
    ensures
        cards_refused(cards@, complete) ==> r == Err::<(), RepoError>(RepoError::InvalidRequest),
        !cards_refused(cards@, complete) ==> r is Ok,
{
    if !complete && cards.len() > 0 {
        return Err(RepoError::InvalidRequest);
    }
    if cards.len() > MAX_DECK_ROWS {
        return Err(RepoError::InvalidRequest);
    }
    let mut folded: Vec<String> = Vec::new();
    let mut i: usize = 0;
    while i < cards.len()
        invariant
            i <= cards@.len(),
            folded@.len() == i,
            forall|k: int| 0 <= k < i ==> card_ok(#[trigger] cards@[k]),
            forall|k: int| 0 <= k < i ==> #[trigger] folded@[k]@ == card_key(cards@[k]).0,
            forall|a: int, b: int|
                0 <= a < b < i ==> card_key(#[trigger] cards@[a]) != card_key(#[trigger] cards@[b]),
        decreases cards.len() - i,
    {
        let card = &cards[i];
        if is_blank(card.oracle_id.as_str()) || is_blank(card.display_name.as_str())
            || card.quantity == 0 || card.quantity > MAX_CARD_QUANTITY || is_blank(
            card.zone.as_str(),
        ) || contains_control(card.oracle_id.as_str()) || contains_control(
            card.display_name.as_str(),
        ) {
            proof {
                assert(!card_ok(cards@[i as int]));
            }
            return Err(RepoError::InvalidRequest);
        }
        let normal = nfkc(card.oracle_id.as_str());
        let key = case_fold(normal.as_str());
        let mut j: usize = 0;
        while j < i
            invariant
                i < cards@.len(),
                j <= i,
                folded@.len() == i,
                *card == cards@[i as int],
                key@ == card_key(cards@[i as int]).0,
                forall|k: int| 0 <= k < i ==> #[trigger] folded@[k]@ == card_key(cards@[k]).0,
                forall|k: int| 0 <= k < j ==> card_key(#[trigger] cards@[k]) != card_key(cards@[i as int]),
            decreases i - j,
        {
            if str_eq(folded[j].as_str(), key.as_str()) && str_eq(
                cards[j].zone.as_str(),
                card.zone.as_str(),
            ) {
                proof {
                    assert(card_key(cards@[j as int]) == card_key(cards@[i as int]));
                }
                return Err(RepoError::InvalidRequest);
            }
            j = j + 1;
        }
        folded.push(key);
        i = i + 1;
    }
    if complete && cards.len() == 0 {
        return Err(RepoError::InvalidRequest);
    }
    Ok(())
}

/// One length-prefixed segment: the decimal count of characters, `:`, the
/// text.
pub open spec fn segment(part: Seq<char>) -> Seq<char> {
    decimal(part.len()) + seq![':'] + part
}

pub open spec fn segments(parts: Seq<Seq<char>>) -> Seq<char>
    decreases parts.len(),
{
    if parts.len() == 0 {
        Seq::empty()
    } else {
        segment(parts[0]) + segments(parts.drop_first())
    }
}

pub open spec fn nfkc_all(parts: Seq<Seq<char>>) -> Seq<Seq<char>> {
    parts.map_values(|p: Seq<char>| nfkc_of(p))
}

/// The source identity key of `parts`: a version marker and each part, after
/// NFKC, as a length-prefixed segment.
pub open spec fn source_key_of(parts: Seq<Seq<char>>) -> Seq<char> {
    "source-v1:"@ + segments(nfkc_all(parts))
}

pub open spec fn source_parts_ok(parts: Seq<Seq<char>>) -> bool {
    parts.len() > 0 && forall|i: int| 0 <= i < parts.len() ==> #[trigger] parts[i].len() > 0
}

proof fn lemma_segments_push(parts: Seq<Seq<char>>, x: Seq<char>)
    ensures
        segments(parts.push(x)) == segments(parts) + segment(x),
    decreases parts.len(),
{
    if parts.len() == 0 {
        assert(parts.push(x).drop_first() =~= Seq::<Seq<char>>::empty());
        assert(parts.push(x)[0] == x);
        assert(segments(Seq::<Seq<char>>::empty()) == Seq::<char>::empty());
        assert(segments(parts) == Seq::<char>::empty());
        assert(segments(parts.push(x)) =~= segment(x) + Seq::<char>::empty());
        assert(segments(parts.push(x)) =~= segments(parts) + segment(x));
    } else {
        assert(parts.push(x).drop_first() =~= parts.drop_first().push(x));
        lemma_segments_push(parts.drop_first(), x);
        assert(segments(parts.push(x)) =~= segments(parts) + segment(x));
    }
}

proof fn lemma_segments_injective(a: Seq<Seq<char>>, b: Seq<Seq<char>>)
    requires
        segments(a) == segments(b),
    ensures
        a == b,
    decreases a.len(),
{
    if a.len() == 0 {
        if b.len() > 0 {
            lemma_decimal_digits(b[0].len());
        }
        assert(a =~= b);
    } else if b.len() == 0 {
        lemma_decimal_digits(a[0].len());
    } else {
        let e = segments(a);
        let da = decimal(a[0].len());
        let db = decimal(b[0].len());
        lemma_decimal_digits(a[0].len());
        lemma_decimal_digits(b[0].len());
        assert(e == segment(a[0]) + segments(a.drop_first()));
        assert(e == segment(b[0]) + segments(b.drop_first()));
        assert(e[da.len() as int] == ':');
        assert(e[db.len() as int] == ':');
        if da.len() < db.len() {
            assert(e[da.len() as int] == db[da.len() as int]);
            assert(is_digit(db[da.len() as int]));
        }
        if db.len() < da.len() {
            assert(e[db.len() as int] == da[db.len() as int]);
            assert(is_digit(da[db.len() as int]));
        }
        assert(da.len() == db.len());
        assert(da =~= e.subrange(0, da.len() as int));
        assert(db =~= e.subrange(0, db.len() as int));
        assert(a[0].len() == b[0].len());
        let n = a[0].len() as int;
        let start = da.len() as int + 1;
        assert(a[0] =~= e.subrange(start, start + n));
        assert(b[0] =~= e.subrange(start, start + n));
        assert(segments(a.drop_first()) =~= e.subrange(start + n, e.len() as int));
        assert(segments(b.drop_first()) =~= e.subrange(start + n, e.len() as int));
        lemma_segments_injective(a.drop_first(), b.drop_first());
        assert(a =~= seq![a[0]] + a.drop_first());
        assert(b =~= seq![b[0]] + b.drop_first());
    }
}

/// Length-prefixed keys are unambiguous: equal keys come from the same
/// sequence of normalized parts (`a|bc` and `ab|c` never collide).
pub proof fn law_source_keys_are_unambiguous(a: Seq<Seq<char>>, b: Seq<Seq<char>>)
    requires
        source_key_of(a) == source_key_of(b),
    ensures
        nfkc_all(a) == nfkc_all(b),
{
    let p = "source-v1:"@;
    assert(segments(nfkc_all(a)) =~= source_key_of(a).subrange(p.len() as int, source_key_of(a).len() as int));
    assert(segments(nfkc_all(b)) =~= source_key_of(b).subrange(p.len() as int, source_key_of(b).len() as int));
    lemma_segments_injective(nfkc_all(a), nfkc_all(b));
}

pub open spec fn str_views(parts: Seq<&str>) -> Seq<Seq<char>> {
    parts.map_values(|p: &str| p@)
}

/// Encodes source identity as length-prefixed segments after a version
/// marker. Refuses no parts and empty parts.
pub fn canonical_source_key(parts: &[&str]) -> (r: Result<String, RepoError>)
    ensures
        source_parts_ok(str_views(parts@)) ==> (r matches Ok(k) && k@ == source_key_of(
            str_views(parts@),
        )),
        !source_parts_ok(str_views(parts@)) ==> r == Err::<String, RepoError>(
            RepoError::InvalidRequest,
        ),
{
    let ghost views = str_views(parts@);
    if parts.len() == 0 {
        return Err(RepoError::InvalidRequest);
    }
    let mut i: usize = 0;
    while i < parts.len()
        invariant
            i <= parts@.len(),
            views == str_views(parts@),
            forall|j: int| 0 <= j < i ==> #[trigger] views[j].len() > 0,
        decreases parts.len() - i,
    {
        if parts[i].is_empty() {
            assert(views[i as int].len() == 0);
            return Err(RepoError::InvalidRequest);
        }
        i = i + 1;
    }
    let mut key = copy_string("source-v1:");
    let mut k: usize = 0;
    while k < parts.len()
        invariant
            k <= parts@.len(),
            views == str_views(parts@),
            key@ == "source-v1:"@ + segments(nfkc_all(views.take(k as int))),
        decreases parts.len() - k,
    {
        let normalized = nfkc(parts[k]);
        let length = char_count(normalized.as_str());
        let digits = decimal_string(length);
        proof {
            let before = nfkc_all(views.take(k as int));
            assert(nfkc_all(views.take(k + 1)) =~= before.push(nfkc_of(views[k as int])));
            lemma_segments_push(before, nfkc_of(views[k as int]));
        }
        key.append(digits.as_str());
        push_char(&mut key, ':');
        key.append(normalized.as_str());
        proof {
            assert(key@ =~= "source-v1:"@ + segments(nfkc_all(views.take(k + 1))));
        }
        k = k + 1;
    }
    assert(views.take(parts@.len() as int) =~= views);
    Ok(key)
}

pub open spec fn census_parts(
    catalog_id: Seq<char>,
    start_date: Seq<char>,
    as_of_date: Seq<char>,
    nickname: Seq<char>,
) -> Seq<Seq<char>> {
    seq!["census_mocs"@, catalog_id, start_date, as_of_date, nickname_key(trimmed(nickname))]
}

/// The source key of a MOCS leaderboard row within its approved scope.
pub fn census_source_key(
    catalog_id: &str,
    start_date: &str,
    as_of_date: &str,
    source_nickname: &str,
) -> (r: Result<String, RepoError>)
    ensures
        !nickname_valid(source_nickname@) ==> r == Err::<String, RepoError>(
            RepoError::InvalidRequest,
        ),
        nickname_valid(source_nickname@) ==> ({
            let parts = census_parts(catalog_id@, start_date@, as_of_date@, source_nickname@);
            if source_parts_ok(parts) {
                r matches Ok(k) && k@ == source_key_of(parts)
            } else {
                r == Err::<String, RepoError>(RepoError::InvalidRequest)
            }
        }),
{
    let nickname = normalize_player_nickname_key(source_nickname)?;
    let mut parts: Vec<&str> = Vec::new();
    parts.push("census_mocs");
    parts.push(catalog_id);
    parts.push(start_date);
    parts.push(as_of_date);
    parts.push(nickname.as_str());
    proof {
        assert(str_views(parts@) =~= census_parts(catalog_id@, start_date@, as_of_date@, source_nickname@));
    }
    canonical_source_key(parts.as_slice())
}

pub open spec fn official_parts(canonical_url: Seq<char>, nickname: Seq<char>) -> Seq<Seq<char>> {
    seq!["official_published_decklist"@, canonical_url, nickname_key(trimmed(nickname))]
}

/// The source key of an official published decklist.
pub fn official_source_key(canonical_url: &str, source_nickname: &str) -> (r: Result<
    String,
    RepoError,
>)
    ensures
        !nickname_valid(source_nickname@) ==> r == Err::<String, RepoError>(
            RepoError::InvalidRequest,
        ),
        nickname_valid(source_nickname@) ==> ({
            let parts = official_parts(canonical_url@, source_nickname@);
            if source_parts_ok(parts) {
                r matches Ok(k) && k@ == source_key_of(parts)
            } else {
                r == Err::<String, RepoError>(RepoError::InvalidRequest)
            }
        }),
{
    let nickname = normalize_player_nickname_key(source_nickname)?;
    let mut parts: Vec<&str> = Vec::new();
    parts.push("official_published_decklist");
    parts.push(canonical_url);
    parts.push(nickname.as_str());
    proof {
        assert(str_views(parts@) =~= official_parts(canonical_url@, source_nickname@));
    }
    canonical_source_key(parts.as_slice())
}

/// The digest bound to a canonical JSON text: SHA-256 over the
/// canonicalization version, a zero byte and the JSON's UTF-8 bytes, in
/// lower-case hex.
pub open spec fn canonical_digest_of(json_bytes: Seq<u8>) -> Seq<char> {
    hex_of(sha256_of(CANONICALIZATION_VERSION.spec_bytes() + seq![0u8] + json_bytes))
}

pub fn canonical_digest_of_json(canonical_json: &str) -> (r: String)
    ensures
        r@ == canonical_digest_of(canonical_json.spec_bytes()),
{
    let mut input: Vec<u8> = Vec::new();
    let version = CANONICALIZATION_VERSION.as_bytes();
    let mut i: usize = 0;
    while i < version.len()
        invariant
            i <= version@.len(),
            input@ == version@.take(i as int),
        decreases version.len() - i,
    {
        input.push(version[i]);
        i = i + 1;
        assert(input@ =~= version@.take(i as int));
    }
    input.push(0u8);
    let body = canonical_json.as_bytes();
    let mut j: usize = 0;
    let ghost head = input@;
    while j < body.len()
        invariant
            j <= body@.len(),
            input@ == head + body@.take(j as int),
        decreases body.len() - j,
    {
        input.push(body[j]);
        j = j + 1;
        assert(input@ =~= head + body@.take(j as int));
    }
    proof {
        assert(version@.take(version@.len() as int) =~= version@);
        assert(body@.take(body@.len() as int) =~= body@);
        assert(input@ =~= CANONICALIZATION_VERSION.spec_bytes() + seq![0u8] + canonical_json.spec_bytes());
    }
    let digest = sha256(input.as_slice());
    hex_encode(digest.as_slice())
}

/// The digest of a JSON value: that of its canonical text, so the order in
/// which an object's members were written does not matter but every value
/// does. Fails, as the canonical text does, on a value that is not well formed.
pub fn canonical_digest(value: &JsonValue) -> (r: Result<String, RepoError>)
    ensures
        r is Ok <==> json_wf(*value),
        r matches Ok(d) ==> d@ == canonical_digest_of(vstd::utf8::encode_utf8(canonical_text(*value))),
        r matches Err(e) ==> e == RepoError::InvalidRequest,
{
    match canonical_json(value) {
        Ok(text) => Ok(canonical_digest_of_json(text.as_str())),
        Err(e) => Err(e),
    }
}

/// The digest of a source's payload.
pub fn source_digest(payload: &JsonValue) -> (r: Result<String, RepoError>)
    ensures
        r is Ok <==> json_wf(*payload),
        r matches Ok(d) ==> d@ == canonical_digest_of(vstd::utf8::encode_utf8(canonical_text(*payload))),
        r matches Err(e) ==> e == RepoError::InvalidRequest,
{
    canonical_digest(payload)
}

/// The digest of a preview's envelope.
pub fn preview_digest(envelope: &JsonValue) -> (r: Result<String, RepoError>)
    ensures
        r is Ok <==> json_wf(*envelope),
        r matches Ok(d) ==> d@ == canonical_digest_of(vstd::utf8::encode_utf8(canonical_text(*envelope))),
        r matches Err(e) ==> e == RepoError::InvalidRequest,
{
    canonical_digest(envelope)
}

} // verus!
