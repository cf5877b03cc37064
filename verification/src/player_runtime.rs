//! The public-results lookup runtime: command admission, provider mode and
//! consent bindings, the single fenced lookup session, completion into
//! previews, replay by operation key, and manual preview bindings.
use vstd::prelude::*;

use crate::canonical::write_quoted;
use crate::domain::{InternalPhase, Revision, UtcMillis};
use crate::ipc::CallerIdentity;
use crate::keyed::KeyedMap;
use crate::player_census::{
    exact_matches, matching_rows, ApprovedCensusScope, CensusProviderMode, LeaderboardRow,
    PlayerProviderError, ValidatedLeaderboard, MAX_PREVIEWS,
};
use crate::player_models::{
    canonical_digest_of, canonical_digest_of_json, census_parts, census_source_key, nickname_key,
    nickname_valid, source_key_of, source_parts_ok, PlayerId, PlayerOperationKey,
    PlayerPreviewToken, PlayerSourceRoute,
};
use crate::text::{
    copy_string, decimal, decimal_u64, is_blank, is_digest, is_digest_text, push_char, str_eq,
    trimmed,
};
use crate::unicode::{nfc, nfc_of};
use vstd::std_specs::convert::FromSpecImpl;
use vstd::utf8::encode_utf8;

verus! {

pub const SESSION_TTL_MILLIS: i64 = 900000;

pub const MAX_COMMAND_PAYLOAD_BYTES: usize = 262144;

pub const MAX_AUDIT_ENTRIES: usize = 100;

/// How long after a lookup the next one waits.
pub const LOOKUP_COOLDOWN_MILLIS: i64 = 60000;

#[derive(Clone, Copy, Debug, PartialEq, Eq, Structural)]
pub enum PlayerErrorCode {
    ConsentRequired,
    ProviderDisabled,
    ProviderConfigurationInvalid,
    ProviderConfigurationExpired,
    DisclosureRestricted,
    CapabilityDenied,
    PlayerIdentityRequired,
    IdentityRevisionConflict,
    LookupInProgress,
    LookupCooldown,
    InvalidRequest,
    PayloadTooLarge,
    LookupTimeout,
    ProviderRateLimited,
    ProviderUnavailable,
    ProviderInvalidResponse,
    ResponseTooLarge,
    UnsafeSource,
    ManualEvidenceInvalid,
    LookupSessionStale,
    PreviewExpired,
    PreviewMismatch,
    BrowserOpenFailed,
}

/// What the user can do about an error.
#[derive(Clone, Copy, Debug, PartialEq, Eq, Structural)]
pub enum PlayerRecovery {
    NoAction,
    Retry,
    ReviewConsent,
    SaveIdentity,
    Wait,
}

/// A redacted error: a code, a recovery hint and, for cooldowns, when to
/// retry. It never carries a nickname or a token.
#[derive(Clone, Copy, Debug, PartialEq, Eq, Structural)]
pub struct PlayerError {
    pub code: PlayerErrorCode,
    pub recovery: PlayerRecovery,
    pub retry_at: Option<UtcMillis>,
}

pub open spec fn err(code: PlayerErrorCode, recovery: PlayerRecovery) -> PlayerError {
    PlayerError { code, recovery, retry_at: None }
}

impl PlayerError {
    pub fn new(code: PlayerErrorCode, recovery: PlayerRecovery) -> (r: Self)
        ensures
            r == err(code, recovery),
    {
        PlayerError { code, recovery, retry_at: None }
    }

    pub fn with_retry_at(self, retry_at: UtcMillis) -> (r: Self)
        ensures
            r == (PlayerError { retry_at: Some(retry_at), ..self }),
    {
        PlayerError { retry_at: Some(retry_at), ..self }
    }
}

/// The player-facing error for a provider failure.
pub open spec fn provider_player_error(e: PlayerProviderError) -> PlayerError {
    match e {
        PlayerProviderError::ProviderDisabled => err(
            PlayerErrorCode::ProviderDisabled,
            PlayerRecovery::NoAction,
        ),
        PlayerProviderError::ConfigurationInvalid => err(
            PlayerErrorCode::ProviderConfigurationInvalid,
            PlayerRecovery::ReviewConsent,
        ),
        PlayerProviderError::ConfigurationExpired => err(
            PlayerErrorCode::ProviderConfigurationExpired,
            PlayerRecovery::NoAction,
        ),
        PlayerProviderError::InvalidResponse => err(
            PlayerErrorCode::ProviderInvalidResponse,
            PlayerRecovery::Retry,
        ),
        PlayerProviderError::ResponseTooLarge => err(
            PlayerErrorCode::ResponseTooLarge,
            PlayerRecovery::Retry,
        ),
        PlayerProviderError::Timeout => err(PlayerErrorCode::LookupTimeout, PlayerRecovery::Retry),
        PlayerProviderError::RateLimited => err(
            PlayerErrorCode::ProviderRateLimited,
            PlayerRecovery::Wait,
        ),
        PlayerProviderError::Unavailable => err(
            PlayerErrorCode::ProviderUnavailable,
            PlayerRecovery::Retry,
        ),
    }
}

impl From<PlayerProviderError> for PlayerError {
    fn from(error: PlayerProviderError) -> (r: Self) {
        let (code, recovery) = match error {
            PlayerProviderError::ProviderDisabled => (
                PlayerErrorCode::ProviderDisabled,
                PlayerRecovery::NoAction,
            ),
            PlayerProviderError::ConfigurationInvalid => (
                PlayerErrorCode::ProviderConfigurationInvalid,
                PlayerRecovery::ReviewConsent,
            ),
            PlayerProviderError::ConfigurationExpired => (
                PlayerErrorCode::ProviderConfigurationExpired,
                PlayerRecovery::NoAction,
            ),
            PlayerProviderError::InvalidResponse => (
                PlayerErrorCode::ProviderInvalidResponse,
                PlayerRecovery::Retry,
            ),
            PlayerProviderError::ResponseTooLarge => (
                PlayerErrorCode::ResponseTooLarge,
                PlayerRecovery::Retry,
            ),
            PlayerProviderError::Timeout => (PlayerErrorCode::LookupTimeout, PlayerRecovery::Retry),
            PlayerProviderError::RateLimited => (
                PlayerErrorCode::ProviderRateLimited,
                PlayerRecovery::Wait,
            ),
            PlayerProviderError::Unavailable => (
                PlayerErrorCode::ProviderUnavailable,
                PlayerRecovery::Retry,
            ),
        };
        PlayerError::new(code, recovery)
    }
}

impl FromSpecImpl<PlayerProviderError> for PlayerError {
    open spec fn obeys_from_spec() -> bool {
        true
    }

    open spec fn from_spec(v: PlayerProviderError) -> PlayerError {
        provider_player_error(v)
    }
}

fn from_provider(error: PlayerProviderError) -> (r: PlayerError)
    ensures
        r == provider_player_error(error),
{
    PlayerError::from(error)
}

#[derive(Clone, Copy, Debug, PartialEq, Eq, Structural)]
pub enum ProviderAvailability {
    Disabled,
    Ready,
    Invalid,
    Expired,
    Cooldown,
    Busy,
    Unavailable,
}

#[derive(Debug, PartialEq, Eq)]
pub struct PlayerProviderStatus {
    pub route: PlayerSourceRoute,
    pub availability: ProviderAvailability,
    pub consent_granted: bool,
    pub disclosure_version: Option<String>,
    pub retry_at: Option<UtcMillis>,
}

#[derive(Clone, Copy, Debug, PartialEq, Eq, Structural)]
pub enum PlayerCommandKind {
    Status,
    Cancel,
    RevokeConsent,
    GrantConsent,
    Lookup,
    Refresh,
    ManualPreview,
    Import,
    Selection,
    BrowserHandoff,
}

impl PlayerCommandKind {
    /// Commands that disclose or fetch player data, which wait for a phase
    /// without visible gameplay.
    pub open spec fn spec_requires_outside_gameplay(self) -> bool {
        !(self is Status || self is Cancel || self is RevokeConsent)
    }

    fn requires_outside_gameplay(self) -> (r: bool)
        ensures
            r == self.spec_requires_outside_gameplay(),
    {
        !matches!(self, PlayerCommandKind::Status | PlayerCommandKind::Cancel | PlayerCommandKind::RevokeConsent)
    }
}

pub open spec fn outside_gameplay(phase: InternalPhase) -> bool {
    phase is Idle || phase is PreMatch || phase is BetweenGames || phase is Finished
}

/// Why a command is refused at the door, if it is: only the main window,
/// bounded payloads, and disclosing commands only outside gameplay.
pub open spec fn admission_error(
    caller: CallerIdentity,
    phase: InternalPhase,
    command: PlayerCommandKind,
    payload_bytes: usize,
) -> Option<PlayerError> {
    if caller != CallerIdentity::Main {
        Some(err(PlayerErrorCode::CapabilityDenied, PlayerRecovery::NoAction))
    } else if payload_bytes > MAX_COMMAND_PAYLOAD_BYTES {
        Some(err(PlayerErrorCode::PayloadTooLarge, PlayerRecovery::NoAction))
    } else if command.spec_requires_outside_gameplay() && !outside_gameplay(phase) {
        Some(err(PlayerErrorCode::DisclosureRestricted, PlayerRecovery::NoAction))
    } else {
        None
    }
}

pub fn authorize_command(
    caller: CallerIdentity,
    phase: InternalPhase,
    command: PlayerCommandKind,
    payload_bytes: usize,
) -> (r: Result<(), PlayerError>)
    ensures
        match admission_error(caller, phase, command, payload_bytes) {
            Some(e) => r == Err::<(), PlayerError>(e),
            None => r is Ok,
        },
{
    if caller != CallerIdentity::Main {
        return Err(PlayerError::new(PlayerErrorCode::CapabilityDenied, PlayerRecovery::NoAction));
    }
    if payload_bytes > MAX_COMMAND_PAYLOAD_BYTES {
        return Err(PlayerError::new(PlayerErrorCode::PayloadTooLarge, PlayerRecovery::NoAction));
    }
    if command.requires_outside_gameplay() && !matches!(
        phase,
        InternalPhase::Idle | InternalPhase::PreMatch | InternalPhase::BetweenGames
            | InternalPhase::Finished
    ) {
        return Err(PlayerError::new(PlayerErrorCode::DisclosureRestricted, PlayerRecovery::NoAction));
    }
    Ok(())
}

/// The consent a route was granted under, with its epoch.
#[derive(Debug, PartialEq, Eq)]
pub struct ConsentBinding {
    pub route: PlayerSourceRoute,
    pub disclosure_version: String,
    pub fields_digest: String,
    pub epoch: u64,
}

pub open spec fn opt_view(o: Option<String>) -> Option<Seq<char>> {
    match o {
        Some(s) => Some(s@),
        None => None,
    }
}

fn copy_opt(o: &Option<String>) -> (r: Option<String>)
    ensures
        r == *o,
{
    match o {
        Some(s) => Some(s.clone()),
        None => None,
    }
}

/// The fence of one running lookup.
#[derive(Debug, PartialEq, Eq)]
pub struct LookupSession {
    pub player_identity_id: PlayerId,
    pub identity_revision: Revision,
    pub nickname_snapshot: String,
    pub consent_epoch: u64,
    pub configuration_fingerprint: Option<String>,
    pub operation_key: PlayerOperationKey,
    pub generation: u64,
    pub expires_at: UtcMillis,
}

impl Clone for LookupSession {
    fn clone(&self) -> (r: Self)
        ensures
            r == *self,
    {
        LookupSession {
            player_identity_id: self.player_identity_id.clone(),
            identity_revision: self.identity_revision,
            nickname_snapshot: self.nickname_snapshot.clone(),
            consent_epoch: self.consent_epoch,
            configuration_fingerprint: copy_opt(&self.configuration_fingerprint),
            operation_key: self.operation_key.clone(),
            generation: self.generation,
            expires_at: self.expires_at,
        }
    }
}

/// Two sessions hold the same fence.
pub open spec fn same_session(a: LookupSession, b: LookupSession) -> bool {
    &&& a.player_identity_id@ == b.player_identity_id@
    &&& a.identity_revision == b.identity_revision
    &&& a.nickname_snapshot@ == b.nickname_snapshot@
    &&& a.consent_epoch == b.consent_epoch
    &&& opt_view(a.configuration_fingerprint) == opt_view(b.configuration_fingerprint)
    &&& a.operation_key@ == b.operation_key@
    &&& a.generation == b.generation
    &&& a.expires_at == b.expires_at
}

fn opt_str_eq(a: &Option<String>, b: &Option<String>) -> (r: bool)
    ensures
        r == (opt_view(*a) == opt_view(*b)),
{
    match (a, b) {
        (Some(x), Some(y)) => str_eq(x.as_str(), y.as_str()),
        (None, None) => true,
        _ => false,
    }
}

fn sessions_equal(a: &LookupSession, b: &LookupSession) -> (r: bool)
    ensures
        r == same_session(*a, *b),
{
    a.player_identity_id.same(&b.player_identity_id) && a.identity_revision == b.identity_revision
        && str_eq(a.nickname_snapshot.as_str(), b.nickname_snapshot.as_str()) && a.consent_epoch
        == b.consent_epoch && opt_str_eq(
        &a.configuration_fingerprint,
        &b.configuration_fingerprint,
    ) && a.operation_key.same(&b.operation_key) && a.generation == b.generation
        && a.expires_at == b.expires_at
}

/// One exact match, ready for the user to confirm.
#[derive(Debug, PartialEq, Eq)]
pub struct CandidatePreview {
    pub source_key: String,
    pub source_digest: String,
    pub preview_digest: String,
    pub lookup_nickname: String,
    pub source_nickname: String,
    /// The canonical JSON text of the provider row.
    pub payload: String,
}

impl Clone for CandidatePreview {
    fn clone(&self) -> (r: Self)
        ensures
            r == *self,
    {
        CandidatePreview {
            source_key: self.source_key.clone(),
            source_digest: self.source_digest.clone(),
            preview_digest: self.preview_digest.clone(),
            lookup_nickname: self.lookup_nickname.clone(),
            source_nickname: self.source_nickname.clone(),
            payload: self.payload.clone(),
        }
    }
}

/// A manual preview bound to the identity and session it was made for.
#[derive(Debug, PartialEq, Eq)]
pub struct ManualPreviewBinding {
    pub token: PlayerPreviewToken,
    pub player_identity_id: PlayerId,
    pub identity_revision: Revision,
    pub source_key: String,
    pub source_digest: String,
    pub preview_digest: String,
    pub operation_key: PlayerOperationKey,
    pub generation: u64,
    pub expires_at: UtcMillis,
}

impl Clone for ManualPreviewBinding {
    fn clone(&self) -> (r: Self)
        ensures
            r == *self,
    {
        ManualPreviewBinding {
            token: self.token.clone(),
            player_identity_id: self.player_identity_id.clone(),
            identity_revision: self.identity_revision,
            source_key: self.source_key.clone(),
            source_digest: self.source_digest.clone(),
            preview_digest: self.preview_digest.clone(),
            operation_key: self.operation_key.clone(),
            generation: self.generation,
            expires_at: self.expires_at,
        }
    }
}

/// A completed lookup that found no exact match: a result of its own.
#[derive(Debug, PartialEq, Eq)]
pub struct EmptyLookupResult {
    pub provider_id: String,
    pub lookup_nickname: String,
    pub exact_match_rule: String,
    pub scope: ApprovedCensusScope,
    pub provider_configuration_version: String,
    pub completed_at: UtcMillis,
    pub operation_key: PlayerOperationKey,
}

impl Clone for EmptyLookupResult {
    fn clone(&self) -> (r: Self)
        ensures
            r == *self,
    {
        EmptyLookupResult {
            provider_id: self.provider_id.clone(),
            lookup_nickname: self.lookup_nickname.clone(),
            exact_match_rule: self.exact_match_rule.clone(),
            scope: self.scope.clone(),
            provider_configuration_version: self.provider_configuration_version.clone(),
            completed_at: self.completed_at,
            operation_key: self.operation_key.clone(),
        }
    }
}

#[derive(Debug, PartialEq, Eq)]
pub enum LookupOutcome {
    Candidates(Vec<CandidatePreview>),
    Empty(EmptyLookupResult),
    Cancelled,
    Degraded(PlayerError),
}

/// Two outcomes say the same thing.
pub open spec fn same_outcome(a: LookupOutcome, b: LookupOutcome) -> bool {
    match (a, b) {
        (LookupOutcome::Candidates(x), LookupOutcome::Candidates(y)) => x@ == y@,
        (LookupOutcome::Empty(x), LookupOutcome::Empty(y)) => x == y,
        (LookupOutcome::Cancelled, LookupOutcome::Cancelled) => true,
        (LookupOutcome::Degraded(x), LookupOutcome::Degraded(y)) => x == y,
        _ => false,
    }
}

pub fn copy_outcome(o: &LookupOutcome) -> (r: LookupOutcome)
    ensures
        same_outcome(r, *o),
{
    match o {
        LookupOutcome::Candidates(items) => {
            let mut out: Vec<CandidatePreview> = Vec::new();
            let mut i: usize = 0;
            while i < items.len()
                invariant
                    i <= items@.len(),
                    out@ == items@.take(i as int),
                decreases items.len() - i,
            {
                out.push(items[i].clone());
                i = i + 1;
                assert(out@ =~= items@.take(i as int));
            }
            assert(items@.take(items@.len() as int) =~= items@);
            LookupOutcome::Candidates(out)
        },
        LookupOutcome::Empty(e) => LookupOutcome::Empty(e.clone()),
        LookupOutcome::Cancelled => LookupOutcome::Cancelled,
        LookupOutcome::Degraded(e) => LookupOutcome::Degraded(*e),
    }
}

#[derive(Debug, PartialEq, Eq)]
pub struct LookupAuditSummary {
    pub command: PlayerCommandKind,
    pub provider: Option<String>,
    pub configuration_version: Option<String>,
    pub consent_epoch: u64,
    pub generation: u64,
    pub started_at: UtcMillis,
    pub completed_at: UtcMillis,
    pub outcome_code: String,
    pub bytes: usize,
    pub rows: usize,
    pub previews: usize,
}

impl Clone for LookupAuditSummary {
    fn clone(&self) -> (r: Self)
        ensures
            r == *self,
    {
        LookupAuditSummary {
            command: self.command,
            provider: copy_opt(&self.provider),
            configuration_version: copy_opt(&self.configuration_version),
            consent_epoch: self.consent_epoch,
            generation: self.generation,
            started_at: self.started_at,
            completed_at: self.completed_at,
            outcome_code: self.outcome_code.clone(),
            bytes: self.bytes,
            rows: self.rows,
            previews: self.previews,
        }
    }
}

pub open spec fn bump(n: u64) -> u64 {
    if n == u64::MAX {
        n
    } else {
        (n + 1) as u64
    }
}

/// The source key of a leaderboard row within `scope`, when one exists.
pub open spec fn row_source_key(scope: ApprovedCensusScope, nickname: Seq<char>) -> Option<
    Seq<char>,
> {
    let parts = census_parts(scope.catalog_id@, scope.start_date@, scope.as_of_date@, nickname);
    if nickname_valid(nickname) && source_parts_ok(parts) {
        Some(source_key_of(parts))
    } else {
        None
    }
}

/// The canonical text of the preview envelope that a candidate's preview
/// digest covers (members in key order).
pub open spec fn preview_envelope(
    source_key: Seq<char>,
    source_digest: Seq<char>,
    lookup_nickname: Seq<char>,
    observed_at: nat,
    payload: Seq<char>,
) -> Seq<char> {
    "{\"lookupNickname\":"@ + crate::canonical::quoted(nfc_of(lookup_nickname))
        + ",\"observedAt\":"@ + decimal(observed_at) + ",\"payload\":"@ + payload
        + ",\"sourceDigest\":"@ + crate::canonical::quoted(nfc_of(source_digest))
        + ",\"sourceKey\":"@ + crate::canonical::quoted(nfc_of(source_key)) + seq!['}']
}

/// `c` previews `row`, found for `nickname` in `scope` at `now`.
pub open spec fn candidate_built(
    c: CandidatePreview,
    row: LeaderboardRow,
    scope: ApprovedCensusScope,
    nickname: Seq<char>,
    now: UtcMillis,
) -> bool {
    &&& row_source_key(scope, row.nickname@) == Some(c.source_key@)
    &&& c.source_digest@ == canonical_digest_of(encode_utf8(row.payload@))
    &&& c.preview_digest@ == canonical_digest_of(
        encode_utf8(
            preview_envelope(
                c.source_key@,
                c.source_digest@,
                nickname,
                now.0 as nat,
                row.payload@,
            ),
        ),
    )
    &&& c.lookup_nickname@ == nickname
    &&& c.source_nickname@ == row.nickname@
    &&& c.payload@ == row.payload@
}

/// The canonical envelope text that a preview digest covers.
pub fn preview_envelope_text(
    source_key: &str,
    source_digest: &str,
    lookup_nickname: &str,
    observed_at: i64,
    payload: &str,
) -> (r: String)
    requires
        observed_at >= 0,
    ensures
        r@ == preview_envelope(
            source_key@,
            source_digest@,
            lookup_nickname@,
            observed_at as nat,
            payload@,
        ),
{
    let mut out = copy_string("{\"lookupNickname\":");
    let nick = nfc(lookup_nickname);
    write_quoted(&mut out, nick.as_str());
    out.append(",\"observedAt\":");
    let digits = decimal_u64(observed_at as u64);
    out.append(digits.as_str());
    out.append(",\"payload\":");
    out.append(payload);
    out.append(",\"sourceDigest\":");
    let digest = nfc(source_digest);
    write_quoted(&mut out, digest.as_str());
    out.append(",\"sourceKey\":");
    let key = nfc(source_key);
    write_quoted(&mut out, key.as_str());
    push_char(&mut out, '}');
    out
}

fn build_candidate(
    row: &LeaderboardRow,
    scope: &ApprovedCensusScope,
    nickname: &str,
    now: UtcMillis,
) -> (r: Option<CandidatePreview>)
    requires
        now.0 >= 0,
    ensures
        row_source_key(*scope, row.nickname@) is None ==> r is None,
        row_source_key(*scope, row.nickname@) is Some ==> (r matches Some(c) && candidate_built(
            c,
            *row,
            *scope,
            nickname@,
            now,
        )),
{
    let source_key = match census_source_key(
        scope.catalog_id.as_str(),
        scope.start_date.as_str(),
        scope.as_of_date.as_str(),
        row.nickname.as_str(),
    ) {
        Ok(key) => key,
        Err(_) => {
            return None;
        },
    };
    let source_digest = canonical_digest_of_json(row.payload.as_str());
    let envelope = preview_envelope_text(
        source_key.as_str(),
        source_digest.as_str(),
        nickname,
        now.get(),
        row.payload.as_str(),
    );
    let preview_digest = canonical_digest_of_json(envelope.as_str());
    Some(
        CandidatePreview {
            source_key,
            source_digest,
            preview_digest,
            lookup_nickname: copy_string(nickname),
            source_nickname: row.nickname.clone(),
            payload: row.payload.clone(),
        },
    )
}

/// The per-route consent bindings.
pub struct RouteConsents {
    pub census_mocs: Option<ConsentBinding>,
    pub official_mtgo_browser: Option<ConsentBinding>,
    pub mtg_top8_browser: Option<ConsentBinding>,
}

impl RouteConsents {
    pub open spec fn at(&self, route: PlayerSourceRoute) -> Option<ConsentBinding> {
        match route {
            PlayerSourceRoute::CensusMocs => self.census_mocs,
            PlayerSourceRoute::OfficialMtgoBrowser => self.official_mtgo_browser,
            PlayerSourceRoute::MtgTop8Browser => self.mtg_top8_browser,
        }
    }

    fn get(&self, route: PlayerSourceRoute) -> (r: &Option<ConsentBinding>)
        ensures
            *r == self.at(route),
    {
        match route {
            PlayerSourceRoute::CensusMocs => &self.census_mocs,
            PlayerSourceRoute::OfficialMtgoBrowser => &self.official_mtgo_browser,
            PlayerSourceRoute::MtgTop8Browser => &self.mtg_top8_browser,
        }
    }

    fn set(&mut self, route: PlayerSourceRoute, value: Option<ConsentBinding>)
        ensures
            final(self).at(route) == value,
            forall|other: PlayerSourceRoute| other != route ==> final(self).at(other) == old(
                self,
            ).at(other),
    {
        match route {
            PlayerSourceRoute::CensusMocs => {
                self.census_mocs = value;
            },
            PlayerSourceRoute::OfficialMtgoBrowser => {
                self.official_mtgo_browser = value;
            },
            PlayerSourceRoute::MtgTop8Browser => {
                self.mtg_top8_browser = value;
            },
        }
    }
}

/// The state of the public-results runtime.
pub struct PlayerPublicResultsRuntime {
    pub provider_mode: CensusProviderMode,
    pub configuration_version: Option<String>,
    pub configuration_fingerprint: Option<String>,
    pub configuration_expires_at: Option<UtcMillis>,
    pub scope: Option<ApprovedCensusScope>,
    pub consents: RouteConsents,
    pub active: Option<LookupSession>,
    pub generation: u64,
    pub last_lookup_at: Option<UtcMillis>,
    pub provider_retry_at: Option<UtcMillis>,
    pub audit: Vec<LookupAuditSummary>,
    pub ephemeral_replay: KeyedMap<LookupOutcome>,
    pub manual_previews: KeyedMap<ManualPreviewBinding>,
}

/// Whether a lookup started at `last` still cools down at `now`.
pub open spec fn cooling(last: Option<UtcMillis>, retry: Option<UtcMillis>, now: UtcMillis) -> bool {
    ||| last matches Some(l) && now.0 < l.0 + LOOKUP_COOLDOWN_MILLIS
    ||| retry matches Some(r) && now.0 < r.0
}

/// Everything but the session, the generation, the last lookup time and
/// the ephemeral maps is as before.
pub open spec fn same_configuration(
    a: PlayerPublicResultsRuntime,
    b: PlayerPublicResultsRuntime,
) -> bool {
    &&& a.provider_mode == b.provider_mode
    &&& a.configuration_version == b.configuration_version
    &&& a.configuration_fingerprint == b.configuration_fingerprint
    &&& a.configuration_expires_at == b.configuration_expires_at
    &&& a.scope == b.scope
    &&& a.consents == b.consents
    &&& a.provider_retry_at == b.provider_retry_at
    &&& a.audit@ == b.audit@
}

impl PlayerPublicResultsRuntime {
    pub open spec fn wf(&self) -> bool {
        &&& self.ephemeral_replay.wf()
        &&& self.manual_previews.wf()
        &&& (self.last_lookup_at matches Some(l) ==> l.0 >= 0 && l.0 + LOOKUP_COOLDOWN_MILLIS
            <= i64::MAX)
    }

    /// Disabled, with no consent, session or preview.
    pub fn new() -> (r: Self)
        ensures
            r.wf(),
            r.provider_mode == CensusProviderMode::Disabled,
            r.configuration_version is None,
            r.configuration_fingerprint is None,
            r.configuration_expires_at is None,
            r.scope is None,
            r.consents.at(PlayerSourceRoute::CensusMocs) is None,
            r.consents.at(PlayerSourceRoute::OfficialMtgoBrowser) is None,
            r.consents.at(PlayerSourceRoute::MtgTop8Browser) is None,
            r.active is None,
            r.generation == 0,
            r.last_lookup_at is None,
            r.provider_retry_at is None,
            r.audit@.len() == 0,
            r.ephemeral_replay.map().is_empty(),
            r.manual_previews.map().is_empty(),
    {
        let r = PlayerPublicResultsRuntime {
            provider_mode: CensusProviderMode::Disabled,
            configuration_version: None,
            configuration_fingerprint: None,
            configuration_expires_at: None,
            scope: None,
            consents: RouteConsents {
                census_mocs: None,
                official_mtgo_browser: None,
                mtg_top8_browser: None,
            },
            active: None,
            generation: 0,
            last_lookup_at: None,
            provider_retry_at: None,
            audit: Vec::new(),
            ephemeral_replay: KeyedMap::new(),
            manual_previews: KeyedMap::new(),
        };
        r
    }

    /// Installs a provider mode and configuration, ending any session and
    /// forgetting every ephemeral outcome and preview.
    pub fn set_provider_mode(
        &mut self,
        mode: CensusProviderMode,
        version: Option<String>,
        fingerprint: Option<String>,
        expires_at: Option<UtcMillis>,
        scope: Option<ApprovedCensusScope>,
    ) -> (r: Result<(), PlayerError>)
        requires
            old(self).wf(),
        ensures
            r is Ok,
            final(self).wf(),
            final(self).provider_mode == mode,
            final(self).configuration_version == version,
            final(self).configuration_fingerprint == fingerprint,
            final(self).configuration_expires_at == expires_at,
            final(self).scope == scope,
            final(self).consents == old(self).consents,
            final(self).generation == bump(old(self).generation),
            final(self).active is None,
            final(self).last_lookup_at == old(self).last_lookup_at,
            final(self).provider_retry_at == old(self).provider_retry_at,
            final(self).audit@ == old(self).audit@,
            final(self).ephemeral_replay.map().is_empty(),
            final(self).manual_previews.map().is_empty(),
    {
        self.provider_mode = mode;
        self.configuration_version = version;
        self.configuration_fingerprint = fingerprint;
        self.configuration_expires_at = expires_at;
        self.scope = scope;
        self.generation = if self.generation == u64::MAX {
            self.generation
        } else {
            self.generation + 1
        };
        self.active = None;
        self.ephemeral_replay.clear();
        self.manual_previews.clear();
        Ok(())
    }

    /// Records consent for `route` under a disclosure version and the digest
    /// of the disclosed fields; a renewed consent gets the next epoch.
    pub fn grant_consent(
        &mut self,
        route: PlayerSourceRoute,
        disclosure_version: String,
        fields_digest: String,
    ) -> (r: Result<(), PlayerError>)
        requires
            old(self).wf(),
        ensures
            final(self).wf(),
            trimmed(disclosure_version@).len() == 0 || !is_digest_text(fields_digest@) ==> r
                == Err::<(), PlayerError>(
                err(PlayerErrorCode::InvalidRequest, PlayerRecovery::NoAction),
            ) && *final(self) == *old(self),
            !(trimmed(disclosure_version@).len() == 0 || !is_digest_text(fields_digest@)) ==> {
                &&& r is Ok
                &&& final(self).consents.at(route) == Some(
                    ConsentBinding {
                        route,
                        disclosure_version,
                        fields_digest,
                        epoch: match old(self).consents.at(route) {
                            Some(b) => bump(b.epoch),
                            None => 1,
                        },
                    },
                )
                &&& forall|other: PlayerSourceRoute|
                    other != route ==> final(self).consents.at(other) == old(self).consents.at(
                        other,
                    )
                &&& *final(self) == (PlayerPublicResultsRuntime { consents: final(self).consents, ..*old(self) })
            },
    {
        if is_blank(disclosure_version.as_str()) || !is_digest(fields_digest.as_str()) {
            return Err(PlayerError::new(PlayerErrorCode::InvalidRequest, PlayerRecovery::NoAction));
        }
        let epoch = match self.consents.get(route) {
            Some(binding) => if binding.epoch == u64::MAX {
                binding.epoch
            } else {
                binding.epoch + 1
            },
            None => 1,
        };
        self.consents.set(
            route,
            Some(ConsentBinding { route, disclosure_version, fields_digest, epoch }),
        );
        Ok(())
    }

    /// Withdraws consent for `route`, ending any session and forgetting
    /// every ephemeral outcome and preview.
    pub fn revoke_consent(&mut self, route: &PlayerSourceRoute) -> (r: Result<(), PlayerError>)
        requires
            old(self).wf(),
        ensures
            r is Ok,
            final(self).wf(),
            final(self).consents.at(*route) is None,
            forall|other: PlayerSourceRoute|
                other != *route ==> final(self).consents.at(other) == old(self).consents.at(other),
            final(self).generation == bump(old(self).generation),
            final(self).active is None,
            final(self).ephemeral_replay.map().is_empty(),
            final(self).manual_previews.map().is_empty(),
            final(self).provider_mode == old(self).provider_mode,
            final(self).scope == old(self).scope,
            final(self).last_lookup_at == old(self).last_lookup_at,
    {
        self.consents.set(*route, None);
        self.generation = if self.generation == u64::MAX {
            self.generation
        } else {
            self.generation + 1
        };
        self.active = None;
        self.ephemeral_replay.clear();
        self.manual_previews.clear();
        Ok(())
    }

    /// The availability of `route` at `now`.
    pub open spec fn availability_at(&self, route: PlayerSourceRoute, now: UtcMillis) -> ProviderAvailability {
        if route == PlayerSourceRoute::CensusMocs {
            if self.provider_mode == CensusProviderMode::Disabled {
                ProviderAvailability::Disabled
            } else if self.configuration_expires_at matches Some(e) && e.0 <= now.0 {
                ProviderAvailability::Expired
            } else if self.configuration_fingerprint is None {
                ProviderAvailability::Invalid
            } else if self.active is Some {
                ProviderAvailability::Busy
            } else if self.last_lookup_at is Some && self.provider_retry_at is Some && cooling(
                self.last_lookup_at,
                self.provider_retry_at,
                now,
            ) {
                ProviderAvailability::Cooldown
            } else {
                ProviderAvailability::Ready
            }
        } else {
            ProviderAvailability::Ready
        }
    }

    pub open spec fn status_matches(&self, s: PlayerProviderStatus, route: PlayerSourceRoute, now: UtcMillis) -> bool {
        &&& s.route == route
        &&& s.availability == self.availability_at(route, now)
        &&& s.consent_granted == (self.consents.at(route) is Some)
        &&& opt_view(s.disclosure_version) == match self.consents.at(route) {
            Some(b) => Some(b.disclosure_version@),
            None => None,
        }
        &&& s.retry_at == self.provider_retry_at
    }

    /// The status of `route` as it stands at `now`.
    pub fn status_at(&self, route: PlayerSourceRoute, now: UtcMillis) -> (r: PlayerProviderStatus)
        requires
            self.wf(),
        ensures
            self.status_matches(r, route, now),
    {
        let availability = if route == PlayerSourceRoute::CensusMocs {
            match self.provider_mode {
                CensusProviderMode::Disabled => ProviderAvailability::Disabled,
                _ => {
                    let expired = match self.configuration_expires_at {
                        Some(e) => e.get() <= now.get(),
                        None => false,
                    };
                    if expired {
                        ProviderAvailability::Expired
                    } else if self.configuration_fingerprint.is_none() {
                        ProviderAvailability::Invalid
                    } else if self.active.is_some() {
                        ProviderAvailability::Busy
                    } else {
                        let cool = match (self.last_lookup_at, self.provider_retry_at) {
                            (Some(last), Some(retry)) => now.get() < last.get()
                                + LOOKUP_COOLDOWN_MILLIS || now.get() < retry.get(),
                            _ => false,
                        };
                        if cool {
                            ProviderAvailability::Cooldown
                        } else {
                            ProviderAvailability::Ready
                        }
                    }
                },
            }
        } else {
            ProviderAvailability::Ready
        };
        let binding = self.consents.get(route);
        PlayerProviderStatus {
            route,
            availability,
            consent_granted: binding.is_some(),
            disclosure_version: match binding {
                Some(b) => Some(b.disclosure_version.clone()),
                None => None,
            },
            retry_at: self.provider_retry_at,
        }
    }

    /// The status of `route` now, by the wall clock.
    pub fn consent_status(&self, route: PlayerSourceRoute) -> (r: Result<
        PlayerProviderStatus,
        PlayerError,
    >)
        requires
            self.wf(),
        ensures
            r matches Ok(s) && exists|now: UtcMillis| now.0 >= 0 && self.status_matches(s, route, now),
    {
        let now = UtcMillis::now();
        Ok(self.status_at(route, now))
    }

    /// Why a lookup may not begin, if it may not.
    pub open spec fn begin_error(
        &self,
        caller: CallerIdentity,
        phase: InternalPhase,
        payload_bytes: usize,
        nickname: Seq<char>,
        consent_version: Seq<char>,
        consent_fields_digest: Seq<char>,
        now: UtcMillis,
    ) -> Option<PlayerError> {
        if admission_error(caller, phase, PlayerCommandKind::Lookup, payload_bytes) is Some {
            admission_error(caller, phase, PlayerCommandKind::Lookup, payload_bytes)
        } else if trimmed(nickname).len() == 0 {
            Some(err(PlayerErrorCode::PlayerIdentityRequired, PlayerRecovery::SaveIdentity))
        } else if self.active is Some {
            Some(err(PlayerErrorCode::LookupInProgress, PlayerRecovery::Wait))
        } else if self.provider_mode == CensusProviderMode::Disabled {
            Some(err(PlayerErrorCode::ProviderDisabled, PlayerRecovery::NoAction))
        } else if self.configuration_expires_at matches Some(e) && e.0 <= now.0 {
            Some(err(PlayerErrorCode::ProviderConfigurationExpired, PlayerRecovery::NoAction))
        } else if self.configuration_fingerprint is None || self.scope is None {
            Some(err(PlayerErrorCode::ProviderConfigurationInvalid, PlayerRecovery::NoAction))
        } else if cooling(self.last_lookup_at, self.provider_retry_at, now) {
            Some(
                PlayerError {
                    code: PlayerErrorCode::LookupCooldown,
                    recovery: PlayerRecovery::Wait,
                    retry_at: Some(
                        match self.provider_retry_at {
                            Some(r) => r,
                            None => match self.last_lookup_at {
                                Some(l) => UtcMillis((l.0 + LOOKUP_COOLDOWN_MILLIS) as i64),
                                None => now,
                            },
                        },
                    ),
                },
            )
        } else if !(self.consents.at(PlayerSourceRoute::CensusMocs) matches Some(b)
            && b.disclosure_version@ == consent_version && b.fields_digest@
            == consent_fields_digest) {
            Some(err(PlayerErrorCode::ConsentRequired, PlayerRecovery::ReviewConsent))
        } else {
            None
        }
    }

    /// Opens the single lookup session for a saved identity, after admission,
    /// provider, cooldown and consent checks.
    pub fn begin_lookup(
        &mut self,
        caller: CallerIdentity,
        phase: InternalPhase,
        payload_bytes: usize,
        identity_id: PlayerId,
        identity_revision: Revision,
        nickname: String,
        consent_version: &str,
        consent_fields_digest: &str,
        operation_key: PlayerOperationKey,
        now: UtcMillis,
    ) -> (r: Result<LookupSession, PlayerError>)
        requires
            old(self).wf(),
            now.0 >= 0,
            now.0 + SESSION_TTL_MILLIS <= i64::MAX,
        ensures
            final(self).wf(),
            match old(self).begin_error(
                caller,
                phase,
                payload_bytes,
                nickname@,
                consent_version@,
                consent_fields_digest@,
                now,
            ) {
                Some(e) => r == Err::<LookupSession, PlayerError>(e) && *final(self) == *old(self),
                None => {
                    let gen = bump(old(self).generation);
                    &&& r matches Ok(s) && s == (LookupSession {
                        player_identity_id: identity_id,
                        identity_revision,
                        nickname_snapshot: nickname,
                        consent_epoch: old(self).consents.at(PlayerSourceRoute::CensusMocs)->0.epoch,
                        configuration_fingerprint: old(self).configuration_fingerprint,
                        operation_key,
                        generation: gen,
                        expires_at: UtcMillis((now.0 + SESSION_TTL_MILLIS) as i64),
                    })
                    &&& final(self).active == Some(r->Ok_0)
                    &&& final(self).generation == gen
                    &&& final(self).last_lookup_at == Some(now)
                    &&& same_configuration(*final(self), *old(self))
                    &&& final(self).ephemeral_replay == old(self).ephemeral_replay
                    &&& final(self).manual_previews == old(self).manual_previews
                },
            },
    {
        authorize_command(caller, phase, PlayerCommandKind::Lookup, payload_bytes)?;
        if is_blank(nickname.as_str()) {
            return Err(
                PlayerError::new(
                    PlayerErrorCode::PlayerIdentityRequired,
                    PlayerRecovery::SaveIdentity,
                ),
            );
        }
        if self.active.is_some() {
            return Err(PlayerError::new(PlayerErrorCode::LookupInProgress, PlayerRecovery::Wait));
        }
        if self.provider_mode == CensusProviderMode::Disabled {
            return Err(PlayerError::new(PlayerErrorCode::ProviderDisabled, PlayerRecovery::NoAction));
        }
        let expired = match self.configuration_expires_at {
            Some(e) => e.get() <= now.get(),
            None => false,
        };
        if expired {
            return Err(
                PlayerError::new(
                    PlayerErrorCode::ProviderConfigurationExpired,
                    PlayerRecovery::NoAction,
                ),
            );
        }
        if self.configuration_fingerprint.is_none() || self.scope.is_none() {
            return Err(
                PlayerError::new(
                    PlayerErrorCode::ProviderConfigurationInvalid,
                    PlayerRecovery::NoAction,
                ),
            );
        }
        let recent = match self.last_lookup_at {
            Some(last) => now.get() < last.get() + LOOKUP_COOLDOWN_MILLIS,
            None => false,
        };
        let retry_pending = match self.provider_retry_at {
            Some(retry) => now.get() < retry.get(),
            None => false,
        };
        if recent || retry_pending {
            let retry_at = match self.provider_retry_at {
                Some(retry) => retry,
                None => match self.last_lookup_at {
                    Some(last) => UtcMillis(last.get() + LOOKUP_COOLDOWN_MILLIS),
                    None => now,
                },
            };
            return Err(
                PlayerError::new(
                    PlayerErrorCode::LookupCooldown,
                    PlayerRecovery::Wait,
                ).with_retry_at(retry_at),
            );
        }
        let consent_epoch = match self.consents.get(PlayerSourceRoute::CensusMocs) {
            Some(consent) => {
                if !str_eq(consent.disclosure_version.as_str(), consent_version) || !str_eq(
                    consent.fields_digest.as_str(),
                    consent_fields_digest,
                ) {
                    return Err(
                        PlayerError::new(
                            PlayerErrorCode::ConsentRequired,
                            PlayerRecovery::ReviewConsent,
                        ),
                    );
                }
                consent.epoch
            },
            None => {
                return Err(
                    PlayerError::new(
                        PlayerErrorCode::ConsentRequired,
                        PlayerRecovery::ReviewConsent,
                    ),
                );
            },
        };
        self.generation = if self.generation == u64::MAX {
            self.generation
        } else {
            self.generation + 1
        };
        let session = LookupSession {
            player_identity_id: identity_id,
            identity_revision,
            nickname_snapshot: nickname,
            consent_epoch,
            configuration_fingerprint: copy_opt(&self.configuration_fingerprint),
            operation_key,
            generation: self.generation,
            expires_at: UtcMillis(now.get() + SESSION_TTL_MILLIS),
        };
        self.last_lookup_at = Some(now);
        self.active = Some(session.clone());
        Ok(session)
    }

    /// The session no longer holds the fence: none is active, another is,
    /// it expired, or the generation moved on.
    pub open spec fn completion_stale(&self, session: LookupSession, now: UtcMillis) -> bool {
        ||| !(self.active matches Some(a) && same_session(a, session))
        ||| now.0 >= session.expires_at.0
        ||| self.generation != session.generation
    }

    /// The consent the session began under was withdrawn or renewed.
    pub open spec fn consent_moved(&self, session: LookupSession) -> bool {
        !(self.consents.at(PlayerSourceRoute::CensusMocs) matches Some(b) && b.epoch
            == session.consent_epoch)
    }

    /// Why a fresh session's response yields no outcome, if it does not.
    pub open spec fn outcome_error(
        &self,
        session: LookupSession,
        response: Result<ValidatedLeaderboard, PlayerProviderError>,
    ) -> Option<PlayerError> {
        match response {
            Err(_) => None,
            Ok(v) => {
                let nick = session.nickname_snapshot@;
                if !nickname_valid(nick) {
                    Some(provider_player_error(PlayerProviderError::InvalidResponse))
                } else {
                    let m = matching_rows(v.rows@, nickname_key(trimmed(nick)));
                    if m.len() > MAX_PREVIEWS {
                        Some(provider_player_error(PlayerProviderError::ResponseTooLarge))
                    } else if self.scope is None {
                        Some(
                            err(
                                PlayerErrorCode::ProviderConfigurationInvalid,
                                PlayerRecovery::NoAction,
                            ),
                        )
                    } else if exists|i: int|
                        0 <= i < m.len() && row_source_key(self.scope->0, #[trigger] m[i].nickname@)
                            is None {
                        Some(err(PlayerErrorCode::InvalidRequest, PlayerRecovery::NoAction))
                    } else {
                        None
                    }
                }
            },
        }
    }

    /// `out` is what a fresh session's response completes into at `now`.
    pub open spec fn outcome_built(
        &self,
        session: LookupSession,
        response: Result<ValidatedLeaderboard, PlayerProviderError>,
        now: UtcMillis,
        out: LookupOutcome,
    ) -> bool {
        match response {
            Err(e) => out == LookupOutcome::Degraded(provider_player_error(e)),
            Ok(v) => {
                let nick = session.nickname_snapshot@;
                let m = matching_rows(v.rows@, nickname_key(trimmed(nick)));
                let scope = self.scope->0;
                if m.len() == 0 {
                    out matches LookupOutcome::Empty(e) && e.provider_id@ == "census_mocs"@
                        && e.lookup_nickname@ == nick && e.exact_match_rule@
                        == "case_insensitive_full_string"@ && e.scope == scope
                        && e.provider_configuration_version@ == match self.configuration_version {
                        Some(t) => t@,
                        None => "unknown"@,
                    } && e.completed_at == now && e.operation_key == session.operation_key
                } else {
                    out matches LookupOutcome::Candidates(cs) && cs@.len() == m.len() && forall|
                        i: int,
                    |
                        0 <= i < m.len() ==> candidate_built(
                            #[trigger] cs@[i],
                            m[i],
                            scope,
                            nick,
                            now,
                        )
                }
            },
        }
    }

    fn build_outcome(&self, session: &LookupSession, response: &ValidatedLeaderboard, now: UtcMillis) -> (r: Result<
        LookupOutcome,
        PlayerError,
    >)
        requires
            now.0 >= 0,
        ensures
            match self.outcome_error(*session, Ok(*response)) {
                Some(e) => r == Err::<LookupOutcome, PlayerError>(e),
                None => r matches Ok(o) && self.outcome_built(*session, Ok(*response), now, o),
            },
    {
        let matches = match exact_matches(response, session.nickname_snapshot.as_str()) {
            Ok(m) => m,
            Err(e) => {
                return Err(from_provider(e));
            },
        };
        let ghost m = matching_rows(
            response.rows@,
            nickname_key(trimmed(session.nickname_snapshot@)),
        );
        let scope = match &self.scope {
            Some(scope) => scope,
            None => {
                return Err(
                    PlayerError::new(
                        PlayerErrorCode::ProviderConfigurationInvalid,
                        PlayerRecovery::NoAction,
                    ),
                );
            },
        };
        if matches.len() == 0 {
            let version = match &self.configuration_version {
                Some(v) => v.clone(),
                None => copy_string("unknown"),
            };
            return Ok(
                LookupOutcome::Empty(
                    EmptyLookupResult {
                        provider_id: copy_string("census_mocs"),
                        lookup_nickname: session.nickname_snapshot.clone(),
                        exact_match_rule: copy_string("case_insensitive_full_string"),
                        scope: scope.clone(),
                        provider_configuration_version: version,
                        completed_at: now,
                        operation_key: session.operation_key.clone(),
                    },
                ),
            );
        }
        let mut candidates: Vec<CandidatePreview> = Vec::new();
        let mut i: usize = 0;
        while i < matches.len()
            invariant
                i <= matches@.len(),
                m == crate::player_census::deref_rows(matches@),
                m == matching_rows(response.rows@, nickname_key(trimmed(session.nickname_snapshot@))),
                nickname_valid(session.nickname_snapshot@),
                m.len() <= MAX_PREVIEWS,
                self.scope == Some(*scope),
                now.0 >= 0,
                candidates@.len() == i,
                forall|k: int| 0 <= k < i ==> row_source_key(*scope, #[trigger] m[k].nickname@) is Some,
                forall|k: int|
                    0 <= k < i ==> candidate_built(
                        #[trigger] candidates@[k],
                        m[k],
                        *scope,
                        session.nickname_snapshot@,
                        now,
                    ),
            decreases matches.len() - i,
        {
            let row: &LeaderboardRow = matches[i];
            proof {
                assert(m[i as int] == *row);
            }
            match build_candidate(row, scope, session.nickname_snapshot.as_str(), now) {
                Some(c) => {
                    candidates.push(c);
                },
                None => {
                    proof {
                        assert(row_source_key(*scope, m[i as int].nickname@) is None);
                    }
                    return Err(PlayerError::new(PlayerErrorCode::InvalidRequest, PlayerRecovery::NoAction));
                },
            }
            i = i + 1;
        }
        Ok(LookupOutcome::Candidates(candidates))
    }

    /// Completes the active session with the provider's response: stale
    /// sessions and moved consent are refused, a provider failure degrades,
    /// no exact match is an empty result, and matches become previews. The
    /// outcome is kept for replay under the session's operation key.
    pub fn complete_lookup(
        &mut self,
        session: &LookupSession,
        response: Result<ValidatedLeaderboard, PlayerProviderError>,
        now: UtcMillis,
    ) -> (r: Result<LookupOutcome, PlayerError>)
        requires
            old(self).wf(),
            now.0 >= 0,
        ensures
            final(self).wf(),
            if old(self).completion_stale(*session, now) {
                &&& r == Err::<LookupOutcome, PlayerError>(
                    err(PlayerErrorCode::LookupSessionStale, PlayerRecovery::Retry),
                )
                &&& *final(self) == *old(self)
            } else if old(self).consent_moved(*session) {
                &&& r == Err::<LookupOutcome, PlayerError>(
                    err(PlayerErrorCode::LookupSessionStale, PlayerRecovery::ReviewConsent),
                )
                &&& *final(self) == (PlayerPublicResultsRuntime { active: None, ..*old(self) })
            } else {
                match old(self).outcome_error(*session, response) {
                    Some(e) => r == Err::<LookupOutcome, PlayerError>(e) && *final(self) == *old(
                        self,
                    ),
                    None => {
                        &&& r matches Ok(o) && old(self).outcome_built(*session, response, now, o)
                        &&& final(self).active is None
                        &&& same_configuration(*final(self), *old(self))
                        &&& final(self).generation == old(self).generation
                        &&& final(self).last_lookup_at == old(self).last_lookup_at
                        &&& final(self).manual_previews == old(self).manual_previews
                        &&& final(self).ephemeral_replay.map().contains_key(session.operation_key@)
                        &&& same_outcome(
                            final(self).ephemeral_replay.map()[session.operation_key@],
                            r->Ok_0,
                        )
                        &&& final(self).ephemeral_replay.map().remove(session.operation_key@)
                            == old(self).ephemeral_replay.map().remove(session.operation_key@)
                    },
                }
            },
    {
        let fresh = match &self.active {
            Some(active) => sessions_equal(active, session) && now.get()
                < session.expires_at.get() && self.generation == session.generation,
            None => false,
        };
        if !fresh {
            return Err(PlayerError::new(PlayerErrorCode::LookupSessionStale, PlayerRecovery::Retry));
        }
        let consent_current = match self.consents.get(PlayerSourceRoute::CensusMocs) {
            Some(binding) => binding.epoch == session.consent_epoch,
            None => false,
        };
        if !consent_current {
            self.active = None;
            return Err(
                PlayerError::new(
                    PlayerErrorCode::LookupSessionStale,
                    PlayerRecovery::ReviewConsent,
                ),
            );
        }
        let outcome = match response {
            Err(error) => LookupOutcome::Degraded(from_provider(error)),
            Ok(v) => self.build_outcome(session, &v, now)?,
        };
        self.active = None;
        let stored = copy_outcome(&outcome);
        self.ephemeral_replay.insert(copy_string(session.operation_key.as_str()), stored);
        Ok(outcome)
    }

    /// Cancels the active session when `operation_key` names it; allowed in
    /// any phase.
    pub fn cancel_lookup(
        &mut self,
        caller: CallerIdentity,
        phase: InternalPhase,
        operation_key: &PlayerOperationKey,
    ) -> (r: Result<LookupOutcome, PlayerError>)
        requires
            old(self).wf(),
        ensures
            final(self).wf(),
            match admission_error(caller, phase, PlayerCommandKind::Cancel, 0) {
                Some(e) => r == Err::<LookupOutcome, PlayerError>(e) && *final(self) == *old(self),
                None => match old(self).active {
                    None => r == Err::<LookupOutcome, PlayerError>(
                        err(PlayerErrorCode::LookupSessionStale, PlayerRecovery::NoAction),
                    ) && *final(self) == *old(self),
                    Some(s) => if s.operation_key@ != operation_key@ {
                        r == Err::<LookupOutcome, PlayerError>(
                            err(PlayerErrorCode::LookupSessionStale, PlayerRecovery::Retry),
                        ) && *final(self) == *old(self)
                    } else {
                        &&& r == Ok::<LookupOutcome, PlayerError>(LookupOutcome::Cancelled)
                        &&& final(self).active is None
                        &&& final(self).generation == bump(old(self).generation)
                        &&& final(self).ephemeral_replay.map() == old(
                            self,
                        ).ephemeral_replay.map().insert(
                            operation_key@,
                            LookupOutcome::Cancelled,
                        )
                        &&& same_configuration(*final(self), *old(self))
                        &&& final(self).manual_previews == old(self).manual_previews
                        &&& final(self).last_lookup_at == old(self).last_lookup_at
                    },
                },
            },
    {
        authorize_command(caller, phase, PlayerCommandKind::Cancel, 0)?;
        let matches_key = match &self.active {
            Some(session) => session.operation_key.same(operation_key),
            None => {
                return Err(
                    PlayerError::new(
                        PlayerErrorCode::LookupSessionStale,
                        PlayerRecovery::NoAction,
                    ),
                );
            },
        };
        if !matches_key {
            return Err(PlayerError::new(PlayerErrorCode::LookupSessionStale, PlayerRecovery::Retry));
        }
        self.active = None;
        self.generation = if self.generation == u64::MAX {
            self.generation
        } else {
            self.generation + 1
        };
        self.ephemeral_replay.insert(copy_string(operation_key.as_str()), LookupOutcome::Cancelled);
        Ok(LookupOutcome::Cancelled)
    }

    /// The outcome kept for `operation_key`, if any.
    pub fn replay(&self, operation_key: &PlayerOperationKey) -> (r: Result<
        Option<LookupOutcome>,
        PlayerError,
    >)
        requires
            self.wf(),
        ensures
            self.ephemeral_replay.map().contains_key(operation_key@) ==> (r matches Ok(Some(o))
                && same_outcome(o, self.ephemeral_replay.map()[operation_key@])),
            !self.ephemeral_replay.map().contains_key(operation_key@) ==> r == Ok::<
                Option<LookupOutcome>,
                PlayerError,
            >(None),
    {
        match self.ephemeral_replay.get(operation_key.as_str()) {
            Some(o) => Ok(Some(copy_outcome(o))),
            None => Ok(None),
        }
    }

    /// Binds a manual preview to its identity, source and digests under a
    /// fresh generation; the binding expires exactly one session TTL later.
    pub fn bind_manual_preview(
        &mut self,
        token: PlayerPreviewToken,
        player_identity_id: PlayerId,
        identity_revision: Revision,
        source_key: String,
        source_digest: String,
        preview_digest: String,
        operation_key: PlayerOperationKey,
        now: UtcMillis,
    ) -> (r: Result<ManualPreviewBinding, PlayerError>)
        requires
            old(self).wf(),
            now.0 >= 0,
            now.0 + SESSION_TTL_MILLIS <= i64::MAX,
        ensures
            final(self).wf(),
            !is_digest_text(source_digest@) || !is_digest_text(preview_digest@) ==> r == Err::<
                ManualPreviewBinding,
                PlayerError,
            >(err(PlayerErrorCode::InvalidRequest, PlayerRecovery::NoAction)) && *final(self)
                == *old(self),
            is_digest_text(source_digest@) && is_digest_text(preview_digest@) ==> {
                let binding = ManualPreviewBinding {
                    token,
                    player_identity_id,
                    identity_revision,
                    source_key,
                    source_digest,
                    preview_digest,
                    operation_key,
                    generation: bump(old(self).generation),
                    expires_at: UtcMillis((now.0 + SESSION_TTL_MILLIS) as i64),
                };
                &&& r == Ok::<ManualPreviewBinding, PlayerError>(binding)
                &&& final(self).generation == bump(old(self).generation)
                &&& final(self).manual_previews.map() == old(self).manual_previews.map().insert(
                    token@,
                    binding,
                )
                &&& final(self).active == old(self).active
                &&& same_configuration(*final(self), *old(self))
                &&& final(self).ephemeral_replay == old(self).ephemeral_replay
            },
    {
        if !is_digest(source_digest.as_str()) || !is_digest(preview_digest.as_str()) {
            return Err(PlayerError::new(PlayerErrorCode::InvalidRequest, PlayerRecovery::NoAction));
        }
        self.generation = if self.generation == u64::MAX {
            self.generation
        } else {
            self.generation + 1
        };
        let key = copy_string(token.as_str());
        let binding = ManualPreviewBinding {
            token,
            player_identity_id,
            identity_revision,
            source_key,
            source_digest,
            preview_digest,
            operation_key,
            generation: self.generation,
            expires_at: UtcMillis(now.get() + SESSION_TTL_MILLIS),
        };
        self.manual_previews.insert(key, binding.clone());
        Ok(binding)
    }

    /// How a confirmation is answered by the previews as they stand: an
    /// unknown token is a mismatch; a binding at or past its expiry has
    /// expired; one bound to another identity, revision, source or digest is
    /// a mismatch; otherwise the binding itself.
    pub open spec fn preview_verdict(
        &self,
        token: Seq<char>,
        player_identity_id: Seq<char>,
        identity_revision: Revision,
        source_key: Seq<char>,
        source_digest: Seq<char>,
        preview_digest: Seq<char>,
        now: UtcMillis,
    ) -> Result<ManualPreviewBinding, PlayerError> {
        if !self.manual_previews.map().contains_key(token) {
            Err(err(PlayerErrorCode::PreviewMismatch, PlayerRecovery::Retry))
        } else {
            let b = self.manual_previews.map()[token];
            if now.0 >= b.expires_at.0 {
                Err(err(PlayerErrorCode::PreviewExpired, PlayerRecovery::Retry))
            } else if b.player_identity_id@ != player_identity_id || b.identity_revision
                != identity_revision || b.source_key@ != source_key || b.source_digest@
                != source_digest || b.preview_digest@ != preview_digest {
                Err(err(PlayerErrorCode::PreviewMismatch, PlayerRecovery::Retry))
            } else {
                Ok(b)
            }
        }
    }

    /// Checks a confirmation against its bound preview: known token, not
    /// expired, and the same identity revision, source and digests.
    pub fn verify_manual_preview(
        &self,
        token: &PlayerPreviewToken,
        player_identity_id: &PlayerId,
        identity_revision: Revision,
        source_key: &str,
        source_digest: &str,
        preview_digest: &str,
        now: UtcMillis,
    ) -> (r: Result<ManualPreviewBinding, PlayerError>)
        requires
            self.wf(),
        ensures
            r == self.preview_verdict(
                token@,
                player_identity_id@,
                identity_revision,
                source_key@,
                source_digest@,
                preview_digest@,
                now,
            ),
    {
        let binding = match self.manual_previews.get(token.as_str()) {
            Some(b) => b,
            None => {
                return Err(PlayerError::new(PlayerErrorCode::PreviewMismatch, PlayerRecovery::Retry));
            },
        };
        if now.get() >= binding.expires_at.get() {
            return Err(PlayerError::new(PlayerErrorCode::PreviewExpired, PlayerRecovery::Retry));
        }
        if !binding.player_identity_id.same(player_identity_id) || binding.identity_revision
            != identity_revision || !str_eq(binding.source_key.as_str(), source_key) || !str_eq(
            binding.source_digest.as_str(),
            source_digest,
        ) || !str_eq(binding.preview_digest.as_str(), preview_digest) {
            return Err(PlayerError::new(PlayerErrorCode::PreviewMismatch, PlayerRecovery::Retry));
        }
        Ok(binding.clone())
    }

    /// Drops every preview of an identity, and its session if one runs.
    pub fn invalidate_identity(&mut self, player_identity_id: &PlayerId) -> (r: Result<
        (),
        PlayerError,
    >)
        requires
            old(self).wf(),
        ensures
            r is Ok,
            final(self).wf(),
            final(self).manual_previews.map() == old(self).manual_previews.map().restrict(
                old(self).manual_previews.map().dom().filter(
                    |k: Seq<char>|
                        old(self).manual_previews.map()[k].player_identity_id@
                            != player_identity_id@,
                ),
            ),
            (old(self).active matches Some(s) && s.player_identity_id@ == player_identity_id@)
                ==> final(self).active is None && final(self).generation == bump(
                old(self).generation,
            ),
            !(old(self).active matches Some(s) && s.player_identity_id@ == player_identity_id@)
                ==> final(self).active == old(self).active && final(self).generation == old(
                self,
            ).generation,
            same_configuration(*final(self), *old(self)),
            final(self).ephemeral_replay == old(self).ephemeral_replay,
    {
        let keep = |b: &ManualPreviewBinding| -> (k: bool)
            ensures
                k == (b.player_identity_id@ != player_identity_id@),
            { !b.player_identity_id.same(player_identity_id) };
        self.manual_previews.retain(
            keep,
            Ghost(|b: ManualPreviewBinding| b.player_identity_id@ != player_identity_id@),
        );
        let owned = match &self.active {
            Some(session) => session.player_identity_id.same(player_identity_id),
            None => false,
        };
        if owned {
            self.active = None;
            self.generation = if self.generation == u64::MAX {
                self.generation
            } else {
                self.generation + 1
            };
        }
        Ok(())
    }

    /// The audit summaries kept so far.
    pub fn audit_snapshot(&self) -> (r: Result<Vec<LookupAuditSummary>, PlayerError>)
        ensures
            r matches Ok(v) && v@ == self.audit@,
    {
        let mut out: Vec<LookupAuditSummary> = Vec::new();
        let mut i: usize = 0;
        while i < self.audit.len()
            invariant
                i <= self.audit@.len(),
                out@ == self.audit@.take(i as int),
            decreases self.audit.len() - i,
        {
            out.push(self.audit[i].clone());
            i = i + 1;
            assert(out@ =~= self.audit@.take(i as int));
        }
        assert(self.audit@.take(self.audit@.len() as int) =~= self.audit@);
        Ok(out)
    }

    /// Forgets every session, outcome, preview and audit entry, as after an
    /// application restart; consent and configuration stay.
    pub fn restart(&mut self) -> (r: Result<(), PlayerError>)
        requires
            old(self).wf(),
        ensures
            r is Ok,
            final(self).wf(),
            final(self).active is None,
            final(self).ephemeral_replay.map().is_empty(),
            final(self).manual_previews.map().is_empty(),
            final(self).audit@.len() == 0,
            final(self).generation == bump(old(self).generation),
            final(self).provider_mode == old(self).provider_mode,
            final(self).consents == old(self).consents,
            final(self).scope == old(self).scope,
            final(self).last_lookup_at == old(self).last_lookup_at,
    {
        self.active = None;
        self.ephemeral_replay.clear();
        self.manual_previews.clear();
        self.audit = Vec::new();
        self.generation = if self.generation == u64::MAX {
            self.generation
        } else {
            self.generation + 1
        };
        Ok(())
    }
}

/// A lookup completes at most once: once no session is active (after a
/// completion, a cancellation, a consent change or a restart), every
/// completion is stale and changes nothing.
pub proof fn law_completion_needs_the_active_session(
    rt: PlayerPublicResultsRuntime,
    session: LookupSession,
    now: UtcMillis,
)
    requires
        rt.active is None,
    ensures
        rt.completion_stale(session, now),
{
}

/// A session begun under another generation, or past its expiry, can
/// never complete.
pub proof fn law_old_or_expired_sessions_are_stale(
    rt: PlayerPublicResultsRuntime,
    session: LookupSession,
    now: UtcMillis,
)
    requires
        rt.generation != session.generation || now.0 >= session.expires_at.0,
    ensures
        rt.completion_stale(session, now),
{
}

/// A preview just bound answers a confirmation that repeats its identity,
/// revision, source and digests with the binding itself until exactly one
/// session TTL after it was bound, and as expired from then on; before
/// then, a confirmation that differs in any of them is a mismatch.
pub proof fn law_bound_preview_verifies_until_it_expires(
    before: PlayerPublicResultsRuntime,
    after: PlayerPublicResultsRuntime,
    binding: ManualPreviewBinding,
    bound_at: UtcMillis,
    now: UtcMillis,
    player_identity_id: Seq<char>,
    identity_revision: Revision,
    source_key: Seq<char>,
    source_digest: Seq<char>,
    preview_digest: Seq<char>,
)
    requires
        after.manual_previews.map() == before.manual_previews.map().insert(binding.token@, binding),
        binding.expires_at.0 == bound_at.0 + SESSION_TTL_MILLIS,
    ensures
        now.0 < bound_at.0 + SESSION_TTL_MILLIS ==> after.preview_verdict(
            binding.token@,
            binding.player_identity_id@,
            binding.identity_revision,
            binding.source_key@,
            binding.source_digest@,
            binding.preview_digest@,
            now,
        ) == Ok::<ManualPreviewBinding, PlayerError>(binding),
        now.0 >= bound_at.0 + SESSION_TTL_MILLIS ==> after.preview_verdict(
            binding.token@,
            player_identity_id,
            identity_revision,
            source_key,
            source_digest,
            preview_digest,
            now,
        ) == Err::<ManualPreviewBinding, PlayerError>(
            err(PlayerErrorCode::PreviewExpired, PlayerRecovery::Retry),
        ),
        now.0 < bound_at.0 + SESSION_TTL_MILLIS && (player_identity_id != binding.player_identity_id@
            || identity_revision != binding.identity_revision || source_key != binding.source_key@
            || source_digest != binding.source_digest@ || preview_digest
            != binding.preview_digest@) ==> after.preview_verdict(
            binding.token@,
            player_identity_id,
            identity_revision,
            source_key,
            source_digest,
            preview_digest,
            now,
        ) == Err::<ManualPreviewBinding, PlayerError>(
            err(PlayerErrorCode::PreviewMismatch, PlayerRecovery::Retry),
        ),
{
}

} // verus!
