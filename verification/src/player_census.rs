//! The reviewed Daybreak Census leaderboard provider: configuration checks,
//! the minimal request, and response validation and exact matching.
use vstd::prelude::*;

use crate::canonical::{canonical_json, canonical_text, json_wf};
use crate::domain::UtcMillis;
use crate::json::{json_get, json_str, json_u64, JsonValue};
use crate::player_models::{
    nickname_key, nickname_valid, normalize_player_nickname_key, MAX_NICKNAME_SCALARS,
};
use crate::text::{
    char_count, contains_control, contains_seq, contains_str, copy_string, eq_ignore_ascii_case,
    eq_ignore_ascii_case_spec, has_ctrl, is_blank, is_digest, is_digest_text, lower_all,
    str_eq, to_ascii_lowercase, trim_string, trimmed,
};
use crate::weburl::{append_query_pairs, pairs_view, url_with_query};

verus! {

pub const CENSUS_HOST: &'static str = "census.daybreakgames.com";

pub const CENSUS_PATH: &'static str = "/get/mg/leaderboard";

pub const CENSUS_ENDPOINT: &'static str = "https://census.daybreakgames.com/get/mg/leaderboard";

pub const MAX_RESPONSE_BYTES: usize = 1048576;

pub const MAX_RESPONSE_ROWS: usize = 2000;

pub const MAX_PREVIEWS: usize = 10;

pub const CONNECT_TIMEOUT_SECONDS: u64 = 5;

pub const TOTAL_TIMEOUT_SECONDS: u64 = 15;

pub const LOCAL_COOLDOWN_SECONDS: i64 = 60;

#[derive(Clone, Copy, Debug, PartialEq, Eq, Structural)]
pub enum CensusProviderMode {
    Disabled,
    Synthetic,
    Live,
}

#[derive(Clone, Copy, Debug, PartialEq, Eq, Structural)]
pub enum PlayerProviderError {
    ProviderDisabled,
    ConfigurationInvalid,
    ConfigurationExpired,
    InvalidResponse,
    ResponseTooLarge,
    Timeout,
    RateLimited,
    Unavailable,
}

impl PlayerProviderError {
    pub open spec fn spec_code(self) -> Seq<char> {
        match self {
            PlayerProviderError::ProviderDisabled => "provider_disabled"@,
            PlayerProviderError::ConfigurationInvalid => "provider_configuration_invalid"@,
            PlayerProviderError::ConfigurationExpired => "provider_configuration_expired"@,
            PlayerProviderError::InvalidResponse => "provider_invalid_response"@,
            PlayerProviderError::ResponseTooLarge => "response_too_large"@,
            PlayerProviderError::Timeout => "lookup_timeout"@,
            PlayerProviderError::RateLimited => "provider_rate_limited"@,
            PlayerProviderError::Unavailable => "provider_unavailable"@,
        }
    }

    /// The stable wire code of the error.
    pub fn code(self) -> (r: &'static str)
        ensures
            r@ == self.spec_code(),
    {
        match self {
            PlayerProviderError::ProviderDisabled => "provider_disabled",
            PlayerProviderError::ConfigurationInvalid => "provider_configuration_invalid",
            PlayerProviderError::ConfigurationExpired => "provider_configuration_expired",
            PlayerProviderError::InvalidResponse => "provider_invalid_response",
            PlayerProviderError::ResponseTooLarge => "response_too_large",
            PlayerProviderError::Timeout => "lookup_timeout",
            PlayerProviderError::RateLimited => "provider_rate_limited",
            PlayerProviderError::Unavailable => "provider_unavailable",
        }
    }
}

/// The leaderboard window a reviewed configuration approves.
#[derive(Debug, PartialEq, Eq)]
pub struct ApprovedCensusScope {
    pub catalog_id: String,
    pub start_date: String,
    pub as_of_date: String,
}

impl Clone for ApprovedCensusScope {
    fn clone(&self) -> (r: Self)
        ensures
            r == *self,
    {
        ApprovedCensusScope {
            catalog_id: self.catalog_id.clone(),
            start_date: self.start_date.clone(),
            as_of_date: self.as_of_date.clone(),
        }
    }
}

pub open spec fn scope_ok(s: ApprovedCensusScope) -> bool {
    &&& trimmed(s.catalog_id@).len() > 0
    &&& trimmed(s.start_date@).len() > 0
    &&& trimmed(s.as_of_date@).len() > 0
    &&& s.catalog_id@.len() <= 128
    &&& s.start_date@.len() <= 32
    &&& s.as_of_date@.len() <= 32
    &&& !has_ctrl(s.catalog_id@ + s.start_date@ + s.as_of_date@)
}

proof fn lemma_ctrl_concat(a: Seq<char>, b: Seq<char>)
    ensures
        has_ctrl(a + b) == (has_ctrl(a) || has_ctrl(b)),
{
    if has_ctrl(a) {
        let i = choose|i: int| 0 <= i < a.len() && crate::text::is_ctrl(#[trigger] a[i]);
        assert((a + b)[i] == a[i]);
    }
    if has_ctrl(b) {
        let i = choose|i: int| 0 <= i < b.len() && crate::text::is_ctrl(#[trigger] b[i]);
        assert((a + b)[a.len() + i] == b[i]);
    }
    if has_ctrl(a + b) {
        let i = choose|i: int| 0 <= i < (a + b).len() && crate::text::is_ctrl(#[trigger] (a + b)[i]);
        if i < a.len() {
            assert(a[i] == (a + b)[i]);
        } else {
            assert(b[i - a.len()] == (a + b)[i]);
        }
    }
}

impl ApprovedCensusScope {
    /// Non-blank, bounded, control-free scope fields.
    pub fn validate(&self) -> (r: Result<(), PlayerProviderError>)
        ensures
            scope_ok(*self) ==> r is Ok,
            !scope_ok(*self) ==> r == Err::<(), PlayerProviderError>(
                PlayerProviderError::ConfigurationInvalid,
            ),
    {
        proof {
            lemma_ctrl_concat(self.catalog_id@, self.start_date@);
            lemma_ctrl_concat(self.catalog_id@ + self.start_date@, self.as_of_date@);
        }
        if is_blank(self.catalog_id.as_str()) || is_blank(self.start_date.as_str()) || is_blank(
            self.as_of_date.as_str(),
        ) || char_count(self.catalog_id.as_str()) > 128 || char_count(self.start_date.as_str())
            > 32 || char_count(self.as_of_date.as_str()) > 32 || contains_control(
            self.catalog_id.as_str(),
        ) || contains_control(self.start_date.as_str()) || contains_control(
            self.as_of_date.as_str(),
        ) {
            Err(PlayerProviderError::ConfigurationInvalid)
        } else {
            Ok(())
        }
    }
}

/// A provider configuration that a person reviewed, with its expiry.
#[derive(Debug, PartialEq, Eq)]
pub struct ReviewedCensusConfiguration {
    pub service_id: String,
    pub scope: ApprovedCensusScope,
    pub version: String,
    pub expires_at: UtcMillis,
    pub reviewed: bool,
    pub fingerprint: String,
}

/// A service id that is a documented example or names a shared or
/// placeholder credential.
pub open spec fn service_id_refused(service_id: Seq<char>) -> bool {
    let id = trimmed(service_id);
    ||| id.len() == 0
    ||| eq_ignore_ascii_case_spec(id, "s:example"@)
    ||| contains_seq(lower_all(id), "placeholder"@)
    ||| contains_seq(lower_all(id), "shared"@)
}

/// Why a configuration may not be used at `now`, if it may not.
pub open spec fn configuration_error(c: ReviewedCensusConfiguration, now: UtcMillis) -> Option<
    PlayerProviderError,
> {
    if !scope_ok(c.scope) {
        Some(PlayerProviderError::ConfigurationInvalid)
    } else if c.expires_at.0 <= now.0 {
        Some(PlayerProviderError::ConfigurationExpired)
    } else if !c.reviewed || service_id_refused(c.service_id@) || trimmed(c.version@).len() == 0
        || !is_digest_text(c.fingerprint@) {
        Some(PlayerProviderError::ConfigurationInvalid)
    } else {
        None
    }
}

impl ReviewedCensusConfiguration {
    pub fn validate(&self, now: UtcMillis) -> (r: Result<(), PlayerProviderError>)
        ensures
            match configuration_error(*self, now) {
                Some(e) => r == Err::<(), PlayerProviderError>(e),
                None => r is Ok,
            },
    {
        self.scope.validate()?;
        let service_id = trim_string(self.service_id.as_str());
        let lowered = to_ascii_lowercase(service_id.as_str());
        let refused = service_id.as_str().is_empty() || eq_ignore_ascii_case(
            service_id.as_str(),
            "s:example",
        ) || contains_str(lowered.as_str(), "placeholder") || contains_str(
            lowered.as_str(),
            "shared",
        );
        if !self.reviewed || refused || is_blank(self.version.as_str()) || !is_digest(
            self.fingerprint.as_str(),
        ) || self.expires_at.get() <= now.get() {
            return Err(
                if self.expires_at.get() <= now.get() {
                    PlayerProviderError::ConfigurationExpired
                } else {
                    PlayerProviderError::ConfigurationInvalid
                },
            );
        }
        Ok(())
    }
}

/// The only request the provider is sent: the approved scope, never a
/// nickname.
#[derive(Debug, PartialEq, Eq)]
pub struct CensusRequest {
    pub url: String,
    /// The query parameters in key order.
    pub query: Vec<(String, String)>,
    pub connect_timeout_seconds: u64,
    pub total_timeout_seconds: u64,
}

/// The query parameters of a configuration, in key order.
pub open spec fn census_pairs(c: ReviewedCensusConfiguration) -> Seq<(Seq<char>, Seq<char>)> {
    seq![
        ("date"@, c.scope.as_of_date@),
        ("digitalobjectcatalogid"@, c.scope.catalog_id@),
        ("service_id"@, c.service_id@),
        ("startdate"@, c.scope.start_date@),
    ]
}

pub fn build_request(configuration: &ReviewedCensusConfiguration) -> (r: Result<
    CensusRequest,
    PlayerProviderError,
>)
    ensures
        !scope_ok(configuration.scope) ==> r == Err::<CensusRequest, PlayerProviderError>(
            PlayerProviderError::ConfigurationInvalid,
        ),
        scope_ok(configuration.scope) ==> match url_with_query(
            CENSUS_ENDPOINT@,
            census_pairs(*configuration),
        ) {
            Some(u) => r matches Ok(req) && req.url@ == u && pairs_view(req.query@) == census_pairs(
                *configuration,
            ) && req.connect_timeout_seconds == CONNECT_TIMEOUT_SECONDS
                && req.total_timeout_seconds == TOTAL_TIMEOUT_SECONDS,
            None => r == Err::<CensusRequest, PlayerProviderError>(
                PlayerProviderError::ConfigurationInvalid,
            ),
        },
{
    configuration.scope.validate()?;
    let mut query: Vec<(String, String)> = Vec::new();
    query.push((copy_string("date"), configuration.scope.as_of_date.clone()));
    query.push((copy_string("digitalobjectcatalogid"), configuration.scope.catalog_id.clone()));
    query.push((copy_string("service_id"), configuration.service_id.clone()));
    query.push((copy_string("startdate"), configuration.scope.start_date.clone()));
    proof {
        assert(pairs_view(query@) =~= census_pairs(*configuration));
    }
    match append_query_pairs(CENSUS_ENDPOINT, &query) {
        Some(url) => Ok(
            CensusRequest {
                url,
                query,
                connect_timeout_seconds: CONNECT_TIMEOUT_SECONDS,
                total_timeout_seconds: TOTAL_TIMEOUT_SECONDS,
            },
        ),
        None => Err(PlayerProviderError::ConfigurationInvalid),
    }
}

/// One leaderboard row, with the row's canonical JSON text as its payload.
#[derive(Debug, PartialEq, Eq)]
pub struct LeaderboardRow {
    pub nickname: String,
    pub total_points: u64,
    pub top_eight_finishes: u32,
    pub best_score: u64,
    pub payload: String,
}

impl Clone for LeaderboardRow {
    fn clone(&self) -> (r: Self)
        ensures
            r == *self,
    {
        LeaderboardRow {
            nickname: self.nickname.clone(),
            total_points: self.total_points,
            top_eight_finishes: self.top_eight_finishes,
            best_score: self.best_score,
            payload: self.payload.clone(),
        }
    }
}

#[derive(Debug, PartialEq, Eq)]
pub struct ValidatedLeaderboard {
    pub rows: Vec<LeaderboardRow>,
    pub response_bytes: usize,
}

/// The member named `a`, or else the one named `b`.
pub open spec fn first_of(v: JsonValue, a: Seq<char>, b: Seq<char>) -> Option<JsonValue> {
    match json_get(v, a) {
        Some(x) => Some(x),
        None => json_get(v, b),
    }
}

pub open spec fn row_nickname(row: JsonValue) -> Option<Seq<char>> {
    match json_str(first_of(row, "nickname"@, "name"@)) {
        Some(n) => Some(trimmed(n)),
        None => None,
    }
}

/// A row the provider may send: an object with a usable nickname and the
/// three counters, the top-eight count fitting 32 bits.
pub open spec fn row_ok(row: JsonValue) -> bool {
    &&& row is Object
    &&& row_nickname(row) matches Some(n) && n.len() > 0 && n.len() <= MAX_NICKNAME_SCALARS
        && !has_ctrl(n)
    &&& json_u64(first_of(row, "total_points"@, "points"@)) is Some
    &&& json_u64(first_of(row, "top_eight_finishes"@, "top8"@)) matches Some(t) && t <= u32::MAX
    &&& json_u64(first_of(row, "best_score"@, "best"@)) is Some
    &&& json_wf(row)
}

pub open spec fn row_read(out: LeaderboardRow, row: JsonValue) -> bool {
    &&& Some(out.nickname@) == row_nickname(row)
    &&& Some(out.total_points) == json_u64(first_of(row, "total_points"@, "points"@))
    &&& Some(out.top_eight_finishes as u64) == json_u64(
        first_of(row, "top_eight_finishes"@, "top8"@),
    )
    &&& Some(out.best_score) == json_u64(first_of(row, "best_score"@, "best"@))
    &&& out.payload@ == canonical_text(row)
}

/// The rows array of a response body.
pub open spec fn response_rows(body: JsonValue) -> Option<Seq<JsonValue>> {
    match first_of(body, "rows"@, "data"@) {
        Some(JsonValue::Array(items)) => Some(items@),
        _ => None,
    }
}

fn member_either<'a>(v: &'a JsonValue, a: &str, b: &str) -> (r: Option<&'a JsonValue>)
    ensures
        match first_of(*v, a@, b@) {
            Some(x) => r == Some(&x),
            None => r is None,
        },
{
    match v.get(a) {
        Some(x) => Some(x),
        None => v.get(b),
    }
}

fn read_row(row: &JsonValue) -> (r: Option<LeaderboardRow>)
    ensures
        row_ok(*row) ==> (r matches Some(out) && row_read(out, *row)),
        !row_ok(*row) ==> r is None,
{
    let is_object = match row {
        JsonValue::Object(_) => true,
        _ => false,
    };
    if !is_object {
        return None;
    }
    let nickname = match member_either(row, "nickname", "name") {
        Some(JsonValue::String(s)) => trim_string(s.as_str()),
        _ => {
            return None;
        },
    };
    if nickname.as_str().is_empty() || char_count(nickname.as_str()) > MAX_NICKNAME_SCALARS
        || contains_control(nickname.as_str()) {
        return None;
    }
    let total_points = match member_either(row, "total_points", "points") {
        Some(x) => match x.as_u64() {
            Some(n) => n,
            None => {
                return None;
            },
        },
        None => {
            return None;
        },
    };
    let top_eight = match member_either(row, "top_eight_finishes", "top8") {
        Some(x) => match x.as_u64() {
            Some(n) => n,
            None => {
                return None;
            },
        },
        None => {
            return None;
        },
    };
    if top_eight > 4294967295u64 {
        return None;
    }
    let best_score = match member_either(row, "best_score", "best") {
        Some(x) => match x.as_u64() {
            Some(n) => n,
            None => {
                return None;
            },
        },
        None => {
            return None;
        },
    };
    let payload = match canonical_json(row) {
        Ok(text) => text,
        Err(_) => {
            return None;
        },
    };
    Some(
        LeaderboardRow {
            nickname,
            total_points,
            top_eight_finishes: top_eight as u32,
            best_score,
            payload,
        },
    )
}

/// Why a response body is refused, if it is.
pub open spec fn response_error(body: JsonValue, response_bytes: usize) -> Option<PlayerProviderError> {
    if response_bytes > MAX_RESPONSE_BYTES {
        Some(PlayerProviderError::ResponseTooLarge)
    } else {
        match response_rows(body) {
            None => Some(PlayerProviderError::InvalidResponse),
            Some(rows) => if rows.len() > MAX_RESPONSE_ROWS {
                Some(PlayerProviderError::ResponseTooLarge)
            } else if exists|i: int| 0 <= i < rows.len() && !row_ok(#[trigger] rows[i]) {
                Some(PlayerProviderError::InvalidResponse)
            } else {
                None
            },
        }
    }
}

/// `v` holds every row of an accepted body, read in order.
pub open spec fn response_read(v: ValidatedLeaderboard, body: JsonValue, response_bytes: usize) -> bool {
    &&& v.response_bytes == response_bytes
    &&& response_rows(body) matches Some(rows) && v.rows@.len() == rows.len() && forall|i: int|
        0 <= i < rows.len() ==> row_read(#[trigger] v.rows@[i], rows[i])
}

/// Bounds the body, finds the rows array (`rows`, else `data`), and reads
/// every row; any unusable row refuses the whole response.
pub fn validate_response(body: &JsonValue, response_bytes: usize) -> (r: Result<
    ValidatedLeaderboard,
    PlayerProviderError,
>)
    ensures
        match response_error(*body, response_bytes) {
            Some(e) => r == Err::<ValidatedLeaderboard, PlayerProviderError>(e),
            None => r matches Ok(v) && response_read(v, *body, response_bytes),
        },
{
    if response_bytes > MAX_RESPONSE_BYTES {
        return Err(PlayerProviderError::ResponseTooLarge);
    }
    let rows = match member_either(body, "rows", "data") {
        Some(JsonValue::Array(items)) => items,
        _ => {
            return Err(PlayerProviderError::InvalidResponse);
        },
    };
    if rows.len() > MAX_RESPONSE_ROWS {
        return Err(PlayerProviderError::ResponseTooLarge);
    }
    let mut validated: Vec<LeaderboardRow> = Vec::new();
    let mut i: usize = 0;
    while i < rows.len()
        invariant
            i <= rows@.len(),
            response_rows(*body) == Some(rows@),
            rows@.len() <= MAX_RESPONSE_ROWS,
            response_bytes <= MAX_RESPONSE_BYTES,
            validated@.len() == i,
            forall|k: int| 0 <= k < i ==> row_ok(#[trigger] rows@[k]),
            forall|k: int| 0 <= k < i ==> row_read(#[trigger] validated@[k], rows@[k]),
        decreases rows.len() - i,
    {
        match read_row(&rows[i]) {
            Some(row) => {
                validated.push(row);
            },
            None => {
                proof {
                    assert(!row_ok(rows@[i as int]));
                }
                return Err(PlayerProviderError::InvalidResponse);
            },
        }
        i = i + 1;
    }
    Ok(ValidatedLeaderboard { rows: validated, response_bytes })
}

/// Whether a row's nickname names the same player as `key` (a normalized
/// nickname key).
pub open spec fn row_matches_key(row: LeaderboardRow, key: Seq<char>) -> bool {
    nickname_valid(row.nickname@) && nickname_key(trimmed(row.nickname@)) == key
}

pub open spec fn matching_rows(rows: Seq<LeaderboardRow>, key: Seq<char>) -> Seq<LeaderboardRow> {
    rows.filter(|row: LeaderboardRow| row_matches_key(row, key))
}

pub open spec fn deref_rows<'a>(rows: Seq<&'a LeaderboardRow>) -> Seq<LeaderboardRow> {
    rows.map_values(|r: &'a LeaderboardRow| *r)
}

/// The rows whose nickname matches `nickname` exactly after normalization
/// (NFKC and case folding), in response order; more than the preview limit
/// refuses the response.
pub fn exact_matches<'a>(response: &'a ValidatedLeaderboard, nickname: &str) -> (r: Result<
    Vec<&'a LeaderboardRow>,
    PlayerProviderError,
>)
    ensures
        !nickname_valid(nickname@) ==> r == Err::<Vec<&'a LeaderboardRow>, PlayerProviderError>(
            PlayerProviderError::InvalidResponse,
        ),
        nickname_valid(nickname@) ==> {
            let m = matching_rows(response.rows@, nickname_key(trimmed(nickname@)));
            if m.len() > MAX_PREVIEWS {
                r == Err::<Vec<&'a LeaderboardRow>, PlayerProviderError>(
                    PlayerProviderError::ResponseTooLarge,
                )
            } else {
                r matches Ok(v) && deref_rows(v@) == m
            }
        },
{
    let expected = match normalize_player_nickname_key(nickname) {
        Ok(key) => key,
        Err(_) => {
            return Err(PlayerProviderError::InvalidResponse);
        },
    };
    let ghost key = expected@;
    let mut matches: Vec<&'a LeaderboardRow> = Vec::new();
    let mut i: usize = 0;
    while i < response.rows.len()
        invariant
            i <= response.rows@.len(),
            expected@ == key,
            deref_rows(matches@) == matching_rows(response.rows@.take(i as int), key),
        decreases response.rows.len() - i,
    {
        let row = &response.rows[i];
        let hit = match normalize_player_nickname_key(row.nickname.as_str()) {
            Ok(k) => str_eq(k.as_str(), expected.as_str()),
            Err(_) => false,
        };
        proof {
            assert(response.rows@.take(i + 1) =~= response.rows@.take(i as int).push(*row));
            response.rows@.take(i as int).lemma_filter_push(
                *row,
                |row: LeaderboardRow| row_matches_key(row, key),
            );
        }
        if hit {
            matches.push(row);
        }
        i = i + 1;
        proof {
            assert(deref_rows(matches@) =~= matching_rows(response.rows@.take(i as int), key));
        }
    }
    proof {
        assert(response.rows@.take(response.rows@.len() as int) =~= response.rows@);
    }
    if matches.len() > MAX_PREVIEWS {
        return Err(PlayerProviderError::ResponseTooLarge);
    }
    Ok(matches)
}

/// A copy of a validated response.
pub fn copy_leaderboard(v: &ValidatedLeaderboard) -> (r: ValidatedLeaderboard)
    ensures
        r.rows@ == v.rows@,
        r.response_bytes == v.response_bytes,
{
    let mut rows: Vec<LeaderboardRow> = Vec::new();
    let mut i: usize = 0;
    while i < v.rows.len()
        invariant
            i <= v.rows@.len(),
            rows@ == v.rows@.take(i as int),
        decreases v.rows.len() - i,
    {
        rows.push(v.rows[i].clone());
        i = i + 1;
        assert(rows@ =~= v.rows@.take(i as int));
    }
    assert(v.rows@.take(v.rows@.len() as int) =~= v.rows@);
    ValidatedLeaderboard { rows, response_bytes: v.response_bytes }
}

/// The provider while no reviewed configuration is active: it never
/// contacts anything.
pub struct DisabledProvider;

impl DisabledProvider {
    pub fn lookup(&self) -> (r: Result<ValidatedLeaderboard, PlayerProviderError>)
        ensures
            r == Err::<ValidatedLeaderboard, PlayerProviderError>(
                PlayerProviderError::ProviderDisabled,
            ),
    {
        Err(PlayerProviderError::ProviderDisabled)
    }
}

/// A provider that answers every lookup with one fixed, validated response.
pub struct SyntheticProvider {
    pub response: Result<ValidatedLeaderboard, PlayerProviderError>,
}

impl SyntheticProvider {
    pub fn from_response(body: &JsonValue, response_bytes: usize) -> (r: Result<
        Self,
        PlayerProviderError,
    >)
        ensures
            r matches Ok(p) && match response_error(*body, response_bytes) {
                Some(e) => p.response == Err::<ValidatedLeaderboard, PlayerProviderError>(e),
                None => p.response matches Ok(v) && response_read(v, *body, response_bytes),
            },
    {
        Ok(SyntheticProvider { response: validate_response(body, response_bytes) })
    }

    /// The fixed response, again.
    pub fn lookup(&self) -> (r: Result<ValidatedLeaderboard, PlayerProviderError>)
        ensures
            match self.response {
                Ok(v) => r matches Ok(w) && w.rows@ == v.rows@ && w.response_bytes == v.response_bytes,
                Err(e) => r == Err::<ValidatedLeaderboard, PlayerProviderError>(e),
            },
    {
        match &self.response {
            Ok(v) => Ok(copy_leaderboard(v)),
            Err(e) => Err(*e),
        }
    }
}

} // verus!
