//! The official MTGO deck provider: consent-gated interactive lookup,
//! candidate validation and candidate ordering.
use vstd::prelude::*;

use crate::domain::{RepoError, UtcMillis};
use crate::keyed::KeyedMap;
use crate::text::{
    copy_string, eq_ignore_ascii_case, eq_ignore_ascii_case_spec, is_blank, lemma_lex_le_reflexive,
    lemma_lex_le_total, lemma_lex_le_transitive, lex_le, str_eq, str_le, trim_string, trimmed,
};
use crate::weburl::{append_query_pairs, pairs_view, parse_url, url_parse, url_with_query, ParsedUrl, UrlParts};

verus! {

pub const PROVIDER_ID: &'static str = "official_mtgo";

pub const OFFICIAL_DECKLIST_URL: &'static str = "https://www.mtgo.com/decklists";

pub const MAX_RESPONSE_BYTES: usize = 2 * 1024 * 1024;

pub const MAX_AUTOMATIC_ATTEMPTS: u8 = 3;

#[derive(Clone, Copy, Debug, PartialEq, Eq, Structural)]
pub enum AccessMode {
    InteractiveRequired,
}

#[derive(Debug, PartialEq, Eq)]
pub struct ProviderConsent {
    pub granted: bool,
    pub disclosed_fields: Vec<String>,
}

/// The only disclosure the official provider may receive.
pub open spec fn official_fields() -> Seq<Seq<char>> {
    seq!["confirmed_handle"@, "format"@]
}

pub open spec fn strings_view(v: Seq<String>) -> Seq<Seq<char>> {
    v.map_values(|s: String| s@)
}

impl ProviderConsent {
    pub fn official_decks(granted: bool) -> (r: Self)
        ensures
            r.granted == granted,
            strings_view(r.disclosed_fields@) == official_fields(),
    {
        let mut fields: Vec<String> = Vec::new();
        fields.push(copy_string("confirmed_handle"));
        fields.push(copy_string("format"));
        assert(strings_view(fields@) =~= official_fields());
        ProviderConsent { granted, disclosed_fields: fields }
    }

    pub open spec fn spec_permits_lookup(&self) -> bool {
        self.granted && strings_view(self.disclosed_fields@) == official_fields()
    }

    /// Granted, for exactly the handle and the format.
    pub fn permits_lookup(&self) -> (r: bool)
        ensures
            r == self.spec_permits_lookup(),
    {
        if !self.granted || self.disclosed_fields.len() != 2 {
            assert(strings_view(self.disclosed_fields@).len() == self.disclosed_fields@.len());
            assert(official_fields().len() == 2);
            return false;
        }
        let ok = str_eq(self.disclosed_fields[0].as_str(), "confirmed_handle") && str_eq(
            self.disclosed_fields[1].as_str(),
            "format",
        );
        proof {
            if ok {
                assert(strings_view(self.disclosed_fields@) =~= official_fields());
            } else {
                if strings_view(self.disclosed_fields@) == official_fields() {
                    assert(strings_view(self.disclosed_fields@)[0] == self.disclosed_fields@[0]@);
                    assert(strings_view(self.disclosed_fields@)[1] == self.disclosed_fields@[1]@);
                }
            }
        }
        ok
    }
}

#[derive(Debug, PartialEq, Eq)]
pub struct RequestBinding {
    pub encounter_generation: u64,
    pub request_token: String,
    pub confirmed_handle: String,
    pub format: String,
}

impl Clone for RequestBinding {
    fn clone(&self) -> (r: Self)
        ensures
            r == *self,
    {
        RequestBinding {
            encounter_generation: self.encounter_generation,
            request_token: self.request_token.clone(),
            confirmed_handle: self.confirmed_handle.clone(),
            format: self.format.clone(),
        }
    }
}

#[derive(Debug, PartialEq, Eq)]
pub enum LookupOutcome {
    InteractiveRequired { access_mode: AccessMode, official_url: String, binding: RequestBinding },
}

#[derive(Clone, Copy, Debug, PartialEq, Eq, Structural)]
pub enum DeckZone {
    Main,
    Sideboard,
}

impl DeckZone {
    pub fn as_str(&self) -> (r: &'static str)
        ensures
            *self == DeckZone::Main ==> r@ == "main"@,
            *self == DeckZone::Sideboard ==> r@ == "sideboard"@,
    {
        match self {
            DeckZone::Main => "main",
            DeckZone::Sideboard => "sideboard",
        }
    }
}

#[derive(Debug, PartialEq, Eq)]
pub struct DeckCard {
    pub oracle_id: String,
    pub display_name: String,
    pub zone: DeckZone,
    pub quantity: u16,
    pub basic_land: bool,
}

#[derive(Debug, PartialEq, Eq)]
pub struct DeckCandidate {
    pub provider: String,
    pub event: String,
    pub format: String,
    pub publication_date: UtcMillis,
    pub source_url: String,
    pub provider_label: Option<String>,
    pub response_token: String,
    pub encounter_generation: u64,
    pub cards: Vec<DeckCard>,
}

/// The number of cards in `zone`.
pub open spec fn zone_total(cards: Seq<DeckCard>, zone: DeckZone) -> int
    decreases cards.len(),
{
    if cards.len() == 0 {
        0
    } else {
        zone_total(cards.drop_last(), zone) + if cards.last().zone == zone {
            cards.last().quantity as int
        } else {
            0
        }
    }
}

pub proof fn lemma_zone_total_bound(cards: Seq<DeckCard>, zone: DeckZone)
    ensures
        0 <= zone_total(cards, zone) <= cards.len() * 65535,
    decreases cards.len(),
{
    if cards.len() > 0 {
        lemma_zone_total_bound(cards.drop_last(), zone);
    }
}

/// A constructed deck: 60 to 250 main-deck cards and at most 15 in the
/// sideboard.
pub open spec fn complete_deck(cards: Seq<DeckCard>) -> bool {
    60 <= zone_total(cards, DeckZone::Main) <= 250 && zone_total(cards, DeckZone::Sideboard) <= 15
}

fn count_zone(cards: &Vec<DeckCard>, zone: DeckZone) -> (n: u128)
    ensures
        n == zone_total(cards@, zone),
{
    let mut total: u128 = 0;
    let mut i: usize = 0;
    while i < cards.len()
        invariant
            i <= cards@.len(),
            total == zone_total(cards@.subrange(0, i as int), zone),
            total <= i * 65535,
        decreases cards.len() - i,
    {
        proof {
            let next = cards@.subrange(0, i + 1);
            assert(next.drop_last() =~= cards@.subrange(0, i as int));
        }
        if cards[i].zone == zone {
            total = total + cards[i].quantity as u128;
        }
        i = i + 1;
    }
    assert(cards@.subrange(0, cards@.len() as int) =~= cards@);
    total
}

impl DeckCandidate {
    pub fn is_complete(&self) -> (r: bool)
        ensures
            r == complete_deck(self.cards@),
    {
        let main = count_zone(&self.cards, DeckZone::Main);
        let sideboard = count_zone(&self.cards, DeckZone::Sideboard);
        60 <= main && main <= 250 && sideboard <= 15
    }
}

#[derive(Debug, PartialEq, Eq)]
pub struct ProviderResponse {
    pub content_type: String,
    pub body_size: usize,
    pub candidates: Vec<DeckCandidate>,
}

#[derive(Clone, Copy, Debug, PartialEq, Eq, Structural)]
pub struct RetrySummary {
    pub attempts: u8,
    pub manual_retry_available: bool,
}

/// An https URL on mtgo.com or www.mtgo.com without credentials.
pub open spec fn official_url_ok(p: UrlParts) -> bool {
    &&& p.scheme == "https"@
    &&& p.host matches Some(h) && (h == "mtgo.com"@ || h == "www.mtgo.com"@)
    &&& p.username.len() == 0
    &&& p.password is None
}

pub fn validate_official_url(value: &str) -> (r: Result<ParsedUrl, RepoError>)
    ensures
        match url_parse(value@) {
            Some(p) => if official_url_ok(p) {
                r matches Ok(u) && u@ == p
            } else {
                r == Err::<ParsedUrl, RepoError>(RepoError::UnsafeSource)
            },
            None => r == Err::<ParsedUrl, RepoError>(RepoError::UnsafeSource),
        },
{
    let url = match parse_url(value) {
        Some(url) => url,
        None => {
            return Err(RepoError::UnsafeSource);
        },
    };
    let host_ok = match &url.host {
        Some(h) => str_eq(h.as_str(), "mtgo.com") || str_eq(h.as_str(), "www.mtgo.com"),
        None => false,
    };
    if !host_ok || !str_eq(url.scheme.as_str(), "https") || !url.username.as_str().is_empty()
        || url.password.is_some() {
        return Err(RepoError::UnsafeSource);
    }
    Ok(url)
}

/// A card row a provider may send.
pub open spec fn card_row_ok(card: DeckCard) -> bool {
    &&& trimmed(card.oracle_id@).len() > 0
    &&& trimmed(card.display_name@).len() > 0
    &&& card.quantity != 0
    &&& card.quantity <= 250
}

/// The reason a candidate is refused, checked in order.
pub open spec fn candidate_error(c: DeckCandidate, expected_format: Seq<char>) -> Option<RepoError> {
    if c.provider@ != PROVIDER_ID@ || trimmed(c.event@).len() == 0 || trimmed(
        c.response_token@,
    ).len() == 0 || !eq_ignore_ascii_case_spec(c.format@, expected_format) {
        Some(RepoError::ProviderInvalidResponse)
    } else if !(url_parse(c.source_url@) matches Some(p) && official_url_ok(p)) {
        Some(RepoError::UnsafeSource)
    } else if c.cards.len() == 0 || c.cards.len() > 500 || exists|i: int|
        0 <= i < c.cards.len() && !card_row_ok(#[trigger] c.cards@[i]) {
        Some(RepoError::ProviderInvalidResponse)
    } else if !complete_deck(c.cards@) {
        Some(RepoError::DeckIncomplete)
    } else {
        None
    }
}

#[verifier::loop_isolation(false)]
pub fn validate_candidate(candidate: &DeckCandidate, expected_format: &str) -> (r: Result<
    (),
    RepoError,
>)
    ensures
        match candidate_error(*candidate, expected_format@) {
            Some(e) => r == Err::<(), RepoError>(e),
            None => r is Ok,
        },
{
    if !str_eq(candidate.provider.as_str(), PROVIDER_ID) || is_blank(candidate.event.as_str())
        || is_blank(candidate.response_token.as_str()) || !eq_ignore_ascii_case(
        candidate.format.as_str(),
        expected_format,
    ) {
        return Err(RepoError::ProviderInvalidResponse);
    }
    validate_official_url(candidate.source_url.as_str())?;
    if candidate.cards.len() == 0 || candidate.cards.len() > 500 {
        return Err(RepoError::ProviderInvalidResponse);
    }
    let mut i: usize = 0;
    while i < candidate.cards.len()
        invariant
            i <= candidate.cards@.len(),
            forall|j: int| 0 <= j < i ==> card_row_ok(#[trigger] candidate.cards@[j]),
        decreases candidate.cards.len() - i,
    {
        let card = &candidate.cards[i];
        if is_blank(card.oracle_id.as_str()) || is_blank(card.display_name.as_str())
            || card.quantity == 0 || card.quantity > 250 {
            assert(!card_row_ok(candidate.cards@[i as int]));
            return Err(RepoError::ProviderInvalidResponse);
        }
        i = i + 1;
    }
    if !candidate.is_complete() {
        return Err(RepoError::DeckIncomplete);
    }
    Ok(())
}

/// The first candidate error, in candidate order.
pub open spec fn first_candidate_error(
    cs: Seq<DeckCandidate>,
    expected_format: Seq<char>,
) -> Option<RepoError>
    decreases cs.len(),
{
    if cs.len() == 0 {
        None
    } else {
        match candidate_error(cs[0], expected_format) {
            Some(e) => Some(e),
            None => first_candidate_error(cs.drop_first(), expected_format),
        }
    }
}

pub open spec fn response_error(resp: ProviderResponse, expected_format: Seq<char>) -> Option<
    RepoError,
> {
    if resp.body_size > MAX_RESPONSE_BYTES || resp.content_type@ != "application/json"@
        || resp.candidates.len() > 100 {
        Some(RepoError::ProviderInvalidResponse)
    } else {
        first_candidate_error(resp.candidates@, expected_format)
    }
}

#[verifier::loop_isolation(false)]
pub fn validate_response(response: &ProviderResponse, expected_format: &str) -> (r: Result<
    (),
    RepoError,
>)
    ensures
        match response_error(*response, expected_format@) {
            Some(e) => r == Err::<(), RepoError>(e),
            None => r is Ok,
        },
{
    if response.body_size > MAX_RESPONSE_BYTES || !str_eq(
        response.content_type.as_str(),
        "application/json",
    ) || response.candidates.len() > 100 {
        return Err(RepoError::ProviderInvalidResponse);
    }
    let mut i: usize = 0;
    assert(response.candidates@.subrange(0, response.candidates@.len() as int)
        =~= response.candidates@);
    while i < response.candidates.len()
        invariant
            i <= response.candidates@.len(),
            first_candidate_error(response.candidates@, expected_format@)
                == first_candidate_error(
                response.candidates@.subrange(i as int, response.candidates@.len() as int),
                expected_format@,
            ),
        decreases response.candidates.len() - i,
    {
        let ghost rest = response.candidates@.subrange(i as int, response.candidates@.len() as int);
        assert(rest[0] == response.candidates@[i as int]);
        assert(rest.drop_first() =~= response.candidates@.subrange(
            i + 1,
            response.candidates@.len() as int,
        ));
        validate_candidate(&response.candidates[i], expected_format)?;
        i = i + 1;
    }
    Ok(())
}

pub struct OfficialDeckProvider {
    pending: KeyedMap<RequestBinding>,
}

pub open spec fn lookup_url_pairs(handle: Seq<char>, format: Seq<char>) -> Seq<
    (Seq<char>, Seq<char>),
> {
    seq![("player"@, handle), ("format"@, format)]
}

impl OfficialDeckProvider {
    pub closed spec fn wf(&self) -> bool {
        self.pending.wf()
    }

    /// Outstanding lookups, by request token.
    pub closed spec fn pending(&self) -> Map<Seq<char>, RequestBinding> {
        self.pending.map()
    }

    pub fn new() -> (r: Self)
        ensures
            r.wf(),
            r.pending() == Map::<Seq<char>, RequestBinding>::empty(),
    {
        OfficialDeckProvider { pending: KeyedMap::new() }
    }

    pub fn access_mode(&self) -> (r: AccessMode)
        ensures
            r == AccessMode::InteractiveRequired,
    {
        AccessMode::InteractiveRequired
    }

    /// Binds a consented, minimal lookup (handle and format only) to its
    /// request token and hands back the official page to open.
    pub fn lookup(
        &mut self,
        consent: &ProviderConsent,
        confirmed_handle: &str,
        format: &str,
        encounter_generation: u64,
        request_token: &str,
    ) -> (r: Result<LookupOutcome, RepoError>)
        requires
            old(self).wf(),
        ensures
            final(self).wf(),
            !consent.spec_permits_lookup() ==> r == Err::<LookupOutcome, RepoError>(
                RepoError::ConsentRequired) && final(self).pending() == old(self).pending(),
            consent.spec_permits_lookup() && (trimmed(confirmed_handle@).len() == 0 || trimmed(
                format@,
            ).len() == 0 || trimmed(request_token@).len() == 0) ==> r == Err::<
                LookupOutcome,
                RepoError,
            >(RepoError::InvalidRequest) && final(self).pending() == old(self).pending(),
            r is Ok ==> consent.spec_permits_lookup(),
            r matches Ok(LookupOutcome::InteractiveRequired { access_mode, official_url, binding }) ==> {
                &&& access_mode == AccessMode::InteractiveRequired
                &&& binding.encounter_generation == encounter_generation
                &&& binding.request_token@ == request_token@
                &&& binding.confirmed_handle@ == trimmed(confirmed_handle@)
                &&& binding.format@ == trimmed(format@)
                &&& url_with_query(
                    OFFICIAL_DECKLIST_URL@,
                    lookup_url_pairs(trimmed(confirmed_handle@), trimmed(format@)),
                ) == Some(official_url@)
                &&& final(self).pending() == old(self).pending().insert(request_token@, binding)
            },
            consent.spec_permits_lookup() && trimmed(confirmed_handle@).len() > 0 && trimmed(
                format@,
            ).len() > 0 && trimmed(request_token@).len() > 0 ==> match url_with_query(
                OFFICIAL_DECKLIST_URL@,
                lookup_url_pairs(trimmed(confirmed_handle@), trimmed(format@)),
            ) {
                None => r == Err::<LookupOutcome, RepoError>(RepoError::ProviderInvalidResponse)
                    && final(self).pending() == old(self).pending(),
                Some(_) => r matches Ok(LookupOutcome::InteractiveRequired { .. }),
            },
    {
        if !consent.permits_lookup() {
            return Err(RepoError::ConsentRequired);
        }
        let confirmed_handle = trim_string(confirmed_handle);
        let format = trim_string(format);
        if confirmed_handle.as_str().is_empty() || format.as_str().is_empty() || is_blank(
            request_token,
        ) {
            return Err(RepoError::InvalidRequest);
        }
        let mut pairs: Vec<(String, String)> = Vec::new();
        pairs.push((copy_string("player"), confirmed_handle.clone()));
        pairs.push((copy_string("format"), format.clone()));
        proof {
            assert(pairs_view(pairs@) =~= lookup_url_pairs(confirmed_handle@, format@));
        }
        let official_url = match append_query_pairs(OFFICIAL_DECKLIST_URL, &pairs) {
            Some(url) => url,
            None => {
                return Err(RepoError::ProviderInvalidResponse);
            },
        };
        let binding = RequestBinding {
            encounter_generation,
            request_token: copy_string(request_token),
            confirmed_handle,
            format,
        };
        self.pending.insert(copy_string(request_token), binding.clone());
        Ok(
            LookupOutcome::InteractiveRequired {
                access_mode: AccessMode::InteractiveRequired,
                official_url,
                binding,
            },
        )
    }

    /// A received candidate may be confirmed only against the outstanding
    /// lookup of its token, in the active generation and format.
    pub fn validate_confirmation(
        &self,
        candidate: &DeckCandidate,
        active_generation: u64,
        active_format: &str,
    ) -> (r: Result<RequestBinding, RepoError>)
        requires
            self.wf(),
        ensures
            !self.pending().contains_key(candidate.response_token@) ==> r == Err::<
                RequestBinding,
                RepoError,
            >(RepoError::StaleProviderResult),
            self.pending().contains_key(candidate.response_token@) ==> ({
                let b = self.pending()[candidate.response_token@];
                if b.encounter_generation != active_generation || candidate.encounter_generation
                    != active_generation || !eq_ignore_ascii_case_spec(b.format@, active_format@)
                    || !eq_ignore_ascii_case_spec(candidate.format@, active_format@) {
                    r == Err::<RequestBinding, RepoError>(RepoError::StaleProviderResult)
                } else {
                    match candidate_error(*candidate, active_format@) {
                        Some(e) => r == Err::<RequestBinding, RepoError>(e),
                        None => r == Ok::<RequestBinding, RepoError>(b),
                    }
                }
            }),
    {
        let binding = match self.pending.get(candidate.response_token.as_str()) {
            Some(b) => b,
            None => {
                return Err(RepoError::StaleProviderResult);
            },
        };
        if binding.encounter_generation != active_generation || candidate.encounter_generation
            != active_generation || !eq_ignore_ascii_case(binding.format.as_str(), active_format)
            || !eq_ignore_ascii_case(candidate.format.as_str(), active_format) {
            return Err(RepoError::StaleProviderResult);
        }
        validate_candidate(candidate, active_format)?;
        Ok(binding.clone())
    }

    /// Forgets every outstanding lookup of an older generation.
    pub fn invalidate_before(&mut self, active_generation: u64) -> (r: Result<(), RepoError>)
        requires
            old(self).wf(),
        ensures
            final(self).wf(),
            r is Ok,
            final(self).pending() == old(self).pending().restrict(
                old(self).pending().dom().filter(
                    |k: Seq<char>| old(self).pending()[k].encounter_generation >= active_generation,
                ),
            ),
    {
        let keep = |b: &RequestBinding| -> (r: bool)
            ensures
                r == (b.encounter_generation >= active_generation),
            { b.encounter_generation >= active_generation };
        self.pending.retain(
            keep,
            Ghost(|b: RequestBinding| b.encounter_generation >= active_generation),
        );
        Ok(())
    }
}

/// Presentation order of candidates: exact format first, then newest
/// publication, then by response token.
pub open spec fn candidate_le(a: DeckCandidate, b: DeckCandidate, fmt: Seq<char>) -> bool {
    let ea = eq_ignore_ascii_case_spec(a.format@, fmt);
    let eb = eq_ignore_ascii_case_spec(b.format@, fmt);
    if ea != eb {
        ea
    } else if a.publication_date.0 != b.publication_date.0 {
        a.publication_date.0 > b.publication_date.0
    } else {
        lex_le(a.response_token@, b.response_token@)
    }
}

pub open spec fn candidates_sorted(s: Seq<DeckCandidate>, fmt: Seq<char>) -> bool {
    forall|i: int, j: int| 0 <= i < j < s.len() ==> #[trigger] candidate_le(s[i], s[j], fmt)
}

proof fn lemma_candidate_le_total(a: DeckCandidate, b: DeckCandidate, fmt: Seq<char>)
    ensures
        candidate_le(a, b, fmt) || candidate_le(b, a, fmt),
{
    lemma_lex_le_total(a.response_token@, b.response_token@);
}

proof fn lemma_candidate_le_transitive(
    a: DeckCandidate,
    b: DeckCandidate,
    c: DeckCandidate,
    fmt: Seq<char>,
)
    requires
        candidate_le(a, b, fmt),
        candidate_le(b, c, fmt),
    ensures
        candidate_le(a, c, fmt),
{
    if eq_ignore_ascii_case_spec(a.format@, fmt) == eq_ignore_ascii_case_spec(b.format@, fmt)
        && eq_ignore_ascii_case_spec(b.format@, fmt) == eq_ignore_ascii_case_spec(c.format@, fmt)
        && a.publication_date.0 == b.publication_date.0 && b.publication_date.0
        == c.publication_date.0 {
        lemma_lex_le_transitive(a.response_token@, b.response_token@, c.response_token@);
    }
}

fn candidate_le_exec(a: &DeckCandidate, b: &DeckCandidate, fmt: &str) -> (r: bool)
    ensures
        r == candidate_le(*a, *b, fmt@),
{
    let ea = eq_ignore_ascii_case(a.format.as_str(), fmt);
    let eb = eq_ignore_ascii_case(b.format.as_str(), fmt);
    if ea != eb {
        ea
    } else if a.publication_date.0 != b.publication_date.0 {
        a.publication_date.0 > b.publication_date.0
    } else {
        str_le(a.response_token.as_str(), b.response_token.as_str())
    }
}

/// The candidates in presentation order: exact format first, newest first,
/// then by response token. Nothing is added or dropped.
pub fn select_candidates(candidates: Vec<DeckCandidate>, expected_format: &str) -> (r: Vec<
    DeckCandidate,
>)
    ensures
        r@.to_multiset() == candidates@.to_multiset(),
        candidates_sorted(r@, expected_format@),
{
    let ghost fmt = expected_format@;
    let ghost input = candidates@;
    let mut rest = candidates;
    let mut sorted: Vec<DeckCandidate> = Vec::new();
    let mut n: usize = 0;
    assert(input.len() == rest.len());
    proof {
        assert(input.subrange(0, 0) =~= sorted@);
        assert(rest@ =~= input.subrange(0, input.len() as int));
    }
    while rest.len() > 0
        invariant
            input.len() <= usize::MAX,
            n + rest@.len() == input.len(),
            rest@ == input.subrange(n as int, input.len() as int),
            sorted@.to_multiset() == input.subrange(0, n as int).to_multiset(),
            candidates_sorted(sorted@, fmt),
            fmt == expected_format@,
        decreases rest@.len(),
    {
        let x = rest.remove(0);
        proof {
            assert(x == input[n as int]);
            assert(rest@ =~= input.subrange(n + 1, input.len() as int));
        }
        let mut p: usize = 0;
        while p < sorted.len() && candidate_le_exec(&sorted[p], &x, expected_format)
            invariant
                p <= sorted@.len(),
                forall|k: int| 0 <= k < p ==> #[trigger] candidate_le(sorted@[k], x, fmt),
                fmt == expected_format@,
            decreases sorted.len() - p,
        {
            p = p + 1;
        }
        let ghost before = sorted@;
        proof {
            if p < before.len() {
                lemma_candidate_le_total(before[p as int], x, fmt);
            }
        }
        sorted.insert(p, x);
        proof {
            assert(sorted@ == before.insert(p as int, x));
            vstd::seq_lib::to_multiset_insert(before, p as int, x);
            let prefix = input.subrange(0, n + 1);
            assert(prefix =~= input.subrange(0, n as int).push(x));
            vstd::seq_lib::to_multiset_build(input.subrange(0, n as int), x);
            assert forall|i: int, j: int| 0 <= i < j < sorted@.len() implies #[trigger] candidate_le(
                sorted@[i],
                sorted@[j],
                fmt,
            ) by {
                if j < p {
                    assert(sorted@[i] == before[i] && sorted@[j] == before[j]);
                } else if j == p {
                    assert(sorted@[i] == before[i]);
                } else if i == p {
                    assert(sorted@[j] == before[j - 1]);
                    if j - 1 > p {
                        assert(candidate_le(before[p as int], before[j - 1], fmt));
                        lemma_candidate_le_transitive(x, before[p as int], before[j - 1], fmt);
                    }
                } else if i < p {
                    assert(sorted@[i] == before[i] && sorted@[j] == before[j - 1]);
                    assert(candidate_le(before[i], x, fmt));
                    if j - 1 >= p {
                        assert(candidate_le(x, before[p as int], fmt));
                        if j - 1 > p {
                            assert(candidate_le(before[p as int], before[j - 1], fmt));
                            lemma_candidate_le_transitive(x, before[p as int], before[j - 1], fmt);
                        }
                        lemma_candidate_le_transitive(before[i], x, before[j - 1], fmt);
                    }
                } else {
                    assert(sorted@[i] == before[i - 1] && sorted@[j] == before[j - 1]);
                }
            }
        }
        n = n + 1;
    }
    proof {
        assert(input.subrange(0, input.len() as int) =~= input);
    }
    sorted
}

/// An attempt that failed with an error worth retrying.
pub open spec fn failed_retryably<T>(o: Result<T, RepoError>) -> bool {
    o matches Err(e) && e.spec_retryable_provider_error()
}

/// What the attempts came to, given their results `outs` in order: every
/// attempt but the last failed with a retryable provider error, and the
/// last either succeeded, failed otherwise, or was the third. The reply is
/// the last attempt's value or error with the number of attempts made; a
/// manual retry is offered after a failure.
pub open spec fn retry_outcome<T>(
    outs: Seq<Result<T, RepoError>>,
    r: Result<(T, RetrySummary), (RepoError, RetrySummary)>,
) -> bool {
    let n = outs.len();
    &&& 1 <= n <= MAX_AUTOMATIC_ATTEMPTS
    &&& forall|i: int|
        0 <= i < n - 1 ==> failed_retryably(#[trigger] outs[i])
    &&& match outs[n - 1] {
        Ok(v) => r == Ok::<(T, RetrySummary), (RepoError, RetrySummary)>(
            (v, RetrySummary { attempts: n as u8, manual_retry_available: false }),
        ),
        Err(e) => {
            &&& (n == MAX_AUTOMATIC_ATTEMPTS || !e.spec_retryable_provider_error())
            &&& r == Err::<(T, RetrySummary), (RepoError, RetrySummary)>(
                (e, RetrySummary { attempts: n as u8, manual_retry_available: true }),
            )
        },
    }
}

/// `outs` are what `attempt` returned when called with numbers 1, 2, ...
/// in turn (`calls[i]` is `attempt` as it stood at call `i + 1`), and `r`
/// is the reply they come to.
pub open spec fn retry_record<T, F: FnMut(u8) -> Result<T, RepoError>>(
    attempt: F,
    calls: Seq<F>,
    outs: Seq<Result<T, RepoError>>,
    r: Result<(T, RetrySummary), (RepoError, RetrySummary)>,
) -> bool {
    &&& calls.len() == outs.len()
    &&& calls.len() > 0
    &&& calls[0] == attempt
    &&& forall|i: int|
        0 <= i < outs.len() ==> call_ensures(#[trigger] calls[i], ((i + 1) as u8,), outs[i])
    &&& retry_outcome(outs, r)
}

/// Runs `attempt` with attempt numbers 1, 2, 3, retrying only retryable
/// provider errors and stopping at the first success; after the last
/// failure a manual retry is offered. `calls[i]` is `attempt` as it stood
/// when it was called with number `i + 1`.
pub fn execute_retry<T, F: FnMut(u8) -> Result<T, RepoError>>(attempt: F) -> (r: Result<
    (T, RetrySummary),
    (RepoError, RetrySummary),
>)
    requires
        forall|n: u8| #[trigger] call_requires(attempt, (n,)),
    ensures
        exists|calls: Seq<F>, outs: Seq<Result<T, RepoError>>|
            #[trigger] retry_record(attempt, calls, outs, r),
{
    let ghost given = attempt;
    let mut tries = attempt;
    let mut number: u8 = 1;
    let ghost mut calls: Seq<F> = Seq::empty();
    let ghost mut outs: Seq<Result<T, RepoError>> = Seq::empty();
    loop
        invariant
            1 <= number <= MAX_AUTOMATIC_ATTEMPTS,
            given == attempt,
            forall|n: u8| #[trigger] call_requires(tries, (n,)),
            calls.len() == outs.len() == number - 1,
            calls.len() > 0 ==> calls[0] == given,
            calls.len() == 0 ==> tries == given,
            forall|i: int|
                0 <= i < outs.len() ==> call_ensures(#[trigger] calls[i], ((i + 1) as u8,), outs[i]),
            forall|i: int|
                0 <= i < outs.len() ==> failed_retryably(#[trigger] outs[i]),
        decreases MAX_AUTOMATIC_ATTEMPTS - number,
    {
        let ghost before = tries;
        let out = tries(number);
        proof {
            assert(call_ensures(before, (number,), out));
            calls = calls.push(before);
            outs = outs.push(out);
            assert(calls[calls.len() - 1] == before);
        }
        match out {
            Ok(value) => {
                let r = Ok((value, RetrySummary { attempts: number, manual_retry_available: false }));
                proof {
                    assert(retry_outcome(outs, r));
                    assert(retry_record(given, calls, outs, r));
                }
                return r;
            },
            Err(error) => {
                if error.retryable_provider_error() && number < MAX_AUTOMATIC_ATTEMPTS {
                    number = number + 1;
                } else {
                    let r = Err((error, RetrySummary { attempts: number, manual_retry_available: true }));
                    proof {
                        assert(retry_outcome(outs, r));
                        assert(retry_record(given, calls, outs, r));
                    }
                    return r;
                }
            },
        }
    }
}

} // verus!
