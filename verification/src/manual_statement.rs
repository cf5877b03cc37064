//! The immutable statement a manual official-source preview shows: its
//! canonical payload, its source key, and the two digests that bind it, the
//! source digest over the source content alone and the preview digest over
//! that content together with the identity, its revision and the time.
use vstd::prelude::*;

use crate::canonical::{json_wf, items_wf, key_lt, keys_increasing, members_wf};
use crate::canonical::{canonical_text, items_text, members_text};
use crate::domain::{RepoError, UtcMillis};
use crate::json::{json_str, JsonNumber, JsonValue};
use crate::player_evidence::{approved_field_names, approved_fields, ManualEvidenceInput};
use crate::player_models::{
    canonical_digest, canonical_digest_of, nickname_valid, official_parts, official_source_key,
    source_key_of, source_parts_ok, DeckContentsKind, EvidenceKind, EvidenceProvenance, PlayerCard,
    PlayerEvidence, PlayerEvidenceId, PlayerId, PlayerPreviewToken, CANONICALIZATION_VERSION,
    EVIDENCE_SCHEMA_VERSION,
};
use crate::domain::valid_id;
use crate::text::{copy_string, lex_le, str_eq, str_le, trim_string, trimmed};

verus! {

/// `a` sorts strictly before `b`.
pub open spec fn text_lt(a: Seq<char>, b: Seq<char>) -> bool {
    lex_le(a, b) && a != b
}

/// Card `x` sorts strictly before card `y`: by zone, then by oracle id.
pub open spec fn card_precedes(x: PlayerCard, y: PlayerCard) -> bool {
    ||| text_lt(x.zone@, y.zone@)
    ||| (x.zone@ == y.zone@ && text_lt(x.oracle_id@, y.oracle_id@))
}

/// `x` inserted into `s` ahead of the first card it sorts strictly before.
pub open spec fn insert_card(s: Seq<PlayerCard>, x: PlayerCard) -> Seq<PlayerCard>
    decreases s.len(),
{
    if s.len() == 0 {
        seq![x]
    } else if card_precedes(x, s[0]) {
        seq![x] + s
    } else {
        seq![s[0]] + insert_card(s.drop_first(), x)
    }
}

/// The cards in payload order: by zone, then oracle id, equal keys keeping
/// the order they were entered in.
pub open spec fn cards_in_order(cards: Seq<PlayerCard>) -> Seq<PlayerCard>
    decreases cards.len(),
{
    if cards.len() == 0 {
        Seq::empty()
    } else {
        insert_card(cards_in_order(cards.drop_last()), cards.last())
    }
}

proof fn lemma_insert_at(s: Seq<PlayerCard>, x: PlayerCard, j: int)
    requires
        0 <= j <= s.len(),
        forall|k: int| 0 <= k < j ==> !card_precedes(x, #[trigger] s[k]),
        j < s.len() ==> card_precedes(x, s[j]),
    ensures
        insert_card(s, x) == s.take(j) + seq![x] + s.skip(j),
    decreases s.len(),
{
    if s.len() == 0 {
        assert(s.take(j) + seq![x] + s.skip(j) =~= seq![x]);
    } else if j == 0 {
        assert(s.take(0) + seq![x] + s.skip(0) =~= seq![x] + s);
    } else {
        let t = s.drop_first();
        assert forall|k: int| 0 <= k < j - 1 implies !card_precedes(x, #[trigger] t[k]) by {
            assert(t[k] == s[k + 1]);
        }
        lemma_insert_at(t, x, j - 1);
        assert(s.take(j) + seq![x] + s.skip(j) =~= seq![s[0]] + (t.take(j - 1) + seq![x] + t.skip(
            j - 1,
        )));
    }
}

fn text_lt_exec(a: &str, b: &str) -> (r: bool)
    ensures
        r == text_lt(a@, b@),
{
    str_le(a, b) && !str_eq(a, b)
}

fn card_precedes_exec(x: &PlayerCard, y: &PlayerCard) -> (r: bool)
    ensures
        r == card_precedes(*x, *y),
{
    text_lt_exec(x.zone.as_str(), y.zone.as_str()) || (str_eq(x.zone.as_str(), y.zone.as_str())
        && text_lt_exec(x.oracle_id.as_str(), y.oracle_id.as_str()))
}

/// The cards in payload order.
pub fn sort_cards(cards: &[PlayerCard]) -> (r: Vec<PlayerCard>)
    ensures
        r@ == cards_in_order(cards@),
{
    let mut sorted: Vec<PlayerCard> = Vec::new();
    let mut i: usize = 0;
    while i < cards.len()
        invariant
            i <= cards@.len(),
            sorted@ == cards_in_order(cards@.take(i as int)),
        decreases cards.len() - i,
    {
        let x = &cards[i];
        let mut j: usize = 0;
        while j < sorted.len() && !card_precedes_exec(x, &sorted[j])
            invariant
                j <= sorted@.len(),
                *x == cards@[i as int],
                forall|k: int| 0 <= k < j ==> !card_precedes(*x, #[trigger] sorted@[k]),
            decreases sorted.len() - j,
        {
            j = j + 1;
        }
        proof {
            lemma_insert_at(sorted@, *x, j as int);
            assert(cards@.take(i + 1).drop_last() =~= cards@.take(i as int));
            assert(cards@.take(i + 1).last() == cards@[i as int]);
        }
        let ghost before = sorted@;
        sorted.insert(j, x.clone());
        assert(sorted@ =~= before.take(j as int) + seq![*x] + before.skip(j as int));
        i = i + 1;
    }
    assert(cards@.take(cards@.len() as int) =~= cards@);
    sorted
}

/// The member names this module writes, in the order they sort in.
proof fn lemma_member_names_in_order()
    ensures
        key_lt("attribution_url"@, "cards"@),
        key_lt("cards"@, "contents"@),
        key_lt("contents"@, "event_date"@),
        key_lt("attribution_url"@, "contents"@),
        key_lt("event_date"@, "event_title"@),
        key_lt("event_title"@, "format"@),
        key_lt("format"@, "placement"@),
        key_lt("placement"@, "record"@),
        key_lt("record"@, "source_nickname"@),
        key_lt("basicLand"@, "displayName"@),
        key_lt("displayName"@, "oracleId"@),
        key_lt("oracleId"@, "quantity"@),
        key_lt("quantity"@, "zone"@),
        key_lt("canonicalizationVersion"@, "identityId"@),
        key_lt("identityId"@, "identityRevision"@),
        key_lt("identityRevision"@, "observedAt"@),
        key_lt("observedAt"@, "payload"@),
        key_lt("payload"@, "sourceDigest"@),
        key_lt("sourceDigest"@, "sourceKey"@),
        key_lt("eventDate"@, "format"@),
{
    reveal_strlit("attribution_url");
    reveal_strlit("cards");
    reveal_strlit("contents");
    reveal_strlit("event_date");
    reveal_strlit("event_title");
    reveal_strlit("format");
    reveal_strlit("placement");
    reveal_strlit("record");
    reveal_strlit("source_nickname");
    reveal_strlit("basicLand");
    reveal_strlit("displayName");
    reveal_strlit("oracleId");
    reveal_strlit("quantity");
    reveal_strlit("zone");
    reveal_strlit("canonicalizationVersion");
    reveal_strlit("identityId");
    reveal_strlit("identityRevision");
    reveal_strlit("observedAt");
    reveal_strlit("payload");
    reveal_strlit("sourceDigest");
    reveal_strlit("sourceKey");
    reveal_strlit("eventDate");
    reveal_with_fuel(lex_le, 10);
    assert("attribution_url"@[0] != "cards"@[0]);
    assert("cards"@[1] != "contents"@[1]);
    assert("contents"@[0] != "event_date"@[0]);
    assert("attribution_url"@[0] != "contents"@[0]);
    assert("event_date"@[6] != "event_title"@[6]);
    assert("event_title"@[0] != "format"@[0]);
    assert("format"@[0] != "placement"@[0]);
    assert("placement"@[0] != "record"@[0]);
    assert("record"@[0] != "source_nickname"@[0]);
    assert("basicLand"@[0] != "displayName"@[0]);
    assert("displayName"@[0] != "oracleId"@[0]);
    assert("oracleId"@[0] != "quantity"@[0]);
    assert("quantity"@[0] != "zone"@[0]);
    assert("canonicalizationVersion"@[0] != "identityId"@[0]);
    assert("identityId"@[8] != "identityRevision"@[8]);
    assert("identityRevision"@[0] != "observedAt"@[0]);
    assert("observedAt"@[0] != "payload"@[0]);
    assert("payload"@[0] != "sourceDigest"@[0]);
    assert("sourceDigest"@[6] != "sourceKey"@[6]);
    assert("eventDate"@[0] != "format"@[0]);
}

/// Appends a member whose name sorts after every name before it.
fn push_member(entries: &mut Vec<(String, JsonValue)>, name: &str, value: JsonValue)
    requires
        keys_increasing(old(entries)@),
        members_wf(old(entries)@),
        json_wf(value),
        old(entries)@.len() > 0 ==> key_lt(old(entries)@.last().0@, name@),
    ensures
        keys_increasing(final(entries)@),
        members_wf(final(entries)@),
        final(entries)@.len() == old(entries)@.len() + 1,
        forall|i: int| 0 <= i < old(entries)@.len() ==> #[trigger] final(entries)@[i] == old(entries)@[i],
        final(entries)@.last().0@ == name@,
        final(entries)@.last().1 == value,
{
    let ghost before = entries@;
    entries.push((copy_string(name), value));
    assert(entries@.drop_last() =~= before);
}

/// Appends an element.
fn push_item(items: &mut Vec<JsonValue>, value: JsonValue)
    requires
        items_wf(old(items)@),
        json_wf(value),
    ensures
        items_wf(final(items)@),
        final(items)@ == old(items)@.push(value),
{
    let ghost before = items@;
    items.push(value);
    assert(items@.drop_last() =~= before);
}

/// `v` is the text `t`.
pub open spec fn is_text(v: JsonValue, t: Seq<char>) -> bool {
    json_str(Some(v)) == Some(t)
}

/// `v` is member `i` of `es`, named `name`.
pub open spec fn member_named(es: Seq<(String, JsonValue)>, i: int, name: Seq<char>) -> bool {
    0 <= i < es.len() && es[i].0@ == name
}

/// `v` is card `c` as a payload holds it.
pub open spec fn card_json_matches(v: JsonValue, c: PlayerCard) -> bool {
    &&& v is Object
    &&& {
        let f = v->Object_0@;
        &&& f.len() == 5
        &&& member_named(f, 0, "basicLand"@) && f[0].1 == JsonValue::Bool(c.basic_land)
        &&& member_named(f, 1, "displayName"@) && is_text(f[1].1, c.display_name@)
        &&& member_named(f, 2, "oracleId"@) && is_text(f[2].1, c.oracle_id@)
        &&& member_named(f, 3, "quantity"@) && f[3].1 == JsonValue::Number(
            JsonNumber::PosInt(c.quantity as u64),
        )
        &&& member_named(f, 4, "zone"@) && is_text(f[4].1, c.zone@)
    }
}

/// `v` is the list of `cards`, in order.
pub open spec fn cards_json_matches(v: JsonValue, cards: Seq<PlayerCard>) -> bool {
    &&& v is Array
    &&& v->Array_0@.len() == cards.len()
    &&& forall|i: int| 0 <= i < cards.len() ==> card_json_matches(#[trigger] v->Array_0@[i], cards[i])
}

/// `v` is an optional field, trimmed, or null.
pub open spec fn optional_text_matches(v: JsonValue, field: Option<String>) -> bool {
    match field {
        Some(t) => is_text(v, trimmed(t@)),
        None => v == JsonValue::Null,
    }
}

pub open spec fn contents_name(contents: DeckContentsKind) -> Seq<char> {
    match contents {
        DeckContentsKind::ReferenceOnly => "reference_only"@,
        DeckContentsKind::CompleteDeck => "complete_deck"@,
    }
}

/// `v` is the canonical payload of `input`: its fields by name, text
/// fields trimmed (the URL and date as entered), and its cards in payload
/// order.
pub open spec fn payload_matches(v: JsonValue, input: ManualEvidenceInput) -> bool {
    &&& v is Object
    &&& {
        let es = v->Object_0@;
        &&& es.len() == 9
        &&& member_named(es, 0, "attribution_url"@) && is_text(es[0].1, input.attribution_url@)
        &&& member_named(es, 1, "cards"@) && cards_json_matches(es[1].1, cards_in_order(input.cards@))
        &&& member_named(es, 2, "contents"@) && is_text(es[2].1, contents_name(input.contents))
        &&& member_named(es, 3, "event_date"@) && is_text(es[3].1, input.event_date@)
        &&& member_named(es, 4, "event_title"@) && is_text(es[4].1, trimmed(input.event_title@))
        &&& member_named(es, 5, "format"@) && is_text(es[5].1, trimmed(input.format@))
        &&& member_named(es, 6, "placement"@) && optional_text_matches(es[6].1, input.placement)
        &&& member_named(es, 7, "record"@) && optional_text_matches(es[7].1, input.record)
        &&& member_named(es, 8, "source_nickname"@) && is_text(es[8].1, trimmed(input.source_nickname@))
    }
}

/// `v` is the scope of `input`: its event date and trimmed format.
pub open spec fn scope_matches(v: JsonValue, input: ManualEvidenceInput) -> bool {
    &&& v is Object
    &&& {
        let es = v->Object_0@;
        &&& es.len() == 2
        &&& member_named(es, 0, "eventDate"@) && is_text(es[0].1, input.event_date@)
        &&& member_named(es, 1, "format"@) && is_text(es[1].1, trimmed(input.format@))
    }
}

/// The number a time is written as.
pub open spec fn millis_number(t: UtcMillis) -> JsonNumber {
    if t.0 >= 0 {
        JsonNumber::PosInt(t.0 as u64)
    } else {
        JsonNumber::NegInt(t.0)
    }
}

/// `v` is the envelope the preview digest covers: the canonicalization
/// version, the source key and digest, the identity, its revision, the
/// time, and the payload of `input`.
pub open spec fn envelope_matches(
    v: JsonValue,
    source_key: Seq<char>,
    source_digest: Seq<char>,
    player_identity_id: Seq<char>,
    identity_revision: u64,
    observed_at: UtcMillis,
    input: ManualEvidenceInput,
) -> bool {
    &&& v is Object
    &&& {
        let es = v->Object_0@;
        &&& es.len() == 7
        &&& member_named(es, 0, "canonicalizationVersion"@) && is_text(es[0].1, CANONICALIZATION_VERSION@)
        &&& member_named(es, 1, "identityId"@) && is_text(es[1].1, player_identity_id)
        &&& member_named(es, 2, "identityRevision"@) && es[2].1 == JsonValue::Number(
            JsonNumber::PosInt(identity_revision),
        )
        &&& member_named(es, 3, "observedAt"@) && es[3].1 == JsonValue::Number(millis_number(observed_at))
        &&& member_named(es, 4, "payload"@) && payload_matches(es[4].1, input)
        &&& member_named(es, 5, "sourceDigest"@) && is_text(es[5].1, source_digest)
        &&& member_named(es, 6, "sourceKey"@) && is_text(es[6].1, source_key)
    }
}

/// The digest of a JSON value's canonical text.
pub open spec fn digest_of_value(v: JsonValue) -> Seq<char> {
    canonical_digest_of(vstd::utf8::encode_utf8(canonical_text(v)))
}

fn text_value(t: &str) -> (r: JsonValue)
    ensures
        is_text(r, t@),
        json_wf(r),
{
    JsonValue::String(copy_string(t))
}

fn optional_text(field: &Option<String>) -> (r: JsonValue)
    ensures
        optional_text_matches(r, *field),
        json_wf(r),
{
    match field {
        Some(t) => JsonValue::String(trim_string(t.as_str())),
        None => JsonValue::Null,
    }
}

fn card_json(c: &PlayerCard) -> (r: JsonValue)
    ensures
        card_json_matches(r, *c),
        json_wf(r),
{
    proof {
        lemma_member_names_in_order();
    }
    let mut f: Vec<(String, JsonValue)> = Vec::new();
    push_member(&mut f, "basicLand", JsonValue::Bool(c.basic_land));
    push_member(&mut f, "displayName", text_value(c.display_name.as_str()));
    push_member(&mut f, "oracleId", text_value(c.oracle_id.as_str()));
    push_member(&mut f, "quantity", JsonValue::Number(JsonNumber::PosInt(c.quantity as u64)));
    push_member(&mut f, "zone", text_value(c.zone.as_str()));
    JsonValue::Object(f)
}

fn cards_json(cards: &Vec<PlayerCard>) -> (r: JsonValue)
    ensures
        cards_json_matches(r, cards@),
        json_wf(r),
{
    let mut items: Vec<JsonValue> = Vec::new();
    let mut i: usize = 0;
    while i < cards.len()
        invariant
            i <= cards@.len(),
            items_wf(items@),
            items@.len() == i,
            forall|k: int| 0 <= k < i ==> card_json_matches(#[trigger] items@[k], cards@[k]),
        decreases cards.len() - i,
    {
        let item = card_json(&cards[i]);
        push_item(&mut items, item);
        i = i + 1;
    }
    JsonValue::Array(items)
}

/// The canonical payload of a manual statement.
pub fn manual_payload(input: &ManualEvidenceInput) -> (r: JsonValue)
    ensures
        payload_matches(r, *input),
        json_wf(r),
{
    proof {
        lemma_member_names_in_order();
        reveal_strlit("reference_only");
        reveal_strlit("complete_deck");
    }
    let sorted = sort_cards(input.cards.as_slice());
    let contents = match input.contents {
        DeckContentsKind::ReferenceOnly => "reference_only",
        DeckContentsKind::CompleteDeck => "complete_deck",
    };
    let mut es: Vec<(String, JsonValue)> = Vec::new();
    push_member(&mut es, "attribution_url", text_value(input.attribution_url.as_str()));
    push_member(&mut es, "cards", cards_json(&sorted));
    push_member(&mut es, "contents", text_value(contents));
    push_member(&mut es, "event_date", text_value(input.event_date.as_str()));
    push_member(&mut es, "event_title", JsonValue::String(trim_string(input.event_title.as_str())));
    push_member(&mut es, "format", JsonValue::String(trim_string(input.format.as_str())));
    push_member(&mut es, "placement", optional_text(&input.placement));
    push_member(&mut es, "record", optional_text(&input.record));
    push_member(&mut es, "source_nickname", JsonValue::String(trim_string(input.source_nickname.as_str())));
    JsonValue::Object(es)
}

/// `v` selects every approved field: each name, in order, set to true.
pub open spec fn all_fields_selected(v: JsonValue) -> bool {
    &&& v is Object
    &&& {
        let es = v->Object_0@;
        &&& es.len() == 8
        &&& member_named(es, 0, "attribution_url"@)
        &&& member_named(es, 1, "contents"@)
        &&& member_named(es, 2, "event_date"@)
        &&& member_named(es, 3, "event_title"@)
        &&& member_named(es, 4, "format"@)
        &&& member_named(es, 5, "placement"@)
        &&& member_named(es, 6, "record"@)
        &&& member_named(es, 7, "source_nickname"@)
        &&& forall|i: int| 0 <= i < 8 ==> #[trigger] es[i].1 == JsonValue::Bool(true)
    }
}

/// The selection a new preview starts with: every approved field.
pub fn default_selected_fields() -> (r: JsonValue)
    ensures
        all_fields_selected(r),
        json_wf(r),
{
    proof {
        lemma_member_names_in_order();
    }
    let mut es: Vec<(String, JsonValue)> = Vec::new();
    push_member(&mut es, "attribution_url", JsonValue::Bool(true));
    push_member(&mut es, "contents", JsonValue::Bool(true));
    push_member(&mut es, "event_date", JsonValue::Bool(true));
    push_member(&mut es, "event_title", JsonValue::Bool(true));
    push_member(&mut es, "format", JsonValue::Bool(true));
    push_member(&mut es, "placement", JsonValue::Bool(true));
    push_member(&mut es, "record", JsonValue::Bool(true));
    push_member(&mut es, "source_nickname", JsonValue::Bool(true));
    JsonValue::Object(es)
}

fn scope_json(input: &ManualEvidenceInput) -> (r: JsonValue)
    ensures
        scope_matches(r, *input),
        json_wf(r),
{
    proof {
        lemma_member_names_in_order();
    }
    let mut es: Vec<(String, JsonValue)> = Vec::new();
    push_member(&mut es, "eventDate", text_value(input.event_date.as_str()));
    push_member(&mut es, "format", JsonValue::String(trim_string(input.format.as_str())));
    JsonValue::Object(es)
}

fn envelope_json(
    source_key: &str,
    source_digest: &str,
    player_identity_id: &PlayerId,
    identity_revision: u64,
    observed_at: UtcMillis,
    input: &ManualEvidenceInput,
) -> (r: JsonValue)
    ensures
        envelope_matches(
            r,
            source_key@,
            source_digest@,
            player_identity_id@,
            identity_revision,
            observed_at,
            *input,
        ),
        json_wf(r),
{
    proof {
        lemma_member_names_in_order();
    }
    let at = observed_at.get();
    let observed = if at >= 0 {
        JsonNumber::PosInt(at as u64)
    } else {
        JsonNumber::NegInt(at)
    };
    let mut es: Vec<(String, JsonValue)> = Vec::new();
    push_member(&mut es, "canonicalizationVersion", text_value(CANONICALIZATION_VERSION));
    push_member(&mut es, "identityId", text_value(player_identity_id.as_str()));
    push_member(&mut es, "identityRevision", JsonValue::Number(JsonNumber::PosInt(identity_revision)));
    push_member(&mut es, "observedAt", JsonValue::Number(observed));
    push_member(&mut es, "payload", manual_payload(input));
    push_member(&mut es, "sourceDigest", text_value(source_digest));
    push_member(&mut es, "sourceKey", text_value(source_key));
    JsonValue::Object(es)
}

/// `e` is the statement a manual preview shows for `input`, made for an
/// identity at a revision at time `observed_at`, once the input's
/// attribution URL was found to be the official artifact `canonical_url`.
/// The source digest covers the payload alone; the preview digest covers
/// the payload together with the source key and digest, the identity, its
/// revision and the time.
pub open spec fn statement_of(
    e: PlayerEvidence,
    evidence_id: PlayerEvidenceId,
    player_identity_id: PlayerId,
    identity_revision: u64,
    input: ManualEvidenceInput,
    canonical_url: Seq<char>,
    observed_at: UtcMillis,
) -> bool {
    &&& e.id == evidence_id
    &&& e.player_identity_id == player_identity_id
    &&& e.evidence_schema_version == EVIDENCE_SCHEMA_VERSION
    &&& e.kind == EvidenceKind::OfficialPublishedDecklist
    &&& e.provenance_mode == EvidenceProvenance::UserAttestedOfficialSource
    &&& e.provider_id@ == "official_mtgo"@
    &&& e.attribution_url@ == input.attribution_url@
    &&& e.canonical_source_url matches Some(u) && u@ == canonical_url
    &&& e.lookup_nickname@ == trimmed(input.source_nickname@)
    &&& e.source_nickname@ == trimmed(input.source_nickname@)
    &&& e.exact_match_rule@ == "case_insensitive_full_string"@
    &&& scope_matches(e.scope, input)
    &&& e.observed_at == observed_at
    &&& e.imported_at == observed_at
    &&& e.source_key@ == source_key_of(official_parts(canonical_url, input.source_nickname@))
    &&& payload_matches(e.payload, input)
    &&& e.source_digest@ == digest_of_value(e.payload)
    &&& exists|envelope: JsonValue|
        envelope_matches(
            envelope,
            e.source_key@,
            e.source_digest@,
            player_identity_id@,
            identity_revision,
            observed_at,
            input,
        ) && e.preview_digest@ == #[trigger] digest_of_value(envelope)
    &&& all_fields_selected(e.selected_fields)
    &&& e.supersedes_evidence_id is None
    &&& e.cards@ == input.cards@
}

/// The statement a manual preview shows for an input whose attribution URL
/// was found to be the official artifact `canonical_url`, under the
/// evidence id it will be imported as. Refused only where the source key
/// cannot be formed: an invalid nickname, or a part of it that is empty.
pub fn manual_statement(
    evidence_id: PlayerEvidenceId,
    player_identity_id: PlayerId,
    identity_revision: u64,
    input: &ManualEvidenceInput,
    canonical_url: String,
    observed_at: UtcMillis,
) -> (r: Result<PlayerEvidence, RepoError>)
    ensures
        !nickname_valid(input.source_nickname@) || !source_parts_ok(
            official_parts(canonical_url@, input.source_nickname@),
        ) ==> r == Err::<PlayerEvidence, RepoError>(RepoError::InvalidRequest),
        nickname_valid(input.source_nickname@) && source_parts_ok(
            official_parts(canonical_url@, input.source_nickname@),
        ) ==> (r matches Ok(e) && statement_of(
            e,
            evidence_id,
            player_identity_id,
            identity_revision,
            *input,
            canonical_url@,
            observed_at,
        )),
{
    let source_key = match official_source_key(canonical_url.as_str(), input.source_nickname.as_str()) {
        Ok(k) => k,
        Err(e) => {
            return Err(e);
        },
    };
    let payload = manual_payload(input);
    let source_digest = match canonical_digest(&payload) {
        Ok(d) => d,
        Err(e) => {
            return Err(e);
        },
    };
    let envelope = envelope_json(
        source_key.as_str(),
        source_digest.as_str(),
        &player_identity_id,
        identity_revision,
        observed_at,
        input,
    );
    let preview_digest = match canonical_digest(&envelope) {
        Ok(d) => d,
        Err(e) => {
            return Err(e);
        },
    };
    let nickname = trim_string(input.source_nickname.as_str());
    let evidence = PlayerEvidence {
        id: evidence_id,
        player_identity_id,
        evidence_schema_version: EVIDENCE_SCHEMA_VERSION,
        kind: EvidenceKind::OfficialPublishedDecklist,
        provenance_mode: EvidenceProvenance::UserAttestedOfficialSource,
        provider_id: copy_string("official_mtgo"),
        attribution_url: copy_string(input.attribution_url.as_str()),
        canonical_source_url: Some(canonical_url),
        lookup_nickname: copy_string(nickname.as_str()),
        source_nickname: nickname,
        exact_match_rule: copy_string("case_insensitive_full_string"),
        scope: scope_json(input),
        observed_at,
        imported_at: observed_at,
        source_key,
        source_digest,
        preview_digest,
        payload,
        selected_fields: default_selected_fields(),
        supersedes_evidence_id: None,
        cards: input.cards.clone(),
    };
    assert(envelope_matches(
        envelope,
        evidence.source_key@,
        evidence.source_digest@,
        evidence.player_identity_id@,
        identity_revision,
        observed_at,
        *input,
    ));
    assert(evidence.preview_digest@ == digest_of_value(envelope));
    Ok(evidence)
}

/// A manual statement as previewed, bound to a fresh token, with the
/// fields the user may approve.
#[derive(Debug, PartialEq, Eq)]
pub struct ManualEvidencePreview {
    pub token: PlayerPreviewToken,
    pub player_identity_id: PlayerId,
    pub identity_revision: u64,
    pub evidence: PlayerEvidence,
    pub approved_fields: Vec<String>,
}

/// The preview of a manual statement for an input that passed the manual
/// checks, its attribution URL found to be the official artifact
/// `canonical_url`: the statement under a fresh evidence id, a fresh
/// preview token, and the approvable fields. Refused as an invalid request
/// where the source key cannot be formed; otherwise it fails only where the
/// system has no randomness for the two ids.
pub fn manual_preview(
    player_identity_id: PlayerId,
    identity_revision: u64,
    input: &ManualEvidenceInput,
    canonical_url: String,
    observed_at: UtcMillis,
) -> (r: Result<ManualEvidencePreview, RepoError>)
    ensures
        !nickname_valid(input.source_nickname@) || !source_parts_ok(
            official_parts(canonical_url@, input.source_nickname@),
        ) ==> r == Err::<ManualEvidencePreview, RepoError>(RepoError::InvalidRequest),
        nickname_valid(input.source_nickname@) && source_parts_ok(
            official_parts(canonical_url@, input.source_nickname@),
        ) ==> match r {
            Ok(p) => {
                &&& statement_of(
                    p.evidence,
                    p.evidence.id,
                    player_identity_id,
                    identity_revision,
                    *input,
                    canonical_url@,
                    observed_at,
                )
                &&& valid_id(p.evidence.id@)
                &&& valid_id(p.token@)
                &&& p.player_identity_id == player_identity_id
                &&& p.identity_revision == identity_revision
                &&& p.approved_fields@.map_values(|f: String| f@) == approved_field_names()
            },
            Err(e) => e == RepoError::KeyUnavailable,
        },
{
    if let Err(e) = official_source_key(canonical_url.as_str(), input.source_nickname.as_str()) {
        return Err(e);
    }
    let evidence_id = PlayerEvidenceId::new()?;
    let token = PlayerPreviewToken::new()?;
    let evidence = match manual_statement(
        evidence_id,
        player_identity_id.clone(),
        identity_revision,
        input,
        canonical_url,
        observed_at,
    ) {
        Ok(e) => e,
        Err(e) => {
            return Err(e);
        },
    };
    let names = approved_fields();
    let mut fields: Vec<String> = Vec::new();
    let mut i: usize = 0;
    while i < names.len()
        invariant
            i <= names@.len(),
            fields@.len() == i,
            forall|k: int| 0 <= k < i ==> #[trigger] fields@[k]@ == names@[k]@,
        decreases names.len() - i,
    {
        fields.push(copy_string(names[i]));
        i = i + 1;
    }
    assert(fields@.map_values(|f: String| f@) =~= names@.map_values(|f: &'static str| f@));
    Ok(ManualEvidencePreview { token, player_identity_id, identity_revision, evidence, approved_fields: fields })
}

/// Members with the same names whose values have the same texts have the
/// same text.
proof fn lemma_members_same_text(a: Seq<(String, JsonValue)>, b: Seq<(String, JsonValue)>)
    requires
        a.len() == b.len(),
        forall|i: int| 0 <= i < a.len() ==> #[trigger] a[i].0@ == b[i].0@ && canonical_text(a[i].1)
            == canonical_text(b[i].1),
    ensures
        members_text(a) == members_text(b),
    decreases a.len(),
{
    if a.len() > 1 {
        lemma_members_same_text(a.drop_last(), b.drop_last());
        assert(a[a.len() - 1].0@ == b[b.len() - 1].0@);
    } else if a.len() == 1 {
        assert(a[0].0@ == b[0].0@);
    }
}

/// Elements whose texts agree make lists with the same text.
proof fn lemma_items_same_text(a: Seq<JsonValue>, b: Seq<JsonValue>)
    requires
        a.len() == b.len(),
        forall|i: int| 0 <= i < a.len() ==> canonical_text(#[trigger] a[i]) == canonical_text(b[i]),
    ensures
        items_text(a) == items_text(b),
    decreases a.len(),
{
    if a.len() > 1 {
        lemma_items_same_text(a.drop_last(), b.drop_last());
        assert(canonical_text(a[a.len() - 1]) == canonical_text(b[b.len() - 1]));
    } else if a.len() == 1 {
        assert(canonical_text(a[0]) == canonical_text(b[0]));
    }
}

proof fn lemma_text_same(x: JsonValue, y: JsonValue, t: Seq<char>)
    requires
        is_text(x, t),
        is_text(y, t),
    ensures
        canonical_text(x) == canonical_text(y),
{
}

proof fn lemma_card_same_text(x: JsonValue, y: JsonValue, c: PlayerCard)
    requires
        card_json_matches(x, c),
        card_json_matches(y, c),
    ensures
        canonical_text(x) == canonical_text(y),
{
    let a = x->Object_0@;
    let b = y->Object_0@;
    lemma_text_same(a[1].1, b[1].1, c.display_name@);
    lemma_text_same(a[2].1, b[2].1, c.oracle_id@);
    lemma_text_same(a[4].1, b[4].1, c.zone@);
    assert forall|i: int| 0 <= i < a.len() implies #[trigger] a[i].0@ == b[i].0@ && canonical_text(a[i].1)
        == canonical_text(b[i].1) by {
        assert(member_named(a, i, b[i].0@));
    }
    lemma_members_same_text(a, b);
}

/// Two values that are both the payload of `input` have the same canonical
/// text.
proof fn lemma_payload_same_text(x: JsonValue, y: JsonValue, input: ManualEvidenceInput)
    requires
        payload_matches(x, input),
        payload_matches(y, input),
    ensures
        canonical_text(x) == canonical_text(y),
{
    let a = x->Object_0@;
    let b = y->Object_0@;
    let cards = cards_in_order(input.cards@);
    let ca = a[1].1->Array_0@;
    let cb = b[1].1->Array_0@;
    assert forall|i: int| 0 <= i < ca.len() implies canonical_text(#[trigger] ca[i]) == canonical_text(cb[i]) by {
        lemma_card_same_text(ca[i], cb[i], cards[i]);
    }
    lemma_items_same_text(ca, cb);
    lemma_text_same(a[0].1, b[0].1, input.attribution_url@);
    lemma_text_same(a[2].1, b[2].1, contents_name(input.contents));
    lemma_text_same(a[3].1, b[3].1, input.event_date@);
    lemma_text_same(a[4].1, b[4].1, trimmed(input.event_title@));
    lemma_text_same(a[5].1, b[5].1, trimmed(input.format@));
    match input.placement {
        Some(t) => lemma_text_same(a[6].1, b[6].1, trimmed(t@)),
        None => {},
    }
    match input.record {
        Some(t) => lemma_text_same(a[7].1, b[7].1, trimmed(t@)),
        None => {},
    }
    lemma_text_same(a[8].1, b[8].1, trimmed(input.source_nickname@));
    assert forall|i: int| 0 <= i < a.len() implies #[trigger] a[i].0@ == b[i].0@ && canonical_text(a[i].1)
        == canonical_text(b[i].1) by {
        assert(member_named(a, i, b[i].0@));
    }
    lemma_members_same_text(a, b);
}

/// The source digest covers the source content alone: two statements of the
/// same input with the same official URL, whatever identity, revision, time
/// or evidence id they were made for, have the same source key, the same
/// payload text and the same source digest. Their preview digests are over
/// envelopes that hold the identity, revision and time.
pub proof fn law_source_digest_covers_the_source_alone(
    first: PlayerEvidence,
    second: PlayerEvidence,
    first_id: PlayerEvidenceId,
    second_id: PlayerEvidenceId,
    first_identity: PlayerId,
    second_identity: PlayerId,
    first_revision: u64,
    second_revision: u64,
    input: ManualEvidenceInput,
    canonical_url: Seq<char>,
    first_at: UtcMillis,
    second_at: UtcMillis,
)
    requires
        statement_of(first, first_id, first_identity, first_revision, input, canonical_url, first_at),
        statement_of(second, second_id, second_identity, second_revision, input, canonical_url, second_at),
    ensures
        first.source_key@ == second.source_key@,
        canonical_text(first.payload) == canonical_text(second.payload),
        first.source_digest@ == second.source_digest@,
        exists|envelope: JsonValue|
            envelope_matches(
                envelope,
                second.source_key@,
                second.source_digest@,
                second_identity@,
                second_revision,
                second_at,
                input,
            ) && #[trigger] digest_of_value(envelope) == second.preview_digest@,
{
    lemma_payload_same_text(first.payload, second.payload, input);
}

} // verus!
