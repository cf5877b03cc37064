//! The tables a portable archive carries, and the column-level reading of
//! canonical records: text values, identifier references and keys.
use vstd::prelude::*;

use crate::archive::{CanonicalRecord, CanonicalValue};
use crate::domain::RepoError;
use crate::text::{copy_string, str_eq};

verus! {

/// A notebook table: its columns in archive order, which of them form the
/// primary key, and the query that reads its live rows.
#[derive(Clone, Copy, Debug, PartialEq, Eq)]
pub struct TableSpec {
    pub name: &'static str,
    pub columns: &'static [&'static str],
    pub primary_key_indexes: &'static [usize],
    pub select_sql: &'static str,
}

/// The columns and primary-key positions of every table an archive may
/// carry.
pub open spec fn table_shape(name: Seq<char>) -> Option<(Seq<Seq<char>>, Seq<usize>)> {
    if name == "opponent_profiles"@ {
        Some((seq!["id"@, "primary_handle"@, "normalized_handle"@, "created_at"@, "revision"@, "deleted_at"@], seq![0usize]))
    } else if name == "opponent_aliases"@ {
        Some((seq!["id"@, "profile_id"@, "display_handle"@, "normalized_handle"@, "provenance"@, "created_at"@], seq![0usize]))
    } else if name == "encounters"@ {
        Some((seq!["id"@, "profile_id"@, "format"@, "started_at"@, "ended_at"@, "status"@, "phase"@, "source"@, "generation"@, "revision"@, "incomplete_reason"@, "deleted_at"@], seq![0usize]))
    } else if name == "encounter_transitions"@ {
        Some((seq!["id"@, "encounter_id"@, "sequence"@, "from_phase"@, "to_phase"@, "trigger"@, "confidence_class"@, "created_at"@, "undo_group_id"@], seq![0usize]))
    } else if name == "observations"@ {
        Some((seq!["id"@, "encounter_id"@, "text"@, "created_at"@, "edited_at"@, "revision"@, "searchable"@, "deletion_deadline"@, "deleted_at"@], seq![0usize]))
    } else if name == "card_observations"@ {
        Some((seq!["observation_id"@, "oracle_id"@, "display_name"@, "quantity"@, "certainty"@, "context"@], seq![0usize, 1usize, 4usize]))
    } else if name == "tendency_tags"@ {
        Some((seq!["id"@, "normalized_label"@, "display_label"@], seq![0usize]))
    } else if name == "observation_tags"@ {
        Some((seq!["observation_id"@, "tag_id"@], seq![0usize, 1usize]))
    } else if name == "deck_records"@ {
        Some((seq!["id"@, "profile_id"@, "source_class"@, "format"@, "completeness"@, "provider_label"@, "user_label"@, "current_revision"@, "revision"@, "created_at"@, "deleted_at"@], seq![0usize]))
    } else if name == "deck_revisions"@ {
        Some((seq!["id"@, "deck_id"@, "revision_number"@, "canonical_digest"@, "complete"@, "created_at"@], seq![0usize]))
    } else if name == "deck_cards"@ {
        Some((seq!["deck_revision_id"@, "oracle_id"@, "display_name"@, "zone"@, "quantity"@, "basic_land"@], seq![0usize, 1usize, 3usize]))
    } else if name == "public_snapshots"@ {
        Some((seq!["id"@, "encounter_id"@, "deck_revision_id"@, "provider"@, "event"@, "format"@, "publication_date"@, "source_url"@, "confirmed"@, "source_token"@, "created_at"@], seq![0usize]))
    } else if name == "classification_runs"@ {
        Some((seq!["id"@, "deck_revision_id"@, "classifier_version"@, "classifier_digest"@, "result_id"@, "result_name"@, "method"@, "confidence"@, "explanation_json"@, "status"@, "created_at"@], seq![0usize]))
    } else if name == "profile_merges"@ {
        Some((seq!["id"@, "primary_profile_id"@, "state"@, "created_at"@, "reversed_at"@, "reassignment_plan_json"@, "revision"@], seq![0usize]))
    } else if name == "deletion_tombstones"@ {
        Some((seq!["entity_type"@, "entity_id"@, "requested_at"@, "effective_at"@, "undo_token_digest"@, "purge_state"@], seq![0usize, 1usize]))
    } else if name == "player_identities"@ {
        Some((seq!["singleton"@, "id"@, "display_nickname"@, "normalized_nickname"@, "created_at"@, "updated_at"@, "revision"@], seq![0usize]))
    } else if name == "player_evidence"@ {
        Some((seq!["id"@, "player_identity_id"@, "evidence_schema_version"@, "kind"@, "provenance_mode"@, "provider_id"@, "attribution_url"@, "canonical_source_url"@, "lookup_nickname"@, "source_nickname"@, "exact_match_rule"@, "scope_json"@, "observed_at"@, "imported_at"@, "source_key"@, "source_digest"@, "preview_digest"@, "payload_json"@, "selected_fields_json"@, "supersedes_evidence_id"@], seq![0usize]))
    } else if name == "player_evidence_cards"@ {
        Some((seq!["evidence_id"@, "oracle_id"@, "display_name"@, "zone"@, "quantity"@, "basic_land"@], seq![0usize, 1usize, 3usize]))
    } else if name == "player_selection_revisions"@ {
        Some((seq!["id"@, "evidence_id"@, "revision_number"@, "selected_fields_json"@, "created_at"@], seq![0usize]))
    } else if name == "player_classification_runs"@ {
        Some((seq!["id"@, "evidence_id"@, "classifier_version"@, "classifier_digest"@, "result_id"@, "result_name"@, "method"@, "confidence"@, "created_at"@], seq![0usize]))
    } else if name == "player_empty_outcomes"@ {
        Some((seq!["id"@, "player_identity_id"@, "provider_id"@, "lookup_nickname"@, "exact_match_rule"@, "scope_json"@, "provider_configuration_version"@, "completed_at"@, "operation_key"@], seq![0usize]))
    } else if name == "player_tombstones"@ {
        Some((seq!["entity_kind"@, "entity_id"@, "player_identity_id"@, "deleted_at"@], seq![0usize, 1usize]))
    } else {
        None
    }
}

pub open spec fn column_views(columns: Seq<&'static str>) -> Seq<Seq<char>> {
    columns.map_values(|c: &'static str| c@)
}

pub open spec fn shape_of(t: TableSpec) -> (Seq<Seq<char>>, Seq<usize>) {
    (column_views(t.columns@), t.primary_key_indexes@)
}

/// The specification of a table, by name; an unknown table makes the
/// archive invalid.
pub fn table_spec(table: &str) -> (r: Result<TableSpec, RepoError>)
    ensures
        match table_shape(table@) {
            Some(shape) => r matches Ok(t) && t.name@ == table@ && shape_of(t) == shape,
            None => r == Err::<TableSpec, RepoError>(RepoError::InvalidBackup),
        },
{
    let spec =     if str_eq(table, "opponent_profiles") {
            TableSpec {
                name: "opponent_profiles",
                columns: &["id", "primary_handle", "normalized_handle", "created_at", "revision", "deleted_at"],
                primary_key_indexes: &[0],
                select_sql: "SELECT id, primary_handle, normalized_handle, created_at, revision, deleted_at\n                     FROM opponent_profiles WHERE deleted_at IS NULL ORDER BY id",
            }
        } else if str_eq(table, "opponent_aliases") {
            TableSpec {
                name: "opponent_aliases",
                columns: &["id", "profile_id", "display_handle", "normalized_handle", "provenance", "created_at"],
                primary_key_indexes: &[0],
                select_sql: "SELECT alias.id, alias.profile_id, alias.display_handle,\n                            alias.normalized_handle, alias.provenance, alias.created_at\n                     FROM opponent_aliases alias\n                     JOIN opponent_profiles profile ON profile.id = alias.profile_id\n                     WHERE profile.deleted_at IS NULL ORDER BY alias.id",
            }
        } else if str_eq(table, "encounters") {
            TableSpec {
                name: "encounters",
                columns: &["id", "profile_id", "format", "started_at", "ended_at", "status", "phase", "source", "generation", "revision", "incomplete_reason", "deleted_at"],
                primary_key_indexes: &[0],
                select_sql: "SELECT encounter.id, encounter.profile_id, encounter.format,\n                            encounter.started_at, encounter.ended_at, encounter.status,\n                            encounter.phase, encounter.source, encounter.generation,\n                            encounter.revision, encounter.incomplete_reason, encounter.deleted_at\n                     FROM encounters encounter\n                     JOIN opponent_profiles profile ON profile.id = encounter.profile_id\n                     WHERE encounter.deleted_at IS NULL AND profile.deleted_at IS NULL\n                     ORDER BY encounter.id",
            }
        } else if str_eq(table, "encounter_transitions") {
            TableSpec {
                name: "encounter_transitions",
                columns: &["id", "encounter_id", "sequence", "from_phase", "to_phase", "trigger", "confidence_class", "created_at", "undo_group_id"],
                primary_key_indexes: &[0],
                select_sql: "SELECT transition.id, transition.encounter_id, transition.sequence,\n                            transition.from_phase, transition.to_phase, transition.trigger,\n                            transition.confidence_class, transition.created_at,\n                            transition.undo_group_id\n                     FROM encounter_transitions transition\n                     JOIN encounters encounter ON encounter.id = transition.encounter_id\n                     WHERE encounter.deleted_at IS NULL ORDER BY transition.id",
            }
        } else if str_eq(table, "observations") {
            TableSpec {
                name: "observations",
                columns: &["id", "encounter_id", "text", "created_at", "edited_at", "revision", "searchable", "deletion_deadline", "deleted_at"],
                primary_key_indexes: &[0],
                select_sql: "SELECT observation.id, observation.encounter_id, observation.text,\n                            observation.created_at, observation.edited_at, observation.revision,\n                            observation.searchable, observation.deletion_deadline,\n                            observation.deleted_at\n                     FROM observations observation\n                     JOIN encounters encounter ON encounter.id = observation.encounter_id\n                     WHERE observation.deleted_at IS NULL AND encounter.deleted_at IS NULL\n                     ORDER BY observation.id",
            }
        } else if str_eq(table, "card_observations") {
            TableSpec {
                name: "card_observations",
                columns: &["observation_id", "oracle_id", "display_name", "quantity", "certainty", "context"],
                primary_key_indexes: &[0, 1, 4],
                select_sql: "SELECT card.observation_id, card.oracle_id, card.display_name,\n                            card.quantity, card.certainty, card.context\n                     FROM card_observations card\n                     JOIN observations observation ON observation.id = card.observation_id\n                     WHERE observation.deleted_at IS NULL\n                     ORDER BY card.observation_id, card.oracle_id, card.certainty",
            }
        } else if str_eq(table, "tendency_tags") {
            TableSpec {
                name: "tendency_tags",
                columns: &["id", "normalized_label", "display_label"],
                primary_key_indexes: &[0],
                select_sql: "SELECT tag.id, tag.normalized_label, tag.display_label\n                     FROM tendency_tags tag\n                     WHERE EXISTS (\n                       SELECT 1 FROM observation_tags link\n                       JOIN observations observation ON observation.id = link.observation_id\n                       WHERE link.tag_id = tag.id AND observation.deleted_at IS NULL\n                     ) ORDER BY tag.id",
            }
        } else if str_eq(table, "observation_tags") {
            TableSpec {
                name: "observation_tags",
                columns: &["observation_id", "tag_id"],
                primary_key_indexes: &[0, 1],
                select_sql: "SELECT link.observation_id, link.tag_id\n                     FROM observation_tags link\n                     JOIN observations observation ON observation.id = link.observation_id\n                     WHERE observation.deleted_at IS NULL\n                     ORDER BY link.observation_id, link.tag_id",
            }
        } else if str_eq(table, "deck_records") {
            TableSpec {
                name: "deck_records",
                columns: &["id", "profile_id", "source_class", "format", "completeness", "provider_label", "user_label", "current_revision", "revision", "created_at", "deleted_at"],
                primary_key_indexes: &[0],
                select_sql: "SELECT deck.id, deck.profile_id, deck.source_class, deck.format,\n                            deck.completeness, deck.provider_label, deck.user_label,\n                            deck.current_revision, deck.revision, deck.created_at, deck.deleted_at\n                     FROM deck_records deck\n                     JOIN opponent_profiles profile ON profile.id = deck.profile_id\n                     WHERE deck.deleted_at IS NULL AND profile.deleted_at IS NULL\n                     ORDER BY deck.id",
            }
        } else if str_eq(table, "deck_revisions") {
            TableSpec {
                name: "deck_revisions",
                columns: &["id", "deck_id", "revision_number", "canonical_digest", "complete", "created_at"],
                primary_key_indexes: &[0],
                select_sql: "SELECT revision.id, revision.deck_id, revision.revision_number,\n                            revision.canonical_digest, revision.complete, revision.created_at\n                     FROM deck_revisions revision\n                     JOIN deck_records deck ON deck.id = revision.deck_id\n                     WHERE deck.deleted_at IS NULL ORDER BY revision.id",
            }
        } else if str_eq(table, "deck_cards") {
            TableSpec {
                name: "deck_cards",
                columns: &["deck_revision_id", "oracle_id", "display_name", "zone", "quantity", "basic_land"],
                primary_key_indexes: &[0, 1, 3],
                select_sql: "SELECT card.deck_revision_id, card.oracle_id, card.display_name,\n                            card.zone, card.quantity, card.basic_land\n                     FROM deck_cards card\n                     JOIN deck_revisions revision ON revision.id = card.deck_revision_id\n                     JOIN deck_records deck ON deck.id = revision.deck_id\n                     WHERE deck.deleted_at IS NULL\n                     ORDER BY card.deck_revision_id, card.oracle_id, card.zone",
            }
        } else if str_eq(table, "public_snapshots") {
            TableSpec {
                name: "public_snapshots",
                columns: &["id", "encounter_id", "deck_revision_id", "provider", "event", "format", "publication_date", "source_url", "confirmed", "source_token", "created_at"],
                primary_key_indexes: &[0],
                select_sql: "SELECT snapshot.id, snapshot.encounter_id, snapshot.deck_revision_id,\n                            snapshot.provider, snapshot.event, snapshot.format,\n                            snapshot.publication_date, snapshot.source_url, snapshot.confirmed,\n                            snapshot.source_token, snapshot.created_at\n                     FROM public_snapshots snapshot\n                     JOIN encounters encounter ON encounter.id = snapshot.encounter_id\n                     JOIN deck_revisions revision ON revision.id = snapshot.deck_revision_id\n                     JOIN deck_records deck ON deck.id = revision.deck_id\n                     WHERE encounter.deleted_at IS NULL AND deck.deleted_at IS NULL\n                     ORDER BY snapshot.id",
            }
        } else if str_eq(table, "classification_runs") {
            TableSpec {
                name: "classification_runs",
                columns: &["id", "deck_revision_id", "classifier_version", "classifier_digest", "result_id", "result_name", "method", "confidence", "explanation_json", "status", "created_at"],
                primary_key_indexes: &[0],
                select_sql: "SELECT run.id, run.deck_revision_id, run.classifier_version,\n                            run.classifier_digest, run.result_id, run.result_name, run.method,\n                            run.confidence, run.explanation_json, run.status, run.created_at\n                     FROM classification_runs run\n                     JOIN deck_revisions revision ON revision.id = run.deck_revision_id\n                     JOIN deck_records deck ON deck.id = revision.deck_id\n                     WHERE deck.deleted_at IS NULL ORDER BY run.id",
            }
        } else if str_eq(table, "profile_merges") {
            TableSpec {
                name: "profile_merges",
                columns: &["id", "primary_profile_id", "state", "created_at", "reversed_at", "reassignment_plan_json", "revision"],
                primary_key_indexes: &[0],
                select_sql: "SELECT merge.id, merge.primary_profile_id, merge.state, merge.created_at,\n                            merge.reversed_at, merge.reassignment_plan_json, merge.revision\n                     FROM profile_merges merge\n                     JOIN opponent_profiles profile ON profile.id = merge.primary_profile_id\n                     WHERE profile.deleted_at IS NULL ORDER BY merge.id",
            }
        } else if str_eq(table, "deletion_tombstones") {
            TableSpec {
                name: "deletion_tombstones",
                columns: &["entity_type", "entity_id", "requested_at", "effective_at", "undo_token_digest", "purge_state"],
                primary_key_indexes: &[0, 1],
                select_sql: "SELECT entity_type, entity_id, requested_at, effective_at,\n                            undo_token_digest, purge_state\n                     FROM deletion_tombstones ORDER BY entity_type, entity_id",
            }
        } else if str_eq(table, "player_identities") {
            TableSpec {
                name: "player_identities",
                columns: &["singleton", "id", "display_nickname", "normalized_nickname", "created_at", "updated_at", "revision"],
                primary_key_indexes: &[0],
                select_sql: "SELECT singleton, id, display_nickname, normalized_nickname,\n                            created_at, updated_at, revision\n                     FROM player_identities ORDER BY singleton",
            }
        } else if str_eq(table, "player_evidence") {
            TableSpec {
                name: "player_evidence",
                columns: &["id", "player_identity_id", "evidence_schema_version", "kind", "provenance_mode", "provider_id", "attribution_url", "canonical_source_url", "lookup_nickname", "source_nickname", "exact_match_rule", "scope_json", "observed_at", "imported_at", "source_key", "source_digest", "preview_digest", "payload_json", "selected_fields_json", "supersedes_evidence_id"],
                primary_key_indexes: &[0],
                select_sql: "SELECT id, player_identity_id, evidence_schema_version, kind,\n                            provenance_mode, provider_id, attribution_url, canonical_source_url,\n                            lookup_nickname, source_nickname, exact_match_rule, scope_json,\n                            observed_at, imported_at, source_key, source_digest, preview_digest,\n                            payload_json, selected_fields_json, supersedes_evidence_id\n                     FROM player_evidence ORDER BY id",
            }
        } else if str_eq(table, "player_evidence_cards") {
            TableSpec {
                name: "player_evidence_cards",
                columns: &["evidence_id", "oracle_id", "display_name", "zone", "quantity", "basic_land"],
                primary_key_indexes: &[0, 1, 3],
                select_sql: "SELECT evidence_id, oracle_id, display_name, zone, quantity, basic_land\n                     FROM player_evidence_cards ORDER BY evidence_id, oracle_id, zone",
            }
        } else if str_eq(table, "player_selection_revisions") {
            TableSpec {
                name: "player_selection_revisions",
                columns: &["id", "evidence_id", "revision_number", "selected_fields_json", "created_at"],
                primary_key_indexes: &[0],
                select_sql: "SELECT id, evidence_id, revision_number, selected_fields_json, created_at\n                     FROM player_selection_revisions ORDER BY evidence_id, revision_number, id",
            }
        } else if str_eq(table, "player_classification_runs") {
            TableSpec {
                name: "player_classification_runs",
                columns: &["id", "evidence_id", "classifier_version", "classifier_digest", "result_id", "result_name", "method", "confidence", "created_at"],
                primary_key_indexes: &[0],
                select_sql: "SELECT id, evidence_id, classifier_version, classifier_digest,\n                            result_id, result_name, method, confidence, created_at\n                     FROM player_classification_runs ORDER BY evidence_id, created_at, id",
            }
        } else if str_eq(table, "player_empty_outcomes") {
            TableSpec {
                name: "player_empty_outcomes",
                columns: &["id", "player_identity_id", "provider_id", "lookup_nickname", "exact_match_rule", "scope_json", "provider_configuration_version", "completed_at", "operation_key"],
                primary_key_indexes: &[0],
                select_sql: "SELECT id, player_identity_id, provider_id, lookup_nickname,\n                            exact_match_rule, scope_json, provider_configuration_version,\n                            completed_at, operation_key\n                     FROM player_empty_outcomes ORDER BY completed_at, id",
            }
        } else if str_eq(table, "player_tombstones") {
            TableSpec {
                name: "player_tombstones",
                columns: &["entity_kind", "entity_id", "player_identity_id", "deleted_at"],
                primary_key_indexes: &[0, 1],
                select_sql: "SELECT entity_kind, entity_id, player_identity_id, deleted_at\n                     FROM player_tombstones ORDER BY entity_kind, entity_id",
            }
        } else {
            return Err(RepoError::InvalidBackup);
        };
    proof {
        assert(column_views(spec.columns@) =~= (table_shape(table@)->0).0);
        assert(spec.primary_key_indexes@ =~= (table_shape(table@)->0).1);
    }
    Ok(spec)
}

/// The position of the first `column` in `columns`, or -1.
pub open spec fn first_index(columns: Seq<Seq<char>>, column: Seq<char>) -> int
    decreases columns.len(),
{
    if columns.len() == 0 {
        -1
    } else if columns[0] == column {
        0
    } else {
        let q = first_index(columns.drop_first(), column);
        if q < 0 {
            -1
        } else {
            q + 1
        }
    }
}

proof fn lemma_first_index(columns: Seq<Seq<char>>, column: Seq<char>)
    ensures
        -1 <= first_index(columns, column) < columns.len(),
        first_index(columns, column) >= 0 ==> columns[first_index(columns, column)] == column,
        first_index(columns, column) >= 0 ==> forall|j: int|
            0 <= j < first_index(columns, column) ==> columns[j] != column,
        first_index(columns, column) < 0 ==> forall|j: int| 0 <= j < columns.len() ==> columns[j] != column,
    decreases columns.len(),
{
    if columns.len() > 0 && columns[0] != column {
        lemma_first_index(columns.drop_first(), column);
        assert forall|j: int| 0 < j < columns.len() implies columns[j] == columns.drop_first()[j - 1] by {}
    }
}

fn position_of(columns: &[&'static str], column: &str) -> (r: Option<usize>)
    ensures
        first_index(column_views(columns@), column@) < 0 ==> r is None,
        first_index(column_views(columns@), column@) >= 0 ==> (r matches Some(i) && i as int
            == first_index(column_views(columns@), column@)),
{
    let ghost views = column_views(columns@);
    proof {
        lemma_first_index(views, column@);
    }
    let mut i: usize = 0;
    while i < columns.len()
        invariant
            i <= columns@.len(),
            views == column_views(columns@),
            views.len() == columns@.len(),
            forall|j: int| 0 <= j < i ==> views[j] != column@,
            -1 <= first_index(views, column@) < views.len(),
            first_index(views, column@) >= 0 ==> views[first_index(views, column@)] == column@,
            first_index(views, column@) >= 0 ==> forall|j: int|
                0 <= j < first_index(views, column@) ==> views[j] != column@,
            first_index(views, column@) < 0 ==> forall|j: int| 0 <= j < views.len() ==> views[j] != column@,
        decreases columns.len() - i,
    {
        if str_eq(columns[i], column) {
            assert(views[i as int] == column@);
            return Some(i);
        }
        i = i + 1;
    }
    None
}

/// The text in column position `i`, if that value is text.
pub open spec fn text_at(values: Seq<CanonicalValue>, i: int) -> Option<Seq<char>> {
    if 0 <= i < values.len() && values[i] is Text {
        Some(values[i]->Text_0@)
    } else {
        None
    }
}

/// The text a record holds in a column, when its table is known, the column
/// exists and the value is text.
pub open spec fn record_text(record: CanonicalRecord, column: Seq<char>) -> Option<Seq<char>> {
    match table_shape(record.table@) {
        None => None,
        Some(shape) => text_at(record.values@, first_index(shape.0, column)),
    }
}

pub fn text_value<'a>(record: &'a CanonicalRecord, column: &str) -> (r: Option<&'a str>)
    ensures
        match record_text(*record, column@) {
            Some(t) => r matches Some(v) && v@ == t,
            None => r is None,
        },
{
    let spec = match table_spec(record.table.as_str()) {
        Ok(spec) => spec,
        Err(_) => {
            return None;
        },
    };
    proof {
        assert(table_shape(record.table@) == Some(shape_of(spec)));
    }
    let index = match position_of(spec.columns, column) {
        Some(i) => i,
        None => {
            return None;
        },
    };
    if index >= record.values.len() {
        return None;
    }
    match &record.values[index] {
        CanonicalValue::Text(value) => {
            assert(text_at(record.values@, index as int) == Some(value@));
            Some(value.as_str())
        },
        _ => None,
    }
}

/// A column that holds an entity identifier: `id` or a name ending in
/// `_id`.
pub open spec fn is_id_column(c: Seq<char>) -> bool {
    c == "id"@ || (c.len() >= 3 && c.subrange(c.len() - 3, c.len() as int) == "_id"@)
}

fn id_column(c: &str) -> (r: bool)
    ensures
        r == is_id_column(c@),
{
    let v = crate::text::chars_of(c);
    proof {
        reveal_strlit("id");
        reveal_strlit("_id");
    }
    if str_eq(c, "id") {
        return true;
    }
    let n = v.len();
    if n < 3 {
        return false;
    }
    let tail_ok = v[n - 3] == '_' && v[n - 2] == 'i' && v[n - 1] == 'd';
    proof {
        if tail_ok {
            assert(c@.subrange(n - 3, n as int) =~= "_id"@);
        } else {
            if c@.subrange(n - 3, n as int) == "_id"@ {
                assert(c@.subrange(n - 3, n as int)[0] == '_');
                assert(c@.subrange(n - 3, n as int)[1] == 'i');
                assert(c@.subrange(n - 3, n as int)[2] == 'd');
            }
        }
    }
    tail_ok
}

/// The text at position `i` is one of `ids`.
pub open spec fn id_hit(values: Seq<CanonicalValue>, i: int, ids: Seq<Seq<char>>) -> bool {
    match text_at(values, i) {
        Some(v) => ids.contains(v),
        None => false,
    }
}

pub open spec fn texts(ids: Seq<String>) -> Seq<Seq<char>> {
    ids.map_values(|s: String| s@)
}

/// Whether a record refers, in any identifier column, to one of `ids`. A
/// record of an unknown table is treated as referring to them.
pub open spec fn refers_to(record: CanonicalRecord, ids: Seq<Seq<char>>) -> bool {
    match table_shape(record.table@) {
        None => true,
        Some(shape) => exists|i: int|
            0 <= i < shape.0.len() && is_id_column(#[trigger] shape.0[i]) && id_hit(record.values@, i, ids),
    }
}

fn contains_text(ids: &Vec<String>, value: &str) -> (r: bool)
    ensures
        r == texts(ids@).contains(value@),
{
    let mut i: usize = 0;
    while i < ids.len()
        invariant
            i <= ids@.len(),
            forall|k: int| 0 <= k < i ==> ids@[k]@ != value@,
        decreases ids.len() - i,
    {
        if str_eq(ids[i].as_str(), value) {
            assert(texts(ids@)[i as int] == value@);
            return true;
        }
        i = i + 1;
    }
    proof {
        if texts(ids@).contains(value@) {
            let k = choose|k: int| 0 <= k < texts(ids@).len() && texts(ids@)[k] == value@;
            assert(ids@[k]@ == value@);
        }
    }
    false
}

pub fn references_any(record: &CanonicalRecord, entity_ids: &Vec<String>) -> (r: bool)
    ensures
        r == refers_to(*record, texts(entity_ids@)),
{
    let spec = match table_spec(record.table.as_str()) {
        Ok(spec) => spec,
        Err(_) => {
            return true;
        },
    };
    let ghost cols = column_views(spec.columns@);
    proof {
        assert(table_shape(record.table@) == Some(shape_of(spec)));
    }
    let mut i: usize = 0;
    while i < spec.columns.len()
        invariant
            i <= spec.columns@.len(),
            cols == column_views(spec.columns@),
            table_shape(record.table@) == Some((cols, spec.primary_key_indexes@)),
            forall|k: int|
                0 <= k < i ==> !(is_id_column(#[trigger] cols[k]) && id_hit(record.values@, k, texts(entity_ids@))),
        decreases spec.columns.len() - i,
    {
        if id_column(spec.columns[i]) && i < record.values.len() {
            let hit = match &record.values[i] {
                CanonicalValue::Text(value) => {
                    let found = contains_text(entity_ids, value.as_str());
                    assert(text_at(record.values@, i as int) == Some(value@));
                    found
                },
                _ => false,
            };
            if hit {
                proof {
                    assert(cols[i as int] == spec.columns@[i as int]@);
                    assert(is_id_column(cols[i as int]));
                    assert(id_hit(record.values@, i as int, texts(entity_ids@)));
                    let shape = table_shape(record.table@)->0;
                    assert(shape.0 == cols);
                    assert(is_id_column(shape.0[i as int]));
                    assert(refers_to(*record, texts(entity_ids@)));
                }
                return true;
            }
            proof {
                assert(!id_hit(record.values@, i as int, texts(entity_ids@)));
            }
        }
        i = i + 1;
    }
    false
}

/// The text values of a record's primary-key columns, in key order.
pub open spec fn key_texts(keys: Seq<usize>, values: Seq<CanonicalValue>) -> Seq<Seq<char>>
    decreases keys.len(),
{
    if keys.len() == 0 {
        Seq::empty()
    } else {
        let rest = key_texts(keys.drop_last(), values);
        match text_at(values, keys.last() as int) {
            Some(t) => rest.push(t),
            None => rest,
        }
    }
}

pub open spec fn primary_ids(record: CanonicalRecord) -> Seq<Seq<char>> {
    match table_shape(record.table@) {
        None => Seq::empty(),
        Some(shape) => key_texts(shape.1, record.values@),
    }
}

pub fn primary_text_ids(record: &CanonicalRecord) -> (r: Vec<String>)
    ensures
        texts(r@) == primary_ids(*record),
{
    let spec = match table_spec(record.table.as_str()) {
        Ok(spec) => spec,
        Err(_) => {
            let r: Vec<String> = Vec::new();
            assert(texts(r@) =~= Seq::<Seq<char>>::empty());
            return r;
        },
    };
    let mut out: Vec<String> = Vec::new();
    let mut i: usize = 0;
    while i < spec.primary_key_indexes.len()
        invariant
            i <= spec.primary_key_indexes@.len(),
            table_shape(record.table@) == Some((column_views(spec.columns@), spec.primary_key_indexes@)),
            texts(out@) == key_texts(spec.primary_key_indexes@.take(i as int), record.values@),
        decreases spec.primary_key_indexes.len() - i,
    {
        let index = spec.primary_key_indexes[i];
        proof {
            assert(spec.primary_key_indexes@.take(i + 1).drop_last() =~= spec.primary_key_indexes@.take(i as int));
        }
        if index < record.values.len() {
            match &record.values[index] {
                CanonicalValue::Text(value) => {
                    out.push(value.clone());
                },
                _ => {},
            }
        }
        i = i + 1;
        proof {
            assert(texts(out@) =~= key_texts(spec.primary_key_indexes@.take(i as int), record.values@));
        }
    }
    assert(spec.primary_key_indexes@.take(spec.primary_key_indexes@.len() as int) =~= spec.primary_key_indexes@);
    out
}

/// How an archived record compares with the live notebook.
#[derive(Clone, Copy, Debug, PartialEq, Eq, Structural)]
pub enum RecordStatus {
    Missing,
    Exact,
    Divergent,
}

/// Rewrites a record's column to point at `value` (a remapped id) when the
/// table and column exist. Returns whether the column is part of the
/// primary key, whose encoded key the caller then renews.
pub fn remap_foreign_key(record: &mut CanonicalRecord, column: &str, value: &str) -> (r: bool)
    ensures
        final(record).table == old(record).table,
        match table_shape(old(record).table@) {
            None => *final(record) == *old(record) && !r,
            Some(shape) => {
                let i = first_index(shape.0, column@);
                if i < 0 || i >= old(record).values@.len() {
                    *final(record) == *old(record) && !r
                } else {
                    &&& final(record).values@.len() == old(record).values@.len()
                    &&& final(record).values@[i] matches CanonicalValue::Text(t) && t@ == value@
                    &&& forall|j: int| 0 <= j < old(record).values@.len() && j != i
                        ==> final(record).values@[j] == old(record).values@[j]
                    &&& final(record).key == old(record).key
                    &&& r == shape.1.contains(i as usize)
                }
            },
        },
{
    let spec = match table_spec(record.table.as_str()) {
        Ok(spec) => spec,
        Err(_) => {
            return false;
        },
    };
    let index = match position_of(spec.columns, column) {
        Some(i) => i,
        None => {
            return false;
        },
    };
    if index >= record.values.len() {
        return false;
    }
    proof {
        assert(table_shape(old(record).table@) == Some(shape_of(spec)));
    }
    record.values.set(index, CanonicalValue::Text(copy_string(value)));
    let mut in_key = false;
    let mut k: usize = 0;
    while k < spec.primary_key_indexes.len()
        invariant
            k <= spec.primary_key_indexes@.len(),
            in_key == spec.primary_key_indexes@.take(k as int).contains(index),
        decreases spec.primary_key_indexes.len() - k,
    {
        let ghost before = spec.primary_key_indexes@.take(k as int);
        proof {
            assert(spec.primary_key_indexes@.take(k + 1) =~= before.push(spec.primary_key_indexes@[k as int]));
            assert forall|x: usize| before.push(spec.primary_key_indexes@[k as int]).contains(x) <==> (before.contains(x) || x == spec.primary_key_indexes@[k as int]) by {
                if before.push(spec.primary_key_indexes@[k as int]).contains(x) && !(x == spec.primary_key_indexes@[k as int]) {
                    let j = choose|j: int| 0 <= j < before.len() + 1 && before.push(spec.primary_key_indexes@[k as int])[j] == x;
                    assert(before[j] == x);
                }
                if before.contains(x) {
                    let j = choose|j: int| 0 <= j < before.len() && before[j] == x;
                    assert(before.push(spec.primary_key_indexes@[k as int])[j] == x);
                }
                if x == spec.primary_key_indexes@[k as int] {
                    assert(before.push(spec.primary_key_indexes@[k as int])[before.len() as int] == x);
                }
            }
        }
        if spec.primary_key_indexes[k] == index {
            in_key = true;
        }
        k = k + 1;
    }
    assert(spec.primary_key_indexes@.take(spec.primary_key_indexes@.len() as int) =~= spec.primary_key_indexes@);
    in_key
}

} // verus!
