pub mod domain;
pub mod entropy;
pub mod text;
pub mod encounters;
pub mod operations;
pub mod weburl;
pub mod keyed;
pub mod decks;
pub mod ipc;
pub mod json;
pub mod unicode;
pub mod crypto;
pub mod player_models;
pub mod canonical;
pub mod player_census;
pub mod player_runtime;
pub mod player_routes;
pub mod player_evidence;
pub mod player_classification;
pub mod commands;
pub mod note_commands;
pub mod archive;
pub mod records;
pub mod restore;
pub mod portability;
pub mod backup;
pub mod portability_commands;
pub mod player_commands;
pub mod notebook_key;
pub mod migrations;
pub mod diagnostics_commands;
pub mod shell_commands;
pub mod bootstrap_commands;
pub mod provider_commands;
pub mod update_commands;
pub mod settings_commands;
pub mod player_deletion;
pub mod player_store;
pub mod encounter_store;
pub mod manual_statement;
