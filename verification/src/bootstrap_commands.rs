//! What a window learns when it starts: the application summary, the
//! settings with their revision, and who it is; and reading the settings.
//! The settings themselves are held by the caller; `S` is their type.
use vstd::prelude::*;

use crate::commands::{fails_with, refuses_caller};
use crate::domain::InternalPhase;
use crate::ipc::{AppError, CallerIdentity, CommandResult};
use crate::text::copy_string;

verus! {

/// The product name every window shows.
pub const APP_NAME: &'static str = "MTGO Opponent Notes";

#[derive(Debug, PartialEq, Eq)]
pub struct AppSummary {
    pub name: String,
    pub version: String,
    pub local_only: bool,
}

#[derive(Debug, PartialEq, Eq)]
pub struct EncounterBootstrapView {
    pub id: String,
    pub phase: InternalPhase,
    pub revision: u64,
}

#[derive(Debug, PartialEq, Eq)]
pub struct BootstrapState<S> {
    pub app: AppSummary,
    pub settings: S,
    pub encounter: Option<EncounterBootstrapView>,
    pub caller: CallerIdentity,
}

/// `r` hands a window the summary (this product, the given version, local
/// only), the settings at their revision, no attached encounter, and the caller.
pub open spec fn starts_with<S>(
    r: CommandResult<BootstrapState<S>>,
    settings: S,
    settings_revision: u64,
    version: Seq<char>,
    caller: CallerIdentity,
) -> bool {
    &&& r matches CommandResult::Success { ok, data, revision }
    &&& ok
    &&& revision == settings_revision
    &&& data.app.name@ == APP_NAME@
    &&& data.app.version@ == version
    &&& data.app.local_only
    &&& data.settings == settings
    &&& data.encounter is None
    &&& data.caller == caller
}

/// The start-up state of any window: a notebook that failed to open is
/// reported instead; otherwise the summary (always local-only), the
/// settings at their revision, no attached encounter, and the caller.
pub fn bootstrap_for<S>(
    caller: CallerIdentity,
    notebook_error: Option<AppError>,
    settings: S,
    settings_revision: u64,
    version: &str,
) -> (r: CommandResult<BootstrapState<S>>)
    ensures
        notebook_error matches Some(e) ==> fails_with(r, e),
        notebook_error is None ==> starts_with(r, settings, settings_revision, version@, caller),
{
    if let Some(error) = notebook_error {
        return CommandResult::failure(error);
    }
    CommandResult::success(
        BootstrapState {
            app: AppSummary {
                name: copy_string(APP_NAME),
                version: copy_string(version),
                local_only: true,
            },
            settings,
            encounter: None,
            caller,
        },
        settings_revision,
    )
}

/// The settings at their revision (main window).
pub fn get_settings_for<S>(caller: CallerIdentity, settings: S, revision: u64) -> (r: CommandResult<S>)
    ensures
        caller != CallerIdentity::Main ==> refuses_caller(r),
        caller == CallerIdentity::Main ==> r == (CommandResult::Success { ok: true, data: settings, revision }),
{
    if let Err(error) = caller.require(&[CallerIdentity::Main]) {
        return CommandResult::failure(error);
    }
    CommandResult::success(settings, revision)
}

} // verus!
