//! Player command admission for the main window: one gate on caller,
//! phase and payload size, shared by every Player command.
use vstd::prelude::*;

use crate::domain::InternalPhase;
use crate::ipc::CallerIdentity;
use crate::player_models::PlayerSourceRoute;
use crate::player_runtime::{
    admission_error, authorize_command, PlayerCommandKind, PlayerError, PlayerProviderStatus,
    PlayerPublicResultsRuntime,
};
use crate::domain::UtcMillis;

verus! {

pub fn admit_player_command(
    caller: CallerIdentity,
    phase: InternalPhase,
    command: PlayerCommandKind,
    payload_bytes: usize,
) -> (r: Result<(), PlayerError>)
    ensures
        match admission_error(caller, phase, command, payload_bytes) {
            Some(e) => r == Err::<(), PlayerError>(e),
            None => r is Ok,
        },
{
    authorize_command(caller, phase, command, payload_bytes)
}

/// The provider's status and consent for the census route, once the
/// caller is admitted to ask.
pub fn provider_status(caller: CallerIdentity, runtime: &PlayerPublicResultsRuntime) -> (r: Result<
    PlayerProviderStatus,
    PlayerError,
>)
    requires
        runtime.wf(),
    ensures
        admission_error(caller, InternalPhase::Idle, PlayerCommandKind::Status, 0) matches Some(e)
            ==> r == Err::<PlayerProviderStatus, PlayerError>(e),
        admission_error(caller, InternalPhase::Idle, PlayerCommandKind::Status, 0) is None ==> (
        r matches Ok(s) && exists|now: UtcMillis|
            now.0 >= 0 && runtime.status_matches(s, PlayerSourceRoute::CensusMocs, now)),
{
    admit_player_command(caller, InternalPhase::Idle, PlayerCommandKind::Status, 0)?;
    runtime.consent_status(PlayerSourceRoute::CensusMocs)
}

} // verus!
