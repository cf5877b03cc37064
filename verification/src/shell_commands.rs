//! The overlay's own command: expanding or collapsing it, which decides
//! whether it lets clicks through to MTGO.
use vstd::prelude::*;

use crate::commands::refuses_caller;
use crate::ipc::{AppError, CallerIdentity, CommandResult};

verus! {

#[derive(Debug, PartialEq, Eq)]
pub struct OverlayInteractionRequest {
    pub expanded: bool,
}

#[derive(Debug, PartialEq, Eq)]
pub struct OverlayInteractionView {
    pub expanded: bool,
    pub click_through: bool,
}

/// Expands or collapses the overlay (overlay window only); `apply` sizes
/// the window. A collapsed overlay lets clicks through, an expanded one
/// does not.
pub fn set_overlay_interaction_for<F: FnOnce(bool) -> Result<(), AppError>>(
    caller: CallerIdentity,
    request: OverlayInteractionRequest,
    apply: F,
) -> (r: CommandResult<OverlayInteractionView>)
    requires
        apply.requires((request.expanded,)),
    ensures
        caller != CallerIdentity::Overlay ==> refuses_caller(r),
        caller == CallerIdentity::Overlay ==> exists|o: Result<(), AppError>|
            #![trigger apply.ensures((request.expanded,), o)]
            apply.ensures((request.expanded,), o) && match o {
                Ok(_) => r == CommandResult::Success {
                    ok: true,
                    data: OverlayInteractionView {
                        expanded: request.expanded,
                        click_through: !request.expanded,
                    },
                    revision: 1,
                },
                Err(e) => r == CommandResult::<OverlayInteractionView>::Failure { ok: false, error: e },
            },
{
    if let Err(error) = caller.require(&[CallerIdentity::Overlay]) {
        return CommandResult::failure(error);
    }
    let outcome = apply(request.expanded);
    match outcome {
        Ok(()) => CommandResult::success(
            OverlayInteractionView { expanded: request.expanded, click_through: !request.expanded },
            1,
        ),
        Err(error) => CommandResult::failure(error),
    }
}

} // verus!
