use mtgo_notes::domain::InternalPhase;
use mtgo_notes::ipc::{AppError, CallerIdentity, CommandResult};
use mtgo_notes::shell_commands::{
    set_overlay_interaction_for, OverlayInteractionRequest, OverlayInteractionView,
};
use mtgo_notes::player_commands::admit_player_command;
use mtgo_notes::player_runtime::PlayerCommandKind;

#[test]
fn main_only_admission_is_shared_by_future_handlers() {
    assert!(admit_player_command(
        CallerIdentity::Main,
        InternalPhase::Idle,
        PlayerCommandKind::Status,
        0
    )
    .is_ok());
    assert!(admit_player_command(
        CallerIdentity::Overlay,
        InternalPhase::Idle,
        PlayerCommandKind::Status,
        0
    )
    .is_err());
}

#[test]
fn only_the_overlay_toggles_its_click_through() {
    use_overlay();
}

fn use_overlay() {
    let expanded = set_overlay_interaction_for(
        CallerIdentity::Overlay,
        OverlayInteractionRequest { expanded: true },
        |_expanded: bool| Ok::<(), AppError>(()),
    );
    assert_eq!(
        expanded,
        CommandResult::Success {
            ok: true,
            data: OverlayInteractionView { expanded: true, click_through: false },
            revision: 1
        }
    );
    let collapsed = set_overlay_interaction_for(
        CallerIdentity::Overlay,
        OverlayInteractionRequest { expanded: false },
        |_expanded: bool| Ok::<(), AppError>(()),
    );
    assert!(matches!(collapsed, CommandResult::Success { data: OverlayInteractionView { click_through: true, .. }, .. }));
    let main = set_overlay_interaction_for(
        CallerIdentity::Main,
        OverlayInteractionRequest { expanded: true },
        |_expanded: bool| Ok::<(), AppError>(()),
    );
    assert!(matches!(main, CommandResult::Failure { .. }));
}
