use niri_sidebar::commands::movefrom::move_from;
use niri_sidebar::config::Config;
use niri_sidebar::niri::{Action, Snapshot, Window};
use niri_sidebar::state::{AppState, WindowState};
use niri_sidebar::Ctx;

fn mock_window(id: u64, is_focused: bool, is_floating: bool, ws: u64, position: Option<(i64, i64)>) -> Window {
    Window {
        id,
        app_id: Some("test".to_string()),
        title: Some("Test Window".to_string()),
        is_focused,
        is_floating,
        workspace_id: Some(ws),
        width: 1000,
        height: 800,
        position,
    }
}

#[test]
fn test_move_from_only_moves_tracked_windows_on_source_workspace() {
    // We track ID 100 and ID 500. We do NOT track ID 200.
    let mut state = AppState::default();
    state.windows.push(WindowState { id: 100, width: 500, height: 500, is_floating: true, position: Some((1, 2)) });
    state.windows.push(WindowState { id: 500, width: 500, height: 500, is_floating: true, position: Some((1, 2)) });

    let source_ws: u64 = 2;
    let target_ws: u64 = 1;

    // Window 100: On Source WS + Tracked in State -> SHOULD MOVE
    let w100 = mock_window(100, true, false, source_ws, Some((1, 2)));
    // Window 200: On Source WS + NOT Tracked -> SHOULD IGNORE
    let w200 = mock_window(200, true, false, source_ws, Some((1, 2)));
    // Window 300: On Wrong WS (99) + Tracked -> SHOULD IGNORE
    let w300 = mock_window(300, true, false, 99, Some((1, 2)));
    // Window 400: On Target WS + Focused
    let w400 = mock_window(400, true, true, target_ws, Some((1, 2)));

    let snap = Snapshot {
        screen_width: 1920,
        screen_height: 1080,
        active_workspace: target_ws,
        windows: vec![w100, w200, w300, w400],
    };

    let ctx = Ctx { state, config: Config::default() };

    let effects = move_from(&ctx, &snap, source_ws);
    let actions = &effects.commands;

    // We expect exactly ONE action (for w100)
    assert_eq!(actions.len(), 1, "Should only generate 1 move action");

    match &actions[0] {
        Action::MoveWindowToWorkspace { id, workspace } => {
            assert_eq!(*id, 100, "Should move window 100");
            assert_eq!(*workspace, target_ws, "Should move to active workspace");
        },
        _ => panic!("Unexpected action emitted"),
    }
}
