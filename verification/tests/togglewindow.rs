use niri_sidebar::commands::togglewindow::toggle_window;
use niri_sidebar::config::{Config, Geometry, Interaction, Margins, SidebarPosition, WindowRule};
use niri_sidebar::niri::{Action, Snapshot, Window};
use niri_sidebar::state::{AppState, WindowState};
use niri_sidebar::window_rules::Pattern;
use niri_sidebar::{Ctx, SidebarError};

fn mock_window(id: u64, is_focused: bool, is_floating: bool, ws: u64, position: Option<(i64, i64)>) -> Window {
    Window {
        id,
        app_id: Some("test".to_string()),
        title: Some("Test Window".to_string()),
        is_focused,
        is_floating,
        workspace_id: Some(ws),
        width: 1000,
        height: 800,
        position,
    }
}

fn mock_config() -> Config {
    Config {
        geometry: Geometry { width: 300, height: 200, gap: 10 },
        margins: Margins { top: 50, right: 20, left: 0, bottom: 50 },
        interaction: Interaction {
            peek: 10,
            focus_peek: Some(50),
            position: SidebarPosition::Right,
            sticky: false,
            focus_on_unhide: false,
        },
        window_rule: vec![],
    }
}

fn snapshot(windows: Vec<Window>) -> Snapshot {
    Snapshot { screen_width: 1920, screen_height: 1080, active_workspace: 1, windows }
}

#[test]
fn test_add_to_sidebar() {
    let win = mock_window(100, true, false, 1, None);
    let snap = snapshot(vec![win]);

    let mut ctx = Ctx { state: AppState::default(), config: mock_config() };

    let effects = toggle_window(&mut ctx, &snap).expect("Command failed");

    // Window 100 should be in the sidebar list with original size (1000x800)
    assert_eq!(ctx.state.windows.len(), 1);
    let entry = ctx.state.windows[0];
    assert_eq!(entry.id, 100);
    assert_eq!(entry.width, 1000);
    assert_eq!(entry.height, 800);

    let actions = &effects.commands;

    // Should toggle floating
    assert!(actions.iter().any(|a| matches!(a, Action::ToggleWindowFloating { id: 100 })));

    // Should set width to 300 (config width)
    assert!(actions.iter().any(|a| matches!(a, Action::SetWindowWidth { id: 100, width: 300 })));
}

#[test]
fn test_remove_from_sidebar() {
    let win = mock_window(100, true, true, 1, None);
    let snap = snapshot(vec![win]);

    let mut state = AppState::default();
    state.windows.push(WindowState { id: 100, width: 1000, height: 800, is_floating: false, position: None });

    let mut ctx = Ctx { state, config: Config::default() };

    let effects = toggle_window(&mut ctx, &snap).expect("Command failed");

    // Should be empty now
    assert!(ctx.state.windows.is_empty());

    let actions = &effects.commands;

    // Should restore width to 1000
    assert!(actions.iter().any(|a| matches!(a, Action::SetWindowWidth { id: 100, width: 1000 })));

    // Should restore height to 800
    assert!(actions.iter().any(|a| matches!(a, Action::SetWindowHeight { id: 100, height: 800 })));
}

#[test]
fn test_add_to_sidebar_with_window_rule() {
    // Window with specific app_id to match rule
    let mut win = mock_window(100, true, false, 1, None);
    win.app_id = Some("special".into());
    let snap = snapshot(vec![win]);

    let mut config = mock_config();
    config.window_rule = vec![WindowRule {
        app_id: Some(Pattern::new("special").unwrap()),
        width: Some(500),
        height: Some(600),
        ..Default::default()
    }];

    let mut ctx = Ctx { state: AppState::default(), config };

    let effects = toggle_window(&mut ctx, &snap).expect("Command failed");

    assert_eq!(ctx.state.windows.len(), 1);

    let actions = &effects.commands;
    // Should set width to 500 (Rule width), not 300 (Config default)
    assert!(actions.iter().any(|a| matches!(a, Action::SetWindowWidth { id: 100, width: 500 })));

    // Should set height to 600 (Rule height)
    assert!(actions.iter().any(|a| matches!(a, Action::SetWindowHeight { id: 100, height: 600 })));
}

#[test]
fn test_toggle_window_without_focus_is_not_found() {
    let win = mock_window(100, false, true, 1, None);
    let snap = snapshot(vec![win]);
    let mut ctx = Ctx { state: AppState::default(), config: mock_config() };

    let r = toggle_window(&mut ctx, &snap);
    assert_eq!(r.unwrap_err(), SidebarError::NotFound);
    assert!(ctx.state.windows.is_empty());
}

#[test]
fn test_track_untrack_round_trip_restores_window() {
    // Tracking a non-floating window and untracking it again: the stack is
    // back to empty, the original 1000x800 size is restored by commands, and
    // floating is toggled on and then off again.
    let win_before = mock_window(100, true, false, 1, None);
    let snap_before = snapshot(vec![win_before]);

    let mut ctx = Ctx { state: AppState::default(), config: mock_config() };

    let add = toggle_window(&mut ctx, &snap_before).expect("Command failed");
    assert_eq!(ctx.state.windows.len(), 1);
    assert!(add.commands.iter().any(|a| matches!(a, Action::ToggleWindowFloating { id: 100 })));

    // After tracking, the compositor reports the window as floating.
    let win_after = mock_window(100, true, true, 1, None);
    let snap_after = snapshot(vec![win_after]);

    let remove = toggle_window(&mut ctx, &snap_after).expect("Command failed");
    assert!(ctx.state.windows.is_empty());
    assert_eq!(ctx.state.ignored_windows, vec![100]);
    assert!(remove.commands.iter().any(|a| matches!(a, Action::SetWindowWidth { id: 100, width: 1000 })));
    assert!(remove.commands.iter().any(|a| matches!(a, Action::SetWindowHeight { id: 100, height: 800 })));
    assert!(remove.commands.iter().any(|a| matches!(a, Action::ToggleWindowFloating { id: 100 })));
}
