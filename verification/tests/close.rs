use niri_sidebar::commands::close::close;
use niri_sidebar::config::{Config, Geometry, Interaction, Margins, SidebarPosition};
use niri_sidebar::niri::{Action, Snapshot, Window};
use niri_sidebar::state::{AppState, WindowState};
use niri_sidebar::{Ctx, SidebarError};

fn mock_window(id: u64, is_focused: bool, is_floating: bool, ws: u64, position: Option<(i64, i64)>) -> Window {
    Window {
        id,
        app_id: Some("test".to_string()),
        title: Some("Test Window".to_string()),
        is_focused,
        is_floating,
        workspace_id: Some(ws),
        width: 1000,
        height: 800,
        position,
    }
}

fn mock_config() -> Config {
    Config {
        geometry: Geometry { width: 300, height: 200, gap: 10 },
        margins: Margins { top: 50, right: 20, left: 0, bottom: 50 },
        interaction: Interaction {
            peek: 10,
            focus_peek: Some(50),
            position: SidebarPosition::Right,
            sticky: false,
            focus_on_unhide: false,
        },
        window_rule: vec![],
    }
}

fn snapshot(windows: Vec<Window>) -> Snapshot {
    Snapshot { screen_width: 1920, screen_height: 1080, active_workspace: 1, windows }
}

#[test]
fn test_close_sidebar_window() {
    let win = mock_window(10, true, true, 1, Some((1, 2)));
    let snap = snapshot(vec![win]);

    let mut state = AppState::default();
    state.windows.push(WindowState { id: 10, width: 100, height: 100, is_floating: false, position: None });

    let mut ctx = Ctx { state, config: mock_config() };

    let effects = close(&mut ctx, &snap).expect("Close failed");

    assert!(ctx.state.windows.is_empty(), "Window was not removed from state");

    assert!(effects.commands.iter().any(|a| matches!(a, Action::CloseWindow { id: 10 })));
}

#[test]
fn test_close_untracked_window() {
    // Focused window (ID 99) is NOT in the sidebar
    let w1 = mock_window(99, true, false, 1, None);
    let w2 = mock_window(10, false, true, 1, Some((1, 2)));
    let snap = snapshot(vec![w1, w2]);

    let mut state = AppState::default();
    state.windows.push(WindowState { id: 10, width: 100, height: 100, is_floating: false, position: None });

    let mut ctx = Ctx { state, config: Default::default() };

    let effects = close(&mut ctx, &snap).expect("Close failed");

    assert_eq!(ctx.state.windows.len(), 1);
    assert_eq!(ctx.state.windows[0].id, 10);

    // CloseWindow action still sent
    assert!(effects.commands.iter().any(|a| matches!(a, Action::CloseWindow { id: 99 })));
}

#[test]
fn test_close_without_focus_is_not_found() {
    // No live window holds focus: the command fails and mutates nothing.
    let w1 = mock_window(10, false, true, 1, None);
    let snap = snapshot(vec![w1]);

    let mut state = AppState::default();
    state.windows.push(WindowState { id: 10, width: 100, height: 100, is_floating: false, position: None });

    let mut ctx = Ctx { state, config: mock_config() };

    let r = close(&mut ctx, &snap);
    assert_eq!(r.unwrap_err(), SidebarError::NotFound);
    assert_eq!(ctx.state.windows.len(), 1);
}

#[test]
fn test_close_emits_close_then_layout() {
    // Closing a tracked focused window: the close command comes first, then
    // the layout pass positions only the remainder.
    let w10 = mock_window(10, true, true, 1, None);
    let w20 = mock_window(20, false, true, 1, None);
    let snap = snapshot(vec![w10, w20]);

    let mut state = AppState::default();
    state.windows.push(WindowState { id: 10, width: 100, height: 100, is_floating: true, position: None });
    state.windows.push(WindowState { id: 20, width: 100, height: 100, is_floating: true, position: None });

    let mut ctx = Ctx { state, config: mock_config() };

    let effects = close(&mut ctx, &snap).expect("Close failed");

    assert_eq!(ctx.state.windows.len(), 1);
    assert_eq!(ctx.state.windows[0].id, 20);
    assert!(effects.state_changed);
    assert!(matches!(effects.commands[0], Action::CloseWindow { id: 10 }));
    assert_eq!(effects.commands.len(), 2);
    assert!(matches!(effects.commands[1], Action::MoveFloatingWindow { id: 20, .. }));
}
