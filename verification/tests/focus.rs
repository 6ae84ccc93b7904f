use niri_sidebar::commands::focus::{focus_cycle, Direction};
use niri_sidebar::config::{Config, Geometry, Interaction, Margins, SidebarPosition};
use niri_sidebar::niri::{Action, Snapshot, Window};
use niri_sidebar::state::{AppState, WindowState};
use niri_sidebar::{Ctx, SidebarError};

fn mock_window(id: u64, is_focused: bool, is_floating: bool, ws: u64) -> Window {
    Window {
        id,
        app_id: Some("test".to_string()),
        title: Some("Test Window".to_string()),
        is_focused,
        is_floating,
        workspace_id: Some(ws),
        width: 1000,
        height: 800,
        position: None,
    }
}

fn mock_config() -> Config {
    Config {
        geometry: Geometry { width: 300, height: 200, gap: 10 },
        margins: Margins { top: 50, right: 20, left: 0, bottom: 50 },
        interaction: Interaction {
            peek: 10,
            focus_peek: Some(50),
            position: SidebarPosition::Right,
            sticky: false,
            focus_on_unhide: false,
        },
        window_rule: vec![],
    }
}

fn three_window_ctx(focused: Option<u64>) -> (Ctx, Snapshot) {
    let mut state = AppState::default();
    for id in [1, 2, 3] {
        state.windows.push(WindowState { id, width: 300, height: 200, is_floating: true, position: None });
    }
    let windows = [1u64, 2, 3]
        .iter()
        .map(|&id| mock_window(id, focused == Some(id), true, 1))
        .collect();
    let snap = Snapshot { screen_width: 1920, screen_height: 1080, active_workspace: 1, windows };
    (Ctx { state, config: mock_config() }, snap)
}

#[test]
fn test_focus_cycle_next_advances_with_wraparound() {
    let (ctx, snap) = three_window_ctx(Some(2));
    let effects = focus_cycle(&ctx, &snap, Direction::Next).expect("focus_cycle failed");
    assert_eq!(effects.commands.len(), 1);
    assert!(matches!(effects.commands[0], Action::FocusWindow { id: 3 }));

    let (ctx, snap) = three_window_ctx(Some(3));
    let effects = focus_cycle(&ctx, &snap, Direction::Next).expect("focus_cycle failed");
    assert!(matches!(effects.commands[0], Action::FocusWindow { id: 1 }));
}

#[test]
fn test_focus_cycle_prev_advances_with_wraparound() {
    let (ctx, snap) = three_window_ctx(Some(2));
    let effects = focus_cycle(&ctx, &snap, Direction::Prev).expect("focus_cycle failed");
    assert!(matches!(effects.commands[0], Action::FocusWindow { id: 1 }));

    let (ctx, snap) = three_window_ctx(Some(1));
    let effects = focus_cycle(&ctx, &snap, Direction::Prev).expect("focus_cycle failed");
    assert!(matches!(effects.commands[0], Action::FocusWindow { id: 3 }));
}

#[test]
fn test_focus_cycle_enters_from_matching_end() {
    // No sidebar window focused: Next enters at the first candidate, Prev at
    // the last.
    let (ctx, snap) = three_window_ctx(None);
    let effects = focus_cycle(&ctx, &snap, Direction::Next).expect("focus_cycle failed");
    assert!(matches!(effects.commands[0], Action::FocusWindow { id: 1 }));

    let effects = focus_cycle(&ctx, &snap, Direction::Prev).expect("focus_cycle failed");
    assert!(matches!(effects.commands[0], Action::FocusWindow { id: 3 }));
}

#[test]
fn test_focus_cycle_follows_flipped_order() {
    let (mut ctx, snap) = three_window_ctx(Some(2));
    ctx.state.is_flipped = true;
    // Visual order is [3, 2, 1]; Next from 2 is 1.
    let effects = focus_cycle(&ctx, &snap, Direction::Next).expect("focus_cycle failed");
    assert!(matches!(effects.commands[0], Action::FocusWindow { id: 1 }));
}

#[test]
fn test_focus_cycle_empty_candidates_is_not_found() {
    // The only tracked window is on another workspace.
    let mut state = AppState::default();
    state.windows.push(WindowState { id: 1, width: 300, height: 200, is_floating: true, position: None });
    let snap = Snapshot {
        screen_width: 1920,
        screen_height: 1080,
        active_workspace: 1,
        windows: vec![mock_window(1, false, true, 99)],
    };
    let ctx = Ctx { state, config: mock_config() };

    let r = focus_cycle(&ctx, &snap, Direction::Next);
    assert_eq!(r.unwrap_err(), SidebarError::NotFound);
}
