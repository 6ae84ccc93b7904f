use niri_sidebar::commands::cycle::cycle;
use niri_sidebar::config::{Config, Geometry, Interaction, Margins, SidebarPosition};
use niri_sidebar::niri::{Snapshot, Window};
use niri_sidebar::state::{AppState, WindowState};
use niri_sidebar::{Ctx, Direction};

fn mock_window(id: u64, is_focused: bool, is_floating: bool, ws: u64, position: Option<(i64, i64)>) -> Window {
    Window {
        id,
        app_id: Some("test".to_string()),
        title: Some("Test Window".to_string()),
        is_focused,
        is_floating,
        workspace_id: Some(ws),
        width: 1000,
        height: 800,
        position,
    }
}

fn mock_config() -> Config {
    Config {
        geometry: Geometry { width: 300, height: 200, gap: 10 },
        margins: Margins { top: 50, right: 20, left: 0, bottom: 50 },
        interaction: Interaction {
            peek: 10,
            focus_peek: Some(50),
            position: SidebarPosition::Right,
            sticky: false,
            focus_on_unhide: false,
        },
        window_rule: vec![],
    }
}

fn make_ctx_and_snap() -> (Ctx, Snapshot) {
    let mut state = AppState::default();
    for id in [1, 2, 3] {
        state.windows.push(WindowState {
            id,
            width: 300,
            height: 200,
            is_floating: true,
            position: Some((1, 2)),
        });
    }

    let snap = Snapshot {
        screen_width: 1920,
        screen_height: 1080,
        active_workspace: 1,
        windows: vec![
            mock_window(1, false, true, 1, Some((1, 2))),
            mock_window(2, false, true, 1, Some((1, 2))),
            mock_window(3, false, true, 1, Some((1, 2))),
        ],
    };

    (Ctx { state, config: mock_config() }, snap)
}

#[test]
fn test_cycle_next() {
    let (mut ctx, snap) = make_ctx_and_snap();

    // [1, 2, 3] -> [2, 3, 1]
    let effects = cycle(&mut ctx, &snap, Direction::Next);
    let ids: Vec<u64> = ctx.state.windows.iter().map(|w| w.id).collect();
    assert_eq!(ids, vec![2, 3, 1]);

    // A layout pass should have run
    assert!(!effects.commands.is_empty());
}

#[test]
fn test_cycle_prev() {
    let (mut ctx, snap) = make_ctx_and_snap();

    // [1, 2, 3] -> [3, 1, 2]
    let effects = cycle(&mut ctx, &snap, Direction::Prev);
    let ids: Vec<u64> = ctx.state.windows.iter().map(|w| w.id).collect();
    assert_eq!(ids, vec![3, 1, 2]);

    assert!(!effects.commands.is_empty());
}

#[test]
fn test_cycle_single_window_noop() {
    let mut state = AppState::default();
    state.windows.push(WindowState {
        id: 1,
        width: 300,
        height: 200,
        is_floating: true,
        position: Some((1, 2)),
    });

    let snap = Snapshot {
        screen_width: 1920,
        screen_height: 1080,
        active_workspace: 1,
        windows: vec![mock_window(1, false, true, 1, Some((1, 2)))],
    };

    let mut ctx = Ctx { state, config: mock_config() };

    let effects = cycle(&mut ctx, &snap, Direction::Next);
    assert_eq!(ctx.state.windows.len(), 1);
    assert_eq!(ctx.state.windows[0].id, 1);
    assert_eq!(ctx.state.windows[0].width, 300);
    assert_eq!(ctx.state.windows[0].height, 200);
    assert!(effects.commands.is_empty());
    assert!(!effects.state_changed);
}

#[test]
fn test_cycle_round_trip_restores_order() {
    // cycle(Next) then cycle(Prev) restores the original order.
    let (mut ctx, snap) = make_ctx_and_snap();
    let before: Vec<u64> = ctx.state.windows.iter().map(|w| w.id).collect();

    cycle(&mut ctx, &snap, Direction::Next);
    cycle(&mut ctx, &snap, Direction::Prev);

    let after: Vec<u64> = ctx.state.windows.iter().map(|w| w.id).collect();
    assert_eq!(before, after);
}
