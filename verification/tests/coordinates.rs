use niri_sidebar::commands::reorder::calculate_coordinates;
use niri_sidebar::config::{default_margin, default_position, default_sticky, Interaction, Margins, SidebarPosition};
use niri_sidebar::state::AppState;
use niri_sidebar::WindowTarget;

fn margins(top: i32, right: i32, left: i32, bottom: i32) -> Margins {
    Margins { top, right, left, bottom }
}

#[test]
fn test_coordinate_law_right_edge() {
    // Edge = Right, hidden, peek = 10, screen width 1920 -> x = 1910.
    let dims = WindowTarget { width: 300, height: 200 };
    let (x, _) = calculate_coordinates(
        SidebarPosition::Right,
        dims,
        (1920, 1080),
        0,
        10,
        true,
        &margins(0, 20, 0, 50),
    );
    assert_eq!(x, 1910);

    // Visible, width = 300, marginRight = 20 -> x = 1600.
    let (x, _) = calculate_coordinates(
        SidebarPosition::Right,
        dims,
        (1920, 1080),
        0,
        10,
        false,
        &margins(0, 20, 0, 50),
    );
    assert_eq!(x, 1600);
}

#[test]
fn test_coordinate_law_other_edges() {
    let dims = WindowTarget { width: 300, height: 200 };
    let m = margins(40, 20, 30, 50);

    // Left visible: x = marginLeft; hidden: x = -w + peek.
    let (x, y) = calculate_coordinates(SidebarPosition::Left, dims, (1920, 1080), 0, 10, false, &m);
    assert_eq!(x, 30);
    assert_eq!(y, 1080 - 200 - 50);
    let (x, _) = calculate_coordinates(SidebarPosition::Left, dims, (1920, 1080), 0, 10, true, &m);
    assert_eq!(x, -290);

    // Bottom visible: y = sh - h - marginBottom; hidden: y = sh - peek.
    let (x, y) = calculate_coordinates(SidebarPosition::Bottom, dims, (1920, 1080), 70, 10, false, &m);
    assert_eq!(x, 30 + 70);
    assert_eq!(y, 1080 - 200 - 50);
    let (_, y) = calculate_coordinates(SidebarPosition::Bottom, dims, (1920, 1080), 70, 10, true, &m);
    assert_eq!(y, 1070);

    // Top visible: y = marginTop; hidden: y = -h + peek.
    let (_, y) = calculate_coordinates(SidebarPosition::Top, dims, (1920, 1080), 0, 10, false, &m);
    assert_eq!(y, 40);
    let (_, y) = calculate_coordinates(SidebarPosition::Top, dims, (1920, 1080), 0, 10, true, &m);
    assert_eq!(y, -190);
}

#[test]
fn test_stack_offset_shifts_stacking_axis() {
    let dims = WindowTarget { width: 300, height: 200 };
    let m = margins(0, 0, 0, 50);
    let (_, y0) = calculate_coordinates(SidebarPosition::Right, dims, (1920, 1080), 0, 10, false, &m);
    let (_, y1) = calculate_coordinates(SidebarPosition::Right, dims, (1920, 1080), 210, 10, false, &m);
    assert_eq!(y0, 830);
    assert_eq!(y1, 620);
}

#[test]
fn test_get_focus_peek_falls_back_to_peek() {
    let mut interaction = Interaction {
        peek: 10,
        focus_peek: None,
        position: SidebarPosition::Right,
        sticky: false,
        focus_on_unhide: false,
    };
    assert_eq!(interaction.get_focus_peek(), 10);
    interaction.focus_peek = Some(50);
    assert_eq!(interaction.get_focus_peek(), 50);
}

#[test]
fn test_configuration_defaults() {
    assert!(!default_sticky());
    assert_eq!(default_position(), SidebarPosition::Right);
    assert_eq!(default_margin(), 0);

    let state = AppState::default();
    assert!(state.windows.is_empty());
    assert!(state.ignored_windows.is_empty());
    assert!(!state.is_hidden);
    assert!(!state.is_flipped);
}
