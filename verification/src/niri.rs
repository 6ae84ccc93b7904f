//! Plain-value model of the compositor interface: what a snapshot query
//! returns, the commands the sidebar issues back, and the events it reacts
//! to. The unverified shell converts between these and the wire types.
use vstd::prelude::*;

verus! {

/// One live window as reported by the compositor.
#[derive(Clone, Debug, PartialEq, Eq)]
pub struct Window {
    pub id: u64,
    pub app_id: Option<String>,
    pub title: Option<String>,
    pub is_focused: bool,
    pub is_floating: bool,
    pub workspace_id: Option<u64>,
    /// Current window size in logical pixels.
    pub width: i32,
    pub height: i32,
    /// Current position, when the compositor reports one.
    pub position: Option<(i64, i64)>,
}

/// What one round of compositor queries yields: the logical screen size, the
/// active workspace, and the full live window list.
#[derive(Clone, Debug, PartialEq, Eq)]
pub struct Snapshot {
    pub screen_width: i32,
    pub screen_height: i32,
    pub active_workspace: u64,
    pub windows: Vec<Window>,
}

/// A command for the compositor. Coordinates are wide enough that the layout
/// arithmetic can never wrap.
#[derive(Clone, Copy, Debug, PartialEq, Eq)]
pub enum Action {
    CloseWindow { id: u64 },
    FocusWindow { id: u64 },
    MoveFloatingWindow { id: u64, x: i64, y: i64 },
    SetWindowWidth { id: u64, width: i32 },
    SetWindowHeight { id: u64, height: i32 },
    ToggleWindowFloating { id: u64 },
    FocusFloating,
    MoveWindowToWorkspace { id: u64, workspace: u64 },
}

/// A compositor notification, reduced to what the dispatcher reacts to.
#[derive(Clone, Debug, PartialEq, Eq)]
pub enum Event {
    WindowClosed { id: u64 },
    WindowFocusChanged,
    WorkspaceActivated { id: u64, focused: bool },
    WindowOpenedOrChanged { window: Window },
    Other,
}

/// What a command handler decided: the commands to send, in order, and
/// whether the state was mutated and so must be persisted first.
#[derive(Clone, Debug, PartialEq, Eq)]
pub struct Effects {
    pub commands: Vec<Action>,
    pub state_changed: bool,
}

/// Whether the live window list holds the given id.
pub open spec fn live_contains(live: Seq<Window>, id: u64) -> bool {
    exists|i: int| 0 <= i < live.len() && live[i].id == id
}

/// Index of the first live window with the given id, if any.
pub fn find_live_index(windows: &Vec<Window>, id: u64) -> (r: Option<usize>)
    ensures
        match r {
            Some(i) => {
                &&& i < windows@.len()
                &&& windows@[i as int].id == id
                &&& forall|j: int| 0 <= j < i ==> windows@[j].id != id
            },
            None => !live_contains(windows@, id),
        },
{
    let n: usize = windows.len();
    let mut i: usize = 0;
    while i < n
        invariant
            i <= n,
            n == windows@.len(),
            forall|j: int| 0 <= j < i ==> windows@[j].id != id,
        decreases n - i,
    {
        if windows[i].id == id {
            return Some(i);
        }
        i = i + 1;
    }
    None
}


/// The first live window that currently holds focus, if any.
pub open spec fn focused_window(live: Seq<Window>) -> Option<Window>
    decreases live.len(),
{
    if live.len() == 0 {
        None
    } else if live[0].is_focused {
        Some(live[0])
    } else {
        focused_window(live.skip(1))
    }
}

/// Dropping an unfocused prefix does not change which window is focused.
proof fn lemma_focused_window_skip(live: Seq<Window>, i: int)
    requires
        0 <= i <= live.len(),
        forall|j: int| 0 <= j < i ==> !live[j].is_focused,
    ensures
        focused_window(live) == focused_window(live.skip(i)),
    decreases i,
{
    if i == 0 {
        assert(live.skip(0) =~= live);
    } else {
        assert(!live[0].is_focused);
        assert forall|j: int| 0 <= j < i - 1 implies !live.skip(1)[j].is_focused by {
            assert(live.skip(1)[j] == live[j + 1]);
        }
        lemma_focused_window_skip(live.skip(1), i - 1);
        assert(live.skip(1).skip(i - 1) =~= live.skip(i));
    }
}

/// Index of the first live window that holds focus, if any.
pub fn find_focused_index(windows: &Vec<Window>) -> (r: Option<usize>)
    ensures
        match r {
            Some(i) => {
                &&& i < windows@.len()
                &&& windows@[i as int].is_focused
                &&& focused_window(windows@) == Some(windows@[i as int])
            },
            None => focused_window(windows@) is None,
        },
{
    let n: usize = windows.len();
    let mut i: usize = 0;
    while i < n
        invariant
            i <= n,
            n == windows@.len(),
            forall|j: int| 0 <= j < i ==> !windows@[j].is_focused,
        decreases n - i,
    {
        if windows[i].is_focused {
            proof {
                lemma_focused_window_skip(windows@, i as int);
                assert(windows@.skip(i as int)[0] == windows@[i as int]);
            }
            return Some(i);
        }
        i = i + 1;
    }
    proof {
        lemma_focused_window_skip(windows@, n as int);
    }
    None
}

} // verus!
