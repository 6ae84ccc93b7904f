//! Tracking and untracking the focused window. Tracking records the
//! window's current size and floating flag so untracking can restore them;
//! untracking also arms a one-shot suppression against reactive re-adding.
use vstd::prelude::*;

use crate::commands::reorder::{layout_output, prune, reorder, spec_dims};
use crate::config::Config;
use crate::niri::{focused_window, find_focused_index, Action, Effects, Snapshot, Window};
use crate::state::{
    contains_id, entry_for, find_index, lemma_remove_id_wf, max_windows, remove_entry, remove_id,
    unique_ids, WindowState,
};
use crate::window_rules::resolve_window_size;
use crate::{Ctx, SidebarError};

verus! {

/// The state entry recorded when a window is tracked: its id and its
/// pre-tracking size, floating flag and position.
pub open spec fn track_entry(w: Window) -> WindowState {
    WindowState {
        id: w.id,
        width: w.width,
        height: w.height,
        is_floating: w.is_floating,
        position: w.position,
    }
}

/// The commands issued when a window is tracked: float it if it is not
/// floating yet, then apply the rule-resolved width and height.
pub open spec fn add_cmds(cfg: Config, w: Window) -> Seq<Action> {
    let dims = spec_dims(cfg, w);
    (if w.is_floating {
        Seq::<Action>::empty()
    } else {
        seq![Action::ToggleWindowFloating { id: w.id }]
    }) + seq![
        Action::SetWindowWidth { id: w.id, width: dims.0 },
        Action::SetWindowHeight { id: w.id, height: dims.1 },
    ]
}

/// The commands issued when a window is untracked: restore its recorded
/// pre-tracking size, and toggle floating off when it currently floats.
pub open spec fn untrack_cmds(entry: WindowState, currently_floating: bool) -> Seq<Action> {
    seq![
        Action::SetWindowWidth { id: entry.id, width: entry.width },
        Action::SetWindowHeight { id: entry.id, height: entry.height },
    ] + (if currently_floating {
        seq![Action::ToggleWindowFloating { id: entry.id }]
    } else {
        Seq::<Action>::empty()
    })
}

/// Track `window`: record its current size and floating flag, float it if
/// needed, and apply the rule-resolved size. The caller runs the layout
/// pass.
pub fn add_to_sidebar(ctx: &mut Ctx, window: &Window) -> (r: Vec<Action>)
    requires
        old(ctx).state.wf(),
        old(ctx).state.windows@.len() < max_windows(),
        !contains_id(old(ctx).state.windows@, window.id),
    ensures
        final(ctx).config == old(ctx).config,
        final(ctx).state.windows@ == old(ctx).state.windows@.push(track_entry(*window)),
        final(ctx).state.ignored_windows == old(ctx).state.ignored_windows,
        final(ctx).state.is_hidden == old(ctx).state.is_hidden,
        final(ctx).state.is_flipped == old(ctx).state.is_flipped,
        final(ctx).state.wf(),
        r@ == add_cmds(old(ctx).config, *window),
{
    let entry = WindowState {
        id: window.id,
        width: window.width,
        height: window.height,
        is_floating: window.is_floating,
        position: window.position,
    };
    ctx.state.windows.push(entry);
    proof {
        let ws0 = old(ctx).state.windows@;
        let ws1 = ctx.state.windows@;
        assert forall|i: int, j: int| 0 <= i < j < ws1.len() implies ws1[i].id != ws1[j].id by {
            if j < ws0.len() {
                assert(ws1[i] == ws0[i]);
                assert(ws1[j] == ws0[j]);
            } else {
                assert(ws1[j] == entry);
                assert(ws1[i] == ws0[i]);
                if ws0[i].id == entry.id {
                    assert(contains_id(ws0, window.id));
                }
            }
        }
    }
    let mut commands: Vec<Action> = Vec::new();
    if !window.is_floating {
        commands.push(Action::ToggleWindowFloating { id: window.id });
    }
    let ghost head = commands@;
    let (target_width, target_height) = resolve_window_size(
        &ctx.config.window_rule,
        window,
        ctx.config.geometry.width,
        ctx.config.geometry.height,
    );
    commands.push(Action::SetWindowWidth { id: window.id, width: target_width });
    commands.push(Action::SetWindowHeight { id: window.id, height: target_height });
    proof {
        assert(commands@ =~= head + seq![
            Action::SetWindowWidth { id: window.id, width: target_width },
            Action::SetWindowHeight { id: window.id, height: target_height },
        ]);
    }
    commands
}

/// Untrack `window`: drop its entry, remember its id in `ignored_windows`
/// so the resulting change event does not re-add it, restore its recorded
/// size, and unfloat it when it currently floats.
fn remove_from_sidebar(ctx: &mut Ctx, window: &Window) -> (r: Vec<Action>)
    requires
        old(ctx).state.wf(),
        contains_id(old(ctx).state.windows@, window.id),
    ensures
        final(ctx).config == old(ctx).config,
        final(ctx).state.windows@ == remove_id(old(ctx).state.windows@, window.id),
        final(ctx).state.ignored_windows@ == old(ctx).state.ignored_windows@.push(window.id),
        final(ctx).state.is_hidden == old(ctx).state.is_hidden,
        final(ctx).state.is_flipped == old(ctx).state.is_flipped,
        final(ctx).state.wf(),
        r@ == untrack_cmds(entry_for(old(ctx).state.windows@, window.id), window.is_floating),
{
    let removed = remove_entry(&mut ctx.state.windows, window.id);
    proof {
        lemma_remove_id_wf(old(ctx).state.windows@, window.id);
    }
    let entry = match removed {
        Some(e) => e,
        None => {
            proof {
                assert(false);
            }
            WindowState { id: 0, width: 0, height: 0, is_floating: false, position: None }
        },
    };
    ctx.state.ignored_windows.push(window.id);
    let mut commands: Vec<Action> = Vec::new();
    commands.push(Action::SetWindowWidth { id: entry.id, width: entry.width });
    commands.push(Action::SetWindowHeight { id: entry.id, height: entry.height });
    let ghost head = commands@;
    if window.is_floating {
        commands.push(Action::ToggleWindowFloating { id: entry.id });
        proof {
            assert(commands@ =~= head + seq![Action::ToggleWindowFloating { id: entry.id }]);
        }
    } else {
        proof {
            assert(commands@ =~= head + Seq::<Action>::empty());
        }
    }
    commands
}

/// Track or untrack the focused window, then run a layout pass. `NotFound`
/// when no window has focus; the state is then untouched.
pub fn toggle_window(ctx: &mut Ctx, snap: &Snapshot) -> (r: Result<Effects, SidebarError>)
    requires
        old(ctx).state.wf(),
        old(ctx).state.windows@.len() < max_windows(),
    ensures
        r is Ok <==> focused_window(snap.windows@) is Some,
        r is Err ==> *final(ctx) == *old(ctx) && r->Err_0 == SidebarError::NotFound,
        r is Ok ==> ({
            let w = focused_window(snap.windows@)->0;
            let pre = old(ctx).state.windows@;
            let was_tracked = contains_id(pre, w.id);
            let mid = if was_tracked { remove_id(pre, w.id) } else { pre.push(track_entry(w)) };
            let sub = if was_tracked {
                untrack_cmds(entry_for(pre, w.id), w.is_floating)
            } else {
                add_cmds(old(ctx).config, w)
            };
            &&& final(ctx).config == old(ctx).config
            &&& final(ctx).state.windows@ == prune(mid, snap.windows@)
            &&& final(ctx).state.ignored_windows@ == (if was_tracked {
                old(ctx).state.ignored_windows@.push(w.id)
            } else {
                old(ctx).state.ignored_windows@
            })
            &&& final(ctx).state.is_hidden == old(ctx).state.is_hidden
            &&& final(ctx).state.is_flipped == old(ctx).state.is_flipped
            &&& final(ctx).state.wf()
            &&& r->Ok_0.commands@ == sub + layout_output(final(ctx).state, final(ctx).config, *snap)
            &&& r->Ok_0.state_changed
        }),
{
    let focused_idx: usize = match find_focused_index(&snap.windows) {
        Some(i) => i,
        None => {
            return Err(SidebarError::NotFound);
        },
    };
    let window = &snap.windows[focused_idx];
    let is_tracked: bool = find_index(&ctx.state.windows, window.id).is_some();
    let mut commands: Vec<Action> = if is_tracked {
        remove_from_sidebar(ctx, window)
    } else {
        add_to_sidebar(ctx, window)
    };
    let ghost sub = commands@;
    let e = reorder(ctx, snap);
    let mut tail = e.commands;
    commands.append(&mut tail);
    proof {
        assert(commands@ == sub + layout_output(ctx.state, ctx.config, *snap));
    }
    Ok(Effects { commands, state_changed: true })
}

/// Tracking a window and untracking it again restores the original stack
/// order exactly, and the untrack commands restore the recorded width and
/// height. For a window that was not floating before tracking, tracking
/// toggles floating on and untracking (which sees it floating) toggles it
/// back off, so the floating flag is restored as well.
pub proof fn lemma_toggle_track_round_trip(ws: Seq<WindowState>, cfg: Config, w: Window)
    requires
        unique_ids(ws),
        !contains_id(ws, w.id),
        !w.is_floating,
    ensures
        remove_id(ws.push(track_entry(w)), w.id) == ws,
        entry_for(ws.push(track_entry(w)), w.id) == track_entry(w),
        untrack_cmds(entry_for(ws.push(track_entry(w)), w.id), true) == seq![
            Action::SetWindowWidth { id: w.id, width: w.width },
            Action::SetWindowHeight { id: w.id, height: w.height },
            Action::ToggleWindowFloating { id: w.id },
        ],
        add_cmds(cfg, w)[0] == (Action::ToggleWindowFloating { id: w.id }),
{
    let p = ws.push(track_entry(w));
    lemma_entry_push(ws, w);
    assert(untrack_cmds(track_entry(w), true) =~= seq![
        Action::SetWindowWidth { id: w.id, width: w.width },
        Action::SetWindowHeight { id: w.id, height: w.height },
        Action::ToggleWindowFloating { id: w.id },
    ]);
}

/// Pushing a fresh entry and removing its id undoes the push, and the fresh
/// entry is the one found for the id.
proof fn lemma_entry_push(ws: Seq<WindowState>, w: Window)
    requires
        !contains_id(ws, w.id),
    ensures
        remove_id(ws.push(track_entry(w)), w.id) == ws,
        entry_for(ws.push(track_entry(w)), w.id) == track_entry(w),
    decreases ws.len(),
{
    let p = ws.push(track_entry(w));
    if ws.len() == 0 {
        assert(p[0] == track_entry(w));
        assert(p[0].id == w.id);
        assert(remove_id(p, w.id) == p.skip(1));
        assert(p.skip(1) =~= ws);
    } else {
        assert(p[0] == ws[0]);
        if ws[0].id == w.id {
            assert(contains_id(ws, w.id));
        }
        assert(p.skip(1) =~= ws.skip(1).push(track_entry(w)));
        if contains_id(ws.skip(1), w.id) {
            let k = choose|k: int| 0 <= k < ws.skip(1).len() && ws.skip(1)[k].id == w.id;
            assert(ws[k + 1].id == w.id);
        }
        lemma_entry_push(ws.skip(1), w);
        assert(remove_id(p, w.id) == seq![ws[0]] + remove_id(ws.skip(1).push(track_entry(w)), w.id));
        assert(seq![ws[0]] + ws.skip(1) =~= ws);
    }
}

} // verus!
