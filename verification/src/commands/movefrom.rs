//! Moving tracked windows between workspaces: `move_from` consolidates the
//! tracked windows of one workspace onto the active one. Tracked state is
//! not mutated.
use vstd::prelude::*;

use crate::niri::{Action, Effects, Snapshot, Window};
use crate::state::{contains_id, WindowState};
use crate::Ctx;

verus! {

/// Ids of live windows on workspace `ws` that are tracked, in live order.
pub open spec fn tracked_on_ws_ids(live: Seq<Window>, entries: Seq<WindowState>, ws: u64) -> Seq<u64>
    decreases live.len(),
{
    if live.len() == 0 {
        Seq::empty()
    } else {
        let rest = tracked_on_ws_ids(live.skip(1), entries, ws);
        if live[0].workspace_id == Some(ws) && contains_id(entries, live[0].id) {
            seq![live[0].id] + rest
        } else {
            rest
        }
    }
}

/// Ids of all live windows that are tracked, in live order.
pub open spec fn tracked_live_ids(live: Seq<Window>, entries: Seq<WindowState>) -> Seq<u64>
    decreases live.len(),
{
    if live.len() == 0 {
        Seq::empty()
    } else {
        let rest = tracked_live_ids(live.skip(1), entries);
        if contains_id(entries, live[0].id) {
            seq![live[0].id] + rest
        } else {
            rest
        }
    }
}

/// One move-to-workspace command per id, in order, without focus transfer.
pub open spec fn move_cmds(ids: Seq<u64>, to_ws: u64) -> Seq<Action>
    decreases ids.len(),
{
    if ids.len() == 0 {
        Seq::empty()
    } else {
        seq![Action::MoveWindowToWorkspace { id: ids[0], workspace: to_ws }] + move_cmds(
            ids.skip(1),
            to_ws,
        )
    }
}

/// Appending a live window appends its id exactly when it is tracked and on
/// the workspace.
proof fn lemma_tracked_on_ws_snoc(live: Seq<Window>, entries: Seq<WindowState>, ws: u64, x: Window)
    ensures
        tracked_on_ws_ids(live.push(x), entries, ws) == tracked_on_ws_ids(live, entries, ws) + (
        if x.workspace_id == Some(ws) && contains_id(entries, x.id) {
            seq![x.id]
        } else {
            Seq::<u64>::empty()
        }),
    decreases live.len(),
{
    let tail = if x.workspace_id == Some(ws) && contains_id(entries, x.id) {
        seq![x.id]
    } else {
        Seq::<u64>::empty()
    };
    let p = live.push(x);
    if live.len() == 0 {
        assert(p[0] == x);
        assert(p.skip(1) =~= Seq::<Window>::empty());
        assert(tracked_on_ws_ids(p.skip(1), entries, ws) =~= Seq::<u64>::empty());
        assert(tracked_on_ws_ids(live, entries, ws) =~= Seq::<u64>::empty());
        assert(tracked_on_ws_ids(p, entries, ws) =~= tracked_on_ws_ids(live, entries, ws) + tail);
    } else {
        assert(p.skip(1) =~= live.skip(1).push(x));
        lemma_tracked_on_ws_snoc(live.skip(1), entries, ws, x);
        assert(p[0] == live[0]);
        let rest = tracked_on_ws_ids(live.skip(1), entries, ws);
        assert(tracked_on_ws_ids(p.skip(1), entries, ws) == rest + tail);
        if live[0].workspace_id == Some(ws) && contains_id(entries, live[0].id) {
            assert(tracked_on_ws_ids(p, entries, ws) == seq![live[0].id] + (rest + tail));
            assert(seq![live[0].id] + (rest + tail) =~= (seq![live[0].id] + rest) + tail);
            assert(tracked_on_ws_ids(live, entries, ws) == seq![live[0].id] + rest);
        } else {
            assert(tracked_on_ws_ids(p, entries, ws) == rest + tail);
            assert(tracked_on_ws_ids(live, entries, ws) == rest);
        }
        assert(tracked_on_ws_ids(p, entries, ws) =~= tracked_on_ws_ids(live, entries, ws) + tail);
    }
}

/// Appending a live window appends its id exactly when it is tracked.
pub proof fn lemma_tracked_live_snoc(live: Seq<Window>, entries: Seq<WindowState>, x: Window)
    ensures
        tracked_live_ids(live.push(x), entries) == tracked_live_ids(live, entries) + (
        if contains_id(entries, x.id) {
            seq![x.id]
        } else {
            Seq::<u64>::empty()
        }),
    decreases live.len(),
{
    let tail = if contains_id(entries, x.id) { seq![x.id] } else { Seq::<u64>::empty() };
    let p = live.push(x);
    if live.len() == 0 {
        assert(p[0] == x);
        assert(p.skip(1) =~= Seq::<Window>::empty());
        assert(tracked_live_ids(p.skip(1), entries) =~= Seq::<u64>::empty());
        assert(tracked_live_ids(live, entries) =~= Seq::<u64>::empty());
        assert(tracked_live_ids(p, entries) =~= tracked_live_ids(live, entries) + tail);
    } else {
        assert(p.skip(1) =~= live.skip(1).push(x));
        lemma_tracked_live_snoc(live.skip(1), entries, x);
        assert(p[0] == live[0]);
        let rest = tracked_live_ids(live.skip(1), entries);
        assert(tracked_live_ids(p.skip(1), entries) == rest + tail);
        if contains_id(entries, live[0].id) {
            assert(tracked_live_ids(p, entries) == seq![live[0].id] + (rest + tail));
            assert(seq![live[0].id] + (rest + tail) =~= (seq![live[0].id] + rest) + tail);
            assert(tracked_live_ids(live, entries) == seq![live[0].id] + rest);
        } else {
            assert(tracked_live_ids(p, entries) == rest + tail);
            assert(tracked_live_ids(live, entries) == rest);
        }
        assert(tracked_live_ids(p, entries) =~= tracked_live_ids(live, entries) + tail);
    }
}

/// Appending an id appends its move command.
proof fn lemma_move_cmds_snoc(ids: Seq<u64>, to_ws: u64, x: u64)
    ensures
        move_cmds(ids.push(x), to_ws) == move_cmds(ids, to_ws) + seq![
            Action::MoveWindowToWorkspace { id: x, workspace: to_ws },
        ],
    decreases ids.len(),
{
    let p = ids.push(x);
    let tail = seq![Action::MoveWindowToWorkspace { id: x, workspace: to_ws }];
    if ids.len() == 0 {
        assert(p[0] == x);
        assert(p.skip(1) =~= Seq::<u64>::empty());
        assert(move_cmds(p.skip(1), to_ws) =~= Seq::<Action>::empty());
        assert(move_cmds(ids, to_ws) =~= Seq::<Action>::empty());
        assert(move_cmds(p, to_ws) =~= move_cmds(ids, to_ws) + tail);
    } else {
        assert(p.skip(1) =~= ids.skip(1).push(x));
        lemma_move_cmds_snoc(ids.skip(1), to_ws, x);
        assert(p[0] == ids[0]);
        let hd = seq![Action::MoveWindowToWorkspace { id: ids[0], workspace: to_ws }];
        let rest = move_cmds(ids.skip(1), to_ws);
        assert(move_cmds(p.skip(1), to_ws) == rest + tail);
        assert(move_cmds(p, to_ws) == hd + (rest + tail));
        assert(hd + (rest + tail) =~= (hd + rest) + tail);
        assert(move_cmds(ids, to_ws) == hd + rest);
        assert(move_cmds(p, to_ws) =~= move_cmds(ids, to_ws) + tail);
    }
}

/// Issue one move command per given window id, onto workspace `to_ws`.
pub fn move_to(ids: &Vec<u64>, to_ws: u64) -> (r: Vec<Action>)
    ensures
        r@ == move_cmds(ids@, to_ws),
{
    let n: usize = ids.len();
    let mut commands: Vec<Action> = Vec::new();
    let mut i: usize = 0;
    while i < n
        invariant
            i <= n,
            n == ids@.len(),
            commands@ == move_cmds(ids@.take(i as int), to_ws),
        decreases n - i,
    {
        proof {
            lemma_move_cmds_snoc(ids@.take(i as int), to_ws, ids@[i as int]);
            assert(ids@.take(i as int + 1) =~= ids@.take(i as int).push(ids@[i as int]));
        }
        commands.push(Action::MoveWindowToWorkspace { id: ids[i], workspace: to_ws });
        i = i + 1;
    }
    proof {
        assert(ids@.take(n as int) =~= ids@);
    }
    commands
}

/// Move every tracked window currently on `workspace` to the active
/// workspace. No focus transfer, no state mutation, no layout pass.
pub fn move_from(ctx: &Ctx, snap: &Snapshot, workspace: u64) -> (r: Effects)
    ensures
        r.commands@ == move_cmds(
            tracked_on_ws_ids(snap.windows@, ctx.state.windows@, workspace),
            snap.active_workspace,
        ),
        !r.state_changed,
{
    let n: usize = snap.windows.len();
    let mut ids: Vec<u64> = Vec::new();
    let mut i: usize = 0;
    while i < n
        invariant
            i <= n,
            n == snap.windows@.len(),
            ids@ == tracked_on_ws_ids(snap.windows@.take(i as int), ctx.state.windows@, workspace),
        decreases n - i,
    {
        let w = &snap.windows[i];
        proof {
            lemma_tracked_on_ws_snoc(
                snap.windows@.take(i as int),
                ctx.state.windows@,
                workspace,
                snap.windows@[i as int],
            );
            assert(snap.windows@.take(i as int + 1) =~= snap.windows@.take(i as int).push(
                snap.windows@[i as int],
            ));
        }
        let on_ws: bool = match w.workspace_id {
            Some(ws) => ws == workspace,
            None => false,
        };
        if on_ws && crate::state::find_index(&ctx.state.windows, w.id).is_some() {
            ids.push(w.id);
            proof {
                assert(ids@ =~= tracked_on_ws_ids(
                    snap.windows@.take(i as int + 1),
                    ctx.state.windows@,
                    workspace,
                ));
            }
        } else {
            proof {
                assert(ids@ =~= tracked_on_ws_ids(
                    snap.windows@.take(i as int + 1),
                    ctx.state.windows@,
                    workspace,
                ));
            }
        }
        i = i + 1;
    }
    proof {
        assert(snap.windows@.take(n as int) =~= snap.windows@);
    }
    let commands = move_to(&ids, snap.active_workspace);
    Effects { commands, state_changed: false }
}

} // verus!
