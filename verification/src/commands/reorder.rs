//! The layout engine: one pass prunes state entries whose window is gone,
//! orders the remaining live sidebar windows, and computes a fixed coordinate
//! for each from the configured edge, margins, peek and stack offset.
use vstd::prelude::*;

use crate::config::{Config, Margins, SidebarPosition};
use crate::niri::{live_contains, find_live_index, Action, Effects, Snapshot, Window};
use crate::state::{contains_id, unique_ids, AppState, WindowState};
use crate::window_rules::{
    resolve_rule_focus_peek, resolve_rule_peek, resolve_window_size, spec_resolve_focus_peek,
    spec_resolve_peek, spec_resolve_size,
};
use crate::{Ctx, WindowTarget};

verus! {

/// Largest magnitude one stack step can have: two `i32` values added.
pub open spec fn max_step() -> int {
    0x1_0000_0000
}

/// The state entries whose window is still alive, in stack order.
pub open spec fn prune(ws: Seq<WindowState>, live: Seq<Window>) -> Seq<WindowState>
    decreases ws.len(),
{
    if ws.len() == 0 {
        Seq::empty()
    } else {
        let rest = prune(ws.skip(1), live);
        if live_contains(live, ws[0].id) {
            seq![ws[0]] + rest
        } else {
            rest
        }
    }
}

/// A live window can be laid out when it is floating and on the active
/// workspace.
pub open spec fn is_candidate(w: Window, active_ws: u64) -> bool {
    w.is_floating && w.workspace_id == Some(active_ws)
}

/// The first live window with the given id that can be laid out, if any.
pub open spec fn find_candidate(live: Seq<Window>, id: u64, active_ws: u64) -> Option<Window>
    decreases live.len(),
{
    if live.len() == 0 {
        None
    } else if live[0].id == id && is_candidate(live[0], active_ws) {
        Some(live[0])
    } else {
        find_candidate(live.skip(1), id, active_ws)
    }
}

/// The live windows to lay out, ordered by their index in the stack.
pub open spec fn candidates(entries: Seq<WindowState>, live: Seq<Window>, active_ws: u64) -> Seq<Window>
    decreases entries.len(),
{
    if entries.len() == 0 {
        Seq::empty()
    } else {
        let rest = candidates(entries.skip(1), live, active_ws);
        match find_candidate(live, entries[0].id, active_ws) {
            Some(w) => seq![w] + rest,
            None => rest,
        }
    }
}

/// The candidate order actually walked: stack order, reversed when the
/// sidebar is flipped.
pub open spec fn visual_order(entries: Seq<WindowState>, live: Seq<Window>, active_ws: u64, flipped: bool) -> Seq<Window> {
    if flipped {
        candidates(entries, live, active_ws).reverse()
    } else {
        candidates(entries, live, active_ws)
    }
}

/// The `(width, height)` one layout pass resolves for a window.
pub open spec fn spec_dims(cfg: Config, w: Window) -> (i32, i32) {
    spec_resolve_size(cfg.window_rule@, w.app_id, w.title, cfg.geometry.width, cfg.geometry.height)
}

/// The peek distance one layout pass resolves for a window: the focus peek
/// when it holds focus, the plain peek otherwise, both through the rules.
pub open spec fn spec_peek(cfg: Config, w: Window) -> i32 {
    if w.is_focused {
        spec_resolve_focus_peek(cfg.window_rule@, w.app_id, w.title, cfg.interaction.spec_focus_peek())
    } else {
        spec_resolve_peek(cfg.window_rule@, w.app_id, w.title, cfg.interaction.peek)
    }
}

/// The coordinate formulas, one row per edge: the off-axis coordinate pins
/// the window to the edge (or lets `peek` pixels poke out when hidden), the
/// stacking-axis coordinate walks away from the anchor corner by `offset`.
/// Left and Right columns anchor on the bottom margin and grow upward;
/// Top and Bottom rows anchor on the left margin and grow rightward.
pub open spec fn spec_coords(
    pos: SidebarPosition,
    dims: (i32, i32),
    sw: int,
    sh: int,
    hidden: bool,
    m: Margins,
    offset: int,
    peek: int,
) -> (int, int) {
    let w = dims.0 as int;
    let h = dims.1 as int;
    match pos {
        SidebarPosition::Right => {
            let x = if hidden { sw - peek } else { sw - w - m.right as int };
            (x, sh - h - m.bottom as int - offset)
        },
        SidebarPosition::Left => {
            let x = if hidden { -w + peek } else { m.left as int };
            (x, sh - h - m.bottom as int - offset)
        },
        SidebarPosition::Bottom => {
            let y = if hidden { sh - peek } else { sh - h - m.bottom as int };
            (m.left as int + offset, y)
        },
        SidebarPosition::Top => {
            let y = if hidden { -h + peek } else { m.top as int };
            (m.left as int + offset, y)
        },
    }
}

/// How far one window advances the stack offset: its resolved dimension
/// orthogonal to the stacking axis, plus the gap.
pub open spec fn spec_step(pos: SidebarPosition, dims: (i32, i32), gap: i32) -> int {
    match pos {
        SidebarPosition::Left | SidebarPosition::Right => dims.1 as int + gap as int,
        SidebarPosition::Top | SidebarPosition::Bottom => dims.0 as int + gap as int,
    }
}

/// Total stack offset consumed by a candidate prefix.
pub open spec fn offset_total(cfg: Config, cands: Seq<Window>) -> int
    decreases cands.len(),
{
    if cands.len() == 0 {
        0
    } else {
        spec_step(cfg.interaction.position, spec_dims(cfg, cands[0]), cfg.geometry.gap)
            + offset_total(cfg, cands.skip(1))
    }
}

/// The positioning command one layout pass issues for `w` at stack offset
/// `offset`.
pub open spec fn spec_move_cmd(cfg: Config, hidden: bool, sw: int, sh: int, offset: int, w: Window) -> Action {
    let dims = spec_dims(cfg, w);
    let c = spec_coords(cfg.interaction.position, dims, sw, sh, hidden, cfg.margins, offset, spec_peek(cfg, w) as int);
    Action::MoveFloatingWindow { id: w.id, x: c.0 as i64, y: c.1 as i64 }
}

/// The command sequence for a candidate list walked from stack offset
/// `offset`.
pub open spec fn layout_cmds(cfg: Config, hidden: bool, sw: int, sh: int, offset: int, cands: Seq<Window>) -> Seq<Action>
    decreases cands.len(),
{
    if cands.len() == 0 {
        Seq::empty()
    } else {
        seq![spec_move_cmd(cfg, hidden, sw, sh, offset, cands[0])] + layout_cmds(
            cfg,
            hidden,
            sw,
            sh,
            offset + spec_step(cfg.interaction.position, spec_dims(cfg, cands[0]), cfg.geometry.gap),
            cands.skip(1),
        )
    }
}

/// Everything one layout pass sends for an (already pruned) entry list and
/// the two sidebar flags.
pub open spec fn layout_output_of(windows: Seq<WindowState>, hidden: bool, flipped: bool, cfg: Config, snap: Snapshot) -> Seq<Action> {
    layout_cmds(
        cfg,
        hidden,
        snap.screen_width as int,
        snap.screen_height as int,
        0,
        visual_order(windows, snap.windows@, snap.active_workspace, flipped),
    )
}

/// Everything one layout pass sends for the given (already pruned) state.
pub open spec fn layout_output(state: AppState, cfg: Config, snap: Snapshot) -> Seq<Action> {
    layout_output_of(state.windows@, state.is_hidden, state.is_flipped, cfg, snap)
}

/// Appending one state entry extends the pruned list by that entry exactly
/// when its window is alive.
proof fn lemma_prune_snoc(ws: Seq<WindowState>, live: Seq<Window>, x: WindowState)
    ensures
        prune(ws.push(x), live) == prune(ws, live) + (if live_contains(live, x.id) {
            seq![x]
        } else {
            Seq::<WindowState>::empty()
        }),
    decreases ws.len(),
{
    let tail = if live_contains(live, x.id) { seq![x] } else { Seq::<WindowState>::empty() };
    let p = ws.push(x);
    if ws.len() == 0 {
        assert(p[0] == x);
        assert(p.skip(1) =~= Seq::<WindowState>::empty());
        assert(prune(p.skip(1), live) =~= Seq::<WindowState>::empty());
        assert(prune(ws, live) =~= Seq::<WindowState>::empty());
        assert(prune(p, live) =~= prune(ws, live) + tail);
    } else {
        assert(p.skip(1) =~= ws.skip(1).push(x));
        lemma_prune_snoc(ws.skip(1), live, x);
        assert(prune(p.skip(1), live) == prune(ws.skip(1), live) + tail);
        assert(p[0] == ws[0]);
        if live_contains(live, ws[0].id) {
            assert(prune(p, live) == seq![ws[0]] + (prune(ws.skip(1), live) + tail));
            assert(seq![ws[0]] + (prune(ws.skip(1), live) + tail) =~= (seq![ws[0]] + prune(ws.skip(1), live)) + tail);
            assert(prune(ws, live) == seq![ws[0]] + prune(ws.skip(1), live));
        } else {
            assert(prune(p, live) == prune(ws.skip(1), live) + tail);
            assert(prune(ws, live) == prune(ws.skip(1), live));
        }
        assert(prune(p, live) =~= prune(ws, live) + tail);
    }
}

/// Pruning keeps a subsequence: no new ids, no duplicates introduced, never
/// longer.
proof fn lemma_prune_wf(ws: Seq<WindowState>, live: Seq<Window>)
    ensures
        prune(ws, live).len() <= ws.len(),
        forall|id: u64| contains_id(prune(ws, live), id) ==> contains_id(ws, id),
        unique_ids(ws) ==> unique_ids(prune(ws, live)),
    decreases ws.len(),
{
    if ws.len() > 0 {
        lemma_prune_wf(ws.skip(1), live);
        let rest = prune(ws.skip(1), live);
        assert forall|id: u64| contains_id(rest, id) implies contains_id(ws.skip(1), id) by {}
        assert forall|id: u64| contains_id(ws.skip(1), id) implies contains_id(ws, id) by {
            let i = choose|i: int| 0 <= i < ws.skip(1).len() && ws.skip(1)[i].id == id;
            assert(ws[i + 1].id == id);
        }
        if unique_ids(ws) {
            assert forall|i: int, j: int| 0 <= i < j < ws.skip(1).len() implies ws.skip(1)[i].id != ws.skip(1)[j].id by {
                assert(ws.skip(1)[i] == ws[i + 1]);
                assert(ws.skip(1)[j] == ws[j + 1]);
            }
        }
        if live_contains(live, ws[0].id) {
            let whole = seq![ws[0]] + rest;
            assert forall|id: u64| contains_id(whole, id) implies contains_id(ws, id) by {
                let i = choose|i: int| 0 <= i < whole.len() && whole[i].id == id;
                if i == 0 {
                    assert(ws[0].id == id);
                } else {
                    assert(rest[i - 1].id == id);
                    assert(contains_id(rest, id));
                }
            }
            if unique_ids(ws) {
                assert forall|i: int, j: int| 0 <= i < j < whole.len() implies whole[i].id != whole[j].id by {
                    if i == 0 {
                        assert(rest[j - 1].id == whole[j].id);
                        assert(contains_id(rest, whole[j].id));
                        if whole[j].id == ws[0].id {
                            assert(contains_id(ws.skip(1), ws[0].id));
                            let k = choose|k: int| 0 <= k < ws.skip(1).len() && ws.skip(1)[k].id == ws[0].id;
                            assert(ws[k + 1].id == ws[0].id);
                            assert(false);
                        }
                    } else {
                        assert(whole[i] == rest[i - 1]);
                        assert(whole[j] == rest[j - 1]);
                    }
                }
            }
        }
    }
}

/// Appending one state entry extends the candidate list by its live
/// window, when it has one.
proof fn lemma_candidates_snoc(entries: Seq<WindowState>, live: Seq<Window>, active_ws: u64, x: WindowState)
    ensures
        candidates(entries.push(x), live, active_ws) == candidates(entries, live, active_ws) + (
        match find_candidate(live, x.id, active_ws) {
            Some(w) => seq![w],
            None => Seq::<Window>::empty(),
        }),
    decreases entries.len(),
{
    let tail = match find_candidate(live, x.id, active_ws) {
        Some(w) => seq![w],
        None => Seq::<Window>::empty(),
    };
    let p = entries.push(x);
    if entries.len() == 0 {
        assert(p[0] == x);
        assert(p.skip(1) =~= Seq::<WindowState>::empty());
        assert(candidates(p.skip(1), live, active_ws) =~= Seq::<Window>::empty());
        assert(candidates(entries, live, active_ws) =~= Seq::<Window>::empty());
        assert(candidates(p, live, active_ws) =~= candidates(entries, live, active_ws) + tail);
    } else {
        assert(p.skip(1) =~= entries.skip(1).push(x));
        lemma_candidates_snoc(entries.skip(1), live, active_ws, x);
        assert(p[0] == entries[0]);
        let rest = candidates(entries.skip(1), live, active_ws);
        assert(candidates(p.skip(1), live, active_ws) == rest + tail);
        match find_candidate(live, entries[0].id, active_ws) {
            Some(w) => {
                assert(candidates(p, live, active_ws) == seq![w] + (rest + tail));
                assert(seq![w] + (rest + tail) =~= (seq![w] + rest) + tail);
                assert(candidates(entries, live, active_ws) == seq![w] + rest);
            },
            None => {
                assert(candidates(p, live, active_ws) == rest + tail);
                assert(candidates(entries, live, active_ws) == rest);
            },
        }
        assert(candidates(p, live, active_ws) =~= candidates(entries, live, active_ws) + tail);
    }
}

/// There are never more candidates than state entries.
proof fn lemma_candidates_len(entries: Seq<WindowState>, live: Seq<Window>, active_ws: u64)
    ensures
        candidates(entries, live, active_ws).len() <= entries.len(),
    decreases entries.len(),
{
    if entries.len() > 0 {
        lemma_candidates_len(entries.skip(1), live, active_ws);
    }
}

/// One stack step stays within [`max_step`] in magnitude.
proof fn lemma_step_bound(cfg: Config, w: Window)
    ensures
        -max_step() <= spec_step(cfg.interaction.position, spec_dims(cfg, w), cfg.geometry.gap) <= max_step(),
{
}

/// The accumulated offset grows at most linearly with the candidate count.
proof fn lemma_offset_total_bound(cfg: Config, cands: Seq<Window>)
    ensures
        -(cands.len() as int * max_step()) <= offset_total(cfg, cands) <= cands.len() as int * max_step(),
    decreases cands.len(),
{
    if cands.len() > 0 {
        lemma_offset_total_bound(cfg, cands.skip(1));
        lemma_step_bound(cfg, cands[0]);
    }
}

/// Appending one candidate appends one positioning command, placed at the
/// offset the prefix accumulated.
proof fn lemma_layout_cmds_snoc(cfg: Config, hidden: bool, sw: int, sh: int, offset: int, cands: Seq<Window>, x: Window)
    ensures
        offset_total(cfg, cands.push(x)) == offset_total(cfg, cands) + spec_step(cfg.interaction.position, spec_dims(cfg, x), cfg.geometry.gap),
        layout_cmds(cfg, hidden, sw, sh, offset, cands.push(x)) == layout_cmds(cfg, hidden, sw, sh, offset, cands)
            + seq![spec_move_cmd(cfg, hidden, sw, sh, offset + offset_total(cfg, cands), x)],
    decreases cands.len(),
{
    let p = cands.push(x);
    let step_x = spec_step(cfg.interaction.position, spec_dims(cfg, x), cfg.geometry.gap);
    if cands.len() == 0 {
        assert(p[0] == x);
        assert(p.skip(1) =~= Seq::<Window>::empty());
        assert(offset_total(cfg, cands) == 0);
        assert(offset_total(cfg, p.skip(1)) == 0);
        assert(offset_total(cfg, p) == step_x);
        assert(layout_cmds(cfg, hidden, sw, sh, offset + step_x, p.skip(1)) =~= Seq::<Action>::empty());
        assert(layout_cmds(cfg, hidden, sw, sh, offset, cands) =~= Seq::<Action>::empty());
        assert(layout_cmds(cfg, hidden, sw, sh, offset, p) =~= layout_cmds(cfg, hidden, sw, sh, offset, cands)
            + seq![spec_move_cmd(cfg, hidden, sw, sh, offset + offset_total(cfg, cands), x)]);
    } else {
        let step0 = spec_step(cfg.interaction.position, spec_dims(cfg, cands[0]), cfg.geometry.gap);
        assert(p.skip(1) =~= cands.skip(1).push(x));
        assert(p[0] == cands[0]);
        lemma_layout_cmds_snoc(cfg, hidden, sw, sh, offset + step0, cands.skip(1), x);
        assert(offset_total(cfg, p) == step0 + offset_total(cfg, p.skip(1)));
        assert(offset_total(cfg, p.skip(1)) == offset_total(cfg, cands.skip(1)) + step_x);
        assert(offset_total(cfg, p) == offset_total(cfg, cands) + step_x);
        let hd = seq![spec_move_cmd(cfg, hidden, sw, sh, offset, cands[0])];
        let mid = layout_cmds(cfg, hidden, sw, sh, offset + step0, cands.skip(1));
        let last = seq![spec_move_cmd(cfg, hidden, sw, sh, offset + offset_total(cfg, cands), x)];
        assert(offset + step0 + offset_total(cfg, cands.skip(1)) == offset + offset_total(cfg, cands));
        assert(layout_cmds(cfg, hidden, sw, sh, offset + step0, p.skip(1)) == mid + last);
        assert(layout_cmds(cfg, hidden, sw, sh, offset, p) == hd + (mid + last));
        assert(hd + (mid + last) =~= (hd + mid) + last);
        assert(layout_cmds(cfg, hidden, sw, sh, offset, cands) == hd + mid);
        assert(layout_cmds(cfg, hidden, sw, sh, offset, p) =~= layout_cmds(cfg, hidden, sw, sh, offset, cands) + last);
    }
}

/// Compute the fixed `(x, y)` for one window from the sidebar edge, the
/// visibility flag, the margins, the running stack offset, the peek distance
/// and the screen size, by the formulas of [`spec_coords`].
pub fn calculate_coordinates(
    pos: SidebarPosition,
    dims: WindowTarget,
    screen: (i32, i32),
    stack_offset: i64,
    active_peek: i32,
    is_hidden: bool,
    margins: &Margins,
) -> (r: (i64, i64))
    requires
        -0x4_0000_0000_0000 <= stack_offset <= 0x4_0000_0000_0000,
    ensures
        ({
            let c = spec_coords(pos, (dims.width, dims.height), screen.0 as int, screen.1 as int, is_hidden, *margins, stack_offset as int, active_peek as int);
            r.0 == c.0 && r.1 == c.1
        }),
{
    let (sw, sh): (i64, i64) = (screen.0 as i64, screen.1 as i64);
    let (w, h): (i64, i64) = (dims.width as i64, dims.height as i64);
    let peek: i64 = active_peek as i64;
    match pos {
        SidebarPosition::Right => {
            let x: i64 = if is_hidden { sw - peek } else { sw - w - margins.right as i64 };
            let y: i64 = sh - h - margins.bottom as i64 - stack_offset;
            (x, y)
        },
        SidebarPosition::Left => {
            let x: i64 = if is_hidden { -w + peek } else { margins.left as i64 };
            let y: i64 = sh - h - margins.bottom as i64 - stack_offset;
            (x, y)
        },
        SidebarPosition::Bottom => {
            let x: i64 = margins.left as i64 + stack_offset;
            let y: i64 = if is_hidden { sh - peek } else { sh - h - margins.bottom as i64 };
            (x, y)
        },
        SidebarPosition::Top => {
            let x: i64 = margins.left as i64 + stack_offset;
            let y: i64 = if is_hidden { -h + peek } else { margins.top as i64 };
            (x, y)
        },
    }
}

/// Collect, in stack order, the index into `snap.windows` of each entry's
/// live floating window on the active workspace.
pub fn collect_candidate_indices(entries: &Vec<WindowState>, snap: &Snapshot) -> (r: Vec<usize>)
    ensures
        r@.len() == candidates(entries@, snap.windows@, snap.active_workspace).len(),
        forall|k: int|
            0 <= k < r@.len() ==> (#[trigger] r@[k]) < snap.windows@.len()
                && snap.windows@[r@[k] as int] == candidates(
                entries@,
                snap.windows@,
                snap.active_workspace,
            )[k],
{
    let entries_len: usize = entries.len();
    let ghost all = entries@;
    let ghost cands = candidates(all, snap.windows@, snap.active_workspace);
    let mut cand_idx: Vec<usize> = Vec::new();
    let mut t: usize = 0;
    while t < entries_len
        invariant
            t <= entries_len,
            entries_len == all.len(),
            entries@ == all,
            cand_idx@.len() == candidates(all.take(t as int), snap.windows@, snap.active_workspace).len(),
            forall|k: int|
                0 <= k < cand_idx@.len() ==> (#[trigger] cand_idx@[k]) < snap.windows@.len()
                    && snap.windows@[cand_idx@[k] as int] == candidates(
                    all.take(t as int),
                    snap.windows@,
                    snap.active_workspace,
                )[k],
        decreases entries_len - t,
    {
        let id = entries[t].id;
        let ghost cs_old = candidates(all.take(t as int), snap.windows@, snap.active_workspace);
        let ghost cs_new = candidates(all.take(t as int + 1), snap.windows@, snap.active_workspace);
        let ghost prev = cand_idx@;
        proof {
            lemma_candidates_snoc(all.take(t as int), snap.windows@, snap.active_workspace, all[t as int]);
            assert(all.take(t as int + 1) =~= all.take(t as int).push(all[t as int]));
        }
        match find_candidate_index(&snap.windows, id, snap.active_workspace) {
            Some(j) => {
                cand_idx.push(j);
                proof {
                    assert(cs_new == cs_old + seq![snap.windows@[j as int]]);
                    assert(cand_idx@.len() == cs_new.len());
                    assert forall|k: int|
                        0 <= k < cand_idx@.len() implies (#[trigger] cand_idx@[k]) < snap.windows@.len()
                            && snap.windows@[cand_idx@[k] as int] == cs_new[k] by {
                        if k < prev.len() {
                            assert(cand_idx@[k] == prev[k]);
                            assert(cs_new[k] == cs_old[k]);
                        } else {
                            assert(cand_idx@[k] == j);
                            assert(cs_new[k] == snap.windows@[j as int]);
                        }
                    }
                }
            },
            None => {
                proof {
                    assert(cs_new =~= cs_old);
                }
            },
        }
        t = t + 1;
    }
    proof {
        assert(all.take(entries_len as int) =~= all);
        assert(candidates(all.take(entries_len as int), snap.windows@, snap.active_workspace) == cands);
        assert forall|j: int|
            0 <= j < cand_idx@.len() implies (#[trigger] cand_idx@[j]) < snap.windows@.len()
                && snap.windows@[cand_idx@[j] as int] == cands[j] by {
            assert(cand_idx@[j] < snap.windows@.len() && snap.windows@[cand_idx@[j] as int] == candidates(
                all.take(entries_len as int),
                snap.windows@,
                snap.active_workspace,
            )[j]);
        }
    }
    cand_idx
}

/// One layout pass: drop state entries whose window is gone, then position
/// every live, floating, tracked window on the active workspace, walking the
/// (possibly flipped) stack order with an accumulating stack offset.
pub fn reorder(ctx: &mut Ctx, snap: &Snapshot) -> (r: Effects)
    requires
        old(ctx).state.wf(),
    ensures
        final(ctx).config == old(ctx).config,
        final(ctx).state.windows@ == prune(old(ctx).state.windows@, snap.windows@),
        final(ctx).state.ignored_windows == old(ctx).state.ignored_windows,
        final(ctx).state.is_hidden == old(ctx).state.is_hidden,
        final(ctx).state.is_flipped == old(ctx).state.is_flipped,
        final(ctx).state.wf(),
        final(ctx).state.windows@.len() <= old(ctx).state.windows@.len(),
        r.commands@ == layout_output(final(ctx).state, final(ctx).config, *snap),
        r.state_changed == (final(ctx).state.windows@.len() != old(ctx).state.windows@.len()),
{
    let ghost orig = ctx.state.windows@;
    let n: usize = ctx.state.windows.len();

    // Reconciliation: keep only state entries whose id is still alive.
    let mut kept: Vec<WindowState> = Vec::new();
    let mut i: usize = 0;
    while i < n
        invariant
            i <= n,
            n == ctx.state.windows@.len(),
            ctx.state.windows@ == orig,
            kept@ == prune(orig.take(i as int), snap.windows@),
        decreases n - i,
    {
        let entry = ctx.state.windows[i];
        proof {
            lemma_prune_snoc(orig.take(i as int), snap.windows@, entry);
            assert(orig.take(i as int + 1) =~= orig.take(i as int).push(entry));
        }
        if find_live_index(&snap.windows, entry.id).is_some() {
            kept.push(entry);
            proof {
                assert(kept@ =~= prune(orig.take(i as int + 1), snap.windows@));
            }
        } else {
            proof {
                assert(kept@ =~= prune(orig.take(i as int + 1), snap.windows@));
            }
        }
        i = i + 1;
    }
    proof {
        assert(orig.take(n as int) =~= orig);
        lemma_prune_wf(orig, snap.windows@);
    }
    let state_changed: bool = kept.len() != n;
    ctx.state.windows = kept;

    // Candidate selection, in stack order.
    let ghost pruned = ctx.state.windows@;
    let ghost cands = candidates(pruned, snap.windows@, snap.active_workspace);
    let cand_idx: Vec<usize> = collect_candidate_indices(&ctx.state.windows, snap);
    proof {
        lemma_candidates_len(pruned, snap.windows@, snap.active_workspace);
    }

    // Walk the candidates in visual order, accumulating the stack offset.
    let flipped: bool = ctx.state.is_flipped;
    let hidden: bool = ctx.state.is_hidden;
    let total: usize = cand_idx.len();
    let ghost vis = visual_order(pruned, snap.windows@, snap.active_workspace, flipped);
    proof {
        if flipped {
            assert(vis.len() == cands.len());
        }
    }
    let mut commands: Vec<Action> = Vec::new();
    let mut offset: i64 = 0;
    let mut k: usize = 0;
    while k < total
        invariant
            k <= total,
            total == cand_idx@.len(),
            total == vis.len(),
            total <= crate::state::max_windows(),
            ctx.state.windows@ == pruned,
            ctx.state.is_flipped == flipped,
            ctx.state.is_hidden == hidden,
            vis == visual_order(pruned, snap.windows@, snap.active_workspace, flipped),
            forall|j: int|
                0 <= j < total ==> (#[trigger] cand_idx@[j]) < snap.windows@.len() && snap.windows@[cand_idx@[j] as int]
                    == cands[j],
            vis == (if flipped { cands.reverse() } else { cands }),
            offset == offset_total(ctx.config, vis.take(k as int)),
            -(k as int * max_step()) <= offset as int <= k as int * max_step(),
            commands@ == layout_cmds(
                ctx.config,
                hidden,
                snap.screen_width as int,
                snap.screen_height as int,
                0,
                vis.take(k as int),
            ),
        decreases total - k,
    {
        let idx: usize = if flipped {
            cand_idx[total - 1 - k]
        } else {
            cand_idx[k]
        };
        let win = &snap.windows[idx];
        proof {
            if flipped {
                assert(vis[k as int] == cands[total - 1 - k as int]);
            }
            assert(*win == vis[k as int]);
        }
        let (w, h) = resolve_window_size(
            &ctx.config.window_rule,
            win,
            ctx.config.geometry.width,
            ctx.config.geometry.height,
        );
        let dims = WindowTarget { width: w, height: h };
        let active_peek: i32 = if win.is_focused {
            resolve_rule_focus_peek(&ctx.config.window_rule, win, ctx.config.interaction.get_focus_peek())
        } else {
            resolve_rule_peek(&ctx.config.window_rule, win, ctx.config.interaction.peek)
        };
        let (x, y) = calculate_coordinates(
            ctx.config.interaction.position,
            dims,
            (snap.screen_width, snap.screen_height),
            offset,
            active_peek,
            hidden,
            &ctx.config.margins,
        );
        proof {
            lemma_layout_cmds_snoc(
                ctx.config,
                hidden,
                snap.screen_width as int,
                snap.screen_height as int,
                0,
                vis.take(k as int),
                vis[k as int],
            );
            assert(vis.take(k as int + 1) =~= vis.take(k as int).push(vis[k as int]));
            lemma_step_bound(ctx.config, vis[k as int]);
        }
        commands.push(Action::MoveFloatingWindow { id: win.id, x, y });
        let step: i64 = match ctx.config.interaction.position {
            SidebarPosition::Left | SidebarPosition::Right => h as i64 + ctx.config.geometry.gap as i64,
            SidebarPosition::Top | SidebarPosition::Bottom => w as i64 + ctx.config.geometry.gap as i64,
        };
        offset = offset + step;
        k = k + 1;
        proof {
            assert(commands@ =~= layout_cmds(
                ctx.config,
                hidden,
                snap.screen_width as int,
                snap.screen_height as int,
                0,
                vis.take(k as int),
            ));
        }
    }
    proof {
        assert(vis.take(total as int) =~= vis);
    }
    Effects { commands, state_changed }
}

/// Index of the first live window with the given id that can be laid out.
fn find_candidate_index(live: &Vec<Window>, id: u64, active_ws: u64) -> (r: Option<usize>)
    ensures
        match r {
            Some(i) => {
                &&& i < live@.len()
                &&& find_candidate(live@, id, active_ws) == Some(live@[i as int])
            },
            None => find_candidate(live@, id, active_ws) is None,
        },
{
    let n: usize = live.len();
    let mut i: usize = 0;
    while i < n
        invariant
            i <= n,
            n == live@.len(),
            forall|j: int|
                0 <= j < i ==> !(live@[j].id == id && is_candidate(live@[j], active_ws)),
        decreases n - i,
    {
        let w = &live[i];
        let on_ws: bool = match w.workspace_id {
            Some(ws) => ws == active_ws,
            None => false,
        };
        if w.id == id && w.is_floating && on_ws {
            proof {
                lemma_find_candidate_skip(live@, id, active_ws, i as int);
                assert(live@.skip(i as int)[0] == live@[i as int]);
            }
            return Some(i);
        }
        i = i + 1;
    }
    proof {
        lemma_find_candidate_skip(live@, id, active_ws, n as int);
    }
    None
}

/// Dropping a prefix with no candidate for the id leaves the found candidate
/// unchanged.
proof fn lemma_find_candidate_skip(live: Seq<Window>, id: u64, active_ws: u64, i: int)
    requires
        0 <= i <= live.len(),
        forall|j: int| 0 <= j < i ==> !(live[j].id == id && is_candidate(live[j], active_ws)),
    ensures
        find_candidate(live, id, active_ws) == find_candidate(live.skip(i), id, active_ws),
    decreases i,
{
    if i == 0 {
        assert(live.skip(0) =~= live);
    } else {
        assert(!(live[0].id == id && is_candidate(live[0], active_ws)));
        assert forall|j: int| 0 <= j < i - 1 implies !(live.skip(1)[j].id == id && is_candidate(live.skip(1)[j], active_ws)) by {
            assert(live.skip(1)[j] == live[j + 1]);
        }
        lemma_find_candidate_skip(live.skip(1), id, active_ws, i - 1);
        assert(live.skip(1).skip(i - 1) =~= live.skip(i));
    }
}


/// Every entry that survives pruning has a live window.
proof fn lemma_prune_live(ws: Seq<WindowState>, live: Seq<Window>)
    ensures
        forall|i: int|
            0 <= i < prune(ws, live).len() ==> live_contains(live, (#[trigger] prune(ws, live)[i]).id),
    decreases ws.len(),
{
    if ws.len() > 0 {
        lemma_prune_live(ws.skip(1), live);
        let rest = prune(ws.skip(1), live);
        if live_contains(live, ws[0].id) {
            let whole = seq![ws[0]] + rest;
            assert forall|i: int| 0 <= i < whole.len() implies live_contains(live, (#[trigger] whole[i]).id) by {
                if i > 0 {
                    assert(whole[i] == rest[i - 1]);
                }
            }
        }
    }
}

/// Pruning a list whose entries all have live windows changes nothing.
proof fn lemma_prune_all_live(ws: Seq<WindowState>, live: Seq<Window>)
    requires
        forall|i: int| 0 <= i < ws.len() ==> live_contains(live, (#[trigger] ws[i]).id),
    ensures
        prune(ws, live) == ws,
    decreases ws.len(),
{
    if ws.len() > 0 {
        assert forall|i: int| 0 <= i < ws.skip(1).len() implies live_contains(live, (#[trigger] ws.skip(1)[i]).id) by {
            assert(ws.skip(1)[i] == ws[i + 1]);
        }
        lemma_prune_all_live(ws.skip(1), live);
        assert(live_contains(live, ws[0].id));
        assert(prune(ws, live) =~= ws);
    }
}

/// Two consecutive layout passes with no intervening change are identical:
/// the second pass prunes nothing more and issues the same commands.
pub proof fn lemma_layout_pass_idempotent(windows: Seq<WindowState>, hidden: bool, flipped: bool, cfg: Config, snap: Snapshot)
    ensures
        prune(prune(windows, snap.windows@), snap.windows@) == prune(windows, snap.windows@),
        layout_output_of(prune(prune(windows, snap.windows@), snap.windows@), hidden, flipped, cfg, snap)
            == layout_output_of(prune(windows, snap.windows@), hidden, flipped, cfg, snap),
{
    lemma_prune_live(windows, snap.windows@);
    lemma_prune_all_live(prune(windows, snap.windows@), snap.windows@);
}

/// One layout pass issues exactly one command per candidate.
proof fn lemma_layout_len(cfg: Config, hidden: bool, sw: int, sh: int, offset: int, cands: Seq<Window>)
    ensures
        layout_cmds(cfg, hidden, sw, sh, offset, cands).len() == cands.len(),
    decreases cands.len(),
{
    if cands.len() > 0 {
        lemma_layout_len(
            cfg,
            hidden,
            sw,
            sh,
            offset + spec_step(cfg.interaction.position, spec_dims(cfg, cands[0]), cfg.geometry.gap),
            cands.skip(1),
        );
    }
}

/// Stack offsets accumulate: the command for the k-th candidate in walk
/// order stands at the sum of its predecessors' resolved steps.
pub proof fn lemma_stack_offsets(cfg: Config, hidden: bool, sw: int, sh: int, offset: int, cands: Seq<Window>, k: int)
    requires
        0 <= k < cands.len(),
    ensures
        layout_cmds(cfg, hidden, sw, sh, offset, cands).len() == cands.len(),
        layout_cmds(cfg, hidden, sw, sh, offset, cands)[k] == spec_move_cmd(
            cfg,
            hidden,
            sw,
            sh,
            offset + offset_total(cfg, cands.take(k)),
            cands[k],
        ),
    decreases k,
{
    lemma_layout_len(cfg, hidden, sw, sh, offset, cands);
    let step0 = spec_step(cfg.interaction.position, spec_dims(cfg, cands[0]), cfg.geometry.gap);
    if k == 0 {
        assert(cands.take(0) =~= Seq::<Window>::empty());
        assert(offset_total(cfg, cands.take(0)) == 0);
    } else {
        lemma_stack_offsets(cfg, hidden, sw, sh, offset + step0, cands.skip(1), k - 1);
        lemma_layout_len(cfg, hidden, sw, sh, offset + step0, cands.skip(1));
        assert(layout_cmds(cfg, hidden, sw, sh, offset, cands)[k] == layout_cmds(cfg, hidden, sw, sh, offset + step0, cands.skip(1))[k - 1]);
        assert(cands.skip(1)[k - 1] == cands[k]);
        assert(cands.take(k) =~= seq![cands[0]] + cands.skip(1).take(k - 1));
        assert((seq![cands[0]] + cands.skip(1).take(k - 1)).skip(1) =~= cands.skip(1).take(k - 1));
        assert(offset_total(cfg, cands.take(k)) == step0 + offset_total(cfg, cands.skip(1).take(k - 1)));
    }
}

/// A found candidate really is a live window with the searched id.
proof fn lemma_find_candidate_some(live: Seq<Window>, id: u64, active_ws: u64)
    ensures
        find_candidate(live, id, active_ws) is Some ==> ({
            let w = find_candidate(live, id, active_ws)->0;
            &&& w.id == id
            &&& is_candidate(w, active_ws)
            &&& live_contains(live, id)
        }),
    decreases live.len(),
{
    if live.len() > 0 {
        lemma_find_candidate_some(live.skip(1), id, active_ws);
        if !(live[0].id == id && is_candidate(live[0], active_ws)) && find_candidate(live.skip(1), id, active_ws) is Some {
            let i = choose|i: int| 0 <= i < live.skip(1).len() && live.skip(1)[i].id == id;
            assert(live[i + 1].id == id);
        }
    }
}

/// Every candidate is a live window.
proof fn lemma_candidates_live(entries: Seq<WindowState>, live: Seq<Window>, active_ws: u64)
    ensures
        forall|k: int|
            0 <= k < candidates(entries, live, active_ws).len() ==> live_contains(
                live,
                (#[trigger] candidates(entries, live, active_ws)[k]).id,
            ),
    decreases entries.len(),
{
    if entries.len() > 0 {
        lemma_candidates_live(entries.skip(1), live, active_ws);
        let rest = candidates(entries.skip(1), live, active_ws);
        match find_candidate(live, entries[0].id, active_ws) {
            Some(w) => {
                lemma_find_candidate_some(live, entries[0].id, active_ws);
                let whole = seq![w] + rest;
                assert forall|k: int| 0 <= k < whole.len() implies live_contains(live, (#[trigger] whole[k]).id) by {
                    if k > 0 {
                        assert(whole[k] == rest[k - 1]);
                    }
                }
            },
            None => {},
        }
    }
}

/// Zombie reconciliation: an id with no live window is pruned from the
/// state by one layout pass and receives no positioning command, while every
/// remaining candidate still receives exactly one, in walk order.
pub proof fn lemma_zombie_reconciliation(windows: Seq<WindowState>, hidden: bool, flipped: bool, cfg: Config, snap: Snapshot, id: u64)
    requires
        !live_contains(snap.windows@, id),
    ensures
        !contains_id(prune(windows, snap.windows@), id),
        ({
            let vis = visual_order(prune(windows, snap.windows@), snap.windows@, snap.active_workspace, flipped);
            let cmds = layout_output_of(prune(windows, snap.windows@), hidden, flipped, cfg, snap);
            &&& cmds.len() == vis.len()
            &&& forall|k: int|
                0 <= k < cmds.len() ==> (#[trigger] cmds[k]) == spec_move_cmd(
                    cfg,
                    hidden,
                    snap.screen_width as int,
                    snap.screen_height as int,
                    offset_total(cfg, vis.take(k)),
                    vis[k],
                )
            &&& forall|k: int| 0 <= k < vis.len() ==> (#[trigger] vis[k]).id != id
        }),
{
    let pr = prune(windows, snap.windows@);
    lemma_prune_live(windows, snap.windows@);
    if contains_id(pr, id) {
        let i = choose|i: int| 0 <= i < pr.len() && pr[i].id == id;
        assert(live_contains(snap.windows@, pr[i].id));
        assert(false);
    }
    let cs = candidates(pr, snap.windows@, snap.active_workspace);
    let vis = visual_order(pr, snap.windows@, snap.active_workspace, flipped);
    let sw = snap.screen_width as int;
    let sh = snap.screen_height as int;
    let cmds = layout_output_of(pr, hidden, flipped, cfg, snap);
    lemma_layout_len(cfg, hidden, sw, sh, 0, vis);
    lemma_candidates_live(pr, snap.windows@, snap.active_workspace);
    assert forall|k: int| 0 <= k < cmds.len() implies (#[trigger] cmds[k]) == spec_move_cmd(
        cfg,
        hidden,
        sw,
        sh,
        offset_total(cfg, vis.take(k)),
        vis[k],
    ) by {
        lemma_stack_offsets(cfg, hidden, sw, sh, 0, vis, k);
    }
    assert forall|k: int| 0 <= k < vis.len() implies (#[trigger] vis[k]).id != id by {
        if flipped {
            assert(vis[k] == cs[cs.len() - 1 - k]);
        } else {
            assert(vis[k] == cs[k]);
        }
    }
}

/// Flipping the sidebar inverts the visual stacking order; the underlying
/// stack order itself is untouched (see `toggle_flip`).
pub proof fn lemma_flip_inverts_visual_order(entries: Seq<WindowState>, live: Seq<Window>, active_ws: u64, flipped: bool)
    ensures
        visual_order(entries, live, active_ws, !flipped) == visual_order(entries, live, active_ws, flipped).reverse(),
{
    let c = candidates(entries, live, active_ws);
    if flipped {
        assert(c.reverse().reverse() =~= c);
    }
}

} // verus!
