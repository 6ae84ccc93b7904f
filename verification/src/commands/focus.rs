//! Cycling focus through the sidebar windows on the active workspace, in
//! visual order, with wraparound. No state mutation and no layout pass.
use vstd::prelude::*;

use crate::commands::reorder::{candidates, collect_candidate_indices, visual_order};
use crate::niri::{Action, Effects, Snapshot};
use crate::niri::Window;
use crate::{Ctx, SidebarError};

verus! {

/// Direction for cycling focus.
#[derive(Clone, Copy, PartialEq, Eq, Debug)]
pub enum Direction {
    Next,
    Prev,
}

/// Index of the first candidate that holds focus, or the length when none
/// does.
pub open spec fn spec_first_focused(cands: Seq<Window>) -> int
    decreases cands.len(),
{
    if cands.len() == 0 {
        0
    } else if cands[0].is_focused {
        0
    } else {
        1 + spec_first_focused(cands.skip(1))
    }
}

/// The candidate that receives focus: one step from the focused candidate
/// with wraparound, or — when none holds focus — the end matching the
/// direction.
pub open spec fn spec_focus_target(cands: Seq<Window>, direction: Direction) -> int
    recommends
        cands.len() > 0,
{
    let n = cands.len() as int;
    let f = spec_first_focused(cands);
    if f < n {
        match direction {
            Direction::Next => if f == n - 1 { 0 } else { f + 1 },
            Direction::Prev => if f == 0 { n - 1 } else { f - 1 },
        }
    } else {
        match direction {
            Direction::Next => 0,
            Direction::Prev => n - 1,
        }
    }
}

/// `spec_first_focused` is exactly the first index holding focus (or the
/// length when no index does).
proof fn lemma_first_focused_at(cands: Seq<Window>, i: int)
    requires
        0 <= i <= cands.len(),
        forall|j: int| 0 <= j < i ==> !cands[j].is_focused,
        i < cands.len() ==> cands[i].is_focused,
    ensures
        spec_first_focused(cands) == i,
    decreases i,
{
    if i == 0 {
        if cands.len() > 0 && !cands[0].is_focused {
            assert(false);
        }
    } else {
        assert(!cands[0].is_focused);
        assert forall|j: int| 0 <= j < i - 1 implies !cands.skip(1)[j].is_focused by {
            assert(cands.skip(1)[j] == cands[j + 1]);
        }
        if i < cands.len() {
            assert(cands.skip(1)[i - 1] == cands[i]);
        }
        lemma_first_focused_at(cands.skip(1), i - 1);
    }
}

/// Move focus one step through the sidebar candidates on the active
/// workspace, in visual order, wrapping around; entering from the matching
/// end when no candidate holds focus. `NotFound` when there is no
/// candidate.
pub fn focus_cycle(ctx: &Ctx, snap: &Snapshot, direction: Direction) -> (r: Result<
    Effects,
    SidebarError,
>)
    ensures
        r is Ok <==> visual_order(
            ctx.state.windows@,
            snap.windows@,
            snap.active_workspace,
            ctx.state.is_flipped,
        ).len() > 0,
        r is Err ==> r->Err_0 == SidebarError::NotFound,
        r is Ok ==> ({
            let vis = visual_order(
                ctx.state.windows@,
                snap.windows@,
                snap.active_workspace,
                ctx.state.is_flipped,
            );
            &&& r->Ok_0.commands@ == seq![
                Action::FocusWindow { id: vis[spec_focus_target(vis, direction)].id },
            ]
            &&& !r->Ok_0.state_changed
        }),
{
    let flipped: bool = ctx.state.is_flipped;
    let ghost cands = candidates(ctx.state.windows@, snap.windows@, snap.active_workspace);
    let ghost vis = visual_order(ctx.state.windows@, snap.windows@, snap.active_workspace, flipped);
    let cand_idx = collect_candidate_indices(&ctx.state.windows, snap);
    let total: usize = cand_idx.len();
    proof {
        if flipped {
            assert(vis.len() == cands.len());
        }
    }
    if total == 0 {
        return Err(SidebarError::NotFound);
    }

    // First candidate in visual order that currently holds focus.
    let mut f: usize = total;
    let mut k: usize = 0;
    while k < total
        invariant
            k <= total,
            total == cand_idx@.len(),
            total == vis.len(),
            total == cands.len(),
            vis == (if flipped { cands.reverse() } else { cands }),
            forall|j: int|
                0 <= j < total ==> (#[trigger] cand_idx@[j]) < snap.windows@.len()
                    && snap.windows@[cand_idx@[j] as int] == cands[j],
            f == total || (f < k && vis[f as int].is_focused),
            forall|j: int| 0 <= j < (if f == total { k as int } else { f as int }) ==> !vis[j].is_focused,
        decreases total - k,
    {
        let idx: usize = if flipped {
            cand_idx[total - 1 - k]
        } else {
            cand_idx[k]
        };
        proof {
            if flipped {
                assert(vis[k as int] == cands[total - 1 - k as int]);
            }
            assert(snap.windows@[idx as int] == vis[k as int]);
        }
        if f == total && snap.windows[idx].is_focused {
            f = k;
        }
        k = k + 1;
    }
    proof {
        lemma_first_focused_at(vis, f as int);
    }

    let target: usize = if f < total {
        match direction {
            Direction::Next => if f == total - 1 { 0 } else { f + 1 },
            Direction::Prev => if f == 0 { total - 1 } else { f - 1 },
        }
    } else {
        match direction {
            Direction::Next => 0,
            Direction::Prev => total - 1,
        }
    };
    proof {
        assert(target as int == spec_focus_target(vis, direction));
    }
    let idx: usize = if flipped {
        cand_idx[total - 1 - target]
    } else {
        cand_idx[target]
    };
    proof {
        if flipped {
            assert(vis[target as int] == cands[total - 1 - target as int]);
        }
        assert(snap.windows@[idx as int] == vis[target as int]);
    }
    let target_id: u64 = snap.windows[idx].id;
    let mut commands: Vec<Action> = Vec::new();
    commands.push(Action::FocusWindow { id: target_id });
    proof {
        assert(commands@ =~= seq![Action::FocusWindow { id: target_id }]);
    }
    Ok(Effects { commands, state_changed: false })
}

} // verus!
