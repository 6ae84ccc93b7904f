//! Cycling the stack order: `Next` moves the first tracked entry to the end,
//! `Prev` moves the last to the front. With fewer than two entries the whole
//! command is a no-op.
use vstd::prelude::*;

use crate::commands::reorder::{layout_output, prune, reorder};
use crate::niri::{Action, Effects, Snapshot};
use crate::state::{unique_ids, WindowState};
use crate::{Ctx, Direction};

verus! {

/// The stack order after one `Next` step: first entry to the back.
pub open spec fn rotate_next(ws: Seq<WindowState>) -> Seq<WindowState>
    recommends
        ws.len() > 0,
{
    ws.skip(1) + ws.take(1)
}

/// The stack order after one `Prev` step: last entry to the front.
pub open spec fn rotate_prev(ws: Seq<WindowState>) -> Seq<WindowState>
    recommends
        ws.len() > 0,
{
    seq![ws[ws.len() - 1]] + ws.drop_last()
}

/// The stack order after one cycle step in the given direction.
pub open spec fn rotated(ws: Seq<WindowState>, direction: Direction) -> Seq<WindowState>
    recommends
        ws.len() > 0,
{
    match direction {
        Direction::Next => rotate_next(ws),
        Direction::Prev => rotate_prev(ws),
    }
}

/// A cycle step permutes the entries, so length and id-uniqueness carry over.
proof fn lemma_rotate_wf(ws: Seq<WindowState>, direction: Direction)
    requires
        ws.len() > 0,
        unique_ids(ws),
    ensures
        rotated(ws, direction).len() == ws.len(),
        unique_ids(rotated(ws, direction)),
{
    let r = rotated(ws, direction);
    let n = ws.len() as int;
    match direction {
        Direction::Next => {
            assert forall|i: int, j: int| 0 <= i < j < r.len() implies r[i].id != r[j].id by {
                assert(r[i] == ws[i + 1]);
                if j < n - 1 {
                    assert(r[j] == ws[j + 1]);
                } else {
                    assert(r[j] == ws[0]);
                }
            }
        },
        Direction::Prev => {
            assert forall|i: int, j: int| 0 <= i < j < r.len() implies r[i].id != r[j].id by {
                assert(r[j] == ws[j - 1]);
                if i == 0 {
                    assert(r[i] == ws[n - 1]);
                } else {
                    assert(r[i] == ws[i - 1]);
                }
            }
        },
    }
}

/// `cycle(Next)` followed by `cycle(Prev)` restores the original stack
/// order, for any list the two steps apply to.
pub proof fn lemma_cycle_round_trip(ws: Seq<WindowState>)
    requires
        ws.len() >= 2,
    ensures
        rotate_prev(rotate_next(ws)) == ws,
        rotate_next(rotate_prev(ws)) == ws,
{
    assert(rotate_prev(rotate_next(ws)) =~= ws);
    assert(rotate_next(rotate_prev(ws)) =~= ws);
}

/// Rotate the stack order one step and run a layout pass; with fewer than
/// two tracked entries, change nothing and issue nothing.
pub fn cycle(ctx: &mut Ctx, snap: &Snapshot, direction: Direction) -> (r: Effects)
    requires
        old(ctx).state.wf(),
    ensures
        final(ctx).config == old(ctx).config,
        final(ctx).state.ignored_windows == old(ctx).state.ignored_windows,
        final(ctx).state.is_hidden == old(ctx).state.is_hidden,
        final(ctx).state.is_flipped == old(ctx).state.is_flipped,
        final(ctx).state.wf(),
        old(ctx).state.windows@.len() < 2 ==> *final(ctx) == *old(ctx)
            && r.commands@ == Seq::<Action>::empty() && !r.state_changed,
        old(ctx).state.windows@.len() >= 2 ==> ({
            &&& final(ctx).state.windows@ == prune(rotated(old(ctx).state.windows@, direction), snap.windows@)
            &&& r.commands@ == layout_output(final(ctx).state, final(ctx).config, *snap)
            &&& r.state_changed
        }),
{
    if ctx.state.windows.len() < 2 {
        return Effects { commands: Vec::new(), state_changed: false };
    }
    let ghost orig = ctx.state.windows@;
    match direction {
        Direction::Next => {
            let first = ctx.state.windows.remove(0);
            ctx.state.windows.push(first);
            proof {
                assert(ctx.state.windows@ =~= rotate_next(orig));
            }
        },
        Direction::Prev => {
            let last = ctx.state.windows.pop().unwrap();
            ctx.state.windows.insert(0, last);
            proof {
                assert(ctx.state.windows@ =~= rotate_prev(orig));
            }
        },
    }
    proof {
        lemma_rotate_wf(orig, direction);
    }
    let e = reorder(ctx, snap);
    Effects { commands: e.commands, state_changed: true }
}

} // verus!
