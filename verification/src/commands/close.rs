//! Closing the focused window: if it is tracked it leaves the state first;
//! a close command is sent for it either way, followed by a layout pass.
use vstd::prelude::*;

use crate::commands::reorder::{layout_output, prune, reorder};
use crate::niri::{focused_window, find_focused_index, Action, Effects, Snapshot};
use crate::state::{lemma_remove_id_wf, remove_entry, remove_id};
use crate::{Ctx, SidebarError};

verus! {

/// Close the focused live window. `NotFound` when no window has focus; the
/// state is then untouched and nothing is sent.
pub fn close(ctx: &mut Ctx, snap: &Snapshot) -> (r: Result<Effects, SidebarError>)
    requires
        old(ctx).state.wf(),
    ensures
        r is Ok <==> focused_window(snap.windows@) is Some,
        r is Err ==> *final(ctx) == *old(ctx) && r->Err_0 == SidebarError::NotFound,
        r is Ok ==> ({
            let fid = focused_window(snap.windows@)->0.id;
            let mid = remove_id(old(ctx).state.windows@, fid);
            &&& final(ctx).config == old(ctx).config
            &&& final(ctx).state.ignored_windows == old(ctx).state.ignored_windows
            &&& final(ctx).state.is_hidden == old(ctx).state.is_hidden
            &&& final(ctx).state.is_flipped == old(ctx).state.is_flipped
            &&& final(ctx).state.windows@ == prune(mid, snap.windows@)
            &&& final(ctx).state.wf()
            &&& r->Ok_0.commands@ == seq![Action::CloseWindow { id: fid }] + layout_output(
                final(ctx).state,
                final(ctx).config,
                *snap,
            )
            &&& r->Ok_0.state_changed == (final(ctx).state.windows@.len()
                != old(ctx).state.windows@.len())
        }),
{
    let focused_idx: usize = match find_focused_index(&snap.windows) {
        Some(i) => i,
        None => {
            return Err(SidebarError::NotFound);
        },
    };
    let fid: u64 = snap.windows[focused_idx].id;
    let removed = remove_entry(&mut ctx.state.windows, fid);
    proof {
        lemma_remove_id_wf(old(ctx).state.windows@, fid);
    }
    let mut commands: Vec<Action> = Vec::new();
    commands.push(Action::CloseWindow { id: fid });
    let ghost head = commands@;
    let e = reorder(ctx, snap);
    let mut tail = e.commands;
    commands.append(&mut tail);
    proof {
        assert(commands@ == head + layout_output(ctx.state, ctx.config, *snap));
    }
    let state_changed: bool = removed.is_some() || e.state_changed;
    Ok(Effects { commands, state_changed })
}

} // verus!
