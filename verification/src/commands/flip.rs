//! Flipping the sidebar: inverts the visual stacking order while leaving the
//! underlying stack order untouched.
use vstd::prelude::*;

use crate::commands::reorder::{layout_output, prune, reorder};
use crate::niri::{Effects, Snapshot};
use crate::Ctx;

verus! {

/// Invert `is_flipped`, persist, and run a layout pass.
pub fn toggle_flip(ctx: &mut Ctx, snap: &Snapshot) -> (r: Effects)
    requires
        old(ctx).state.wf(),
    ensures
        final(ctx).config == old(ctx).config,
        final(ctx).state.is_flipped == !old(ctx).state.is_flipped,
        final(ctx).state.is_hidden == old(ctx).state.is_hidden,
        final(ctx).state.ignored_windows == old(ctx).state.ignored_windows,
        final(ctx).state.windows@ == prune(old(ctx).state.windows@, snap.windows@),
        final(ctx).state.wf(),
        r.commands@ == layout_output(final(ctx).state, final(ctx).config, *snap),
        r.state_changed,
{
    ctx.state.is_flipped = !ctx.state.is_flipped;
    let e = reorder(ctx, snap);
    Effects { commands: e.commands, state_changed: true }
}

} // verus!
