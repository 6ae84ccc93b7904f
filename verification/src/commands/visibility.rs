//! Toggling sidebar visibility. On a hidden-to-visible transition, when the
//! configuration asks for it, the floating layer is focused after the layout
//! pass.
use vstd::prelude::*;

use crate::commands::reorder::{layout_output, prune, reorder};
use crate::niri::{Action, Effects, Snapshot};
use crate::Ctx;

verus! {

/// Invert `is_hidden`, persist, run a layout pass, and — when unhiding with
/// `focus_on_unhide` set — additionally focus the floating sidebar.
pub fn toggle_visibility(ctx: &mut Ctx, snap: &Snapshot) -> (r: Effects)
    requires
        old(ctx).state.wf(),
    ensures
        final(ctx).config == old(ctx).config,
        final(ctx).state.is_hidden == !old(ctx).state.is_hidden,
        final(ctx).state.is_flipped == old(ctx).state.is_flipped,
        final(ctx).state.ignored_windows == old(ctx).state.ignored_windows,
        final(ctx).state.windows@ == prune(old(ctx).state.windows@, snap.windows@),
        final(ctx).state.wf(),
        r.commands@ == layout_output(final(ctx).state, final(ctx).config, *snap) + (
        if old(ctx).state.is_hidden && old(ctx).config.interaction.focus_on_unhide {
            seq![Action::FocusFloating]
        } else {
            Seq::<Action>::empty()
        }),
        r.state_changed,
{
    let was_hidden: bool = ctx.state.is_hidden;
    ctx.state.is_hidden = !was_hidden;
    let e = reorder(ctx, snap);
    let mut commands = e.commands;
    let ghost layout = commands@;
    if was_hidden && ctx.config.interaction.focus_on_unhide {
        commands.push(Action::FocusFloating);
        proof {
            assert(commands@ =~= layout + seq![Action::FocusFloating]);
        }
    } else {
        proof {
            assert(commands@ =~= layout + Seq::<Action>::empty());
        }
    }
    Effects { commands, state_changed: true }
}

} // verus!
