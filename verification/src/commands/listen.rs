//! The event dispatcher's decision layer: each compositor event maps to one
//! state transition and a command list. The long-lived loop around it —
//! subscribing, blocking for events, reloading state and configuration per
//! event — is I/O and lives outside the verified core.
use vstd::prelude::*;

use crate::commands::movefrom::{move_cmds, move_to, tracked_live_ids};
use crate::commands::reorder::{layout_output, prune, reorder};
use crate::commands::togglewindow::{add_cmds, add_to_sidebar, track_entry};
use crate::niri::{Action, Effects, Event, Snapshot, Window};
use crate::state::{contains_id, find_index, max_windows, remove_entry, remove_id};
use crate::window_rules::{resolve_auto_add, spec_resolve_auto_add};
use crate::Ctx;

verus! {

/// The id list with the first occurrence of `id` removed; unchanged when
/// `id` is absent.
pub open spec fn remove_first_id(ids: Seq<u64>, id: u64) -> Seq<u64>
    decreases ids.len(),
{
    if ids.len() == 0 {
        Seq::empty()
    } else if ids[0] == id {
        ids.skip(1)
    } else {
        seq![ids[0]] + remove_first_id(ids.skip(1), id)
    }
}

/// When `i` is the first index holding `id`, removing the first occurrence
/// is removal at `i`.
proof fn lemma_remove_first_id_at(ids: Seq<u64>, id: u64, i: int)
    requires
        0 <= i < ids.len(),
        ids[i] == id,
        forall|j: int| 0 <= j < i ==> ids[j] != id,
    ensures
        remove_first_id(ids, id) == ids.remove(i),
    decreases i,
{
    if i == 0 {
        assert(ids.remove(0) =~= ids.skip(1));
    } else {
        assert(ids[0] != id);
        assert forall|j: int| 0 <= j < i - 1 implies ids.skip(1)[j] != id by {
            assert(ids.skip(1)[j] == ids[j + 1]);
        }
        lemma_remove_first_id_at(ids.skip(1), id, i - 1);
        assert(ids.skip(1)[i - 1] == ids[i]);
        assert(remove_first_id(ids, id) == seq![ids[0]] + ids.skip(1).remove(i - 1));
        assert(seq![ids[0]] + ids.skip(1).remove(i - 1) =~= ids.remove(i));
    }
}

/// Index of the first occurrence of `id`, if any.
fn find_id_index(ids: &Vec<u64>, id: u64) -> (r: Option<usize>)
    ensures
        match r {
            Some(i) => {
                &&& i < ids@.len()
                &&& ids@[i as int] == id
                &&& forall|j: int| 0 <= j < i ==> ids@[j] != id
            },
            None => !ids@.contains(id),
        },
{
    let n: usize = ids.len();
    let mut i: usize = 0;
    while i < n
        invariant
            i <= n,
            n == ids@.len(),
            forall|j: int| 0 <= j < i ==> ids@[j] != id,
        decreases n - i,
    {
        if ids[i] == id {
            return Some(i);
        }
        i = i + 1;
    }
    proof {
        if ids@.contains(id) {
            let k = choose|k: int| 0 <= k < ids@.len() && ids@[k] == id;
            assert(false);
        }
    }
    None
}

/// A closed tracked window leaves the state, which is persisted, and a
/// layout pass runs; a closed untracked window changes nothing.
pub fn process_close(ctx: &mut Ctx, snap: &Snapshot, closed_id: u64) -> (r: Effects)
    requires
        old(ctx).state.wf(),
    ensures
        final(ctx).config == old(ctx).config,
        final(ctx).state.ignored_windows == old(ctx).state.ignored_windows,
        final(ctx).state.is_hidden == old(ctx).state.is_hidden,
        final(ctx).state.is_flipped == old(ctx).state.is_flipped,
        final(ctx).state.wf(),
        !contains_id(old(ctx).state.windows@, closed_id) ==> *final(ctx) == *old(ctx)
            && r.commands@ == Seq::<Action>::empty() && !r.state_changed,
        contains_id(old(ctx).state.windows@, closed_id) ==> ({
            &&& final(ctx).state.windows@ == prune(
                remove_id(old(ctx).state.windows@, closed_id),
                snap.windows@,
            )
            &&& r.commands@ == layout_output(final(ctx).state, final(ctx).config, *snap)
            &&& r.state_changed
        }),
{
    if find_index(&ctx.state.windows, closed_id).is_some() {
        let _ = remove_entry(&mut ctx.state.windows, closed_id);
        proof {
            crate::state::lemma_remove_id_wf(old(ctx).state.windows@, closed_id);
        }
        let e = reorder(ctx, snap);
        Effects { commands: e.commands, state_changed: true }
    } else {
        Effects { commands: Vec::new(), state_changed: false }
    }
}

/// A focus change re-runs the layout pass, so the newly focused window gets
/// its focus peek.
pub fn process_focus(ctx: &mut Ctx, snap: &Snapshot) -> (r: Effects)
    requires
        old(ctx).state.wf(),
    ensures
        final(ctx).config == old(ctx).config,
        final(ctx).state.windows@ == prune(old(ctx).state.windows@, snap.windows@),
        final(ctx).state.ignored_windows == old(ctx).state.ignored_windows,
        final(ctx).state.is_hidden == old(ctx).state.is_hidden,
        final(ctx).state.is_flipped == old(ctx).state.is_flipped,
        final(ctx).state.wf(),
        r.commands@ == layout_output(final(ctx).state, final(ctx).config, *snap),
        r.state_changed == (final(ctx).state.windows@.len() != old(ctx).state.windows@.len()),
{
    reorder(ctx, snap)
}

/// Move every tracked live window onto workspace `ws_id`. No state
/// mutation.
pub fn process_move(ctx: &Ctx, snap: &Snapshot, ws_id: u64) -> (r: Effects)
    ensures
        r.commands@ == move_cmds(tracked_live_ids(snap.windows@, ctx.state.windows@), ws_id),
        !r.state_changed,
{
    let n: usize = snap.windows.len();
    let mut ids: Vec<u64> = Vec::new();
    let mut i: usize = 0;
    while i < n
        invariant
            i <= n,
            n == snap.windows@.len(),
            ids@ == tracked_live_ids(snap.windows@.take(i as int), ctx.state.windows@),
        decreases n - i,
    {
        let w = &snap.windows[i];
        proof {
            crate::commands::movefrom::lemma_tracked_live_snoc(
                snap.windows@.take(i as int),
                ctx.state.windows@,
                snap.windows@[i as int],
            );
            assert(snap.windows@.take(i as int + 1) =~= snap.windows@.take(i as int).push(
                snap.windows@[i as int],
            ));
        }
        if find_index(&ctx.state.windows, w.id).is_some() {
            ids.push(w.id);
            proof {
                assert(ids@ =~= tracked_live_ids(
                    snap.windows@.take(i as int + 1),
                    ctx.state.windows@,
                ));
            }
        } else {
            proof {
                assert(ids@ =~= tracked_live_ids(
                    snap.windows@.take(i as int + 1),
                    ctx.state.windows@,
                ));
            }
        }
        i = i + 1;
    }
    proof {
        assert(snap.windows@.take(n as int) =~= snap.windows@);
    }
    let commands = move_to(&ids, ws_id);
    Effects { commands, state_changed: false }
}

/// A new-or-changed window: a pending one-shot suppression for its id is
/// consumed (and persisted) and nothing else happens; otherwise a window
/// matching an auto-add rule that is not yet tracked is tracked exactly as
/// by `toggle_window`'s add path, followed by a layout pass.
pub fn process_new_window(ctx: &mut Ctx, snap: &Snapshot, window: &Window) -> (r: Effects)
    requires
        old(ctx).state.wf(),
        old(ctx).state.windows@.len() < max_windows(),
    ensures
        final(ctx).config == old(ctx).config,
        final(ctx).state.is_hidden == old(ctx).state.is_hidden,
        final(ctx).state.is_flipped == old(ctx).state.is_flipped,
        final(ctx).state.wf(),
        old(ctx).state.ignored_windows@.contains(window.id) ==> ({
            &&& final(ctx).state.windows == old(ctx).state.windows
            &&& final(ctx).state.ignored_windows@ == remove_first_id(
                old(ctx).state.ignored_windows@,
                window.id,
            )
            &&& r.commands@ == Seq::<Action>::empty()
            &&& r.state_changed
        }),
        !old(ctx).state.ignored_windows@.contains(window.id) ==> ({
            let auto_add = spec_resolve_auto_add(
                old(ctx).config.window_rule@,
                window.app_id,
                window.title,
            );
            let already = contains_id(old(ctx).state.windows@, window.id);
            &&& (auto_add && !already) ==> ({
                &&& final(ctx).state.windows@ == prune(
                    old(ctx).state.windows@.push(track_entry(*window)),
                    snap.windows@,
                )
                &&& final(ctx).state.ignored_windows == old(ctx).state.ignored_windows
                &&& r.commands@ == add_cmds(old(ctx).config, *window) + layout_output(
                    final(ctx).state,
                    final(ctx).config,
                    *snap,
                )
                &&& r.state_changed
            })
            &&& !(auto_add && !already) ==> (*final(ctx) == *old(ctx) && r.commands@
                == Seq::<Action>::empty() && !r.state_changed)
        }),
{
    match find_id_index(&ctx.state.ignored_windows, window.id) {
        Some(i) => {
            proof {
                lemma_remove_first_id_at(ctx.state.ignored_windows@, window.id, i as int);
            }
            ctx.state.ignored_windows.remove(i);
            return Effects { commands: Vec::new(), state_changed: true };
        },
        None => {},
    }
    let auto_add: bool = resolve_auto_add(&ctx.config.window_rule, window);
    let already: bool = find_index(&ctx.state.windows, window.id).is_some();
    if auto_add && !already {
        let mut commands = add_to_sidebar(ctx, window);
        let ghost sub = commands@;
        let e = reorder(ctx, snap);
        let mut tail = e.commands;
        commands.append(&mut tail);
        proof {
            assert(commands@ == sub + layout_output(ctx.state, ctx.config, *snap));
        }
        Effects { commands, state_changed: true }
    } else {
        Effects { commands: Vec::new(), state_changed: false }
    }
}

/// One dispatcher step: map a compositor event to its state transition and
/// commands. Unknown events do nothing; workspace activation acts only when
/// it came with focus and sticky mode is on.
pub fn dispatch_event(ctx: &mut Ctx, snap: &Snapshot, event: &Event) -> (r: Effects)
    requires
        old(ctx).state.wf(),
        old(ctx).state.windows@.len() < max_windows(),
    ensures
        final(ctx).config == old(ctx).config,
        final(ctx).state.is_hidden == old(ctx).state.is_hidden,
        final(ctx).state.is_flipped == old(ctx).state.is_flipped,
        final(ctx).state.wf(),
        match *event {
            Event::WindowClosed { id } => {
                &&& final(ctx).state.ignored_windows == old(ctx).state.ignored_windows
                &&& !contains_id(old(ctx).state.windows@, id) ==> *final(ctx) == *old(ctx)
                    && r.commands@ == Seq::<Action>::empty() && !r.state_changed
                &&& contains_id(old(ctx).state.windows@, id) ==> ({
                    &&& final(ctx).state.windows@ == prune(
                        remove_id(old(ctx).state.windows@, id),
                        snap.windows@,
                    )
                    &&& r.commands@ == layout_output(final(ctx).state, final(ctx).config, *snap)
                    &&& r.state_changed
                })
            },
            Event::WindowFocusChanged => {
                &&& final(ctx).state.windows@ == prune(old(ctx).state.windows@, snap.windows@)
                &&& final(ctx).state.ignored_windows == old(ctx).state.ignored_windows
                &&& r.commands@ == layout_output(final(ctx).state, final(ctx).config, *snap)
                &&& r.state_changed == (final(ctx).state.windows@.len()
                    != old(ctx).state.windows@.len())
            },
            Event::WorkspaceActivated { id, focused } => {
                &&& *final(ctx) == *old(ctx)
                &&& !r.state_changed
                &&& (focused && old(ctx).config.interaction.sticky) ==> r.commands@ == move_cmds(
                    tracked_live_ids(snap.windows@, old(ctx).state.windows@),
                    id,
                )
                &&& !(focused && old(ctx).config.interaction.sticky) ==> r.commands@
                    == Seq::<Action>::empty()
            },
            Event::WindowOpenedOrChanged { window } => {
                &&& old(ctx).state.ignored_windows@.contains(window.id) ==> ({
                    &&& final(ctx).state.windows == old(ctx).state.windows
                    &&& final(ctx).state.ignored_windows@ == remove_first_id(
                        old(ctx).state.ignored_windows@,
                        window.id,
                    )
                    &&& r.commands@ == Seq::<Action>::empty()
                    &&& r.state_changed
                })
                &&& !old(ctx).state.ignored_windows@.contains(window.id) ==> ({
                    let auto_add = spec_resolve_auto_add(
                        old(ctx).config.window_rule@,
                        window.app_id,
                        window.title,
                    );
                    let already = contains_id(old(ctx).state.windows@, window.id);
                    &&& (auto_add && !already) ==> ({
                        &&& final(ctx).state.windows@ == prune(
                            old(ctx).state.windows@.push(track_entry(window)),
                            snap.windows@,
                        )
                        &&& final(ctx).state.ignored_windows == old(ctx).state.ignored_windows
                        &&& r.commands@ == add_cmds(old(ctx).config, window) + layout_output(
                            final(ctx).state,
                            final(ctx).config,
                            *snap,
                        )
                        &&& r.state_changed
                    })
                    &&& !(auto_add && !already) ==> (*final(ctx) == *old(ctx) && r.commands@
                        == Seq::<Action>::empty() && !r.state_changed)
                })
            },
            Event::Other => *final(ctx) == *old(ctx) && r.commands@ == Seq::<Action>::empty()
                && !r.state_changed,
        },
{
    match event {
        Event::WindowClosed { id } => process_close(ctx, snap, *id),
        Event::WindowFocusChanged => process_focus(ctx, snap),
        Event::WorkspaceActivated { id, focused } => {
            if *focused && ctx.config.interaction.sticky {
                process_move(ctx, snap, *id)
            } else {
                Effects { commands: Vec::new(), state_changed: false }
            }
        },
        Event::WindowOpenedOrChanged { window } => process_new_window(ctx, snap, window),
        Event::Other => Effects { commands: Vec::new(), state_changed: false },
    }
}

} // verus!
