//! The persisted application state: the ordered list of tracked windows and
//! the sidebar-wide flags.
use vstd::prelude::*;

verus! {

/// One tracked window. `width`, `height`, `is_floating` and `position` record
/// what the window had before it was tracked, so they can be restored when it
/// is untracked.
#[derive(Clone, Copy, Debug, PartialEq, Eq)]
pub struct WindowState {
    pub id: u64,
    pub width: i32,
    pub height: i32,
    pub is_floating: bool,
    pub position: Option<(i64, i64)>,
}

/// The whole persisted state. The order of `windows` is the canonical stack
/// order; `ignored_windows` holds single-shot suppressions consumed the next
/// time the corresponding window is observed.
#[derive(Clone, Debug, PartialEq, Eq)]
pub struct AppState {
    pub windows: Vec<WindowState>,
    pub ignored_windows: Vec<u64>,
    pub is_hidden: bool,
    pub is_flipped: bool,
}

/// Whether some tracked entry carries the given id.
pub open spec fn contains_id(ws: Seq<WindowState>, id: u64) -> bool {
    exists|i: int| 0 <= i < ws.len() && ws[i].id == id
}

/// Cap on how many windows the state may track, so that accumulated layout
/// offsets stay far inside the coordinate range.
pub open spec fn max_windows() -> int {
    100000
}

/// All tracked entries carry distinct ids.
pub open spec fn unique_ids(ws: Seq<WindowState>) -> bool {
    forall|i: int, j: int| 0 <= i < j < ws.len() ==> ws[i].id != ws[j].id
}

impl AppState {
    /// Well-formedness: tracked ids are unique, and the list is small enough
    /// that accumulated stack offsets stay far inside the coordinate range.
    pub open spec fn wf(self) -> bool {
        &&& unique_ids(self.windows@)
        &&& self.windows@.len() <= max_windows()
    }

    /// The empty state: nothing tracked, visible, unflipped.
    pub fn new() -> (r: AppState)
        ensures
            r.windows@ =~= Seq::<WindowState>::empty(),
            r.ignored_windows@ =~= Seq::<u64>::empty(),
            !r.is_hidden,
            !r.is_flipped,
            r.wf(),
    {
        AppState { windows: Vec::new(), ignored_windows: Vec::new(), is_hidden: false, is_flipped: false }
    }
}

impl Default for AppState {
    fn default() -> (r: AppState)
        ensures
            r.windows@ =~= Seq::<WindowState>::empty(),
            r.ignored_windows@ =~= Seq::<u64>::empty(),
            !r.is_hidden,
            !r.is_flipped,
            r.wf(),
    {
        AppState::new()
    }
}

/// Index of the first tracked entry with the given id, if any.
pub fn find_index(windows: &Vec<WindowState>, id: u64) -> (r: Option<usize>)
    ensures
        match r {
            Some(i) => {
                &&& i < windows@.len()
                &&& windows@[i as int].id == id
                &&& forall|j: int| 0 <= j < i ==> windows@[j].id != id
            },
            None => !contains_id(windows@, id),
        },
{
    let n: usize = windows.len();
    let mut i: usize = 0;
    while i < n
        invariant
            i <= n,
            n == windows@.len(),
            forall|j: int| 0 <= j < i ==> windows@[j].id != id,
        decreases n - i,
    {
        if windows[i].id == id {
            return Some(i);
        }
        i = i + 1;
    }
    None
}


/// The list with the first entry carrying `id` removed; unchanged when no
/// entry carries it.
pub open spec fn remove_id(ws: Seq<WindowState>, id: u64) -> Seq<WindowState>
    decreases ws.len(),
{
    if ws.len() == 0 {
        Seq::empty()
    } else if ws[0].id == id {
        ws.skip(1)
    } else {
        seq![ws[0]] + remove_id(ws.skip(1), id)
    }
}

/// The first entry carrying `id`.
pub open spec fn entry_for(ws: Seq<WindowState>, id: u64) -> WindowState
    recommends
        contains_id(ws, id),
    decreases ws.len(),
{
    if ws.len() == 0 {
        arbitrary()
    } else if ws[0].id == id {
        ws[0]
    } else {
        entry_for(ws.skip(1), id)
    }
}

/// When `i` is the first index carrying `id`, removing the first occurrence
/// is removal at `i`, and that entry is `entry_for`.
proof fn lemma_remove_id_at(ws: Seq<WindowState>, id: u64, i: int)
    requires
        0 <= i < ws.len(),
        ws[i].id == id,
        forall|j: int| 0 <= j < i ==> ws[j].id != id,
    ensures
        remove_id(ws, id) == ws.remove(i),
        entry_for(ws, id) == ws[i],
    decreases i,
{
    if i == 0 {
        assert(ws.remove(0) =~= ws.skip(1));
    } else {
        assert(ws[0].id != id);
        assert forall|j: int| 0 <= j < i - 1 implies ws.skip(1)[j].id != id by {
            assert(ws.skip(1)[j] == ws[j + 1]);
        }
        lemma_remove_id_at(ws.skip(1), id, i - 1);
        assert(ws.skip(1)[i - 1] == ws[i]);
        assert(remove_id(ws, id) == seq![ws[0]] + ws.skip(1).remove(i - 1));
        assert(seq![ws[0]] + ws.skip(1).remove(i - 1) =~= ws.remove(i));
    }
}

/// Removing an id never lengthens the list, introduces no id, keeps
/// uniqueness, and — under uniqueness — leaves no occurrence behind.
pub proof fn lemma_remove_id_wf(ws: Seq<WindowState>, id: u64)
    ensures
        !contains_id(ws, id) ==> remove_id(ws, id) == ws,
        contains_id(ws, id) ==> remove_id(ws, id).len() == ws.len() - 1,
        forall|x: u64| contains_id(remove_id(ws, id), x) ==> contains_id(ws, x),
        unique_ids(ws) ==> unique_ids(remove_id(ws, id)),
        unique_ids(ws) ==> !contains_id(remove_id(ws, id), id),
    decreases ws.len(),
{
    if ws.len() == 0 {
        assert(remove_id(ws, id) =~= ws);
    } else {
        lemma_remove_id_wf(ws.skip(1), id);
        assert forall|x: u64| contains_id(ws.skip(1), x) implies contains_id(ws, x) by {
            let k = choose|k: int| 0 <= k < ws.skip(1).len() && ws.skip(1)[k].id == x;
            assert(ws[k + 1].id == x);
        }
        if unique_ids(ws) {
            assert forall|i: int, j: int| 0 <= i < j < ws.skip(1).len() implies ws.skip(1)[i].id != ws.skip(1)[j].id by {
                assert(ws.skip(1)[i] == ws[i + 1]);
                assert(ws.skip(1)[j] == ws[j + 1]);
            }
        }
        if ws[0].id == id {
            assert(contains_id(ws, id));
            if unique_ids(ws) && contains_id(ws.skip(1), id) {
                let k = choose|k: int| 0 <= k < ws.skip(1).len() && ws.skip(1)[k].id == id;
                assert(ws[k + 1].id == id);
                assert(false);
            }
            if !contains_id(ws, id) {
                assert(false);
            }
        } else {
            let rest = remove_id(ws.skip(1), id);
            let whole = seq![ws[0]] + rest;
            assert forall|x: u64| contains_id(whole, x) implies contains_id(ws, x) by {
                let k = choose|k: int| 0 <= k < whole.len() && whole[k].id == x;
                if k == 0 {
                    assert(ws[0].id == x);
                } else {
                    assert(rest[k - 1].id == x);
                    assert(contains_id(rest, x));
                }
            }
            if contains_id(ws, id) {
                let k = choose|k: int| 0 <= k < ws.len() && ws[k].id == id;
                assert(ws.skip(1)[k - 1].id == id);
                assert(contains_id(ws.skip(1), id));
            }
            if !contains_id(ws, id) {
                if contains_id(ws.skip(1), id) {
                    let k = choose|k: int| 0 <= k < ws.skip(1).len() && ws.skip(1)[k].id == id;
                    assert(ws[k + 1].id == id);
                    assert(false);
                }
                assert(whole =~= ws);
            }
            if unique_ids(ws) {
                assert forall|i: int, j: int| 0 <= i < j < whole.len() implies whole[i].id != whole[j].id by {
                    if i == 0 {
                        assert(rest[j - 1].id == whole[j].id);
                        assert(contains_id(rest, whole[j].id));
                        if whole[j].id == ws[0].id {
                            assert(contains_id(ws.skip(1), ws[0].id));
                            let k = choose|k: int| 0 <= k < ws.skip(1).len() && ws.skip(1)[k].id == ws[0].id;
                            assert(ws[k + 1].id == ws[0].id);
                            assert(false);
                        }
                    } else {
                        assert(whole[i] == rest[i - 1]);
                        assert(whole[j] == rest[j - 1]);
                    }
                }
                if contains_id(whole, id) {
                    let k = choose|k: int| 0 <= k < whole.len() && whole[k].id == id;
                    assert(k > 0);
                    assert(rest[k - 1].id == id);
                    assert(contains_id(rest, id));
                    assert(false);
                }
            }
        }
    }
}

/// Remove the first entry carrying `id` from the vector; hands it back when
/// one was there.
pub fn remove_entry(windows: &mut Vec<WindowState>, id: u64) -> (r: Option<WindowState>)
    ensures
        final(windows)@ == remove_id(old(windows)@, id),
        match r {
            Some(e) => contains_id(old(windows)@, id) && e == entry_for(old(windows)@, id),
            None => !contains_id(old(windows)@, id),
        },
{
    match find_index(windows, id) {
        Some(i) => {
            let e = windows.remove(i);
            proof {
                lemma_remove_id_at(old(windows)@, id, i as int);
            }
            Some(e)
        },
        None => {
            proof {
                lemma_remove_id_wf(old(windows)@, id);
            }
            None
        },
    }
}

} // verus!
