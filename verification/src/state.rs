//! The compositor's window stack: which toplevels are open, in which order
//! they are stacked, which one has the keyboard focus and which surface is
//! under the pointer.
use vstd::prelude::*;

use crate::client::Client;
use crate::point::Point;
use std::collections::HashMap;

verus! {

broadcast use {vstd::seq_lib::group_filter_ensures, vstd::std_specs::hash::group_hash_axioms};

/// A toplevel window: the file descriptor of the client's connection and the
/// object id of its `xdg_toplevel`.
#[derive(Clone, Copy, PartialEq, Eq, Structural, Debug)]
pub struct Window {
    pub fd: i32,
    pub toplevel: u32,
}

/// The window of client `fd` whose toplevel is `id`.
pub open spec fn win(fd: i32, id: u32) -> Window {
    Window { fd, toplevel: id }
}

/// A change to the window stack, queued while a client request is handled and
/// applied by [`CompositorState::process_focus_changes`].
#[derive(Clone, Copy, PartialEq, Eq, Structural, Debug)]
pub enum Change {
    /// A new toplevel goes on top of the stack and takes the focus.
    Push(i32, u32),
    /// A toplevel is gone.
    RemoveToplevel(i32, u32),
    /// A surface is gone.
    RemoveSurface(i32, u32),
    /// A client is gone, with all of its windows.
    RemoveClient(i32),
    /// A toplevel takes the focus.
    Pick(i32, u32),
    /// A toplevel moves one place down the stack.
    MoveDown(i32, u32),
    /// A toplevel moves one place up the stack.
    MoveUp(i32, u32),
}

/// The surface that the pointer is over, and where in it.
#[derive(Clone, Copy, PartialEq, Eq, Structural, Debug)]
pub struct PointerOver {
    pub fd: i32,
    pub toplevel: u32,
    pub surface: u32,
    pub position: Point,
}

/// The part of the compositor state that the stack operations act on.
#[verifier::ext_equal]
pub struct StackView {
    pub windows: Seq<Window>,
    pub focused: Option<Window>,
    pub pointer_over: Option<PointerOver>,
}

/// The focused window if it is still on the stack.
pub open spec fn alive_focus(windows: Seq<Window>, focused: Option<Window>) -> Option<Window> {
    match focused {
        Some(f) => if windows.contains(f) {
            Some(f)
        } else {
            None
        },
        None => None,
    }
}

/// After a removal: the focus stays where it was if that window is still on
/// the stack, else it goes to the top of the stack, if there is one.
pub open spec fn refocus(windows: Seq<Window>, focused: Option<Window>) -> Option<Window> {
    if alive_focus(windows, focused) is None {
        if windows.len() > 0 {
            Some(windows[0])
        } else {
            None
        }
    } else {
        focused
    }
}

/// `s` with the entries at `i` and `j` exchanged.
pub open spec fn swap_at<A>(s: Seq<A>, i: int, j: int) -> Seq<A> {
    s.update(i, s[j]).update(j, s[i])
}

/// Holds of every window but `w`.
pub open spec fn other_window(w: Window) -> spec_fn(Window) -> bool {
    |x: Window| x != w
}

/// Holds of the windows that do not belong to the client `fd`.
pub open spec fn other_client(fd: i32) -> spec_fn(Window) -> bool {
    |x: Window| x.fd != fd
}

/// The windows that are not `w`, in stack order.
pub open spec fn without_window(s: Seq<Window>, w: Window) -> Seq<Window> {
    s.filter(other_window(w))
}

/// The windows that do not belong to the client `fd`, in stack order.
pub open spec fn without_client(s: Seq<Window>, fd: i32) -> Seq<Window> {
    s.filter(other_client(fd))
}

/// What one change does to the stack.
pub open spec fn step(v: StackView, c: Change) -> StackView {
    match c {
        Change::Push(fd, id) => StackView {
            windows: v.windows.insert(0, win(fd, id)),
            focused: Some(win(fd, id)),
            pointer_over: v.pointer_over,
        },
        Change::RemoveToplevel(fd, id) => {
            let ws = without_window(v.windows, win(fd, id));
            StackView {
                windows: ws,
                focused: refocus(ws, v.focused),
                pointer_over: match v.pointer_over {
                    Some(po) => if po.fd == fd && po.toplevel == id {
                        None
                    } else {
                        v.pointer_over
                    },
                    None => None,
                },
            }
        },
        Change::RemoveSurface(fd, id) => StackView {
            windows: v.windows,
            focused: v.focused,
            pointer_over: match v.pointer_over {
                Some(po) => if po.fd == fd && po.surface == id {
                    None
                } else {
                    v.pointer_over
                },
                None => None,
            },
        },
        Change::RemoveClient(fd) => {
            let ws = without_client(v.windows, fd);
            StackView {
                windows: ws,
                focused: refocus(ws, v.focused),
                pointer_over: match v.pointer_over {
                    Some(po) => if po.fd == fd {
                        None
                    } else {
                        v.pointer_over
                    },
                    None => None,
                },
            }
        },
        Change::Pick(fd, id) => StackView {
            windows: v.windows,
            focused: if v.windows.contains(win(fd, id)) {
                Some(win(fd, id))
            } else {
                None
            },
            pointer_over: v.pointer_over,
        },
        Change::MoveDown(fd, id) => match v.windows.index_of_first(win(fd, id)) {
            Some(i) => if i < v.windows.len() - 1 {
                StackView {
                    windows: swap_at(v.windows, i, i + 1),
                    focused: v.focused,
                    pointer_over: v.pointer_over,
                }
            } else {
                v
            },
            None => v,
        },
        Change::MoveUp(fd, id) => match v.windows.index_of_first(win(fd, id)) {
            Some(i) => if i > 0 {
                StackView {
                    windows: swap_at(v.windows, i, i - 1),
                    focused: v.focused,
                    pointer_over: v.pointer_over,
                }
            } else {
                v
            },
            None => v,
        },
    }
}

/// Whether a change moves the focus on purpose (a new window or a pick).
pub open spec fn takes_focus(c: Change) -> bool {
    match c {
        Change::Push(..) => true,
        Change::Pick(..) => true,
        _ => false,
    }
}

/// A pick names a window that is on the stack.
pub open spec fn change_allowed(v: StackView, c: Change) -> bool {
    match c {
        Change::Pick(fd, id) => v.windows.contains(win(fd, id)),
        _ => true,
    }
}

/// The stack after a sequence of changes, applied in order.
pub open spec fn run(v: StackView, cs: Seq<Change>) -> StackView
    decreases cs.len(),
{
    if cs.len() == 0 {
        v
    } else {
        step(run(v, cs.drop_last()), cs.last())
    }
}

/// Every change of the sequence is allowed on the stack it meets.
pub open spec fn run_allowed(v: StackView, cs: Seq<Change>) -> bool
    decreases cs.len(),
{
    if cs.len() == 0 {
        true
    } else {
        run_allowed(v, cs.drop_last()) && change_allowed(run(v, cs.drop_last()), cs.last())
    }
}

/// The stack invariant: the focus and the pointer name windows on the stack,
/// and a non-empty stack has a focused window.
pub open spec fn stack_wf(v: StackView) -> bool {
    &&& (v.focused matches Some(f) ==> v.windows.contains(f))
    &&& (v.windows.len() > 0 ==> v.focused is Some)
    &&& (v.pointer_over matches Some(po) ==> v.windows.contains(win(po.fd, po.toplevel)))
}

/// The first place at which `w` stands in `windows`.
fn find_window(windows: &Vec<Window>, w: Window) -> (r: Option<usize>)
    ensures
        match r {
            Some(i) => windows@.index_of_first(w) == Some(i as int),
            None => windows@.index_of_first(w) is None,
        },
{
    proof {
        windows@.index_of_first_ensures(w);
    }
    let mut i: usize = 0;
    while i < windows.len()
        invariant
            i <= windows.len(),
            forall|k: int| 0 <= k < i ==> windows@[k] != w,
        decreases windows.len() - i,
    {
        if windows[i] == w {
            proof {
                assert(windows@[i as int] == w);
                assert(windows@.contains(w));
                windows@.index_of_first_ensures(w);
                let j = windows@.index_of_first(w)->0;
                if j < i {
                    assert(windows@[j] != w);
                }
                if j > i {
                    assert(windows@[i as int] != w);
                }
            }
            return Some(i);
        }
        i = i + 1;
    }
    proof {
        windows@.index_of_first_ensures(w);
    }
    None
}

/// The windows of `windows` for which `keep` holds, in order.
fn retain_windows(windows: &Vec<Window>, drop_window: Option<Window>, drop_client: i32) -> (r: Vec<Window>)
    ensures
        match drop_window {
            Some(w) => r@ == without_window(windows@, w),
            None => r@ == without_client(windows@, drop_client),
        },
{
    let ghost pred = match drop_window {
        Some(w) => other_window(w),
        None => other_client(drop_client),
    };
    let mut r: Vec<Window> = Vec::new();
    let mut i: usize = 0;
    while i < windows.len()
        invariant
            i <= windows.len(),
            pred == (match drop_window {
                Some(w) => other_window(w),
                None => other_client(drop_client),
            }),
            r@ == windows@.take(i as int).filter(pred),
        decreases windows.len() - i,
    {
        let x = windows[i];
        let keep = match drop_window {
            Some(w) => x != w,
            None => x.fd != drop_client,
        };
        proof {
            reveal(Seq::filter);
            assert(windows@.take(i + 1).drop_last() =~= windows@.take(i as int));
            assert(windows@.take(i + 1).last() == x);
        }
        if keep {
            r.push(x);
        }
        i = i + 1;
    }
    proof {
        assert(windows@.take(windows.len() as int) =~= windows@);
    }
    r
}

/// Every prefix of an allowed sequence of changes is allowed.
pub proof fn lemma_run_allowed_prefix(v: StackView, cs: Seq<Change>, k: int)
    requires
        run_allowed(v, cs),
        0 <= k <= cs.len(),
    ensures
        run_allowed(v, cs.take(k)),
    decreases cs.len(),
{
    if k == cs.len() {
        assert(cs.take(k) =~= cs);
    } else {
        assert(cs.drop_last().take(k) =~= cs.take(k));
        lemma_run_allowed_prefix(v, cs.drop_last(), k);
    }
}

/// An element kept by a filter is still contained after it.
proof fn lemma_filter_keeps(s: Seq<Window>, pred: spec_fn(Window) -> bool, x: Window)
    requires
        s.contains(x),
        pred(x),
    ensures
        s.filter(pred).contains(x),
{
    let i = choose|i: int| 0 <= i < s.len() && s[i] == x;
    s.lemma_filter_contains(pred, i);
}

/// Exchanging two entries keeps every element in the sequence.
proof fn lemma_swap_keeps(s: Seq<Window>, i: int, j: int, x: Window)
    requires
        0 <= i < s.len(),
        0 <= j < s.len(),
        s.contains(x),
    ensures
        swap_at(s, i, j).contains(x),
{
    let k = choose|k: int| 0 <= k < s.len() && s[k] == x;
    let t = swap_at(s, i, j);
    if k == i {
        assert(t[j] == x);
    } else if k == j {
        assert(t[i] == x);
    } else {
        assert(t[k] == x);
    }
}

/// Inserting an entry keeps every element in the sequence.
proof fn lemma_insert_keeps(s: Seq<Window>, w: Window, x: Window)
    requires
        s.contains(x),
    ensures
        s.insert(0, w).contains(x),
{
    let k = choose|k: int| 0 <= k < s.len() && s[k] == x;
    assert(s.insert(0, w)[k + 1] == x);
}

/// Every change that is allowed keeps the stack invariant: the focus and the
/// pointer name windows on the stack, and a non-empty stack has a focus.
pub proof fn lemma_step_keeps_wf(v: StackView, c: Change)
    requires
        stack_wf(v),
        change_allowed(v, c),
    ensures
        stack_wf(step(v, c)),
{
    let n = step(v, c);
    match c {
        Change::Push(fd, id) => {
            assert(n.windows[0] == win(fd, id));
            if let Some(po) = v.pointer_over {
                lemma_insert_keeps(v.windows, win(fd, id), win(po.fd, po.toplevel));
            }
        },
        Change::RemoveToplevel(fd, id) => {
            let ws = without_window(v.windows, win(fd, id));
            if ws.len() > 0 {
                assert(ws.contains(ws[0]));
            }
            if let Some(po) = n.pointer_over {
                lemma_filter_keeps(v.windows, other_window(win(fd, id)), win(po.fd, po.toplevel));
            }
        },
        Change::RemoveClient(fd) => {
            let ws = without_client(v.windows, fd);
            if ws.len() > 0 {
                assert(ws.contains(ws[0]));
            }
            if let Some(po) = n.pointer_over {
                lemma_filter_keeps(v.windows, other_client(fd), win(po.fd, po.toplevel));
            }
        },
        Change::MoveDown(fd, id) => {
            v.windows.index_of_first_ensures(win(fd, id));
            if let Some(i) = v.windows.index_of_first(win(fd, id)) {
                if i < v.windows.len() - 1 {
                    if let Some(f) = v.focused {
                        lemma_swap_keeps(v.windows, i, i + 1, f);
                    }
                    if let Some(po) = v.pointer_over {
                        lemma_swap_keeps(v.windows, i, i + 1, win(po.fd, po.toplevel));
                    }
                }
            }
        },
        Change::MoveUp(fd, id) => {
            v.windows.index_of_first_ensures(win(fd, id));
            if let Some(i) = v.windows.index_of_first(win(fd, id)) {
                if i > 0 {
                    if let Some(f) = v.focused {
                        lemma_swap_keeps(v.windows, i, i - 1, f);
                    }
                    if let Some(po) = v.pointer_over {
                        lemma_swap_keeps(v.windows, i, i - 1, win(po.fd, po.toplevel));
                    }
                }
            }
        },
        _ => {},
    }
}

/// The focus invariant alone: the focus names a window on the stack, and a
/// non-empty stack has a focus.
pub open spec fn focus_wf(v: StackView) -> bool {
    &&& (v.focused matches Some(f) ==> v.windows.contains(f))
    &&& (v.windows.len() > 0 ==> v.focused is Some)
}

/// Every allowed change keeps the focus invariant, whatever the pointer.
pub proof fn lemma_step_keeps_focus_wf(v: StackView, c: Change)
    requires
        focus_wf(v),
        change_allowed(v, c),
    ensures
        focus_wf(step(v, c)),
{
    let n = step(v, c);
    match c {
        Change::Push(fd, id) => {
            assert(n.windows[0] == win(fd, id));
        },
        Change::RemoveToplevel(fd, id) => {
            let ws = without_window(v.windows, win(fd, id));
            if ws.len() > 0 {
                assert(ws.contains(ws[0]));
            }
        },
        Change::RemoveClient(fd) => {
            let ws = without_client(v.windows, fd);
            if ws.len() > 0 {
                assert(ws.contains(ws[0]));
            }
        },
        Change::MoveDown(fd, id) => {
            v.windows.index_of_first_ensures(win(fd, id));
            if let Some(i) = v.windows.index_of_first(win(fd, id)) {
                if i < v.windows.len() - 1 {
                    if let Some(f) = v.focused {
                        lemma_swap_keeps(v.windows, i, i + 1, f);
                    }
                }
            }
        },
        Change::MoveUp(fd, id) => {
            v.windows.index_of_first_ensures(win(fd, id));
            if let Some(i) = v.windows.index_of_first(win(fd, id)) {
                if i > 0 {
                    if let Some(f) = v.focused {
                        lemma_swap_keeps(v.windows, i, i - 1, f);
                    }
                }
            }
        },
        _ => {},
    }
}

/// Applying an allowed sequence of changes keeps the focus invariant,
/// whatever the pointer.
pub proof fn lemma_run_keeps_focus_wf(v: StackView, cs: Seq<Change>)
    requires
        focus_wf(v),
        run_allowed(v, cs),
    ensures
        focus_wf(run(v, cs)),
    decreases cs.len(),
{
    if cs.len() > 0 {
        lemma_run_keeps_focus_wf(v, cs.drop_last());
        lemma_step_keeps_focus_wf(run(v, cs.drop_last()), cs.last());
    }
}

/// Applying an allowed sequence of changes keeps the stack invariant.
pub proof fn lemma_run_keeps_wf(v: StackView, cs: Seq<Change>)
    requires
        stack_wf(v),
        run_allowed(v, cs),
    ensures
        stack_wf(run(v, cs)),
    decreases cs.len(),
{
    if cs.len() > 0 {
        lemma_run_keeps_wf(v, cs.drop_last());
        lemma_step_keeps_wf(run(v, cs.drop_last()), cs.last());
    }
}

/// After a window is removed it is no longer on the stack, and every other
/// window keeps its place relative to the rest.
pub proof fn lemma_remove_toplevel_removes(v: StackView, fd: i32, id: u32)
    ensures
        !step(v, Change::RemoveToplevel(fd, id)).windows.contains(win(fd, id)),
        step(v, Change::RemoveToplevel(fd, id)).windows == without_window(v.windows, win(fd, id)),
{
    let ws = step(v, Change::RemoveToplevel(fd, id)).windows;
    if ws.contains(win(fd, id)) {
        let k = choose|k: int| 0 <= k < ws.len() && ws[k] == win(fd, id);
        v.windows.lemma_filter_pred(other_window(win(fd, id)), k);
    }
}

/// After a client is removed none of its windows is on the stack, nor is the
/// pointer over one of its surfaces.
pub proof fn lemma_remove_client_removes(v: StackView, fd: i32, w: Window)
    requires
        w.fd == fd,
    ensures
        !step(v, Change::RemoveClient(fd)).windows.contains(w),
        !(step(v, Change::RemoveClient(fd)).pointer_over matches Some(po) && po.fd == fd),
{
    let ws = step(v, Change::RemoveClient(fd)).windows;
    if ws.contains(w) {
        let k = choose|k: int| 0 <= k < ws.len() && ws[k] == w;
        v.windows.lemma_filter_pred(other_client(fd), k);
    }
}

/// A filter that keeps every element changes nothing.
proof fn lemma_filter_all(s: Seq<Window>, pred: spec_fn(Window) -> bool)
    requires
        forall|i: int| 0 <= i < s.len() ==> pred(#[trigger] s[i]),
    ensures
        s.filter(pred) == s,
    decreases s.len(),
{
    reveal(Seq::filter);
    if s.len() > 0 {
        lemma_filter_all(s.drop_last(), pred);
        assert(s.drop_last().push(s.last()) =~= s);
    }
}

/// Filtering a one-element sequence with a predicate that rejects its element.
proof fn lemma_filter_single_rejected(w: Window)
    ensures
        seq![w].filter(other_window(w)) == Seq::<Window>::empty(),
{
    reveal_with_fuel(Seq::filter, 2);
    assert(seq![w].drop_last() =~= Seq::<Window>::empty());
    assert(!other_window(w)(seq![w].last()));
    assert(seq![w].filter(other_window(w)) =~= Seq::<Window>::empty());
}

/// Pushing a new window and removing it again leaves the stack as it was.
pub proof fn lemma_push_then_remove(v: StackView, fd: i32, id: u32)
    requires
        !v.windows.contains(win(fd, id)),
    ensures
        step(step(v, Change::Push(fd, id)), Change::RemoveToplevel(fd, id)).windows == v.windows,
{
    let w = win(fd, id);
    let pushed = v.windows.insert(0, w);
    assert(pushed =~= seq![w] + v.windows);
    assert forall|i: int| 0 <= i < v.windows.len() implies other_window(w)(#[trigger] v.windows[i]) by {
        if v.windows[i] == w {
            assert(v.windows.contains(w));
        }
    }
    lemma_filter_all(v.windows, other_window(w));
    Seq::filter_distributes_over_add(seq![w], v.windows, other_window(w));
    lemma_filter_single_rejected(w);
    assert(pushed.filter(other_window(w)) =~= v.windows);
}

/// Moving a window down and then up again restores the stack, when the window
/// occurs once and is not already at the bottom.
pub proof fn lemma_move_down_then_up(v: StackView, fd: i32, id: u32)
    requires
        v.windows.contains(win(fd, id)),
        v.windows.no_duplicates(),
        v.windows.last() != win(fd, id),
    ensures
        step(step(v, Change::MoveDown(fd, id)), Change::MoveUp(fd, id)).windows == v.windows,
{
    let w = win(fd, id);
    v.windows.index_of_first_ensures(w);
    let i = v.windows.index_of_first(w)->0;
    let d = step(v, Change::MoveDown(fd, id));
    assert(i < v.windows.len() - 1);
    assert(d.windows == swap_at(v.windows, i, i + 1));
    d.windows.index_of_first_ensures(w);
    assert(d.windows[i + 1] == w);
    assert(d.windows.contains(w));
    let j = d.windows.index_of_first(w)->0;
    if j < i + 1 {
        if j == i {
            assert(v.windows[i + 1] == w);
        } else {
            assert(v.windows[j] == w);
        }
    }
    assert(j == i + 1);
    assert(swap_at(d.windows, i + 1, i) =~= v.windows);
}

/// Moving a window up or down keeps the same windows on the stack, each as
/// often as before, and does not move the focus.
pub proof fn lemma_move_is_permutation(v: StackView, c: Change)
    requires
        c is MoveDown || c is MoveUp,
    ensures
        step(v, c).windows.to_multiset() == v.windows.to_multiset(),
        step(v, c).focused == v.focused,
{
    broadcast use vstd::seq_lib::group_to_multiset_ensures;
    broadcast use vstd::multiset::group_multiset_axioms;
    match c {
        Change::MoveDown(fd, id) => {
            v.windows.index_of_first_ensures(win(fd, id));
            if let Some(i) = v.windows.index_of_first(win(fd, id)) {
                if i < v.windows.len() - 1 {
                    lemma_swap_multiset(v.windows, i, i + 1);
                }
            }
        },
        Change::MoveUp(fd, id) => {
            v.windows.index_of_first_ensures(win(fd, id));
            if let Some(i) = v.windows.index_of_first(win(fd, id)) {
                if i > 0 {
                    lemma_swap_multiset(v.windows, i, i - 1);
                }
            }
        },
        _ => {},
    }
}

/// Exchanging two entries keeps the multiset of a sequence.
proof fn lemma_swap_multiset(s: Seq<Window>, i: int, j: int)
    requires
        0 <= i < s.len(),
        0 <= j < s.len(),
    ensures
        swap_at(s, i, j).to_multiset() == s.to_multiset(),
{
    broadcast use vstd::seq_lib::group_to_multiset_ensures;
    broadcast use vstd::multiset::group_multiset_axioms;
    let t = s.update(i, s[j]);
    assert(t.to_multiset() =~= s.to_multiset().remove(s[i]).insert(s[j]));
    assert(swap_at(s, i, j).to_multiset() =~= t.to_multiset().remove(t[j]).insert(s[i]));
    if i == j {
        assert(swap_at(s, i, j) =~= s);
    } else {
        assert(t[j] == s[j]);
    }
}

/// The gap left around each tile, in pixels.
pub const GAP: i32 = 0;

/// The tile of window `index` out of `amount` on a `width` by `height` screen:
/// a single window fills the screen; otherwise the first window fills the left
/// half and the others are stacked in the right half, each `frac` pixels high.
pub open spec fn slot_spec(index: int, amount: int, width: int, height: int, frac: int) -> (
    Point,
    Point,
) {
    if amount == 1 {
        (Point(GAP, GAP), Point((width - GAP * 2) as i32, (height - GAP * 2) as i32))
    } else if index == 0 {
        (Point(GAP, GAP), Point((width / 2 - GAP * 2) as i32, (height - GAP * 2) as i32))
    } else {
        (
            Point((width / 2 + GAP) as i32, (frac * (index - 1) + GAP) as i32),
            Point((width / 2 - GAP * 2) as i32, (frac - GAP * 2) as i32),
        )
    }
}

/// How a window takes part in a focus update.
#[derive(Clone, Copy, PartialEq, Eq, Structural, Debug)]
pub enum FocusRole {
    /// The window loses the keyboard focus.
    Leave,
    /// The window gains the keyboard focus.
    Enter,
    /// The window only gets its new size and position.
    Configure,
}

/// The role of window `w` when the focus moves from `old` to `current`.
pub open spec fn role_spec(
    w: Window,
    old: Option<Window>,
    current: Option<Window>,
    should_leave_from_old: bool,
) -> FocusRole {
    if should_leave_from_old && old == Some(w) {
        FocusRole::Leave
    } else if current == Some(w) {
        FocusRole::Enter
    } else {
        FocusRole::Configure
    }
}

/// Where a window goes and what it is told.
#[derive(Clone, Copy, PartialEq, Eq, Structural, Debug)]
pub struct Placement {
    pub window: Window,
    pub position: Point,
    pub size: Point,
    pub role: FocusRole,
}

/// What a key press asks of the compositor.
#[derive(Clone, Copy, PartialEq, Eq, Structural, Debug)]
pub enum KeyAction {
    /// Leave the compositor.
    Quit,
    /// Start a terminal.
    SpawnTerminal,
    /// Ask the window to close.
    Close(Window),
    /// A change was queued: process the changes.
    Refocus,
    /// Hand the key to the client with this connection.
    Forward(i32),
    /// Nothing to do.
    Ignore,
}

/// The action that a key event asks for, and the change it queues, if any.
/// `depressed` is the serialized set of depressed modifiers: bit 6 is the
/// logo key, bit 0 is shift.
pub open spec fn key_action_spec(
    windows: Seq<Window>,
    focused: Option<Window>,
    depressed: u32,
    code: u32,
    input_state: u32,
) -> (KeyAction, Option<Change>) {
    let focus = alive_focus(windows, focused);
    let pressed = input_state == 1;
    if depressed & 64 != 0 {
        if code == 1 && pressed {
            (KeyAction::Quit, None)
        } else if code == 20 && pressed {
            (KeyAction::SpawnTerminal, None)
        } else if code == 46 && pressed {
            match focus {
                Some(w) => (KeyAction::Close(w), None),
                None => (KeyAction::Ignore, None),
            }
        } else if depressed & 1 != 0 && code == 36 && pressed {
            match focus {
                Some(w) => (KeyAction::Refocus, Some(Change::MoveDown(w.fd, w.toplevel))),
                None => (KeyAction::Ignore, None),
            }
        } else if depressed & 1 != 0 && code == 37 && pressed {
            match focus {
                Some(w) => (KeyAction::Refocus, Some(Change::MoveUp(w.fd, w.toplevel))),
                None => (KeyAction::Ignore, None),
            }
        } else if code == 36 && pressed {
            match focus {
                Some(w) => match windows.index_of_first(w) {
                    Some(i) => if i >= windows.len() - 1 {
                        (KeyAction::Ignore, None)
                    } else {
                        (
                            KeyAction::Refocus,
                            Some(Change::Pick(windows[i + 1].fd, windows[i + 1].toplevel)),
                        )
                    },
                    None => (KeyAction::Ignore, None),
                },
                None => (KeyAction::Ignore, None),
            }
        } else if code == 37 && pressed {
            match focus {
                Some(w) => match windows.index_of_first(w) {
                    Some(i) => if i == 0 {
                        (KeyAction::Ignore, None)
                    } else {
                        (
                            KeyAction::Refocus,
                            Some(Change::Pick(windows[i - 1].fd, windows[i - 1].toplevel)),
                        )
                    },
                    None => (KeyAction::Ignore, None),
                },
                None => (KeyAction::Ignore, None),
            }
        } else {
            (KeyAction::Ignore, None)
        }
    } else {
        match focus {
            Some(w) => (KeyAction::Forward(w.fd), None),
            None => (KeyAction::Ignore, None),
        }
    }
}

/// The products `frac * k` for `k` up to `n` are in range once the largest is.
proof fn lemma_frac_fits(frac: int, k: int, n: int)
    requires
        0 <= k <= n,
        crate::point::fits_i32(frac * n),
    ensures
        crate::point::fits_i32(frac * k),
{
    if frac >= 0 {
        assert(0 <= frac * k <= frac * n) by (nonlinear_arith)
            requires
                frac >= 0,
                0 <= k <= n,
        ;
    } else {
        assert(frac * n <= frac * k <= 0) by (nonlinear_arith)
            requires
                frac < 0,
                0 <= k <= n,
        ;
    }
}

/// The tile of window `index` out of `amount` on a `width` by `height` screen,
/// given the height `frac` of each tile of the right-hand column.
pub fn window_slot(index: u32, amount: u32, width: u16, height: u16, frac: i32) -> (r: (
    Point,
    Point,
))
    requires
        amount > 0,
        index <= i32::MAX,
        amount > 1 && index > 0 ==> crate::point::fits_i32(frac * (index - 1)),
    ensures
        r == slot_spec(index as int, amount as int, width as int, height as int, frac as int),
{
    let width = width as i32;
    let height = height as i32;
    if amount == 1 {
        (Point(0 + GAP, 0 + GAP), Point(width - GAP * 2, height - GAP * 2))
    } else if index == 0 {
        (Point(0 + GAP, 0 + GAP), Point(width / 2 - GAP * 2, height - GAP * 2))
    } else {
        (
            Point(width / 2 + GAP, frac * (index as i32 - 1) + GAP),
            Point(width / 2 - GAP * 2, frac - GAP * 2),
        )
    }
}

/// Two rectangles, each given by its corner and size, share no point.
pub open spec fn disjoint(a: (Point, Point), b: (Point, Point)) -> bool {
    ||| a.0.0 + a.1.0 <= b.0.0
    ||| b.0.0 + b.1.0 <= a.0.0
    ||| a.0.1 + a.1.1 <= b.0.1
    ||| b.0.1 + b.1.1 <= a.0.1
}

/// A rectangle lies within a `width` by `height` screen.
pub open spec fn on_screen(a: (Point, Point), width: int, height: int) -> bool {
    &&& 0 <= a.0.0
    &&& 0 <= a.0.1
    &&& a.1.0 >= 0
    &&& a.1.1 >= 0
    &&& a.0.0 + a.1.0 <= width
    &&& a.0.1 + a.1.1 <= height
}

/// Every tile lies on the screen, as long as the tiles of the right-hand
/// column fit in the screen's height.
pub proof fn lemma_tile_on_screen(index: int, amount: int, width: u16, height: u16, frac: int)
    requires
        0 <= index < amount,
        amount >= 2 ==> 0 <= frac && frac * (amount - 1) <= height,
    ensures
        on_screen(slot_spec(index, amount, width as int, height as int, frac), width as int, height as int),
{
    if amount >= 2 && index >= 1 {
        assert(0 <= frac * (index - 1) && frac * (index - 1) + frac <= frac * (amount - 1)) by (nonlinear_arith)
            requires
                0 <= frac,
                1 <= index < amount,
        ;
    }
}

/// No two windows' tiles overlap, as long as the tiles of the right-hand
/// column fit in the screen's height.
pub proof fn lemma_tiles_disjoint(i: int, j: int, amount: int, width: u16, height: u16, frac: int)
    requires
        0 <= i < j < amount,
        0 <= frac,
        frac * (amount - 1) <= height,
    ensures
        disjoint(
            slot_spec(i, amount, width as int, height as int, frac),
            slot_spec(j, amount, width as int, height as int, frac),
        ),
{
    if i >= 1 {
        assert(0 <= frac * (i - 1) && frac * (i - 1) + frac <= frac * (j - 1) && frac * (j - 1) + frac <= frac * (amount - 1)) by (nonlinear_arith)
            requires
                0 <= frac,
                1 <= i < j < amount,
        ;
    } else {
        assert(0 <= frac * (j - 1) && frac * (j - 1) + frac <= frac * (amount - 1)) by (nonlinear_arith)
            requires
                0 <= frac,
                1 <= j < amount,
        ;
    }
}

/// A change that a key press queues names a window on the stack, so that
/// processing it on the current stack cannot fail.
pub proof fn lemma_key_change_allowed(
    windows: Seq<Window>,
    focused: Option<Window>,
    pointer_over: Option<PointerOver>,
    depressed: u32,
    code: u32,
    input_state: u32,
)
    ensures
        key_action_spec(windows, focused, depressed, code, input_state).1 matches Some(c)
            ==> change_allowed(StackView { windows, focused, pointer_over }, c),
{
    if let Some(w) = alive_focus(windows, focused) {
        windows.index_of_first_ensures(w);
        if let Some(i) = windows.index_of_first(w) {
            if i + 1 < windows.len() {
                assert(windows.contains(windows[i + 1]));
            }
            if i > 0 {
                assert(windows.contains(windows[i - 1]));
            }
        }
    }
}

/// A key release (or repeat) never changes the stack: it queues nothing and
/// is only handed to the focused client, unless the logo key is held.
pub proof fn lemma_key_release_does_nothing(
    windows: Seq<Window>,
    focused: Option<Window>,
    depressed: u32,
    code: u32,
    input_state: u32,
)
    requires
        input_state != 1,
    ensures
        key_action_spec(windows, focused, depressed, code, input_state).1 is None,
        key_action_spec(windows, focused, depressed, code, input_state).0 == match alive_focus(
            windows,
            focused,
        ) {
            Some(w) => if depressed & 64 == 0 {
                KeyAction::Forward(w.fd)
            } else {
                KeyAction::Ignore
            },
            None => KeyAction::Ignore,
        },
{
}

/// With the logo key held and shift not, pressing J focuses the window below
/// the focused one and pressing K the one above, without moving any window;
/// at the bottom (for J) or the top (for K) the key does nothing.
pub proof fn lemma_logo_j_k_move_focus(
    windows: Seq<Window>,
    i: int,
    depressed: u32,
    pointer_over: Option<PointerOver>,
)
    requires
        0 <= i < windows.len(),
        forall|j: int| 0 <= j < i ==> windows[j] != windows[i],
        depressed & 64 != 0,
        depressed & 1 == 0,
    ensures
        ({
            let f = Some(windows[i]);
            let v = StackView { windows, focused: f, pointer_over };
            let j = key_action_spec(windows, f, depressed, 36, 1);
            let k = key_action_spec(windows, f, depressed, 37, 1);
            &&& if i + 1 < windows.len() {
                &&& j.0 == KeyAction::Refocus
                &&& j.1 matches Some(c) && step(v, c).windows == windows && alive_focus(
                    step(v, c).windows,
                    step(v, c).focused,
                ) == Some(windows[i + 1])
            } else {
                j == (KeyAction::Ignore, Option::<Change>::None)
            }
            &&& if i > 0 {
                &&& k.0 == KeyAction::Refocus
                &&& k.1 matches Some(c) && step(v, c).windows == windows && alive_focus(
                    step(v, c).windows,
                    step(v, c).focused,
                ) == Some(windows[i - 1])
            } else {
                k == (KeyAction::Ignore, Option::<Change>::None)
            }
        }),
{
    let w = windows[i];
    assert(windows.contains(w));
    windows.index_of_first_ensures(w);
    let n = windows.index_of_first(w)->0;
    if n < i {
        assert(windows[n] != w);
    }
    assert(windows.index_of_first(w) == Some(i));
    if i + 1 < windows.len() {
        assert(windows.contains(windows[i + 1]));
    }
    if i > 0 {
        assert(windows.contains(windows[i - 1]));
    }
}

/// With the logo and shift keys held, pressing J swaps the focused window
/// with the one below it and K with the one above it; every other window
/// stays where it was and the focus stays on the moved window.
pub proof fn lemma_logo_shift_j_k_move_window(
    windows: Seq<Window>,
    i: int,
    depressed: u32,
    pointer_over: Option<PointerOver>,
)
    requires
        0 <= i < windows.len(),
        forall|j: int| 0 <= j < i ==> windows[j] != windows[i],
        depressed & 64 != 0,
        depressed & 1 != 0,
    ensures
        ({
            let w = windows[i];
            let f = Some(w);
            let v = StackView { windows, focused: f, pointer_over };
            let j = key_action_spec(windows, f, depressed, 36, 1);
            let k = key_action_spec(windows, f, depressed, 37, 1);
            &&& j.0 == KeyAction::Refocus
            &&& k.0 == KeyAction::Refocus
            &&& j.1 matches Some(c) && {
                let a = step(v, c);
                &&& a.windows.len() == windows.len()
                &&& alive_focus(a.windows, a.focused) == Some(w)
                &&& if i + 1 < windows.len() {
                    &&& a.windows[i] == windows[i + 1]
                    &&& a.windows[i + 1] == w
                    &&& forall|m: int|
                        0 <= m < windows.len() && m != i && m != i + 1 ==> a.windows[m]
                            == windows[m]
                } else {
                    a.windows == windows
                }
            }
            &&& k.1 matches Some(c) && {
                let a = step(v, c);
                &&& a.windows.len() == windows.len()
                &&& alive_focus(a.windows, a.focused) == Some(w)
                &&& if i > 0 {
                    &&& a.windows[i] == windows[i - 1]
                    &&& a.windows[i - 1] == w
                    &&& forall|m: int|
                        0 <= m < windows.len() && m != i && m != i - 1 ==> a.windows[m]
                            == windows[m]
                } else {
                    a.windows == windows
                }
            }
        }),
{
    let w = windows[i];
    assert(windows.contains(w));
    windows.index_of_first_ensures(w);
    let n = windows.index_of_first(w)->0;
    if n < i {
        assert(windows[n] != w);
    }
    assert(windows.index_of_first(w) == Some(i));
    if i + 1 < windows.len() {
        let a = swap_at(windows, i, i + 1);
        assert(a[i + 1] == w);
        assert(a.contains(w));
    }
    if i > 0 {
        let a = swap_at(windows, i, i - 1);
        assert(a[i - 1] == w);
        assert(a.contains(w));
    }
}

/// In a focus update, each window of the new stack is placed in order, and
/// its role follows the focus: the old focus, when the first change took
/// the focus, is left; otherwise the window that holds the focus now is
/// entered; every other window is only configured.
pub proof fn lemma_focus_roles(
    v: StackView,
    cs: Seq<Change>,
    width: u16,
    height: u16,
    row_heights: Seq<i32>,
    table: Seq<(Window, crate::pointer::WindowSurfaces)>,
    cursor: Point,
    u: FocusUpdate,
)
    requires
        focus_update_spec(v, cs, width, height, row_heights, table, cursor, u),
        cs.len() > 0,
    ensures
        u.placements@.len() == run(v, cs).windows.len(),
        forall|i: int|
            #![trigger u.placements@[i]]
            0 <= i < u.placements@.len() ==> {
                let p = u.placements@[i];
                &&& p.window == run(v, cs).windows[i]
                &&& (u.should_leave_from_old && u.old == Some(p.window)) ==> p.role
                    == FocusRole::Leave
                &&& (!(u.should_leave_from_old && u.old == Some(p.window)) && u.current == Some(
                    p.window,
                )) ==> p.role == FocusRole::Enter
                &&& (!(u.should_leave_from_old && u.old == Some(p.window)) && u.current != Some(
                    p.window,
                )) ==> p.role == FocusRole::Configure
            },
        u.current == alive_focus(run(v, cs).windows, run(v, cs).focused),
{
}

/// A button press over a window of the stack leaves that window focused,
/// whether or not it had the focus before, and moves no window.
pub proof fn lemma_button_focuses_target(
    v: StackView,
    po: PointerOver,
    table: Seq<(Window, crate::pointer::WindowSurfaces)>,
    cursor: Point,
)
    requires
        v.windows.contains(win(po.fd, po.toplevel)),
    ensures
        ({
            let a = stack_after(
                v,
                opt_push(Seq::<Change>::empty(), button_pick(v, po)),
                table,
                cursor,
            );
            &&& a.windows == v.windows
            &&& alive_focus(a.windows, a.focused) == Some(win(po.fd, po.toplevel))
        }),
{
    let q = opt_push(Seq::<Change>::empty(), button_pick(v, po));
    let e = Seq::<Change>::empty();
    assert(run(v, e) == v);
    match button_pick(v, po) {
        Some(c) => {
            assert(q.drop_last() =~= e);
            assert(q.last() == c);
            assert(run(v, q) == step(v, c));
            assert(step(v, c).focused == Some(win(po.fd, po.toplevel)));
        },
        None => {
            assert(q =~= e);
        },
    }
}

/// A filter keeps only elements of the sequence.
proof fn lemma_filter_subset(s: Seq<Window>, pred: spec_fn(Window) -> bool, x: Window)
    requires
        s.filter(pred).contains(x),
    ensures
        s.contains(x),
    decreases s.len(),
{
    reveal(Seq::filter);
    if s.len() > 0 {
        let sub = s.drop_last().filter(pred);
        if sub.contains(x) {
            lemma_filter_subset(s.drop_last(), pred, x);
            let k = choose|k: int| 0 <= k < s.drop_last().len() && s.drop_last()[k] == x;
            assert(s[k] == x);
        } else {
            let t = s.filter(pred);
            let k = choose|k: int| 0 <= k < t.len() && t[k] == x;
            if pred(s.last()) {
                assert(t == sub.push(s.last()));
                if k < sub.len() {
                    assert(sub[k] == x);
                }
                assert(s[s.len() - 1] == x);
            } else {
                assert(t == sub);
            }
        }
    }
}

/// A new window goes on top of the stack, above all the others in their old
/// order, and takes the focus.
pub proof fn lemma_push_on_top(v: StackView, fd: i32, id: u32)
    ensures
        step(v, Change::Push(fd, id)).windows.len() == v.windows.len() + 1,
        step(v, Change::Push(fd, id)).windows[0] == win(fd, id),
        forall|i: int|
            0 <= i < v.windows.len() ==> step(v, Change::Push(fd, id)).windows[i + 1]
                == v.windows[i],
        alive_focus(
            step(v, Change::Push(fd, id)).windows,
            step(v, Change::Push(fd, id)).focused,
        ) == Some(win(fd, id)),
{
    assert(step(v, Change::Push(fd, id)).windows.contains(win(fd, id))) by {
        assert(step(v, Change::Push(fd, id)).windows[0] == win(fd, id));
    }
}

/// When a window goes away, the focus stays where it was if that window
/// remains; if the focused window went away, the topmost remaining window
/// takes the focus, and with no window left nothing is focused.
pub proof fn lemma_removal_refocus(v: StackView, fd: i32, id: u32)
    ensures
        ({
            let a = step(v, Change::RemoveToplevel(fd, id));
            match alive_focus(v.windows, v.focused) {
                Some(f) => if f != win(fd, id) {
                    alive_focus(a.windows, a.focused) == Some(f)
                } else if a.windows.len() > 0 {
                    alive_focus(a.windows, a.focused) == Some(a.windows[0])
                } else {
                    alive_focus(a.windows, a.focused) is None
                },
                None => if a.windows.len() > 0 {
                    alive_focus(a.windows, a.focused) == Some(a.windows[0])
                } else {
                    alive_focus(a.windows, a.focused) is None
                },
            }
        }),
{
    let a = step(v, Change::RemoveToplevel(fd, id));
    lemma_remove_toplevel_removes(v, fd, id);
    if a.windows.len() > 0 {
        assert(a.windows.contains(a.windows[0]));
    }
    if let Some(f) = alive_focus(v.windows, v.focused) {
        if f != win(fd, id) {
            lemma_filter_keeps(v.windows, other_window(win(fd, id)), f);
        }
    } else if let Some(g) = v.focused {
        if a.windows.contains(g) {
            lemma_filter_subset(v.windows, other_window(win(fd, id)), g);
        }
    }
}

/// In a well-formed state the pick that a button press queues names a window
/// on the stack, and a focus exists whenever the pointer is over a surface.
pub proof fn lemma_button_change_allowed(v: StackView)
    requires
        stack_wf(v),
    ensures
        v.pointer_over matches Some(po) ==> change_allowed(v, Change::Pick(po.fd, po.toplevel)),
        v.pointer_over is Some ==> alive_focus(v.windows, v.focused) is Some,
{
}

/// The xdg toplevel state "maximized".
pub const STATE_MAXIMIZED: u32 = 1;

/// The xdg toplevel state "activated".
pub const STATE_ACTIVATED: u32 = 4;

/// The clients left after the removals among `cs`, applied in order.
pub open spec fn clients_after<C>(m: Map<i32, C>, cs: Seq<Change>) -> Map<i32, C>
    decreases cs.len(),
{
    if cs.len() == 0 {
        m
    } else {
        let rest = clients_after(m, cs.drop_last());
        match cs.last() {
            Change::RemoveClient(fd) => rest.remove(fd),
            _ => rest,
        }
    }
}

/// The windows that `cs` pushes, in order.
pub open spec fn pushed_windows(cs: Seq<Change>) -> Seq<Window>
    decreases cs.len(),
{
    if cs.len() == 0 {
        Seq::empty()
    } else {
        let rest = pushed_windows(cs.drop_last());
        match cs.last() {
            Change::Push(fd, id) => rest.push(win(fd, id)),
            _ => rest,
        }
    }
}

/// The placement of every window of the stack `ws`, topmost first: its tile
/// and its part in the focus change from `old` to `current`.
pub open spec fn placements_spec(
    ws: Seq<Window>,
    width: int,
    height: int,
    frac: int,
    old: Option<Window>,
    current: Option<Window>,
    should_leave_from_old: bool,
) -> Seq<Placement> {
    Seq::new(
        ws.len(),
        |i: int|
            Placement {
                window: ws[i],
                position: slot_spec(i, ws.len() as int, width, height, frac).0,
                size: slot_spec(i, ws.len() as int, width, height, frac).1,
                role: role_spec(ws[i], old, current, should_leave_from_old),
            },
    )
}

/// A table of tile heights: entry `n` is the height of each tile of the
/// right-hand column when `n` windows are stacked, and the tiles of a
/// column of `n` stay in range.
pub open spec fn row_heights_ok(row_heights: Seq<i32>) -> bool {
    &&& row_heights.len() <= i32::MAX
    &&& forall|n: int|
        0 <= n < row_heights.len() ==> crate::point::fits_i32(#[trigger] row_heights[n] * n)
}

/// What processing the queue `cs` on the stack `v` of a `width` by `height`
/// screen reports: the focus before and after, whether the first change took
/// the focus, the changes applied, the windows pushed (each gains the
/// maximized state) and, when anything changed, the placement of every window
/// on the new stack with the tile height that `row_heights` gives for its
/// size.
pub open spec fn focus_update_spec(
    v: StackView,
    cs: Seq<Change>,
    width: u16,
    height: u16,
    row_heights: Seq<i32>,
    table: Seq<(Window, crate::pointer::WindowSurfaces)>,
    cursor: Point,
    u: FocusUpdate,
) -> bool {
    let after = run(v, cs);
    &&& u.pointer == crate::pointer::pointer_events_spec(
        after.pointer_over,
        stack_after(v, cs, table, cursor).pointer_over,
    )
    &&& u.old == alive_focus(v.windows, v.focused)
    &&& u.current == alive_focus(after.windows, after.focused)
    &&& u.should_leave_from_old == (cs.len() > 0 && takes_focus(cs[0]))
    &&& u.recompute == (cs.len() > 0)
    &&& u.applied@ == cs
    &&& u.maximized@ == pushed_windows(cs)
    &&& u.placements@ == if cs.len() > 0 {
        placements_spec(
            after.windows,
            width as int,
            height as int,
            row_heights[after.windows.len() as int] as int,
            u.old,
            u.current,
            u.should_leave_from_old,
        )
    } else {
        Seq::empty()
    }
}

/// `cs` with `extra` appended, if there is one.
pub open spec fn opt_push(cs: Seq<Change>, extra: Option<Change>) -> Seq<Change> {
    match extra {
        Some(c) => cs.push(c),
        None => cs,
    }
}

/// The pick that a button press over `po` queues: none when its window
/// already has the focus.
pub open spec fn button_pick(v: StackView, po: PointerOver) -> Option<Change> {
    if alive_focus(v.windows, v.focused) != Some(win(po.fd, po.toplevel)) {
        Some(Change::Pick(po.fd, po.toplevel))
    } else {
        None
    }
}

/// The stack after the queue `cs` is applied to `v` and the surface under
/// the cursor is found again, with the surfaces of each window looked up in
/// `table`.
pub open spec fn stack_after(
    v: StackView,
    cs: Seq<Change>,
    table: Seq<(Window, crate::pointer::WindowSurfaces)>,
    cursor: Point,
) -> StackView {
    let after = run(v, cs);
    StackView {
        windows: after.windows,
        focused: after.focused,
        pointer_over: crate::pointer::pointer_target(
            after.windows,
            crate::pointer::surfaces_for(table, after.windows),
            cursor,
        ),
    }
}

/// `table` holds the surfaces of every window left after `cs`, and finding
/// the surface under the cursor among them stays in range.
pub open spec fn surfaces_ready(
    v: StackView,
    cs: Seq<Change>,
    table: Seq<(Window, crate::pointer::WindowSurfaces)>,
    cursor: Point,
) -> bool {
    let ws = run(v, cs).windows;
    &&& crate::pointer::table_covers(table, ws)
    &&& crate::pointer::targets_defined(ws, crate::pointer::surfaces_for(table, ws), cursor)
}

/// A run of changes adds at most one window per change.
pub proof fn lemma_run_len(v: StackView, cs: Seq<Change>)
    ensures
        run(v, cs).windows.len() <= v.windows.len() + cs.len(),
    decreases cs.len(),
{
    if cs.len() > 0 {
        lemma_run_len(v, cs.drop_last());
        let prev = run(v, cs.drop_last());
        match cs.last() {
            Change::MoveDown(fd, id) => {
                prev.windows.index_of_first_ensures(win(fd, id));
            },
            Change::MoveUp(fd, id) => {
                prev.windows.index_of_first_ensures(win(fd, id));
            },
            _ => {},
        }
    }
}

/// What [`CompositorState::process_focus_changes`] reports, for the caller
/// to send: the focus before and after the changes, whether the first change
/// took the focus away from the old window, whether the layout changed, the
/// changes that were applied, the pushed toplevels (each gains
/// [`STATE_MAXIMIZED`]) and the placement of every window. A placement with
/// role `Leave` takes the keyboard focus and [`STATE_ACTIVATED`] from its
/// toplevel; one with role `Enter` gives both (with the depressed modifiers);
/// every placed toplevel is configured with its new position and size. Last,
/// the surface under the pointer is found again on the new stack.
pub struct FocusUpdate {
    pub old: Option<Window>,
    pub current: Option<Window>,
    pub should_leave_from_old: bool,
    pub recompute: bool,
    pub applied: Vec<Change>,
    pub maximized: Vec<Window>,
    pub placements: Vec<Placement>,
    /// The pointer events that the new surface under the pointer calls for.
    pub pointer: crate::pointer::PointerEvents,
}

/// The window stack of the compositor, the pointer state that goes with it,
/// and the connected clients, whose objects are of type `R`.
pub struct CompositorState<R> {
    /// The toplevels, topmost first.
    pub windows: Vec<Window>,
    pub focused_window: Option<Window>,
    /// Changes queued since the last call of `process_focus_changes`.
    pub changes: Vec<Change>,
    pub pointer_over: Option<PointerOver>,
    pub pointer_position: Point,
    pub width: u16,
    pub height: u16,
    /// The connected clients, by connection.
    pub clients: HashMap<i32, Client<R>>,
}

impl<R> CompositorState<R> {
    /// The stack, the focus and the pointer target.
    pub open spec fn stack(&self) -> StackView {
        StackView {
            windows: self.windows@,
            focused: self.focused_window,
            pointer_over: self.pointer_over,
        }
    }

    /// The state invariant; see [`stack_wf`].
    pub open spec fn wf(&self) -> bool {
        stack_wf(self.stack())
    }

    /// An empty compositor for a screen of the given size.
    pub fn create(width: u16, height: u16) -> (r: Self)
        ensures
            r.windows@ == Seq::<Window>::empty(),
            r.focused_window is None,
            r.changes@ == Seq::<Change>::empty(),
            r.pointer_over is None,
            r.pointer_position == Point(0, 0),
            r.width == width,
            r.height == height,
            r.clients@ == Map::<i32, Client<R>>::empty(),
            r.wf(),
    {
        CompositorState {
            windows: Vec::new(),
            focused_window: None,
            changes: Vec::new(),
            pointer_over: None,
            pointer_position: Point(0, 0),
            width,
            height,
            clients: HashMap::new(),
        }
    }

    /// The focused window, if it is still on the stack.
    pub fn get_focused_window(&self) -> (r: Option<Window>)
        ensures
            r == alive_focus(self.windows@, self.focused_window),
    {
        match self.focused_window {
            Some(f) => match find_window(&self.windows, f) {
                Some(_) => {
                    proof {
                        self.windows@.index_of_first_ensures(f);
                    }
                    Some(f)
                },
                None => {
                    proof {
                        self.windows@.index_of_first_ensures(f);
                    }
                    None
                },
            },
            None => None,
        }
    }

    /// Exchanges the windows at `i` and `j`.
    fn swap_windows(&mut self, i: usize, j: usize)
        requires
            i < old(self).windows.len(),
            j < old(self).windows.len(),
        ensures
            final(self).windows@ == swap_at(old(self).windows@, i as int, j as int),
            final(self).focused_window == old(self).focused_window,
            final(self).pointer_over == old(self).pointer_over,
            final(self).changes == old(self).changes,
            final(self).pointer_position == old(self).pointer_position,
            final(self).width == old(self).width,
            final(self).height == old(self).height,
            final(self).clients == old(self).clients,
    {
        let a = self.windows[i];
        let b = self.windows[j];
        self.windows.set(i, b);
        self.windows.set(j, a);
    }

    /// After a removal, moves the focus to the top of the stack if the focused
    /// window is gone.
    fn refocus_after_removal(&mut self)
        ensures
            final(self).focused_window == refocus(old(self).windows@, old(self).focused_window),
            final(self).windows == old(self).windows,
            final(self).pointer_over == old(self).pointer_over,
            final(self).changes == old(self).changes,
            final(self).pointer_position == old(self).pointer_position,
            final(self).width == old(self).width,
            final(self).height == old(self).height,
            final(self).clients == old(self).clients,
    {
        if self.get_focused_window().is_none() {
            self.focused_window = if self.windows.len() > 0 {
                Some(self.windows[0])
            } else {
                None
            };
        }
    }

    /// Applies one change; returns whether it moved the focus on purpose.
    fn apply_change(&mut self, c: Change) -> (r: bool)
        requires
            change_allowed(old(self).stack(), c),
        ensures
            final(self).stack() == step(old(self).stack(), c),
            r == takes_focus(c),
            final(self).changes == old(self).changes,
            final(self).pointer_position == old(self).pointer_position,
            final(self).width == old(self).width,
            final(self).height == old(self).height,
            final(self).clients@ == match c {
                Change::RemoveClient(fd) => old(self).clients@.remove(fd),
                _ => old(self).clients@,
            },
    {
        match c {
            Change::Push(fd, id) => {
                let w = Window { fd, toplevel: id };
                self.windows.insert(0, w);
                self.focused_window = Some(w);
                true
            },
            Change::RemoveToplevel(fd, id) => {
                let w = Window { fd, toplevel: id };
                self.windows = retain_windows(&self.windows, Some(w), 0);
                self.refocus_after_removal();
                if let Some(po) = self.pointer_over {
                    if po.fd == fd && po.toplevel == id {
                        self.pointer_over = None;
                    }
                }
                false
            },
            Change::RemoveSurface(fd, id) => {
                if let Some(po) = self.pointer_over {
                    if po.fd == fd && po.surface == id {
                        self.pointer_over = None;
                    }
                }
                false
            },
            Change::RemoveClient(fd) => {
                self.windows = retain_windows(&self.windows, None, fd);
                self.clients.remove(&fd);
                self.refocus_after_removal();
                if let Some(po) = self.pointer_over {
                    if po.fd == fd {
                        self.pointer_over = None;
                    }
                }
                false
            },
            Change::Pick(fd, id) => {
                let w = Window { fd, toplevel: id };
                proof {
                    self.windows@.index_of_first_ensures(w);
                }
                let found = find_window(&self.windows, w);
                self.focused_window = match found {
                    Some(_) => Some(w),
                    None => None,
                };
                true
            },
            Change::MoveDown(fd, id) => {
                let w = Window { fd, toplevel: id };
                proof {
                    self.windows@.index_of_first_ensures(w);
                }
                if let Some(index) = find_window(&self.windows, w) {
                    if index < self.windows.len() - 1 {
                        self.swap_windows(index, index + 1);
                    }
                }
                false
            },
            Change::MoveUp(fd, id) => {
                let w = Window { fd, toplevel: id };
                proof {
                    self.windows@.index_of_first_ensures(w);
                }
                if let Some(index) = find_window(&self.windows, w) {
                    if index > 0 {
                        self.swap_windows(index, index - 1);
                    }
                }
                false
            },
        }
    }

    /// Applies the queued changes in order, empties the queue, drops the
    /// clients that are gone, finds the surface under the pointer on the new
    /// stack, and reports what must be sent (see [`FocusUpdate`]).
    /// `row_heights[n]` is the tile height of the right-hand column for a
    /// stack of `n` windows; `surfaces` holds the surfaces of every window
    /// that stays on the stack (see [`CompositorState::windows_after`]).
    pub fn process_focus_changes(
        &mut self,
        row_heights: &[i32],
        surfaces: &Vec<(Window, crate::pointer::WindowSurfaces)>,
    ) -> (r: FocusUpdate)
        requires
            run_allowed(old(self).stack(), old(self).changes@),
            row_heights@.len() > old(self).windows@.len() + old(self).changes@.len(),
            row_heights_ok(row_heights@),
            surfaces_ready(
                old(self).stack(),
                old(self).changes@,
                surfaces@,
                old(self).pointer_position,
            ),
        ensures
            final(self).stack() == stack_after(
                old(self).stack(),
                old(self).changes@,
                surfaces@,
                old(self).pointer_position,
            ),
            focus_wf(old(self).stack()) ==> stack_wf(final(self).stack()),
            final(self).changes@ == Seq::<Change>::empty(),
            final(self).clients@ == clients_after(old(self).clients@, old(self).changes@),
            focus_update_spec(
                old(self).stack(),
                old(self).changes@,
                old(self).width,
                old(self).height,
                row_heights@,
                surfaces@,
                old(self).pointer_position,
                r,
            ),
            final(self).pointer_position == old(self).pointer_position,
            final(self).width == old(self).width,
            final(self).height == old(self).height,
    {
        let old_focus = self.get_focused_window();
        let ghost v0 = self.stack();
        let ghost c0 = self.clients@;
        let mut changes: Vec<Change> = Vec::new();
        core::mem::swap(&mut changes, &mut self.changes);
        let recompute = changes.len() > 0;
        let mut should_leave_from_old = false;
        let mut maximized: Vec<Window> = Vec::new();
        let ghost pos = self.pointer_position;
        let ghost width = self.width;
        let ghost height = self.height;
        let mut i: usize = 0;
        while i < changes.len()
            invariant
                i <= changes.len(),
                run_allowed(v0, changes@),
                self.stack() == run(v0, changes@.take(i as int)),
                self.clients@ == clients_after(c0, changes@.take(i as int)),
                maximized@ == pushed_windows(changes@.take(i as int)),
                self.changes@ == Seq::<Change>::empty(),
                should_leave_from_old == (i > 0 && takes_focus(changes@[0])),
                self.pointer_position == pos,
                self.width == width,
                self.height == height,
            decreases changes.len() - i,
        {
            proof {
                lemma_run_allowed_prefix(v0, changes@, i + 1);
                assert(changes@.take(i + 1).drop_last() =~= changes@.take(i as int));
                assert(changes@.take(i + 1).last() == changes@[i as int]);
            }
            let c = changes[i];
            let took = self.apply_change(c);
            if let Change::Push(fd, id) = c {
                maximized.push(Window { fd, toplevel: id });
            }
            if i == 0 {
                should_leave_from_old = took;
            }
            i = i + 1;
        }
        proof {
            assert(changes@.take(changes.len() as int) =~= changes@);
            lemma_run_len(v0, changes@);
        }
        let current = self.get_focused_window();
        let placements = if recompute {
            let n = self.windows.len();
            let frac = row_heights[n];
            proof {
                assert(crate::point::fits_i32(row_heights@[n as int] * n));
                if n >= 2 {
                    lemma_frac_fits(frac as int, n - 2, n as int);
                }
            }
            self.layout(frac, old_focus, should_leave_from_old)
        } else {
            Vec::new()
        };
        let pointer = self.recompute_pointer(surfaces);
        proof {
            if focus_wf(v0) {
                lemma_run_keeps_focus_wf(v0, changes@);
                crate::pointer::lemma_pointer_target_on_stack(
                    self.windows@,
                    crate::pointer::surfaces_for(surfaces@, self.windows@),
                    pos,
                );
            }
        }
        FocusUpdate {
            old: old_focus,
            current,
            should_leave_from_old,
            recompute,
            applied: changes,
            maximized,
            placements,
            pointer,
        }
    }

    /// Where each window goes after a change of the stack, topmost first,
    /// and which windows lose or gain the focus. `frac` is the height of each
    /// tile of the right-hand column.
    pub fn layout(&self, frac: i32, old: Option<Window>, should_leave_from_old: bool) -> (r: Vec<
        Placement,
    >)
        requires
            self.windows.len() <= i32::MAX,
            self.windows.len() >= 2 ==> crate::point::fits_i32(frac * (self.windows.len() - 2)),
        ensures
            r@ == placements_spec(
                self.windows@,
                self.width as int,
                self.height as int,
                frac as int,
                old,
                alive_focus(self.windows@, self.focused_window),
                should_leave_from_old,
            ),
            r.len() == self.windows.len(),
            forall|i: int|
                #![trigger r@[i]]
                0 <= i < r.len() ==> {
                    &&& r@[i].window == self.windows@[i]
                    &&& (r@[i].position, r@[i].size) == slot_spec(
                        i,
                        self.windows.len() as int,
                        self.width as int,
                        self.height as int,
                        frac as int,
                    )
                    &&& r@[i].role == role_spec(
                        self.windows@[i],
                        old,
                        alive_focus(self.windows@, self.focused_window),
                        should_leave_from_old,
                    )
                },
    {
        let current = self.get_focused_window();
        let amount = self.windows.len() as u32;
        let mut r: Vec<Placement> = Vec::new();
        let mut index: usize = 0;
        while index < self.windows.len()
            invariant
                index <= self.windows.len(),
                self.windows.len() <= i32::MAX,
                amount == self.windows.len(),
                self.windows.len() >= 2 ==> crate::point::fits_i32(
                    frac * (self.windows.len() - 2),
                ),
                current == alive_focus(self.windows@, self.focused_window),
                r.len() == index,
                forall|i: int|
                    #![trigger r@[i]]
                    0 <= i < index ==> {
                        &&& r@[i].window == self.windows@[i]
                        &&& (r@[i].position, r@[i].size) == slot_spec(
                            i,
                            self.windows.len() as int,
                            self.width as int,
                            self.height as int,
                            frac as int,
                        )
                        &&& r@[i].role == role_spec(
                            self.windows@[i],
                            old,
                            current,
                            should_leave_from_old,
                        )
                    },
            decreases self.windows.len() - index,
        {
            let w = self.windows[index];
            proof {
                if amount > 1 && index > 0 {
                    lemma_frac_fits(frac as int, index - 1, self.windows.len() - 2);
                }
            }
            let (position, size) = window_slot(index as u32, amount, self.width, self.height, frac);
            let role = if should_leave_from_old && old == Some(w) {
                FocusRole::Leave
            } else if current == Some(w) {
                FocusRole::Enter
            } else {
                FocusRole::Configure
            };
            r.push(Placement { window: w, position, size, role });
            index = index + 1;
        }
        proof {
            assert(r@ =~= placements_spec(
                self.windows@,
                self.width as int,
                self.height as int,
                frac as int,
                old,
                current,
                should_leave_from_old,
            ));
        }
        r
    }

    /// Whether processing the queue, with `extra` appended if there is one,
    /// would meet only picks of windows that are on the stack by then.
    pub fn queue_allowed(&self, extra: Option<Change>) -> (r: bool)
        ensures
            r == run_allowed(self.stack(), opt_push(self.changes@, extra)),
    {
        self.simulate(extra).is_some()
    }

    /// The windows that stay on the stack, in order, once the queue, with
    /// `extra` appended if there is one, is processed: the windows whose
    /// surfaces [`CompositorState::process_focus_changes`] needs.
    pub fn windows_after(&self, extra: Option<Change>) -> (r: Vec<Window>)
        requires
            run_allowed(self.stack(), opt_push(self.changes@, extra)),
        ensures
            r@ == run(self.stack(), opt_push(self.changes@, extra)).windows,
    {
        match self.simulate(extra) {
            Some(ws) => ws,
            None => Vec::new(),
        }
    }

    /// Runs the queue, with `extra` appended, on a copy of the stack: the
    /// windows left, or `None` when a pick meets a window that is not on the
    /// stack by then.
    fn simulate(&self, extra: Option<Change>) -> (r: Option<Vec<Window>>)
        ensures
            r is Some == run_allowed(self.stack(), opt_push(self.changes@, extra)),
            r matches Some(ws) ==> ws@ == run(self.stack(), opt_push(self.changes@, extra)).windows,
    {
        let mut queue: Vec<Change> = Vec::new();
        let mut k: usize = 0;
        while k < self.changes.len()
            invariant
                k <= self.changes.len(),
                queue@ == self.changes@.take(k as int),
            decreases self.changes.len() - k,
        {
            queue.push(self.changes[k]);
            proof {
                assert(self.changes@.take(k + 1) =~= self.changes@.take(k as int).push(
                    self.changes@[k as int],
                ));
            }
            k = k + 1;
        }
        proof {
            assert(self.changes@.take(self.changes.len() as int) =~= self.changes@);
        }
        if let Some(c) = extra {
            queue.push(c);
        }
        assert(queue@ == opt_push(self.changes@, extra));
        let mut windows: Vec<Window> = Vec::new();
        let mut k: usize = 0;
        while k < self.windows.len()
            invariant
                k <= self.windows.len(),
                windows@ == self.windows@.take(k as int),
            decreases self.windows.len() - k,
        {
            windows.push(self.windows[k]);
            proof {
                assert(self.windows@.take(k + 1) =~= self.windows@.take(k as int).push(
                    self.windows@[k as int],
                ));
            }
            k = k + 1;
        }
        proof {
            assert(self.windows@.take(self.windows.len() as int) =~= self.windows@);
        }
        let mut scratch: CompositorState<R> = CompositorState {
            windows,
            focused_window: self.focused_window,
            changes: Vec::new(),
            pointer_over: self.pointer_over,
            pointer_position: self.pointer_position,
            width: self.width,
            height: self.height,
            clients: HashMap::new(),
        };
        let ghost v0 = self.stack();
        assert(scratch.stack() == v0);
        let mut i: usize = 0;
        while i < queue.len()
            invariant
                i <= queue.len(),
                scratch.stack() == run(v0, queue@.take(i as int)),
                run_allowed(v0, queue@.take(i as int)),
                queue@ == opt_push(self.changes@, extra),
                v0 == self.stack(),
            decreases queue.len() - i,
        {
            let c = queue[i];
            proof {
                assert(queue@.take(i + 1).drop_last() =~= queue@.take(i as int));
                assert(queue@.take(i + 1).last() == c);
            }
            if let Change::Pick(fd, id) = c {
                let w = Window { fd, toplevel: id };
                proof {
                    scratch.windows@.index_of_first_ensures(w);
                }
                if find_window(&scratch.windows, w).is_none() {
                    proof {
                        assert(!scratch.windows@.contains(w));
                        assert(!change_allowed(run(v0, queue@.take(i as int)), c));
                        assert(!run_allowed(v0, queue@.take(i + 1)));
                        if run_allowed(v0, queue@) {
                            lemma_run_allowed_prefix(v0, queue@, i + 1);
                        }
                        assert(queue@ == opt_push(self.changes@, extra));
                    }
                    return None;
                }
            }
            scratch.apply_change(c);
            i = i + 1;
        }
        proof {
            assert(queue@.take(queue.len() as int) =~= queue@);
        }
        Some(scratch.windows)
    }

    /// The action that a key event asks for and the change it queues; see
    /// [`key_action_spec`].
    fn key_decision(&self, depressed: u32, code: u32, input_state: u32) -> (r: (
        KeyAction,
        Option<Change>,
    ))
        ensures
            r == key_action_spec(self.windows@, self.focused_window, depressed, code, input_state),
    {
        let focus = self.get_focused_window();
        let pressed = input_state == 1;
        if (depressed & 64) != 0 {
            if code == 1 && pressed {
                return (KeyAction::Quit, None);
            }
            if code == 20 && pressed {
                return (KeyAction::SpawnTerminal, None);
            }
            if code == 46 && pressed {
                return match focus {
                    Some(w) => (KeyAction::Close(w), None),
                    None => (KeyAction::Ignore, None),
                };
            }
            if (depressed & 1) != 0 {
                if code == 36 && pressed {
                    let Some(w) = focus else {
                        return (KeyAction::Ignore, None);
                    };
                    return (KeyAction::Refocus, Some(Change::MoveDown(w.fd, w.toplevel)));
                }
                if code == 37 && pressed {
                    let Some(w) = focus else {
                        return (KeyAction::Ignore, None);
                    };
                    return (KeyAction::Refocus, Some(Change::MoveUp(w.fd, w.toplevel)));
                }
            }
            if code == 36 && pressed {
                let Some(w) = focus else {
                    return (KeyAction::Ignore, None);
                };
                let Some(index) = find_window(&self.windows, w) else {
                    return (KeyAction::Ignore, None);
                };
                if index >= self.windows.len() - 1 {
                    return (KeyAction::Ignore, None);
                }
                let next = self.windows[index + 1];
                return (KeyAction::Refocus, Some(Change::Pick(next.fd, next.toplevel)));
            }
            if code == 37 && pressed {
                let Some(w) = focus else {
                    return (KeyAction::Ignore, None);
                };
                let Some(index) = find_window(&self.windows, w) else {
                    return (KeyAction::Ignore, None);
                };
                if index == 0 {
                    return (KeyAction::Ignore, None);
                }
                proof {
                    self.windows@.index_of_first_ensures(w);
                }
                let prev = self.windows[index - 1];
                return (KeyAction::Refocus, Some(Change::Pick(prev.fd, prev.toplevel)));
            }
            return (KeyAction::Ignore, None);
        }
        match focus {
            Some(w) => (KeyAction::Forward(w.fd), None),
            None => (KeyAction::Ignore, None),
        }
    }


    /// Queues `extra`, if any, then processes the whole queue; see
    /// [`CompositorState::process_focus_changes`].
    fn process_with(
        &mut self,
        extra: Option<Change>,
        row_heights: &[i32],
        surfaces: &Vec<(Window, crate::pointer::WindowSurfaces)>,
    ) -> (r: FocusUpdate)
        requires
            run_allowed(old(self).stack(), opt_push(old(self).changes@, extra)),
            row_heights@.len() > old(self).windows@.len() + old(self).changes@.len() + 1,
            row_heights_ok(row_heights@),
            surfaces_ready(
                old(self).stack(),
                opt_push(old(self).changes@, extra),
                surfaces@,
                old(self).pointer_position,
            ),
        ensures
            final(self).stack() == stack_after(
                old(self).stack(),
                opt_push(old(self).changes@, extra),
                surfaces@,
                old(self).pointer_position,
            ),
            final(self).changes@ == Seq::<Change>::empty(),
            final(self).clients@ == clients_after(
                old(self).clients@,
                opt_push(old(self).changes@, extra),
            ),
            focus_update_spec(
                old(self).stack(),
                opt_push(old(self).changes@, extra),
                old(self).width,
                old(self).height,
                row_heights@,
                surfaces@,
                old(self).pointer_position,
                r,
            ),
            final(self).pointer_position == old(self).pointer_position,
            final(self).width == old(self).width,
            final(self).height == old(self).height,
    {
        if let Some(c) = extra {
            self.changes.push(c);
        }
        self.process_focus_changes(row_heights, surfaces)
    }

    /// Handles a key event. `depressed` is the serialized set of depressed
    /// modifiers after the key was taken into account. A change that the key
    /// asks for is queued and the queue is processed at once; the update to
    /// send comes back with the action.
    pub fn on_keyboard_button(
        &mut self,
        depressed: u32,
        code: u32,
        input_state: u32,
        row_heights: &[i32],
        surfaces: &Vec<(Window, crate::pointer::WindowSurfaces)>,
    ) -> (r: (KeyAction, Option<FocusUpdate>))
        requires
            key_action_spec(
                old(self).windows@,
                old(self).focused_window,
                depressed,
                code,
                input_state,
            ).1 matches Some(c) ==> {
                &&& run_allowed(old(self).stack(), old(self).changes@.push(c))
                &&& row_heights@.len() > old(self).windows@.len() + old(self).changes@.len() + 1
                &&& row_heights_ok(row_heights@)
                &&& surfaces_ready(
                    old(self).stack(),
                    old(self).changes@.push(c),
                    surfaces@,
                    old(self).pointer_position,
                )
            },
        ensures
            r.0 == key_action_spec(
                old(self).windows@,
                old(self).focused_window,
                depressed,
                code,
                input_state,
            ).0,
            match key_action_spec(
                old(self).windows@,
                old(self).focused_window,
                depressed,
                code,
                input_state,
            ).1 {
                Some(c) => {
                    &&& final(self).stack() == stack_after(
                        old(self).stack(),
                        old(self).changes@.push(c),
                        surfaces@,
                        old(self).pointer_position,
                    )
                    &&& final(self).changes@ == Seq::<Change>::empty()
                    &&& final(self).clients@ == clients_after(
                        old(self).clients@,
                        old(self).changes@.push(c),
                    )
                    &&& r.1 matches Some(u) && focus_update_spec(
                        old(self).stack(),
                        old(self).changes@.push(c),
                        old(self).width,
                        old(self).height,
                        row_heights@,
                        surfaces@,
                        old(self).pointer_position,
                        u,
                    )
                },
                None => {
                    &&& final(self).stack() == old(self).stack()
                    &&& final(self).changes == old(self).changes
                    &&& final(self).clients == old(self).clients
                    &&& r.1 is None
                },
            },
            final(self).pointer_position == old(self).pointer_position,
            final(self).width == old(self).width,
            final(self).height == old(self).height,
    {
        let (action, change) = self.key_decision(depressed, code, input_state);
        match change {
            Some(c) => {
                let u = self.process_with(Some(c), row_heights, surfaces);
                (action, Some(u))
            },
            None => (action, None),
        }
    }

    /// A button press goes to the surface under the pointer; if that surface
    /// belongs to a window without the focus, that window is picked. When the
    /// pointer is over a surface the queue is then processed. Returns the
    /// pointer target, to which the caller sends the button, and the update.
    pub fn on_mouse_button(
        &mut self,
        row_heights: &[i32],
        surfaces: &Vec<(Window, crate::pointer::WindowSurfaces)>,
    ) -> (r: (
        Option<PointerOver>,
        Option<FocusUpdate>,
    ))
        requires
            old(self).pointer_over is Some ==> alive_focus(
                old(self).windows@,
                old(self).focused_window,
            ) is Some,
            old(self).pointer_over matches Some(po) ==> {
                &&& run_allowed(
                    old(self).stack(),
                    opt_push(old(self).changes@, button_pick(old(self).stack(), po)),
                )
                &&& row_heights@.len() > old(self).windows@.len() + old(self).changes@.len() + 1
                &&& row_heights_ok(row_heights@)
                &&& surfaces_ready(
                    old(self).stack(),
                    opt_push(old(self).changes@, button_pick(old(self).stack(), po)),
                    surfaces@,
                    old(self).pointer_position,
                )
            },
        ensures
            r.0 == old(self).pointer_over,
            match old(self).pointer_over {
                Some(po) => {
                    let queue = opt_push(old(self).changes@, button_pick(old(self).stack(), po));
                    &&& final(self).stack() == stack_after(
                        old(self).stack(),
                        queue,
                        surfaces@,
                        old(self).pointer_position,
                    )
                    &&& final(self).changes@ == Seq::<Change>::empty()
                    &&& final(self).clients@ == clients_after(old(self).clients@, queue)
                    &&& r.1 matches Some(u) && focus_update_spec(
                        old(self).stack(),
                        queue,
                        old(self).width,
                        old(self).height,
                        row_heights@,
                        surfaces@,
                        old(self).pointer_position,
                        u,
                    )
                },
                None => {
                    &&& final(self).stack() == old(self).stack()
                    &&& final(self).changes == old(self).changes
                    &&& final(self).clients == old(self).clients
                    &&& r.1 is None
                },
            },
            final(self).pointer_position == old(self).pointer_position,
            final(self).width == old(self).width,
            final(self).height == old(self).height,
    {
        if let Some(po) = self.pointer_over {
            let focused = self.get_focused_window();
            let w = Window { fd: po.fd, toplevel: po.toplevel };
            let pick = if focused != Some(w) {
                Some(Change::Pick(po.fd, po.toplevel))
            } else {
                None
            };
            let u = self.process_with(pick, row_heights, surfaces);
            (Some(po), Some(u))
        } else {
            (None, None)
        }
    }

    /// The client that a scroll goes to: the one under the pointer.
    pub fn on_mouse_scroll(&self) -> (r: Option<i32>)
        ensures
            r == match self.pointer_over {
                Some(po) => Some(po.fd),
                None => None,
            },
    {
        match self.pointer_over {
            Some(po) => Some(po.fd),
            None => None,
        }
    }

    /// Records the new cursor position and recomputes the surface under
    /// the pointer; returns the pointer events to send. `surfaces[i]` holds
    /// the surfaces of `windows[i]`.
    pub fn on_cursor_move(
        &mut self,
        cursor_position: (i32, i32),
        surfaces: &Vec<crate::pointer::WindowSurfaces>,
    ) -> (r: crate::pointer::PointerEvents)
        requires
            surfaces.len() == old(self).windows.len(),
            crate::pointer::targets_defined(
                old(self).windows@,
                surfaces@,
                Point(cursor_position.0, cursor_position.1),
            ),
        ensures
            final(self).pointer_position == Point(cursor_position.0, cursor_position.1),
            final(self).pointer_over == crate::pointer::pointer_target(
                old(self).windows@,
                surfaces@,
                Point(cursor_position.0, cursor_position.1),
            ),
            r == crate::pointer::pointer_events_spec(old(self).pointer_over, final(self).pointer_over),
            final(self).windows == old(self).windows,
            final(self).focused_window == old(self).focused_window,
            final(self).changes == old(self).changes,
            final(self).clients == old(self).clients,
            final(self).width == old(self).width,
            final(self).height == old(self).height,
    {
        self.pointer_position = Point(cursor_position.0, cursor_position.1);
        self.calculate_pointer_focus(surfaces)
    }
}

} // verus!
