//! What splitting and deleting windows does to their room.
use crate::frame::{frame_index, frame_without, lemma_frame_index, FrameState, Frames};
use crate::tiling::{
    branching, fills, law_deletion_undoes_split, law_split_window_is_halved,
    law_split_windows_fill, law_windows_fill_after_deletion, near, tiled,
};
use crate::value::{Lisp, Outcome};
use crate::window::{
    find, first_rect, leaf_ids, omitting, rest_of, split_at, without, Rect, SplitDirection,
    Window, Windows,
};
use crate::window_cmds::edit::{
    all_deleted, delete_other_windows_step, split_direction, split_window_step,
};
use crate::window_cmds::laws::{
    law_deleting_a_window_keeps_frame_sound, lemma_found_is_somewhere, lemma_omitting, sound,
};
use crate::window_cmds::order::{has_window, law_splitting_a_window_keeps_order, well_formed};
use crate::window_cmds::resolve::{after, window_or_error_arg, Found};
use crate::window_cmds::state::UiState;
use vstd::prelude::*;

verus! {

/// Whether two rectangles stand side by side in the room of another one: both are as
/// high as it, and their widths add up to its own. The first may be wider by one.
pub open spec fn beside(a: Rect, b: Rect, whole: Rect) -> bool {
    &&& a.y == whole.y && b.y == whole.y
    &&& a.height == whole.height && b.height == whole.height
    &&& a.x == whole.x
    &&& whole.x + whole.width <= u32::MAX ==> b.x == a.x + a.width
    &&& a.width + b.width == whole.width
    &&& b.width <= a.width <= b.width + 1
}

/// Whether two rectangles stand one above the other in the room of another one: both
/// are as wide as it, and their heights add up to its own. The upper may be higher by one.
pub open spec fn above(a: Rect, b: Rect, whole: Rect) -> bool {
    &&& a.x == whole.x && b.x == whole.x
    &&& a.width == whole.width && b.width == whole.width
    &&& a.y == whole.y
    &&& whole.y + whole.height <= u32::MAX ==> b.y == a.y + a.height
    &&& a.height + b.height == whole.height
    &&& b.height <= a.height <= b.height + 1
}

/// Splitting a window on its left or its right puts the new window beside it, and on
/// any other side below it, in the room that it had. Both show the same buffer, the new
/// one from its start and with no settings of its own, and every other window stays as it
/// is.
pub proof fn law_split_window_shares_room(st: UiState, a: Lisp, side: Lisp, f: u64, w: u64, x: u64)
    requires
        well_formed(st.frames),
        window_or_error_arg(st, a) == Found::Is((f, w)),
        well_formed(after(st, a).frames),
        after(st, a).frames.can_split(f, w),
    ensures
        ({
            let s = after(st, a).frames;
            let n = s.next_window_id;
            let done = split_window_step(st, a, side);
            let t = done.state.frames;
            let l = s.window(f, w)->0->Leaf_0;
            let old = t.window(f, w)->0->Leaf_0;
            let new = t.window(f, n)->0->Leaf_0;
            &&& done.end == Outcome::Value(Lisp::Window(n))
            &&& t.window(f, w) matches Some(Window::Leaf(_))
            &&& t.window(f, n) matches Some(Window::Leaf(_))
            &&& side == Lisp::Symbol("left"@) || side == Lisp::Symbol("right"@) ==> beside(
                old.bounds,
                new.bounds,
                l.bounds,
            )
            &&& side != Lisp::Symbol("left"@) && side != Lisp::Symbol("right"@) ==> above(
                old.bounds,
                new.bounds,
                l.bounds,
            )
            &&& old == (crate::window::Leaf { bounds: old.bounds, ..l })
            &&& new.buffer_id == l.buffer_id
            &&& new.id == n && new.window_start == 0 && new.point == 0 && new.hscroll == 0
            &&& !new.dedicated && new.left_margin == 0 && new.right_margin == 0
            &&& x != w && x < n ==> t.window(f, x) == s.window(f, x)
        }),
{
    let s = after(st, a).frames;
    let n = s.next_window_id;
    let c = (n + 1) as u64;
    let frame = s.get(f)->0;
    let dir = split_direction(side);
    lemma_frame_index(s.list, f);
    let k = frame_index(s.list, f);
    assert(sound(s.list[k]));
    lemma_fresh(s, k, n);
    lemma_fresh(s, k, c);
    let l = find(frame.root, w)->0->Leaf_0;
    law_split_window_is_halved(frame.root, w, dir, None, n, c, l, x);
    law_splitting_a_window_keeps_order(s, f, w, dir);
    let root = split_at(frame.root, w, dir, None, n, c);
    let g = FrameState { root, ..frame };
    let t = s.split(f, w, dir);
    lemma_frame_index(t.list, f);
    let m = frame_index(t.list, f);
    if m < k {
        assert(t.list[m] == s.list[m]);
    } else if k < m {
        assert(t.list[k].id != f);
    }
    assert(t.get(f) == Some(g));
    reveal_strlit("left");
    reveal_strlit("right");
    assert("left"@.len() == 4 && "right"@.len() == 5);
    let done = split_window_step(st, a, side);
    assert(done.state.frames == t);
    assert(t.window(f, w) == find(root, w));
    assert(t.window(f, n) == find(root, n));
    assert(side == Lisp::Symbol("left"@) || side == Lisp::Symbol("right"@) ==> dir is Horizontal);
    assert(side != Lisp::Symbol("left"@) && side != Lisp::Symbol("right"@) ==> dir is Vertical);
    assert(x != w && x < n ==> t.window(f, x) == s.window(f, x));
}

/// An identifier that was not given out yet is that of no window.
proof fn lemma_fresh(s: Frames, k: int, x: u64)
    requires
        well_formed(s),
        0 <= k < s.list.len(),
        x >= s.next_window_id,
    ensures
        find(s.list[k].root, x) is None,
        !leaf_ids(s.list[k].root).contains(x),
{
    lemma_found_is_somewhere(s.list[k].root, x);
    if find(s.list[k].root, x) is Some || leaf_ids(s.list[k].root).contains(x) {
        assert(has_window(s.list[k], x));
    }
}

/// Deleting the window that a split made leaves the windows of the frame as they were.
pub proof fn law_deleting_new_window_undoes_split(s: Frames, f: u64, w: u64, dir: SplitDirection)
    requires
        well_formed(s),
        s.can_split(f, w),
        branching(s.get(f)->0.root),
        rest_of(s.get(f)->0.root) is Empty,
    ensures
        s.split(f, w, dir).can_delete(f, s.next_window_id),
        s.split(f, w, dir).without_window(f, s.next_window_id).get(f) == s.get(f),
{
    let n = s.next_window_id;
    let c = (n + 1) as u64;
    let frame = s.get(f)->0;
    lemma_frame_index(s.list, f);
    let k = frame_index(s.list, f);
    assert(sound(s.list[k]));
    lemma_fresh(s, k, n);
    lemma_fresh(s, k, c);
    lemma_found_is_somewhere(frame.root, w);
    let l = find(frame.root, w)->0->Leaf_0;
    law_split_window_is_halved(frame.root, w, dir, None, n, c, l, n);
    law_deletion_undoes_split(frame.root, w, dir, None, SplitDirection::Vertical, n, c);
    crate::window_cmds::laws::law_splitting_adds_one_window(frame, w, dir, n, c);
    let root = split_at(frame.root, w, dir, None, n, c);
    let g = FrameState { root, ..frame };
    let t = s.split(f, w, dir);
    lemma_same_place(s, t, f, g);
    assert(find(root, n) matches Some(Window::Leaf(_)));
    assert(leaf_ids(frame.root).len() >= 1) by {
        let i = choose|i: int| 0 <= i < leaf_ids(frame.root).len() && leaf_ids(frame.root)[i] == w;
        assert(leaf_ids(frame.root)[i] == w);
    }
    assert(frame.selected_window != n) by {
        lemma_found_is_somewhere(frame.root, frame.selected_window);
        if frame.selected_window == n {
            assert(frame.live(n));
            assert(has_window(s.list[k], n));
        }
    }
    assert(frame_without(g, n) == frame);
    let u = t.without_window(f, n);
    lemma_same_place(t, u, f, frame);
}

/// A frame that takes the place of one with its identifier is got in its place.
pub(crate) proof fn lemma_same_place(s: Frames, t: Frames, f: u64, g: FrameState)
    requires
        s.get(f) is Some,
        g.id == f,
        t.list == s.with_frame(f, g).list,
    ensures
        t.get(f) == Some(g),
{
    lemma_frame_index(s.list, f);
    let k = frame_index(s.list, f);
    assert(t.list == s.list.update(k, g));
    lemma_frame_index(t.list, f);
    let m = frame_index(t.list, f);
    if m < k {
        assert(t.list[m] == s.list[m]);
    } else if k < m {
        assert(t.list[k].id != f);
    }
}

/// The windows of a frame fill its room after a split and after a deletion, and the
/// room is the same.
pub proof fn law_windows_keep_filling_frame(s: Frames, f: u64, w: u64, dir: SplitDirection)
    requires
        s.get(f) matches Some(frame) && tiled(frame.root) && frame.id == f,
    ensures
        s.split(f, w, dir).get(f) matches Some(g) && tiled(g.root) && first_rect(g.root)
            == first_rect(s.get(f)->0.root),
        s.without_window(f, w).get(f) matches Some(g) && tiled(g.root) && first_rect(g.root)
            == first_rect(s.get(f)->0.root),
{
    let frame = s.get(f)->0;
    let whole = first_rect(frame.root);
    let at = SplitDirection::Vertical;
    if s.can_split(f, w) {
        let n = s.next_window_id;
        let c = (n + 1) as u64;
        law_split_windows_fill(frame.root, whole, near(whole, at), at, w, dir, None, n, c);
        let root = split_at(frame.root, w, dir, None, n, c);
        lemma_same_place(s, s.split(f, w, dir), f, FrameState { root, ..frame });
    }
    if s.can_delete(f, w) {
        lemma_sole_window(frame.root, w);
        law_windows_fill_after_deletion(frame.root, whole, near(whole, at), at, w);
        let root = without(frame.root, w, at);
        lemma_room_stays(root, whole);
        lemma_same_place(s, s.without_window(f, w), f, frame_without(frame, w));
    }
}

/// A frame with more than one window has no window as its root.
proof fn lemma_sole_window(root: Windows, w: u64)
    requires
        rest_of(root) is Empty,
        leaf_ids(root).len() > 1,
    ensures
        root !is Leaf,
{
    reveal_with_fuel(leaf_ids, 2);
}

/// What fills a room is as large as it.
proof fn lemma_room_stays(root: Windows, whole: Rect)
    requires
        root !is Empty,
        rest_of(root) is Empty,
        fills(
            root,
            whole,
            near(whole, SplitDirection::Vertical),
            SplitDirection::Vertical,
        ),
    ensures
        first_rect(root) == whole,
{
    reveal_with_fuel(fills, 2);
    let r = first_rect(root);
    assert(r.x == whole.x && r.y == whole.y && r.width == whole.width && r.height
        == whole.height);
}

proof fn lemma_others_deleted(s: Frames, f: u64, ids: Seq<u64>, keep: u64)
    requires
        s.get(f) matches Some(g) && g.id == f && sound(g) && tiled(g.root) && leaf_ids(
            g.root,
        ).contains(keep),
        forall|x: u64| #[trigger]
            leaf_ids(s.get(f)->0.root).contains(x) ==> x == keep || ids.contains(x),
    ensures
        all_deleted(s, f, ids, keep).get(f) matches Some(g) && g.id == f && sound(g) && tiled(
            g.root,
        ) && first_rect(g.root) == first_rect(s.get(f)->0.root) && leaf_ids(g.root) == seq![keep],
    decreases ids.len(),
{
    let g = s.get(f)->0;
    let list = leaf_ids(g.root);
    if ids.len() == 0 {
        let i = choose|i: int| 0 <= i < list.len() && list[i] == keep;
        assert forall|j: int| 0 <= j < list.len() implies list[j] == keep by {
            assert(list.contains(list[j]));
            assert(!ids.contains(list[j]));
        }
        if list.len() > 1 {
            assert(list[0] == list[1]);
        }
        assert(list =~= seq![keep]);
    } else {
        let id = ids[0];
        let rest = ids.drop_first();
        let t = if id == keep {
            s
        } else {
            s.without_window(f, id)
        };
        law_windows_keep_filling_frame(s, f, id, SplitDirection::Vertical);
        lemma_found_is_somewhere(g.root, id);
        if id != keep && list.contains(id) {
            crate::window_cmds::laws::law_listed_window_is_live(g.root, id);
            let a = choose|a: int| 0 <= a < list.len() && list[a] == id;
            let b = choose|b: int| 0 <= b < list.len() && list[b] == keep;
            assert(list.len() > 1);
            assert(s.can_delete(f, id));
            law_deleting_a_window_keeps_frame_sound(g, id);
            let h = frame_without(g, id);
            lemma_same_place(s, t, f, h);
            crate::window::law_without_removes_window(g.root, id, SplitDirection::Vertical);
            lemma_omitting(list, id);
            assert(leaf_ids(h.root) == omitting(list, id));
            assert(omitting(list, id).contains(keep));
            assert forall|x: u64| #[trigger] leaf_ids(h.root).contains(x) implies x == keep
                || rest.contains(x) by {
                assert(omitting(list, id).contains(x));
                assert(list.contains(x));
                if x != keep {
                    let j = choose|j: int| 0 <= j < ids.len() && ids[j] == x;
                    assert(rest[j - 1] == x);
                }
            }
        } else {
            assert(t == s);
            assert forall|x: u64| #[trigger] list.contains(x) implies x == keep || rest.contains(
                x,
            ) by {
                if x != keep {
                    let j = choose|j: int| 0 <= j < ids.len() && ids[j] == x;
                    assert(j > 0);
                    assert(rest[j - 1] == x);
                }
            }
        }
        lemma_others_deleted(t, f, rest, keep);
    }
}

/// A tree that fills its room and has one window is that window, with all the room.
proof fn lemma_one_window_has_all_room(root: Windows, keep: u64)
    requires
        tiled(root),
        leaf_ids(root) == seq![keep],
    ensures
        find(root, keep) matches Some(Window::Leaf(l)) && l.bounds == first_rect(root),
{
    match root {
        Windows::Empty => {},
        Windows::Leaf(l, next) => {
            assert(leaf_ids(root)[0] == l.id);
        },
        Windows::Internal(c, child, next) => {
            lemma_branches_have_leaves(*child);
            assert(leaf_ids(root).len() >= 2);
        },
    }
}

proof fn lemma_branches_have_leaves(w: Windows)
    requires
        branching(w),
    ensures
        w !is Empty ==> leaf_ids(w).len() >= 1,
        w !is Empty && rest_of(w) !is Empty ==> leaf_ids(w).len() >= 2,
    decreases w,
{
    match w {
        Windows::Empty => {},
        Windows::Leaf(_, next) => {
            lemma_branches_have_leaves(*next);
        },
        Windows::Internal(_, child, next) => {
            lemma_branches_have_leaves(*child);
            lemma_branches_have_leaves(*next);
        },
    }
}

/// After the other windows were deleted, the window is the only one of its frame, has
/// all the room, is selected, and its buffer is current.
pub proof fn law_only_window_has_all_room(st: UiState, args: Seq<Lisp>, f: u64, w: u64)
    requires
        args.len() <= 2,
        window_or_error_arg(st, crate::value::arg(args, 0)) == Found::Is((f, w)),
        ({
            let s = after(st, crate::value::arg(args, 0));
            s.frames.get(f) matches Some(g) && g.id == f && sound(g) && tiled(g.root) && leaf_ids(
                g.root,
            ).contains(w)
        }),
    ensures
        ({
            let s = after(st, crate::value::arg(args, 0));
            let done = delete_other_windows_step(st, args);
            let g = done.state.frames.get(f)->0;
            let l = find(g.root, w)->0->Leaf_0;
            &&& done.end == Outcome::Value(Lisp::Nil)
            &&& done.state.frames.get(f) is Some
            &&& leaf_ids(g.root) == seq![w]
            &&& find(g.root, w) matches Some(Window::Leaf(_))
            &&& l.bounds == first_rect(s.frames.get(f)->0.root)
            &&& g.selected_window == w
            &&& s.buffers.get(l.buffer_id) is Some ==> done.state.buffers.current == Some(
                l.buffer_id,
            )
        }),
{
    let s = after(st, crate::value::arg(args, 0));
    let frame = s.frames.get(f)->0;
    lemma_others_deleted(s.frames, f, leaf_ids(frame.root), w);
    let t = all_deleted(s.frames, f, leaf_ids(frame.root), w);
    let g = t.get(f)->0;
    lemma_one_window_has_all_room(g.root, w);
    assert(g.live(w));
    let h = g.with_selected(w);
    lemma_same_place(t, t.with_frame(f, h), f, h);
}

/// A new frame has one window that fills its room.
pub proof fn law_new_frame_is_filled(
    id: u64,
    root_id: u64,
    minibuffer_id: u64,
    name: Lisp,
    width: u32,
    height: u32,
    buffer: u64,
)
    ensures
        tiled(
            crate::frame::new_frame(id, root_id, minibuffer_id, name, width, height, buffer).root,
        ),
{
    reveal_with_fuel(fills, 2);
    reveal_with_fuel(branching, 2);
}

} // verus!
