//! What every operation keeps of the frames of a session.
use crate::buffer::next_of;
use crate::frame::{
    frame_ids, frame_index, frame_without, lemma_frame_index, new_frame, no_frames, FrameState,
    Frames,
};
use crate::value::Lisp;
use crate::window::{
    find, followed, leaf_ids, law_change_keeps_window_list, law_changed_window_is_found,
    law_other_windows_stay, law_split_adds_window_after, law_without_removes_window, omitting,
    split_at, with_leaf, Leaf, SplitDirection, Window, Windows,
};
use crate::window_cmds::laws::{
    has_combination, law_deleting_a_window_keeps_frame_sound, law_listed_window_is_live,
    law_new_frame_is_sound, lemma_combination_is_found, lemma_found_is_somewhere, lemma_omitting,
    lemma_split_keeps_leaf, lemma_without_combinations, sound,
};
use crate::window_cmds::listing::{visible_ids, walked_frames};
use crate::window_cmds::resolve::Found;
use vstd::prelude::*;

verus! {

/// Whether a frame has a window with an identifier: one that shows a buffer, a
/// combination, or the minibuffer window.
pub open spec fn has_window(f: FrameState, x: u64) -> bool {
    ||| leaf_ids(f.root).contains(x)
    ||| has_combination(f.root, x)
    ||| f.minibuffer_leaf matches Some(l) && l.id == x
}

/// Whether the minibuffer window of a frame is known by its identifier and is no
/// window of the tree.
pub open spec fn minibuffer_apart(f: FrameState) -> bool {
    match f.minibuffer_leaf {
        Some(l) => {
            &&& f.minibuffer_window == Some(l.id)
            &&& !leaf_ids(f.root).contains(l.id)
            &&& !has_combination(f.root, l.id)
        },
        None => f.minibuffer_window is None,
    }
}

/// Whether frames are in order: each is sound, an earlier one has a smaller
/// identifier, no two share a window, identifiers are below the next ones to be given
/// out, and one frame is selected where there is any.
pub open spec fn well_formed(s: Frames) -> bool {
    &&& forall|i: int, j: int|
        0 <= i < j < s.list.len() ==> (#[trigger] s.list[i]).id < (#[trigger] s.list[j]).id
    &&& forall|i: int| 0 <= i < s.list.len() ==> (#[trigger] s.list[i]).id < s.next_frame_id
    &&& forall|i: int|
        0 <= i < s.list.len() ==> sound(#[trigger] s.list[i]) && minibuffer_apart(s.list[i])
    &&& forall|i: int, x: u64|
        0 <= i < s.list.len() && #[trigger] has_window(s.list[i], x) ==> x < s.next_window_id
    &&& forall|i: int, j: int, x: u64|
        0 <= i < j < s.list.len() && #[trigger] has_window(s.list[i], x)
            ==> !#[trigger] has_window(s.list[j], x)
    &&& match s.selected {
        Some(id) => s.get(id) is Some,
        None => s.list.len() == 0,
    }
}

/// There are no frames at first, and they are in order.
pub proof fn law_no_frames_are_well_formed()
    ensures
        well_formed(no_frames()),
{
}

/// Whether each number is greater than those before it.
pub open spec fn rising(ids: Seq<u64>) -> bool {
    forall|i: int, j: int| 0 <= i < j < ids.len() ==> #[trigger] ids[i] < #[trigger] ids[j]
}

proof fn lemma_visible_frames_rise(list: Seq<FrameState>)
    requires
        forall|i: int, j: int|
            0 <= i < j < list.len() ==> (#[trigger] list[i]).id < (#[trigger] list[j]).id,
    ensures
        rising(visible_ids(list)),
        forall|x: u64| #[trigger]
            visible_ids(list).contains(x) <==> exists|i: int|
                0 <= i < list.len() && (#[trigger] list[i]).id == x && list[i].visible,
    decreases list.len(),
{
    if list.len() > 0 {
        let rest = list.drop_last();
        let n = list.len() - 1;
        assert forall|i: int, j: int| 0 <= i < j < rest.len() implies (#[trigger] rest[i]).id < (
        #[trigger] rest[j]).id by {
            assert(list[i].id < list[j].id);
        }
        lemma_visible_frames_rise(rest);
        let shown = visible_ids(rest);
        let ids = visible_ids(list);
        assert forall|i: int, j: int| 0 <= i < j < ids.len() implies #[trigger] ids[i]
            < #[trigger] ids[j] by {
            if j == shown.len() {
                assert(shown.contains(shown[i]));
                let k = choose|k: int|
                    0 <= k < rest.len() && (#[trigger] rest[k]).id == shown[i] && rest[k].visible;
                assert(list[k].id < list[n].id);
            } else {
                assert(shown[i] < shown[j]);
            }
        }
        assert forall|x: u64| #[trigger]
            ids.contains(x) <==> exists|i: int|
                0 <= i < list.len() && (#[trigger] list[i]).id == x && list[i].visible by {
            if ids.contains(x) {
                let a = choose|a: int| 0 <= a < ids.len() && ids[a] == x;
                if a < shown.len() {
                    assert(shown[a] == x);
                    assert(shown.contains(x));
                    let k = choose|k: int|
                        0 <= k < rest.len() && (#[trigger] rest[k]).id == x && rest[k].visible;
                    assert(list[k] == rest[k]);
                } else {
                    assert(list[n].id == x && list[n].visible);
                }
            }
            if exists|i: int|
                0 <= i < list.len() && (#[trigger] list[i]).id == x && list[i].visible {
                let k = choose|k: int|
                    0 <= k < list.len() && (#[trigger] list[k]).id == x && list[k].visible;
                if k < n {
                    assert(rest[k] == list[k]);
                    assert(shown.contains(x));
                    let a = choose|a: int| 0 <= a < shown.len() && shown[a] == x;
                    assert(ids[a] == x);
                } else {
                    assert(ids[shown.len() as int] == x);
                }
            }
        }
    }
}

/// The frames whose windows are listed come by their identifiers, smaller ones
/// first: all frames, the visible ones, or a single one.
pub proof fn law_frames_are_walked_by_identifier(s: Frames, own: u64, a: Lisp)
    requires
        well_formed(s),
    ensures
        walked_frames(s, own, a) matches Found::Is(ids) ==> rising(ids),
        rising(frame_ids(s.list)),
        rising(visible_ids(s.list)),
        forall|x: u64| #[trigger]
            frame_ids(s.list).contains(x) <==> exists|i: int|
                0 <= i < s.list.len() && (#[trigger] s.list[i]).id == x,
        forall|x: u64| #[trigger]
            visible_ids(s.list).contains(x) <==> exists|i: int|
                0 <= i < s.list.len() && (#[trigger] s.list[i]).id == x && s.list[i].visible,
{
    lemma_visible_frames_rise(s.list);
    let ids = frame_ids(s.list);
    assert forall|i: int, j: int| 0 <= i < j < ids.len() implies #[trigger] ids[i]
        < #[trigger] ids[j] by {
        assert(s.list[i].id < s.list[j].id);
    }
    assert forall|x: u64| #[trigger]
        ids.contains(x) <==> exists|i: int|
            0 <= i < s.list.len() && (#[trigger] s.list[i]).id == x by {
        if ids.contains(x) {
            let k = choose|k: int| 0 <= k < ids.len() && ids[k] == x;
            assert(s.list[k].id == x);
        }
        if exists|i: int| 0 <= i < s.list.len() && (#[trigger] s.list[i]).id == x {
            let k = choose|k: int| 0 <= k < s.list.len() && (#[trigger] s.list[k]).id == x;
            assert(ids[k] == x);
        }
    }
}

/// The place of a frame in a list where no identifier stands twice.
pub(crate) proof fn lemma_place_of_frame(s: Frames, i: int)
    requires
        well_formed(s),
        0 <= i < s.list.len(),
    ensures
        frame_index(s.list, s.list[i].id) == i,
        s.get(s.list[i].id) == Some(s.list[i]),
{
    let id = s.list[i].id;
    lemma_frame_index(s.list, id);
    let k = frame_index(s.list, id);
    if k < i {
        assert(s.list[k].id < s.list[i].id);
    } else if i < k {
        assert(s.list[i].id != id);
    }
}

/// Frames stay in order when one of them is changed and keeps its identifier, and
/// each of its windows was one before or is new.
pub(crate) proof fn lemma_changed_frame(s: Frames, id: u64, g: FrameState, n: u64)
    requires
        well_formed(s),
        s.get(id) is Some,
        g.id == id,
        sound(g),
        minibuffer_apart(g),
        s.next_window_id <= n,
        forall|x: u64| #[trigger]
            has_window(g, x) ==> has_window(s.get(id)->0, x) || s.next_window_id <= x < n,
    ensures
        well_formed(Frames { next_window_id: n, ..s.with_frame(id, g) }),
        s.with_frame(id, g).get(id) == Some(g),
{
    lemma_frame_index(s.list, id);
    let k = frame_index(s.list, id);
    let f = s.list[k];
    let t = Frames { next_window_id: n, ..s.with_frame(id, g) };
    assert(t.list =~= s.list.update(k, g));
    assert forall|i: int, j: int| 0 <= i < j < t.list.len() implies (#[trigger] t.list[i]).id < (
    #[trigger] t.list[j]).id by {
        assert(s.list[i].id < s.list[j].id);
    }
    assert forall|i: int| 0 <= i < t.list.len() implies (#[trigger] t.list[i]).id
        < t.next_frame_id by {
        assert(s.list[i].id < s.next_frame_id);
    }
    assert forall|i: int| 0 <= i < t.list.len() implies sound(#[trigger] t.list[i])
        && minibuffer_apart(t.list[i]) by {
        if i != k {
            assert(t.list[i] == s.list[i]);
            assert(sound(s.list[i]));
        }
    }
    assert forall|i: int, x: u64|
        0 <= i < t.list.len() && #[trigger] has_window(t.list[i], x) implies x
        < t.next_window_id by {
        if i != k {
            assert(has_window(s.list[i], x));
        } else if has_window(f, x) {
            assert(has_window(s.list[k], x));
        }
    }
    assert forall|i: int, j: int, x: u64|
        0 <= i < j < t.list.len() && #[trigger] has_window(
            t.list[i],
            x,
        ) implies !#[trigger] has_window(t.list[j], x) by {
        if i == k {
            assert(t.list[j] == s.list[j]);
            if has_window(f, x) {
                assert(has_window(s.list[i], x));
                assert(!has_window(s.list[j], x));
            } else if has_window(s.list[j], x) {
                assert(x < s.next_window_id);
            }
        } else if j == k {
            assert(t.list[i] == s.list[i]);
            assert(has_window(s.list[i], x));
            assert(x < s.next_window_id);
            assert(!has_window(s.list[j], x));
        } else {
            assert(t.list[i] == s.list[i] && t.list[j] == s.list[j]);
            assert(has_window(s.list[i], x));
            assert(!has_window(s.list[j], x));
        }
    }
    lemma_frame_index(t.list, id);
    let m = frame_index(t.list, id);
    if m < k {
        assert(t.list[m] == s.list[m]);
    } else if k < m {
        assert(t.list[k].id != id);
    }
    match s.selected {
        Some(x) => {
            lemma_frame_index(s.list, x);
            lemma_frame_index(t.list, x);
            let a = frame_index(s.list, x);
            assert(t.list[a].id == x);
        },
        None => {},
    }
}

/// Changing a window does not change which combinations there are.
proof fn lemma_leaf_change_keeps_combinations(w: Windows, id: u64, new: Leaf, x: u64)
    ensures
        has_combination(with_leaf(w, id, new), x) == has_combination(w, x),
    decreases w,
{
    match w {
        Windows::Empty => {},
        Windows::Leaf(l, next) => {
            lemma_leaf_change_keeps_combinations(*next, id, new, x);
        },
        Windows::Internal(c, child, next) => {
            lemma_leaf_change_keeps_combinations(*child, id, new, x);
            lemma_leaf_change_keeps_combinations(*next, id, new, x);
        },
    }
}

/// A frame stays in order when one of its windows is changed and keeps its identifier.
pub(crate) proof fn lemma_frame_with_leaf(f: FrameState, w: u64, new: Leaf)
    requires
        sound(f),
        minibuffer_apart(f),
        f.window(w) matches Some(Window::Leaf(_)),
        new.id == w,
    ensures
        sound(f.with_leaf(w, new)),
        minibuffer_apart(f.with_leaf(w, new)),
        f.with_leaf(w, new).id == f.id,
        f.with_leaf(w, new).window(w) == Some(Window::Leaf(new)),
        forall|x: u64| #[trigger] has_window(f.with_leaf(w, new), x) == has_window(f, x),
{
    let g = f.with_leaf(w, new);
    if find(f.root, w) is Some {
        law_change_keeps_window_list(f.root, w, new);
        law_changed_window_is_found(f.root, w, new);
        assert forall|x: u64| has_combination(g.root, x) == #[trigger] has_combination(
            f.root,
            x,
        ) by {
            lemma_leaf_change_keeps_combinations(f.root, w, new, x);
        }
        assert forall|x: u64| leaf_ids(g.root).contains(x) implies !#[trigger] has_combination(
            g.root,
            x,
        ) by {
            lemma_leaf_change_keeps_combinations(f.root, w, new, x);
            assert(!has_combination(f.root, x));
        }
        match f.minibuffer_leaf {
            Some(l) => {
                lemma_leaf_change_keeps_combinations(f.root, w, new, l.id);
            },
            None => {},
        }
        let s = f.selected_window;
        if s != w {
            law_other_windows_stay(f.root, w, s, new);
        }
        assert forall|x: u64| #[trigger] has_window(g, x) == has_window(f, x) by {
            lemma_leaf_change_keeps_combinations(f.root, w, new, x);
        }
    }
}

/// Frames stay in order when a window is changed and keeps its identifier.
pub proof fn law_changed_window_keeps_order(s: Frames, f: u64, w: u64, new: Leaf)
    requires
        well_formed(s),
        s.window(f, w) matches Some(Window::Leaf(_)),
        new.id == w,
    ensures
        well_formed(s.with_leaf(f, w, new)),
{
    let frame = s.get(f)->0;
    lemma_frame_index(s.list, f);
    assert(sound(s.list[frame_index(s.list, f)]));
    lemma_frame_with_leaf(frame, w, new);
    lemma_changed_frame(s, f, frame.with_leaf(w, new), s.next_window_id);
    assert(Frames {
        next_window_id: s.next_window_id,
        ..s.with_frame(f, frame.with_leaf(w, new))
    } == s.with_leaf(f, w, new));
}

/// Frames stay in order when a window of a frame is selected.
pub proof fn law_selecting_a_window_keeps_order(s: Frames, f: u64, w: u64)
    requires
        well_formed(s),
        s.get(f) is Some,
    ensures
        well_formed(s.with_frame(f, s.get(f)->0.with_selected(w))),
{
    let frame = s.get(f)->0;
    lemma_frame_index(s.list, f);
    assert(sound(s.list[frame_index(s.list, f)]));
    let g = frame.with_selected(w);
    assert(g.root == frame.root);
    lemma_changed_frame(s, f, g, s.next_window_id);
    assert(Frames { next_window_id: s.next_window_id, ..s.with_frame(f, g) } == s.with_frame(f, g));
}

/// Frames stay in order when a window is deleted, and it is no window of them any more.
pub proof fn law_deleting_a_window_keeps_order(s: Frames, f: u64, w: u64)
    requires
        well_formed(s),
    ensures
        well_formed(s.without_window(f, w)),
        s.can_delete(f, w) ==> forall|i: int|
            0 <= i < s.without_window(f, w).list.len() ==> !has_window(
                #[trigger] s.without_window(f, w).list[i],
                w,
            ),
{
    if s.can_delete(f, w) {
        let frame = s.get(f)->0;
        lemma_frame_index(s.list, f);
        let k = frame_index(s.list, f);
        assert(sound(s.list[k]));
        law_deleting_a_window_keeps_frame_sound(frame, w);
        let g = frame_without(frame, w);
        law_without_removes_window(frame.root, w, SplitDirection::Vertical);
        lemma_omitting(leaf_ids(frame.root), w);
        assert forall|x: u64| #[trigger] has_window(g, x) implies has_window(frame, x) by {
            if leaf_ids(g.root).contains(x) {
                assert(omitting(leaf_ids(frame.root), w).contains(x));
            } else if has_combination(g.root, x) {
                lemma_without_combinations(frame.root, w, SplitDirection::Vertical, x);
            }
        }
        assert(minibuffer_apart(g)) by {
            match g.minibuffer_leaf {
                Some(l) => {
                    if leaf_ids(g.root).contains(l.id) {
                        assert(omitting(leaf_ids(frame.root), w).contains(l.id));
                    }
                    if has_combination(g.root, l.id) {
                        lemma_without_combinations(
                            frame.root,
                            w,
                            SplitDirection::Vertical,
                            l.id,
                        );
                    }
                },
                None => {},
            }
        }
        lemma_changed_frame(s, f, g, s.next_window_id);
        assert(Frames { next_window_id: s.next_window_id, ..s.with_frame(f, g) } == s.with_frame(
            f,
            g,
        ));
        let t = s.without_window(f, w);
        lemma_found_is_somewhere(frame.root, w);
        assert(leaf_ids(frame.root).contains(w));
        assert(has_window(s.list[k], w));
        assert forall|i: int| 0 <= i < t.list.len() implies !has_window(
            #[trigger] t.list[i],
            w,
        ) by {
            if i == k {
                assert(t.list[i] == g);
                if has_combination(g.root, w) {
                    lemma_without_combinations(frame.root, w, SplitDirection::Vertical, w);
                    assert(!has_combination(frame.root, w));
                }
            } else if i < k {
                assert(t.list[i] == s.list[i]);
                if has_window(s.list[i], w) {
                    assert(!has_window(s.list[k], w));
                }
            } else {
                assert(t.list[i] == s.list[i]);
                assert(!has_window(s.list[i], w));
            }
        }
    }
}

/// The combinations after a split: those before it, and perhaps the new one.
proof fn lemma_split_combinations(
    w: Windows,
    id: u64,
    dir: SplitDirection,
    here: Option<SplitDirection>,
    new_id: u64,
    combination_id: u64,
    x: u64,
)
    ensures
        has_combination(split_at(w, id, dir, here, new_id, combination_id), x) ==> has_combination(
            w,
            x,
        ) || x == combination_id,
    decreases w,
{
    reveal_with_fuel(has_combination, 4);
    match w {
        Windows::Empty => {},
        Windows::Leaf(l, next) => {
            if l.id != id {
                lemma_split_combinations(*next, id, dir, here, new_id, combination_id, x);
            }
        },
        Windows::Internal(c, child, next) => {
            lemma_split_combinations(
                *child,
                id,
                dir,
                Some(c.direction),
                new_id,
                combination_id,
                x,
            );
            lemma_split_combinations(*next, id, dir, here, new_id, combination_id, x);
        },
    }
}

/// What a list holds after an element was put behind each occurrence of another one.
proof fn lemma_followed_elements(s: Seq<u64>, id: u64, new: u64)
    requires
        s.no_duplicates(),
        !s.contains(new),
    ensures
        followed(s, id, new).no_duplicates(),
        forall|x: u64| #[trigger]
            followed(s, id, new).contains(x) <==> s.contains(x) || (x == new && s.contains(id)),
    decreases s.len(),
{
    if s.len() > 0 {
        let t = s.drop_first();
        assert(t.no_duplicates()) by {
            assert forall|i: int, j: int| 0 <= i < t.len() && 0 <= j < t.len() && i != j implies t[i]
                != t[j] by {
                assert(t[i] == s[i + 1] && t[j] == s[j + 1]);
            }
        }
        assert forall|x: u64| s.contains(x) <==> (x == s[0] || #[trigger] t.contains(x)) by {
            if s.contains(x) {
                let i = choose|i: int| 0 <= i < s.len() && s[i] == x;
                if i > 0 {
                    assert(t[i - 1] == x);
                }
            }
            if t.contains(x) {
                let i = choose|i: int| 0 <= i < t.len() && t[i] == x;
                assert(s[i + 1] == x);
            }
            if x == s[0] {
                assert(s[0] == x);
            }
        }
        assert(!t.contains(s[0])) by {
            if t.contains(s[0]) {
                let i = choose|i: int| 0 <= i < t.len() && t[i] == s[0];
                assert(s[i + 1] == s[0]);
            }
        }
        assert(!t.contains(new));
        lemma_followed_elements(t, id, new);
        let o = followed(t, id, new);
        let head = if s[0] == id {
            seq![id, new]
        } else {
            seq![s[0]]
        };
        let r = followed(s, id, new);
        assert(r =~= head + o);
        assert forall|x: u64| #[trigger] r.contains(x) <==> head.contains(x) || o.contains(x) by {
            if r.contains(x) {
                let i = choose|i: int| 0 <= i < r.len() && r[i] == x;
                if i < head.len() {
                    assert(head[i] == x);
                } else {
                    assert(o[i - head.len()] == x);
                }
            }
            if head.contains(x) {
                let i = choose|i: int| 0 <= i < head.len() && head[i] == x;
                assert(r[i] == x);
            }
            if o.contains(x) {
                let i = choose|i: int| 0 <= i < o.len() && o[i] == x;
                assert(r[i + head.len()] == x);
            }
        }
        assert forall|x: u64| #[trigger]
            head.contains(x) <==> x == s[0] || (s[0] == id && x == new) by {
            if x == s[0] {
                assert(head[0] == x);
            }
            if s[0] == id && x == new {
                assert(head[1] == x);
            }
        }
        assert(o.contains(s[0]) ==> false) by {
            assert(o.contains(s[0]) ==> t.contains(s[0]) || (s[0] == new && t.contains(id)));
            assert(s.contains(s[0])) by {
                assert(s[0] == s[0]);
            }
        }
        assert(s[0] == id ==> !o.contains(new)) by {
            assert(o.contains(new) ==> t.contains(new) || t.contains(id));
        }
        assert(r.no_duplicates()) by {
            assert forall|i: int, j: int| 0 <= i < j < r.len() implies r[i] != r[j] by {
                if i >= head.len() {
                    assert(r[i] == o[i - head.len()] && r[j] == o[j - head.len()]);
                } else if j >= head.len() {
                    assert(o[j - head.len()] == r[j]);
                    assert(o.contains(r[j]));
                    assert(head[i] == r[i]);
                } else {
                    assert(s.contains(id)) by {
                        assert(s[0] == id);
                    }
                    assert(r[0] == id && r[1] == new);
                }
            }
        }
    }
}

/// A frame stays sound when a window is split and the identifiers of the new window
/// and the new combination are new: it has those windows besides the ones it had.
pub proof fn law_splitting_keeps_frame_sound(
    f: FrameState,
    id: u64,
    dir: SplitDirection,
    new_id: u64,
    combination_id: u64,
)
    requires
        sound(f),
        minibuffer_apart(f),
        find(f.root, id) matches Some(Window::Leaf(_)),
        !has_window(f, new_id),
        !has_window(f, combination_id),
        new_id != combination_id,
    ensures
        ({
            let g = FrameState {
                root: split_at(f.root, id, dir, None, new_id, combination_id),
                ..f
            };
            &&& sound(g)
            &&& minibuffer_apart(g)
            &&& has_window(g, new_id)
            &&& forall|x: u64| #[trigger]
                has_window(g, x) ==> has_window(f, x) || x == new_id || x == combination_id
            &&& forall|x: u64| #[trigger]
                leaf_ids(g.root).contains(x) <==> leaf_ids(f.root).contains(x) || x == new_id
        }),
{
    let g = FrameState { root: split_at(f.root, id, dir, None, new_id, combination_id), ..f };
    law_split_adds_window_after(f.root, id, dir, None, new_id, combination_id);
    lemma_followed_elements(leaf_ids(f.root), id, new_id);
    lemma_found_is_somewhere(f.root, id);
    assert(leaf_ids(f.root).contains(id));
    assert forall|x: u64| #[trigger]
        leaf_ids(g.root).contains(x) <==> leaf_ids(f.root).contains(x) || x == new_id by {
        assert(followed(leaf_ids(f.root), id, new_id).contains(x) <==> leaf_ids(f.root).contains(x)
            || (x == new_id && leaf_ids(f.root).contains(id)));
    }
    assert forall|x: u64| leaf_ids(g.root).contains(x) implies !#[trigger] has_combination(
        g.root,
        x,
    ) by {
        lemma_split_combinations(f.root, id, dir, None, new_id, combination_id, x);
        if x == new_id {
            assert(!has_combination(f.root, new_id));
        } else {
            assert(leaf_ids(f.root).contains(x));
            assert(!has_combination(f.root, x));
        }
    }
    assert forall|x: u64| #[trigger] has_window(g, x) implies has_window(f, x) || x == new_id
        || x == combination_id by {
        lemma_split_combinations(f.root, id, dir, None, new_id, combination_id, x);
    }
    assert(has_window(f, f.selected_window)) by {
        lemma_found_is_somewhere(f.root, f.selected_window);
    }
    lemma_split_keeps_leaf(
        f.root,
        id,
        dir,
        None,
        new_id,
        combination_id,
        f.selected_window,
    );
    match f.minibuffer_leaf {
        Some(l) => {
            assert(has_window(f, l.id));
            lemma_split_combinations(f.root, id, dir, None, new_id, combination_id, l.id);
        },
        None => {},
    }
    assert(leaf_ids(g.root).contains(new_id));
}

/// Frames stay in order when a window is split.
pub proof fn law_splitting_a_window_keeps_order(s: Frames, f: u64, w: u64, dir: SplitDirection)
    requires
        well_formed(s),
    ensures
        well_formed(s.split(f, w, dir)),
        s.can_split(f, w) ==> s.split(f, w, dir).window(f, s.next_window_id) matches Some(
            Window::Leaf(_),
        ),
{
    if s.can_split(f, w) {
        let frame = s.get(f)->0;
        lemma_frame_index(s.list, f);
        let k = frame_index(s.list, f);
        assert(sound(s.list[k]));
        let n = s.next_window_id;
        let c = (n + 1) as u64;
        assert(has_window(s.list[k], n) ==> n < s.next_window_id);
        assert(has_window(s.list[k], c) ==> c < s.next_window_id);
        law_splitting_keeps_frame_sound(frame, w, dir, n, c);
        let root = split_at(frame.root, w, dir, None, n, c);
        let g = FrameState { root, ..frame };
        let m: u64 = if find(root, c) is Some {
            (n + 2) as u64
        } else {
            c
        };
        assert forall|x: u64| #[trigger] has_window(g, x) implies has_window(frame, x)
            || s.next_window_id <= x < m by {
            if !has_window(frame, x) && x == c {
                if leaf_ids(g.root).contains(x) {
                    assert(leaf_ids(frame.root).contains(x));
                } else if has_combination(g.root, x) {
                    lemma_combination_is_found(root, x);
                }
            }
        }
        lemma_changed_frame(s, f, g, m);
        let t = s.split(f, w, dir);
        assert(t == (Frames { next_window_id: m, ..s.with_frame(f, g) }));
        assert(t.get(f) == Some(g));
        law_listed_window_is_live(root, n);
    }
}

/// Frames stay in order when a new one is made.
pub proof fn law_making_a_frame_keeps_order(
    s: Frames,
    name: Lisp,
    width: u32,
    height: u32,
    buffer: u64,
)
    requires
        well_formed(s),
        s.next_frame_id < u64::MAX,
        s.next_window_id < u64::MAX - 1,
    ensures
        well_formed(s.created(name, width, height, buffer)),
{
    let root = s.next_window_id;
    let mini = next_of(root);
    let f = new_frame(s.next_frame_id, root, mini, name, width, height, buffer);
    law_new_frame_is_sound(s.next_frame_id, root, mini, name, width, height, buffer);
    let t = s.created(name, width, height, buffer);
    assert(t.list =~= s.list.push(f));
    reveal_with_fuel(has_combination, 2);
    assert(leaf_ids(f.root) =~= seq![root]);
    assert forall|x: u64| #[trigger] has_window(f, x) implies x == root || x == mini by {}
    assert forall|i: int, j: int| 0 <= i < j < t.list.len() implies (#[trigger] t.list[i]).id < (
    #[trigger] t.list[j]).id by {
        assert(t.list[i] == s.list[i]);
        assert(s.list[i].id < s.next_frame_id);
        if j < s.list.len() {
            assert(t.list[j] == s.list[j]);
        }
    }
    assert forall|i: int| 0 <= i < t.list.len() implies (#[trigger] t.list[i]).id
        < t.next_frame_id by {
        if i < s.list.len() {
            assert(t.list[i] == s.list[i]);
            assert(s.list[i].id < s.next_frame_id);
        }
    }
    assert forall|i: int| 0 <= i < t.list.len() implies sound(#[trigger] t.list[i])
        && minibuffer_apart(t.list[i]) by {
        if i < s.list.len() {
            assert(t.list[i] == s.list[i]);
            assert(sound(s.list[i]));
        }
    }
    assert forall|i: int, x: u64|
        0 <= i < t.list.len() && #[trigger] has_window(t.list[i], x) implies x
        < t.next_window_id by {
        if i < s.list.len() {
            assert(has_window(s.list[i], x));
        }
    }
    assert forall|i: int, j: int, x: u64|
        0 <= i < j < t.list.len() && #[trigger] has_window(
            t.list[i],
            x,
        ) implies !#[trigger] has_window(t.list[j], x) by {
        assert(t.list[i] == s.list[i]);
        assert(has_window(s.list[i], x));
        if j < s.list.len() {
            assert(t.list[j] == s.list[j]);
            assert(!has_window(s.list[j], x));
        }
    }
    let n = s.list.len() as int;
    match s.selected {
        Some(id) => {
            lemma_frame_index(s.list, id);
            lemma_frame_index(t.list, id);
            let a = frame_index(s.list, id);
            assert(t.list[a].id == id);
        },
        None => {
            lemma_frame_index(t.list, f.id);
            assert(t.list[n].id == f.id);
        },
    }
}

/// Frames stay in order when one is deleted.
pub proof fn law_deleting_a_frame_keeps_order(s: Frames, id: u64)
    requires
        well_formed(s),
    ensures
        well_formed(s.deleted(id)),
        s.get(id) is Some ==> s.deleted(id).get(id) is None,
{
    lemma_frame_index(s.list, id);
    let k = frame_index(s.list, id);
    let t = s.deleted(id);
    if 0 <= k < s.list.len() {
        assert(t.list =~= s.list.remove(k));
        assert forall|i: int| 0 <= i < t.list.len() implies (#[trigger] t.list[i]) == s.list[if i
            < k {
            i
        } else {
            i + 1
        }] by {}
        assert forall|i: int, j: int| 0 <= i < j < t.list.len() implies (#[trigger] t.list[i]).id
            < (#[trigger] t.list[j]).id by {
            let a = if i < k {
                i
            } else {
                i + 1
            };
            let b = if j < k {
                j
            } else {
                j + 1
            };
            assert(s.list[a].id < s.list[b].id);
        }
        assert forall|i: int, x: u64|
            0 <= i < t.list.len() && #[trigger] has_window(t.list[i], x) implies x
            < t.next_window_id by {
            let a = if i < k {
                i
            } else {
                i + 1
            };
            assert(has_window(s.list[a], x));
        }
        assert forall|i: int, j: int, x: u64|
            0 <= i < j < t.list.len() && #[trigger] has_window(
                t.list[i],
                x,
            ) implies !#[trigger] has_window(t.list[j], x) by {
            let a = if i < k {
                i
            } else {
                i + 1
            };
            let b = if j < k {
                j
            } else {
                j + 1
            };
            assert(has_window(s.list[a], x));
            assert(!has_window(s.list[b], x));
        }
        lemma_frame_index(t.list, id);
        let m = frame_index(t.list, id);
        if m < t.list.len() {
            let a = if m < k {
                m
            } else {
                m + 1
            };
            assert(s.list[a].id == id);
            assert(s.list[k].id == id);
        }
        match s.selected {
            Some(x) => {
                if x == id {
                    if t.list.len() > 0 {
                        lemma_frame_index(t.list, t.list[0].id);
                    }
                } else {
                    lemma_frame_index(s.list, x);
                    let a = frame_index(s.list, x);
                    let b = if a < k {
                        a
                    } else {
                        a - 1
                    };
                    assert(t.list[b] == s.list[a]);
                    lemma_frame_index(t.list, x);
                }
            },
            None => {},
        }
    }
}

/// Frames stay in order when another one is selected.
pub proof fn law_selecting_a_frame_keeps_order(s: Frames, id: u64)
    requires
        well_formed(s),
    ensures
        well_formed(s.with_selected(id)),
{
    let t = s.with_selected(id);
    assert(t.list == s.list);
    assert(t.get(id) == s.get(id));
}

} // verus!
