//! What holds of windows and frames over several calls.
use crate::frame::{
    frame_index, frame_without, lemma_frame_index, lemma_record_index, new_frame, record_index,
    FrameState, Frames, RecordState,
};
use crate::table::entry;
use crate::value::Lisp;
use crate::window::{
    find, fitted, followed, leaf_ids, omitting, rest_of, split_at, with_first_rect, with_next,
    without, Leaf, Rect, SplitDirection, Window, Windows,
};
use crate::window_cmds::display::{at_least_one, shown};
use crate::window_cmds::listing::{place_of, stepped};
use crate::window_cmds::return_laws::law_steps_are_undone;
use crate::window_cmds::state::{boot_id, booted, UiState};
use vstd::prelude::*;

verus! {

/// Whether a combination has an identifier.
pub open spec fn has_combination(w: Windows, x: u64) -> bool
    decreases w,
{
    match w {
        Windows::Empty => false,
        Windows::Leaf(_, next) => has_combination(*next, x),
        Windows::Internal(c, child, next) => c.id == x || has_combination(*child, x)
            || has_combination(*next, x),
    }
}

/// Whether a frame is sound: no window is listed twice or is a combination too,
/// and the selected window shows a buffer.
pub open spec fn sound(f: FrameState) -> bool {
    &&& leaf_ids(f.root).no_duplicates()
    &&& forall|x: u64| leaf_ids(f.root).contains(x) ==> !#[trigger] has_combination(f.root, x)
    &&& f.live(f.selected_window)
}

/// A window that is listed and is no combination is found and shows a buffer.
pub proof fn law_listed_window_is_live(w: Windows, x: u64)
    requires
        leaf_ids(w).contains(x),
        !has_combination(w, x),
    ensures
        find(w, x) matches Some(Window::Leaf(_)),
    decreases w,
{
    let i = choose|i: int| 0 <= i < leaf_ids(w).len() && leaf_ids(w)[i] == x;
    match w {
        Windows::Empty => {},
        Windows::Leaf(l, next) => {
            if l.id != x {
                assert(leaf_ids(*next)[i - 1] == x);
                law_listed_window_is_live(*next, x);
            }
        },
        Windows::Internal(c, child, next) => {
            if i < leaf_ids(*child).len() {
                assert(leaf_ids(*child)[i] == x);
                law_listed_window_is_live(*child, x);
            } else {
                assert(leaf_ids(*next)[i - leaf_ids(*child).len()] == x);
                law_listed_window_is_live(*next, x);
                lemma_found_is_somewhere(*child, x);
            }
        },
    }
}

/// What is found is a listed window or a combination.
pub(crate) proof fn lemma_found_is_somewhere(w: Windows, x: u64)
    ensures
        find(w, x) is None || find(w, x) matches Some(Window::Leaf(_)) || has_combination(w, x),
        find(w, x) matches Some(Window::Leaf(_)) ==> leaf_ids(w).contains(x),
    decreases w,
{
    match w {
        Windows::Empty => {},
        Windows::Leaf(l, next) => {
            lemma_found_is_somewhere(*next, x);
            let ids = leaf_ids(w);
            assert(ids[0] == l.id);
            if leaf_ids(*next).contains(x) {
                let i = choose|i: int| 0 <= i < leaf_ids(*next).len() && leaf_ids(*next)[i] == x;
                assert(ids[i + 1] == x);
            }
        },
        Windows::Internal(c, child, next) => {
            lemma_found_is_somewhere(*child, x);
            lemma_found_is_somewhere(*next, x);
            let ids = leaf_ids(w);
            if leaf_ids(*child).contains(x) {
                let i = choose|i: int| 0 <= i < leaf_ids(*child).len() && leaf_ids(*child)[i] == x;
                assert(ids[i] == x);
            }
            if leaf_ids(*next).contains(x) {
                let i = choose|i: int| 0 <= i < leaf_ids(*next).len() && leaf_ids(*next)[i] == x;
                assert(ids[i + leaf_ids(*child).len()] == x);
            }
        },
    }
}

proof fn lemma_fitted_combinations(
    w: Windows,
    whole: Rect,
    start: u32,
    dir: SplitDirection,
    x: u64,
)
    ensures
        has_combination(fitted(w, whole, start, dir), x) == has_combination(w, x),
    decreases w,
{
    match w {
        Windows::Empty => {},
        Windows::Leaf(l, next) => {
            let r = crate::window::child_rect(l.bounds, whole, start, dir, *next is Empty);
            lemma_fitted_combinations(*next, whole, crate::window::after_child(r, dir), dir, x);
        },
        Windows::Internal(c, child, next) => {
            let r = crate::window::child_rect(c.bounds, whole, start, dir, *next is Empty);
            lemma_fitted_combinations(
                *child,
                r,
                crate::window::first_start(r, c.direction),
                c.direction,
                x,
            );
            lemma_fitted_combinations(*next, whole, crate::window::after_child(r, dir), dir, x);
        },
    }
}

proof fn lemma_placed_combinations(w: Windows, r: Rect, x: u64)
    ensures
        has_combination(with_first_rect(w, r), x) == has_combination(w, x),
{
    match w {
        Windows::Internal(c, child, next) => {
            lemma_fitted_combinations(
                *child,
                r,
                crate::window::first_start(r, c.direction),
                c.direction,
                x,
            );
        },
        _ => {},
    }
}

proof fn lemma_next_combinations(w: Windows, rest: Windows, x: u64)
    requires
        has_combination(with_next(w, rest), x),
    ensures
        has_combination(w, x) || has_combination(rest, x),
{
}

/// Deleting a window makes no combination.
pub(crate) proof fn lemma_without_combinations(w: Windows, id: u64, dir: SplitDirection, x: u64)
    requires
        has_combination(without(w, id, dir), x),
    ensures
        has_combination(w, x),
    decreases w,
{
    reveal_with_fuel(has_combination, 3);
    match w {
        Windows::Empty => {},
        Windows::Leaf(l, next) => {
            if l.id == id {
                lemma_placed_combinations(
                    *next,
                    crate::window::grown_over_previous(
                        crate::window::first_rect(*next),
                        l.bounds,
                        dir,
                    ),
                    x,
                );
            } else if rest_of(w) is Leaf && rest_of(w)->Leaf_0.id == id {
                let g = rest_of(w)->Leaf_0;
                let r = crate::window::grown_over_next(l.bounds, g.bounds, dir);
                lemma_placed_combinations(w, r, x);
                lemma_next_combinations(with_first_rect(w, r), *rest_of(w)->Leaf_1, x);
            } else {
                lemma_without_combinations(*next, id, dir, x);
            }
        },
        Windows::Internal(c, child, next) => {
            if rest_of(w) is Leaf && rest_of(w)->Leaf_0.id == id {
                let g = rest_of(w)->Leaf_0;
                let r = crate::window::grown_over_next(c.bounds, g.bounds, dir);
                lemma_placed_combinations(w, r, x);
                lemma_next_combinations(with_first_rect(w, r), *rest_of(w)->Leaf_1, x);
            } else {
                let inner = without(*child, id, c.direction);
                let rest = without(*next, id, dir);
                lemma_placed_combinations(inner, c.bounds, x);
                if inner !is Empty && rest_of(inner) is Empty {
                    lemma_next_combinations(with_first_rect(inner, c.bounds), rest, x);
                }
                if has_combination(inner, x) {
                    lemma_without_combinations(*child, id, c.direction, x);
                } else if has_combination(rest, x) {
                    lemma_without_combinations(*next, id, dir, x);
                }
            }
        },
    }
}

pub(crate) proof fn lemma_omitting(s: Seq<u64>, id: u64)
    requires
        s.no_duplicates(),
    ensures
        omitting(s, id).no_duplicates(),
        forall|x: u64|
            #[trigger] omitting(s, id).contains(x) <==> (s.contains(x) && x != id),
        omitting(s, id).len() == s.len() - (if s.contains(id) {
            1int
        } else {
            0
        }),
    decreases s.len(),
{
    if s.len() > 0 {
        let t = s.drop_first();
        assert(t.no_duplicates()) by {
            assert forall|i: int, j: int| 0 <= i < t.len() && 0 <= j < t.len() && i != j implies t[i]
                != t[j] by {
                assert(t[i] == s[i + 1] && t[j] == s[j + 1]);
            }
        }
        lemma_omitting(t, id);
        let o = omitting(t, id);
        assert forall|x: u64| s.contains(x) <==> (x == s[0] || t.contains(x)) by {
            if s.contains(x) {
                let i = choose|i: int| 0 <= i < s.len() && s[i] == x;
                if i > 0 {
                    assert(t[i - 1] == x);
                }
            }
            if t.contains(x) {
                let i = choose|i: int| 0 <= i < t.len() && t[i] == x;
                assert(s[i + 1] == x);
            }
            if x == s[0] {
                assert(s[0] == x);
            }
        }
        assert(!t.contains(s[0])) by {
            if t.contains(s[0]) {
                let i = choose|i: int| 0 <= i < t.len() && t[i] == s[0];
                assert(s[i + 1] == s[0]);
            }
        }
        if s[0] != id {
            let r = seq![s[0]] + o;
            assert forall|x: u64| #[trigger] r.contains(x) <==> (x == s[0] || o.contains(x)) by {
                if r.contains(x) {
                    let i = choose|i: int| 0 <= i < r.len() && r[i] == x;
                    if i > 0 {
                        assert(o[i - 1] == x);
                    }
                }
                if o.contains(x) {
                    let i = choose|i: int| 0 <= i < o.len() && o[i] == x;
                    assert(r[i + 1] == x);
                }
                if x == s[0] {
                    assert(r[0] == x);
                }
            }
            assert(r.no_duplicates()) by {
                assert forall|i: int, j: int|
                    0 <= i < r.len() && 0 <= j < r.len() && i != j implies r[i] != r[j] by {
                    if i > 0 && j > 0 {
                        assert(o[i - 1] != o[j - 1]);
                    } else if i > 0 {
                        assert(o.contains(o[i - 1]));
                    } else {
                        assert(o.contains(o[j - 1]));
                    }
                }
            }
        }
    }
}

/// A frame stays sound when a window is deleted: its list is one shorter, and the
/// selected window is still one that shows a buffer.
pub proof fn law_deleting_a_window_keeps_frame_sound(f: FrameState, id: u64)
    requires
        sound(f),
        find(f.root, id) matches Some(Window::Leaf(_)),
        leaf_ids(f.root).len() > 1,
    ensures
        sound(frame_without(f, id)),
        leaf_ids(frame_without(f, id).root).len() == leaf_ids(f.root).len() - 1,
        !leaf_ids(frame_without(f, id).root).contains(id),
{
    let root = without(f.root, id, SplitDirection::Vertical);
    crate::window::law_without_removes_window(f.root, id, SplitDirection::Vertical);
    lemma_omitting(leaf_ids(f.root), id);
    lemma_found_is_somewhere(f.root, id);
    assert(leaf_ids(root).contains(id) ==> false) by {
        assert(omitting(leaf_ids(f.root), id).contains(id) ==> false);
    }
    assert forall|x: u64| leaf_ids(root).contains(x) implies !#[trigger] has_combination(
        root,
        x,
    ) by {
        assert(omitting(leaf_ids(f.root), id).contains(x));
        if has_combination(root, x) {
            lemma_without_combinations(f.root, id, SplitDirection::Vertical, x);
        }
    }
    let g = frame_without(f, id);
    let s = g.selected_window;
    if f.selected_window == id {
        assert(leaf_ids(root)[0] == s);
        assert(leaf_ids(root).contains(s));
        law_listed_window_is_live(root, s);
    } else if find(f.root, s) is Some {
        lemma_found_is_somewhere(f.root, s);
        assert(leaf_ids(f.root).contains(s));
        assert(omitting(leaf_ids(f.root), id).contains(s));
        law_listed_window_is_live(root, s);
    } else {
        lemma_found_is_somewhere(root, s);
        if find(root, s) is Some {
            if has_combination(root, s) {
                lemma_without_combinations(f.root, id, SplitDirection::Vertical, s);
                lemma_combination_is_found(f.root, s);
            } else {
                assert(leaf_ids(root).contains(s));
                assert(omitting(leaf_ids(f.root), id).contains(s));
                law_listed_window_is_live(f.root, s);
            }
        }
    }
}

/// A combination is found.
pub(crate) proof fn lemma_combination_is_found(w: Windows, x: u64)
    requires
        has_combination(w, x),
    ensures
        find(w, x) is Some,
    decreases w,
{
    match w {
        Windows::Empty => {},
        Windows::Leaf(l, next) => {
            if l.id != x {
                lemma_combination_is_found(*next, x);
            }
        },
        Windows::Internal(c, child, next) => {
            if c.id != x {
                if has_combination(*child, x) {
                    lemma_combination_is_found(*child, x);
                } else {
                    lemma_combination_is_found(*next, x);
                }
            }
        },
    }
}

/// A window that shows a buffer still does after a split, if the identifier of the
/// new combination is not its own.
pub(crate) proof fn lemma_split_keeps_leaf(
    w: Windows,
    id: u64,
    dir: SplitDirection,
    here: Option<SplitDirection>,
    new_id: u64,
    combination_id: u64,
    x: u64,
)
    requires
        x != combination_id,
    ensures
        find(w, x) matches Some(Window::Leaf(_)) ==> find(
            split_at(w, id, dir, here, new_id, combination_id),
            x,
        ) matches Some(Window::Leaf(_)),
        find(w, x) is None && x != new_id ==> find(
            split_at(w, id, dir, here, new_id, combination_id),
            x,
        ) is None,
    decreases w,
{
    reveal_with_fuel(find, 4);
    match w {
        Windows::Empty => {},
        Windows::Leaf(l, next) => {
            if l.id != id {
                lemma_split_keeps_leaf(*next, id, dir, here, new_id, combination_id, x);
            }
        },
        Windows::Internal(c, child, next) => {
            lemma_split_keeps_leaf(
                *child,
                id,
                dir,
                Some(c.direction),
                new_id,
                combination_id,
                x,
            );
            lemma_split_keeps_leaf(*next, id, dir, here, new_id, combination_id, x);
            lemma_split_child(*child, id, dir, Some(c.direction), new_id, combination_id, x);
        },
    }
}

/// What is found after a split was found before it, or is new.
proof fn lemma_split_child(
    w: Windows,
    id: u64,
    dir: SplitDirection,
    here: Option<SplitDirection>,
    new_id: u64,
    combination_id: u64,
    x: u64,
)
    requires
        x != combination_id,
    ensures
        find(w, x) is None ==> (find(
            split_at(w, id, dir, here, new_id, combination_id),
            x,
        ) is None || find(split_at(w, id, dir, here, new_id, combination_id), x) matches Some(
            Window::Leaf(_),
        )),
    decreases w,
{
    reveal_with_fuel(find, 4);
    match w {
        Windows::Empty => {},
        Windows::Leaf(l, next) => {
            if l.id != id {
                lemma_split_child(*next, id, dir, here, new_id, combination_id, x);
            }
        },
        Windows::Internal(c, child, next) => {
            lemma_split_child(*child, id, dir, Some(c.direction), new_id, combination_id, x);
            lemma_split_child(*next, id, dir, here, new_id, combination_id, x);
        },
    }
}

/// Splitting a window leaves the selected window one that shows a buffer.
pub proof fn law_splitting_keeps_selected_window_live(
    f: FrameState,
    id: u64,
    dir: SplitDirection,
    new_id: u64,
    combination_id: u64,
)
    requires
        f.live(f.selected_window),
        f.selected_window != combination_id,
        f.selected_window != new_id,
    ensures
        ({
            let g = FrameState {
                root: split_at(f.root, id, dir, None, new_id, combination_id),
                ..f
            };
            g.live(g.selected_window)
        }),
{
    lemma_split_keeps_leaf(
        f.root,
        id,
        dir,
        None,
        new_id,
        combination_id,
        f.selected_window,
    );
}

proof fn lemma_followed(s: Seq<u64>, id: u64, new: u64)
    requires
        s.no_duplicates(),
        s.contains(id),
    ensures
        followed(s, id, new).len() == s.len() + 1,
        followed(s, id, new).contains(new),
    decreases s.len(),
{
    let t = s.drop_first();
    if s[0] == id {
        assert(!t.contains(id)) by {
            if t.contains(id) {
                let i = choose|i: int| 0 <= i < t.len() && t[i] == id;
                assert(s[i + 1] == s[0]);
            }
        }
        lemma_followed_absent(t, id, new);
        assert(followed(s, id, new)[1] == new);
    } else {
        assert(t.no_duplicates()) by {
            assert forall|i: int, j: int| 0 <= i < t.len() && 0 <= j < t.len() && i != j implies t[i]
                != t[j] by {
                assert(t[i] == s[i + 1] && t[j] == s[j + 1]);
            }
        }
        let k = choose|k: int| 0 <= k < s.len() && s[k] == id;
        assert(t[k - 1] == id);
        lemma_followed(t, id, new);
        let o = followed(t, id, new);
        let i = choose|i: int| 0 <= i < o.len() && o[i] == new;
        assert(followed(s, id, new)[i + 1] == new);
    }
}

proof fn lemma_followed_absent(a: Seq<u64>, id: u64, new: u64)
    requires
        !a.contains(id),
    ensures
        followed(a, id, new) == a,
    decreases a.len(),
{
    if a.len() > 0 {
        assert(a[0] != id);
        assert(!a.drop_first().contains(id)) by {
            if a.drop_first().contains(id) {
                let i = choose|i: int| 0 <= i < a.drop_first().len() && a.drop_first()[i] == id;
                assert(a[i + 1] == id);
            }
        }
        lemma_followed_absent(a.drop_first(), id, new);
        assert(followed(a, id, new) =~= a);
    }
}

/// Splitting a window of a sound frame makes its list of windows one longer, and
/// the new window is in it.
pub proof fn law_splitting_adds_one_window(
    f: FrameState,
    id: u64,
    dir: SplitDirection,
    new_id: u64,
    combination_id: u64,
)
    requires
        sound(f),
        find(f.root, id) matches Some(Window::Leaf(_)),
    ensures
        ({
            let ids = leaf_ids(split_at(f.root, id, dir, None, new_id, combination_id));
            ids.len() == leaf_ids(f.root).len() + 1 && ids.contains(new_id)
        }),
{
    crate::window::law_split_adds_window_after(f.root, id, dir, None, new_id, combination_id);
    lemma_found_is_somewhere(f.root, id);
    lemma_followed(leaf_ids(f.root), id, new_id);
}

/// A new frame is sound, and its only window is selected.
pub proof fn law_new_frame_is_sound(
    id: u64,
    root_id: u64,
    minibuffer_id: u64,
    name: Lisp,
    width: u32,
    height: u32,
    buffer: u64,
)
    ensures
        sound(new_frame(id, root_id, minibuffer_id, name, width, height, buffer)),
        leaf_ids(
            new_frame(id, root_id, minibuffer_id, name, width, height, buffer).root,
        ) == seq![root_id],
{
    let f = new_frame(id, root_id, minibuffer_id, name, width, height, buffer);
    reveal_with_fuel(leaf_ids, 2);
    reveal_with_fuel(has_combination, 2);
    assert(leaf_ids(f.root) =~= seq![root_id]);
}

/// What is kept of a window is read back as it was kept, and nothing else changes.
pub proof fn law_record_is_read_back(frames: Frames, id: u64, r: RecordState, other: u64)
    requires
        r.id == id,
    ensures
        frames.with_record(id, r).record(id) == r,
        other != id ==> frames.with_record(id, r).record(other) == frames.record(other),
        frames.with_record(id, r).list == frames.list,
{
    let s = frames.records;
    lemma_record_index(s, id);
    lemma_record_index(s, other);
    let t = frames.with_record(id, r).records;
    lemma_record_index(t, id);
    lemma_record_index(t, other);
    let i = record_index(s, id);
    let j = record_index(t, id);
    if j < i {
        assert(t[j] == s[j]);
    } else if i < j {
        assert(t[i].id == id);
    }
    if other != id {
        let k = record_index(s, other);
        let m = record_index(t, other);
        if k < s.len() {
            assert(t[k] == s[k]);
            if m < k {
                if m < s.len() {
                    assert(s[m].id != other);
                    assert(t[m].id == other);
                    assert(m != i ==> t[m] == s[m]);
                }
            } else if k < m {
                assert(t[k].id != other);
            }
        } else if m < t.len() {
            if m < s.len() && m != i {
                assert(t[m] == s[m]);
                assert(s[m].id != other);
            }
        }
    }
}

/// A window of a frame that is changed is read back as it was changed.
pub proof fn law_window_is_read_back(frames: Frames, f: u64, w: u64, new: Leaf)
    requires
        frames.window(f, w) matches Some(Window::Leaf(_)),
        new.id == w,
    ensures
        frames.with_leaf(f, w, new).window(f, w) == Some(Window::Leaf(new)),
{
    let frame = frames.get(f)->0;
    if find(frame.root, w) is Some {
        crate::window::law_changed_window_is_found(frame.root, w, new);
    }
    let g = frame.with_leaf(w, new);
    assert(g.window(w) == Some(Window::Leaf(new)));
    lemma_frame_index(frames.list, f);
    let i = frame_index(frames.list, f);
    let t = frames.list.update(i, g);
    lemma_frame_index(t, f);
    let k = frame_index(t, f);
    if k < i {
        assert(t[k] == frames.list[k]);
    } else if i < k {
        assert(t[i].id == f);
    }
}

/// A window that goes back to a buffer shows it where it did when it left it: the
/// start and the point that were kept for the buffer are set again.
pub proof fn law_window_returns_to_its_place(
    frames: Frames,
    f: u64,
    w: u64,
    buffer: u64,
    start: usize,
    point: usize,
    other: usize,
    keep_margins: bool,
)
    requires
        frames.window(f, w) matches Some(Window::Leaf(l)) && l.id == w,
        entry(frames.record(w).positions, buffer) == Some((start, point)),
    ensures
        shown(frames, f, w, buffer, other, keep_margins).window(f, w) matches Some(
            Window::Leaf(l),
        ) && l.buffer_id == buffer && l.window_start == at_least_one(start) && l.point
            == at_least_one(point),
{
    let l = frames.window(f, w)->0->Leaf_0;
    let new = Leaf {
        buffer_id: buffer,
        window_start: at_least_one(start),
        point: at_least_one(point),
        left_margin: if keep_margins {
            l.left_margin
        } else {
            0
        },
        right_margin: if keep_margins {
            l.right_margin
        } else {
            0
        },
        ..l
    };
    law_window_is_read_back(frames, f, w, new);
}

pub(crate) proof fn lemma_place(s: Seq<u64>, i: int)
    requires
        s.no_duplicates(),
        0 <= i < s.len(),
    ensures
        place_of(s, s[i]) == i,
    decreases s.len(),
{
    if i > 0 {
        let t = s.drop_first();
        assert(s[0] != s[i]);
        assert(t.no_duplicates()) by {
            assert forall|a: int, b: int| 0 <= a < t.len() && 0 <= b < t.len() && a != b implies t[a]
                != t[b] by {
                assert(t[a] == s[a + 1] && t[b] == s[b + 1]);
            }
        }
        assert(t[i - 1] == s[i]);
        lemma_place(t, i - 1);
    }
}

/// Going to the next window and then to the previous one leads back.
pub proof fn law_previous_window_undoes_next(list: Seq<u64>, i: int)
    requires
        list.no_duplicates(),
        0 <= i < list.len(),
    ensures
        stepped(list, stepped(list, list[i], 1), -1) == list[i],
{
    law_steps_are_undone(list, i, 1);
}

/// A session that has a selected frame is left as it is, so the startup frame is
/// made only once.
pub proof fn law_startup_frame_is_made_once(st: UiState)
    requires
        st.frames.selected is None,
        forall|i: int|
            0 <= i < st.frames.list.len() ==> (#[trigger] st.frames.list[i]).id
                != st.frames.next_frame_id,
    ensures
        booted(st).frames.selected_frame() is Some,
        booted(booted(st)) == booted(st),
        boot_id(booted(st)) == boot_id(st),
{
    let (b1, shown) = crate::window_cmds::state::current_or_scratch(st.buffers);
    let frames = st.frames.created(crate::value::lstr("F1"@), 80, 24, shown);
    let id = st.frames.next_frame_id;
    assert(frames.selected == Some(id));
    let n = st.frames.list.len() as int;
    assert(frames.list.len() == n + 1);
    assert(frames.list[n].id == id);
    assert(frame_index(frames.list, id) == n) by {
        lemma_frame_index(frames.list, id);
        let k = frame_index(frames.list, id);
        if k < n {
            assert(frames.list[k] == st.frames.list[k]);
        }
    }
    let (b2, minibuffer) = crate::window_cmds::state::buffer_named(b1, " *Minibuf-0*"@);
    let g = crate::window_cmds::state::startup_frame(frames.list[n], minibuffer);
    assert(g.id == id);
    let t = frames.list.update(n, g);
    lemma_frame_index(t, id);
    let k = frame_index(t, id);
    if k < n {
        assert(t[k] == st.frames.list[k]);
    } else if n < k {
        assert(t[n].id != id);
    }
}

} // verus!
