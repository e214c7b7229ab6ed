//! How the windows of a frame are related.
use crate::frame::FrameState;
use crate::value::{Lisp, Outcome};
use crate::window::{
    child_of, find, first_id, leaf_ids, parent_of, sibling_after, sibling_before, with_limit,
    Combination, SplitDirection, Window, Windows,
};
use crate::window_cmds::laws::lemma_place;
use crate::window_cmds::listing::{neighbour_step, stepped};
use crate::window_cmds::query::{
    frame_first_window_step, frame_root_window_step, frame_selected_window_step,
    selected_window_step, window_parent,
};
use crate::window_cmds::state::UiState;
use vstd::prelude::*;

verus! {

/// Whether no two windows have the same identifier.
pub open spec fn told_apart(w: Windows) -> bool
    decreases w,
{
    match w {
        Windows::Empty => true,
        Windows::Leaf(l, next) => find(*next, l.id) is None && told_apart(*next),
        Windows::Internal(c, child, next) => {
            &&& find(*child, c.id) is None
            &&& find(*next, c.id) is None
            &&& told_apart(*child)
            &&& told_apart(*next)
            &&& forall|x: u64| find(*child, x) is Some ==> #[trigger] find(*next, x) is None
        },
    }
}

proof fn lemma_related(w: Windows, x: u64, up: Option<u64>, dir: SplitDirection)
    requires
        told_apart(w),
    ensures
        sibling_after(w, x) matches Some(y) ==> find(w, x) is Some && find(w, y) is Some
            && first_id(w) != Some(y),
        sibling_before(w, x) matches Some(y) ==> find(w, x) is Some && find(w, y) is Some
            && first_id(w) != Some(x),
        find(w, x) is None ==> parent_of(w, x, up) is None,
        find(w, x) is Some && up is Some ==> parent_of(w, x, up) is Some,
        first_id(w) == Some(x) ==> find(w, x) is Some && parent_of(w, x, up) == up,
        child_of(w, x, dir) matches Some(y) ==> find(w, x) is Some && find(w, y) is Some,
    decreases w,
{
    match w {
        Windows::Empty => {},
        Windows::Leaf(l, next) => {
            lemma_related(*next, x, up, dir);
            lemma_first_found(*next);
            match sibling_after(*next, x) {
                Some(y) => {
                    assert(y != l.id);
                },
                None => {},
            }
        },
        Windows::Internal(c, child, next) => {
            lemma_related(*child, x, Some(c.id), dir);
            lemma_related(*next, x, up, dir);
            lemma_first_found(*child);
            lemma_first_found(*next);
        },
    }
}

proof fn lemma_first_found(w: Windows)
    ensures
        first_id(w) matches Some(y) ==> find(w, y) is Some,
{
}

/// The window after a window comes after it, and the window before that is the first one
/// again.
pub proof fn law_siblings_are_mutual(w: Windows, x: u64, y: u64)
    requires
        told_apart(w),
    ensures
        sibling_after(w, x) == Some(y) <==> sibling_before(w, y) == Some(x),
    decreases w,
{
    let d = SplitDirection::Vertical;
    match w {
        Windows::Empty => {},
        Windows::Leaf(l, next) => {
            law_siblings_are_mutual(*next, x, y);
            lemma_related(*next, x, None, d);
            lemma_related(*next, y, None, d);
        },
        Windows::Internal(c, child, next) => {
            law_siblings_are_mutual(*child, x, y);
            law_siblings_are_mutual(*next, x, y);
            lemma_related(*child, x, None, d);
            lemma_related(*child, y, None, d);
            lemma_related(*next, x, None, d);
            lemma_related(*next, y, None, d);
            match sibling_after(*child, x) {
                Some(z) => {
                    lemma_related(*child, z, None, d);
                    law_siblings_are_mutual(*child, x, z);
                },
                None => {},
            }
            match sibling_before(*child, y) {
                Some(z) => {
                    law_siblings_are_mutual(*child, z, y);
                },
                None => {},
            }
        },
    }
}

/// Siblings have the same parent.
pub proof fn law_siblings_have_one_parent(w: Windows, x: u64, y: u64, up: Option<u64>)
    requires
        told_apart(w),
        sibling_after(w, x) == Some(y),
    ensures
        parent_of(w, x, up) == parent_of(w, y, up),
    decreases w,
{
    let d = SplitDirection::Vertical;
    match w {
        Windows::Empty => {},
        Windows::Leaf(l, next) => {
            lemma_related(*next, x, up, d);
            lemma_related(*next, y, up, d);
            if l.id != x {
                law_siblings_have_one_parent(*next, x, y, up);
            } else {
                lemma_first_found(*next);
            }
        },
        Windows::Internal(c, child, next) => {
            lemma_related(*child, x, Some(c.id), d);
            lemma_related(*child, y, Some(c.id), d);
            lemma_related(*next, x, up, d);
            lemma_related(*next, y, up, d);
            if c.id == x {
                lemma_first_found(*next);
                assert(find(*next, y) is Some);
                assert(find(*child, y) is None);
            } else if sibling_after(*child, x) is Some {
                law_siblings_have_one_parent(*child, x, y, Some(c.id));
            } else {
                law_siblings_have_one_parent(*next, x, y, up);
                assert(find(*next, x) is Some && find(*next, y) is Some);
                assert(find(*child, x) is None);
                assert(find(*child, y) is None);
            }
        },
    }
}

/// The first child of a combination has the combination as parent and no sibling before it.
/// A combination has a first child in one direction alone.
pub proof fn law_child_has_parent(w: Windows, c: u64, x: u64, up: Option<u64>, dir: SplitDirection)
    requires
        told_apart(w),
        child_of(w, c, dir) == Some(x),
    ensures
        parent_of(w, x, up) == Some(c),
        sibling_before(w, x) is None,
        find(w, c) matches Some(Window::Internal(i)) && i.direction == dir,
        forall|other: SplitDirection|
            other != dir ==> #[trigger] child_of(w, c, other) is None,
    decreases w,
{
    match w {
        Windows::Empty => {},
        Windows::Leaf(l, next) => {
            lemma_related(*next, x, up, dir);
            lemma_related(*next, c, up, dir);
            law_child_has_parent(*next, c, x, up, dir);
            lemma_no_first_child(*next, c, x, dir);
            assert forall|other: SplitDirection| other != dir implies #[trigger] child_of(
                w,
                c,
                other,
            ) is None by {
                assert(child_of(*next, c, other) is None);
            }
        },
        Windows::Internal(i, child, next) => {
            lemma_related(*child, x, Some(i.id), dir);
            lemma_related(*child, c, Some(i.id), dir);
            lemma_related(*next, x, up, dir);
            lemma_related(*next, c, up, dir);
            lemma_first_found(*next);
            lemma_first_found(*child);
            if i.id == c {
                assert(find(*child, x) is Some);
                assert(find(*next, x) is None);
            } else if child_of(*child, c, dir) is Some {
                law_child_has_parent(*child, c, x, Some(i.id), dir);
                assert(find(*next, x) is None);
                assert(find(*next, c) is None);
                assert forall|other: SplitDirection| other != dir implies #[trigger] child_of(
                    w,
                    c,
                    other,
                ) is None by {
                    lemma_related(*next, c, up, other);
                    assert(child_of(*child, c, other) is None);
                }
            } else {
                law_child_has_parent(*next, c, x, up, dir);
                lemma_no_first_child(*next, c, x, dir);
                assert(find(*child, x) is None);
                assert(find(*child, c) is None);
                assert forall|other: SplitDirection| other != dir implies #[trigger] child_of(
                    w,
                    c,
                    other,
                ) is None by {
                    lemma_related(*child, c, up, other);
                    assert(child_of(*next, c, other) is None);
                }
            }
        },
    }
}

proof fn lemma_no_first_child(w: Windows, c: u64, x: u64, dir: SplitDirection)
    requires
        told_apart(w),
        child_of(w, c, dir) == Some(x),
    ensures
        first_id(w) != Some(x),
    decreases w,
{
    match w {
        Windows::Empty => {},
        Windows::Leaf(l, next) => {
            lemma_related(*next, c, None, dir);
        },
        Windows::Internal(i, child, next) => {
            lemma_related(*child, c, None, dir);
            lemma_related(*next, c, None, dir);
            lemma_first_found(*child);
        },
    }
}

/// The parent of a window is a combination that has a first child.
pub proof fn law_parent_has_child(w: Windows, x: u64, p: u64, up: Option<u64>)
    requires
        told_apart(w),
        parent_of(w, x, up) == Some(p),
        up != Some(p),
    ensures
        find(w, p) matches Some(Window::Internal(i)) && child_of(w, p, i.direction) is Some,
    decreases w,
{
    let d = SplitDirection::Vertical;
    match w {
        Windows::Empty => {},
        Windows::Leaf(l, next) => {
            law_parent_has_child(*next, x, p, up);
        },
        Windows::Internal(c, child, next) => {
            lemma_related(*child, x, Some(c.id), d);
            lemma_related(*child, p, Some(c.id), d);
            lemma_related(*next, p, up, d);
            match parent_of(*child, x, Some(c.id)) {
                Some(q) => {
                    if q == c.id {
                        assert(find(*child, x) is Some);
                        assert(*child !is Empty);
                    } else {
                        law_parent_has_child(*child, x, p, Some(c.id));
                    }
                },
                None => {
                    law_parent_has_child(*next, x, p, up);
                    assert(find(*next, p) is Some);
                    assert(find(*child, p) is None);
                    let i = find(*next, p)->0->Internal_0;
                    lemma_related(*child, p, up, i.direction);
                },
            }
        },
    }
}

/// The root window of a frame has no parent, the first window is the first that is listed,
/// and the selected window of the selected frame is the selected window.
pub proof fn law_frame_has_its_windows(st: UiState, f: FrameState)
    requires
        st.frames.selected_frame() == Some(f),
        st.frames.get(f.id) == Some(f),
        leaf_ids(f.root).len() > 0,
    ensures
        ({
            let root = frame_root_window_step(st, seq![]);
            let first = frame_first_window_step(st, seq![]);
            let own = frame_selected_window_step(st, seq![]);
            &&& root.state == st && first.state == st && own.state == st
            &&& root.end matches Outcome::Value(Lisp::Window(x)) && window_parent(f, x) is None
                && first_id(f.root) == Some(x)
            &&& first.end == Outcome::Value(Lisp::Window(leaf_ids(f.root)[0]))
            &&& own.end == selected_window_step(st, seq![]).end
            &&& own.end == Outcome::Value(Lisp::Window(f.selected_window))
        }),
{
    let z = Seq::<Lisp>::empty();
    assert(z.len() == 0);
    assert(f.root !is Empty);
}

/// `next-window` of a window that is listed is the one after it, the first one after the
/// last; `previous-window` is the other way round.
pub proof fn law_neighbours_are_next_to_each_other(list: Seq<u64>, i: int)
    requires
        list.no_duplicates(),
        0 <= i < list.len(),
    ensures
        stepped(list, list[i], 1) == (if i + 1 < list.len() {
            list[i + 1]
        } else {
            list[0]
        }),
        stepped(list, list[i], -1) == (if i > 0 {
            list[i - 1]
        } else {
            list.last()
        }),
{
    lemma_place(list, i);
    let n = list.len() as int;
    if i + 1 < n {
        vstd::arithmetic::div_mod::lemma_small_mod((i + 1) as nat, n as nat);
    } else {
        vstd::arithmetic::div_mod::lemma_mod_self_0(n);
    }
    if i > 0 {
        vstd::arithmetic::div_mod::lemma_small_mod((i - 1) as nat, n as nat);
    } else {
        vstd::arithmetic::div_mod::lemma_mod_add_multiples_vanish(-1, n);
        vstd::arithmetic::div_mod::lemma_small_mod((n - 1) as nat, n as nat);
    }
}

/// The neighbours of the selected window are taken from the windows of its frame.
pub proof fn law_neighbour_of_selected_window(
    st: UiState,
    name: Seq<char>,
    f: FrameState,
    steps: int,
    i: int,
)
    requires
        st.frames.selected_frame() == Some(f),
        st.frames.get(f.id) == Some(f),
        leaf_ids(f.root).no_duplicates(),
        0 <= i < leaf_ids(f.root).len(),
        leaf_ids(f.root)[i] == f.selected_window,
    ensures
        neighbour_step(st, name, seq![], steps).end == Outcome::Value(
            Lisp::Window(leaf_ids(f.root)[(i + steps) % leaf_ids(f.root).len() as int]),
        ),
        neighbour_step(st, name, seq![], steps).state == st,
{
    let z = Seq::<Lisp>::empty();
    assert(z.len() == 0);
    lemma_place(leaf_ids(f.root), i);
}

/// The limit of a combination is the one that was set, and no other window changes.
pub proof fn law_combination_limit_is_set(w: Windows, id: u64, limit: bool, x: u64)
    ensures
        find(w, id) matches Some(Window::Internal(c)) ==> find(with_limit(w, id, limit), id)
            == Some(Window::Internal((Combination { combination_limit: limit, ..c }))),
        x != id ==> find(with_limit(w, id, limit), x) == find(w, x),
        find(with_limit(w, id, limit), x) is Some == find(w, x) is Some,
        find(with_limit(w, id, limit), id) is Some == find(w, id) is Some,
    decreases w,
{
    match w {
        Windows::Empty => {},
        Windows::Leaf(_, next) => {
            law_combination_limit_is_set(*next, id, limit, x);
        },
        Windows::Internal(_, child, next) => {
            law_combination_limit_is_set(*child, id, limit, x);
            law_combination_limit_is_set(*next, id, limit, x);
        },
    }
}

} // verus!
