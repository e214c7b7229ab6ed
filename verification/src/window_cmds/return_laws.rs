//! What leads back: to the window that was selected, and to the place in a buffer.
use crate::frame::{frame_index, lemma_frame_index, RecordState};
use crate::table::{entry, law_entry_set, law_entry_set_keeps_others, with_entry};
use crate::value::{law_list_items_of_list, list_items, Lisp, Outcome};
use crate::window::{leaf_ids, Leaf, Window};
use crate::window_cmds::args::count_arg;
use crate::window_cmds::display::{
    at_least_one, first_point, history_added, history_entry, history_without,
    set_window_buffer_step, shown_buffer_arg, shown_kept,
};
use crate::window_cmds::edit::{other_window_step, window_selected};
use crate::window_cmds::laws::{
    law_listed_window_is_live, law_record_is_read_back, lemma_place, sound,
};
use crate::window_cmds::listing::stepped;
use crate::window_cmds::order::{lemma_changed_frame, lemma_frame_with_leaf, well_formed};
use crate::window_cmds::query::selected_window_step;
use crate::window_cmds::resolve::{after, designated, window_arg, Found};
use crate::window_cmds::state::{booted, UiState};
use crate::window_cmds::step_laws::{
    law_startup_keeps_order, lemma_leaf_changed, lemma_noted_selection, lemma_record_identifier,
    lemma_resolved, lemma_window_selected, roomy,
};
use vstd::prelude::*;

verus! {

/// The places of a round that are some steps apart: going on and going back by the
/// same number of steps leads to the same place.
proof fn lemma_round_trip(i: int, k: int, n: int)
    requires
        0 <= i < n,
    ensures
        0 <= (i + k) % n < n,
        ((i + k) % n - k) % n == i,
{
    let q = (i + k) / n;
    let j = (i + k) % n;
    vstd::arithmetic::div_mod::lemma_fundamental_div_mod(i + k, n);
    vstd::arithmetic::div_mod::lemma_mod_bound(i + k, n);
    assert(-q * n == -(n * q)) by (nonlinear_arith);
    assert(j - k == -q * n + i);
    vstd::arithmetic::div_mod::lemma_fundamental_div_mod_converse(j - k, n, -q, i);
}

/// Going some windows further and as many back leads to the same window.
pub proof fn law_steps_are_undone(list: Seq<u64>, i: int, k: int)
    requires
        list.no_duplicates(),
        0 <= i < list.len(),
    ensures
        stepped(list, list[i], k) == list[(i + k) % list.len() as int],
        stepped(list, stepped(list, list[i], k), -k) == list[i],
{
    lemma_place(list, i);
    lemma_round_trip(i, k, list.len() as int);
    lemma_place(list, (i + k) % list.len() as int);
}

/// `other-window` counts from the selected window through the list of its frame,
/// around the end, selects the window that it comes to, and makes the buffer that
/// this shows current.
pub proof fn law_other_window_goes_around(st: UiState, args: Seq<Lisp>, count: i64, i: int)
    requires
        well_formed(st.frames),
        st.frames.selected_frame() is Some || roomy(st.frames),
        1 <= args.len() <= 3,
        count_arg(args[0]) == Found::Is(count),
        ({
            let frame = booted(st).frames.selected_frame()->0;
            0 <= i < leaf_ids(frame.root).len() && frame.selected_window == leaf_ids(
                frame.root,
            )[i]
        }),
    ensures
        ({
            let frame = booted(st).frames.selected_frame()->0;
            let list = leaf_ids(frame.root);
            let w = list[(i + count) % list.len() as int];
            let done = other_window_step(st, args);
            let left = done.state.frames.selected_frame();
            &&& done.end == Outcome::Value(Lisp::Nil)
            &&& well_formed(done.state.frames)
            &&& booted(done.state) == done.state
            &&& left is Some && left->0.id == frame.id && left->0.root == frame.root
            &&& left->0.selected_window == w
            &&& selected_window_step(done.state, seq![]).end == Outcome::Value(Lisp::Window(w))
            &&& frame.window(w) matches Some(Window::Leaf(l)) && (booted(st).buffers.get(
                l.buffer_id,
            ) is Some ==> done.state.buffers.current == Some(l.buffer_id))
        }),
{
    law_startup_keeps_order(st);
    let s = booted(st);
    let id = s.frames.selected->0;
    let frame = s.frames.selected_frame()->0;
    let list = leaf_ids(frame.root);
    lemma_frame_index(s.frames.list, id);
    let k = frame_index(s.frames.list, id);
    assert(s.frames.list[k] == frame && frame.id == id);
    assert(sound(s.frames.list[k]));
    law_steps_are_undone(list, i, count as int);
    lemma_round_trip(i, count as int, list.len() as int);
    let w = list[(i + count) % list.len() as int];
    assert(list.contains(w));
    law_listed_window_is_live(frame.root, w);
    assert(frame.live(w));
    let g = frame.with_selected(w);
    let frames = s.frames.with_frame(id, g);
    lemma_changed_frame(s.frames, id, g, s.frames.next_window_id);
    assert(frames.get(id) == Some(g));
    lemma_noted_selection(frames, w);
    lemma_window_selected(s, id, w, true);
    let t = window_selected(s, id, w, true);
    assert(t.frames.list == frames.list);
    assert(t.frames.get(id) == Some(g));
    assert(t.frames.selected_frame() == Some(g));
}

/// `other-window` by a count and then by as many windows back selects the window
/// again that was selected.
pub proof fn law_other_window_is_undone(st: UiState, count: i64, i: int)
    requires
        well_formed(st.frames),
        st.frames.selected_frame() is Some || roomy(st.frames),
        count != i64::MIN,
        ({
            let frame = booted(st).frames.selected_frame()->0;
            0 <= i < leaf_ids(frame.root).len() && frame.selected_window == leaf_ids(
                frame.root,
            )[i]
        }),
    ensures
        ({
            let frame = booted(st).frames.selected_frame()->0;
            let on = other_window_step(st, seq![Lisp::Int(count)]);
            let back = other_window_step(on.state, seq![Lisp::Int((-count) as i64)]);
            &&& on.end == Outcome::Value(Lisp::Nil)
            &&& back.end == Outcome::Value(Lisp::Nil)
            &&& back.state.frames.selected_frame() == Some(frame)
            &&& selected_window_step(back.state, seq![]).end == Outcome::Value(
                Lisp::Window(frame.selected_window),
            )
        }),
{
    let frame = booted(st).frames.selected_frame()->0;
    let n = leaf_ids(frame.root).len() as int;
    let on = other_window_step(st, seq![Lisp::Int(count)]);
    law_other_window_goes_around(st, seq![Lisp::Int(count)], count, i);
    lemma_round_trip(i, count as int, n);
    law_other_window_goes_around(
        on.state,
        seq![Lisp::Int((-count) as i64)],
        (-count) as i64,
        (i + count) % n,
    );
}

/// What `set-window-buffer` does to a window that shows another buffer: its start
/// and point are kept, and it shows the buffer.
proof fn lemma_other_buffer_shown(
    st: UiState,
    a: Lisp,
    named: Lisp,
    buffer: u64,
    keep: Lisp,
    f: u64,
    w: u64,
)
    requires
        well_formed(st.frames),
        st.frames.selected_frame() is Some || roomy(st.frames),
        window_arg(st, a, "window-live-p"@) == Found::Is((f, w)),
        ({
            let s = after(st, a);
            &&& shown_buffer_arg(s.buffers, named) == Found::Is(buffer)
            &&& s.frames.window(f, w)->0->Leaf_0.buffer_id != buffer
            &&& list_items(s.frames.record(w).prev_buffers) is Some
        }),
    ensures
        ({
            let s = after(st, a);
            let l = s.frames.window(f, w)->0->Leaf_0;
            let done = set_window_buffer_step(st, seq![a, named, keep]);
            let t = done.state;
            let positions = with_entry(
                s.frames.record(w).positions,
                l.buffer_id,
                (l.window_start, l.point),
            );
            let (start, point) = match entry(positions, buffer) {
                Some(p) => p,
                None => (1usize, first_point(s.buffers, buffer)),
            };
            &&& done.end == Outcome::Value(Lisp::Nil)
            &&& well_formed(t.frames)
            &&& t.frames.selected_frame() is Some
            &&& t.buffers == s.buffers
            &&& window_arg(t, a, "window-live-p"@) == Found::Is((f, w))
            &&& after(t, a) == t
            &&& a == Lisp::Nil ==> t.frames.selected == Some(f)
                && t.frames.get(f)->0.selected_window == w
            &&& a != Lisp::Nil ==> designated(a) == Some(w)
            &&& t.frames.record(w).positions == positions
            &&& list_items(t.frames.record(w).prev_buffers) is Some
            &&& t.frames.window(f, w) == Some(
                Window::Leaf(
                    Leaf {
                        buffer_id: buffer,
                        window_start: at_least_one(start),
                        point: at_least_one(point),
                        left_margin: if keep != Lisp::Nil {
                            l.left_margin
                        } else {
                            0
                        },
                        right_margin: if keep != Lisp::Nil {
                            l.right_margin
                        } else {
                            0
                        },
                        ..l
                    },
                ),
            )
        }),
{
    lemma_resolved(st, a, f, w);
    let s = after(st, a);
    let l = s.frames.window(f, w)->0->Leaf_0;
    let k = s.frames.record(w);
    lemma_record_identifier(s.frames, w);
    let marked = RecordState {
        positions: with_entry(k.positions, l.buffer_id, (l.window_start, l.point)),
        ..k
    };
    let entries = list_items(k.prev_buffers)->0;
    law_list_items_of_list(
        seq![history_entry(s.buffers, l)] + history_without(entries, l.buffer_id),
    );
    let r = history_added(marked, s.buffers, l)->Is_0;
    law_record_is_read_back(s.frames, w, r, w);
    let kept = s.frames.with_record(w, r);
    assert(shown_kept(s, f, w, buffer) == (kept, None::<Outcome>));
    let u = s.with_frames(kept);
    assert forall|id: u64| kept.get(id) == #[trigger] s.frames.get(id) by {}
    assert(kept.list == s.frames.list && kept.selected == s.frames.selected);
    assert(kept.get(f) == s.frames.get(f));
    assert(kept.get(kept.selected->0) == s.frames.get(s.frames.selected->0));
    assert(well_formed(kept));
    let (start, point) = match entry(r.positions, buffer) {
        Some(p) => p,
        None => (1usize, first_point(s.buffers, buffer)),
    };
    let new = Leaf {
        buffer_id: buffer,
        window_start: at_least_one(start),
        point: at_least_one(point),
        left_margin: if keep != Lisp::Nil {
            l.left_margin
        } else {
            0
        },
        right_margin: if keep != Lisp::Nil {
            l.right_margin
        } else {
            0
        },
        ..l
    };
    lemma_changed_leaf_stays(u, a, f, w, new);
}

/// A change of a window leaves it the one that an argument stands for, and what is
/// kept of it as it was.
proof fn lemma_changed_leaf_stays(s: UiState, a: Lisp, f: u64, w: u64, new: Leaf)
    requires
        well_formed(s.frames),
        s.frames.selected_frame() is Some,
        s.frames.window(f, w) matches Some(Window::Leaf(_)),
        new.id == w,
        a == Lisp::Nil ==> s.frames.selected == Some(f) && s.frames.get(f)->0.selected_window
            == w,
        a != Lisp::Nil ==> designated(a) == Some(w),
    ensures
        ({
            let t = s.with_frames(s.frames.with_leaf(f, w, new));
            &&& well_formed(t.frames)
            &&& t.frames.selected_frame() is Some
            &&& t.buffers == s.buffers
            &&& after(t, a) == t
            &&& window_arg(t, a, "window-live-p"@) == Found::Is((f, w))
            &&& a == Lisp::Nil ==> t.frames.selected == Some(f)
                && t.frames.get(f)->0.selected_window == w
            &&& t.frames.window(f, w) == Some(Window::Leaf(new))
            &&& t.frames.record(w) == s.frames.record(w)
        }),
{
    lemma_leaf_changed(s, a, f, w, new);
    let t = s.with_frames(s.frames.with_leaf(f, w, new));
    let frame = s.frames.get(f)->0;
    let g = frame.with_leaf(w, new);
    lemma_frame_index(s.frames.list, f);
    assert(sound(s.frames.list[frame_index(s.frames.list, f)]));
    lemma_frame_with_leaf(frame, w, new);
    lemma_changed_frame(s.frames, f, g, s.frames.next_window_id);
    assert(t.frames.get(f) == Some(g));
    assert(t.frames.records == s.frames.records);
    assert(t.frames.selected == s.frames.selected);
    assert(t.frames.selected_frame() is Some);
}

/// A window that is made to show another buffer and then its first one again, each
/// given or named, shows it where it did before, whatever start and point it got in
/// between. Its margins are those that it got in between where they are to be kept,
/// and none otherwise.
pub proof fn law_window_goes_back_to_its_place(
    st: UiState,
    a: Lisp,
    to: Lisp,
    other: u64,
    keep_first: Lisp,
    between: Leaf,
    from: Lisp,
    keep: Lisp,
    f: u64,
    w: u64,
)
    requires
        well_formed(st.frames),
        st.frames.selected_frame() is Some || roomy(st.frames),
        window_arg(st, a, "window-live-p"@) == Found::Is((f, w)),
        ({
            let s = after(st, a);
            let l = s.frames.window(f, w)->0->Leaf_0;
            &&& shown_buffer_arg(s.buffers, to) == Found::Is(other)
            &&& shown_buffer_arg(s.buffers, from) == Found::Is(l.buffer_id)
            &&& l.buffer_id != other
            &&& list_items(s.frames.record(w).prev_buffers) is Some
        }),
    ensures
        ({
            let l = after(st, a).frames.window(f, w)->0->Leaf_0;
            let there = set_window_buffer_step(st, seq![a, to, keep_first]);
            let shows = there.state.frames.window(f, w);
            let moved = there.state.with_frames(
                there.state.frames.with_leaf(
                    f,
                    w,
                    Leaf {
                        window_start: between.window_start,
                        point: between.point,
                        left_margin: between.left_margin,
                        right_margin: between.right_margin,
                        ..shows->0->Leaf_0
                    },
                ),
            );
            let back = set_window_buffer_step(moved, seq![a, from, keep]);
            &&& there.end == Outcome::Value(Lisp::Nil)
            &&& shows matches Some(Window::Leaf(m)) && m.buffer_id == other
            &&& back.end == Outcome::Value(Lisp::Nil)
            &&& back.state.frames.window(f, w) == Some(
                Window::Leaf(
                    Leaf {
                        window_start: at_least_one(l.window_start),
                        point: at_least_one(l.point),
                        left_margin: if keep != Lisp::Nil {
                            between.left_margin
                        } else {
                            0
                        },
                        right_margin: if keep != Lisp::Nil {
                            between.right_margin
                        } else {
                            0
                        },
                        ..l
                    },
                ),
            )
        }),
{
    let s = after(st, a);
    let l = s.frames.window(f, w)->0->Leaf_0;
    lemma_resolved(st, a, f, w);
    lemma_other_buffer_shown(st, a, to, other, keep_first, f, w);
    let t = set_window_buffer_step(st, seq![a, to, keep_first]).state;
    let m = t.frames.window(f, w)->0->Leaf_0;
    let new = Leaf {
        window_start: between.window_start,
        point: between.point,
        left_margin: between.left_margin,
        right_margin: between.right_margin,
        ..m
    };
    lemma_changed_leaf_stays(t, a, f, w, new);
    let moved = t.with_frames(t.frames.with_leaf(f, w, new));
    lemma_other_buffer_shown(moved, a, from, l.buffer_id, keep, f, w);
    let first = s.frames.record(w).positions;
    let positions = with_entry(first, l.buffer_id, (l.window_start, l.point));
    law_entry_set(first, l.buffer_id, (l.window_start, l.point));
    law_entry_set_keeps_others(positions, other, (new.window_start, new.point), l.buffer_id);
}

} // verus!
