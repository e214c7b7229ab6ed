//! What holds of the builtins on windows and frames, one call after the other.
use crate::alist::{alist_put, law_alist_put};
use crate::frame::{
    frame_index, frame_with, lemma_frame_index, lemma_record_index, FrameState, Frames,
    RecordState,
};
use crate::table::entry;
use crate::value::{arg, cons, Lisp, Outcome};
use crate::window::{find, leaf_ids, Leaf, Window};
use crate::window_cmds::args::{
    count_arg, int_arg, margin_arg, position_arg, IntegerOrMarkerArg,
};
use crate::window_cmds::display::{
    at_least_one, display_buffer_step, first_point, in_selected_window, made_buffer_arg,
    pop_to_buffer_step, set_window_buffer_step, shown_buffer_arg, shown_kept,
    switch_to_buffer_step, valid_buffer_arg,
};
use crate::window_cmds::edit::{
    all_deleted, delete_other_windows_internal_step, delete_other_windows_step,
    delete_window_internal_step, delete_window_step, only_window, other_window_step,
    select_window_step, split_window_step, window_selected,
};
use crate::window_cmds::frame_size::{
    set_frame_height_step, set_frame_size_step, set_frame_width_step,
};
use crate::window_cmds::frames::{
    delete_frame_step, frame_with_pairs, iconify_frame_step, items_or_none, make_frame_step,
    make_frame_visible_step, modify_frame_parameters_step, requested_frame, select_frame_step,
};
use crate::window_cmds::laws::{
    law_record_is_read_back, law_startup_frame_is_made_once, law_window_is_read_back,
    lemma_found_is_somewhere, sound,
};
use crate::window_cmds::order::{
    has_window, law_changed_window_keeps_order, law_deleting_a_frame_keeps_order,
    law_deleting_a_window_keeps_order, law_making_a_frame_keeps_order,
    law_selecting_a_frame_keeps_order, law_selecting_a_window_keeps_order,
    law_splitting_a_window_keeps_order, lemma_changed_frame, lemma_frame_with_leaf,
    lemma_place_of_frame, minibuffer_apart, well_formed,
};
use crate::window_cmds::position::{
    clamped_position, positioned, set_window_group_start_step, set_window_point_step,
    set_window_start_step, window_point_step, window_start_step,
};
use crate::window_cmds::query::{is_minibuffer, selected_window_step, window_buffer_step};
use crate::window_cmds::records::{
    column_count, keep_step, kept_step, margin_value, set_window_dedicated_p_step,
    set_window_hscroll_step, set_window_margins_step, set_window_parameter_step,
    window_dedicated_p_step, window_hscroll_step, window_margins_step, window_parameter_step,
};
use crate::window_cmds::resolve::{
    after, designated, designated_frame, frame_arg, window_arg, window_object_arg,
    window_or_error_arg, Found,
};
use crate::window_cmds::state::{
    boot_id, booted, buffer_named, current_or_scratch, startup_frame, UiState,
};
use vstd::prelude::*;

verus! {

/// Whether there are identifiers left for one more frame and its windows.
pub open spec fn roomy(s: Frames) -> bool {
    s.next_frame_id < u64::MAX && s.next_window_id < u64::MAX - 1
}

/// The startup frame is in order.
proof fn lemma_startup_frame(f: FrameState, minibuffer: u64)
    requires
        sound(f),
        minibuffer_apart(f),
    ensures
        ({
            let g = startup_frame(f, minibuffer);
            &&& sound(g)
            &&& minibuffer_apart(g)
            &&& g.id == f.id
            &&& g.selected_window == f.selected_window
            &&& forall|x: u64| #[trigger] has_window(g, x) == has_window(f, x)
        }),
{
    let g = startup_frame(f, minibuffer);
    let e = FrameState {
        char_width: 1,
        char_height: 1,
        font_pixel_size: 1,
        parameters: g.parameters,
        ..f
    };
    assert(e.window(e.selected_window) == f.window(f.selected_window));
    assert(sound(e) && minibuffer_apart(e));
    assert forall|x: u64| #[trigger] has_window(e, x) == has_window(f, x) by {}
    let l = e.window(e.selected_window)->0->Leaf_0;
    lemma_found_is_somewhere(e.root, e.selected_window);
    lemma_found_identifier(e, e.selected_window);
    let new = Leaf { window_start: 1, point: 1, ..l };
    lemma_frame_with_leaf(e, e.selected_window, new);
    let h = e.with_leaf(e.selected_window, new);
    assert(g.root == h.root);
    assert forall|x: u64| #[trigger] has_window(g, x) == has_window(f, x) by {
        assert(has_window(h, x) == has_window(e, x));
    }
    assert(g.live(g.selected_window));
}

/// A window that is found has the identifier by which it was found.
proof fn lemma_found_identifier(f: FrameState, w: u64)
    ensures
        f.window(w) matches Some(Window::Leaf(l)) ==> l.id == w,
{
    lemma_found_leaf_identifier(f.root, w);
}

pub(crate) proof fn lemma_found_leaf_identifier(ws: crate::window::Windows, w: u64)
    ensures
        find(ws, w) matches Some(Window::Leaf(l)) ==> l.id == w,
    decreases ws,
{
    match ws {
        crate::window::Windows::Empty => {},
        crate::window::Windows::Leaf(_, next) => {
            lemma_found_leaf_identifier(*next, w);
        },
        crate::window::Windows::Internal(_, child, next) => {
            lemma_found_leaf_identifier(*child, w);
            lemma_found_leaf_identifier(*next, w);
        },
    }
}

/// A session has a selected frame after startup, and its frames are in order.
pub proof fn law_startup_keeps_order(st: UiState)
    requires
        well_formed(st.frames),
        st.frames.selected_frame() is Some || roomy(st.frames),
    ensures
        well_formed(booted(st).frames),
        booted(st).frames.selected_frame() is Some,
        booted(booted(st)) == booted(st),
        boot_id(booted(st)) == boot_id(st),
        booted(st).frames.get(boot_id(st)) == booted(st).frames.selected_frame(),
{
    if st.frames.selected_frame() is Some {
        lemma_frame_index(st.frames.list, st.frames.selected->0);
    } else {
        law_startup_frame_is_made_once(st);
        let (b1, shown) = current_or_scratch(st.buffers);
        let name = crate::value::lstr("F1"@);
        let frames = st.frames.created(name, 80, 24, shown);
        law_making_a_frame_keeps_order(st.frames, name, 80, 24, shown);
        let (b2, minibuffer) = buffer_named(b1, " *Minibuf-0*"@);
        let id = st.frames.next_frame_id;
        assert(frames.selected == Some(id));
        let f = frames.get(id)->0;
        lemma_frame_index(frames.list, id);
        assert(sound(frames.list[frame_index(frames.list, id)]));
        lemma_startup_frame(f, minibuffer);
        let g = startup_frame(f, minibuffer);
        lemma_changed_frame(frames, id, g, frames.next_window_id);
        let t = frames.with_frame(id, g);
        assert(Frames { next_window_id: frames.next_window_id, ..t } == t);
        assert(booted(st).frames == t);
    }
}

/// The frame of a live window has it.
pub(crate) proof fn lemma_live_window_is_there(s: Frames, list: Seq<FrameState>, k: int, w: u64)
    requires
        well_formed(s),
        0 <= k <= s.list.len(),
        list == s.list.skip(k),
        frame_with(list, w, true) is Some,
    ensures
        s.window(frame_with(list, w, true)->0, w) matches Some(Window::Leaf(_)),
    decreases list.len(),
{
    assert(list.len() > 0);
    assert(list[0] == s.list[k]);
    if list[0].live(w) {
        lemma_place_of_frame(s, k);
    } else {
        assert(list.drop_first() =~= s.list.skip(k + 1));
        lemma_live_window_is_there(s, list.drop_first(), k + 1, w);
    }
}

/// A live window has only one frame.
proof fn lemma_live_window_has_one_frame(
    s: Frames,
    list: Seq<FrameState>,
    k: int,
    f: u64,
    w: u64,
)
    requires
        well_formed(s),
        0 <= k <= frame_index(s.list, f) < s.list.len(),
        list == s.list.skip(k),
        s.window(f, w) matches Some(Window::Leaf(_)),
    ensures
        frame_with(list, w, true) == Some(f),
    decreases list.len(),
{
    lemma_frame_index(s.list, f);
    let i = frame_index(s.list, f);
    assert(list[0] == s.list[k]);
    if k < i {
        assert(!s.list[k].live(w)) by {
            if s.list[k].live(w) {
                lemma_found_is_somewhere(s.list[k].root, w);
                assert(has_window(s.list[k], w));
                lemma_found_is_somewhere(s.list[i].root, w);
                assert(has_window(s.list[i], w));
            }
        }
        assert(list.drop_first() =~= s.list.skip(k + 1));
        lemma_live_window_has_one_frame(s, list.drop_first(), k + 1, f, w);
    }
}

/// A window argument that was resolved stands for a window of the session that is
/// left, and for the same one when it is resolved again.
pub(crate) proof fn lemma_resolved(st: UiState, a: Lisp, f: u64, w: u64)
    requires
        well_formed(st.frames),
        st.frames.selected_frame() is Some || roomy(st.frames),
        window_arg(st, a, "window-live-p"@) == Found::Is((f, w)),
    ensures
        ({
            let s = after(st, a);
            &&& well_formed(s.frames)
            &&& s.frames.selected_frame() is Some
            &&& s.frames.window(f, w) matches Some(Window::Leaf(l)) && l.id == w
            &&& a == Lisp::Nil ==> s.frames.selected == Some(f)
                && s.frames.get(f)->0.selected_window == w
            &&& a != Lisp::Nil ==> designated(a) == Some(w)
        }),
{
    reveal_strlit("window-live-p");
    reveal_strlit("window-valid-p");
    assert("window-live-p"@.len() == 13 && "window-valid-p"@.len() == 14);
    law_startup_keeps_order(st);
    let s = after(st, a);
    if a == Lisp::Nil {
        let k = frame_index(s.frames.list, f);
        lemma_frame_index(s.frames.list, f);
        assert(s.frames.selected_frame() == s.frames.get(f));
        let id = s.frames.selected->0;
        lemma_frame_index(s.frames.list, id);
        assert(sound(s.frames.list[k]));
    } else {
        assert(st.frames.list.skip(0) =~= st.frames.list);
        lemma_live_window_is_there(st.frames, st.frames.list, 0, w);
        lemma_frame_index(st.frames.list, f);
        assert(st.frames.list.len() > 0);
    }
    lemma_found_identifier(s.frames.get(f)->0, w);
}

/// After a change that keeps which frame and windows are selected, an argument still
/// stands for the same window, if that still shows a buffer.
proof fn lemma_found_again(t: UiState, a: Lisp, f: u64, w: u64)
    requires
        well_formed(t.frames),
        t.frames.window(f, w) matches Some(Window::Leaf(_)),
        a == Lisp::Nil ==> t.frames.selected == Some(f) && t.frames.get(f)->0.selected_window
            == w,
        a != Lisp::Nil ==> designated(a) == Some(w),
        t.frames.selected_frame() is Some,
    ensures
        booted(t) == t,
        after(t, a) == t,
        window_arg(t, a, "window-live-p"@) == Found::Is((f, w)),
{
    reveal_strlit("window-live-p");
    reveal_strlit("window-valid-p");
    assert("window-live-p"@.len() == 13 && "window-valid-p"@.len() == 14);
    lemma_frame_index(t.frames.list, f);
    if a != Lisp::Nil {
        assert(t.frames.list.skip(0) =~= t.frames.list);
        lemma_live_window_has_one_frame(t.frames, t.frames.list, 0, f, w);
    } else {
        assert(t.frames.get(f)->0.id == f);
    }
}

/// Splitting a window leaves the frames in order.
pub proof fn law_split_window_keeps_order(st: UiState, window: Lisp, side: Lisp)
    requires
        well_formed(st.frames),
        roomy(st.frames),
    ensures
        well_formed(split_window_step(st, window, side).state.frames),
{
    law_startup_keeps_order(st);
    let s = after(st, window);
    match window_or_error_arg(st, window) {
        Found::Is((f, w)) => {
            law_splitting_a_window_keeps_order(
                s.frames,
                f,
                w,
                crate::window_cmds::edit::split_direction(side),
            );
        },
        Found::Signal(_) => {},
    }
}

/// Deleting a window leaves the frames in order.
pub proof fn law_delete_window_keeps_order(st: UiState, args: Seq<Lisp>)
    requires
        well_formed(st.frames),
        roomy(st.frames),
    ensures
        well_formed(delete_window_step(st, args).state.frames),
        well_formed(delete_window_internal_step(st, args).state.frames),
{
    law_startup_keeps_order(st);
    let a = arg(args, 0);
    let s = after(st, a);
    match window_or_error_arg(st, a) {
        Found::Is((f, w)) => {
            law_deleting_a_window_keeps_order(s.frames, f, w);
        },
        Found::Signal(_) => {},
    }
    match window_object_arg(st, a, "windowp"@) {
        Found::Is(w) => {
            match s.frames.frame_of_valid(w) {
                Some(f) => {
                    law_deleting_a_window_keeps_order(s.frames, f, w);
                },
                None => {},
            }
        },
        Found::Signal(_) => {},
    }
}

proof fn lemma_all_deleted(s: Frames, f: u64, ids: Seq<u64>, keep: u64)
    requires
        well_formed(s),
    ensures
        well_formed(all_deleted(s, f, ids, keep)),
    decreases ids.len(),
{
    if ids.len() > 0 {
        law_deleting_a_window_keeps_order(s, f, ids[0]);
        let t = if ids[0] == keep {
            s
        } else {
            s.without_window(f, ids[0])
        };
        lemma_all_deleted(t, f, ids.drop_first(), keep);
    }
}

proof fn lemma_only_window(s: UiState, f: u64, keep: u64)
    requires
        well_formed(s.frames),
    ensures
        well_formed(only_window(s, f, keep).state.frames),
{
    match s.frames.get(f) {
        Some(frame) => {
            lemma_all_deleted(s.frames, f, leaf_ids(frame.root), keep);
            let frames = all_deleted(s.frames, f, leaf_ids(frame.root), keep);
            if frames.get(f) is Some {
                law_selecting_a_window_keeps_order(frames, f, keep);
            }
        },
        None => {},
    }
}

/// Deleting all other windows leaves the frames in order.
pub proof fn law_delete_other_windows_keeps_order(st: UiState, args: Seq<Lisp>)
    requires
        well_formed(st.frames),
        roomy(st.frames),
    ensures
        well_formed(delete_other_windows_step(st, args).state.frames),
        well_formed(delete_other_windows_internal_step(st, args).state.frames),
{
    law_startup_keeps_order(st);
    let a = arg(args, 0);
    let s = after(st, a);
    match window_or_error_arg(st, a) {
        Found::Is((f, w)) => {
            lemma_only_window(s, f, w);
        },
        Found::Signal(_) => {},
    }
    match window_arg(st, a, "window-valid-p"@) {
        Found::Is((f, w)) => {
            lemma_only_window(s, f, w);
        },
        Found::Signal(_) => {},
    }
}

pub(crate) proof fn lemma_noted_selection(s: Frames, w: u64)
    requires
        well_formed(s),
    ensures
        well_formed(s.selection_noted(w)),
        s.selection_noted(w).list == s.list,
        s.selection_noted(w).selected == s.selected,
{
    let t = s.selection_noted(w);
    assert(t.list == s.list);
    assert(forall|id: u64| t.get(id) == s.get(id));
}

pub(crate) proof fn lemma_window_selected(s: UiState, f: u64, w: u64, record: bool)
    requires
        well_formed(s.frames),
    ensures
        well_formed(window_selected(s, f, w, record).frames),
{
    let frames = match s.frames.get(f) {
        Some(frame) => s.frames.with_frame(f, frame.with_selected(w)),
        None => s.frames,
    };
    if s.frames.get(f) is Some {
        law_selecting_a_window_keeps_order(s.frames, f, w);
    }
    lemma_noted_selection(frames, w);
}

/// Selecting a window, given or counted from the selected one, leaves the frames in order.
pub proof fn law_select_window_keeps_order(st: UiState, args: Seq<Lisp>)
    requires
        well_formed(st.frames),
        roomy(st.frames),
    ensures
        well_formed(select_window_step(st, args).state.frames),
        well_formed(other_window_step(st, args).state.frames),
{
    law_startup_keeps_order(st);
    let s = booted(st);
    match designated(arg(args, 0)) {
        Some(w) => {
            lemma_window_selected(
                s,
                boot_id(st),
                w,
                arg(args, 1) == Lisp::Nil,
            );
        },
        None => {},
    }
    match count_arg(arg(args, 0)) {
        Found::Is(count) => {
            match s.frames.selected_frame() {
                Some(frame) => {
                    let w = crate::window_cmds::listing::stepped(
                        leaf_ids(frame.root),
                        frame.selected_window,
                        count as int,
                    );
                    lemma_window_selected(s, frame.id, w, frame.live(w));
                },
                None => {},
            }
        },
        Found::Signal(_) => {},
    }
}

/// Making, deleting and selecting a frame leave the frames in order.
pub proof fn law_frame_builtins_keep_order(
    st: UiState,
    args: Seq<Lisp>,
    name: Seq<char>,
    shown: bool,
)
    requires
        well_formed(st.frames),
        roomy(st.frames),
    ensures
        well_formed(make_frame_step(st, args).state.frames),
        well_formed(delete_frame_step(st, args).state.frames),
        well_formed(select_frame_step(st, name, args, shown).state.frames),
{
    law_startup_keeps_order(st);
    let a = arg(args, 0);
    let n = requested_frame(a);
    law_making_a_frame_keeps_order(
        st.frames,
        n.name,
        n.width,
        n.height,
        match st.buffers.current_buffer() {
            Some(b) => b.id,
            None => 0,
        },
    );
    let s = after(st, a);
    match frame_arg(st, a, "framep"@) {
        Found::Is(id) => {
            law_deleting_a_frame_keeps_order(s.frames, id);
        },
        Found::Signal(_) => {},
    }
    match designated_frame(a) {
        Some(id) => {
            law_selecting_a_frame_keeps_order(st.frames, id);
            let frames = st.frames.with_selected(id);
            match frames.get(id) {
                Some(f) => {
                    lemma_noted_selection(frames, f.selected_window);
                },
                None => {},
            }
        },
        None => {},
    }
}

/// Frames in order stay so when only what is kept of their windows changes.
proof fn lemma_record_changed(s: UiState, t: UiState, a: Lisp, f: u64, w: u64)
    requires
        well_formed(s.frames),
        s.frames.selected_frame() is Some,
        s.frames.window(f, w) matches Some(Window::Leaf(_)),
        a == Lisp::Nil ==> s.frames.selected == Some(f) && s.frames.get(f)->0.selected_window
            == w,
        a != Lisp::Nil ==> designated(a) == Some(w),
        t.frames.list == s.frames.list,
        t.frames.selected == s.frames.selected,
        t.frames.next_frame_id == s.frames.next_frame_id,
        t.frames.next_window_id == s.frames.next_window_id,
    ensures
        booted(t) == t,
        after(t, a) == t,
        window_arg(t, a, "window-live-p"@) == Found::Is((f, w)),
{
    assert forall|id: u64| t.frames.get(id) == #[trigger] s.frames.get(id) by {}
    match s.frames.selected {
        Some(id) => {
            assert(t.frames.get(id) == s.frames.get(id));
        },
        None => {},
    }
    assert(t.frames.get(f) == s.frames.get(f));
    assert(well_formed(t.frames));
    lemma_found_again(t, a, f, w);
}

pub(crate) proof fn lemma_record_identifier(s: Frames, w: u64)
    ensures
        s.record(w).id == w,
{
    lemma_record_index(s.records, w);
}

/// What is set of a window is read back: its display table, its cursor type and the
/// lists of the buffers that it showed.
pub proof fn law_window_settings_are_read_back(st: UiState, a: Lisp, v: Lisp)
    requires
        well_formed(st.frames),
        roomy(st.frames),
    ensures
        ({
            let set = keep_step(
                st,
                "set-window-display-table"@,
                seq![a, v],
                |k: RecordState, x: Lisp| RecordState { display_table: x, ..k },
            );
            set.end == Outcome::Value(v) ==> kept_step(
                set.state,
                "window-display-table"@,
                seq![a],
                |k: RecordState| k.display_table,
            ).end == Outcome::Value(v)
        }),
        ({
            let set = keep_step(
                st,
                "set-window-cursor-type"@,
                seq![a, v],
                |k: RecordState, x: Lisp| RecordState { cursor_type: x, ..k },
            );
            set.end == Outcome::Value(v) ==> kept_step(
                set.state,
                "window-cursor-type"@,
                seq![a],
                |k: RecordState| k.cursor_type,
            ).end == Outcome::Value(v)
        }),
        ({
            let set = keep_step(
                st,
                "set-window-prev-buffers"@,
                seq![a, v],
                |k: RecordState, x: Lisp| RecordState { prev_buffers: x, ..k },
            );
            set.end == Outcome::Value(v) ==> kept_step(
                set.state,
                "window-prev-buffers"@,
                seq![a],
                |k: RecordState| k.prev_buffers,
            ).end == Outcome::Value(v)
        }),
        ({
            let set = keep_step(
                st,
                "set-window-next-buffers"@,
                seq![a, v],
                |k: RecordState, x: Lisp| RecordState { next_buffers: x, ..k },
            );
            set.end == Outcome::Value(v) ==> kept_step(
                set.state,
                "window-next-buffers"@,
                seq![a],
                |k: RecordState| k.next_buffers,
            ).end == Outcome::Value(v)
        }),
{
    law_startup_keeps_order(st);
    let s0 = booted(st);
    match window_arg(s0, a, "window-live-p"@) {
        Found::Is((f, w)) => {
            lemma_resolved(s0, a, f, w);
            let s = after(s0, a);
            let k = s.frames.record(w);
            lemma_record_identifier(s.frames, w);
            let k1 = RecordState { display_table: v, ..k };
            let k2 = RecordState { cursor_type: v, ..k };
            let k3 = RecordState { prev_buffers: v, ..k };
            let k4 = RecordState { next_buffers: v, ..k };
            law_record_is_read_back(s.frames, w, k1, w);
            law_record_is_read_back(s.frames, w, k2, w);
            law_record_is_read_back(s.frames, w, k3, w);
            law_record_is_read_back(s.frames, w, k4, w);
            lemma_record_changed(s, s.with_frames(s.frames.with_record(w, k1)), a, f, w);
            lemma_record_changed(s, s.with_frames(s.frames.with_record(w, k2)), a, f, w);
            lemma_record_changed(s, s.with_frames(s.frames.with_record(w, k3)), a, f, w);
            lemma_record_changed(s, s.with_frames(s.frames.with_record(w, k4)), a, f, w);
        },
        Found::Signal(o) => {
            lemma_signal_is_no_value(s0, a);
        },
    }
}

/// A window argument that stands for no window raises a signal.
proof fn lemma_signal_is_no_value(st: UiState, a: Lisp)
    ensures
        window_arg(st, a, "window-live-p"@) matches Found::Signal(o) ==> !(o is Value),
{
}

/// A window parameter that is set is read back.
pub proof fn law_window_parameter_is_read_back(st: UiState, a: Lisp, key: Lisp, v: Lisp)
    requires
        well_formed(st.frames),
        roomy(st.frames),
    ensures
        ({
            let set = set_window_parameter_step(st, seq![a, key, v]);
            set.end == Outcome::Value(v) ==> window_parameter_step(
                set.state,
                seq![a, key],
            ).end == Outcome::Value(v)
        }),
{
    law_startup_keeps_order(st);
    let s0 = booted(st);
    match window_object_arg(s0, a, "windowp"@) {
        Found::Is(w) => {
            let s = after(s0, a);
            let k = s.frames.record(w);
            lemma_record_identifier(s.frames, w);
            let r = RecordState { parameters: alist_put(k.parameters, key, v), ..k };
            law_record_is_read_back(s.frames, w, r, w);
            law_alist_put(k.parameters, key, v);
            let t = s.with_frames(s.frames.with_record(w, r));
            assert forall|id: u64| t.frames.get(id) == #[trigger] s.frames.get(id) by {}
            assert(t.frames.selected_frame() == s.frames.selected_frame());
        },
        Found::Signal(o) => {},
    }
}

/// A change of a window leaves it the one that an argument stands for.
pub(crate) proof fn lemma_leaf_changed(s: UiState, a: Lisp, f: u64, w: u64, new: Leaf)
    requires
        well_formed(s.frames),
        s.frames.selected_frame() is Some,
        s.frames.window(f, w) matches Some(Window::Leaf(_)),
        new.id == w,
        a == Lisp::Nil ==> s.frames.selected == Some(f) && s.frames.get(f)->0.selected_window
            == w,
        a != Lisp::Nil ==> designated(a) == Some(w),
    ensures
        ({
            let t = s.with_frames(s.frames.with_leaf(f, w, new));
            &&& well_formed(t.frames)
            &&& booted(t) == t
            &&& after(t, a) == t
            &&& window_arg(t, a, "window-live-p"@) == Found::Is((f, w))
            &&& t.frames.window(f, w) == Some(Window::Leaf(new))
        }),
{
    let t = s.with_frames(s.frames.with_leaf(f, w, new));
    law_changed_window_keeps_order(s.frames, f, w, new);
    law_window_is_read_back(s.frames, f, w, new);
    let frame = s.frames.get(f)->0;
    let g = frame.with_leaf(w, new);
    lemma_frame_index(s.frames.list, f);
    assert(sound(s.frames.list[frame_index(s.frames.list, f)]));
    lemma_frame_with_leaf(frame, w, new);
    lemma_changed_frame(s.frames, f, g, s.frames.next_window_id);
    assert(t.frames.get(f) == Some(g));
    assert(g.selected_window == frame.selected_window);
    match s.frames.selected {
        Some(id) => {
            assert(t.frames.selected == Some(id));
            assert(t.frames.get(id) is Some);
        },
        None => {},
    }
    lemma_found_again(t, a, f, w);
}

/// Whether a window is dedicated is read back as it was set.
pub proof fn law_dedicated_flag_is_read_back(st: UiState, a: Lisp, flag: Lisp)
    requires
        well_formed(st.frames),
        roomy(st.frames),
    ensures
        ({
            let set = set_window_dedicated_p_step(st, seq![a, flag]);
            set.end is Value ==> window_dedicated_p_step(set.state, seq![a]).end == set.end
        }),
{
    match window_arg(st, a, "window-live-p"@) {
        Found::Is((f, w)) => {
            lemma_resolved(st, a, f, w);
            let s = after(st, a);
            let l = s.frames.window(f, w)->0->Leaf_0;
            lemma_leaf_changed(s, a, f, w, Leaf { dedicated: flag != Lisp::Nil, ..l });
        },
        Found::Signal(_) => {
            lemma_signal_is_no_value(st, a);
        },
    }
}

/// How far a window is scrolled sideways is read back as it was set.
pub proof fn law_hscroll_is_read_back(st: UiState, a: Lisp, columns: Lisp)
    requires
        well_formed(st.frames),
        roomy(st.frames),
    ensures
        ({
            let set = set_window_hscroll_step(st, seq![a, columns]);
            set.end is Value ==> window_hscroll_step(set.state, seq![a]).end == set.end
        }),
{
    match window_arg(st, a, "window-live-p"@) {
        Found::Is((f, w)) => {
            lemma_resolved(st, a, f, w);
            let s = after(st, a);
            let l = s.frames.window(f, w)->0->Leaf_0;
            match int_arg(columns, "fixnump"@) {
                Found::Is(n) => {
                    let new = Leaf { hscroll: column_count(n as int) as usize, ..l };
                    lemma_leaf_changed(s, a, f, w, new);
                    assert((column_count(n as int) as usize) as i64 == column_count(n as int) as i64);
                },
                Found::Signal(_) => {},
            }
        },
        Found::Signal(_) => {
            lemma_signal_is_no_value(st, a);
        },
    }
}

/// The margins of a window are read back as they were set.
pub proof fn law_margins_are_read_back(st: UiState, a: Lisp, left: Lisp, right: Lisp)
    requires
        well_formed(st.frames),
        roomy(st.frames),
    ensures
        ({
            let set = set_window_margins_step(st, seq![a, left, right]);
            set.end is Value ==> window_margins_step(set.state, seq![a]).end == Outcome::Value(
                cons(
                    margin_value(margin_arg(left)->Is_0),
                    margin_value(margin_arg(right)->Is_0),
                ),
            )
        }),
{
    match window_arg(st, a, "window-live-p"@) {
        Found::Is((f, w)) => {
            lemma_resolved(st, a, f, w);
            let s = after(st, a);
            let l = s.frames.window(f, w)->0->Leaf_0;
            match (margin_arg(left), margin_arg(right)) {
                (Found::Is(m), Found::Is(n)) => {
                    lemma_leaf_changed(
                        s,
                        a,
                        f,
                        w,
                        Leaf { left_margin: m, right_margin: n, ..l },
                    );
                    lemma_found_again(s, a, f, w);
                },
                _ => {},
            }
        },
        Found::Signal(_) => {
            lemma_signal_is_no_value(st, a);
        },
    }
}

/// The start and the point of a window are read back where they were set to an integer:
/// inside its buffer. The minibuffer window keeps those that it had.
pub proof fn law_window_positions_are_read_back(st: UiState, a: Lisp, pos: i64)
    requires
        well_formed(st.frames),
        roomy(st.frames),
    ensures
        window_arg(st, a, "window-live-p"@) matches Found::Is((f, w)) ==> {
            let s = after(st, a);
            &&& !is_minibuffer(s.frames, f, w) ==> match clamped_position(
                s.frames,
                s.buffers,
                f,
                w,
                pos as int,
            ) {
                Some(n) => {
                    &&& window_start_step(
                        set_window_start_step(st, seq![a, Lisp::Int(pos)]).state,
                        seq![a],
                    ).end == Outcome::Value(Lisp::Int((n as usize) as i64))
                    &&& window_point_step(
                        set_window_point_step(st, seq![a, Lisp::Int(pos)]).state,
                        seq![a],
                    ).end == Outcome::Value(Lisp::Int((n as usize) as i64))
                },
                None => {
                    &&& set_window_start_step(st, seq![a, Lisp::Int(pos)]).state == s
                    &&& set_window_point_step(st, seq![a, Lisp::Int(pos)]).state == s
                },
            }
            &&& is_minibuffer(s.frames, f, w) ==> {
                &&& set_window_start_step(st, seq![a, Lisp::Int(pos)]).state == s
                &&& set_window_point_step(st, seq![a, Lisp::Int(pos)]).state == s
            }
        },
{
    match window_arg(st, a, "window-live-p"@) {
        Found::Is((f, w)) => {
            lemma_resolved(st, a, f, w);
            let s = after(st, a);
            let l = s.frames.window(f, w)->0->Leaf_0;
            match clamped_position(s.frames, s.buffers, f, w, pos as int) {
                Some(n) => {
                    lemma_leaf_changed(s, a, f, w, Leaf { window_start: n as usize, ..l });
                    lemma_leaf_changed(s, a, f, w, Leaf { point: n as usize, ..l });
                },
                None => {},
            }
        },
        Found::Signal(_) => {},
    }
}

/// A window shows the buffer that it was last made to show.
pub proof fn law_shown_buffer_is_read_back(st: UiState, a: Lisp, buffer: u64, keep: Lisp)
    requires
        well_formed(st.frames),
        roomy(st.frames),
    ensures
        ({
            let set = set_window_buffer_step(st, seq![a, Lisp::Buffer(buffer), keep]);
            set.end is Value ==> window_buffer_step(set.state, seq![a]).end == Outcome::Value(
                Lisp::Buffer(buffer),
            )
        }),
{
    match window_arg(st, a, "window-live-p"@) {
        Found::Is((f, w)) => {
            lemma_resolved(st, a, f, w);
            let s = after(st, a);
            let kept = shown_kept(s, f, w, buffer).0;
            let u = s.with_frames(kept);
            assert forall|id: u64| kept.get(id) == #[trigger] s.frames.get(id) by {}
            assert(kept.list == s.frames.list && kept.selected == s.frames.selected);
            assert(kept.get(f) == s.frames.get(f));
            match s.frames.selected {
                Some(id) => {
                    assert(kept.get(id) == s.frames.get(id));
                },
                None => {},
            }
            assert(well_formed(kept));
            let (start, pt) = match entry(kept.record(w).positions, buffer) {
                Some(p) => p,
                None => (1usize, first_point(s.buffers, buffer)),
            };
            let l = s.frames.window(f, w)->0->Leaf_0;
            let new = Leaf {
                buffer_id: buffer,
                window_start: at_least_one(start),
                point: at_least_one(pt),
                left_margin: if keep != Lisp::Nil {
                    l.left_margin
                } else {
                    0
                },
                right_margin: if keep != Lisp::Nil {
                    l.right_margin
                } else {
                    0
                },
                ..l
            };
            lemma_leaf_changed(u, a, f, w, new);
            let t = u.with_frames(kept.with_leaf(f, w, new));
            lemma_frame_index(t.frames.list, f);
            if a != Lisp::Nil {
                assert(t.frames.list.skip(0) =~= t.frames.list);
                lemma_live_window_has_one_frame(t.frames, t.frames.list, 0, f, w);
            }
        },
        Found::Signal(_) => {
            lemma_signal_is_no_value(st, a);
        },
    }
}

/// The window that was selected is the selected window.
pub proof fn law_selected_window_is_read_back(st: UiState, w: u64, norecord: Lisp)
    requires
        well_formed(st.frames),
        roomy(st.frames),
    ensures
        ({
            let set = select_window_step(st, seq![Lisp::Window(w), norecord]);
            set.end is Value ==> selected_window_step(set.state, seq![]).end == Outcome::Value(
                Lisp::Window(w),
            )
        }),
{
    law_startup_keeps_order(st);
    let s = booted(st);
    let id = boot_id(st);
    match s.frames.get(id) {
        Some(f) => {
            if f.live(w) {
                law_selecting_a_window_keeps_order(s.frames, id, w);
                let g = f.with_selected(w);
                let frames = s.frames.with_frame(id, g);
                lemma_frame_index(s.frames.list, id);
                let k = frame_index(s.frames.list, id);
                assert(sound(s.frames.list[k]));
                lemma_changed_frame(s.frames, id, g, s.frames.next_window_id);
                assert(frames.get(id) == Some(g));
                lemma_noted_selection(frames, w);
                let t = window_selected(s, id, w, norecord == Lisp::Nil);
                assert(t.frames.list == frames.list);
                assert(t.frames.get(id) == Some(g));
                lemma_frame_index(s.frames.list, s.frames.selected->0);
                assert(s.frames.selected == Some(id));
                assert(t.frames.selected_frame() == Some(g));
            }
        },
        None => {},
    }
}

/// A deleted window is still a window object and shows no buffer any more.
pub proof fn law_deleted_window_is_not_live(st: UiState, w: u64)
    requires
        well_formed(st.frames),
        roomy(st.frames),
    ensures
        ({
            let done = delete_window_step(st, seq![Lisp::Window(w)]);
            done.end is Value ==> {
                &&& done.state.frames.frame_of_live(w) is None
                &&& done.state.frames.known_window(w) == st.frames.known_window(w)
                &&& window_buffer_step(done.state, seq![Lisp::Window(w)]).end == (
                if st.frames.known_window(w) {
                    Outcome::Value(Lisp::Nil)
                } else {
                    crate::value::wrong_type("windowp"@, Lisp::Window(w))
                })
            }
        }),
{
    match st.frames.frame_of_live(w) {
        Some(f) => {
            if st.frames.can_delete(f, w) {
                law_deleting_a_window_keeps_order(st.frames, f, w);
                let t = st.frames.without_window(f, w);
                assert(t.list.skip(0) =~= t.list);
                lemma_window_nowhere(t, t.list, 0, w);
            }
        },
        None => {},
    }
}

proof fn lemma_window_nowhere(s: Frames, list: Seq<FrameState>, k: int, w: u64)
    requires
        0 <= k <= s.list.len(),
        list == s.list.skip(k),
        forall|i: int| 0 <= i < s.list.len() ==> !has_window(#[trigger] s.list[i], w),
    ensures
        frame_with(list, w, true) is None,
    decreases list.len(),
{
    if list.len() > 0 {
        assert(list[0] == s.list[k]);
        assert(!has_window(s.list[k], w));
        lemma_found_is_somewhere(s.list[k].root, w);
        lemma_found_identifier(s.list[k], w);
        assert(list.drop_first() =~= s.list.skip(k + 1));
        lemma_window_nowhere(s, list.drop_first(), k + 1, w);
    }
}

/// Whether two frames differ in nothing that says where their windows are.
pub(crate) open spec fn same_windows(f: FrameState, g: FrameState) -> bool {
    &&& g.id == f.id
    &&& g.root == f.root
    &&& g.minibuffer_leaf == f.minibuffer_leaf
    &&& g.minibuffer_window == f.minibuffer_window
    &&& g.selected_window == f.selected_window
}

pub(crate) proof fn lemma_same_windows(s: Frames, id: u64, g: FrameState)
    requires
        well_formed(s),
        s.get(id) is Some,
        same_windows(s.get(id)->0, g),
    ensures
        well_formed(s.with_frame(id, g)),
{
    lemma_frame_index(s.list, id);
    let f = s.get(id)->0;
    assert(sound(s.list[frame_index(s.list, id)]));
    assert(g.window(g.selected_window) == f.window(f.selected_window));
    assert forall|x: u64| #[trigger] has_window(g, x) implies has_window(f, x) by {}
    lemma_changed_frame(s, id, g, s.next_window_id);
    let t = s.with_frame(id, g);
    assert(Frames { next_window_id: s.next_window_id, ..t } == t);
}

proof fn lemma_pairs_keep_windows(f: FrameState, items: Seq<Lisp>)
    ensures
        same_windows(f, frame_with_pairs(f, items)),
    decreases items.len(),
{
    if items.len() > 0 {
        lemma_pairs_keep_windows(f, items.drop_last());
    }
}

/// Showing and hiding a frame, setting its size and changing its parameters leave the
/// frames in order.
pub proof fn law_frame_setters_keep_order(st: UiState, args: Seq<Lisp>)
    requires
        well_formed(st.frames),
        roomy(st.frames),
    ensures
        well_formed(iconify_frame_step(st, args).state.frames),
        well_formed(make_frame_visible_step(st, args).state.frames),
        well_formed(set_frame_height_step(st, args).state.frames),
        well_formed(set_frame_width_step(st, args).state.frames),
        well_formed(set_frame_size_step(st, args).state.frames),
        well_formed(modify_frame_parameters_step(st, args).state.frames),
{
    law_startup_keeps_order(st);
    let a = arg(args, 0);
    let s = after(st, a);
    match frame_arg(st, a, "frame-live-p"@) {
        Found::Is(id) => {
            match s.frames.get(id) {
                Some(f) => {
                    lemma_same_windows(s.frames, id, FrameState { visible: true, ..f });
                    lemma_same_windows(s.frames, id, FrameState { visible: false, ..f });
                    let items = items_or_none(arg(args, 1));
                    lemma_pairs_keep_windows(f, items);
                    lemma_same_windows(s.frames, id, frame_with_pairs(f, items));
                    match int_arg(arg(args, 1), "integerp"@) {
                        Found::Is(n) => {
                            lemma_same_windows(
                                s.frames,
                                id,
                                f.with_text_size(f.total_cols(), n as int),
                            );
                            lemma_same_windows(
                                s.frames,
                                id,
                                f.with_text_size(n as int, f.text_lines()),
                            );
                            match int_arg(arg(args, 2), "integerp"@) {
                                Found::Is(m) => {
                                    lemma_same_windows(
                                        s.frames,
                                        id,
                                        f.with_text_size(n as int, m as int),
                                    );
                                },
                                Found::Signal(_) => {},
                            }
                        },
                        Found::Signal(_) => {},
                    }
                },
                None => {},
            }
        },
        Found::Signal(_) => {},
    }
}

pub(crate) proof fn lemma_positioned(s: UiState, f: u64, w: u64, pos: int, start: bool, point: bool)
    requires
        well_formed(s.frames),
        s.frames.window(f, w) matches Some(Window::Leaf(l)) && l.id == w,
    ensures
        well_formed(positioned(s, f, w, pos, start, point).frames),
{
    match clamped_position(s.frames, s.buffers, f, w, pos) {
        Some(n) => {
            let l = s.frames.window(f, w)->0->Leaf_0;
            law_changed_window_keeps_order(
                s.frames,
                f,
                w,
                Leaf {
                    window_start: if start {
                        n as usize
                    } else {
                        l.window_start
                    },
                    point: if point {
                        n as usize
                    } else {
                        l.point
                    },
                    ..l
                },
            );
        },
        None => {},
    }
}

/// Setting the start or the point of a window leaves the frames in order.
pub proof fn law_window_positions_keep_order(st: UiState, args: Seq<Lisp>)
    requires
        well_formed(st.frames),
        roomy(st.frames),
    ensures
        well_formed(set_window_start_step(st, args).state.frames),
        well_formed(set_window_group_start_step(st, args).state.frames),
        well_formed(set_window_point_step(st, args).state.frames),
{
    law_startup_keeps_order(st);
    let a = arg(args, 0);
    let s = after(st, a);
    match window_arg(st, a, "window-live-p"@) {
        Found::Is((f, w)) => {
            lemma_resolved(st, a, f, w);
            match position_arg(arg(args, 1)) {
                Found::Is(IntegerOrMarkerArg::Int(n)) => {
                    lemma_positioned(s, f, w, n as int, true, false);
                    lemma_positioned(s, f, w, n as int, false, true);
                },
                Found::Is(IntegerOrMarkerArg::Marker(Some(n))) => {
                    lemma_positioned(s, f, w, n as int, true, false);
                    lemma_positioned(s, f, w, n as int, true, true);
                    lemma_positioned(s, f, w, n as int, false, true);
                },
                _ => {},
            }
        },
        Found::Signal(_) => {},
    }
}

/// Setting whether a window is dedicated, how far it is scrolled sideways, its margins,
/// its parameters or its buffer leaves the frames in order.
pub proof fn law_window_setters_keep_order(st: UiState, args: Seq<Lisp>)
    requires
        well_formed(st.frames),
        roomy(st.frames),
    ensures
        well_formed(set_window_dedicated_p_step(st, args).state.frames),
        well_formed(set_window_hscroll_step(st, args).state.frames),
        well_formed(set_window_margins_step(st, args).state.frames),
        well_formed(set_window_parameter_step(st, args).state.frames),
        well_formed(set_window_buffer_step(st, args).state.frames),
{
    law_startup_keeps_order(st);
    let a = arg(args, 0);
    let b = booted(st);
    match window_object_arg(b, a, "windowp"@) {
        Found::Is(w) => {
            let s = after(b, a);
            lemma_same_frames(
                s.frames,
                s.frames.with_record(
                    w,
                    RecordState {
                        parameters: alist_put(
                            s.frames.record(w).parameters,
                            arg(args, 1),
                            arg(args, 2),
                        ),
                        ..s.frames.record(w)
                    },
                ),
            );
        },
        Found::Signal(_) => {},
    }
    let s = after(st, a);
    match window_arg(st, a, "window-live-p"@) {
        Found::Is((f, w)) => {
            lemma_resolved(st, a, f, w);
            let l = s.frames.window(f, w)->0->Leaf_0;
            law_changed_window_keeps_order(
                s.frames,
                f,
                w,
                Leaf { dedicated: arg(args, 1) != Lisp::Nil, ..l },
            );
            match int_arg(arg(args, 1), "fixnump"@) {
                Found::Is(n) => {
                    law_changed_window_keeps_order(
                        s.frames,
                        f,
                        w,
                        Leaf { hscroll: column_count(n as int) as usize, ..l },
                    );
                },
                Found::Signal(_) => {},
            }
            match (margin_arg(arg(args, 1)), margin_arg(arg(args, 2))) {
                (Found::Is(m), Found::Is(n)) => {
                    law_changed_window_keeps_order(
                        s.frames,
                        f,
                        w,
                        Leaf { left_margin: m, right_margin: n, ..l },
                    );
                },
                _ => {},
            }
            match shown_buffer_arg(s.buffers, arg(args, 1)) {
                Found::Is(buffer) => {
                    let kept = shown_kept(s, f, w, buffer).0;
                    lemma_same_frames(s.frames, kept);
                    let point = first_point(s.buffers, buffer);
                    let keep = arg(args, 2) != Lisp::Nil;
                    let (start, pt) = match entry(kept.record(w).positions, buffer) {
                        Some(p) => p,
                        None => (1usize, point),
                    };
                    assert(kept.get(f) == s.frames.get(f));
                    law_changed_window_keeps_order(
                        kept,
                        f,
                        w,
                        Leaf {
                            buffer_id: buffer,
                            window_start: at_least_one(start),
                            point: at_least_one(pt),
                            left_margin: if keep {
                                l.left_margin
                            } else {
                                0
                            },
                            right_margin: if keep {
                                l.right_margin
                            } else {
                                0
                            },
                            ..l
                        },
                    );
                },
                Found::Signal(_) => {},
            }
        },
        Found::Signal(_) => {},
    }
}

pub(crate) proof fn lemma_same_frames(s: Frames, t: Frames)
    requires
        well_formed(s),
        t.list == s.list,
        t.selected == s.selected,
        t.next_frame_id == s.next_frame_id,
        t.next_window_id == s.next_window_id,
    ensures
        well_formed(t),
{
    assert forall|id: u64| t.get(id) == #[trigger] s.get(id) by {}
    match s.selected {
        Some(id) => {
            assert(t.get(id) == s.get(id));
        },
        None => {},
    }
}

proof fn lemma_shown_in_selected_window(st: UiState, buffer: u64, current: bool, window: bool)
    requires
        well_formed(st.frames),
        roomy(st.frames),
    ensures
        well_formed(in_selected_window(st, buffer, current, window).state.frames),
{
    law_startup_keeps_order(st);
    let s = booted(st);
    let id = boot_id(st);
    match s.frames.get(id) {
        Some(f) => {
            let w = f.selected_window;
            match s.frames.window(id, w) {
                Some(Window::Leaf(l)) => {
                    lemma_found_identifier(f, w);
                    law_changed_window_keeps_order(
                        s.frames,
                        id,
                        w,
                        Leaf { buffer_id: buffer, ..l },
                    );
                },
                _ => {},
            }
        },
        None => {},
    }
}

/// Showing a buffer in the selected window leaves the frames in order.
pub proof fn law_showing_a_buffer_keeps_order(st: UiState, args: Seq<Lisp>)
    requires
        well_formed(st.frames),
        roomy(st.frames),
    ensures
        well_formed(switch_to_buffer_step(st, args).state.frames),
        well_formed(display_buffer_step(st, args).state.frames),
        well_formed(pop_to_buffer_step(st, args).state.frames),
{
    let a = arg(args, 0);
    let (b1, r1) = made_buffer_arg(st.buffers, a, "Attempt to display deleted buffer"@);
    let (b2, r2) = made_buffer_arg(st.buffers, a, "Invalid buffer"@);
    match r1 {
        Found::Is(id) => {
            lemma_shown_in_selected_window(UiState { buffers: b1, ..st }, id, true, false);
        },
        Found::Signal(_) => {},
    }
    match r2 {
        Found::Is(id) => {
            lemma_shown_in_selected_window(UiState { buffers: b2, ..st }, id, true, false);
        },
        Found::Signal(_) => {},
    }
    match valid_buffer_arg(st.buffers, a) {
        Found::Is(id) => {
            lemma_shown_in_selected_window(st, id, false, true);
        },
        Found::Signal(_) => {},
    }
}

} // verus!
