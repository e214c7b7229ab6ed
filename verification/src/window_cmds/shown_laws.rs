//! What windows show and from where.
use crate::buffer::BufferState;
use crate::frame::RecordState;
use crate::table::entry;
use crate::value::{list_items, Lisp, Outcome};
use crate::window::{Leaf, Window};
use crate::window_cmds::display::{
    display_buffer_step, first_point, history_added, history_of, history_without,
    pop_to_buffer_step, set_window_buffer_step, shown_kept, switch_to_buffer_step,
};
use crate::window_cmds::laws::{law_record_is_read_back, law_window_is_read_back};
use crate::window_cmds::order::well_formed;
use crate::window_cmds::position::{
    after_lines, clamped_position, set_window_group_start_step, set_window_point_step,
    set_window_start_step, window_end_step, window_group_start_step, window_point_step,
    window_start_step,
};
use crate::window_cmds::query::is_minibuffer;
use crate::window_cmds::resolve::{after, window_arg, Found};
use crate::window_cmds::scroll_laws::{lemma_shown, own_height, shows};
use crate::window_cmds::state::UiState;
use crate::window_cmds::step_laws::{lemma_leaf_changed, lemma_resolved, roomy};
use crate::xdisp::measure_laws::law_lines_are_stepped_over;
use vstd::prelude::*;

verus! {

/// The end of a window is as many lines after its start as its body is high, or after the
/// last character where there are fewer.
pub proof fn law_window_ends_after_its_lines(
    st: UiState,
    f: u64,
    w: u64,
    l: Leaf,
    b: BufferState,
    height: i64,
)
    requires
        shows(st, f, w, l, b),
        own_height(st).end == Outcome::Value(Lisp::Int(height)),
        0 <= height,
        1 <= l.window_start <= b.codes().len() + 1 <= i64::MAX,
    ensures
        window_end_step(st, seq![]).state == st,
        window_end_step(st, seq![]).end matches Outcome::Value(Lisp::Int(end)) && ({
            let codes = b.codes();
            let passed = codes.subrange(l.window_start - 1, end - 1).filter(
                |x: u32| x == 10,
            ).len();
            &&& l.window_start <= end <= codes.len() + 1
            &&& passed <= height
            &&& passed < height ==> end == codes.len() + 1
            &&& passed == height && height > 0 ==> codes[end - 2] == 10
            &&& height == 0 ==> end == l.window_start
        }),
{
    lemma_shown(st, f, w, l, b);
    let z = Seq::<Lisp>::empty();
    assert(z.len() == 0);
    let codes = b.codes();
    law_lines_are_stepped_over(codes, l.window_start - 1, height as int);
    let r = after_lines(codes, l.window_start - 1, height as int);
    let frame = st.frames.get(f)->0;
    let lines = crate::frame::cells(l.bounds.height as int, frame.char_height);
    assert(crate::window_cmds::position::body_lines(st.frames, f, w, l) == height) by {
        if frame.char_height > 0 {
            vstd::arithmetic::div_mod::lemma_div_is_ordered_by_denominator(
                l.bounds.height as int,
                1,
                frame.char_height as int,
            );
            vstd::arithmetic::div_mod::lemma_div_pos_is_pos(
                l.bounds.height as int,
                frame.char_height as int,
            );
        }
        assert(0 <= lines <= u32::MAX);
    }
}

/// A position for a window is kept inside its buffer; one below the first is none.
pub proof fn law_position_stays_in_buffer(
    st: UiState,
    f: u64,
    w: u64,
    l: Leaf,
    b: BufferState,
    pos: int,
)
    requires
        st.frames.window(f, w) == Some(Window::Leaf(l)),
        st.buffers.get(l.buffer_id) == Some(b),
        b.codes().len() < usize::MAX,
    ensures
        ({
            let kept = clamped_position(st.frames, st.buffers, f, w, pos);
            &&& 1 <= pos <= b.codes().len() + 1 ==> kept == Some(pos)
            &&& pos > b.codes().len() + 1 ==> kept == Some(b.codes().len() as int + 1)
            &&& pos < 1 ==> kept is None
        }),
{
}

/// Setting the start of a window leaves its point, and setting its point leaves its start.
/// The start of a window group is that of the window.
pub proof fn law_start_and_point_are_apart(st: UiState, a: Lisp, pos: i64)
    requires
        well_formed(st.frames),
        roomy(st.frames),
    ensures
        window_arg(st, a, "window-live-p"@) matches Found::Is((f, w)) ==> {
            let s = after(st, a);
            let started = set_window_start_step(st, seq![a, Lisp::Int(pos)]);
            let grouped = set_window_group_start_step(st, seq![a, Lisp::Int(pos)]);
            let pointed = set_window_point_step(st, seq![a, Lisp::Int(pos)]);
            &&& window_point_step(started.state, seq![a]).end == window_point_step(s, seq![a]).end
            &&& window_start_step(pointed.state, seq![a]).end == window_start_step(s, seq![a]).end
            &&& grouped == started
            &&& started.end == Outcome::Value(Lisp::Int(pos))
            &&& pointed.end == Outcome::Value(Lisp::Int(pos))
            &&& !is_minibuffer(s.frames, f, w) ==> window_group_start_step(s, seq![a])
                == window_start_step(s, seq![a])
        },
{
    let x = seq![a, Lisp::Int(pos)];
    let y = seq![a];
    assert(x.len() == 2 && x[0] == a && x[1] == Lisp::Int(pos) && y.len() == 1 && y[0] == a);
    match window_arg(st, a, "window-live-p"@) {
        Found::Is((f, w)) => {
            lemma_resolved(st, a, f, w);
            let s = after(st, a);
            let l = s.frames.window(f, w)->0->Leaf_0;
            lemma_leaf_changed(s, a, f, w, l);
            match clamped_position(s.frames, s.buffers, f, w, pos as int) {
                Some(n) => {
                    lemma_leaf_changed(s, a, f, w, Leaf { window_start: n as usize, ..l });
                    lemma_leaf_changed(s, a, f, w, Leaf { point: n as usize, ..l });
                },
                None => {},
            }
        },
        Found::Signal(_) => {},
    }
}

/// `switch-to-buffer` and `pop-to-buffer` show a buffer in the selected window and make it
/// current; `display-buffer` shows it there and leaves the current one. A name stands for
/// the buffer that has it.
pub proof fn law_buffer_is_shown_in_selected_window(
    st: UiState,
    f: u64,
    w: u64,
    l: Leaf,
    b: BufferState,
    buffer: u64,
    name: Lisp,
)
    requires
        shows(st, f, w, l, b),
        st.buffers.get(buffer) is Some,
        name is Str,
        crate::buffer::named_buffer(st.buffers.list, crate::value::str_chars(name)->0) == Some(
            buffer,
        ),
    ensures
        ({
            let arg = seq![Lisp::Buffer(buffer)];
            let switched = switch_to_buffer_step(st, arg);
            let popped = pop_to_buffer_step(st, arg);
            let displayed = display_buffer_step(st, arg);
            let new = Some(Window::Leaf(Leaf { buffer_id: buffer, ..l }));
            &&& switched.end == Outcome::Value(Lisp::Buffer(buffer))
            &&& popped.end == Outcome::Value(Lisp::Buffer(buffer))
            &&& displayed.end == Outcome::Value(Lisp::Window(w))
            &&& switched.state.frames.window(f, w) == new
            &&& popped.state.frames.window(f, w) == new
            &&& displayed.state.frames.window(f, w) == new
            &&& switched.state.buffers.current == Some(buffer)
            &&& popped.state.buffers.current == Some(buffer)
            &&& displayed.state.buffers == st.buffers
            &&& switch_to_buffer_step(st, seq![name]) == switched
            &&& pop_to_buffer_step(st, seq![name]) == popped
            &&& display_buffer_step(st, seq![name]) == displayed
        }),
{
    lemma_shown(st, f, w, l, b);
    let x = seq![Lisp::Buffer(buffer)];
    let y = seq![name];
    assert(x.len() == 1 && x[0] == Lisp::Buffer(buffer) && y.len() == 1 && y[0] == name);
    law_window_is_read_back(st.frames, f, w, Leaf { buffer_id: buffer, ..l });
}

/// A buffer that a window has not shown yet is shown from its beginning, with point where
/// the buffer has it, and without margins unless they are to be kept.
pub proof fn law_new_buffer_is_shown_from_start(
    st: UiState,
    f: u64,
    w: u64,
    l: Leaf,
    b: BufferState,
    buffer: u64,
    keep: Lisp,
)
    requires
        shows(st, f, w, l, b),
        st.buffers.get(buffer) matches Some(n) && n.wf() && n.text.len() < usize::MAX,
        buffer != l.buffer_id,
        entry(st.frames.record(w).positions, buffer) is None,
        list_items(st.frames.record(w).prev_buffers) is Some,
    ensures
        ({
            let t = set_window_buffer_step(st, seq![Lisp::Nil, Lisp::Buffer(buffer), keep]);
            let n = st.buffers.get(buffer)->0;
            let kept = keep != Lisp::Nil;
            &&& t.end == Outcome::Value(Lisp::Nil)
            &&& t.state.buffers == st.buffers
            &&& t.state.frames.window(f, w) matches Some(Window::Leaf(m)) && m.buffer_id == buffer
                && m.window_start == 1 && m.point == n.chars_before(n.pt) + 1 && m.left_margin == (
            if kept {
                l.left_margin
            } else {
                0
            }) && m.right_margin == (if kept {
                l.right_margin
            } else {
                0
            }) && m.bounds == l.bounds && m.hscroll == l.hscroll
        }),
{
    lemma_shown(st, f, w, l, b);
    let n = st.buffers.get(buffer)->0;
    let args = seq![Lisp::Nil, Lisp::Buffer(buffer), keep];
    assert(args.len() == 3 && args[0] == Lisp::Nil && args[1] == Lisp::Buffer(buffer) && args[2]
        == keep);
    let kept = shown_kept(st, f, w, buffer).0;
    assert(kept.list == st.frames.list);
    assert(kept.window(f, w) == st.frames.window(f, w));
    crate::window_cmds::step_laws::lemma_record_identifier(st.frames, w);
    let k = st.frames.record(w);
    let r0 = RecordState {
        positions: crate::table::with_entry(
            k.positions,
            l.buffer_id,
            (l.window_start, l.point),
        ),
        ..k
    };
    let r = history_added(r0, st.buffers, l)->Is_0;
    law_record_is_read_back(st.frames, w, r, w);
    assert(kept.record(w) == r);
    crate::table::law_entry_set_keeps_others(
        k.positions,
        l.buffer_id,
        (l.window_start, l.point),
        buffer,
    );
    assert(entry(kept.record(w).positions, buffer) is None);
    crate::buffer::lemma_no_more_codes_than_bytes(n.text.take(n.pt), n.multibyte);
    assert(first_point(st.buffers, buffer) == n.chars_before(n.pt) + 1);
    let new = Leaf {
        buffer_id: buffer,
        window_start: 1,
        point: (n.chars_before(n.pt) + 1) as usize,
        left_margin: if keep != Lisp::Nil {
            l.left_margin
        } else {
            0
        },
        right_margin: if keep != Lisp::Nil {
            l.right_margin
        } else {
            0
        },
        ..l
    };
    law_window_is_read_back(kept, f, w, new);
}

/// Leaving a buffer out of the history leaves out its entries, and no other.
pub proof fn law_history_leaves_buffer_out(entries: Seq<Lisp>, buffer: u64, e: Lisp)
    ensures
        history_of(e, buffer) ==> !history_without(entries, buffer).contains(e),
        !history_of(e, buffer) ==> history_without(entries, buffer).contains(e)
            == entries.contains(e),
    decreases entries.len(),
{
    if entries.len() > 0 {
        let t = entries.drop_last();
        let h = history_without(t, buffer);
        let g = history_without(entries, buffer);
        law_history_leaves_buffer_out(t, buffer, e);
        if entries.contains(e) {
            let i = choose|i: int| 0 <= i < entries.len() && entries[i] == e;
            if i < t.len() {
                assert(t[i] == e);
            }
        }
        if t.contains(e) {
            let i = choose|i: int| 0 <= i < t.len() && t[i] == e;
            assert(entries[i] == e);
        }
        if g.contains(e) {
            let i = choose|i: int| 0 <= i < g.len() && g[i] == e;
            if i < h.len() {
                assert(h[i] == e);
            } else {
                assert(entries[entries.len() - 1] == e);
            }
        }
        if h.contains(e) {
            let i = choose|i: int| 0 <= i < h.len() && h[i] == e;
            assert(g[i] == e);
        }
        if entries.last() == e && !history_of(e, buffer) {
            assert(g[g.len() - 1] == e);
        }
    }
}

} // verus!
