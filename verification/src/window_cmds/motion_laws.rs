//! What holds of scrolling and resizing.
use crate::frame::{frame_index, lemma_frame_index, Frames};
use crate::symbol::Symbols;
use crate::value::{arg, Lisp};
use crate::window::{find, first_rect, leaf_ids, plus, Leaf, Window, Windows};
use crate::window_cmds::args::prefix_count;
use crate::window_cmds::laws::{has_combination, sound};
use crate::window_cmds::order::{
    has_window, law_changed_window_keeps_order, lemma_changed_frame, well_formed,
};
use crate::window_cmds::records::{
    column, column_count, default_columns, hscroll_of, scroll_sideways_step,
};
use crate::window_cmds::resize::{
    all_lengths, frame_resized, length_sum, lengths_fit, lies_along, near_edge, new_length,
    resized, window_resize_apply_step,
};
use crate::window_cmds::resolve::{after, frame_arg, window_arg, Found};
use crate::window_cmds::scroll::{
    recenter_at_step, recenter_line, recenter_step, recentered_offset, scroll_by_step,
    scroll_distance, scroll_down_step, scroll_up_step, scrolled_offset, selected_height,
};
use crate::window_cmds::state::{booted, UiState};
use crate::window_cmds::step_laws::{
    law_startup_keeps_order, lemma_positioned, lemma_resolved, roomy,
};
use vstd::prelude::*;

verus! {

proof fn lemma_scrolled(st: UiState, lines: int)
    requires
        well_formed(st.frames),
        st.frames.selected_frame() is Some || roomy(st.frames),
    ensures
        well_formed(scroll_by_step(st, lines).state.frames),
{
    law_startup_keeps_order(st);
    let b = booted(st);
    match window_arg(b, Lisp::Nil, "window-live-p"@) {
        Found::Is((f, w)) => {
            lemma_resolved(b, Lisp::Nil, f, w);
            let s = after(b, Lisp::Nil);
            let l = s.frames.window(f, w)->0->Leaf_0;
            match s.buffers.get(l.buffer_id) {
                Some(x) => {
                    match scrolled_offset(x, l.point as i64 as int, lines) {
                        Found::Is(p) => {
                            law_changed_window_keeps_order(
                                s.frames,
                                f,
                                w,
                                Leaf { point: (x.chars_before(p) + 1) as usize, ..l },
                            );
                        },
                        Found::Signal(_) => {},
                    }
                },
                None => {},
            }
        },
        Found::Signal(_) => {},
    }
}

proof fn lemma_recentered(st: UiState, line: int)
    requires
        well_formed(st.frames),
        st.frames.selected_frame() is Some || roomy(st.frames),
    ensures
        well_formed(recenter_at_step(st, line).state.frames),
{
    law_startup_keeps_order(st);
    let b = booted(st);
    match window_arg(b, Lisp::Nil, "window-live-p"@) {
        Found::Is((f, w)) => {
            lemma_resolved(b, Lisp::Nil, f, w);
            let s = after(b, Lisp::Nil);
            let l = s.frames.window(f, w)->0->Leaf_0;
            match s.buffers.get(l.buffer_id) {
                Some(x) => {
                    lemma_positioned(
                        s,
                        f,
                        w,
                        x.chars_before(recentered_offset(x, l.point as i64 as int, line)) as int
                            + 1,
                        true,
                        false,
                    );
                },
                None => {},
            }
        },
        Found::Signal(_) => {},
    }
}

/// Scrolling and recentering leave the frames in order.
pub proof fn law_scrolling_keeps_order(
    st: UiState,
    symbols: Symbols,
    name: Seq<char>,
    args: Seq<Lisp>,
    max: int,
    left: bool,
)
    requires
        well_formed(st.frames),
        roomy(st.frames),
    ensures
        well_formed(scroll_up_step(st, symbols, name, args).state.frames),
        well_formed(scroll_down_step(st, symbols, name, args).state.frames),
        well_formed(recenter_step(st, name, args, max).state.frames),
        well_formed(scroll_sideways_step(st, name, args, left).state.frames),
{
    law_startup_keeps_order(st);
    let (s, n) = scroll_distance(st, symbols, arg(args, 0));
    lemma_scrolled(s, n);
    lemma_scrolled(s, -n);
    let (t, height) = selected_height(st);
    lemma_recentered(t, recenter_line(height, arg(args, 0)));
    let b = booted(st);
    match window_arg(b, Lisp::Nil, "window-live-p"@) {
        Found::Is((f, w)) => {
            lemma_resolved(b, Lisp::Nil, f, w);
            let s = after(b, Lisp::Nil);
            let l = s.frames.window(f, w)->0->Leaf_0;
            let delta = if arg(args, 0) == Lisp::Nil {
                default_columns(s.frames, f, w)
            } else {
                prefix_count(arg(args, 0)) as int
            };
            let base = hscroll_of(s.frames, f, w);
            let next = column(
                if left {
                    base + delta
                } else {
                    base - delta
                },
            );
            law_changed_window_keeps_order(
                s.frames,
                f,
                w,
                Leaf { hscroll: column_count(next) as usize, ..l },
            );
        },
        Found::Signal(_) => {},
    }
}

/// Resizing windows keeps which windows there are.
pub(crate) proof fn lemma_resized_windows(
    ws: Windows,
    sizes: Seq<(u64, i64)>,
    horizontal: bool,
    unit: u32,
    edge: u32,
    along: bool,
    x: u64,
)
    ensures
        ({
            let r = resized(ws, sizes, horizontal, unit, edge, along);
            &&& leaf_ids(r) == leaf_ids(ws)
            &&& has_combination(r, x) == has_combination(ws, x)
            &&& (find(r, x) is None) == (find(ws, x) is None)
            &&& (find(r, x) matches Some(Window::Leaf(_))) == (find(ws, x) matches Some(
                Window::Leaf(_),
            ))
        }),
    decreases ws,
{
    match ws {
        Windows::Empty => {},
        Windows::Leaf(l, next) => {
            let n = new_length(sizes, l.id, l.bounds, horizontal, unit);
            lemma_resized_windows(
                *next,
                sizes,
                horizontal,
                unit,
                if along {
                    plus(edge, n)
                } else {
                    edge
                },
                along,
                x,
            );
        },
        Windows::Internal(c, child, next) => {
            let n = new_length(sizes, c.id, c.bounds, horizontal, unit);
            lemma_resized_windows(
                *child,
                sizes,
                horizontal,
                unit,
                edge,
                lies_along(c, horizontal),
                x,
            );
            lemma_resized_windows(
                *next,
                sizes,
                horizontal,
                unit,
                if along {
                    plus(edge, n)
                } else {
                    edge
                },
                along,
                x,
            );
        },
    }
}

/// Resizing the windows of a frame leaves the frames in order.
pub proof fn law_resizing_keeps_order(st: UiState, args: Seq<Lisp>, sizes: Seq<(u64, i64)>)
    requires
        well_formed(st.frames),
        roomy(st.frames),
    ensures
        well_formed(window_resize_apply_step(st, args, sizes).state.frames),
{
    law_startup_keeps_order(st);
    let a = arg(args, 0);
    let s = after(st, a);
    let horizontal = arg(args, 1) != Lisp::Nil;
    match frame_arg(st, a, "frame-live-p"@) {
        Found::Is(id) => {
            match s.frames.get(id) {
                Some(f) => {
                    match frame_resized(f, sizes, horizontal) {
                        Some(g) => {
                            let edge = near_edge(first_rect(f.root), horizontal);
                            lemma_frame_index(s.frames.list, id);
                            assert(sound(s.frames.list[frame_index(s.frames.list, id)]));
                            assert forall|x: u64| #[trigger] has_window(g, x) == has_window(
                                f,
                                x,
                            ) by {
                                lemma_resized_windows(
                                    f.root,
                                    sizes,
                                    horizontal,
                                    1,
                                    edge,
                                    false,
                                    x,
                                );
                            }
                            lemma_resized_windows(
                                f.root,
                                sizes,
                                horizontal,
                                1,
                                edge,
                                false,
                                f.selected_window,
                            );
                            assert forall|x: u64|
                                leaf_ids(g.root).contains(x) implies !#[trigger] has_combination(
                                g.root,
                                x,
                            ) by {
                                lemma_resized_windows(
                                    f.root,
                                    sizes,
                                    horizontal,
                                    1,
                                    edge,
                                    false,
                                    x,
                                );
                                assert(!has_combination(f.root, x));
                            }
                            match f.minibuffer_leaf {
                                Some(l) => {
                                    lemma_resized_windows(
                                        f.root,
                                        sizes,
                                        horizontal,
                                        1,
                                        edge,
                                        false,
                                        l.id,
                                    );
                                },
                                None => {},
                            }
                            lemma_changed_frame(s.frames, id, g, s.frames.next_window_id);
                            let t = s.frames.with_frame(id, g);
                            assert(Frames { next_window_id: s.frames.next_window_id, ..t } == t);
                        },
                        None => {},
                    }
                },
                None => {},
            }
        },
        Found::Signal(_) => {},
    }
}

proof fn lemma_resized_lengths(
    ws: Windows,
    sizes: Seq<(u64, i64)>,
    horizontal: bool,
    unit: u32,
    edge: u32,
    along: bool,
    n: u32,
)
    ensures
        ({
            let r = resized(ws, sizes, horizontal, unit, edge, along);
            let none = Seq::<(u64, i64)>::empty();
            &&& length_sum(r, none, horizontal, unit) == length_sum(ws, sizes, horizontal, unit)
            &&& all_lengths(r, none, horizontal, unit, n) == all_lengths(
                ws,
                sizes,
                horizontal,
                unit,
                n,
            )
        }),
    decreases ws,
{
    match ws {
        Windows::Empty => {},
        Windows::Leaf(l, next) => {
            let m = new_length(sizes, l.id, l.bounds, horizontal, unit);
            lemma_resized_lengths(
                *next,
                sizes,
                horizontal,
                unit,
                if along {
                    plus(edge, m)
                } else {
                    edge
                },
                along,
                n,
            );
        },
        Windows::Internal(c, child, next) => {
            let m = new_length(sizes, c.id, c.bounds, horizontal, unit);
            lemma_resized_lengths(
                *next,
                sizes,
                horizontal,
                unit,
                if along {
                    plus(edge, m)
                } else {
                    edge
                },
                along,
                n,
            );
        },
    }
}

/// Windows that were resized to sizes that fit together do fit together: every one has
/// a length, and the windows of each combination fill it.
pub proof fn law_resized_windows_fit(
    ws: Windows,
    sizes: Seq<(u64, i64)>,
    horizontal: bool,
    unit: u32,
    edge: u32,
    along: bool,
)
    requires
        lengths_fit(ws, sizes, horizontal, unit),
    ensures
        lengths_fit(
            resized(ws, sizes, horizontal, unit, edge, along),
            Seq::empty(),
            horizontal,
            unit,
        ),
    decreases ws,
{
    match ws {
        Windows::Empty => {},
        Windows::Leaf(l, next) => {
            let m = new_length(sizes, l.id, l.bounds, horizontal, unit);
            law_resized_windows_fit(
                *next,
                sizes,
                horizontal,
                unit,
                if along {
                    plus(edge, m)
                } else {
                    edge
                },
                along,
            );
        },
        Windows::Internal(c, child, next) => {
            let m = new_length(sizes, c.id, c.bounds, horizontal, unit);
            let inner = lies_along(c, horizontal);
            lemma_resized_lengths(*child, sizes, horizontal, unit, edge, inner, m);
            law_resized_windows_fit(*child, sizes, horizontal, unit, edge, inner);
            law_resized_windows_fit(
                *next,
                sizes,
                horizontal,
                unit,
                if along {
                    plus(edge, m)
                } else {
                    edge
                },
                along,
            );
        },
    }
}

} // verus!
