//! Further steps that leave the frames in order.
use crate::buffer::named_buffer;
use crate::frame::{frame_index, lemma_frame_index, FrameState, Frames, RecordState};
use crate::value::{arg, lstr, sym, Lisp};
use crate::window::{find, first_rect, leaf_ids, with_limit, Window, Windows};
use crate::window_cmds::create::{
    gui_metrics, gui_name, gui_params, gui_size, gui_title, realized, with_all_parameters,
    x_create_frame_made, GuiFrameMetrics, GuiParams,
};
use crate::window_cmds::edit::set_frame_selected_window_step;
use crate::window_cmds::frames::items_or_none;
use crate::window_cmds::laws::{has_combination, sound};
use crate::window_cmds::motion_laws::lemma_resized_windows;
use crate::window_cmds::order::{
    has_window, law_making_a_frame_keeps_order, law_selecting_a_window_keeps_order,
    lemma_changed_frame, well_formed,
};
use crate::window_cmds::records::{
    keep_step, set_window_combination_limit_step, window_bump_use_time_step,
};
use crate::window_cmds::resize::{
    frame_resized_total, near_edge, resized, window_resize_apply_total_step,
};
use crate::window_cmds::resolve::{after, designated, frame_arg, window_arg, Found};
use crate::window_cmds::state::{boot_id, booted, current_or_scratch, UiState};
use crate::window_cmds::step_laws::{
    law_select_window_keeps_order, law_startup_keeps_order, lemma_live_window_is_there,
    lemma_noted_selection, lemma_same_frames, roomy, same_windows,
};
use vstd::prelude::*;

verus! {

proof fn lemma_limit_keeps_windows(ws: Windows, w: u64, limit: bool, x: u64)
    ensures
        leaf_ids(with_limit(ws, w, limit)) == leaf_ids(ws),
        has_combination(with_limit(ws, w, limit), x) == has_combination(ws, x),
        find(ws, x) is None ==> find(with_limit(ws, w, limit), x) is None,
        find(ws, x) matches Some(Window::Leaf(_)) ==> find(with_limit(ws, w, limit), x) == find(
            ws,
            x,
        ),
    decreases ws,
{
    match ws {
        Windows::Empty => {},
        Windows::Leaf(_, next) => {
            lemma_limit_keeps_windows(*next, w, limit, x);
        },
        Windows::Internal(_, child, next) => {
            lemma_limit_keeps_windows(*child, w, limit, x);
            lemma_limit_keeps_windows(*next, w, limit, x);
        },
    }
}

/// A frame stays in order when its tree keeps its windows, and its minibuffer window
/// its identifier.
proof fn lemma_tree_replaced(s: Frames, id: u64, g: FrameState)
    requires
        well_formed(s),
        s.get(id) is Some,
        g.id == s.get(id)->0.id,
        g.selected_window == s.get(id)->0.selected_window,
        g.minibuffer_window == s.get(id)->0.minibuffer_window,
        match (s.get(id)->0.minibuffer_leaf, g.minibuffer_leaf) {
            (Some(a), Some(b)) => a.id == b.id,
            (None, None) => true,
            _ => false,
        },
        leaf_ids(g.root) == leaf_ids(s.get(id)->0.root),
        forall|x: u64| #[trigger]
            has_combination(g.root, x) == has_combination(s.get(id)->0.root, x),
        g.live(g.selected_window),
    ensures
        well_formed(s.with_frame(id, g)),
{
    let f = s.get(id)->0;
    lemma_frame_index(s.list, id);
    assert(sound(s.list[frame_index(s.list, id)]));
    assert forall|x: u64| leaf_ids(g.root).contains(x) implies !#[trigger] has_combination(
        g.root,
        x,
    ) by {
        assert(!has_combination(f.root, x));
    }
    assert forall|x: u64| #[trigger] has_window(g, x) implies has_window(f, x) by {
        assert(has_combination(g.root, x) == has_combination(f.root, x));
    }
    match g.minibuffer_leaf {
        Some(l) => {
            assert(has_combination(g.root, l.id) == has_combination(f.root, l.id));
        },
        None => {},
    }
    lemma_changed_frame(s, id, g, s.next_window_id);
    let t = s.with_frame(id, g);
    assert(Frames { next_window_id: s.next_window_id, ..t } == t);
}

/// Setting the limit of a combination leaves the frames in order.
pub proof fn law_combination_limit_keeps_order(st: UiState, args: Seq<Lisp>)
    requires
        well_formed(st.frames),
        roomy(st.frames),
    ensures
        well_formed(set_window_combination_limit_step(st, args).state.frames),
{
    law_startup_keeps_order(st);
    let b = booted(st);
    let a = arg(args, 0);
    let s = after(b, a);
    let limit = arg(args, 1) != Lisp::Nil;
    match window_arg(b, a, "window-valid-p"@) {
        Found::Is((id, w)) => {
            match s.frames.get(id) {
                Some(f) => {
                    let g = FrameState { root: with_limit(f.root, w, limit), ..f };
                    lemma_frame_index(s.frames.list, id);
                    assert(sound(s.frames.list[frame_index(s.frames.list, id)]));
                    assert forall|x: u64| #[trigger]
                        has_combination(g.root, x) == has_combination(f.root, x) by {
                        lemma_limit_keeps_windows(f.root, w, limit, x);
                    }
                    lemma_limit_keeps_windows(f.root, w, limit, f.selected_window);
                    lemma_tree_replaced(s.frames, id, g);
                },
                None => {},
            }
        },
        Found::Signal(_) => {},
    }
}

/// Resizing the windows of a frame by columns or lines leaves the frames in order.
pub proof fn law_resizing_by_cells_keeps_order(
    st: UiState,
    args: Seq<Lisp>,
    sizes: Seq<(u64, i64)>,
)
    requires
        well_formed(st.frames),
        roomy(st.frames),
    ensures
        well_formed(window_resize_apply_total_step(st, args, sizes).state.frames),
{
    law_startup_keeps_order(st);
    let a = arg(args, 0);
    let s = after(st, a);
    let horizontal = arg(args, 1) != Lisp::Nil;
    match frame_arg(st, a, "frame-live-p"@) {
        Found::Is(id) => {
            match s.frames.get(id) {
                Some(f) => {
                    let g = frame_resized_total(f, sizes, horizontal);
                    let unit = if horizontal {
                        f.char_width
                    } else {
                        f.char_height
                    };
                    let edge = near_edge(first_rect(f.root), horizontal);
                    assert(g.root == resized(f.root, sizes, horizontal, unit, edge, false));
                    lemma_frame_index(s.frames.list, id);
                    assert(sound(s.frames.list[frame_index(s.frames.list, id)]));
                    assert forall|x: u64| #[trigger]
                        has_combination(g.root, x) == has_combination(f.root, x) by {
                        lemma_resized_windows(f.root, sizes, horizontal, unit, edge, false, x);
                    }
                    lemma_resized_windows(
                        f.root,
                        sizes,
                        horizontal,
                        unit,
                        edge,
                        false,
                        f.selected_window,
                    );
                    lemma_tree_replaced(s.frames, id, g);
                },
                None => {},
            }
        },
        Found::Signal(_) => {},
    }
}

/// Selecting a window of any frame leaves the frames in order.
pub proof fn law_set_frame_selected_window_keeps_order(st: UiState, args: Seq<Lisp>)
    requires
        well_formed(st.frames),
        roomy(st.frames),
        roomy(booted(st).frames),
    ensures
        well_formed(set_frame_selected_window_step(st, args).state.frames),
{
    law_startup_keeps_order(st);
    let a = arg(args, 0);
    let s = after(st, a);
    law_startup_keeps_order(s);
    match frame_arg(st, a, "frame-live-p"@) {
        Found::Is(f) => {
            match designated(arg(args, 1)) {
                Some(w) => {
                    assert(s.frames.list.skip(0) =~= s.frames.list);
                    match s.frames.frame_of_live(w) {
                        Some(own) => {
                            lemma_live_window_is_there(s.frames, s.frames.list, 0, w);
                            lemma_frame_index(s.frames.list, own);
                            assert(s.frames.list.len() > 0);
                            assert(booted(s) == s);
                            law_select_window_keeps_order(
                                s,
                                if args.len() == 3 {
                                    seq![Lisp::Window(w), args[2]]
                                } else {
                                    seq![Lisp::Window(w)]
                                },
                            );
                            if own == f {
                                law_selecting_a_window_keeps_order(s.frames, f, w);
                            }
                        },
                        None => {},
                    }
                },
                None => {},
            }
        },
        Found::Signal(_) => {},
    }
}

/// Changing what is kept of a window, and when it was used, leaves the frames in order.
pub proof fn law_kept_values_keep_order(
    st: UiState,
    name: Seq<char>,
    args: Seq<Lisp>,
    change: spec_fn(RecordState, Lisp) -> RecordState,
)
    requires
        well_formed(st.frames),
        roomy(st.frames),
    ensures
        well_formed(keep_step(st, name, args, change).state.frames),
        well_formed(window_bump_use_time_step(st, args).state.frames),
{
    law_startup_keeps_order(st);
    let b = booted(st);
    let a = arg(args, 0);
    let s = after(b, a);
    match window_arg(b, a, "window-live-p"@) {
        Found::Is((f, w)) => {
            lemma_same_frames(
                s.frames,
                s.frames.with_record(w, change(s.frames.record(w), arg(args, 1))),
            );
        },
        Found::Signal(_) => {},
    }
    match b.frames.get(boot_id(st)) {
        Some(f) => {
            let selected = f.selected_window;
            assert forall|w: u64| well_formed(#[trigger] b.frames.use_time_bumped(selected, w)) by {
                if w != selected {
                    let t = b.frames.with_record(
                        w,
                        RecordState {
                            use_time: b.frames.record(selected).use_time,
                            ..b.frames.record(w)
                        },
                    );
                    lemma_same_frames(b.frames, t);
                    lemma_noted_selection(t, selected);
                }
            }
        },
        None => {},
    }
}

proof fn lemma_parameters_keep_windows(f: FrameState, items: Seq<Lisp>)
    ensures
        same_windows(f, with_all_parameters(f, items)),
    decreases items.len(),
{
    if items.len() > 0 {
        lemma_parameters_keep_windows(f, items.drop_last());
    }
}

/// Making a frame ready for a display keeps its windows.
proof fn lemma_realized(
    f: FrameState,
    p: GuiParams,
    items: Seq<Lisp>,
    m: GuiFrameMetrics,
    size: (u32, u32),
    buffer: u64,
    minibuffer: Option<u64>,
)
    requires
        sound(f),
    ensures
        ({
            let g = realized(f, p, items, m, size, buffer, minibuffer);
            &&& g.id == f.id
            &&& g.selected_window == f.selected_window
            &&& g.minibuffer_window == f.minibuffer_window
            &&& match (f.minibuffer_leaf, g.minibuffer_leaf) {
                (Some(a), Some(b)) => a.id == b.id,
                (None, None) => true,
                _ => false,
            }
            &&& leaf_ids(g.root) == leaf_ids(f.root)
            &&& forall|x: u64| #[trigger]
                has_combination(g.root, x) == has_combination(f.root, x)
            &&& g.live(g.selected_window)
        }),
{
    let g0 = FrameState {
        name: lstr(gui_name(p)),
        title: lstr(gui_title(p)),
        width: size.0,
        height: size.1,
        visible: match p.visibility {
            Some(v) => v,
            None => f.visible,
        },
        char_width: m.char_width,
        char_height: m.char_height,
        font_pixel_size: m.font_pixel_size,
        ..f
    };
    let g1 = g0.with_parameter("window-system"@, sym("neomacs"@));
    lemma_parameters_keep_windows(g1, items);
    let h = with_all_parameters(g1, items);
    assert(same_windows(f, h));
    let g = realized(f, p, items, m, size, buffer, minibuffer);
    let w = f.selected_window;
    match f.root {
        Windows::Leaf(l, next) => {
            assert(g.root is Leaf && g.root->Leaf_0.id == l.id && g.root->Leaf_1 == next);
            assert(leaf_ids(g.root) =~= leaf_ids(f.root));
            assert forall|x: u64| #[trigger]
                has_combination(g.root, x) == has_combination(f.root, x) by {
                reveal_with_fuel(has_combination, 2);
            }
            assert(find(g.root, w) is None == (find(f.root, w) is None)) by {
                reveal_with_fuel(find, 2);
            }
            assert(find(f.root, w) matches Some(Window::Leaf(_)) ==> find(
                g.root,
                w,
            ) matches Some(Window::Leaf(_))) by {
                reveal_with_fuel(find, 2);
            }
        },
        _ => {
            assert(g.root == f.root);
        },
    }
}

/// Making a frame for a display leaves the frames in order.
pub proof fn law_display_frame_keeps_order(st: UiState, args: Seq<Lisp>)
    requires
        well_formed(st.frames),
        roomy(st.frames),
    ensures
        well_formed(x_create_frame_made(st, args).0.frames),
{
    if args.len() == 1 {
        let items = items_or_none(args[0]);
        let p = gui_params(items);
        let m = gui_metrics(st.frames);
        let size = gui_size(p, m);
        let (buffers, buffer) = current_or_scratch(st.buffers);
        let minibuffer = named_buffer(buffers.list, " *Minibuf-0*"@);
        let id = st.frames.next_frame_id;
        let name = lstr(gui_name(p));
        let frames = st.frames.created(name, size.0, size.1, buffer);
        law_making_a_frame_keeps_order(st.frames, name, size.0, size.1, buffer);
        match frames.get(id) {
            Some(f) => {
                let g = realized(f, p, items, m, size, buffer, minibuffer);
                lemma_frame_index(frames.list, id);
                assert(sound(frames.list[frame_index(frames.list, id)]));
                lemma_realized(f, p, items, m, size, buffer, minibuffer);
                lemma_tree_replaced(frames, id, g);
            },
            None => {},
        }
    }
}

} // verus!
