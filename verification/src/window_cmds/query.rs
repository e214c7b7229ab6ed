//! Builtins that ask which windows there are and how they lie in their frames.
use crate::frame::{FrameManager, FrameState, Frames};
use crate::value::{
    arg, arg_or_nil, error_outcome, error_signal, expect_args, expect_max_args, lbool, views,
    wrong_number, wrong_type, wrong_type_argument, EvalResult, Lisp, Outcome, Value,
};
use crate::value::outcome;
use crate::window::{
    child_of, leaf_ids, parent_of, sibling_after, sibling_before, SplitDirection, Window,
};
use crate::window_cmds::resolve::{
    after, designated, found, frame_arg, frame_or_window_arg, get_frame, get_window,
    resolve_frame_id, resolve_frame_or_window_frame_id, resolve_window_id_with_pred, window_arg,
    window_id_from_designator, window_in, Found,
};
use crate::window_cmds::state::{
    boot_id, booted, ends, ensure_selected_frame_id, gives, Step, Ui, UiState,
};
use vstd::prelude::*;

verus! {

/// A builtin that takes `min` to `max` arguments, and goes on as `rest` says.
pub open spec fn with_arity(
    st: UiState,
    name: Seq<char>,
    args: Seq<Lisp>,
    min: int,
    max: int,
    rest: Step,
) -> Step {
    if min <= args.len() <= max {
        rest
    } else {
        ends(st, wrong_number(name, args.len()))
    }
}

/// A builtin that goes on with the window that an argument stands for.
pub open spec fn on_window(
    st: UiState,
    a: Lisp,
    pred: Seq<char>,
    rest: spec_fn(UiState, u64, u64) -> Step,
) -> Step {
    match window_arg(st, a, pred) {
        Found::Is((f, w)) => rest(after(st, a), f, w),
        Found::Signal(o) => ends(after(st, a), o),
    }
}

/// A builtin that goes on with the frame that an argument stands for.
pub open spec fn on_frame(
    st: UiState,
    a: Lisp,
    pred: Seq<char>,
    rest: spec_fn(UiState, FrameState) -> Step,
) -> Step {
    match frame_arg(st, a, pred) {
        Found::Is(id) => match after(st, a).frames.get(id) {
            Some(f) => rest(after(st, a), f),
            None => ends(after(st, a), error_outcome("Frame not found"@)),
        },
        Found::Signal(o) => ends(after(st, a), o),
    }
}

/// A builtin that goes on with the frame that an argument stands for, itself or by a window.
pub open spec fn on_frame_or_window(
    st: UiState,
    a: Lisp,
    pred: Seq<char>,
    rest: spec_fn(UiState, FrameState) -> Step,
) -> Step {
    match frame_or_window_arg(st, a, pred) {
        Found::Is(id) => match after(st, a).frames.get(id) {
            Some(f) => rest(after(st, a), f),
            None => ends(after(st, a), error_outcome("Frame not found"@)),
        },
        Found::Signal(o) => ends(after(st, a), o),
    }
}

/// A window that may be missing, as a value.
pub open spec fn window_or_nil(w: Option<u64>) -> Lisp {
    match w {
        Some(id) => Lisp::Window(id),
        None => Lisp::Nil,
    }
}

/// A window that may be missing, as a value.
pub fn optional_window(w: Option<u64>) -> (r: Value)
    ensures
        r@ == window_or_nil(w),
{
    match w {
        Some(id) => Value::Window(id),
        None => Value::Nil,
    }
}

/// `(selected-window)`
pub open spec fn selected_window_step(st: UiState, args: Seq<Lisp>) -> Step {
    with_arity(
        st,
        "selected-window"@,
        args,
        0,
        0,
        match booted(st).frames.get(boot_id(st)) {
            Some(f) => gives(booted(st), Lisp::Window(f.selected_window)),
            None => ends(booted(st), error_outcome("No selected frame"@)),
        },
    )
}

/// `(selected-window)` -> window object.
pub fn builtin_selected_window(ui: &mut Ui, args: &Vec<Value>) -> (r: EvalResult)
    ensures
        final(ui)@ == selected_window_step(old(ui)@, views(args@)).state,
        outcome(r) == selected_window_step(old(ui)@, views(args@)).end,
{
    expect_args("selected-window", args, 0)?;
    let id: u64 = ensure_selected_frame_id(ui);
    match ui.frames.get(id) {
        Some(f) => Ok(Value::Window(f.selected_window)),
        None => Err(error_signal("No selected frame")),
    }
}

/// `(old-selected-window)`
pub open spec fn old_selected_window_step(st: UiState, args: Seq<Lisp>) -> Step {
    with_arity(
        st,
        "old-selected-window"@,
        args,
        0,
        0,
        match booted(st).frames.get(boot_id(st)) {
            Some(f) => gives(
                booted(st),
                Lisp::Window(
                    match booted(st).frames.old_selected {
                        Some(w) => w,
                        None => f.selected_window,
                    },
                ),
            ),
            None => ends(booted(st), error_outcome("No selected frame"@)),
        },
    )
}

/// `(old-selected-window)` -> previous selected window.
pub fn builtin_old_selected_window(ui: &mut Ui, args: &Vec<Value>) -> (r: EvalResult)
    ensures
        final(ui)@ == old_selected_window_step(old(ui)@, views(args@)).state,
        outcome(r) == old_selected_window_step(old(ui)@, views(args@)).end,
{
    expect_args("old-selected-window", args, 0)?;
    let id: u64 = ensure_selected_frame_id(ui);
    match ui.frames.get(id) {
        Some(f) => match ui.frames.old_selected {
            Some(w) => Ok(Value::Window(w)),
            None => Ok(Value::Window(f.selected_window)),
        },
        None => Err(error_signal("No selected frame")),
    }
}

/// `(frame-selected-window &optional FRAME)`
pub open spec fn frame_selected_window_step(st: UiState, args: Seq<Lisp>) -> Step {
    with_arity(
        st,
        "frame-selected-window"@,
        args,
        0,
        1,
        on_frame(
            st,
            arg(args, 0),
            "frame-live-p"@,
            |s: UiState, f: FrameState| gives(s, Lisp::Window(f.selected_window)),
        ),
    )
}

/// `(frame-selected-window &optional FRAME)` -> selected window of FRAME.
pub fn builtin_frame_selected_window(ui: &mut Ui, args: &Vec<Value>) -> (r: EvalResult)
    ensures
        final(ui)@ == frame_selected_window_step(old(ui)@, views(args@)).state,
        outcome(r) == frame_selected_window_step(old(ui)@, views(args@)).end,
{
    expect_max_args("frame-selected-window", args, 1)?;
    let id: u64 = resolve_frame_id(ui, &arg_or_nil(args, 0), "frame-live-p")?;
    let f = get_frame(&ui.frames, id)?;
    Ok(Value::Window(f.selected_window))
}

/// `(frame-old-selected-window &optional FRAME)`
pub open spec fn frame_old_selected_window_step(st: UiState, args: Seq<Lisp>) -> Step {
    with_arity(
        st,
        "frame-old-selected-window"@,
        args,
        0,
        1,
        match frame_arg(st, arg(args, 0), "frame-live-p"@) {
            Found::Is(_) => gives(after(st, arg(args, 0)), Lisp::Nil),
            Found::Signal(o) => ends(after(st, arg(args, 0)), o),
        },
    )
}

/// `(frame-old-selected-window &optional FRAME)` -> nil.
pub fn builtin_frame_old_selected_window(ui: &mut Ui, args: &Vec<Value>) -> (r: EvalResult)
    ensures
        final(ui)@ == frame_old_selected_window_step(old(ui)@, views(args@)).state,
        outcome(r) == frame_old_selected_window_step(old(ui)@, views(args@)).end,
{
    expect_max_args("frame-old-selected-window", args, 1)?;
    let _id: u64 = resolve_frame_id(ui, &arg_or_nil(args, 0), "frame-live-p")?;
    Ok(Value::Nil)
}

/// The first window of a frame.
pub open spec fn first_window(f: FrameState) -> u64 {
    if leaf_ids(f.root).len() > 0 {
        leaf_ids(f.root)[0]
    } else {
        f.selected_window
    }
}

/// `(frame-first-window &optional FRAME-OR-WINDOW)`
pub open spec fn frame_first_window_step(st: UiState, args: Seq<Lisp>) -> Step {
    with_arity(
        st,
        "frame-first-window"@,
        args,
        0,
        1,
        on_frame_or_window(
            st,
            arg(args, 0),
            "frame-live-p"@,
            |s: UiState, f: FrameState| gives(s, Lisp::Window(first_window(f))),
        ),
    )
}

/// `(frame-first-window &optional FRAME-OR-WINDOW)` -> first window on frame.
pub fn builtin_frame_first_window(ui: &mut Ui, args: &Vec<Value>) -> (r: EvalResult)
    ensures
        final(ui)@ == frame_first_window_step(old(ui)@, views(args@)).state,
        outcome(r) == frame_first_window_step(old(ui)@, views(args@)).end,
{
    expect_max_args("frame-first-window", args, 1)?;
    let id: u64 = resolve_frame_or_window_frame_id(ui, &arg_or_nil(args, 0), "frame-live-p")?;
    let f = get_frame(&ui.frames, id)?;
    let list: Vec<u64> = f.window_list();
    if list.len() > 0 {
        Ok(Value::Window(list[0]))
    } else {
        Ok(Value::Window(f.selected_window))
    }
}

/// `(frame-root-window &optional FRAME-OR-WINDOW)`
pub open spec fn frame_root_window_step(st: UiState, args: Seq<Lisp>) -> Step {
    with_arity(
        st,
        "frame-root-window"@,
        args,
        0,
        1,
        on_frame_or_window(
            st,
            arg(args, 0),
            "frame-live-p"@,
            |s: UiState, f: FrameState|
                gives(s, window_or_nil(crate::window::first_id(f.root))),
        ),
    )
}

/// `(frame-root-window &optional FRAME-OR-WINDOW)` -> root window on frame.
pub fn builtin_frame_root_window(ui: &mut Ui, args: &Vec<Value>) -> (r: EvalResult)
    ensures
        final(ui)@ == frame_root_window_step(old(ui)@, views(args@)).state,
        outcome(r) == frame_root_window_step(old(ui)@, views(args@)).end,
{
    expect_max_args("frame-root-window", args, 1)?;
    let id: u64 = resolve_frame_or_window_frame_id(ui, &arg_or_nil(args, 0), "frame-live-p")?;
    let f = get_frame(&ui.frames, id)?;
    Ok(optional_window(f.root.first_id()))
}

/// `(minibuffer-window &optional FRAME)`
pub open spec fn minibuffer_window_step(st: UiState, args: Seq<Lisp>) -> Step {
    with_arity(
        st,
        "minibuffer-window"@,
        args,
        0,
        1,
        on_frame(
            st,
            arg(args, 0),
            "frame-live-p"@,
            |s: UiState, f: FrameState| gives(s, window_or_nil(f.minibuffer_window)),
        ),
    )
}

/// `(minibuffer-window &optional FRAME)` -> minibuffer window of FRAME.
pub fn builtin_minibuffer_window(ui: &mut Ui, args: &Vec<Value>) -> (r: EvalResult)
    ensures
        final(ui)@ == minibuffer_window_step(old(ui)@, views(args@)).state,
        outcome(r) == minibuffer_window_step(old(ui)@, views(args@)).end,
{
    expect_max_args("minibuffer-window", args, 1)?;
    let id: u64 = resolve_frame_id(ui, &arg_or_nil(args, 0), "frame-live-p")?;
    let f = get_frame(&ui.frames, id)?;
    Ok(optional_window(f.minibuffer_window))
}

/// Whether a window is the minibuffer window of a frame.
pub open spec fn is_minibuffer(frames: Frames, frame: u64, id: u64) -> bool {
    match frames.get(frame) {
        Some(f) => f.minibuffer_window == Some(id),
        None => false,
    }
}

/// Whether a window is the minibuffer window of a frame.
pub fn is_minibuffer_window(frames: &FrameManager, frame: u64, id: u64) -> (r: bool)
    ensures
        r == is_minibuffer(frames@, frame, id),
{
    match frames.get(frame) {
        Some(f) => match f.minibuffer_window {
            Some(w) => w == id,
            None => false,
        },
        None => false,
    }
}

/// `(window-minibuffer-p &optional WINDOW)`
pub open spec fn window_minibuffer_p_step(st: UiState, args: Seq<Lisp>) -> Step {
    with_arity(
        st,
        "window-minibuffer-p"@,
        args,
        0,
        1,
        on_window(
            st,
            arg(args, 0),
            "window-valid-p"@,
            |s: UiState, f: u64, w: u64| gives(s, lbool(is_minibuffer(s.frames, f, w))),
        ),
    )
}

/// `(window-minibuffer-p &optional WINDOW)` -> t when WINDOW is minibuffer.
pub fn builtin_window_minibuffer_p(ui: &mut Ui, args: &Vec<Value>) -> (r: EvalResult)
    ensures
        final(ui)@ == window_minibuffer_p_step(old(ui)@, views(args@)).state,
        outcome(r) == window_minibuffer_p_step(old(ui)@, views(args@)).end,
{
    expect_max_args("window-minibuffer-p", args, 1)?;
    let (f, w) = resolve_window_id_with_pred(ui, &arg_or_nil(args, 0), "window-valid-p")?;
    Ok(Value::bool_val(is_minibuffer_window(&ui.frames, f, w)))
}

/// `(minibuffer-selected-window)`; `entry` is the window that was selected when
/// the minibuffer was entered.
pub open spec fn minibuffer_selected_window_end(entry: Option<u64>, args: Seq<Lisp>) -> Outcome {
    if args.len() != 0 {
        wrong_number("minibuffer-selected-window"@, args.len())
    } else {
        Outcome::Value(window_or_nil(entry))
    }
}

/// `(minibuffer-selected-window)` -> selected window active at minibuffer entry.
pub fn builtin_minibuffer_selected_window(entry: Option<u64>, args: &Vec<Value>) -> (r: EvalResult)
    ensures
        outcome(r) == minibuffer_selected_window_end(entry, views(args@)),
{
    expect_args("minibuffer-selected-window", args, 0)?;
    Ok(optional_window(entry))
}

/// The first minibuffer window that shows a buffer.
pub open spec fn minibuffer_showing(list: Seq<FrameState>, buffer: u64) -> Option<u64>
    decreases list.len(),
{
    if list.len() == 0 {
        None
    } else {
        match list[0].minibuffer_window {
            Some(w) => if list[0].window_buffer(w) == Some(buffer) {
                Some(w)
            } else {
                minibuffer_showing(list.drop_first(), buffer)
            },
            None => minibuffer_showing(list.drop_first(), buffer),
        }
    }
}

/// The first minibuffer window that shows a buffer.
fn find_minibuffer_showing(frames: &FrameManager, buffer: u64) -> (r: Option<u64>)
    ensures
        r == minibuffer_showing(frames@.list, buffer),
{
    let mut i: usize = 0;
    proof {
        assert(frames@.list.skip(0) =~= frames@.list);
    }
    while i < frames.list.len()
        invariant
            i <= frames.list.len(),
            minibuffer_showing(frames@.list.skip(i as int), buffer) == minibuffer_showing(
                frames@.list,
                buffer,
            ),
        decreases frames.list.len() - i,
    {
        proof {
            assert(frames@.list.skip(i as int)[0] == frames.list@[i as int]@);
            assert(frames@.list.skip(i as int).drop_first() =~= frames@.list.skip(i + 1));
        }
        match frames.list[i].minibuffer_window {
            Some(w) => {
                match frames.list[i].window_buffer(w) {
                    Some(b) => {
                        if b == buffer {
                            return Some(w);
                        }
                    },
                    None => {},
                }
            },
            None => {},
        }
        i = i + 1;
    }
    None
}

/// `(active-minibuffer-window)`; `active` is the window of the active minibuffer
/// where that is known, `buffer` the buffer of the innermost minibuffer.
pub open spec fn active_minibuffer_window_end(
    frames: Frames,
    active: Option<u64>,
    buffer: Option<u64>,
    args: Seq<Lisp>,
) -> Outcome {
    if args.len() != 0 {
        wrong_number("active-minibuffer-window"@, args.len())
    } else {
        match active {
            Some(w) => Outcome::Value(Lisp::Window(w)),
            None => match buffer {
                Some(b) => Outcome::Value(window_or_nil(minibuffer_showing(frames.list, b))),
                None => Outcome::Value(Lisp::Nil),
            },
        }
    }
}

/// `(active-minibuffer-window)` -> window of the active minibuffer, or nil.
pub fn builtin_active_minibuffer_window(
    frames: &FrameManager,
    active: Option<u64>,
    buffer: Option<u64>,
    args: &Vec<Value>,
) -> (r: EvalResult)
    ensures
        outcome(r) == active_minibuffer_window_end(frames@, active, buffer, views(args@)),
{
    expect_args("active-minibuffer-window", args, 0)?;
    match active {
        Some(w) => Ok(Value::Window(w)),
        None => match buffer {
            Some(b) => Ok(optional_window(find_minibuffer_showing(frames, b))),
            None => Ok(Value::Nil),
        },
    }
}

/// `(window-frame &optional WINDOW)`
pub open spec fn window_frame_step(st: UiState, args: Seq<Lisp>) -> Step {
    with_arity(
        st,
        "window-frame"@,
        args,
        0,
        1,
        on_window(
            st,
            arg(args, 0),
            "window-valid-p"@,
            |s: UiState, f: u64, w: u64| gives(s, Lisp::Frame(f)),
        ),
    )
}

/// `(window-frame &optional WINDOW)` -> frame of WINDOW.
pub fn builtin_window_frame(ui: &mut Ui, args: &Vec<Value>) -> (r: EvalResult)
    ensures
        final(ui)@ == window_frame_step(old(ui)@, views(args@)).state,
        outcome(r) == window_frame_step(old(ui)@, views(args@)).end,
{
    expect_max_args("window-frame", args, 1)?;
    let (f, _) = resolve_window_id_with_pred(ui, &arg_or_nil(args, 0), "window-valid-p")?;
    Ok(Value::Frame(f))
}

/// The buffer of a window as a value.
pub open spec fn buffer_shown(frames: Frames, frame: u64, id: u64) -> Outcome {
    match window_in(frames, frame, id) {
        Found::Is(w) => Outcome::Value(
            match w.shown_buffer() {
                Some(b) => Lisp::Buffer(b),
                None => Lisp::Nil,
            },
        ),
        Found::Signal(o) => o,
    }
}

/// `(window-buffer &optional WINDOW)`
pub open spec fn window_buffer_step(st: UiState, args: Seq<Lisp>) -> Step {
    let a = arg(args, 0);
    with_arity(
        st,
        "window-buffer"@,
        args,
        0,
        1,
        if a == Lisp::Nil {
            on_window(
                st,
                a,
                "windowp"@,
                |s: UiState, f: u64, w: u64| ends(s, buffer_shown(s.frames, f, w)),
            )
        } else {
            match designated(a) {
                Some(id) => match st.frames.frame_of_live(id) {
                    Some(f) => ends(st, buffer_shown(st.frames, f, id)),
                    None => if st.frames.known_window(id) {
                        gives(st, Lisp::Nil)
                    } else {
                        ends(st, wrong_type("windowp"@, a))
                    },
                },
                None => ends(st, wrong_type("windowp"@, a)),
            }
        },
    )
}

/// The buffer of a window as a value.
fn shown_buffer_value(frames: &FrameManager, frame: u64, id: u64) -> (r: EvalResult)
    ensures
        outcome(r) == buffer_shown(frames@, frame, id),
{
    let w: Window = get_window(frames, frame, id)?;
    match w.buffer_id() {
        Some(b) => Ok(Value::Buffer(b)),
        None => Ok(Value::Nil),
    }
}

/// `(window-buffer &optional WINDOW)` -> buffer object.
pub fn builtin_window_buffer(ui: &mut Ui, args: &Vec<Value>) -> (r: EvalResult)
    ensures
        final(ui)@ == window_buffer_step(old(ui)@, views(args@)).state,
        outcome(r) == window_buffer_step(old(ui)@, views(args@)).end,
{
    expect_max_args("window-buffer", args, 1)?;
    let a: Value = arg_or_nil(args, 0);
    if a.is_nil() {
        let (f, w) = resolve_window_id_with_pred(ui, &a, "windowp")?;
        return shown_buffer_value(&ui.frames, f, w);
    }
    match window_id_from_designator(&a) {
        Some(id) => match ui.frames.find_window_frame_id(id) {
            Some(f) => shown_buffer_value(&ui.frames, f, id),
            None => if ui.frames.is_window_object_id(id) {
                Ok(Value::Nil)
            } else {
                Err(wrong_type_argument("windowp", &a))
            },
        },
        None => Err(wrong_type_argument("windowp", &a)),
    }
}

/// A builtin that asks for a window related to another one in its frame.
pub open spec fn relative_step(
    st: UiState,
    name: Seq<char>,
    args: Seq<Lisp>,
    relative: spec_fn(FrameState, u64) -> Option<u64>,
) -> Step {
    with_arity(
        st,
        name,
        args,
        0,
        1,
        on_window(
            booted(st),
            arg(args, 0),
            "window-valid-p"@,
            |s: UiState, f: u64, w: u64|
                match s.frames.get(f) {
                    Some(frame) => gives(s, window_or_nil(relative(frame, w))),
                    None => ends(s, error_outcome("Frame not found"@)),
                },
        ),
    )
}

/// The combination that holds a window.
pub open spec fn window_parent(f: FrameState, id: u64) -> Option<u64> {
    parent_of(f.root, id, None)
}

/// `(window-parent &optional WINDOW)` -> parent window or nil.
pub fn builtin_window_parent(ui: &mut Ui, args: &Vec<Value>) -> (r: EvalResult)
    ensures
        ({
            let step = relative_step(
                old(ui)@,
                "window-parent"@,
                views(args@),
                |f: FrameState, w: u64| window_parent(f, w),
            );
            final(ui)@ == step.state && outcome(r) == step.end
        }),
{
    expect_max_args("window-parent", args, 1)?;
    let _id: u64 = ensure_selected_frame_id(ui);
    let (f, w) = resolve_window_id_with_pred(ui, &arg_or_nil(args, 0), "window-valid-p")?;
    let frame = get_frame(&ui.frames, f)?;
    Ok(optional_window(frame.root.parent_of(w, None)))
}

/// `(window-top-child &optional WINDOW)` -> top child for vertical combinations.
pub fn builtin_window_top_child(ui: &mut Ui, args: &Vec<Value>) -> (r: EvalResult)
    ensures
        ({
            let step = relative_step(
                old(ui)@,
                "window-top-child"@,
                views(args@),
                |f: FrameState, w: u64| child_of(f.root, w, SplitDirection::Vertical),
            );
            final(ui)@ == step.state && outcome(r) == step.end
        }),
{
    expect_max_args("window-top-child", args, 1)?;
    let _id: u64 = ensure_selected_frame_id(ui);
    let (f, w) = resolve_window_id_with_pred(ui, &arg_or_nil(args, 0), "window-valid-p")?;
    let frame = get_frame(&ui.frames, f)?;
    Ok(optional_window(frame.root.child_of(w, SplitDirection::Vertical)))
}

/// `(window-left-child &optional WINDOW)` -> left child for horizontal combinations.
pub fn builtin_window_left_child(ui: &mut Ui, args: &Vec<Value>) -> (r: EvalResult)
    ensures
        ({
            let step = relative_step(
                old(ui)@,
                "window-left-child"@,
                views(args@),
                |f: FrameState, w: u64| child_of(f.root, w, SplitDirection::Horizontal),
            );
            final(ui)@ == step.state && outcome(r) == step.end
        }),
{
    expect_max_args("window-left-child", args, 1)?;
    let _id: u64 = ensure_selected_frame_id(ui);
    let (f, w) = resolve_window_id_with_pred(ui, &arg_or_nil(args, 0), "window-valid-p")?;
    let frame = get_frame(&ui.frames, f)?;
    Ok(optional_window(frame.root.child_of(w, SplitDirection::Horizontal)))
}

/// `(window-next-sibling &optional WINDOW)` -> next sibling or nil.
pub fn builtin_window_next_sibling(ui: &mut Ui, args: &Vec<Value>) -> (r: EvalResult)
    ensures
        ({
            let step = relative_step(
                old(ui)@,
                "window-next-sibling"@,
                views(args@),
                |f: FrameState, w: u64| sibling_after(f.root, w),
            );
            final(ui)@ == step.state && outcome(r) == step.end
        }),
{
    expect_max_args("window-next-sibling", args, 1)?;
    let _id: u64 = ensure_selected_frame_id(ui);
    let (f, w) = resolve_window_id_with_pred(ui, &arg_or_nil(args, 0), "window-valid-p")?;
    let frame = get_frame(&ui.frames, f)?;
    Ok(optional_window(frame.root.sibling_after(w)))
}

/// `(window-prev-sibling &optional WINDOW)` -> previous sibling or nil.
pub fn builtin_window_prev_sibling(ui: &mut Ui, args: &Vec<Value>) -> (r: EvalResult)
    ensures
        ({
            let step = relative_step(
                old(ui)@,
                "window-prev-sibling"@,
                views(args@),
                |f: FrameState, w: u64| sibling_before(f.root, w),
            );
            final(ui)@ == step.state && outcome(r) == step.end
        }),
{
    expect_max_args("window-prev-sibling", args, 1)?;
    let _id: u64 = ensure_selected_frame_id(ui);
    let (f, w) = resolve_window_id_with_pred(ui, &arg_or_nil(args, 0), "window-valid-p")?;
    let frame = get_frame(&ui.frames, f)?;
    Ok(optional_window(frame.root.sibling_before(w)))
}

/// A test on the window that a value designates.
pub open spec fn window_test_end(
    name: Seq<char>,
    args: Seq<Lisp>,
    test: spec_fn(u64) -> bool,
) -> Outcome {
    if args.len() != 1 {
        wrong_number(name, args.len())
    } else {
        match designated(args[0]) {
            Some(id) => Outcome::Value(lbool(test(id))),
            None => Outcome::Value(Lisp::Nil),
        }
    }
}

/// `(windowp OBJ)` -> t if OBJ is a window object or designator that exists.
pub fn builtin_windowp(frames: &FrameManager, args: &Vec<Value>) -> (r: EvalResult)
    ensures
        outcome(r) == window_test_end(
            "windowp"@,
            views(args@),
            |id: u64| frames@.known_window(id),
        ),
{
    expect_args("windowp", args, 1)?;
    match window_id_from_designator(&args[0]) {
        Some(id) => Ok(Value::bool_val(frames.is_window_object_id(id))),
        None => Ok(Value::Nil),
    }
}

/// `(window-valid-p OBJ)` -> t if OBJ is a window of some frame.
pub fn builtin_window_valid_p(frames: &FrameManager, args: &Vec<Value>) -> (r: EvalResult)
    ensures
        outcome(r) == window_test_end(
            "window-valid-p"@,
            views(args@),
            |id: u64| frames@.frame_of_valid(id) is Some,
        ),
{
    expect_args("window-valid-p", args, 1)?;
    match window_id_from_designator(&args[0]) {
        Some(id) => Ok(Value::bool_val(frames.find_valid_window_frame_id(id).is_some())),
        None => Ok(Value::Nil),
    }
}

/// `(window-live-p OBJ)` -> t if OBJ is a window that shows a buffer.
pub fn builtin_window_live_p(frames: &FrameManager, args: &Vec<Value>) -> (r: EvalResult)
    ensures
        outcome(r) == window_test_end(
            "window-live-p"@,
            views(args@),
            |id: u64| frames@.frame_of_live(id) is Some,
        ),
{
    expect_args("window-live-p", args, 1)?;
    match window_id_from_designator(&args[0]) {
        Some(id) => Ok(Value::bool_val(frames.find_window_frame_id(id).is_some())),
        None => Ok(Value::Nil),
    }
}

} // verus!
