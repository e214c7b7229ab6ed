//! Builtins on what is kept of a window besides its place: tables, parameters,
//! use times, buffer histories, margins and scrolling.
use crate::alist::{alist_get, alist_put, alist_set, alist_value};
use crate::frame::{cell_count, cells, FrameManager, Frames, RecordState, WindowRecord};
use crate::value::outcome;
use crate::value::{
    arg, arg_or_nil, cons, error_outcome, error_signal, expect_args, expect_args_range,
    expect_max_args, lbool, list4, views, wrong_type, wrong_type_argument, EvalResult, Flow, Lisp,
    Outcome, Value,
};
use crate::window::{with_limit, Combination, Leaf, Window};
use crate::window_cmds::args::{
    expect_fixnum, expect_margin_width, int_arg, margin_arg, prefix_count, scroll_prefix_value,
};
use crate::window_cmds::query::{on_window, with_arity};
use crate::window_cmds::resolve::{
    after, found, get_window, resolve_window_id_with_pred, resolve_window_object_id_with_pred,
    window_arg, window_in, window_object_arg, Found,
};
use crate::window_cmds::state::{
    boot_id, booted, ends, ensure_selected_frame_id, gives, Step, Ui, UiState,
};
use vstd::prelude::*;

verus! {

/// A builtin that gives something kept of a live window.
pub open spec fn kept_step(
    st: UiState,
    name: Seq<char>,
    args: Seq<Lisp>,
    value: spec_fn(RecordState) -> Lisp,
) -> Step {
    with_arity(
        st,
        name,
        args,
        0,
        1,
        on_window(
            booted(st),
            arg(args, 0),
            "window-live-p"@,
            |s: UiState, f: u64, w: u64| gives(s, value(s.frames.record(w))),
        ),
    )
}

/// A builtin that changes something kept of a live window and gives the new value.
pub open spec fn keep_step(
    st: UiState,
    name: Seq<char>,
    args: Seq<Lisp>,
    change: spec_fn(RecordState, Lisp) -> RecordState,
) -> Step {
    with_arity(
        st,
        name,
        args,
        2,
        2,
        on_window(
            booted(st),
            arg(args, 0),
            "window-live-p"@,
            |s: UiState, f: u64, w: u64|
                gives(
                    s.with_frames(
                        s.frames.with_record(w, change(s.frames.record(w), arg(args, 1))),
                    ),
                    arg(args, 1),
                ),
        ),
    )
}

/// What a builtin on a live window has found out before it goes on.
pub open spec fn live_window(st: UiState, name: Seq<char>, args: Seq<Lisp>, n: int) -> (
    UiState,
    Found<(u64, u64)>,
) {
    if args.len() > n {
        (st, Found::Signal(crate::value::wrong_number(name, args.len())))
    } else {
        (
            after(booted(st), arg(args, 0)),
            window_arg(booted(st), arg(args, 0), "window-live-p"@),
        )
    }
}

/// Finds the live window that the first argument stands for.
fn take_live_window(ui: &mut Ui, name: &str, args: &Vec<Value>, n: usize) -> (r: Result<
    (u64, u64),
    Flow,
>)
    ensures
        (final(ui)@, found(r)) == live_window(old(ui)@, name@, views(args@), n as int),
{
    expect_max_args(name, args, n)?;
    let _id: u64 = ensure_selected_frame_id(ui);
    resolve_window_id_with_pred(ui, &arg_or_nil(args, 0), "window-live-p")
}

/// `(window-display-table &optional WINDOW)` -> display table or nil.
pub fn builtin_window_display_table(ui: &mut Ui, args: &Vec<Value>) -> (r: EvalResult)
    ensures
        ({
            let step = kept_step(
                old(ui)@,
                "window-display-table"@,
                views(args@),
                |k: RecordState| k.display_table,
            );
            final(ui)@ == step.state && outcome(r) == step.end
        }),
{
    let (_, w) = take_live_window(ui, "window-display-table", args, 1)?;
    Ok(ui.frames.record(w).display_table)
}

/// `(set-window-display-table WINDOW TABLE)` -> TABLE.
pub fn builtin_set_window_display_table(ui: &mut Ui, args: &Vec<Value>) -> (r: EvalResult)
    ensures
        ({
            let step = keep_step(
                old(ui)@,
                "set-window-display-table"@,
                views(args@),
                |k: RecordState, v: Lisp| RecordState { display_table: v, ..k },
            );
            final(ui)@ == step.state && outcome(r) == step.end
        }),
{
    expect_args("set-window-display-table", args, 2)?;
    let (_, w) = take_live_window(ui, "set-window-display-table", args, 2)?;
    let mut k: WindowRecord = ui.frames.record(w);
    k.set_display_table(args[1].copy());
    ui.frames.set_record(w, k);
    Ok(args[1].copy())
}

/// `(window-cursor-type &optional WINDOW)` -> cursor type object.
pub fn builtin_window_cursor_type(ui: &mut Ui, args: &Vec<Value>) -> (r: EvalResult)
    ensures
        ({
            let step = kept_step(
                old(ui)@,
                "window-cursor-type"@,
                views(args@),
                |k: RecordState| k.cursor_type,
            );
            final(ui)@ == step.state && outcome(r) == step.end
        }),
{
    let (_, w) = take_live_window(ui, "window-cursor-type", args, 1)?;
    Ok(ui.frames.record(w).cursor_type)
}

/// `(set-window-cursor-type WINDOW TYPE)` -> TYPE.
pub fn builtin_set_window_cursor_type(ui: &mut Ui, args: &Vec<Value>) -> (r: EvalResult)
    ensures
        ({
            let step = keep_step(
                old(ui)@,
                "set-window-cursor-type"@,
                views(args@),
                |k: RecordState, v: Lisp| RecordState { cursor_type: v, ..k },
            );
            final(ui)@ == step.state && outcome(r) == step.end
        }),
{
    expect_args("set-window-cursor-type", args, 2)?;
    let (_, w) = take_live_window(ui, "set-window-cursor-type", args, 2)?;
    let mut k: WindowRecord = ui.frames.record(w);
    k.set_cursor_type(args[1].copy());
    ui.frames.set_record(w, k);
    Ok(args[1].copy())
}

/// `(window-prev-buffers &optional WINDOW)` -> previous buffer list or nil.
pub fn builtin_window_prev_buffers(ui: &mut Ui, args: &Vec<Value>) -> (r: EvalResult)
    ensures
        ({
            let step = kept_step(
                old(ui)@,
                "window-prev-buffers"@,
                views(args@),
                |k: RecordState| k.prev_buffers,
            );
            final(ui)@ == step.state && outcome(r) == step.end
        }),
{
    let (_, w) = take_live_window(ui, "window-prev-buffers", args, 1)?;
    Ok(ui.frames.record(w).prev_buffers)
}

/// `(window-next-buffers &optional WINDOW)` -> next buffer list or nil.
pub fn builtin_window_next_buffers(ui: &mut Ui, args: &Vec<Value>) -> (r: EvalResult)
    ensures
        ({
            let step = kept_step(
                old(ui)@,
                "window-next-buffers"@,
                views(args@),
                |k: RecordState| k.next_buffers,
            );
            final(ui)@ == step.state && outcome(r) == step.end
        }),
{
    let (_, w) = take_live_window(ui, "window-next-buffers", args, 1)?;
    Ok(ui.frames.record(w).next_buffers)
}

/// `(set-window-prev-buffers WINDOW PREV-BUFFERS)` -> PREV-BUFFERS.
pub fn builtin_set_window_prev_buffers(ui: &mut Ui, args: &Vec<Value>) -> (r: EvalResult)
    ensures
        ({
            let step = keep_step(
                old(ui)@,
                "set-window-prev-buffers"@,
                views(args@),
                |k: RecordState, v: Lisp| RecordState { prev_buffers: v, ..k },
            );
            final(ui)@ == step.state && outcome(r) == step.end
        }),
{
    expect_args("set-window-prev-buffers", args, 2)?;
    let (_, w) = take_live_window(ui, "set-window-prev-buffers", args, 2)?;
    let mut k: WindowRecord = ui.frames.record(w);
    k.set_prev_buffers(args[1].copy());
    ui.frames.set_record(w, k);
    Ok(args[1].copy())
}

/// `(set-window-next-buffers WINDOW NEXT-BUFFERS)` -> NEXT-BUFFERS.
pub fn builtin_set_window_next_buffers(ui: &mut Ui, args: &Vec<Value>) -> (r: EvalResult)
    ensures
        ({
            let step = keep_step(
                old(ui)@,
                "set-window-next-buffers"@,
                views(args@),
                |k: RecordState, v: Lisp| RecordState { next_buffers: v, ..k },
            );
            final(ui)@ == step.state && outcome(r) == step.end
        }),
{
    expect_args("set-window-next-buffers", args, 2)?;
    let (_, w) = take_live_window(ui, "set-window-next-buffers", args, 2)?;
    let mut k: WindowRecord = ui.frames.record(w);
    k.set_next_buffers(args[1].copy());
    ui.frames.set_record(w, k);
    Ok(args[1].copy())
}

/// `(window-use-time &optional WINDOW)` -> integer.
pub fn builtin_window_use_time(ui: &mut Ui, args: &Vec<Value>) -> (r: EvalResult)
    ensures
        ({
            let step = kept_step(
                old(ui)@,
                "window-use-time"@,
                views(args@),
                |k: RecordState| Lisp::Int(k.use_time),
            );
            final(ui)@ == step.state && outcome(r) == step.end
        }),
{
    let (_, w) = take_live_window(ui, "window-use-time", args, 1)?;
    Ok(Value::Int(ui.frames.window_use_time(w)))
}

/// `(window-old-buffer &optional WINDOW)` -> nil.
pub fn builtin_window_old_buffer(ui: &mut Ui, args: &Vec<Value>) -> (r: EvalResult)
    ensures
        ({
            let step = kept_step(
                old(ui)@,
                "window-old-buffer"@,
                views(args@),
                |k: RecordState| Lisp::Nil,
            );
            final(ui)@ == step.state && outcome(r) == step.end
        }),
{
    let _found = take_live_window(ui, "window-old-buffer", args, 1)?;
    Ok(Value::Nil)
}

/// The window whose use time is bumped: the selected one for `nil`, or a live window.
pub open spec fn bump_target(frames: Frames, selected: u64, a: Lisp) -> Found<u64> {
    match a {
        Lisp::Nil => Found::Is(selected),
        Lisp::Window(id) => if frames.frame_of_live(id) is Some {
            Found::Is(id)
        } else {
            Found::Signal(wrong_type("window-live-p"@, a))
        },
        _ => Found::Signal(wrong_type("window-live-p"@, a)),
    }
}

/// `(window-bump-use-time &optional WINDOW)`
pub open spec fn window_bump_use_time_step(st: UiState, args: Seq<Lisp>) -> Step {
    let s = booted(st);
    with_arity(
        st,
        "window-bump-use-time"@,
        args,
        0,
        1,
        match s.frames.get(boot_id(st)) {
            Some(f) => match bump_target(s.frames, f.selected_window, arg(args, 0)) {
                Found::Is(w) => gives(
                    s.with_frames(s.frames.use_time_bumped(f.selected_window, w)),
                    if w == f.selected_window {
                        Lisp::Nil
                    } else {
                        Lisp::Int(s.frames.record(f.selected_window).use_time)
                    },
                ),
                Found::Signal(o) => ends(s, o),
            },
            None => ends(s, error_outcome("No selected frame"@)),
        },
    )
}

/// `(window-bump-use-time &optional WINDOW)` -> integer or nil.
pub fn builtin_window_bump_use_time(ui: &mut Ui, args: &Vec<Value>) -> (r: EvalResult)
    ensures
        final(ui)@ == window_bump_use_time_step(old(ui)@, views(args@)).state,
        outcome(r) == window_bump_use_time_step(old(ui)@, views(args@)).end,
{
    expect_max_args("window-bump-use-time", args, 1)?;
    let id: u64 = ensure_selected_frame_id(ui);
    let selected: u64 = match ui.frames.get(id) {
        Some(f) => f.selected_window,
        None => {
            return Err(error_signal("No selected frame"));
        },
    };
    let a: Value = arg_or_nil(args, 0);
    let target: u64 = match &a {
        Value::Nil => selected,
        Value::Window(w) => {
            if ui.frames.find_window_frame_id(*w).is_none() {
                return Err(wrong_type_argument("window-live-p", &a));
            }
            *w
        },
        _ => {
            return Err(wrong_type_argument("window-live-p", &a));
        },
    };
    match ui.frames.bump_window_use_time(selected, target) {
        Some(t) => Ok(Value::Int(t)),
        None => Ok(Value::Nil),
    }
}

/// `(window-parameter WINDOW PARAMETER)`
pub open spec fn window_parameter_step(st: UiState, args: Seq<Lisp>) -> Step {
    let s = after(booted(st), arg(args, 0));
    with_arity(
        st,
        "window-parameter"@,
        args,
        2,
        2,
        match window_object_arg(booted(st), arg(args, 0), "windowp"@) {
            Found::Is(w) => gives(
                s,
                match alist_get(s.frames.record(w).parameters, arg(args, 1)) {
                    Some(v) => v,
                    None => Lisp::Nil,
                },
            ),
            Found::Signal(o) => ends(s, o),
        },
    )
}

/// `(window-parameter WINDOW PARAMETER)` -> window parameter or nil.
pub fn builtin_window_parameter(ui: &mut Ui, args: &Vec<Value>) -> (r: EvalResult)
    ensures
        final(ui)@ == window_parameter_step(old(ui)@, views(args@)).state,
        outcome(r) == window_parameter_step(old(ui)@, views(args@)).end,
{
    expect_args("window-parameter", args, 2)?;
    let _id: u64 = ensure_selected_frame_id(ui);
    let w: u64 = resolve_window_object_id_with_pred(ui, &arg_or_nil(args, 0), "windowp")?;
    match alist_value(&ui.frames.record(w).parameters, &args[1]) {
        Some(v) => Ok(v),
        None => Ok(Value::Nil),
    }
}

/// `(set-window-parameter WINDOW PARAMETER VALUE)`
pub open spec fn set_window_parameter_step(st: UiState, args: Seq<Lisp>) -> Step {
    let s = after(booted(st), arg(args, 0));
    with_arity(
        st,
        "set-window-parameter"@,
        args,
        3,
        3,
        match window_object_arg(booted(st), arg(args, 0), "windowp"@) {
            Found::Is(w) => gives(
                s.with_frames(
                    s.frames.with_record(
                        w,
                        RecordState {
                            parameters: alist_put(
                                s.frames.record(w).parameters,
                                arg(args, 1),
                                arg(args, 2),
                            ),
                            ..s.frames.record(w)
                        },
                    ),
                ),
                arg(args, 2),
            ),
            Found::Signal(o) => ends(s, o),
        },
    )
}

/// `(set-window-parameter WINDOW PARAMETER VALUE)` -> VALUE.
pub fn builtin_set_window_parameter(ui: &mut Ui, args: &Vec<Value>) -> (r: EvalResult)
    ensures
        final(ui)@ == set_window_parameter_step(old(ui)@, views(args@)).state,
        outcome(r) == set_window_parameter_step(old(ui)@, views(args@)).end,
{
    expect_args("set-window-parameter", args, 3)?;
    let _id: u64 = ensure_selected_frame_id(ui);
    let w: u64 = resolve_window_object_id_with_pred(ui, &arg_or_nil(args, 0), "windowp")?;
    let mut k: WindowRecord = ui.frames.record(w);
    let parameters: Value = alist_set(&k.parameters, &args[1], &args[2]);
    k.set_parameters(parameters);
    ui.frames.set_record(w, k);
    Ok(args[2].copy())
}

/// `(window-parameters &optional WINDOW)`
pub open spec fn window_parameters_step(st: UiState, args: Seq<Lisp>) -> Step {
    with_arity(
        st,
        "window-parameters"@,
        args,
        0,
        1,
        on_window(
            booted(st),
            arg(args, 0),
            "window-valid-p"@,
            |s: UiState, f: u64, w: u64| gives(s, s.frames.record(w).parameters),
        ),
    )
}

/// `(window-parameters &optional WINDOW)` -> alist of parameters.
pub fn builtin_window_parameters(ui: &mut Ui, args: &Vec<Value>) -> (r: EvalResult)
    ensures
        final(ui)@ == window_parameters_step(old(ui)@, views(args@)).state,
        outcome(r) == window_parameters_step(old(ui)@, views(args@)).end,
{
    expect_max_args("window-parameters", args, 1)?;
    let _id: u64 = ensure_selected_frame_id(ui);
    let (_, w) = resolve_window_id_with_pred(ui, &arg_or_nil(args, 0), "window-valid-p")?;
    Ok(ui.frames.record(w).parameters)
}

/// `(window-dedicated-p &optional WINDOW)`
pub open spec fn window_dedicated_p_step(st: UiState, args: Seq<Lisp>) -> Step {
    with_arity(
        st,
        "window-dedicated-p"@,
        args,
        0,
        1,
        on_window(
            st,
            arg(args, 0),
            "window-live-p"@,
            |s: UiState, f: u64, w: u64|
                match window_in(s.frames, f, w) {
                    Found::Is(Window::Leaf(l)) => gives(s, lbool(l.dedicated)),
                    Found::Is(Window::Internal(_)) => gives(s, Lisp::Nil),
                    Found::Signal(o) => ends(s, o),
                },
        ),
    )
}

/// `(window-dedicated-p &optional WINDOW)` -> t or nil.
pub fn builtin_window_dedicated_p(ui: &mut Ui, args: &Vec<Value>) -> (r: EvalResult)
    ensures
        final(ui)@ == window_dedicated_p_step(old(ui)@, views(args@)).state,
        outcome(r) == window_dedicated_p_step(old(ui)@, views(args@)).end,
{
    expect_max_args("window-dedicated-p", args, 1)?;
    let (f, w) = resolve_window_id_with_pred(ui, &arg_or_nil(args, 0), "window-live-p")?;
    match get_window(&ui.frames, f, w)? {
        Window::Leaf(l) => Ok(Value::bool_val(l.dedicated)),
        Window::Internal(_) => Ok(Value::Nil),
    }
}

/// The frames with a change to a window that shows a buffer.
pub open spec fn leaf_changed(
    frames: Frames,
    f: u64,
    w: u64,
    change: spec_fn(Leaf) -> Leaf,
) -> Frames {
    match frames.window(f, w) {
        Some(Window::Leaf(l)) => frames.with_leaf(f, w, change(l)),
        _ => frames,
    }
}

/// `(set-window-dedicated-p WINDOW FLAG)`
pub open spec fn set_window_dedicated_p_step(st: UiState, args: Seq<Lisp>) -> Step {
    let flag = arg(args, 1) != Lisp::Nil;
    with_arity(
        st,
        "set-window-dedicated-p"@,
        args,
        2,
        2,
        on_window(
            st,
            arg(args, 0),
            "window-live-p"@,
            |s: UiState, f: u64, w: u64|
                gives(
                    s.with_frames(
                        leaf_changed(s.frames, f, w, |l: Leaf| Leaf { dedicated: flag, ..l }),
                    ),
                    lbool(flag),
                ),
        ),
    )
}

/// `(set-window-dedicated-p WINDOW FLAG)` -> FLAG.
pub fn builtin_set_window_dedicated_p(ui: &mut Ui, args: &Vec<Value>) -> (r: EvalResult)
    ensures
        final(ui)@ == set_window_dedicated_p_step(old(ui)@, views(args@)).state,
        outcome(r) == set_window_dedicated_p_step(old(ui)@, views(args@)).end,
{
    expect_args("set-window-dedicated-p", args, 2)?;
    let flag: bool = args[1].is_truthy();
    let (f, w) = resolve_window_id_with_pred(ui, &arg_or_nil(args, 0), "window-live-p")?;
    match ui.frames.find_window(f, w) {
        Some(Window::Leaf(l)) => {
            let mut new: Leaf = l;
            new.dedicated = flag;
            ui.frames.set_leaf(f, w, new);
        },
        _ => {},
    }
    Ok(Value::bool_val(flag))
}

/// `(window-hscroll &optional WINDOW)`
pub open spec fn window_hscroll_step(st: UiState, args: Seq<Lisp>) -> Step {
    with_arity(
        st,
        "window-hscroll"@,
        args,
        0,
        1,
        on_window(
            booted(st),
            arg(args, 0),
            "window-live-p"@,
            |s: UiState, f: u64, w: u64|
                match window_in(s.frames, f, w) {
                    Found::Is(Window::Leaf(l)) => gives(s, Lisp::Int(l.hscroll as i64)),
                    Found::Is(Window::Internal(_)) => gives(s, Lisp::Int(0)),
                    Found::Signal(o) => ends(s, o),
                },
        ),
    )
}

/// `(window-hscroll &optional WINDOW)` -> integer.
pub fn builtin_window_hscroll(ui: &mut Ui, args: &Vec<Value>) -> (r: EvalResult)
    ensures
        final(ui)@ == window_hscroll_step(old(ui)@, views(args@)).state,
        outcome(r) == window_hscroll_step(old(ui)@, views(args@)).end,
{
    let (f, w) = take_live_window(ui, "window-hscroll", args, 1)?;
    match get_window(&ui.frames, f, w)? {
        Window::Leaf(l) => Ok(Value::Int(l.hscroll as i64)),
        Window::Internal(_) => Ok(Value::Int(0)),
    }
}

/// A number of columns, at least none.
pub open spec fn column_count(n: int) -> int {
    if n < 0 {
        0
    } else if n <= usize::MAX {
        n
    } else {
        usize::MAX as int
    }
}

/// `(set-window-hscroll WINDOW NCOLS)`
pub open spec fn set_window_hscroll_step(st: UiState, args: Seq<Lisp>) -> Step {
    with_arity(
        st,
        "set-window-hscroll"@,
        args,
        2,
        2,
        on_window(
            st,
            arg(args, 0),
            "window-live-p"@,
            |s: UiState, f: u64, w: u64|
                match int_arg(arg(args, 1), "fixnump"@) {
                    Found::Is(n) => gives(
                        s.with_frames(
                            leaf_changed(
                                s.frames,
                                f,
                                w,
                                |l: Leaf|
                                    Leaf { hscroll: column_count(n as int) as usize, ..l },
                            ),
                        ),
                        Lisp::Int(column_count(n as int) as i64),
                    ),
                    Found::Signal(o) => ends(s, o),
                },
        ),
    )
}

/// A number of columns, at least none.
fn columns(n: i64) -> (r: usize)
    ensures
        r == column_count(n as int),
{
    if n < 0 {
        0
    } else if n as u64 <= usize::MAX as u64 {
        n as usize
    } else {
        usize::MAX
    }
}

/// Sets the horizontal scrolling of a window.
fn set_hscroll(frames: &mut FrameManager, f: u64, w: u64, n: usize)
    ensures
        final(frames)@ == leaf_changed(
            old(frames)@,
            f,
            w,
            |l: Leaf| Leaf { hscroll: n, ..l },
        ),
{
    match frames.find_window(f, w) {
        Some(Window::Leaf(l)) => {
            let mut new: Leaf = l;
            new.hscroll = n;
            frames.set_leaf(f, w, new);
        },
        _ => {},
    }
}

/// `(set-window-hscroll WINDOW NCOLS)` -> integer.
pub fn builtin_set_window_hscroll(ui: &mut Ui, args: &Vec<Value>) -> (r: EvalResult)
    ensures
        final(ui)@ == set_window_hscroll_step(old(ui)@, views(args@)).state,
        outcome(r) == set_window_hscroll_step(old(ui)@, views(args@)).end,
{
    expect_args("set-window-hscroll", args, 2)?;
    let (f, w) = resolve_window_id_with_pred(ui, &arg_or_nil(args, 0), "window-live-p")?;
    let n: usize = columns(expect_fixnum(&args[1])?);
    set_hscroll(&mut ui.frames, f, w, n);
    Ok(Value::Int(n as i64))
}

/// How far a window scrolls sideways by itself: its width but two columns.
pub open spec fn default_columns(frames: Frames, f: u64, w: u64) -> int {
    let n = match frames.get(f) {
        Some(frame) => match frame.window(w) {
            Some(x) => if frame.char_width > 0 {
                cells(x.rect().width as int, frame.char_width)
            } else {
                80
            },
            None => 80,
        },
        None => 80,
    };
    if n - 2 < 1 {
        1
    } else {
        n - 2
    }
}

/// How far a window scrolls sideways by itself.
fn default_scroll_columns(frames: &FrameManager, f: u64, w: u64) -> (r: i64)
    ensures
        r == default_columns(frames@, f, w),
{
    let n: i64 = match frames.get(f) {
        Some(frame) => match frame.find_window(w) {
            Some(x) => if frame.char_width > 0 {
                cell_count(x.bounds().width as u64, frame.char_width) as i64
            } else {
                80
            },
            None => 80,
        },
        None => 80,
    };
    if n - 2 < 1 {
        1
    } else {
        n - 2
    }
}

/// How far a window is scrolled sideways.
pub open spec fn hscroll_of(frames: Frames, f: u64, w: u64) -> int {
    match frames.window(f, w) {
        Some(Window::Leaf(l)) => l.hscroll as i64 as int,
        _ => 0,
    }
}

/// A column kept between none and the largest integer.
pub open spec fn column(n: int) -> int {
    if n < 0 {
        0
    } else if n > i64::MAX {
        i64::MAX as int
    } else {
        n
    }
}

/// Scrolling the selected window sideways, to the left or to the right.
pub open spec fn scroll_sideways_step(
    st: UiState,
    name: Seq<char>,
    args: Seq<Lisp>,
    left: bool,
) -> Step {
    with_arity(
        st,
        name,
        args,
        0,
        2,
        on_window(
            booted(st),
            Lisp::Nil,
            "window-live-p"@,
            |s: UiState, f: u64, w: u64|
                {
                    let delta = if arg(args, 0) == Lisp::Nil {
                        default_columns(s.frames, f, w)
                    } else {
                        prefix_count(arg(args, 0)) as int
                    };
                    let base = hscroll_of(s.frames, f, w);
                    let next = column(
                        if left {
                            base + delta
                        } else {
                            base - delta
                        },
                    );
                    gives(
                        s.with_frames(
                            leaf_changed(
                                s.frames,
                                f,
                                w,
                                |l: Leaf| Leaf { hscroll: column_count(next) as usize, ..l },
                            ),
                        ),
                        Lisp::Int(next as i64),
                    )
                },
        ),
    )
}

/// Scrolls the selected window sideways.
fn scroll_sideways(ui: &mut Ui, name: &str, args: &Vec<Value>, left: bool) -> (r: EvalResult)
    ensures
        final(ui)@ == scroll_sideways_step(old(ui)@, name@, views(args@), left).state,
        outcome(r) == scroll_sideways_step(old(ui)@, name@, views(args@), left).end,
{
    expect_max_args(name, args, 2)?;
    let _id: u64 = ensure_selected_frame_id(ui);
    let none: Value = Value::Nil;
    let (f, w) = resolve_window_id_with_pred(ui, &none, "window-live-p")?;
    let base: i128 = match ui.frames.find_window(f, w) {
        Some(Window::Leaf(l)) => l.hscroll as i64 as i128,
        _ => 0,
    };
    let a: Value = arg_or_nil(args, 0);
    let delta: i128 = if a.is_nil() {
        default_scroll_columns(&ui.frames, f, w) as i128
    } else {
        scroll_prefix_value(&a) as i128
    };
    let sum: i128 = if left {
        base + delta
    } else {
        base - delta
    };
    let next: i64 = if sum < 0 {
        0
    } else if sum > i64::MAX as i128 {
        i64::MAX
    } else {
        sum as i64
    };
    set_hscroll(&mut ui.frames, f, w, columns(next));
    Ok(Value::Int(next))
}

/// `(scroll-left &optional SET-MINIMUM ARG)` -> new horizontal scroll amount.
pub fn builtin_scroll_left(ui: &mut Ui, args: &Vec<Value>) -> (r: EvalResult)
    ensures
        final(ui)@ == scroll_sideways_step(old(ui)@, "scroll-left"@, views(args@), true).state,
        outcome(r) == scroll_sideways_step(old(ui)@, "scroll-left"@, views(args@), true).end,
{
    scroll_sideways(ui, "scroll-left", args, true)
}

/// `(scroll-right &optional SET-MINIMUM ARG)` -> new horizontal scroll amount.
pub fn builtin_scroll_right(ui: &mut Ui, args: &Vec<Value>) -> (r: EvalResult)
    ensures
        final(ui)@ == scroll_sideways_step(old(ui)@, "scroll-right"@, views(args@), false).state,
        outcome(r) == scroll_sideways_step(old(ui)@, "scroll-right"@, views(args@), false).end,
{
    scroll_sideways(ui, "scroll-right", args, false)
}

/// `(window-vscroll &optional WINDOW PIXELWISE)`
pub open spec fn window_vscroll_step(st: UiState, args: Seq<Lisp>) -> Step {
    with_arity(
        st,
        "window-vscroll"@,
        args,
        0,
        2,
        on_window(
            booted(st),
            arg(args, 0),
            "window-live-p"@,
            |s: UiState, f: u64, w: u64| gives(s, Lisp::Int(0)),
        ),
    )
}

/// `(window-vscroll &optional WINDOW PIXELWISE)` -> integer.
pub fn builtin_window_vscroll(ui: &mut Ui, args: &Vec<Value>) -> (r: EvalResult)
    ensures
        final(ui)@ == window_vscroll_step(old(ui)@, views(args@)).state,
        outcome(r) == window_vscroll_step(old(ui)@, views(args@)).end,
{
    let _found = take_live_window(ui, "window-vscroll", args, 2)?;
    Ok(Value::Int(0))
}

/// `(set-window-vscroll WINDOW VSCROLL &optional PIXELWISE PRESERVE)`
pub open spec fn set_window_vscroll_step(st: UiState, args: Seq<Lisp>) -> Step {
    with_arity(
        st,
        "set-window-vscroll"@,
        args,
        2,
        4,
        on_window(
            st,
            arg(args, 0),
            "window-live-p"@,
            |s: UiState, f: u64, w: u64|
                match arg(args, 1) {
                    Lisp::Int(_) => gives(s, Lisp::Int(0)),
                    Lisp::Float(_) => gives(s, Lisp::Int(0)),
                    other => ends(s, wrong_type("numberp"@, other)),
                },
        ),
    )
}

/// `(set-window-vscroll WINDOW VSCROLL &optional PIXELWISE PRESERVE)` -> integer.
pub fn builtin_set_window_vscroll(ui: &mut Ui, args: &Vec<Value>) -> (r: EvalResult)
    ensures
        final(ui)@ == set_window_vscroll_step(old(ui)@, views(args@)).state,
        outcome(r) == set_window_vscroll_step(old(ui)@, views(args@)).end,
{
    expect_args_range("set-window-vscroll", args, 2, 4)?;
    let _found = resolve_window_id_with_pred(ui, &arg_or_nil(args, 0), "window-live-p")?;
    match &args[1] {
        Value::Int(_) => Ok(Value::Int(0)),
        Value::Float(_) => Ok(Value::Int(0)),
        other => Err(wrong_type_argument("numberp", other)),
    }
}

/// What setting the margins of a window does; the result says whether they changed.
pub open spec fn margins_set(s: UiState, f: u64, w: u64, args: Seq<Lisp>) -> Step {
    match margin_arg(arg(args, 1)) {
        Found::Is(left) => match margin_arg(arg(args, 2)) {
            Found::Is(right) => match s.frames.window(f, w) {
                Some(Window::Leaf(l)) => if l.left_margin == left && l.right_margin == right {
                    gives(s, Lisp::Nil)
                } else {
                    gives(
                        s.with_frames(
                            s.frames.with_leaf(
                                f,
                                w,
                                Leaf { left_margin: left, right_margin: right, ..l },
                            ),
                        ),
                        Lisp::True,
                    )
                },
                _ => gives(s, Lisp::Nil),
            },
            Found::Signal(o) => ends(s, o),
        },
        Found::Signal(o) => ends(s, o),
    }
}

/// `(set-window-margins WINDOW LEFT-WIDTH &optional RIGHT-WIDTH)`
pub open spec fn set_window_margins_step(st: UiState, args: Seq<Lisp>) -> Step {
    with_arity(
        st,
        "set-window-margins"@,
        args,
        2,
        3,
        on_window(
            st,
            arg(args, 0),
            "window-live-p"@,
            |s: UiState, f: u64, w: u64| margins_set(s, f, w, args),
        ),
    )
}

/// `(set-window-margins WINDOW LEFT-WIDTH &optional RIGHT-WIDTH)` -> changed-p.
pub fn builtin_set_window_margins(ui: &mut Ui, args: &Vec<Value>) -> (r: EvalResult)
    ensures
        final(ui)@ == set_window_margins_step(old(ui)@, views(args@)).state,
        outcome(r) == set_window_margins_step(old(ui)@, views(args@)).end,
{
    expect_args_range("set-window-margins", args, 2, 3)?;
    let (f, w) = resolve_window_id_with_pred(ui, &arg_or_nil(args, 0), "window-live-p")?;
    let left: usize = expect_margin_width(&arg_or_nil(args, 1))?;
    let right: usize = expect_margin_width(&arg_or_nil(args, 2))?;
    match ui.frames.find_window(f, w) {
        Some(Window::Leaf(l)) => {
            if l.left_margin != left || l.right_margin != right {
                let mut new: Leaf = l;
                new.left_margin = left;
                new.right_margin = right;
                ui.frames.set_leaf(f, w, new);
                return Ok(Value::True);
            }
            Ok(Value::Nil)
        },
        _ => Ok(Value::Nil),
    }
}

/// The width of a margin as a value: `nil` for none.
pub open spec fn margin_value(n: usize) -> Lisp {
    if n == 0 {
        Lisp::Nil
    } else {
        Lisp::Int(n as i64)
    }
}

/// The width of a margin as a value.
fn margin_width(n: usize) -> (r: Value)
    ensures
        r@ == margin_value(n),
{
    if n == 0 {
        Value::Nil
    } else {
        Value::Int(n as i64)
    }
}

/// `(window-margins &optional WINDOW)`
pub open spec fn window_margins_step(st: UiState, args: Seq<Lisp>) -> Step {
    with_arity(
        st,
        "window-margins"@,
        args,
        0,
        1,
        on_window(
            booted(st),
            arg(args, 0),
            "window-live-p"@,
            |s: UiState, f: u64, w: u64|
                match window_in(s.frames, f, w) {
                    Found::Is(Window::Leaf(l)) => gives(
                        s,
                        cons(margin_value(l.left_margin), margin_value(l.right_margin)),
                    ),
                    Found::Is(Window::Internal(_)) => gives(s, cons(Lisp::Nil, Lisp::Nil)),
                    Found::Signal(o) => ends(s, o),
                },
        ),
    )
}

/// `(window-margins &optional WINDOW)` -> margins pair.
pub fn builtin_window_margins(ui: &mut Ui, args: &Vec<Value>) -> (r: EvalResult)
    ensures
        final(ui)@ == window_margins_step(old(ui)@, views(args@)).state,
        outcome(r) == window_margins_step(old(ui)@, views(args@)).end,
{
    let (f, w) = take_live_window(ui, "window-margins", args, 1)?;
    match get_window(&ui.frames, f, w)? {
        Window::Leaf(l) => Ok(
            Value::cons(margin_width(l.left_margin), margin_width(l.right_margin)),
        ),
        Window::Internal(_) => Ok(Value::cons(Value::Nil, Value::Nil)),
    }
}

/// `(window-fringes &optional WINDOW)`
pub open spec fn window_fringes_step(st: UiState, args: Seq<Lisp>) -> Step {
    with_arity(
        st,
        "window-fringes"@,
        args,
        0,
        1,
        on_window(
            booted(st),
            arg(args, 0),
            "window-live-p"@,
            |s: UiState, f: u64, w: u64|
                gives(s, list4(Lisp::Int(0), Lisp::Int(0), Lisp::Nil, Lisp::Nil)),
        ),
    )
}

/// `(window-fringes &optional WINDOW)` -> fringe tuple; the fringes have no width.
pub fn builtin_window_fringes(ui: &mut Ui, args: &Vec<Value>) -> (r: EvalResult)
    ensures
        final(ui)@ == window_fringes_step(old(ui)@, views(args@)).state,
        outcome(r) == window_fringes_step(old(ui)@, views(args@)).end,
{
    let _found = take_live_window(ui, "window-fringes", args, 1)?;
    Ok(Value::list4(Value::Int(0), Value::Int(0), Value::Nil, Value::Nil))
}

/// A setter that only looks at its window.
pub open spec fn ignored_step(
    st: UiState,
    name: Seq<char>,
    args: Seq<Lisp>,
    min: int,
    max: int,
) -> Step {
    with_arity(
        st,
        name,
        args,
        min,
        max,
        on_window(
            st,
            arg(args, 0),
            "window-live-p"@,
            |s: UiState, f: u64, w: u64| gives(s, Lisp::Nil),
        ),
    )
}

/// `(set-window-fringes WINDOW LEFT &optional RIGHT OUTSIDE-MARGINS PERSISTENT)` -> nil.
pub fn builtin_set_window_fringes(ui: &mut Ui, args: &Vec<Value>) -> (r: EvalResult)
    ensures
        ({
            let step = ignored_step(old(ui)@, "set-window-fringes"@, views(args@), 2, 5);
            final(ui)@ == step.state && outcome(r) == step.end
        }),
{
    expect_args_range("set-window-fringes", args, 2, 5)?;
    let _found = resolve_window_id_with_pred(ui, &arg_or_nil(args, 0), "window-live-p")?;
    Ok(Value::Nil)
}

/// The scroll bars of a window: none, of the default sizes.
pub open spec fn no_scroll_bars() -> Lisp {
    cons(
        Lisp::Nil,
        cons(
            Lisp::Int(0),
            cons(Lisp::True, list4(Lisp::Nil, Lisp::Int(0), Lisp::True, Lisp::Nil)),
        ),
    )
}

/// `(window-scroll-bars &optional WINDOW)`
pub open spec fn window_scroll_bars_step(st: UiState, args: Seq<Lisp>) -> Step {
    with_arity(
        st,
        "window-scroll-bars"@,
        args,
        0,
        1,
        on_window(
            booted(st),
            arg(args, 0),
            "window-live-p"@,
            |s: UiState, f: u64, w: u64| gives(s, no_scroll_bars()),
        ),
    )
}

/// `(window-scroll-bars &optional WINDOW)` -> scroll-bar tuple.
pub fn builtin_window_scroll_bars(ui: &mut Ui, args: &Vec<Value>) -> (r: EvalResult)
    ensures
        final(ui)@ == window_scroll_bars_step(old(ui)@, views(args@)).state,
        outcome(r) == window_scroll_bars_step(old(ui)@, views(args@)).end,
{
    let _found = take_live_window(ui, "window-scroll-bars", args, 1)?;
    let rest: Value = Value::list4(Value::Nil, Value::Int(0), Value::True, Value::Nil);
    Ok(
        Value::cons(
            Value::Nil,
            Value::cons(Value::Int(0), Value::cons(Value::True, rest)),
        ),
    )
}

/// `(set-window-scroll-bars WINDOW &optional WIDTH VERTICAL-TYPE HEIGHT HORIZONTAL-TYPE)` -> nil.
pub fn builtin_set_window_scroll_bars(ui: &mut Ui, args: &Vec<Value>) -> (r: EvalResult)
    ensures
        ({
            let step = ignored_step(old(ui)@, "set-window-scroll-bars"@, views(args@), 1, 6);
            final(ui)@ == step.state && outcome(r) == step.end
        }),
{
    expect_args_range("set-window-scroll-bars", args, 1, 6)?;
    let _found = resolve_window_id_with_pred(ui, &arg_or_nil(args, 0), "window-live-p")?;
    Ok(Value::Nil)
}

/// The error for a combination limit of a window that shows a buffer.
pub open spec fn no_combination() -> Outcome {
    error_outcome("Combination limit is meaningful for internal windows only"@)
}

/// Raises the error for a combination limit of a window that shows a buffer.
fn no_combination_error() -> (r: Flow)
    ensures
        crate::value::signalled(r) == no_combination(),
{
    error_signal("Combination limit is meaningful for internal windows only")
}

/// `(window-combination-limit WINDOW)`
pub open spec fn window_combination_limit_step(st: UiState, args: Seq<Lisp>) -> Step {
    with_arity(
        st,
        "window-combination-limit"@,
        args,
        1,
        1,
        on_window(
            booted(st),
            arg(args, 0),
            "window-valid-p"@,
            |s: UiState, f: u64, w: u64|
                match window_in(s.frames, f, w) {
                    Found::Is(Window::Internal(c)) => gives(s, lbool(c.combination_limit)),
                    Found::Is(Window::Leaf(_)) => ends(s, no_combination()),
                    Found::Signal(o) => ends(s, o),
                },
        ),
    )
}

/// `(window-combination-limit WINDOW)` -> nil or t.
pub fn builtin_window_combination_limit(ui: &mut Ui, args: &Vec<Value>) -> (r: EvalResult)
    ensures
        final(ui)@ == window_combination_limit_step(old(ui)@, views(args@)).state,
        outcome(r) == window_combination_limit_step(old(ui)@, views(args@)).end,
{
    expect_args("window-combination-limit", args, 1)?;
    let _id: u64 = ensure_selected_frame_id(ui);
    let (f, w) = resolve_window_id_with_pred(ui, &arg_or_nil(args, 0), "window-valid-p")?;
    match get_window(&ui.frames, f, w)? {
        Window::Internal(c) => Ok(Value::bool_val(c.combination_limit)),
        Window::Leaf(_) => Err(no_combination_error()),
    }
}

/// The frames with the limit of a combination set.
pub open spec fn limited(frames: Frames, f: u64, w: u64, limit: bool) -> Frames {
    match frames.get(f) {
        Some(frame) => frames.with_frame(
            f,
            crate::frame::FrameState { root: with_limit(frame.root, w, limit), ..frame },
        ),
        None => frames,
    }
}

/// `(set-window-combination-limit WINDOW LIMIT)`
pub open spec fn set_window_combination_limit_step(st: UiState, args: Seq<Lisp>) -> Step {
    with_arity(
        st,
        "set-window-combination-limit"@,
        args,
        2,
        2,
        on_window(
            booted(st),
            arg(args, 0),
            "window-valid-p"@,
            |s: UiState, f: u64, w: u64|
                match window_in(s.frames, f, w) {
                    Found::Is(Window::Internal(_)) => gives(
                        s.with_frames(limited(s.frames, f, w, arg(args, 1) != Lisp::Nil)),
                        arg(args, 1),
                    ),
                    Found::Is(Window::Leaf(_)) => ends(s, no_combination()),
                    Found::Signal(o) => ends(s, o),
                },
        ),
    )
}

/// `(set-window-combination-limit WINDOW LIMIT)` -> LIMIT.
pub fn builtin_set_window_combination_limit(ui: &mut Ui, args: &Vec<Value>) -> (r: EvalResult)
    ensures
        final(ui)@ == set_window_combination_limit_step(old(ui)@, views(args@)).state,
        outcome(r) == set_window_combination_limit_step(old(ui)@, views(args@)).end,
{
    expect_args("set-window-combination-limit", args, 2)?;
    let _id: u64 = ensure_selected_frame_id(ui);
    let (f, w) = resolve_window_id_with_pred(ui, &arg_or_nil(args, 0), "window-valid-p")?;
    match get_window(&ui.frames, f, w)? {
        Window::Internal(_) => {
            ui.frames.set_combination_limit(f, w, args[1].is_truthy());
            Ok(args[1].copy())
        },
        Window::Leaf(_) => Err(no_combination_error()),
    }
}

impl FrameManager {
    /// Sets the limit of a combination.
    fn set_combination_limit(&mut self, f: u64, w: u64, limit: bool)
        ensures
            final(self)@ == limited(old(self)@, f, w, limit),
    {
        let i: usize = self.index_of(f);
        let ghost before = self@;
        if i < self.list.len() {
            let root = self.list[i].root.with_limit(w, limit);
            self.list[i].set_root(root);
            proof {
                assert(self@.list =~= limited(before, f, w, limit).list);
                assert(self@.records =~= before.records);
            }
        }
    }
}

} // verus!
