//! Builtins on the positions at which a window shows its buffer.
use crate::buffer::{Buffer, BufferManager, BufferState, Buffers};
use crate::frame::{cell_count, cells, FrameManager, Frames};
use crate::value::outcome;
use crate::value::{
    arg, arg_or_nil, error_outcome, error_signal, expect_args, expect_args_range, expect_max_args,
    views, EvalResult, Lisp, Value,
};
use crate::window::{Leaf, Window};
use crate::window_cmds::args::{
    parse_integer_or_marker_arg, position_arg, IntegerOrMarkerArg,
};
use crate::window_cmds::query::{is_minibuffer, is_minibuffer_window, on_window, with_arity};
use crate::window_cmds::resolve::{
    get_window, resolve_window_id_with_pred, window_in, Found,
};
use crate::window_cmds::state::{
    booted, ends, ensure_selected_frame_id, gives, Step, Ui, UiState,
};
use vstd::prelude::*;

verus! {

/// A builtin that gives a number of a window: `leaf` of a window that shows a
/// buffer, `other` of any other one.
pub open spec fn leaf_number(
    s: UiState,
    f: u64,
    w: u64,
    leaf: spec_fn(Leaf) -> Lisp,
    other: Lisp,
) -> Step {
    match window_in(s.frames, f, w) {
        Found::Is(Window::Leaf(l)) => gives(s, leaf(l)),
        Found::Is(Window::Internal(_)) => gives(s, other),
        Found::Signal(o) => ends(s, o),
    }
}

/// `(window-start &optional WINDOW)`
pub open spec fn window_start_step(st: UiState, args: Seq<Lisp>) -> Step {
    with_arity(
        st,
        "window-start"@,
        args,
        0,
        1,
        on_window(
            st,
            arg(args, 0),
            "window-live-p"@,
            |s: UiState, f: u64, w: u64|
                leaf_number(
                    s,
                    f,
                    w,
                    |l: Leaf| Lisp::Int(l.window_start as i64),
                    Lisp::Int(0),
                ),
        ),
    )
}

/// `(window-start &optional WINDOW)` -> integer position.
pub fn builtin_window_start(ui: &mut Ui, args: &Vec<Value>) -> (r: EvalResult)
    ensures
        final(ui)@ == window_start_step(old(ui)@, views(args@)).state,
        outcome(r) == window_start_step(old(ui)@, views(args@)).end,
{
    expect_max_args("window-start", args, 1)?;
    let (f, w) = resolve_window_id_with_pred(ui, &arg_or_nil(args, 0), "window-live-p")?;
    match get_window(&ui.frames, f, w)? {
        Window::Leaf(l) => Ok(Value::Int(l.window_start as i64)),
        Window::Internal(_) => Ok(Value::Int(0)),
    }
}

/// `(window-group-start &optional WINDOW)`
pub open spec fn window_group_start_step(st: UiState, args: Seq<Lisp>) -> Step {
    with_arity(
        st,
        "window-group-start"@,
        args,
        0,
        1,
        on_window(
            st,
            arg(args, 0),
            "window-live-p"@,
            |s: UiState, f: u64, w: u64|
                if is_minibuffer(s.frames, f, w) {
                    gives(s, Lisp::Int(1))
                } else {
                    leaf_number(
                        s,
                        f,
                        w,
                        |l: Leaf| Lisp::Int(l.window_start as i64),
                        Lisp::Int(1),
                    )
                },
        ),
    )
}

/// `(window-group-start &optional WINDOW)` -> integer position.
pub fn builtin_window_group_start(ui: &mut Ui, args: &Vec<Value>) -> (r: EvalResult)
    ensures
        final(ui)@ == window_group_start_step(old(ui)@, views(args@)).state,
        outcome(r) == window_group_start_step(old(ui)@, views(args@)).end,
{
    expect_max_args("window-group-start", args, 1)?;
    let (f, w) = resolve_window_id_with_pred(ui, &arg_or_nil(args, 0), "window-live-p")?;
    if is_minibuffer_window(&ui.frames, f, w) {
        return Ok(Value::Int(1));
    }
    match get_window(&ui.frames, f, w)? {
        Window::Leaf(l) => Ok(Value::Int(l.window_start as i64)),
        Window::Internal(_) => Ok(Value::Int(1)),
    }
}

/// `(window-point &optional WINDOW)`
pub open spec fn window_point_step(st: UiState, args: Seq<Lisp>) -> Step {
    with_arity(
        st,
        "window-point"@,
        args,
        0,
        1,
        on_window(
            st,
            arg(args, 0),
            "window-live-p"@,
            |s: UiState, f: u64, w: u64|
                leaf_number(s, f, w, |l: Leaf| Lisp::Int(l.point as i64), Lisp::Int(0)),
        ),
    )
}

/// `(window-point &optional WINDOW)` -> integer position.
pub fn builtin_window_point(ui: &mut Ui, args: &Vec<Value>) -> (r: EvalResult)
    ensures
        final(ui)@ == window_point_step(old(ui)@, views(args@)).state,
        outcome(r) == window_point_step(old(ui)@, views(args@)).end,
{
    expect_max_args("window-point", args, 1)?;
    let (f, w) = resolve_window_id_with_pred(ui, &arg_or_nil(args, 0), "window-live-p")?;
    match get_window(&ui.frames, f, w)? {
        Window::Leaf(l) => Ok(Value::Int(l.point as i64)),
        Window::Internal(_) => Ok(Value::Int(0)),
    }
}

/// `(window-old-point &optional WINDOW)`
pub open spec fn window_old_point_step(st: UiState, args: Seq<Lisp>) -> Step {
    with_arity(
        st,
        "window-old-point"@,
        args,
        0,
        1,
        on_window(
            booted(st),
            arg(args, 0),
            "window-live-p"@,
            |s: UiState, f: u64, w: u64|
                leaf_number(
                    s,
                    f,
                    w,
                    |l: Leaf|
                        Lisp::Int(
                            if l.point < 1 {
                                1
                            } else {
                                l.point as i64
                            },
                        ),
                    Lisp::Int(1),
                ),
        ),
    )
}

/// `(window-old-point &optional WINDOW)` -> integer.
pub fn builtin_window_old_point(ui: &mut Ui, args: &Vec<Value>) -> (r: EvalResult)
    ensures
        final(ui)@ == window_old_point_step(old(ui)@, views(args@)).state,
        outcome(r) == window_old_point_step(old(ui)@, views(args@)).end,
{
    expect_max_args("window-old-point", args, 1)?;
    let _id: u64 = ensure_selected_frame_id(ui);
    let (f, w) = resolve_window_id_with_pred(ui, &arg_or_nil(args, 0), "window-live-p")?;
    match get_window(&ui.frames, f, w)? {
        Window::Leaf(l) => if l.point < 1 {
            Ok(Value::Int(1))
        } else {
            Ok(Value::Int(l.point as i64))
        },
        Window::Internal(_) => Ok(Value::Int(1)),
    }
}

/// The index in a text that comes after `left` more ends of lines.
pub open spec fn after_lines(codes: Seq<u32>, i: int, left: int) -> int
    decreases codes.len() - i,
{
    if left <= 0 || i < 0 || i >= codes.len() {
        i
    } else {
        after_lines(
            codes,
            i + 1,
            if codes[i] == 10 {
                left - 1
            } else {
                left
            },
        )
    }
}

/// The index in a text that comes after `left` more ends of lines.
pub fn index_after_lines(codes: &Vec<u32>, start: usize, lines: u64) -> (r: usize)
    ensures
        r == after_lines(codes@, start as int, lines as int),
        r == start || r <= codes@.len(),
{
    let mut i: usize = start;
    let mut left: u64 = lines;
    while left > 0 && i < codes.len()
        invariant
            i == start || i <= codes.len(),
            after_lines(codes@, i as int, left as int) == after_lines(
                codes@,
                start as int,
                lines as int,
            ),
        decreases codes.len() - i,
    {
        if codes[i] == 10 {
            left = left - 1;
        }
        i = i + 1;
    }
    i
}

/// How many lines of text a window shows: one less than its lines, which is the
/// mode line, but for the minibuffer window.
pub open spec fn body_lines(frames: Frames, f: u64, w: u64, l: Leaf) -> int {
    let lines = match frames.get(f) {
        Some(frame) => cells(l.bounds.height as int, frame.char_height),
        None => 0,
    };
    if is_minibuffer(frames, f, w) || lines == 0 {
        lines
    } else {
        lines - 1
    }
}

/// How many lines of text a window shows.
pub fn body_line_count(frames: &FrameManager, f: u64, w: u64, l: &Leaf) -> (r: u64)
    ensures
        r == body_lines(frames@, f, w, *l),
        r <= u32::MAX,
{
    let lines: u64 = match frames.get(f) {
        Some(frame) => cell_count(l.bounds.height as u64, frame.char_height),
        None => 0,
    };
    if is_minibuffer_window(frames, f, w) || lines == 0 {
        lines
    } else {
        lines - 1
    }
}

/// The position after the text that a window shows.
pub open spec fn end_position(b: BufferState, start: int, lines: int) -> int {
    let from = if start > 0 {
        start - 1
    } else {
        0
    };
    let end = after_lines(b.codes(), from, lines);
    if end < b.codes().len() {
        end + 1
    } else {
        b.codes().len() as int + 1
    }
}

/// The position after the text that a window shows.
fn window_end_position(b: &Buffer, start: usize, lines: u64) -> (r: i64)
    ensures
        r == end_position(b@, start as int, lines as int) as i64,
{
    let codes: Vec<u32> = b.codes();
    let from: usize = if start > 0 {
        start - 1
    } else {
        0
    };
    let end: usize = index_after_lines(&codes, from, lines);
    let last: usize = if end < codes.len() {
        end
    } else {
        codes.len()
    };
    (last as i128 + 1) as i64
}

/// `(window-end &optional WINDOW UPDATE)`
pub open spec fn window_end_step(st: UiState, args: Seq<Lisp>) -> Step {
    with_arity(
        st,
        "window-end"@,
        args,
        0,
        2,
        on_window(
            st,
            arg(args, 0),
            "window-live-p"@,
            |s: UiState, f: u64, w: u64|
                leaf_number(
                    s,
                    f,
                    w,
                    |l: Leaf|
                        Lisp::Int(
                            match s.buffers.get(l.buffer_id) {
                                Some(b) => end_position(
                                    b,
                                    l.window_start as int,
                                    body_lines(s.frames, f, w, l),
                                ) as i64,
                                None => l.window_start as i64,
                            },
                        ),
                    Lisp::Int(0),
                ),
        ),
    )
}

/// `(window-end &optional WINDOW UPDATE)` -> integer position.
pub fn builtin_window_end(ui: &mut Ui, args: &Vec<Value>) -> (r: EvalResult)
    ensures
        final(ui)@ == window_end_step(old(ui)@, views(args@)).state,
        outcome(r) == window_end_step(old(ui)@, views(args@)).end,
{
    expect_max_args("window-end", args, 2)?;
    let (f, w) = resolve_window_id_with_pred(ui, &arg_or_nil(args, 0), "window-live-p")?;
    match get_window(&ui.frames, f, w)? {
        Window::Leaf(l) => {
            let lines: u64 = body_line_count(&ui.frames, f, w, &l);
            match ui.buffers.get(l.buffer_id) {
                Some(b) => Ok(Value::Int(window_end_position(b, l.window_start, lines))),
                None => Ok(Value::Int(l.window_start as i64)),
            }
        },
        Window::Internal(_) => Ok(Value::Int(0)),
    }
}

/// A position kept inside the buffer of a window; none for a position below one.
pub open spec fn clamped_position(
    frames: Frames,
    buffers: Buffers,
    f: u64,
    w: u64,
    pos: int,
) -> Option<int> {
    if pos <= 0 {
        None
    } else {
        let requested = if pos <= usize::MAX {
            pos
        } else {
            usize::MAX as int
        };
        match frames.window(f, w) {
            Some(Window::Leaf(l)) => match buffers.get(l.buffer_id) {
                Some(b) => if requested <= b.codes().len() + 1 {
                    Some(requested)
                } else {
                    Some(b.codes().len() as int + 1)
                },
                None => Some(requested),
            },
            _ => Some(requested),
        }
    }
}

/// A position kept inside the buffer of a window; none for a position below one.
pub fn clamped_window_position(
    frames: &FrameManager,
    buffers: &BufferManager,
    f: u64,
    w: u64,
    pos: i128,
) -> (r: Option<usize>)
    ensures
        match r {
            Some(n) => clamped_position(frames@, buffers@, f, w, pos as int) == Some(n as int),
            None => clamped_position(frames@, buffers@, f, w, pos as int) is None,
        },
{
    if pos <= 0 {
        return None;
    }
    let requested: usize = if pos <= usize::MAX as i128 {
        pos as usize
    } else {
        usize::MAX
    };
    match frames.find_window(f, w) {
        Some(Window::Leaf(l)) => match buffers.get(l.buffer_id) {
            Some(b) => {
                let n: usize = b.char_count();
                if requested <= n || requested - n <= 1 {
                    Some(requested)
                } else {
                    Some(n + 1)
                }
            },
            None => Some(requested),
        },
        _ => Some(requested),
    }
}

/// The session with the start or the point of a window set to a position, kept
/// inside its buffer.
pub open spec fn positioned(
    s: UiState,
    f: u64,
    w: u64,
    pos: int,
    start: bool,
    point: bool,
) -> UiState {
    match clamped_position(s.frames, s.buffers, f, w, pos) {
        Some(n) => match s.frames.window(f, w) {
            Some(Window::Leaf(l)) => s.with_frames(
                s.frames.with_leaf(
                    f,
                    w,
                    Leaf {
                        window_start: if start {
                            n as usize
                        } else {
                            l.window_start
                        },
                        point: if point {
                            n as usize
                        } else {
                            l.point
                        },
                        ..l
                    },
                ),
            ),
            _ => s,
        },
        None => s,
    }
}

/// Sets the start or the point of a window to a position, kept inside its buffer.
pub fn set_position(ui: &mut Ui, f: u64, w: u64, pos: i128, start: bool, point: bool)
    ensures
        final(ui)@ == positioned(old(ui)@, f, w, pos as int, start, point),
{
    match clamped_window_position(&ui.frames, &ui.buffers, f, w, pos) {
        Some(n) => match ui.frames.find_window(f, w) {
            Some(Window::Leaf(l)) => {
                let mut new: Leaf = l;
                if start {
                    new.window_start = n;
                }
                if point {
                    new.point = n;
                }
                ui.frames.set_leaf(f, w, new);
            },
            _ => {},
        },
        None => {},
    }
}

/// What setting the start of a window does. The minibuffer window keeps its start.
pub open spec fn start_set(
    s: UiState,
    f: u64,
    w: u64,
    a: Lisp,
    marker_moves_point: bool,
) -> Step {
    match position_arg(a) {
        Found::Is(IntegerOrMarkerArg::Int(n)) => gives(
            if is_minibuffer(s.frames, f, w) {
                s
            } else {
                positioned(s, f, w, n as int, true, false)
            },
            a,
        ),
        Found::Is(IntegerOrMarkerArg::Marker(p)) => gives(
            match p {
                Some(n) => if is_minibuffer(s.frames, f, w) {
                    s
                } else {
                    positioned(s, f, w, n as int, true, marker_moves_point)
                },
                None => s,
            },
            a,
        ),
        Found::Signal(o) => ends(s, o),
    }
}

/// Sets the start of a window.
fn set_start(ui: &mut Ui, f: u64, w: u64, a: &Value, marker_moves_point: bool) -> (r: EvalResult)
    ensures
        final(ui)@ == start_set(old(ui)@, f, w, a@, marker_moves_point).state,
        outcome(r) == start_set(old(ui)@, f, w, a@, marker_moves_point).end,
{
    let pos = parse_integer_or_marker_arg(a)?;
    if !is_minibuffer_window(&ui.frames, f, w) {
        match pos {
            IntegerOrMarkerArg::Int(n) => {
                set_position(ui, f, w, n as i128, true, false);
            },
            IntegerOrMarkerArg::Marker(p) => match p {
                Some(n) => {
                    set_position(ui, f, w, n as i128, true, marker_moves_point);
                },
                None => {},
            },
        }
    }
    Ok(a.copy())
}

/// `(set-window-start WINDOW POS &optional NOFORCE)`
pub open spec fn set_window_start_step(st: UiState, args: Seq<Lisp>) -> Step {
    with_arity(
        st,
        "set-window-start"@,
        args,
        2,
        3,
        on_window(
            st,
            arg(args, 0),
            "window-live-p"@,
            |s: UiState, f: u64, w: u64| start_set(s, f, w, arg(args, 1), false),
        ),
    )
}

/// `(set-window-start WINDOW POS &optional NOFORCE)` -> POS.
pub fn builtin_set_window_start(ui: &mut Ui, args: &Vec<Value>) -> (r: EvalResult)
    ensures
        final(ui)@ == set_window_start_step(old(ui)@, views(args@)).state,
        outcome(r) == set_window_start_step(old(ui)@, views(args@)).end,
{
    expect_args_range("set-window-start", args, 2, 3)?;
    let (f, w) = resolve_window_id_with_pred(ui, &arg_or_nil(args, 0), "window-live-p")?;
    set_start(ui, f, w, &args[1], false)
}

/// `(set-window-group-start WINDOW POS &optional NOFORCE)`
pub open spec fn set_window_group_start_step(st: UiState, args: Seq<Lisp>) -> Step {
    with_arity(
        st,
        "set-window-group-start"@,
        args,
        2,
        3,
        on_window(
            st,
            arg(args, 0),
            "window-live-p"@,
            |s: UiState, f: u64, w: u64| start_set(s, f, w, arg(args, 1), true),
        ),
    )
}

/// `(set-window-group-start WINDOW POS &optional NOFORCE)` -> POS.
pub fn builtin_set_window_group_start(ui: &mut Ui, args: &Vec<Value>) -> (r: EvalResult)
    ensures
        final(ui)@ == set_window_group_start_step(old(ui)@, views(args@)).state,
        outcome(r) == set_window_group_start_step(old(ui)@, views(args@)).end,
{
    expect_args_range("set-window-group-start", args, 2, 3)?;
    let (f, w) = resolve_window_id_with_pred(ui, &arg_or_nil(args, 0), "window-live-p")?;
    set_start(ui, f, w, &args[1], true)
}

/// What setting the point of a window does. The minibuffer window keeps its point.
/// For a marker the position that was set is the result.
pub open spec fn point_set(s: UiState, f: u64, w: u64, a: Lisp) -> Step {
    match position_arg(a) {
        Found::Is(IntegerOrMarkerArg::Int(n)) => gives(
            if is_minibuffer(s.frames, f, w) {
                s
            } else {
                positioned(s, f, w, n as int, false, true)
            },
            a,
        ),
        Found::Is(IntegerOrMarkerArg::Marker(p)) => if is_minibuffer(s.frames, f, w) {
            gives(s, a)
        } else {
            match p {
                Some(n) => gives(
                    positioned(s, f, w, n as int, false, true),
                    Lisp::Int(
                        match clamped_position(s.frames, s.buffers, f, w, n as int) {
                            Some(c) => c as i64,
                            None => 1,
                        },
                    ),
                ),
                None => ends(s, error_outcome("Marker does not point anywhere"@)),
            }
        },
        Found::Signal(o) => ends(s, o),
    }
}

/// `(set-window-point WINDOW POS)`
pub open spec fn set_window_point_step(st: UiState, args: Seq<Lisp>) -> Step {
    with_arity(
        st,
        "set-window-point"@,
        args,
        2,
        2,
        on_window(
            st,
            arg(args, 0),
            "window-live-p"@,
            |s: UiState, f: u64, w: u64| point_set(s, f, w, arg(args, 1)),
        ),
    )
}

/// `(set-window-point WINDOW POS)` -> POS.
pub fn builtin_set_window_point(ui: &mut Ui, args: &Vec<Value>) -> (r: EvalResult)
    ensures
        final(ui)@ == set_window_point_step(old(ui)@, views(args@)).state,
        outcome(r) == set_window_point_step(old(ui)@, views(args@)).end,
{
    expect_args("set-window-point", args, 2)?;
    let (f, w) = resolve_window_id_with_pred(ui, &arg_or_nil(args, 0), "window-live-p")?;
    let mini: bool = is_minibuffer_window(&ui.frames, f, w);
    match parse_integer_or_marker_arg(&args[1])? {
        IntegerOrMarkerArg::Int(n) => {
            if !mini {
                set_position(ui, f, w, n as i128, false, true);
            }
            Ok(Value::Int(n))
        },
        IntegerOrMarkerArg::Marker(p) => {
            if mini {
                return Ok(args[1].copy());
            }
            match p {
                Some(n) => {
                    let clamped: Option<usize> = clamped_window_position(
                        &ui.frames,
                        &ui.buffers,
                        f,
                        w,
                        n as i128,
                    );
                    set_position(ui, f, w, n as i128, false, true);
                    match clamped {
                        Some(c) => Ok(Value::Int(c as i64)),
                        None => Ok(Value::Int(1)),
                    }
                },
                None => Err(error_signal("Marker does not point anywhere")),
            }
        },
    }
}

} // verus!
