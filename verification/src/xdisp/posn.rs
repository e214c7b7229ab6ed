//! Positions of points on the screen.
use crate::frame::{FrameManager, Frames};
use crate::snapshot::{covering, drawn_in, extent, DisplayPointSnapshot};
use crate::value::{
    arg, arg_or_nil, cons, expect_args_range, outcome, views, wrong_type, wrong_type_argument,
    EvalResult, Flow, Lisp, Outcome, Value,
};
use crate::window::Rect;
use crate::window_cmds::resolve::{found, Found};
use crate::window_cmds::state::{Ui, UiState};
use crate::xdisp::designator::{optional_window, validate_optional_window_designator};
use crate::xdisp::simple::of_arity;
use crate::xdisp::visible::{
    exact_place, live_identity, resolve_exact_visible_metrics, resolve_live_window_identity,
};
use vstd::prelude::*;

verus! {

/// The position list of a point that was drawn in a window:
/// `(WINDOW POS (X . Y) 0 nil POS (COL . ROW) nil (0 . 0) (WIDTH . HEIGHT))`.
pub open spec fn text_position(window: u64, p: DisplayPointSnapshot) -> Lisp {
    let pos = Lisp::Int(p.buffer_pos as i64);
    cons(
        Lisp::Window(window),
        cons(
            pos,
            cons(
                cons(Lisp::Int(p.x), Lisp::Int(p.y)),
                cons(
                    Lisp::Int(0),
                    cons(
                        Lisp::Nil,
                        cons(
                            pos,
                            cons(
                                cons(Lisp::Int(p.col), Lisp::Int(p.row)),
                                cons(
                                    Lisp::Nil,
                                    cons(
                                        cons(Lisp::Int(0), Lisp::Int(0)),
                                        cons(
                                            cons(
                                                Lisp::Int(extent(p.width) as i64),
                                                Lisp::Int(extent(p.height) as i64),
                                            ),
                                            Lisp::Nil,
                                        ),
                                    ),
                                ),
                            ),
                        ),
                    ),
                ),
            ),
        ),
    )
}

/// A size, at least one.
fn at_least_one(n: i64) -> (r: i64)
    ensures
        r == extent(n),
{
    if n < 1 {
        1
    } else {
        n
    }
}

/// The position list of a point that was drawn in a window.
fn make_text_area_position(window: u64, p: &DisplayPointSnapshot) -> (r: Value)
    ensures
        r@ == text_position(window, *p),
{
    let size: Value = Value::cons(
        Value::Int(at_least_one(p.width)),
        Value::Int(at_least_one(p.height)),
    );
    let end: Value = Value::list3(
        Value::Nil,
        Value::cons(Value::Int(0), Value::Int(0)),
        size,
    );
    let cell: Value = Value::cons(
        Value::cons(Value::Int(p.col), Value::Int(p.row)),
        end,
    );
    let again: Value = Value::cons(Value::Int(p.buffer_pos as i64), cell);
    let middle: Value = Value::cons(Value::Int(0), Value::cons(Value::Nil, again));
    let place: Value = Value::cons(
        Value::cons(Value::Int(p.x), Value::Int(p.y)),
        middle,
    );
    let window_value: Value = Value::Window(window);
    proof {
        assert(window_value@ == Lisp::Window(window));
    }
    Value::cons(window_value, Value::cons(Value::Int(p.buffer_pos as i64), place))
}

/// `(posn-at-point &optional POS WINDOW)`
pub open spec fn posn_at_point(st: UiState, args: Seq<Lisp>) -> Outcome {
    of_arity(
        "posn-at-point"@,
        args,
        0,
        2,
        if !optional_window(st.frames, arg(args, 1)) {
            wrong_type("window-live-p"@, arg(args, 1))
        } else {
            match exact_place(st.frames, st.buffers, arg(args, 1), arg(args, 0)) {
                Found::Signal(o) => o,
                Found::Is(Some((w, p))) => Outcome::Value(text_position(w, p)),
                Found::Is(None) => Outcome::Value(Lisp::Nil),
            }
        },
    )
}

/// `(posn-at-point &optional POS WINDOW)` -> the position list of POS; nil where it
/// was not drawn.
pub fn builtin_posn_at_point(ui: &Ui, args: &Vec<Value>) -> (r: EvalResult)
    ensures
        outcome(r) == posn_at_point(ui@, views(args@)),
{
    expect_args_range("posn-at-point", args, 0, 2)?;
    let window: Value = arg_or_nil(args, 1);
    validate_optional_window_designator(&ui.frames, &window, "window-live-p")?;
    let exact: Option<(u64, DisplayPointSnapshot)> = resolve_exact_visible_metrics(
        &ui.frames,
        &ui.buffers,
        &window,
        &arg_or_nil(args, 0),
    )?;
    match exact {
        Some((w, p)) => Ok(make_text_area_position(w, &p)),
        None => Ok(Value::Nil),
    }
}

/// The window that coordinates are in, and whether they are relative to it: a
/// window, else the selected window of the frame with the number. A window that
/// is in no frame is an error.
pub open spec fn xy_window(frames: Frames, a: Lisp) -> Found<Option<(u64, u64, bool)>> {
    match live_identity(frames, a) {
        Found::Signal(o) => Found::Signal(o),
        Found::Is(Some((f, w))) => Found::Is(Some((f, w, true))),
        Found::Is(None) => match a {
            Lisp::Nil => Found::Is(None),
            Lisp::Int(n) => Found::Is(
                match frames.get(n as u64) {
                    Some(frame) => Some((n as u64, frame.selected_window, false)),
                    None => None,
                },
            ),
            _ => Found::Signal(wrong_type("framep"@, a)),
        },
    }
}

/// The window that coordinates are in, and whether they are relative to it.
fn resolve_posn_at_xy_window(frames: &FrameManager, a: &Value) -> (r: Result<
    Option<(u64, u64, bool)>,
    Flow,
>)
    ensures
        found(r) == xy_window(frames@, a@),
{
    let at: Option<(u64, u64)> = resolve_live_window_identity(frames, a)?;
    match at {
        Some((f, w)) => Ok(Some((f, w, true))),
        None => match a {
            Value::Nil => Ok(None),
            Value::Int(n) => Ok(
                match frames.get(*n as u64) {
                    Some(frame) => Some((*n as u64, frame.selected_window, false)),
                    None => None,
                },
            ),
            _ => Err(wrong_type_argument("framep", a)),
        },
    }
}

/// Coordinates relative to the text of a window.
pub open spec fn text_coordinates(
    x: i64,
    y: i64,
    relative: bool,
    whole: bool,
    bounds: Rect,
    left: i64,
) -> (int, int) {
    if relative {
        (
            if whole {
                x - left
            } else {
                x as int
            },
            y as int,
        )
    } else {
        (x - bounds.x - left, y - bounds.y)
    }
}

/// What was drawn at some coordinates of the window that an argument stands for.
pub open spec fn drawn_at_xy(frames: Frames, x: i64, y: i64, a: Lisp, whole: bool) -> Outcome {
    match xy_window(frames, a) {
        Found::Signal(o) => o,
        Found::Is(None) => Outcome::Value(Lisp::Nil),
        Found::Is(Some((f, w, relative))) => Outcome::Value(
            match frames.get(f) {
                Some(frame) => match drawn_in(frame.drawn, w) {
                    Some(d) => match frame.window(w) {
                        Some(win) => {
                            let (tx, ty) = text_coordinates(
                                x,
                                y,
                                relative,
                                whole,
                                win.rect(),
                                d.left,
                            );
                            match covering(d.points, tx, ty) {
                                Some(p) => text_position(w, p),
                                None => Lisp::Nil,
                            }
                        },
                        None => Lisp::Nil,
                    },
                    None => Lisp::Nil,
                },
                None => Lisp::Nil,
            },
        ),
    }
}

/// `(posn-at-x-y X Y &optional FRAME-OR-WINDOW WHOLE)`
pub open spec fn posn_at_x_y(st: UiState, args: Seq<Lisp>) -> Outcome {
    of_arity(
        "posn-at-x-y"@,
        args,
        2,
        4,
        match arg(args, 0) {
            Lisp::Int(x) => match arg(args, 1) {
                Lisp::Int(y) => drawn_at_xy(
                    st.frames,
                    x,
                    y,
                    arg(args, 2),
                    arg(args, 3) != Lisp::Nil,
                ),
                _ => wrong_type("fixnump"@, arg(args, 1)),
            },
            _ => wrong_type("fixnump"@, arg(args, 0)),
        },
    )
}

/// `(posn-at-x-y X Y &optional FRAME-OR-WINDOW WHOLE)` -> the position list of what
/// was drawn there; nil where nothing was.
pub fn builtin_posn_at_x_y(ui: &Ui, args: &Vec<Value>) -> (r: EvalResult)
    ensures
        outcome(r) == posn_at_x_y(ui@, views(args@)),
{
    expect_args_range("posn-at-x-y", args, 2, 4)?;
    let x: i64 = match arg_or_nil(args, 0).as_int() {
        Some(n) => n,
        None => {
            return Err(wrong_type_argument("fixnump", &arg_or_nil(args, 0)));
        },
    };
    let y: i64 = match arg_or_nil(args, 1).as_int() {
        Some(n) => n,
        None => {
            return Err(wrong_type_argument("fixnump", &arg_or_nil(args, 1)));
        },
    };
    let whole: bool = arg_or_nil(args, 3).is_truthy();
    let at: Option<(u64, u64, bool)> = resolve_posn_at_xy_window(
        &ui.frames,
        &arg_or_nil(args, 2),
    )?;
    match at {
        None => Ok(Value::Nil),
        Some((f, w, relative)) => match ui.frames.get(f) {
            Some(frame) => match frame.window_display_snapshot(w) {
                Some(d) => match frame.find_window(w) {
                    Some(win) => {
                        let bounds: Rect = win.bounds();
                        let left: i128 = d.text_area_left_offset as i128;
                        let tx: i128 = if !relative {
                            x as i128 - bounds.x as i128 - left
                        } else if whole {
                            x as i128 - left
                        } else {
                            x as i128
                        };
                        let ty: i128 = if relative {
                            y as i128
                        } else {
                            y as i128 - bounds.y as i128
                        };
                        match d.point_at_coords(tx, ty) {
                            Some(p) => Ok(make_text_area_position(w, &p)),
                            None => Ok(Value::Nil),
                        }
                    },
                    None => Ok(Value::Nil),
                },
                None => Ok(Value::Nil),
            },
            None => Ok(Value::Nil),
        },
    }
}

} // verus!
