//! Builtins that measure windows. The body of a window is all of it but the mode
//! line, which takes one line of every window but the minibuffer window.
use crate::frame::{cell_count, cells, FrameManager, FrameState, Frames};
use crate::value::outcome;
use crate::value::{
    arg, arg_or_nil, error_outcome, expect_max_args, list4, views, EvalResult, Flow, Lisp, Value,
};
use crate::window::{Combination, Rect, SplitDirection, Window};
use crate::window_cmds::query::{
    is_minibuffer, is_minibuffer_window, on_window, window_parent, with_arity,
};
use crate::window_cmds::resolve::{
    after, found, get_frame, get_window, resolve_window_id_or_window_error,
    resolve_window_id_with_pred, window_in, window_or_window_error_arg, Found,
};
use crate::window_cmds::state::{
    booted, ends, ensure_selected_frame_id, gives, Step, Ui, UiState,
};
use vstd::prelude::*;

verus! {

/// What the size of a window is counted from: where it is, the size of a cell of
/// its frame, whether that is on a window system, and whether it is the minibuffer window.
#[derive(Debug, Clone, Copy, PartialEq, Eq)]
pub struct Measure {
    pub rect: Rect,
    pub char_width: u32,
    pub char_height: u32,
    pub pixels: bool,
    pub minibuffer: bool,
}

/// What the size of a window is counted from.
pub open spec fn measure(f: FrameState, id: u64, w: Window) -> Measure {
    Measure {
        rect: w.rect(),
        char_width: f.char_width,
        char_height: f.char_height,
        pixels: f.on_window_system(),
        minibuffer: f.minibuffer_window == Some(id),
    }
}

/// The measure of a window of a frame, or the error for a missing one.
pub open spec fn measure_in(frames: Frames, f: u64, id: u64) -> Found<Measure> {
    match window_in(frames, f, id) {
        Found::Is(w) => Found::Is(measure(frames.get(f)->0, id, w)),
        Found::Signal(o) => Found::Signal(o),
    }
}

/// The measure of a window of a frame.
fn get_measure(frames: &FrameManager, f: u64, id: u64) -> (r: Result<Measure, Flow>)
    ensures
        found(r) == measure_in(frames@, f, id),
{
    let w: Window = get_window(frames, f, id)?;
    let frame = get_frame(frames, f)?;
    Ok(
        Measure {
            rect: w.bounds(),
            char_width: frame.char_width,
            char_height: frame.char_height,
            pixels: frame.uses_window_system(),
            minibuffer: is_minibuffer_window(frames, f, id),
        },
    )
}

impl Measure {
    /// The height in lines.
    pub open spec fn lines(self) -> int {
        cells(self.rect.height as int, self.char_height)
    }

    /// The width in columns.
    pub open spec fn columns(self) -> int {
        cells(self.rect.width as int, self.char_width)
    }

    /// The height of the body in lines.
    pub open spec fn body_lines(self) -> int {
        if self.minibuffer {
            self.lines()
        } else {
            self.lines() - 1
        }
    }

    /// The height of the body in pixels, or in lines on a terminal.
    pub open spec fn body_pixel_height(self) -> int {
        if !self.pixels {
            self.body_lines()
        } else if self.minibuffer {
            self.rect.height as int
        } else {
            self.rect.height - self.char_height
        }
    }

    /// The width in pixels, or in columns on a terminal.
    pub open spec fn pixel_width(self) -> int {
        if self.pixels {
            self.rect.width as int
        } else {
            self.columns()
        }
    }

    /// The height in pixels, or in lines on a terminal.
    pub open spec fn pixel_height(self) -> int {
        if self.pixels {
            self.rect.height as int
        } else {
            self.lines()
        }
    }

    /// The left edge in columns.
    pub open spec fn left(self) -> int {
        cells(self.rect.x as int, self.char_width)
    }

    /// The top edge in lines.
    pub open spec fn top(self) -> int {
        cells(self.rect.y as int, self.char_height)
    }

    /// The right edge in columns.
    pub open spec fn right(self) -> int {
        cells(self.rect.x + self.rect.width, self.char_width)
    }

    /// The bottom edge in lines.
    pub open spec fn bottom(self) -> int {
        cells(self.rect.y + self.rect.height, self.char_height)
    }

    /// The height in lines.
    pub fn height_lines(&self) -> (r: i64)
        ensures
            r == self.lines(),
            0 <= r <= u32::MAX,
    {
        cell_count(self.rect.height as u64, self.char_height) as i64
    }

    /// The width in columns.
    pub fn width_cols(&self) -> (r: i64)
        ensures
            r == self.columns(),
            0 <= r <= u32::MAX,
    {
        cell_count(self.rect.width as u64, self.char_width) as i64
    }

    /// The height of the body in lines.
    pub fn body_height_lines(&self) -> (r: i64)
        ensures
            r == self.body_lines(),
            -1 <= r <= u32::MAX,
    {
        if self.minibuffer {
            self.height_lines()
        } else {
            self.height_lines() - 1
        }
    }

    /// The height of the body in pixels, or in lines on a terminal.
    pub fn body_height_pixels(&self) -> (r: i64)
        ensures
            r == self.body_pixel_height(),
    {
        if !self.pixels {
            self.body_height_lines()
        } else if self.minibuffer {
            self.rect.height as i64
        } else {
            self.rect.height as i64 - self.char_height as i64
        }
    }

    /// The width in pixels, or in columns on a terminal.
    pub fn width_pixels(&self) -> (r: i64)
        ensures
            r == self.pixel_width(),
    {
        if self.pixels {
            self.rect.width as i64
        } else {
            self.width_cols()
        }
    }

    /// The height in pixels, or in lines on a terminal.
    pub fn height_pixels(&self) -> (r: i64)
        ensures
            r == self.pixel_height(),
    {
        if self.pixels {
            self.rect.height as i64
        } else {
            self.height_lines()
        }
    }
}

/// A builtin that gives a number counted from the measure of a window.
pub open spec fn measured(
    st: UiState,
    name: Seq<char>,
    args: Seq<Lisp>,
    max: int,
    pred: Seq<char>,
    number: spec_fn(Measure) -> int,
) -> Step {
    with_arity(
        st,
        name,
        args,
        0,
        max,
        on_window(
            booted(st),
            arg(args, 0),
            pred,
            |s: UiState, f: u64, w: u64|
                match measure_in(s.frames, f, w) {
                    Found::Is(m) => gives(s, Lisp::Int(number(m) as i64)),
                    Found::Signal(o) => ends(s, o),
                },
        ),
    )
}

/// What a builtin that measures a window has found out before it counts.
pub open spec fn measurement(
    st: UiState,
    name: Seq<char>,
    args: Seq<Lisp>,
    max: int,
    pred: Seq<char>,
) -> (UiState, Found<Measure>) {
    if args.len() > max {
        (st, Found::Signal(crate::value::wrong_number(name, args.len())))
    } else {
        let s = after(booted(st), arg(args, 0));
        match crate::window_cmds::resolve::window_arg(booted(st), arg(args, 0), pred) {
            Found::Is((f, w)) => (s, measure_in(s.frames, f, w)),
            Found::Signal(o) => (s, Found::Signal(o)),
        }
    }
}

/// Finds the window to measure.
fn take_measure(ui: &mut Ui, name: &str, args: &Vec<Value>, max: usize, pred: &str) -> (r: Result<
    Measure,
    Flow,
>)
    ensures
        (final(ui)@, found(r)) == measurement(old(ui)@, name@, views(args@), max as int, pred@),
{
    expect_max_args(name, args, max)?;
    let _id: u64 = ensure_selected_frame_id(ui);
    let (f, w) = resolve_window_id_with_pred(ui, &arg_or_nil(args, 0), pred)?;
    get_measure(&ui.frames, f, w)
}

/// `(window-height &optional WINDOW)` -> integer (lines).
pub fn builtin_window_height(ui: &mut Ui, args: &Vec<Value>) -> (r: EvalResult)
    ensures
        ({
            let step = measured(
                old(ui)@,
                "window-height"@,
                views(args@),
                1,
                "window-valid-p"@,
                |m: Measure| m.lines(),
            );
            final(ui)@ == step.state && outcome(r) == step.end
        }),
{
    let m: Measure = take_measure(ui, "window-height", args, 1, "window-valid-p")?;
    Ok(Value::Int(m.height_lines()))
}

/// `(window-width &optional WINDOW)` -> integer (columns).
pub fn builtin_window_width(ui: &mut Ui, args: &Vec<Value>) -> (r: EvalResult)
    ensures
        ({
            let step = measured(
                old(ui)@,
                "window-width"@,
                views(args@),
                1,
                "window-live-p"@,
                |m: Measure| m.columns(),
            );
            final(ui)@ == step.state && outcome(r) == step.end
        }),
{
    let m: Measure = take_measure(ui, "window-width", args, 1, "window-live-p")?;
    Ok(Value::Int(m.width_cols()))
}

/// `(window-total-height &optional WINDOW ROUND)` -> integer.
pub fn builtin_window_total_height(ui: &mut Ui, args: &Vec<Value>) -> (r: EvalResult)
    ensures
        ({
            let step = measured(
                old(ui)@,
                "window-total-height"@,
                views(args@),
                2,
                "window-valid-p"@,
                |m: Measure| m.lines(),
            );
            final(ui)@ == step.state && outcome(r) == step.end
        }),
{
    let m: Measure = take_measure(ui, "window-total-height", args, 2, "window-valid-p")?;
    Ok(Value::Int(m.height_lines()))
}

/// `(window-total-width &optional WINDOW ROUND)` -> integer.
pub fn builtin_window_total_width(ui: &mut Ui, args: &Vec<Value>) -> (r: EvalResult)
    ensures
        ({
            let step = measured(
                old(ui)@,
                "window-total-width"@,
                views(args@),
                2,
                "window-valid-p"@,
                |m: Measure| m.columns(),
            );
            final(ui)@ == step.state && outcome(r) == step.end
        }),
{
    let m: Measure = take_measure(ui, "window-total-width", args, 2, "window-valid-p")?;
    Ok(Value::Int(m.width_cols()))
}

/// `(window-left-column &optional WINDOW)` -> integer.
pub fn builtin_window_left_column(ui: &mut Ui, args: &Vec<Value>) -> (r: EvalResult)
    ensures
        ({
            let step = measured(
                old(ui)@,
                "window-left-column"@,
                views(args@),
                1,
                "window-valid-p"@,
                |m: Measure| m.left(),
            );
            final(ui)@ == step.state && outcome(r) == step.end
        }),
{
    let m: Measure = take_measure(ui, "window-left-column", args, 1, "window-valid-p")?;
    Ok(Value::Int(cell_count(m.rect.x as u64, m.char_width) as i64))
}

/// `(window-top-line &optional WINDOW)` -> integer.
pub fn builtin_window_top_line(ui: &mut Ui, args: &Vec<Value>) -> (r: EvalResult)
    ensures
        ({
            let step = measured(
                old(ui)@,
                "window-top-line"@,
                views(args@),
                1,
                "window-valid-p"@,
                |m: Measure| m.top(),
            );
            final(ui)@ == step.state && outcome(r) == step.end
        }),
{
    let m: Measure = take_measure(ui, "window-top-line", args, 1, "window-valid-p")?;
    Ok(Value::Int(cell_count(m.rect.y as u64, m.char_height) as i64))
}

/// `(window-pixel-left &optional WINDOW)` -> integer, in columns.
pub fn builtin_window_pixel_left(ui: &mut Ui, args: &Vec<Value>) -> (r: EvalResult)
    ensures
        ({
            let step = measured(
                old(ui)@,
                "window-pixel-left"@,
                views(args@),
                1,
                "window-valid-p"@,
                |m: Measure| m.left(),
            );
            final(ui)@ == step.state && outcome(r) == step.end
        }),
{
    let m: Measure = take_measure(ui, "window-pixel-left", args, 1, "window-valid-p")?;
    Ok(Value::Int(cell_count(m.rect.x as u64, m.char_width) as i64))
}

/// `(window-pixel-top &optional WINDOW)` -> integer, in lines.
pub fn builtin_window_pixel_top(ui: &mut Ui, args: &Vec<Value>) -> (r: EvalResult)
    ensures
        ({
            let step = measured(
                old(ui)@,
                "window-pixel-top"@,
                views(args@),
                1,
                "window-valid-p"@,
                |m: Measure| m.top(),
            );
            final(ui)@ == step.state && outcome(r) == step.end
        }),
{
    let m: Measure = take_measure(ui, "window-pixel-top", args, 1, "window-valid-p")?;
    Ok(Value::Int(cell_count(m.rect.y as u64, m.char_height) as i64))
}

/// `(window-mode-line-height &optional WINDOW)`
pub open spec fn window_mode_line_height_step(st: UiState, args: Seq<Lisp>) -> Step {
    with_arity(
        st,
        "window-mode-line-height"@,
        args,
        0,
        1,
        on_window(
            booted(st),
            arg(args, 0),
            "window-live-p"@,
            |s: UiState, f: u64, w: u64|
                gives(
                    s,
                    Lisp::Int(
                        if is_minibuffer(s.frames, f, w) {
                            0
                        } else {
                            1
                        },
                    ),
                ),
        ),
    )
}

/// `(window-mode-line-height &optional WINDOW)` -> integer.
pub fn builtin_window_mode_line_height(ui: &mut Ui, args: &Vec<Value>) -> (r: EvalResult)
    ensures
        final(ui)@ == window_mode_line_height_step(old(ui)@, views(args@)).state,
        outcome(r) == window_mode_line_height_step(old(ui)@, views(args@)).end,
{
    expect_max_args("window-mode-line-height", args, 1)?;
    let _id: u64 = ensure_selected_frame_id(ui);
    let (f, w) = resolve_window_id_with_pred(ui, &arg_or_nil(args, 0), "window-live-p")?;
    if is_minibuffer_window(&ui.frames, f, w) {
        Ok(Value::Int(0))
    } else {
        Ok(Value::Int(1))
    }
}

/// `(window-header-line-height &optional WINDOW)`
pub open spec fn window_header_line_height_step(st: UiState, args: Seq<Lisp>) -> Step {
    with_arity(
        st,
        "window-header-line-height"@,
        args,
        0,
        1,
        on_window(
            booted(st),
            arg(args, 0),
            "window-live-p"@,
            |s: UiState, f: u64, w: u64| gives(s, Lisp::Int(0)),
        ),
    )
}

/// `(window-header-line-height &optional WINDOW)` -> integer.
pub fn builtin_window_header_line_height(ui: &mut Ui, args: &Vec<Value>) -> (r: EvalResult)
    ensures
        final(ui)@ == window_header_line_height_step(old(ui)@, views(args@)).state,
        outcome(r) == window_header_line_height_step(old(ui)@, views(args@)).end,
{
    expect_max_args("window-header-line-height", args, 1)?;
    let _id: u64 = ensure_selected_frame_id(ui);
    let _found = resolve_window_id_with_pred(ui, &arg_or_nil(args, 0), "window-live-p")?;
    Ok(Value::Int(0))
}

/// `(window-pixel-height &optional WINDOW)` -> integer, in lines on a terminal.
pub fn builtin_window_pixel_height(ui: &mut Ui, args: &Vec<Value>) -> (r: EvalResult)
    ensures
        ({
            let step = measured(
                old(ui)@,
                "window-pixel-height"@,
                views(args@),
                1,
                "window-valid-p"@,
                |m: Measure| m.pixel_height(),
            );
            final(ui)@ == step.state && outcome(r) == step.end
        }),
{
    let m: Measure = take_measure(ui, "window-pixel-height", args, 1, "window-valid-p")?;
    Ok(Value::Int(m.height_pixels()))
}

/// `(window-pixel-width &optional WINDOW)` -> integer, in columns on a terminal.
pub fn builtin_window_pixel_width(ui: &mut Ui, args: &Vec<Value>) -> (r: EvalResult)
    ensures
        ({
            let step = measured(
                old(ui)@,
                "window-pixel-width"@,
                views(args@),
                1,
                "window-valid-p"@,
                |m: Measure| m.pixel_width(),
            );
            final(ui)@ == step.state && outcome(r) == step.end
        }),
{
    let m: Measure = take_measure(ui, "window-pixel-width", args, 1, "window-valid-p")?;
    Ok(Value::Int(m.width_pixels()))
}

/// The height of the body, in pixels where they are asked for.
pub open spec fn body_height(args: Seq<Lisp>) -> spec_fn(Measure) -> int {
    |m: Measure|
        if arg(args, 1) != Lisp::Nil {
            m.body_pixel_height()
        } else {
            m.body_lines()
        }
}

/// The width of the body, in pixels where they are asked for.
pub open spec fn body_width(args: Seq<Lisp>) -> spec_fn(Measure) -> int {
    |m: Measure|
        if arg(args, 1) != Lisp::Nil {
            m.pixel_width()
        } else {
            m.columns()
        }
}

/// `(window-body-height &optional WINDOW PIXELWISE)` -> integer.
pub fn builtin_window_body_height(ui: &mut Ui, args: &Vec<Value>) -> (r: EvalResult)
    ensures
        ({
            let step = measured(
                old(ui)@,
                "window-body-height"@,
                views(args@),
                2,
                "window-live-p"@,
                body_height(views(args@)),
            );
            final(ui)@ == step.state && outcome(r) == step.end
        }),
{
    let m: Measure = take_measure(ui, "window-body-height", args, 2, "window-live-p")?;
    if arg_or_nil(args, 1).is_truthy() {
        Ok(Value::Int(m.body_height_pixels()))
    } else {
        Ok(Value::Int(m.body_height_lines()))
    }
}

/// `(window-body-width &optional WINDOW PIXELWISE)` -> integer.
pub fn builtin_window_body_width(ui: &mut Ui, args: &Vec<Value>) -> (r: EvalResult)
    ensures
        ({
            let step = measured(
                old(ui)@,
                "window-body-width"@,
                views(args@),
                2,
                "window-live-p"@,
                body_width(views(args@)),
            );
            final(ui)@ == step.state && outcome(r) == step.end
        }),
{
    let m: Measure = take_measure(ui, "window-body-width", args, 2, "window-live-p")?;
    if arg_or_nil(args, 1).is_truthy() {
        Ok(Value::Int(m.width_pixels()))
    } else {
        Ok(Value::Int(m.width_cols()))
    }
}

/// `(window-text-height &optional WINDOW PIXELWISE)` -> integer.
pub fn builtin_window_text_height(ui: &mut Ui, args: &Vec<Value>) -> (r: EvalResult)
    ensures
        ({
            let step = measured(
                old(ui)@,
                "window-text-height"@,
                views(args@),
                2,
                "window-live-p"@,
                body_height(views(args@)),
            );
            final(ui)@ == step.state && outcome(r) == step.end
        }),
{
    let m: Measure = take_measure(ui, "window-text-height", args, 2, "window-live-p")?;
    if arg_or_nil(args, 1).is_truthy() {
        Ok(Value::Int(m.body_height_pixels()))
    } else {
        Ok(Value::Int(m.body_height_lines()))
    }
}

/// `(window-text-width &optional WINDOW PIXELWISE)` -> integer.
pub fn builtin_window_text_width(ui: &mut Ui, args: &Vec<Value>) -> (r: EvalResult)
    ensures
        ({
            let step = measured(
                old(ui)@,
                "window-text-width"@,
                views(args@),
                2,
                "window-live-p"@,
                body_width(views(args@)),
            );
            final(ui)@ == step.state && outcome(r) == step.end
        }),
{
    let m: Measure = take_measure(ui, "window-text-width", args, 2, "window-live-p")?;
    if arg_or_nil(args, 1).is_truthy() {
        Ok(Value::Int(m.width_pixels()))
    } else {
        Ok(Value::Int(m.width_cols()))
    }
}

/// The left, top, right and bottom edges of a window.
pub open spec fn edges(m: Measure, body: bool, pixelwise: bool) -> Lisp {
    let mode_line: int = if !body || m.minibuffer {
        0
    } else if pixelwise {
        m.char_height as int
    } else {
        1
    };
    if pixelwise {
        list4(
            Lisp::Int(m.rect.x as i64),
            Lisp::Int(m.rect.y as i64),
            Lisp::Int((m.rect.x + m.rect.width) as i64),
            Lisp::Int((m.rect.y + m.rect.height - mode_line) as i64),
        )
    } else {
        list4(
            Lisp::Int(m.left() as i64),
            Lisp::Int(m.top() as i64),
            Lisp::Int(m.right() as i64),
            Lisp::Int((m.bottom() - mode_line) as i64),
        )
    }
}

/// The edges of a window in pixels.
pub fn window_edges_pixels(m: &Measure, body: bool) -> (r: Value)
    ensures
        r@ == edges(*m, body, true),
{
    let mode_line: i64 = if !body || m.minibuffer {
        0
    } else {
        m.char_height as i64
    };
    Value::list4(
        Value::Int(m.rect.x as i64),
        Value::Int(m.rect.y as i64),
        Value::Int(m.rect.x as i64 + m.rect.width as i64),
        Value::Int(m.rect.y as i64 + m.rect.height as i64 - mode_line),
    )
}

/// The edges of a window in columns and lines.
pub fn window_edges_cols_lines(m: &Measure, body: bool) -> (r: Value)
    ensures
        r@ == edges(*m, body, false),
{
    let mode_line: i64 = if !body || m.minibuffer {
        0
    } else {
        1
    };
    let right: u64 = cell_count(m.rect.x as u64 + m.rect.width as u64, m.char_width);
    let bottom: u64 = cell_count(m.rect.y as u64 + m.rect.height as u64, m.char_height);
    Value::list4(
        Value::Int(cell_count(m.rect.x as u64, m.char_width) as i64),
        Value::Int(cell_count(m.rect.y as u64, m.char_height) as i64),
        Value::Int(right as i64),
        Value::Int(bottom as i64 - mode_line),
    )
}

/// `(window-edges &optional WINDOW BODY ABSOLUTE PIXELWISE)`
pub open spec fn window_edges_step(st: UiState, args: Seq<Lisp>, printed: Seq<char>) -> Step {
    let a = arg(args, 0);
    let body = arg(args, 1) != Lisp::Nil;
    with_arity(
        st,
        "window-edges"@,
        args,
        0,
        4,
        match window_or_window_error_arg(booted(st), a, body, printed) {
            Found::Is((f, w)) => match measure_in(after(booted(st), a).frames, f, w) {
                Found::Is(m) => gives(
                    after(booted(st), a),
                    edges(m, body, arg(args, 3) != Lisp::Nil),
                ),
                Found::Signal(o) => ends(after(booted(st), a), o),
            },
            Found::Signal(o) => ends(after(booted(st), a), o),
        },
    )
}

/// `(window-edges &optional WINDOW BODY ABSOLUTE PIXELWISE)` -> (LEFT TOP RIGHT BOTTOM).
/// `printed` is how the argument WINDOW is printed.
pub fn builtin_window_edges(ui: &mut Ui, args: &Vec<Value>, printed: &str) -> (r: EvalResult)
    ensures
        final(ui)@ == window_edges_step(old(ui)@, views(args@), printed@).state,
        outcome(r) == window_edges_step(old(ui)@, views(args@), printed@).end,
{
    expect_max_args("window-edges", args, 4)?;
    let _id: u64 = ensure_selected_frame_id(ui);
    let body: bool = arg_or_nil(args, 1).is_truthy();
    let pixelwise: bool = arg_or_nil(args, 3).is_truthy();
    let (f, w) = resolve_window_id_or_window_error(ui, &arg_or_nil(args, 0), body, printed)?;
    let m: Measure = get_measure(&ui.frames, f, w)?;
    if pixelwise {
        Ok(window_edges_pixels(&m, body))
    } else {
        Ok(window_edges_cols_lines(&m, body))
    }
}

/// A size as a part of another one; `1 / 1` where the window fills its parent.
#[derive(Debug, Clone, Copy, PartialEq, Eq)]
pub struct Ratio {
    pub part: u32,
    pub whole: u32,
}

/// The size of a window as a part of that of its parent, along the direction
/// that is asked for; all of it across the direction of the parent.
pub open spec fn normal_ratio(w: Window, parent: Window, horizontal: bool) -> Ratio {
    match parent {
        Window::Internal(c) => if horizontal && c.direction == SplitDirection::Horizontal
            && c.bounds.width > 0 {
            Ratio { part: w.rect().width, whole: c.bounds.width }
        } else if !horizontal && c.direction == SplitDirection::Vertical && c.bounds.height > 0 {
            Ratio { part: w.rect().height, whole: c.bounds.height }
        } else {
            Ratio { part: 1, whole: 1 }
        },
        Window::Leaf(_) => Ratio { part: 1, whole: 1 },
    }
}

/// The normal size of a window of a frame.
pub open spec fn normal_size(f: FrameState, id: u64, horizontal: bool) -> Found<Ratio> {
    match f.window(id) {
        Some(w) => match window_parent(f, id) {
            Some(p) => match f.window(p) {
                Some(parent) => Found::Is(normal_ratio(w, parent, horizontal)),
                None => Found::Signal(error_outcome("Window not found"@)),
            },
            None => Found::Is(Ratio { part: 1, whole: 1 }),
        },
        None => Found::Signal(error_outcome("Window not found"@)),
    }
}

/// `(window-normal-size &optional WINDOW HORIZONTAL)`, with the size as a ratio.
pub open spec fn window_normal_size_found(st: UiState, args: Seq<Lisp>) -> (
    UiState,
    Found<Ratio>,
) {
    if args.len() > 2 {
        (st, Found::Signal(crate::value::wrong_number("window-normal-size"@, args.len())))
    } else {
        let a = arg(args, 0);
        let s = after(booted(st), a);
        match crate::window_cmds::resolve::window_arg(booted(st), a, "window-valid-p"@) {
            Found::Is((f, w)) => match s.frames.get(f) {
                Some(frame) => (s, normal_size(frame, w, arg(args, 1) != Lisp::Nil)),
                None => (s, Found::Signal(error_outcome("Frame not found"@))),
            },
            Found::Signal(o) => (s, Found::Signal(o)),
        }
    }
}

/// `(window-normal-size &optional WINDOW HORIZONTAL)` -> proportional size, as a ratio.
pub fn window_normal_size(ui: &mut Ui, args: &Vec<Value>) -> (r: Result<Ratio, Flow>)
    ensures
        (final(ui)@, found(r)) == window_normal_size_found(old(ui)@, views(args@)),
{
    expect_max_args("window-normal-size", args, 2)?;
    let _id: u64 = ensure_selected_frame_id(ui);
    let (f, w) = resolve_window_id_with_pred(ui, &arg_or_nil(args, 0), "window-valid-p")?;
    let horizontal: bool = arg_or_nil(args, 1).is_truthy();
    let frame = get_frame(&ui.frames, f)?;
    let window: Window = match frame.find_window(w) {
        Some(x) => x,
        None => {
            return Err(crate::value::error_signal("Window not found"));
        },
    };
    let parent_id: u64 = match frame.root.parent_of(w, None) {
        Some(p) => p,
        None => {
            return Ok(Ratio { part: 1, whole: 1 });
        },
    };
    match frame.find_window(parent_id) {
        Some(Window::Internal(c)) => {
            let c: Combination = c;
            if horizontal && c.direction == SplitDirection::Horizontal && c.bounds.width > 0 {
                Ok(Ratio { part: window.bounds().width, whole: c.bounds.width })
            } else if !horizontal && c.direction == SplitDirection::Vertical && c.bounds.height
                > 0 {
                Ok(Ratio { part: window.bounds().height, whole: c.bounds.height })
            } else {
                Ok(Ratio { part: 1, whole: 1 })
            }
        },
        Some(Window::Leaf(_)) => Ok(Ratio { part: 1, whole: 1 }),
        None => Err(crate::value::error_signal("Window not found")),
    }
}

} // verus!
