//! Sizes of text and of bars, and moving to a line of the window.
use crate::buffer::{max2, min2, moved_point, Buffer, BufferState, Buffers};
use crate::emacs_char::{decode_text, text_codes};
use crate::float::{clamp, clamped};
use crate::frame::{Frame, FrameState};
use crate::value::{
    arg, arg_or_nil, cons, error_outcome, error_signal, expect_args, expect_args_range, outcome,
    symbol_name, views, wrong_type, wrong_type_argument, EvalResult, Lisp, Outcome, Value,
};
use crate::window::{Leaf, Window};
use crate::window_cmds::position::{after_lines, index_after_lines};
use crate::window_cmds::query::{on_frame, with_arity};
use crate::window_cmds::resolve::{get_frame, resolve_frame_id};
use crate::window_cmds::state::{ends, gives, Step, Ui, UiState};
use crate::xdisp::designator::{optional_window, validate_optional_window_designator};
use crate::xdisp::simple::of_arity;
use vstd::prelude::*;

verus! {

/// The widest line of some text from an index on, in columns; tabs reach to the
/// next multiple of eight.
pub open spec fn widest(codes: Seq<u32>, i: int, col: int, best: int) -> int
    decreases codes.len() - i,
{
    if i < 0 || i >= codes.len() {
        max2(col, best)
    } else if codes[i] == 10 {
        widest(codes, i + 1, 0, max2(col, best))
    } else if codes[i] == 9 {
        widest(codes, i + 1, (col / 8 + 1) * 8, best)
    } else {
        widest(codes, i + 1, col + 1, best)
    }
}

/// How many lines some text ends, from an index on.
pub open spec fn line_ends(codes: Seq<u32>, i: int) -> int
    decreases codes.len() - i,
{
    if i < 0 || i >= codes.len() {
        0
    } else {
        line_ends(codes, i + 1) + (if codes[i] == 10 {
            1int
        } else {
            0
        })
    }
}

/// How many lines some text has: those that it ends, and a last one that it does
/// not end; one for no text.
pub open spec fn line_count(codes: Seq<u32>) -> int {
    if codes.len() == 0 {
        1
    } else if codes.last() == 10 {
        line_ends(codes, 0)
    } else {
        line_ends(codes, 0) + 1
    }
}

/// The number of lines of some text, and its widest line in columns.
fn region_text_metrics(codes: &[u32]) -> (r: (u128, u128))
    ensures
        r.0 == line_count(codes@),
        r.1 == widest(codes@, 0, 0, 0),
        r.0 <= u64::MAX + 1,
        r.1 <= 8 * u64::MAX,
{
    let mut lines: u128 = 0;
    let mut best: u128 = 0;
    let mut col: u128 = 0;
    let mut i: usize = 0;
    while i < codes.len()
        invariant
            i <= codes@.len(),
            lines + line_ends(codes@, i as int) == line_ends(codes@, 0),
            widest(codes@, i as int, col as int, best as int) == widest(codes@, 0, 0, 0),
            lines <= i,
            col <= 8 * i,
            best <= 8 * i,
        decreases codes@.len() - i,
    {
        let c: u32 = codes[i];
        if c == 10 {
            lines = lines + 1;
            if col > best {
                best = col;
            }
            col = 0;
        } else if c == 9 {
            col = (col / 8 + 1) * 8;
        } else {
            col = col + 1;
        }
        i = i + 1;
    }
    if col > best {
        best = col;
    }
    if codes.len() == 0 {
        return (1, best);
    }
    if codes[codes.len() - 1] == 10 {
        (lines, best)
    } else {
        (lines + 1, best)
    }
}

/// Whether a byte leaves no mark on its line.
pub open spec fn is_blank(byte: u8) -> bool {
    byte == 32 || byte == 9 || byte == 10 || byte == 13
}

/// The index after the last byte of some text that is not blank.
pub open spec fn marked_end(bytes: Seq<u8>, n: int) -> int
    decreases n,
{
    if n <= 0 || n > bytes.len() {
        0
    } else if is_blank(bytes[n - 1]) {
        marked_end(bytes, n - 1)
    } else {
        n
    }
}

/// The index of the next end of a line.
pub open spec fn next_line_end(bytes: Seq<u8>, i: int) -> int
    decreases bytes.len() - i,
{
    if i < 0 || i >= bytes.len() || bytes[i] == 10 {
        i
    } else {
        next_line_end(bytes, i + 1)
    }
}

/// The index where some text ends without its last blank lines.
pub open spec fn trimmed_end(bytes: Seq<u8>) -> int {
    if marked_end(bytes, bytes.len() as int) == 0 {
        0
    } else {
        next_line_end(bytes, marked_end(bytes, bytes.len() as int))
    }
}

/// The index where some text ends without its last blank lines.
fn end_without_blank_lines(bytes: &Vec<u8>) -> (r: usize)
    ensures
        r == trimmed_end(bytes@),
        r <= bytes@.len(),
{
    let mut n: usize = bytes.len();
    while n > 0 && (bytes[n - 1] == 32 || bytes[n - 1] == 9 || bytes[n - 1] == 10 || bytes[n - 1]
        == 13)
        invariant
            n <= bytes@.len(),
            marked_end(bytes@, n as int) == marked_end(bytes@, bytes@.len() as int),
        decreases n,
    {
        n = n - 1;
    }
    if n == 0 {
        return 0;
    }
    let mut i: usize = n;
    while i < bytes.len() && bytes[i] != 10
        invariant
            n <= i <= bytes@.len(),
            next_line_end(bytes@, i as int) == next_line_end(bytes@, n as int),
        decreases bytes@.len() - i,
    {
        i = i + 1;
    }
    i
}

/// The byte offset that a position argument means; a default where it is no integer.
pub open spec fn region_index(a: Lisp, default: int) -> int {
    match a {
        Lisp::Int(n) => max2(n as int, 1) - 1,
        _ => default,
    }
}

/// The characters between two position arguments, which count bytes. As the second
/// one, `t` means the end of the text without its last blank lines.
pub open spec fn region_codes(b: BufferState, from: Lisp, to: Lisp) -> Seq<u32> {
    let end = min2(
        if to == Lisp::True {
            trimmed_end(b.text)
        } else {
            region_index(to, b.text.len() as int)
        },
        b.text.len() as int,
    );
    let start = min2(region_index(from, 0), end);
    text_codes(b.text.subrange(start, end), b.multibyte)
}

/// The byte offset that a position argument means.
fn index_of_region(a: &Value, default: usize) -> (r: u128)
    ensures
        r == region_index(a@, default as int),
{
    match a {
        Value::Int(n) => if *n < 1 {
            0
        } else {
            *n as u128 - 1
        },
        _ => default as u128,
    }
}

/// Whether a MODE argument asks for the mode line to be counted.
pub open spec fn counts_mode_line(a: Lisp) -> bool {
    a == Lisp::True || symbol_name(a) == Some("mode-line"@)
}

/// The size of some text in a window.
pub open spec fn text_size(f: FrameState, id: u64, codes: Seq<u32>, mode: Lisp) -> Lisp {
    let lines = line_count(codes) + (if counts_mode_line(mode) && f.minibuffer_window != Some(
        id,
    ) {
        1int
    } else {
        0
    });
    cons(
        Lisp::Int(clamped(widest(codes, 0, 0, 0) * f.char_width)),
        Lisp::Int(clamped(lines * f.char_height)),
    )
}

/// `(window-text-pixel-size ...)` in a session.
pub open spec fn text_pixel_size(st: UiState, args: Seq<Lisp>) -> Outcome {
    of_arity(
        "window-text-pixel-size"@,
        args,
        0,
        7,
        if !optional_window(st.frames, arg(args, 0)) {
            wrong_type("window-live-p"@, arg(args, 0))
        } else {
            Outcome::Value(
                match st.frames.selected_frame() {
                    Some(f) => {
                        let id = match arg(args, 0) {
                            Lisp::Window(w) => w,
                            _ => f.selected_window,
                        };
                        match f.window_buffer(id) {
                            Some(b) => match st.buffers.get(b) {
                                Some(buffer) => text_size(
                                    f,
                                    id,
                                    region_codes(buffer, arg(args, 1), arg(args, 2)),
                                    arg(args, 5),
                                ),
                                None => cons(Lisp::Int(0), Lisp::Int(0)),
                            },
                            None => cons(Lisp::Int(0), Lisp::Int(0)),
                        }
                    },
                    None => cons(Lisp::Int(0), Lisp::Int(0)),
                },
            )
        },
    )
}

/// The size of the text between two position arguments.
fn size_of_text(f: &Frame, id: u64, b: &Buffer, from: &Value, to: &Value, mode: &Value) -> (r: Value)
    ensures
        r@ == text_size(f@, id, region_codes(b@, from@, to@), mode@),
{
    let wanted: u128 = if to.is_t() {
        end_without_blank_lines(&b.text) as u128
    } else {
        index_of_region(to, b.text.len())
    };
    let end: usize = if wanted < b.text.len() as u128 {
        wanted as usize
    } else {
        b.text.len()
    };
    let first: u128 = index_of_region(from, 0);
    let start: usize = if first < end as u128 {
        first as usize
    } else {
        end
    };
    let region: &[u8] = vstd::slice::slice_subrange(b.text.as_slice(), start, end);
    let codes: Vec<u32> = decode_text(region, b.multibyte);
    let (text_lines, cols) = region_text_metrics(codes.as_slice());
    let mini: bool = match f.minibuffer_window {
        Some(m) => m == id,
        None => false,
    };
    let mut lines: u128 = text_lines;
    if (mode.is_t() || mode.is_symbol_named("mode-line")) && !mini {
        lines = lines + 1;
    }
    let w: i128 = f.char_width as i128;
    let h: i128 = f.char_height as i128;
    proof {
        assert(0 <= cols * w <= (8 * 0xffff_ffff_ffff_ffff) * 0xffff_ffff) by (nonlinear_arith)
            requires
                0 <= cols <= 8 * 0xffff_ffff_ffff_ffff,
                0 <= w <= 0xffff_ffff,
        ;
        assert(0 <= lines * h <= 0x2_0000_0000_0000_0000 * 0xffff_ffff) by (nonlinear_arith)
            requires
                0 <= lines <= 0x2_0000_0000_0000_0000,
                0 <= h <= 0xffff_ffff,
        ;
    }
    Value::cons(
        Value::Int(clamp(cols as i128 * w)),
        Value::Int(clamp(lines as i128 * h)),
    )
}

/// `(window-text-pixel-size &optional WINDOW FROM TO X-LIMIT Y-LIMIT MODE)` ->
/// `(WIDTH . HEIGHT)` of the text of WINDOW in cells of the selected frame.
///
/// An integer FROM or TO counts the bytes of the text, from one on. Where TO is `t`,
/// the last blank lines do not count. Where MODE is `t` or `mode-line`, the mode
/// line does.
pub fn builtin_window_text_pixel_size_ctx(ui: &Ui, args: &Vec<Value>) -> (r: EvalResult)
    ensures
        outcome(r) == text_pixel_size(ui@, views(args@)),
{
    expect_args_range("window-text-pixel-size", args, 0, 7)?;
    let window: Value = arg_or_nil(args, 0);
    validate_optional_window_designator(&ui.frames, &window, "window-live-p")?;
    match ui.frames.selected_frame() {
        Some(f) => {
            let id: u64 = match window {
                Value::Window(w) => w,
                _ => f.selected_window,
            };
            match f.window_buffer(id) {
                Some(b) => match ui.buffers.get(b) {
                    Some(buffer) => Ok(
                        size_of_text(
                            f,
                            id,
                            buffer,
                            &arg_or_nil(args, 1),
                            &arg_or_nil(args, 2),
                            &arg_or_nil(args, 5),
                        ),
                    ),
                    None => Ok(Value::cons(Value::Int(0), Value::Int(0))),
                },
                None => Ok(Value::cons(Value::Int(0), Value::Int(0))),
            }
        },
        None => Ok(Value::cons(Value::Int(0), Value::Int(0))),
    }
}

/// How many lines of text the selected window has, at least one.
pub open spec fn window_body_lines(f: FrameState, l: Leaf) -> int {
    let lines = l.bounds.height as int / max2(f.char_height as int, 1);
    max2(
        if f.minibuffer_window == Some(f.selected_window) {
            lines
        } else {
            lines - 1
        },
        1,
    )
}

/// The line of a window that an argument means: the middle one for nil, counted
/// from the bottom where it is negative.
pub open spec fn wanted_line(a: Lisp, lines: int) -> Option<int> {
    match a {
        Lisp::Nil => Some(lines / 2),
        Lisp::Int(n) => Some(
            if n >= 0 {
                min2(n as int, lines - 1)
            } else {
                max2(lines + n, 0)
            },
        ),
        _ => None,
    }
}

/// The index in a text where a line of a window starts: the end of the text where
/// there are fewer lines.
pub open spec fn line_start_index(codes: Seq<u32>, window_start: usize, line: int) -> int {
    let start = max2(window_start - 1, 0);
    if line == 0 {
        start
    } else {
        min2(after_lines(codes, start, line), codes.len() as int)
    }
}

/// `(move-to-window-line ARG)`
pub open spec fn move_to_window_line(st: UiState, args: Seq<Lisp>) -> Step {
    with_arity(
        st,
        "move-to-window-line"@,
        args,
        1,
        1,
        match st.frames.selected_frame() {
            None => ends(st, error_outcome("No selected frame"@)),
            Some(f) => match f.window(f.selected_window) {
                Some(Window::Leaf(l)) => match st.buffers.get(l.buffer_id) {
                    None => ends(st, error_outcome("No buffer in selected window"@)),
                    Some(b) => match wanted_line(arg(args, 0), window_body_lines(f, l)) {
                        None => ends(st, wrong_type("integerp"@, arg(args, 0))),
                        Some(line) => match st.buffers.current {
                            None => ends(st, error_outcome("No current buffer"@)),
                            Some(current) => gives(
                                UiState {
                                    buffers: with_point_at(
                                        st.buffers,
                                        current,
                                        b.offset_of(
                                            line_start_index(b.codes(), l.window_start, line) + 1,
                                        ),
                                    ),
                                    ..st
                                },
                                Lisp::Int(line as i64),
                            ),
                        },
                    },
                },
                _ => ends(st, error_outcome("Selected window is not a leaf window"@)),
            },
        },
    )
}

/// The buffers with the point of one of them moved.
pub open spec fn with_point_at(buffers: Buffers, id: u64, offset: int) -> Buffers {
    match buffers.get(id) {
        Some(b) => buffers.with_buffer(id, moved_point(b, offset)),
        None => buffers,
    }
}

/// The line of a window that an argument means.
fn line_of_window(a: &Value, lines: i64) -> (r: Option<i64>)
    requires
        1 <= lines <= u32::MAX,
    ensures
        match r {
            Some(n) => wanted_line(a@, lines as int) == Some(n as int) && 0 <= n <= lines,
            None => wanted_line(a@, lines as int) is None,
        },
{
    match a {
        Value::Nil => Some(lines / 2),
        Value::Int(n) => Some(
            if *n >= 0 {
                if *n < lines - 1 {
                    *n
                } else {
                    lines - 1
                }
            } else if *n < -lines {
                0
            } else {
                lines + *n
            },
        ),
        _ => None,
    }
}

/// The byte offset where a line of a window starts.
fn line_start_offset(b: &Buffer, window_start: usize, line: i64) -> (r: usize)
    requires
        0 <= line <= u32::MAX,
    ensures
        r == b@.offset_of(line_start_index(b@.codes(), window_start, line as int) + 1),
{
    let codes: Vec<u32> = b.codes();
    let start: usize = if window_start == 0 {
        0
    } else {
        window_start - 1
    };
    let index: usize = if line == 0 {
        start
    } else {
        let i: usize = index_after_lines(&codes, start, line as u64);
        if i < codes.len() {
            i
        } else {
            codes.len()
        }
    };
    b.char_index_to_byte(index)
}

/// `(move-to-window-line ARG)`: moves point of the current buffer to where the line
/// with that number from the top of the selected window starts, and gives the number.
pub fn builtin_move_to_window_line(ui: &mut Ui, args: &Vec<Value>) -> (r: EvalResult)
    ensures
        final(ui)@ == move_to_window_line(old(ui)@, views(args@)).state,
        outcome(r) == move_to_window_line(old(ui)@, views(args@)).end,
{
    expect_args("move-to-window-line", args, 1)?;
    let (leaf, lines) = match ui.frames.selected_frame() {
        None => {
            return Err(error_signal("No selected frame"));
        },
        Some(f) => match f.find_window(f.selected_window) {
            Some(Window::Leaf(l)) => {
                let height: u32 = if f.char_height < 1 {
                    1
                } else {
                    f.char_height
                };
                let mini: bool = match f.minibuffer_window {
                    Some(m) => m == f.selected_window,
                    None => false,
                };
                let whole: i64 = (l.bounds.height / height) as i64;
                let body: i64 = if mini {
                    whole
                } else {
                    whole - 1
                };
                let at_least: i64 = if body < 1 {
                    1
                } else {
                    body
                };
                proof {
                    assert(at_least == window_body_lines(f@, l));
                    assert(l.bounds.height as int / height as int <= l.bounds.height)
                        by (nonlinear_arith)
                        requires
                            height >= 1,
                            l.bounds.height >= 0,
                    ;
                }
                (l, at_least)
            },
            _ => {
                return Err(error_signal("Selected window is not a leaf window"));
            },
        },
    };
    let (line, offset) = match ui.buffers.get(leaf.buffer_id) {
        None => {
            return Err(error_signal("No buffer in selected window"));
        },
        Some(b) => match line_of_window(&arg_or_nil(args, 0), lines) {
            None => {
                return Err(wrong_type_argument("integerp", &arg_or_nil(args, 0)));
            },
            Some(n) => (n, line_start_offset(b, leaf.window_start, n)),
        },
    };
    match ui.buffers.current_buffer_id() {
        None => Err(error_signal("No current buffer")),
        Some(current) => {
            ui.buffers.goto_buffer_byte(current, offset);
            Ok(Value::Int(line))
        },
    }
}

/// The height of a bar of a frame: in lines as a parameter says, or in pixels.
pub open spec fn bar_size(f: FrameState, parameter: Seq<char>, pixels: u32, pixelwise: Lisp) -> Lisp {
    if pixelwise != Lisp::Nil {
        Lisp::Int(pixels as i64)
    } else {
        match f.int_parameter(parameter) {
            Some(n) => if n > 0 {
                Lisp::Int(n)
            } else {
                Lisp::Int(0)
            },
            None => Lisp::Int(0),
        }
    }
}

/// The height of a bar of a frame.
fn bar_size_of(f: &Frame, parameter: &str, pixels: u32, pixelwise: &Value) -> (r: Value)
    ensures
        r@ == bar_size(f@, parameter@, pixels, pixelwise@),
{
    if !pixelwise.is_nil() {
        return Value::Int(pixels as i64);
    }
    match f.frame_parameter_int(parameter) {
        Some(n) => if n > 0 {
            Value::Int(n)
        } else {
            Value::Int(0)
        },
        None => Value::Int(0),
    }
}

/// `(tool-bar-height &optional FRAME PIXELWISE)`
pub open spec fn tool_bar_height(st: UiState, args: Seq<Lisp>) -> Step {
    with_arity(
        st,
        "tool-bar-height"@,
        args,
        0,
        2,
        on_frame(
            st,
            arg(args, 0),
            "framep"@,
            |s: UiState, f: FrameState|
                gives(s, bar_size(f, "tool-bar-lines"@, f.tool_bar_height, arg(args, 1))),
        ),
    )
}

/// `(tool-bar-height &optional FRAME PIXELWISE)` -> the height of the tool bar of FRAME.
pub fn builtin_tool_bar_height_ctx(ui: &mut Ui, args: &Vec<Value>) -> (r: EvalResult)
    ensures
        final(ui)@ == tool_bar_height(old(ui)@, views(args@)).state,
        outcome(r) == tool_bar_height(old(ui)@, views(args@)).end,
{
    expect_args_range("tool-bar-height", args, 0, 2)?;
    let id: u64 = resolve_frame_id(ui, &arg_or_nil(args, 0), "framep")?;
    let f = get_frame(&ui.frames, id)?;
    Ok(bar_size_of(f, "tool-bar-lines", f.tool_bar_height, &arg_or_nil(args, 1)))
}

/// `(tab-bar-height &optional FRAME PIXELWISE)`
pub open spec fn tab_bar_height(st: UiState, args: Seq<Lisp>) -> Step {
    with_arity(
        st,
        "tab-bar-height"@,
        args,
        0,
        2,
        on_frame(
            st,
            arg(args, 0),
            "framep"@,
            |s: UiState, f: FrameState|
                gives(s, bar_size(f, "tab-bar-lines"@, f.tab_bar_height, arg(args, 1))),
        ),
    )
}

/// `(tab-bar-height &optional FRAME PIXELWISE)` -> the height of the tab bar of FRAME.
pub fn builtin_tab_bar_height_ctx(ui: &mut Ui, args: &Vec<Value>) -> (r: EvalResult)
    ensures
        final(ui)@ == tab_bar_height(old(ui)@, views(args@)).state,
        outcome(r) == tab_bar_height(old(ui)@, views(args@)).end,
{
    expect_args_range("tab-bar-height", args, 0, 2)?;
    let id: u64 = resolve_frame_id(ui, &arg_or_nil(args, 0), "framep")?;
    let f = get_frame(&ui.frames, id)?;
    Ok(bar_size_of(f, "tab-bar-lines", f.tab_bar_height, &arg_or_nil(args, 1)))
}

} // verus!
