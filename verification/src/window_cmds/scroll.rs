//! Builtins that scroll the selected window.
use crate::buffer::{min2, moved_point, Buffer, BufferState};
use crate::symbol::{Obarray, Symbols};
use crate::value::outcome;
use crate::value::{
    arg, arg_or_nil, expect_max_args, signal, views, EvalResult, Flow, Lisp, Outcome, Value,
};
use crate::window::{Leaf, Window};
use crate::window_cmds::geometry::{body_height, builtin_window_body_height, measured};
use crate::window_cmds::position::{positioned, set_position};
use crate::window_cmds::query::{on_window, with_arity};
use crate::window_cmds::records::leaf_changed;
use crate::window_cmds::resolve::{get_window, resolve_window_id, window_in, Found};
use crate::window_cmds::state::{
    booted, ends, ensure_selected_frame_id, gives, Step, Ui, UiState,
};
use vstd::prelude::*;

verus! {

/// The offset after the end of the line, or the limit where the line has no end before it.
pub open spec fn next_line(text: Seq<u8>, pos: int, limit: int) -> int
    decreases limit - pos,
{
    if pos >= limit || pos < 0 || pos >= text.len() {
        pos
    } else if text[pos] == 10 {
        pos + 1
    } else {
        next_line(text, pos + 1, limit)
    }
}

/// The offset `n` lines further down, at most the limit.
pub open spec fn lines_down(text: Seq<u8>, pos: int, limit: int, n: int) -> int
    decreases n,
{
    if n <= 0 || pos >= limit {
        pos
    } else {
        lines_down(text, next_line(text, pos, limit), limit, n - 1)
    }
}

/// The offset where the line begins, at least the first one.
pub open spec fn line_begin(text: Seq<u8>, pos: int, first: int) -> int
    decreases pos,
{
    if pos <= first || pos <= 0 || pos > text.len() || text[pos - 1] == 10 {
        pos
    } else {
        line_begin(text, pos - 1, first)
    }
}

/// The offset where the line `n` lines further up begins, at least the first one.
pub open spec fn lines_up(text: Seq<u8>, pos: int, first: int, n: int) -> int
    decreases n,
{
    if n <= 0 || pos <= first {
        pos
    } else {
        lines_up(text, line_begin(text, pos - 1, first), first, n - 1)
    }
}

/// The offset after the end of the line.
fn find_next_line(text: &Vec<u8>, start: usize, limit: usize) -> (r: usize)
    requires
        limit <= text@.len(),
        start <= limit,
    ensures
        r == next_line(text@, start as int, limit as int),
        start <= r <= limit,
        start < limit ==> start < r,
{
    let mut pos: usize = start;
    while pos < limit
        invariant
            start <= pos <= limit <= text@.len(),
            next_line(text@, pos as int, limit as int) == next_line(
                text@,
                start as int,
                limit as int,
            ),
        decreases limit - pos,
    {
        if text[pos] == 10 {
            return pos + 1;
        }
        pos = pos + 1;
    }
    pos
}

/// The offset some lines further down.
fn find_lines_down(text: &Vec<u8>, start: usize, limit: usize, n: i128) -> (r: usize)
    requires
        limit <= text@.len(),
        start <= limit,
    ensures
        r == lines_down(text@, start as int, limit as int, n as int),
        r <= limit,
{
    let mut pos: usize = start;
    let mut left: i128 = n;
    while left > 0 && pos < limit
        invariant
            pos <= limit <= text@.len(),
            lines_down(text@, pos as int, limit as int, left as int) == lines_down(
                text@,
                start as int,
                limit as int,
                n as int,
            ),
        decreases limit - pos,
    {
        pos = find_next_line(text, pos, limit);
        left = left - 1;
    }
    pos
}

/// The offset where the line begins.
fn find_line_begin(text: &Vec<u8>, start: usize, first: usize) -> (r: usize)
    requires
        start <= text@.len() || start <= first,
    ensures
        r == line_begin(text@, start as int, first as int),
        r <= start,
{
    let mut pos: usize = start;
    while pos > first && text[pos - 1] != 10
        invariant
            pos <= start,
            start <= text@.len() || start <= first,
            line_begin(text@, pos as int, first as int) == line_begin(
                text@,
                start as int,
                first as int,
            ),
        decreases pos,
    {
        pos = pos - 1;
    }
    pos
}

/// The offset where the line some lines further up begins.
fn find_lines_up(text: &Vec<u8>, start: usize, first: usize, n: i128) -> (r: usize)
    requires
        start <= text@.len() || start <= first,
    ensures
        r == lines_up(text@, start as int, first as int, n as int),
        r <= start,
{
    let mut pos: usize = start;
    let mut left: i128 = n;
    while left > 0 && pos > first
        invariant
            pos <= start,
            start <= text@.len() || start <= first,
            lines_up(text@, pos as int, first as int, left as int) == lines_up(
                text@,
                start as int,
                first as int,
                n as int,
            ),
        decreases pos,
    {
        pos = find_line_begin(text, pos - 1, first);
        left = left - 1;
    }
    pos
}

/// The end of the accessible region, inside the text.
pub open spec fn region_end(b: BufferState) -> int {
    min2(b.zv, b.text.len() as int)
}

/// The offset of a position, kept inside the accessible region.
pub open spec fn region_offset(b: BufferState, position: int) -> int {
    let p = b.offset_of(position);
    if p < b.begv {
        b.begv
    } else if p > region_end(b) {
        region_end(b)
    } else {
        p
    }
}

/// The end of the accessible region, inside the text.
fn accessible_end(b: &Buffer) -> (r: usize)
    ensures
        r == region_end(b@),
        r <= b@.text.len(),
{
    if b.zv <= b.text.len() {
        b.zv
    } else {
        b.text.len()
    }
}

/// The offset of a position, kept inside the accessible region.
fn accessible_offset(b: &Buffer, position: i64) -> (r: usize)
    ensures
        r == region_offset(b@, position as int),
        r <= b@.text.len() || r == b@.begv,
{
    let p: usize = b.lisp_pos_to_byte(position);
    let end: usize = accessible_end(b);
    if p < b.begv {
        b.begv
    } else if p > end {
        end
    } else {
        p
    }
}

/// Where point goes by some lines, or the signal at the end or the beginning.
pub open spec fn scrolled_offset(b: BufferState, point: int, lines: int) -> Found<int> {
    let pt = region_offset(b, point);
    if lines > 0 {
        if pt >= region_end(b) {
            Found::Signal(Outcome::Signal("end-of-buffer"@, Lisp::Nil))
        } else {
            Found::Is(lines_down(b.text, pt, region_end(b), lines))
        }
    } else if pt <= b.begv {
        Found::Signal(Outcome::Signal("beginning-of-buffer"@, Lisp::Nil))
    } else {
        Found::Is(lines_up(b.text, line_begin(b.text, pt, b.begv), b.begv, -lines))
    }
}

/// Raises the signal at the end of the buffer.
fn scroll_up_batch_error() -> (r: Flow)
    ensures
        crate::value::signalled(r) == Outcome::Signal("end-of-buffer"@, Lisp::Nil),
{
    signal("end-of-buffer", Value::Nil)
}

/// Raises the signal at the beginning of the buffer.
fn scroll_down_batch_error() -> (r: Flow)
    ensures
        crate::value::signalled(r) == Outcome::Signal("beginning-of-buffer"@, Lisp::Nil),
{
    signal("beginning-of-buffer", Value::Nil)
}

/// Where point goes by some lines.
fn scroll_offset(b: &Buffer, point: i64, lines: i128) -> (r: Result<usize, Flow>)
    requires
        lines > i128::MIN,
    ensures
        match r {
            Ok(p) => scrolled_offset(b@, point as int, lines as int) == Found::Is(p as int),
            Err(e) => scrolled_offset(b@, point as int, lines as int) == Found::<int>::Signal(
                crate::value::signalled(e),
            ),
        },
{
    let pt: usize = accessible_offset(b, point);
    let end: usize = accessible_end(b);
    if lines > 0 {
        if pt >= end {
            return Err(scroll_up_batch_error());
        }
        Ok(find_lines_down(&b.text, pt, end, lines))
    } else {
        if pt <= b.begv {
            return Err(scroll_down_batch_error());
        }
        let begin: usize = find_line_begin(&b.text, pt, b.begv);
        Ok(find_lines_up(&b.text, begin, b.begv, -lines))
    }
}

/// The session after the point of a window and of its buffer went to an offset.
pub open spec fn point_moved(s: UiState, f: u64, w: u64, buffer: u64, offset: int) -> UiState {
    match s.buffers.get(buffer) {
        Some(b) => UiState {
            frames: leaf_changed(
                s.frames,
                f,
                w,
                |l: Leaf| Leaf { point: (b.chars_before(offset) + 1) as usize, ..l },
            ),
            buffers: s.buffers.with_buffer(buffer, moved_point(b, offset)),
        },
        None => s,
    }
}

/// Moving point by lines in the selected window.
pub open spec fn scroll_by_step(st: UiState, lines: int) -> Step {
    on_window(
        booted(st),
        Lisp::Nil,
        "window-live-p"@,
        |s: UiState, f: u64, w: u64|
            match window_in(s.frames, f, w) {
                Found::Is(Window::Leaf(l)) => match s.buffers.get(l.buffer_id) {
                    Some(b) => match scrolled_offset(b, l.point as i64 as int, lines) {
                        Found::Is(p) => gives(
                            point_moved(s, f, w, l.buffer_id, p),
                            Lisp::Nil,
                        ),
                        Found::Signal(o) => ends(s, o),
                    },
                    None => gives(s, Lisp::Nil),
                },
                Found::Is(Window::Internal(_)) => gives(s, Lisp::Nil),
                Found::Signal(o) => ends(s, o),
            },
    )
}

/// Moves point by lines in the selected window; positive numbers go down.
pub fn scroll_by_lines(ui: &mut Ui, lines: i128) -> (r: EvalResult)
    requires
        lines > i128::MIN,
    ensures
        final(ui)@ == scroll_by_step(old(ui)@, lines as int).state,
        outcome(r) == scroll_by_step(old(ui)@, lines as int).end,
{
    let _id: u64 = ensure_selected_frame_id(ui);
    let none: Value = Value::Nil;
    let (f, w) = resolve_window_id(ui, &none)?;
    let l: Leaf = match get_window(&ui.frames, f, w)? {
        Window::Leaf(l) => l,
        Window::Internal(_) => {
            return Ok(Value::Nil);
        },
    };
    let (offset, chars): (usize, usize) = match ui.buffers.get(l.buffer_id) {
        Some(b) => {
            let p: usize = scroll_offset(b, l.point as i64, lines)?;
            (p, b.byte_to_char(p))
        },
        None => {
            return Ok(Value::Nil);
        },
    };
    let ghost before = ui@;
    ui.buffers.goto_buffer_byte(l.buffer_id, offset);
    let mut new: Leaf = l;
    new.point = (chars as u128 + 1) as usize;
    ui.frames.set_leaf(f, w, new);
    proof {
        assert(before.frames.window(f, w) == Some(Window::Leaf(l)));
        assert(ui@ == point_moved(before, f, w, l.buffer_id, offset as int));
    }
    Ok(Value::Nil)
}

/// The height of the selected window's body in lines, 24 where that is not known.
pub open spec fn selected_height(st: UiState) -> (UiState, int) {
    let step = measured(
        st,
        "window-body-height"@,
        Seq::empty(),
        2,
        "window-live-p"@,
        body_height(Seq::empty()),
    );
    (
        step.state,
        match step.end {
            Outcome::Value(Lisp::Int(n)) => n as int,
            _ => 24,
        },
    )
}

/// The height of the selected window's body in lines.
fn selected_body_height(ui: &mut Ui) -> (r: i64)
    ensures
        (final(ui)@, r as int) == selected_height(old(ui)@),
{
    let none: Vec<Value> = Vec::new();
    proof {
        assert(views(none@) =~= Seq::<Lisp>::empty());
    }
    match builtin_window_body_height(ui, &none) {
        Ok(v) => match v.as_int() {
            Some(n) => n,
            None => 24,
        },
        Err(_) => 24,
    }
}

/// How many lines of context stay when a window scrolls by its height.
pub open spec fn context_lines(symbols: Symbols) -> int {
    match symbols.value("next-screen-context-lines"@) {
        Some(Lisp::Int(n)) => n as int,
        _ => 2,
    }
}

/// How far to scroll: by the number that is given, by one line for any other
/// value but `nil`, or by the height of the window but some lines of context.
pub open spec fn scroll_distance(st: UiState, symbols: Symbols, a: Lisp) -> (UiState, int) {
    if a != Lisp::Nil {
        (
            st,
            match a {
                Lisp::Int(n) => n as int,
                _ => 1,
            },
        )
    } else {
        let (s, height) = selected_height(st);
        let n = height - context_lines(symbols);
        (
            s,
            if n < 1 {
                1
            } else {
                n
            },
        )
    }
}

/// How far to scroll.
fn scroll_lines(ui: &mut Ui, symbols: &Obarray, a: &Value) -> (r: i128)
    ensures
        (final(ui)@, r as int) == scroll_distance(old(ui)@, symbols@, a@),
        -0x1_0000_0000_0000_0000 < r < 0x1_0000_0000_0000_0000,
{
    if !a.is_nil() {
        return match a {
            Value::Int(n) => *n as i128,
            _ => 1,
        };
    }
    let height: i64 = selected_body_height(ui);
    let context: i64 = match symbols.symbol_value("next-screen-context-lines") {
        Some(v) => match v.as_int() {
            Some(n) => n,
            None => 2,
        },
        None => 2,
    };
    let n: i128 = height as i128 - context as i128;
    if n < 1 {
        1
    } else {
        n
    }
}

/// `(scroll-up &optional ARG)`, under the given name
pub open spec fn scroll_up_step(
    st: UiState,
    symbols: Symbols,
    name: Seq<char>,
    args: Seq<Lisp>,
) -> Step {
    let (s, n) = scroll_distance(st, symbols, arg(args, 0));
    with_arity(st, name, args, 0, 1, scroll_by_step(s, n))
}

/// `(scroll-down &optional ARG)`, under the given name
pub open spec fn scroll_down_step(
    st: UiState,
    symbols: Symbols,
    name: Seq<char>,
    args: Seq<Lisp>,
) -> Step {
    let (s, n) = scroll_distance(st, symbols, arg(args, 0));
    with_arity(st, name, args, 0, 1, scroll_by_step(s, -n))
}

/// `(scroll-up &optional ARG)` -> nil; point moves down.
pub fn builtin_scroll_up(ui: &mut Ui, symbols: &Obarray, args: &Vec<Value>) -> (r: EvalResult)
    ensures
        final(ui)@ == scroll_up_step(old(ui)@, symbols@, "scroll-up"@, views(args@)).state,
        outcome(r) == scroll_up_step(old(ui)@, symbols@, "scroll-up"@, views(args@)).end,
{
    expect_max_args("scroll-up", args, 1)?;
    let n: i128 = scroll_lines(ui, symbols, &arg_or_nil(args, 0));
    scroll_by_lines(ui, n)
}

/// `(scroll-down &optional ARG)` -> nil; point moves up.
pub fn builtin_scroll_down(ui: &mut Ui, symbols: &Obarray, args: &Vec<Value>) -> (r: EvalResult)
    ensures
        final(ui)@ == scroll_down_step(old(ui)@, symbols@, "scroll-down"@, views(args@)).state,
        outcome(r) == scroll_down_step(old(ui)@, symbols@, "scroll-down"@, views(args@)).end,
{
    expect_max_args("scroll-down", args, 1)?;
    let n: i128 = scroll_lines(ui, symbols, &arg_or_nil(args, 0));
    scroll_by_lines(ui, -n)
}

/// `(scroll-up-command &optional ARG)` -> nil.
pub fn builtin_scroll_up_command(ui: &mut Ui, symbols: &Obarray, args: &Vec<Value>) -> (r:
    EvalResult)
    ensures
        final(ui)@ == scroll_up_step(
            old(ui)@,
            symbols@,
            "scroll-up-command"@,
            views(args@),
        ).state,
        outcome(r) == scroll_up_step(
            old(ui)@,
            symbols@,
            "scroll-up-command"@,
            views(args@),
        ).end,
{
    expect_max_args("scroll-up-command", args, 1)?;
    builtin_scroll_up(ui, symbols, args)
}

/// `(scroll-down-command &optional ARG)` -> nil.
pub fn builtin_scroll_down_command(ui: &mut Ui, symbols: &Obarray, args: &Vec<Value>) -> (r:
    EvalResult)
    ensures
        final(ui)@ == scroll_down_step(
            old(ui)@,
            symbols@,
            "scroll-down-command"@,
            views(args@),
        ).state,
        outcome(r) == scroll_down_step(
            old(ui)@,
            symbols@,
            "scroll-down-command"@,
            views(args@),
        ).end,
{
    expect_max_args("scroll-down-command", args, 1)?;
    builtin_scroll_down(ui, symbols, args)
}

/// The line of the window at which point is to appear: counted from the top, from
/// the bottom for a negative number, and the middle one for anything else.
pub open spec fn recenter_line(height: int, a: Lisp) -> int {
    match a {
        Lisp::Int(n) => if n >= 0 {
            n as int
        } else if height + n < 0 {
            0
        } else {
            height + n
        },
        _ => if height < 0 {
            0
        } else {
            height / 2
        },
    }
}

/// The offset where a window starts that shows point at a line.
pub open spec fn recentered_offset(b: BufferState, point: int, line: int) -> int {
    lines_up(b.text, line_begin(b.text, region_offset(b, point), b.begv), b.begv, line)
}

/// Moving the start of the selected window so that point appears at a line.
pub open spec fn recenter_at_step(st: UiState, line: int) -> Step {
    on_window(
        booted(st),
        Lisp::Nil,
        "window-live-p"@,
        |s: UiState, f: u64, w: u64|
            match window_in(s.frames, f, w) {
                Found::Is(Window::Leaf(l)) => match s.buffers.get(l.buffer_id) {
                    Some(b) => gives(
                        positioned(
                            s,
                            f,
                            w,
                            b.chars_before(
                                recentered_offset(b, l.point as i64 as int, line),
                            ) as int + 1,
                            true,
                            false,
                        ),
                        Lisp::Nil,
                    ),
                    None => gives(s, Lisp::Nil),
                },
                Found::Is(Window::Internal(_)) => gives(s, Lisp::Nil),
                Found::Signal(o) => ends(s, o),
            },
    )
}

/// `(recenter &optional ARG REDISPLAY)`, under the given name
pub open spec fn recenter_step(st: UiState, name: Seq<char>, args: Seq<Lisp>, max: int) -> Step {
    let (s, height) = selected_height(st);
    with_arity(
        st,
        name,
        args,
        0,
        max,
        recenter_at_step(s, recenter_line(height, arg(args, 0))),
    )
}

/// Moves the start of the selected window so that point appears at a line.
fn recenter_at(ui: &mut Ui, line: i64) -> (r: EvalResult)
    ensures
        final(ui)@ == recenter_at_step(old(ui)@, line as int).state,
        outcome(r) == recenter_at_step(old(ui)@, line as int).end,
{
    let _id: u64 = ensure_selected_frame_id(ui);
    let none: Value = Value::Nil;
    let (f, w) = resolve_window_id(ui, &none)?;
    let l: Leaf = match get_window(&ui.frames, f, w)? {
        Window::Leaf(l) => l,
        Window::Internal(_) => {
            return Ok(Value::Nil);
        },
    };
    let chars: usize = match ui.buffers.get(l.buffer_id) {
        Some(b) => {
            let pt: usize = accessible_offset(b, l.point as i64);
            let begin: usize = find_line_begin(&b.text, pt, b.begv);
            b.byte_to_char(find_lines_up(&b.text, begin, b.begv, line as i128))
        },
        None => {
            return Ok(Value::Nil);
        },
    };
    set_position(ui, f, w, chars as i128 + 1, true, false);
    Ok(Value::Nil)
}

/// `(recenter &optional ARG REDISPLAY)` -> nil.
pub fn builtin_recenter(ui: &mut Ui, args: &Vec<Value>) -> (r: EvalResult)
    ensures
        final(ui)@ == recenter_step(old(ui)@, "recenter"@, views(args@), 2).state,
        outcome(r) == recenter_step(old(ui)@, "recenter"@, views(args@), 2).end,
{
    expect_max_args("recenter", args, 2)?;
    let height: i64 = selected_body_height(ui);
    let line: i64 = match arg_or_nil(args, 0).as_int() {
        Some(n) => if n >= 0 {
            n
        } else if (height as i128 + n as i128) < 0 {
            0
        } else {
            (height as i128 + n as i128) as i64
        },
        None => if height < 0 {
            0
        } else {
            height / 2
        },
    };
    recenter_at(ui, line)
}

/// `(recenter-top-bottom &optional ARG)` -> nil.
pub fn builtin_recenter_top_bottom(ui: &mut Ui, args: &Vec<Value>) -> (r: EvalResult)
    ensures
        final(ui)@ == recenter_step(old(ui)@, "recenter-top-bottom"@, views(args@), 1).state,
        outcome(r) == recenter_step(old(ui)@, "recenter-top-bottom"@, views(args@), 1).end,
{
    expect_max_args("recenter-top-bottom", args, 1)?;
    builtin_recenter(ui, args)
}

} // verus!
