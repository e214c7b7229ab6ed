//! Where positions are visible in windows.
use crate::buffer::{max2, min2, Buffer, BufferManager, BufferState, Buffers};
use crate::float::{clamp, clamped};
use crate::frame::{Frame, FrameManager, FrameState, Frames};
use crate::snapshot::{
    drawn_at, drawn_in, numbered_row, DisplayPointSnapshot, DisplayRowSnapshot, Drawn,
};
use crate::value::{
    arg, arg_or_nil, cons, expect_args_range, list2, list4, outcome, symbol_name, views, wrong_type,
    wrong_type_argument, EvalResult, Flow, Lisp, Outcome, Value,
};
use crate::window::{Leaf, Window};
use crate::window_cmds::position::{after_lines, index_after_lines};
use crate::window_cmds::resolve::{designated, found, window_id_from_designator, Found};
use crate::window_cmds::state::{Ui, UiState};
use crate::xdisp::designator::{optional_window, validate_optional_window_designator};
use crate::xdisp::simple::{expect_integer_or_marker, of_arity};
use vstd::prelude::*;

verus! {

/// The frame and the window that an argument stands for: the selected one for nil,
/// none where no window has the number. What stands for no window is an error.
pub open spec fn live_identity(frames: Frames, a: Lisp) -> Found<Option<(u64, u64)>> {
    if a == Lisp::Nil {
        Found::Is(
            match frames.selected_frame() {
                Some(f) => Some((f.id, f.selected_window)),
                None => None,
            },
        )
    } else {
        match designated(a) {
            Some(id) => Found::Is(
                match frames.frame_of_valid(id) {
                    Some(f) => Some((f, id)),
                    None => None,
                },
            ),
            None => Found::Signal(wrong_type("window-live-p"@, a)),
        }
    }
}

/// The frame and the window that an argument stands for.
pub fn resolve_live_window_identity(frames: &FrameManager, a: &Value) -> (r: Result<
    Option<(u64, u64)>,
    Flow,
>)
    ensures
        found(r) == live_identity(frames@, a@),
{
    if a.is_nil() {
        return Ok(
            match frames.selected_frame() {
                Some(f) => Some((f.id, f.selected_window)),
                None => None,
            },
        );
    }
    match window_id_from_designator(a) {
        Some(id) => Ok(
            match frames.find_valid_window_frame_id(id) {
                Some(f) => Some((f, id)),
                None => None,
            },
        ),
        None => Err(wrong_type_argument("window-live-p", a)),
    }
}

/// The text of a window and the cells that it is shown in.
pub struct Shown {
    pub body_height: int,
    pub body_lines: int,
    pub char_width: int,
    pub char_height: int,
    pub window_start: int,
    pub window_point: int,
    pub codes: Seq<u32>,
    pub is_minibuffer: bool,
}

/// The text of a window and the cells that it is shown in.
#[derive(Debug, PartialEq, Eq)]
pub struct ApproxWindowDisplayContext {
    pub body_height: i64,
    pub body_lines: i64,
    pub char_width: i64,
    pub char_height: i64,
    pub window_start: usize,
    pub window_point: u128,
    pub chars: Vec<u32>,
    pub is_minibuffer: bool,
}

impl View for ApproxWindowDisplayContext {
    type V = Shown;

    open spec fn view(&self) -> Shown {
        Shown {
            body_height: self.body_height as int,
            body_lines: self.body_lines as int,
            char_width: self.char_width as int,
            char_height: self.char_height as int,
            window_start: self.window_start as int,
            window_point: self.window_point as int,
            codes: self.chars@,
            is_minibuffer: self.is_minibuffer,
        }
    }
}

impl Shown {
    /// Whether there are cells, and as many rows of them as the body has.
    pub open spec fn wf(self) -> bool {
        &&& 1 <= self.char_width <= u32::MAX
        &&& 1 <= self.char_height <= u32::MAX
        &&& 1 <= self.body_height <= u32::MAX
        &&& 1 <= self.body_lines <= u32::MAX
        &&& (self.body_lines - 1) * self.char_height < self.body_height
        &&& 1 <= self.window_start
        &&& 1 <= self.window_point
    }
}

/// How many cells cover a length.
pub open spec fn covering_cells(length: int, size: int) -> int {
    (length + size - 1) / size
}

/// The text of a window and the cells that it is shown in. The mode line takes the
/// last line, but for the minibuffer window.
pub open spec fn shown_in(f: FrameState, id: u64, l: Leaf, b: BufferState) -> Shown {
    let char_height = max2(f.char_height as int, 1);
    let mini = f.minibuffer_window == Some(id);
    let body_height = max2(
        l.bounds.height - (if mini {
            0
        } else {
            char_height
        }),
        1,
    );
    Shown {
        body_height,
        body_lines: covering_cells(body_height, char_height),
        char_width: max2(f.char_width as int, 1),
        char_height,
        window_start: max2(l.window_start as int, 1),
        window_point: if f.selected_window == id {
            b.chars_before(b.pt) as int + 1
        } else {
            max2(l.point as int, 1)
        },
        codes: b.codes(),
        is_minibuffer: mini,
    }
}

/// The text of a window of a frame, where the window shows a buffer that lives.
pub open spec fn shown_window(
    frames: Frames,
    buffers: Buffers,
    at: Option<(u64, u64)>,
) -> Option<Shown> {
    match at {
        Some((f, w)) => match frames.get(f) {
            Some(frame) => match frame.window(w) {
                Some(Window::Leaf(l)) => match buffers.get(l.buffer_id) {
                    Some(b) => Some(shown_in(frame, w, l, b)),
                    None => None,
                },
                _ => None,
            },
            None => None,
        },
        None => None,
    }
}

/// The text of the window that an argument stands for.
pub open spec fn display_context(frames: Frames, buffers: Buffers, a: Lisp) -> Found<
    Option<Shown>,
> {
    match live_identity(frames, a) {
        Found::Is(at) => Found::Is(shown_window(frames, buffers, at)),
        Found::Signal(o) => Found::Signal(o),
    }
}

/// A context that may be missing.
pub open spec fn context_view(c: Option<ApproxWindowDisplayContext>) -> Option<Shown> {
    match c {
        Some(x) => Some(x@),
        None => None,
    }
}

/// A context that may be missing, or an error.
pub open spec fn context_found(r: Result<Option<ApproxWindowDisplayContext>, Flow>) -> Found<
    Option<Shown>,
> {
    match r {
        Ok(c) => Found::Is(context_view(c)),
        Err(f) => Found::Signal(crate::value::signalled(f)),
    }
}

/// The text of a window of a frame.
fn context_of(f: &Frame, id: u64, l: &Leaf, b: &Buffer) -> (r: ApproxWindowDisplayContext)
    ensures
        r@ == shown_in(f@, id, *l, b@),
        r@.wf(),
{
    let char_height: i64 = if f.char_height < 1 {
        1
    } else {
        f.char_height as i64
    };
    let char_width: i64 = if f.char_width < 1 {
        1
    } else {
        f.char_width as i64
    };
    let mini: bool = match f.minibuffer_window {
        Some(m) => m == id,
        None => false,
    };
    let room: i64 = if mini {
        l.bounds.height as i64
    } else {
        l.bounds.height as i64 - char_height
    };
    let body_height: i64 = if room < 1 {
        1
    } else {
        room
    };
    let body_lines: i64 = (body_height + char_height - 1) / char_height;
    proof {
        lemma_covering_cells(body_height as int, char_height as int);
    }
    ApproxWindowDisplayContext {
        body_height,
        body_lines,
        char_width,
        char_height,
        window_start: if l.window_start < 1 {
            1
        } else {
            l.window_start
        },
        window_point: if f.selected_window == id {
            b.point_char() as u128 + 1
        } else if l.point < 1 {
            1
        } else {
            l.point as u128
        },
        chars: b.codes(),
        is_minibuffer: mini,
    }
}

proof fn lemma_covering_cells(length: int, size: int)
    requires
        1 <= length <= u32::MAX,
        1 <= size <= u32::MAX,
    ensures
        1 <= covering_cells(length, size) <= u32::MAX,
        (covering_cells(length, size) - 1) * size < length,
{
    let n = covering_cells(length, size);
    let x = length + size - 1;
    vstd::arithmetic::div_mod::lemma_fundamental_div_mod(x, size);
    assert(x == size * n + x % size);
    assert((n - 1) * size < length) by (nonlinear_arith)
        requires
            x == size * n + x % size,
            0 <= x % size,
            x == length + size - 1,
    ;
    assert(1 <= n) by (nonlinear_arith)
        requires
            x == size * n + x % size,
            x % size < size,
            x >= size,
            size >= 1,
    ;
    assert(n <= u32::MAX) by (nonlinear_arith)
        requires
            (n - 1) * size < length,
            length <= u32::MAX,
            size >= 1,
            n >= 1,
    ;
}

/// The text of the window that an argument stands for.
pub fn resolve_live_window_display_context(
    frames: &FrameManager,
    buffers: &BufferManager,
    a: &Value,
) -> (r: Result<Option<ApproxWindowDisplayContext>, Flow>)
    ensures
        context_found(r) == display_context(frames@, buffers@, a@),
        r matches Ok(Some(c)) ==> c@.wf(),
{
    let at: Option<(u64, u64)> = resolve_live_window_identity(frames, a)?;
    match at {
        Some((f, w)) => match frames.get(f) {
            Some(frame) => match frame.find_window(w) {
                Some(Window::Leaf(l)) => match buffers.get(l.buffer_id) {
                    Some(b) => Ok(Some(context_of(frame, w, &l, b))),
                    None => Ok(None),
                },
                _ => Ok(None),
            },
            None => Ok(None),
        },
        None => Ok(None),
    }
}

/// The position of point, within the text.
pub open spec fn point_position(c: Shown) -> int {
    min2(c.window_point, c.codes.len() as int + 1)
}

/// The position where the last row of a window starts.
pub open spec fn last_row_position(c: Shown) -> int {
    after_lines(
        c.codes,
        min2(c.window_start - 1, c.codes.len() as int),
        c.body_lines - 1,
    ) + 1
}

/// The position that an argument stands for: the start of the last row for `t`,
/// point for nil.
pub open spec fn target_position(c: Shown, a: Lisp) -> Found<int> {
    if a == Lisp::True {
        Found::Is(last_row_position(c))
    } else if a == Lisp::Nil {
        Found::Is(point_position(c))
    } else {
        match a {
            Lisp::Int(n) => Found::Is(min2(max2(n as int, 1), c.codes.len() as int + 1)),
            _ => Found::Signal(wrong_type("integer-or-marker-p"@, a)),
        }
    }
}

/// A position that was found, or an error.
pub open spec fn position_found(r: Result<u128, Flow>) -> Found<int> {
    match r {
        Ok(n) => Found::Is(n as int),
        Err(f) => Found::Signal(crate::value::signalled(f)),
    }
}

/// The position of point, within the text.
fn current_window_point(c: &ApproxWindowDisplayContext) -> (r: u128)
    ensures
        r == point_position(c@),
{
    let end: u128 = c.chars.len() as u128 + 1;
    if c.window_point < end {
        c.window_point
    } else {
        end
    }
}

/// The position that an argument stands for.
fn resolve_pos_visible_target(c: &ApproxWindowDisplayContext, a: &Value) -> (r: Result<u128, Flow>)
    requires
        c@.wf(),
    ensures
        position_found(r) == target_position(c@, a@),
{
    if a.is_t() {
        let start: usize = if c.window_start - 1 < c.chars.len() {
            c.window_start - 1
        } else {
            c.chars.len()
        };
        let row: usize = index_after_lines(&c.chars, start, (c.body_lines - 1) as u64);
        return Ok(row as u128 + 1);
    }
    if a.is_nil() {
        return Ok(current_window_point(c));
    }
    expect_integer_or_marker(a)?;
    let n: u128 = match a {
        Value::Int(n) => if *n < 1 {
            1
        } else {
            *n as u128
        },
        _ => 1,
    };
    let end: u128 = c.chars.len() as u128 + 1;
    Ok(
        if n < end {
            n
        } else {
            end
        },
    )
}

/// The row and the column that a walk over some text comes to.
pub open spec fn row_col(codes: Seq<u32>, i: int, target: int, row: int, col: int) -> (int, int)
    decreases target - i,
{
    if i < 0 || i >= target || i >= codes.len() {
        (row, col)
    } else if codes[i] == 10 {
        row_col(codes, i + 1, target, row + 1, 0)
    } else {
        row_col(codes, i + 1, target, row, col + 1)
    }
}

/// The row and the column of a position, from the start of a window.
fn row_col_for_position(codes: &Vec<u32>, start: usize, target: usize) -> (r: (u64, u64))
    requires
        target <= codes@.len(),
    ensures
        (r.0 as int, r.1 as int) == row_col(codes@, start as int, target as int, 0, 0),
{
    let mut row: u64 = 0;
    let mut col: u64 = 0;
    let mut i: usize = start;
    while i < target
        invariant
            target <= codes@.len(),
            start <= i,
            i <= target || i == start,
            row <= i - start,
            col <= i - start,
            row_col(codes@, i as int, target as int, row as int, col as int) == row_col(
                codes@,
                start as int,
                target as int,
                0,
                0,
            ),
        decreases target - i,
    {
        if codes[i] == 10 {
            row = row + 1;
            col = 0;
        } else {
            col = col + 1;
        }
        i = i + 1;
    }
    (row, col)
}

/// How a row of a window lies in its body: its height, how much of it is below the
/// body, its number and where it starts.
pub struct RowPlace {
    pub height: int,
    pub vpos: int,
    pub ypos: int,
    pub offbot: int,
}

/// How a row of a window lies in its body.
#[derive(Debug, Clone, Copy, PartialEq, Eq)]
pub struct WindowLineMetrics {
    pub height: i64,
    pub vpos: i64,
    pub ypos: i64,
    pub offbot: i64,
}

impl View for WindowLineMetrics {
    type V = RowPlace;

    open spec fn view(&self) -> RowPlace {
        RowPlace {
            height: self.height as int,
            vpos: self.vpos as int,
            ypos: self.ypos as int,
            offbot: self.offbot as int,
        }
    }
}

/// How a row of a window lies in its body.
pub open spec fn row_place(c: Shown, row: int) -> RowPlace {
    let offbot = max2((row + 1) * c.char_height - c.body_height, 0);
    RowPlace {
        height: max2(c.char_height - offbot, 1),
        vpos: row,
        ypos: row * c.char_height,
        offbot,
    }
}

/// How a row of a window lies in its body.
fn window_row_metrics(c: &ApproxWindowDisplayContext, row: i64) -> (r: WindowLineMetrics)
    requires
        c@.wf(),
        0 <= row < c@.body_lines,
    ensures
        r@ == row_place(c@, row as int),
{
    proof {
        assert(0 <= row * c.char_height <= (c.body_lines - 1) * c.char_height) by (nonlinear_arith)
            requires
                0 <= row <= c.body_lines - 1,
                c.char_height >= 1,
        ;
        assert((row + 1) * c.char_height == row * c.char_height + c.char_height)
            by (nonlinear_arith);
    }
    let ypos: i64 = row * c.char_height;
    let bottom: i64 = ypos + c.char_height;
    let offbot: i64 = if bottom > c.body_height {
        bottom - c.body_height
    } else {
        0
    };
    let height: i64 = if c.char_height - offbot < 1 {
        1
    } else {
        c.char_height - offbot
    };
    WindowLineMetrics { height, vpos: row, ypos, offbot }
}

/// Every row starts inside the body, and what of it is below the body and its
/// height make up a line of cells, where it has a height of its own.
pub proof fn law_row_lies_in_body(c: Shown, row: int)
    requires
        c.wf(),
        0 <= row < c.body_lines,
    ensures
        0 <= row_place(c, row).ypos < c.body_height,
        row_place(c, row).offbot < c.char_height,
        row_place(c, row).height + row_place(c, row).offbot == c.char_height,
{
    assert(0 <= row * c.char_height <= (c.body_lines - 1) * c.char_height) by (nonlinear_arith)
        requires
            0 <= row <= c.body_lines - 1,
            c.char_height >= 1,
    ;
    assert((row + 1) * c.char_height == row * c.char_height + c.char_height) by (nonlinear_arith);
}

/// Where a position is visible: its column in pixels and its row. Nothing where
/// it is before the start of the window or below its last row.
pub open spec fn visible_at(c: Shown, pos: int) -> Option<(int, RowPlace)> {
    if pos < c.window_start {
        None
    } else {
        let (row, col) = row_col(
            c.codes,
            min2(c.window_start - 1, c.codes.len() as int),
            min2(max2(pos - 1, 0), c.codes.len() as int),
            0,
            0,
        );
        if row >= c.body_lines {
            None
        } else {
            Some((clamped(col * c.char_width) as int, row_place(c, row)))
        }
    }
}

/// A place that may be missing.
pub open spec fn place_view(p: Option<(i64, WindowLineMetrics)>) -> Option<(int, RowPlace)> {
    match p {
        Some((x, m)) => Some((x as int, m@)),
        None => None,
    }
}

/// Where a position is visible.
fn approximate_pos_visible_metrics(c: &ApproxWindowDisplayContext, pos: u128) -> (r: Option<
    (i64, WindowLineMetrics),
>)
    requires
        c@.wf(),
    ensures
        place_view(r) == visible_at(c@, pos as int),
{
    if pos < c.window_start as u128 {
        return None;
    }
    let start: usize = if c.window_start - 1 < c.chars.len() {
        c.window_start - 1
    } else {
        c.chars.len()
    };
    let target: usize = if pos == 0 {
        0
    } else if pos - 1 < c.chars.len() as u128 {
        (pos - 1) as usize
    } else {
        c.chars.len()
    };
    let (row, col) = row_col_for_position(&c.chars, start, target);
    if row >= c.body_lines as u64 {
        return None;
    }
    proof {
        assert(0 <= col * c.char_width <= 0xffff_ffff_ffff_ffff * 0xffff_ffff) by (nonlinear_arith)
            requires
                0 <= col <= 0xffff_ffff_ffff_ffff,
                1 <= c.char_width <= 0xffff_ffff,
        ;
    }
    let x: i64 = clamp(col as i128 * c.char_width as i128);
    Some((x, window_row_metrics(c, row as i64)))
}

/// Where a position was drawn last in the window that an argument stands for;
/// nothing where nothing was drawn there.
pub open spec fn exact_place(frames: Frames, buffers: Buffers, window: Lisp, pos: Lisp) -> Found<
    Option<(u64, DisplayPointSnapshot)>,
> {
    match live_identity(frames, window) {
        Found::Is(Some((f, w))) => match frames.get(f) {
            Some(frame) => match drawn_in(frame.drawn, w) {
                Some(d) => match shown_window(frames, buffers, Some((f, w))) {
                    Some(c) => match target_position(c, pos) {
                        Found::Is(n) => Found::Is(
                            match drawn_at(d.points, n) {
                                Some(p) => Some((w, p)),
                                None => None,
                            },
                        ),
                        Found::Signal(o) => Found::Signal(o),
                    },
                    None => Found::Is(None),
                },
                None => Found::Is(None),
            },
            None => Found::Is(None),
        },
        Found::Is(None) => Found::Is(None),
        Found::Signal(o) => Found::Signal(o),
    }
}

/// Where a position was drawn last.
pub fn resolve_exact_visible_metrics(
    frames: &FrameManager,
    buffers: &BufferManager,
    window: &Value,
    pos: &Value,
) -> (r: Result<Option<(u64, DisplayPointSnapshot)>, Flow>)
    ensures
        found(r) == exact_place(frames@, buffers@, window@, pos@),
{
    let at: Option<(u64, u64)> = resolve_live_window_identity(frames, window)?;
    match at {
        Some((f, w)) => match frames.get(f) {
            Some(frame) => match frame.window_display_snapshot(w) {
                Some(d) => {
                    let context: Option<ApproxWindowDisplayContext> =
                        resolve_live_window_display_context(frames, buffers, window)?;
                    match context {
                        Some(c) => {
                            let n: u128 = resolve_pos_visible_target(&c, pos)?;
                            if n > usize::MAX as u128 {
                                proof {
                                    lemma_not_drawn(d@.points, n as int);
                                }
                                return Ok(None);
                            }
                            Ok(
                                match d.point_for_buffer_pos(n as usize) {
                                    Some(p) => Some((w, p)),
                                    None => None,
                                },
                            )
                        },
                        None => Ok(None),
                    }
                },
                None => Ok(None),
            },
            None => Ok(None),
        },
        None => Ok(None),
    }
}

/// A position beyond every number was not drawn.
proof fn lemma_not_drawn(s: Seq<DisplayPointSnapshot>, pos: int)
    requires
        pos > usize::MAX,
    ensures
        drawn_at(s, pos) is None,
{
    lemma_no_point_from(s, pos, None);
}

proof fn lemma_no_point_from(
    s: Seq<DisplayPointSnapshot>,
    pos: int,
    before: Option<DisplayPointSnapshot>,
)
    requires
        pos > usize::MAX,
    ensures
        crate::snapshot::point_from(s, pos, before) is None,
    decreases s.len(),
{
    if s.len() > 0 {
        lemma_no_point_from(s.drop_first(), pos, Some(s[0]));
    }
}

/// What `pos-visible-in-window-p` gives for a place that is not drawn exactly.
pub open spec fn visible_value(p: Option<(int, RowPlace)>, partially: bool) -> Lisp {
    match p {
        None => Lisp::Nil,
        Some((x, m)) => if !partially {
            if m.offbot == 0 {
                Lisp::True
            } else {
                Lisp::Nil
            }
        } else if m.offbot == 0 {
            list2(Lisp::Int(x as i64), Lisp::Int(m.ypos as i64))
        } else {
            cons(
                Lisp::Int(x as i64),
                cons(
                    Lisp::Int(m.ypos as i64),
                    list4(
                        Lisp::Int(0),
                        Lisp::Int(m.offbot as i64),
                        Lisp::Int(m.height as i64),
                        Lisp::Int(m.vpos as i64),
                    ),
                ),
            )
        },
    }
}

/// `(pos-visible-in-window-p &optional POS WINDOW PARTIALLY)`
pub open spec fn pos_visible(st: UiState, args: Seq<Lisp>) -> Outcome {
    of_arity(
        "pos-visible-in-window-p"@,
        args,
        0,
        3,
        if !optional_window(st.frames, arg(args, 1)) {
            wrong_type("window-live-p"@, arg(args, 1))
        } else {
            let partially = arg(args, 2) != Lisp::Nil;
            match exact_place(st.frames, st.buffers, arg(args, 1), arg(args, 0)) {
                Found::Signal(o) => o,
                Found::Is(Some((_, p))) => Outcome::Value(
                    if partially {
                        list2(Lisp::Int(p.x), Lisp::Int(p.y))
                    } else {
                        Lisp::True
                    },
                ),
                Found::Is(None) => match display_context(
                    st.frames,
                    st.buffers,
                    arg(args, 1),
                ) {
                    Found::Signal(o) => o,
                    Found::Is(None) => Outcome::Value(Lisp::Nil),
                    Found::Is(Some(c)) => match target_position(c, arg(args, 0)) {
                        Found::Signal(o) => o,
                        Found::Is(pos) => Outcome::Value(
                            visible_value(visible_at(c, pos), partially),
                        ),
                    },
                },
            }
        },
    )
}

/// `(pos-visible-in-window-p &optional POS WINDOW PARTIALLY)`: whether POS is
/// visible in WINDOW, and where, by what was drawn last or else by counting lines.
pub fn builtin_pos_visible_in_window_p_ctx(ui: &Ui, args: &Vec<Value>) -> (r: EvalResult)
    ensures
        outcome(r) == pos_visible(ui@, views(args@)),
{
    expect_args_range("pos-visible-in-window-p", args, 0, 3)?;
    let window: Value = arg_or_nil(args, 1);
    let pos: Value = arg_or_nil(args, 0);
    validate_optional_window_designator(&ui.frames, &window, "window-live-p")?;
    let partially: bool = arg_or_nil(args, 2).is_truthy();
    let exact: Option<(u64, DisplayPointSnapshot)> = resolve_exact_visible_metrics(
        &ui.frames,
        &ui.buffers,
        &window,
        &pos,
    )?;
    match exact {
        Some((_, p)) => {
            return Ok(
                if partially {
                    Value::list2(Value::Int(p.x), Value::Int(p.y))
                } else {
                    Value::True
                },
            );
        },
        None => {},
    }
    let context: Option<ApproxWindowDisplayContext> = resolve_live_window_display_context(
        &ui.frames,
        &ui.buffers,
        &window,
    )?;
    match context {
        None => Ok(Value::Nil),
        Some(c) => {
            let n: u128 = resolve_pos_visible_target(&c, &pos)?;
            match approximate_pos_visible_metrics(&c, n) {
                None => Ok(Value::Nil),
                Some((x, m)) => {
                    if !partially {
                        return Ok(Value::bool_val(m.offbot == 0));
                    }
                    if m.offbot == 0 {
                        return Ok(Value::list2(Value::Int(x), Value::Int(m.ypos)));
                    }
                    Ok(
                        Value::cons(
                            Value::Int(x),
                            Value::cons(
                                Value::Int(m.ypos),
                                Value::list4(
                                    Value::Int(0),
                                    Value::Int(m.offbot),
                                    Value::Int(m.height),
                                    Value::Int(m.vpos),
                                ),
                            ),
                        ),
                    )
                },
            }
        },
    }
}

/// Whether an argument names a line of a window that is no line of text.
pub open spec fn is_decoration(a: Lisp) -> bool {
    symbol_name(a) == Some("mode-line"@) || symbol_name(a) == Some("header-line"@)
        || symbol_name(a) == Some("tab-line"@)
}

/// The row that a line number means among some rows: from the end where it is negative.
pub open spec fn row_number(n: i64, rows: int) -> int {
    if n < 0 {
        rows + n
    } else {
        n as int
    }
}

/// The row of a window that was drawn last and that an argument means.
pub open spec fn drawn_row(
    st: UiState,
    d: Drawn,
    window: Lisp,
    line: Lisp,
) -> Found<Option<DisplayRowSnapshot>> {
    if line == Lisp::Nil {
        match exact_place(st.frames, st.buffers, window, Lisp::Nil) {
            Found::Is(Some((_, p))) => Found::Is(numbered_row(d.rows, p.row as int)),
            Found::Is(None) => Found::Is(None),
            Found::Signal(o) => Found::Signal(o),
        }
    } else if is_decoration(line) {
        Found::Is(None)
    } else {
        match line {
            Lisp::Int(n) => Found::Is(
                numbered_row(d.rows, row_number(n, d.rows.len() as int)),
            ),
            _ => Found::Signal(wrong_type("integerp"@, line)),
        }
    }
}

/// The row that was drawn last in the window that an argument stands for.
pub open spec fn exact_row(st: UiState, window: Lisp, line: Lisp) -> Found<
    Option<DisplayRowSnapshot>,
> {
    match live_identity(st.frames, window) {
        Found::Is(Some((f, w))) => match st.frames.get(f) {
            Some(frame) => match drawn_in(frame.drawn, w) {
                Some(d) => drawn_row(st, d, window, line),
                None => Found::Is(None),
            },
            None => Found::Is(None),
        },
        Found::Is(None) => Found::Is(None),
        Found::Signal(o) => Found::Signal(o),
    }
}

/// The row that was drawn last in the window that an argument stands for.
fn resolve_exact_row(ui: &Ui, window: &Value, line: &Value) -> (r: Result<
    Option<DisplayRowSnapshot>,
    Flow,
>)
    ensures
        found(r) == exact_row(ui@, window@, line@),
{
    let at: Option<(u64, u64)> = resolve_live_window_identity(&ui.frames, window)?;
    match at {
        Some((f, w)) => match ui.frames.get(f) {
            Some(frame) => match frame.window_display_snapshot(w) {
                Some(d) => {
                    if line.is_nil() {
                        let exact: Option<(u64, DisplayPointSnapshot)> =
                            resolve_exact_visible_metrics(
                            &ui.frames,
                            &ui.buffers,
                            window,
                            &Value::Nil,
                        )?;
                        return Ok(
                            match exact {
                                Some((_, p)) => d.row_metrics(p.row as i128),
                                None => None,
                            },
                        );
                    }
                    if line.is_symbol_named("mode-line") || line.is_symbol_named("header-line")
                        || line.is_symbol_named("tab-line") {
                        return Ok(None);
                    }
                    match line {
                        Value::Int(n) => {
                            let row: i128 = if *n < 0 {
                                d.rows.len() as i128 + *n as i128
                            } else {
                                *n as i128
                            };
                            Ok(d.row_metrics(row))
                        },
                        _ => Err(wrong_type_argument("integerp", line)),
                    }
                },
                None => Ok(None),
            },
            None => Ok(None),
        },
        None => Ok(None),
    }
}

/// The row of a window that an argument means, by counting lines.
pub open spec fn counted_row(c: Shown, line: Lisp) -> Found<Option<RowPlace>> {
    if line == Lisp::Nil {
        Found::Is(
            match visible_at(c, point_position(c)) {
                Some((_, m)) => Some(m),
                None => None,
            },
        )
    } else if symbol_name(line) == Some("mode-line"@) {
        Found::Is(
            if c.is_minibuffer {
                None
            } else {
                Some(
                    RowPlace { height: c.char_height, vpos: 0, ypos: c.body_height, offbot: 0 },
                )
            },
        )
    } else if is_decoration(line) {
        Found::Is(None)
    } else {
        match line {
            Lisp::Int(n) => {
                let row = row_number(n, c.body_lines);
                Found::Is(
                    if 0 <= row < c.body_lines {
                        Some(row_place(c, row))
                    } else {
                        None
                    },
                )
            },
            _ => Found::Signal(wrong_type("integerp"@, line)),
        }
    }
}

/// The place of a row that was found, or an error.
pub open spec fn place_found(r: Result<Option<WindowLineMetrics>, Flow>) -> Found<
    Option<RowPlace>,
> {
    match r {
        Ok(Some(m)) => Found::Is(Some(m@)),
        Ok(None) => Found::Is(None),
        Err(f) => Found::Signal(crate::value::signalled(f)),
    }
}

/// The row of a window that an argument means, by counting lines.
fn resolve_counted_row(c: &ApproxWindowDisplayContext, line: &Value) -> (r: Result<
    Option<WindowLineMetrics>,
    Flow,
>)
    requires
        c@.wf(),
    ensures
        place_found(r) == counted_row(c@, line@),
{
    if line.is_nil() {
        let pos: u128 = current_window_point(c);
        return Ok(
            match approximate_pos_visible_metrics(c, pos) {
                Some((_, m)) => Some(m),
                None => None,
            },
        );
    }
    if line.is_symbol_named("mode-line") {
        return Ok(
            if c.is_minibuffer {
                None
            } else {
                Some(
                    WindowLineMetrics {
                        height: c.char_height,
                        vpos: 0,
                        ypos: c.body_height,
                        offbot: 0,
                    },
                )
            },
        );
    }
    if line.is_symbol_named("header-line") || line.is_symbol_named("tab-line") {
        return Ok(None);
    }
    match line {
        Value::Int(n) => {
            let row: i128 = if *n < 0 {
                c.body_lines as i128 + *n as i128
            } else {
                *n as i128
            };
            if row < 0 || row >= c.body_lines as i128 {
                Ok(None)
            } else {
                Ok(Some(window_row_metrics(c, row as i64)))
            }
        },
        _ => Err(wrong_type_argument("integerp", line)),
    }
}

/// `(window-line-height &optional LINE WINDOW)`
pub open spec fn window_line_height(st: UiState, args: Seq<Lisp>) -> Outcome {
    of_arity(
        "window-line-height"@,
        args,
        0,
        2,
        if !optional_window(st.frames, arg(args, 1)) {
            wrong_type("window-live-p"@, arg(args, 1))
        } else {
            match exact_row(st, arg(args, 1), arg(args, 0)) {
                Found::Signal(o) => o,
                Found::Is(Some(row)) => Outcome::Value(
                    list4(
                        Lisp::Int(row.height),
                        Lisp::Int(row.row),
                        Lisp::Int(row.y),
                        Lisp::Int(0),
                    ),
                ),
                Found::Is(None) => match display_context(
                    st.frames,
                    st.buffers,
                    arg(args, 1),
                ) {
                    Found::Signal(o) => o,
                    Found::Is(None) => Outcome::Value(Lisp::Nil),
                    Found::Is(Some(c)) => match counted_row(c, arg(args, 0)) {
                        Found::Signal(o) => o,
                        Found::Is(None) => Outcome::Value(Lisp::Nil),
                        Found::Is(Some(m)) => Outcome::Value(
                            list4(
                                Lisp::Int(m.height as i64),
                                Lisp::Int(m.vpos as i64),
                                Lisp::Int(m.ypos as i64),
                                Lisp::Int(m.offbot as i64),
                            ),
                        ),
                    },
                },
            }
        },
    )
}

/// `(window-line-height &optional LINE WINDOW)` -> `(HEIGHT VPOS YPOS OFFBOT)`.
pub fn builtin_window_line_height(ui: &Ui, args: &Vec<Value>) -> (r: EvalResult)
    ensures
        outcome(r) == window_line_height(ui@, views(args@)),
{
    expect_args_range("window-line-height", args, 0, 2)?;
    let window: Value = arg_or_nil(args, 1);
    let line: Value = arg_or_nil(args, 0);
    validate_optional_window_designator(&ui.frames, &window, "window-live-p")?;
    let exact: Option<DisplayRowSnapshot> = resolve_exact_row(ui, &window, &line)?;
    match exact {
        Some(row) => {
            return Ok(
                Value::list4(
                    Value::Int(row.height),
                    Value::Int(row.row),
                    Value::Int(row.y),
                    Value::Int(0),
                ),
            );
        },
        None => {},
    }
    let context: Option<ApproxWindowDisplayContext> = resolve_live_window_display_context(
        &ui.frames,
        &ui.buffers,
        &window,
    )?;
    match context {
        None => Ok(Value::Nil),
        Some(c) => {
            let row: Option<WindowLineMetrics> = resolve_counted_row(&c, &line)?;
            match row {
                None => Ok(Value::Nil),
                Some(m) => Ok(
                    Value::list4(
                        Value::Int(m.height),
                        Value::Int(m.vpos),
                        Value::Int(m.ypos),
                        Value::Int(m.offbot),
                    ),
                ),
            }
        },
    }
}

} // verus!
