//! The size of a frame in columns and lines, and the builtins that ask for it and set it.
use crate::frame::{Frame, FrameManager, FrameState, Frames};
use crate::table::with_entry;
use crate::value::outcome;
use crate::value::{
    arg, arg_or_nil, cons, error_outcome, expect_args, expect_args_range, expect_max_args, views,
    EvalResult, Lisp, Value,
};
use crate::window_cmds::args::{expect_int, int_arg};
use crate::window_cmds::query::{on_frame, with_arity};
use crate::window_cmds::resolve::{
    after, found, frame_arg, get_frame, resolve_frame_id, Found,
};
use crate::window_cmds::state::{ends, gives, Step, Ui, UiState};
use vstd::prelude::*;

verus! {

/// The fewest columns that a frame is set to.
pub const MIN_FRAME_COLS: i64 = 10;

/// The fewest lines of text that a frame is set to.
pub const MIN_FRAME_TEXT_LINES: i64 = 5;

/// The most columns or lines that a frame is set to.
pub const MAX_FRAME_CELLS: i64 = 0xFFFF_FFFF;

impl FrameState {
    /// The width in columns: the parameter `width`, or what fits.
    pub open spec fn total_cols(self) -> int {
        match self.int_parameter("width"@) {
            Some(n) => n as int,
            None => self.columns(),
        }
    }

    /// The height in lines: the parameter `height`, or what fits.
    pub open spec fn total_lines(self) -> int {
        match self.int_parameter("height"@) {
            Some(n) => n as int,
            None => self.lines(),
        }
    }

    /// The height of the text in lines: as it was set, or the height in lines.
    pub open spec fn text_lines(self) -> int {
        match self.int_parameter("neovm--frame-text-lines"@) {
            Some(n) => n as int,
            None => self.total_lines(),
        }
    }

    /// The frame set to a size of its text.
    pub open spec fn with_text_size(self, cols: int, lines: int) -> FrameState {
        let c = frame_dimension(cols, MIN_FRAME_COLS as int);
        let l = frame_dimension(lines, MIN_FRAME_TEXT_LINES as int);
        let total = if l + 1 <= MAX_FRAME_CELLS {
            l + 1
        } else {
            MAX_FRAME_CELLS as int
        };
        self.with_parameter("width"@, Lisp::Int(c as i64)).with_parameter(
            "height"@,
            Lisp::Int(total as i64),
        ).with_parameter("neovm--frame-text-lines"@, Lisp::Int(l as i64))
    }
}

/// A number of columns or lines kept between a minimum and the maximum.
pub open spec fn frame_dimension(n: int, minimum: int) -> int {
    if n < minimum {
        minimum
    } else if n > MAX_FRAME_CELLS {
        MAX_FRAME_CELLS as int
    } else {
        n
    }
}

/// A number of columns or lines kept between a minimum and the maximum.
pub fn clamp_frame_dimension(n: i64, minimum: i64) -> (r: i64)
    requires
        minimum <= MAX_FRAME_CELLS,
    ensures
        r == frame_dimension(n as int, minimum as int),
        minimum <= r <= MAX_FRAME_CELLS,
{
    if n < minimum {
        minimum
    } else if n > MAX_FRAME_CELLS {
        MAX_FRAME_CELLS
    } else {
        n
    }
}

impl Frame {
    /// The width in columns.
    pub fn frame_total_cols(&self) -> (r: i64)
        ensures
            r == self@.total_cols(),
    {
        match self.frame_parameter_int("width") {
            Some(n) => n,
            None => self.columns(),
        }
    }

    /// The height in lines.
    pub fn frame_total_lines(&self) -> (r: i64)
        ensures
            r == self@.total_lines(),
    {
        match self.frame_parameter_int("height") {
            Some(n) => n,
            None => self.lines(),
        }
    }

    /// The height of the text in lines.
    pub fn frame_text_lines(&self) -> (r: i64)
        ensures
            r == self@.text_lines(),
    {
        match self.frame_parameter_int("neovm--frame-text-lines") {
            Some(n) => n,
            None => self.frame_total_lines(),
        }
    }

    /// Sets the size of the text; the size in pixels stays.
    pub fn set_frame_text_size(&mut self, cols: i64, text_lines: i64)
        ensures
            final(self)@ == old(self)@.with_text_size(cols as int, text_lines as int),
    {
        let c: i64 = clamp_frame_dimension(cols, MIN_FRAME_COLS);
        let l: i64 = clamp_frame_dimension(text_lines, MIN_FRAME_TEXT_LINES);
        let total: i64 = if l + 1 <= MAX_FRAME_CELLS {
            l + 1
        } else {
            MAX_FRAME_CELLS
        };
        self.set_parameter("width", Value::Int(c));
        self.set_parameter("height", Value::Int(total));
        self.set_parameter("neovm--frame-text-lines", Value::Int(l));
    }
}

impl FrameManager {
    /// Sets the size of the text of a frame.
    pub fn set_frame_text_size(&mut self, id: u64, cols: i64, text_lines: i64)
        ensures
            final(self)@ == text_size_set(old(self)@, id, cols as int, text_lines as int),
    {
        let i: usize = self.index_of(id);
        let ghost before = self@;
        if i < self.list.len() {
            self.list[i].set_frame_text_size(cols, text_lines);
            proof {
                assert(self@.list =~= text_size_set(
                    before,
                    id,
                    cols as int,
                    text_lines as int,
                ).list);
                assert(self@.records =~= before.records);
            }
        }
    }
}

/// The frames with the size of the text of one of them set.
pub open spec fn text_size_set(frames: Frames, id: u64, cols: int, lines: int) -> Frames {
    match frames.get(id) {
        Some(f) => frames.with_frame(id, f.with_text_size(cols, lines)),
        None => frames,
    }
}

/// A builtin that gives a number of a frame.
pub open spec fn frame_number_step(
    st: UiState,
    name: Seq<char>,
    args: Seq<Lisp>,
    number: spec_fn(FrameState) -> int,
) -> Step {
    with_arity(
        st,
        name,
        args,
        0,
        1,
        on_frame(
            st,
            arg(args, 0),
            "framep"@,
            |s: UiState, f: FrameState| gives(s, Lisp::Int(number(f) as i64)),
        ),
    )
}

/// A builtin that gives a number of a frame, or a default where the frame is missing.
pub open spec fn cell_size_step(
    st: UiState,
    name: Seq<char>,
    args: Seq<Lisp>,
    number: spec_fn(FrameState) -> int,
    missing: i64,
) -> Step {
    with_arity(
        st,
        name,
        args,
        0,
        1,
        match frame_arg(st, arg(args, 0), "framep"@) {
            Found::Is(id) => gives(
                after(st, arg(args, 0)),
                match after(st, arg(args, 0)).frames.get(id) {
                    Some(f) => Lisp::Int(number(f) as i64),
                    None => Lisp::Int(missing),
                },
            ),
            Found::Signal(o) => ends(after(st, arg(args, 0)), o),
        },
    )
}

/// `(frame-char-height &optional FRAME)` -> integer.
pub fn builtin_frame_char_height(ui: &mut Ui, args: &Vec<Value>) -> (r: EvalResult)
    ensures
        ({
            let step = cell_size_step(
                old(ui)@,
                "frame-char-height"@,
                views(args@),
                |f: FrameState| f.char_height as int,
                16,
            );
            final(ui)@ == step.state && outcome(r) == step.end
        }),
{
    expect_max_args("frame-char-height", args, 1)?;
    let id: u64 = resolve_frame_id(ui, &arg_or_nil(args, 0), "framep")?;
    match ui.frames.get(id) {
        Some(f) => Ok(Value::Int(f.char_height as i64)),
        None => Ok(Value::Int(16)),
    }
}

/// `(frame-char-width &optional FRAME)` -> integer.
pub fn builtin_frame_char_width(ui: &mut Ui, args: &Vec<Value>) -> (r: EvalResult)
    ensures
        ({
            let step = cell_size_step(
                old(ui)@,
                "frame-char-width"@,
                views(args@),
                |f: FrameState| f.char_width as int,
                8,
            );
            final(ui)@ == step.state && outcome(r) == step.end
        }),
{
    expect_max_args("frame-char-width", args, 1)?;
    let id: u64 = resolve_frame_id(ui, &arg_or_nil(args, 0), "framep")?;
    match ui.frames.get(id) {
        Some(f) => Ok(Value::Int(f.char_width as i64)),
        None => Ok(Value::Int(8)),
    }
}

/// The height in pixels on a window system, in lines otherwise.
pub open spec fn native_height(f: FrameState) -> int {
    if f.on_window_system() {
        f.height as int
    } else {
        f.total_lines()
    }
}

/// The width in pixels on a window system, in columns otherwise.
pub open spec fn native_width(f: FrameState) -> int {
    if f.on_window_system() {
        f.width as int
    } else {
        f.total_cols()
    }
}

/// The height of the text in pixels on a window system, in lines otherwise.
pub open spec fn text_height(f: FrameState) -> int {
    if f.on_window_system() {
        f.height as int
    } else {
        f.text_lines()
    }
}

/// `(frame-native-height &optional FRAME)` -> integer.
pub fn builtin_frame_native_height(ui: &mut Ui, args: &Vec<Value>) -> (r: EvalResult)
    ensures
        ({
            let step = frame_number_step(
                old(ui)@,
                "frame-native-height"@,
                views(args@),
                |f: FrameState| native_height(f),
            );
            final(ui)@ == step.state && outcome(r) == step.end
        }),
{
    expect_max_args("frame-native-height", args, 1)?;
    let id: u64 = resolve_frame_id(ui, &arg_or_nil(args, 0), "framep")?;
    let f = get_frame(&ui.frames, id)?;
    if f.uses_window_system() {
        Ok(Value::Int(f.height as i64))
    } else {
        Ok(Value::Int(f.frame_total_lines()))
    }
}

/// `(frame-native-width &optional FRAME)` -> integer.
pub fn builtin_frame_native_width(ui: &mut Ui, args: &Vec<Value>) -> (r: EvalResult)
    ensures
        ({
            let step = frame_number_step(
                old(ui)@,
                "frame-native-width"@,
                views(args@),
                |f: FrameState| native_width(f),
            );
            final(ui)@ == step.state && outcome(r) == step.end
        }),
{
    expect_max_args("frame-native-width", args, 1)?;
    let id: u64 = resolve_frame_id(ui, &arg_or_nil(args, 0), "framep")?;
    let f = get_frame(&ui.frames, id)?;
    if f.uses_window_system() {
        Ok(Value::Int(f.width as i64))
    } else {
        Ok(Value::Int(f.frame_total_cols()))
    }
}

/// `(frame-text-cols &optional FRAME)` -> integer.
pub fn builtin_frame_text_cols(ui: &mut Ui, args: &Vec<Value>) -> (r: EvalResult)
    ensures
        ({
            let step = frame_number_step(
                old(ui)@,
                "frame-text-cols"@,
                views(args@),
                |f: FrameState| f.total_cols(),
            );
            final(ui)@ == step.state && outcome(r) == step.end
        }),
{
    expect_max_args("frame-text-cols", args, 1)?;
    let id: u64 = resolve_frame_id(ui, &arg_or_nil(args, 0), "framep")?;
    let f = get_frame(&ui.frames, id)?;
    Ok(Value::Int(f.frame_total_cols()))
}

/// `(frame-text-lines &optional FRAME)` -> integer.
pub fn builtin_frame_text_lines(ui: &mut Ui, args: &Vec<Value>) -> (r: EvalResult)
    ensures
        ({
            let step = frame_number_step(
                old(ui)@,
                "frame-text-lines"@,
                views(args@),
                |f: FrameState| f.text_lines(),
            );
            final(ui)@ == step.state && outcome(r) == step.end
        }),
{
    expect_max_args("frame-text-lines", args, 1)?;
    let id: u64 = resolve_frame_id(ui, &arg_or_nil(args, 0), "framep")?;
    let f = get_frame(&ui.frames, id)?;
    Ok(Value::Int(f.frame_text_lines()))
}

/// `(frame-text-width &optional FRAME)` -> integer.
pub fn builtin_frame_text_width(ui: &mut Ui, args: &Vec<Value>) -> (r: EvalResult)
    ensures
        ({
            let step = frame_number_step(
                old(ui)@,
                "frame-text-width"@,
                views(args@),
                |f: FrameState| native_width(f),
            );
            final(ui)@ == step.state && outcome(r) == step.end
        }),
{
    expect_max_args("frame-text-width", args, 1)?;
    let id: u64 = resolve_frame_id(ui, &arg_or_nil(args, 0), "framep")?;
    let f = get_frame(&ui.frames, id)?;
    if f.uses_window_system() {
        Ok(Value::Int(f.width as i64))
    } else {
        Ok(Value::Int(f.frame_total_cols()))
    }
}

/// `(frame-text-height &optional FRAME)` -> integer.
pub fn builtin_frame_text_height(ui: &mut Ui, args: &Vec<Value>) -> (r: EvalResult)
    ensures
        ({
            let step = frame_number_step(
                old(ui)@,
                "frame-text-height"@,
                views(args@),
                |f: FrameState| text_height(f),
            );
            final(ui)@ == step.state && outcome(r) == step.end
        }),
{
    expect_max_args("frame-text-height", args, 1)?;
    let id: u64 = resolve_frame_id(ui, &arg_or_nil(args, 0), "framep")?;
    let f = get_frame(&ui.frames, id)?;
    if f.uses_window_system() {
        Ok(Value::Int(f.height as i64))
    } else {
        Ok(Value::Int(f.frame_text_lines()))
    }
}

/// `(frame-total-cols &optional FRAME)` -> integer.
pub fn builtin_frame_total_cols(ui: &mut Ui, args: &Vec<Value>) -> (r: EvalResult)
    ensures
        ({
            let step = frame_number_step(
                old(ui)@,
                "frame-total-cols"@,
                views(args@),
                |f: FrameState| f.total_cols(),
            );
            final(ui)@ == step.state && outcome(r) == step.end
        }),
{
    expect_max_args("frame-total-cols", args, 1)?;
    let id: u64 = resolve_frame_id(ui, &arg_or_nil(args, 0), "framep")?;
    let f = get_frame(&ui.frames, id)?;
    Ok(Value::Int(f.frame_total_cols()))
}

/// `(frame-total-lines &optional FRAME)` -> integer.
pub fn builtin_frame_total_lines(ui: &mut Ui, args: &Vec<Value>) -> (r: EvalResult)
    ensures
        ({
            let step = frame_number_step(
                old(ui)@,
                "frame-total-lines"@,
                views(args@),
                |f: FrameState| f.total_lines(),
            );
            final(ui)@ == step.state && outcome(r) == step.end
        }),
{
    expect_max_args("frame-total-lines", args, 1)?;
    let id: u64 = resolve_frame_id(ui, &arg_or_nil(args, 0), "framep")?;
    let f = get_frame(&ui.frames, id)?;
    Ok(Value::Int(f.frame_total_lines()))
}

/// `(frame-position &optional FRAME)`
pub open spec fn frame_position_step(st: UiState, args: Seq<Lisp>) -> Step {
    with_arity(
        st,
        "frame-position"@,
        args,
        0,
        1,
        match frame_arg(st, arg(args, 0), "frame-live-p"@) {
            Found::Is(_) => gives(
                after(st, arg(args, 0)),
                cons(Lisp::Int(0), Lisp::Int(0)),
            ),
            Found::Signal(o) => ends(after(st, arg(args, 0)), o),
        },
    )
}

/// `(frame-position &optional FRAME)` -> (X . Y).
pub fn builtin_frame_position(ui: &mut Ui, args: &Vec<Value>) -> (r: EvalResult)
    ensures
        final(ui)@ == frame_position_step(old(ui)@, views(args@)).state,
        outcome(r) == frame_position_step(old(ui)@, views(args@)).end,
{
    expect_max_args("frame-position", args, 1)?;
    let _id: u64 = resolve_frame_id(ui, &arg_or_nil(args, 0), "frame-live-p")?;
    Ok(Value::cons(Value::Int(0), Value::Int(0)))
}

/// `(set-frame-height FRAME HEIGHT &optional PRETEND PIXELWISE)`
pub open spec fn set_frame_height_step(st: UiState, args: Seq<Lisp>) -> Step {
    let s = after(st, arg(args, 0));
    with_arity(
        st,
        "set-frame-height"@,
        args,
        2,
        4,
        match frame_arg(st, arg(args, 0), "frame-live-p"@) {
            Found::Is(id) => match int_arg(arg(args, 1), "integerp"@) {
                Found::Is(lines) => match s.frames.get(id) {
                    Some(f) => gives(
                        s.with_frames(
                            text_size_set(s.frames, id, f.total_cols(), lines as int),
                        ),
                        Lisp::Nil,
                    ),
                    None => ends(s, error_outcome("Frame not found"@)),
                },
                Found::Signal(o) => ends(s, o),
            },
            Found::Signal(o) => ends(s, o),
        },
    )
}

/// `(set-frame-height FRAME HEIGHT &optional PRETEND PIXELWISE)` -> nil.
pub fn builtin_set_frame_height(ui: &mut Ui, args: &Vec<Value>) -> (r: EvalResult)
    ensures
        final(ui)@ == set_frame_height_step(old(ui)@, views(args@)).state,
        outcome(r) == set_frame_height_step(old(ui)@, views(args@)).end,
{
    expect_args_range("set-frame-height", args, 2, 4)?;
    let id: u64 = resolve_frame_id(ui, &args[0], "frame-live-p")?;
    let lines: i64 = expect_int(&args[1])?;
    let cols: i64 = get_frame(&ui.frames, id)?.frame_total_cols();
    ui.frames.set_frame_text_size(id, cols, lines);
    Ok(Value::Nil)
}

/// `(set-frame-width FRAME WIDTH &optional PRETEND PIXELWISE)`
pub open spec fn set_frame_width_step(st: UiState, args: Seq<Lisp>) -> Step {
    let s = after(st, arg(args, 0));
    with_arity(
        st,
        "set-frame-width"@,
        args,
        2,
        4,
        match frame_arg(st, arg(args, 0), "frame-live-p"@) {
            Found::Is(id) => match int_arg(arg(args, 1), "integerp"@) {
                Found::Is(cols) => match s.frames.get(id) {
                    Some(f) => gives(
                        s.with_frames(
                            text_size_set(s.frames, id, cols as int, f.text_lines()),
                        ),
                        Lisp::Nil,
                    ),
                    None => ends(s, error_outcome("Frame not found"@)),
                },
                Found::Signal(o) => ends(s, o),
            },
            Found::Signal(o) => ends(s, o),
        },
    )
}

/// `(set-frame-width FRAME WIDTH &optional PRETEND PIXELWISE)` -> nil.
pub fn builtin_set_frame_width(ui: &mut Ui, args: &Vec<Value>) -> (r: EvalResult)
    ensures
        final(ui)@ == set_frame_width_step(old(ui)@, views(args@)).state,
        outcome(r) == set_frame_width_step(old(ui)@, views(args@)).end,
{
    expect_args_range("set-frame-width", args, 2, 4)?;
    let id: u64 = resolve_frame_id(ui, &args[0], "frame-live-p")?;
    let cols: i64 = expect_int(&args[1])?;
    let lines: i64 = get_frame(&ui.frames, id)?.frame_text_lines();
    ui.frames.set_frame_text_size(id, cols, lines);
    Ok(Value::Nil)
}

/// `(set-frame-size FRAME WIDTH HEIGHT &optional PIXELWISE)`
pub open spec fn set_frame_size_step(st: UiState, args: Seq<Lisp>) -> Step {
    let s = after(st, arg(args, 0));
    with_arity(
        st,
        "set-frame-size"@,
        args,
        3,
        4,
        match frame_arg(st, arg(args, 0), "frame-live-p"@) {
            Found::Is(id) => match int_arg(arg(args, 1), "integerp"@) {
                Found::Is(cols) => match int_arg(arg(args, 2), "integerp"@) {
                    Found::Is(lines) => if s.frames.get(id) is Some {
                        gives(
                            s.with_frames(
                                text_size_set(s.frames, id, cols as int, lines as int),
                            ),
                            Lisp::Nil,
                        )
                    } else {
                        ends(s, error_outcome("Frame not found"@))
                    },
                    Found::Signal(o) => ends(s, o),
                },
                Found::Signal(o) => ends(s, o),
            },
            Found::Signal(o) => ends(s, o),
        },
    )
}

/// `(set-frame-size FRAME WIDTH HEIGHT &optional PIXELWISE)` -> nil.
pub fn builtin_set_frame_size(ui: &mut Ui, args: &Vec<Value>) -> (r: EvalResult)
    ensures
        final(ui)@ == set_frame_size_step(old(ui)@, views(args@)).state,
        outcome(r) == set_frame_size_step(old(ui)@, views(args@)).end,
{
    expect_args_range("set-frame-size", args, 3, 4)?;
    let id: u64 = resolve_frame_id(ui, &args[0], "frame-live-p")?;
    let cols: i64 = expect_int(&args[1])?;
    let lines: i64 = expect_int(&args[2])?;
    let _f = get_frame(&ui.frames, id)?;
    ui.frames.set_frame_text_size(id, cols, lines);
    Ok(Value::Nil)
}

/// `(set-frame-position FRAME X Y)`
pub open spec fn set_frame_position_step(st: UiState, args: Seq<Lisp>) -> Step {
    let s = after(st, arg(args, 0));
    with_arity(
        st,
        "set-frame-position"@,
        args,
        3,
        3,
        match frame_arg(st, arg(args, 0), "frame-live-p"@) {
            Found::Is(_) => match int_arg(arg(args, 1), "integerp"@) {
                Found::Is(_) => match int_arg(arg(args, 2), "integerp"@) {
                    Found::Is(_) => gives(s, Lisp::True),
                    Found::Signal(o) => ends(s, o),
                },
                Found::Signal(o) => ends(s, o),
            },
            Found::Signal(o) => ends(s, o),
        },
    )
}

/// `(set-frame-position FRAME X Y)` -> t.
pub fn builtin_set_frame_position(ui: &mut Ui, args: &Vec<Value>) -> (r: EvalResult)
    ensures
        final(ui)@ == set_frame_position_step(old(ui)@, views(args@)).state,
        outcome(r) == set_frame_position_step(old(ui)@, views(args@)).end,
{
    expect_args("set-frame-position", args, 3)?;
    let _id: u64 = resolve_frame_id(ui, &args[0], "frame-live-p")?;
    let _x: i64 = expect_int(&args[1])?;
    let _y: i64 = expect_int(&args[2])?;
    Ok(Value::True)
}

/// A frame that is set to a size reports that size, and keeps its size in pixels.
pub proof fn law_text_size_is_reported(f: FrameState, cols: int, lines: int)
    ensures
        f.with_text_size(cols, lines).total_cols() == frame_dimension(
            cols,
            MIN_FRAME_COLS as int,
        ),
        f.with_text_size(cols, lines).text_lines() == frame_dimension(
            lines,
            MIN_FRAME_TEXT_LINES as int,
        ),
        f.with_text_size(cols, lines).width == f.width,
        f.with_text_size(cols, lines).height == f.height,
{
    let c = Lisp::Int(frame_dimension(cols, MIN_FRAME_COLS as int) as i64);
    let l = frame_dimension(lines, MIN_FRAME_TEXT_LINES as int);
    let total = if l + 1 <= MAX_FRAME_CELLS {
        l + 1
    } else {
        MAX_FRAME_CELLS as int
    };
    let p1 = with_entry(f.parameters, "width"@, c);
    let p2 = with_entry(p1, "height"@, Lisp::Int(total as i64));
    reveal_strlit("width");
    reveal_strlit("height");
    reveal_strlit("neovm--frame-text-lines");
    assert("width"@.len() == 5 && "height"@.len() == 6 && "neovm--frame-text-lines"@.len() == 23);
    crate::table::law_entry_set(f.parameters, "width"@, c);
    crate::table::law_entry_set_keeps_others(
        p1,
        "height"@,
        Lisp::Int(total as i64),
        "width"@,
    );
    crate::table::law_entry_set_keeps_others(
        p2,
        "neovm--frame-text-lines"@,
        Lisp::Int(l as i64),
        "width"@,
    );
    crate::table::law_entry_set(p2, "neovm--frame-text-lines"@, Lisp::Int(l as i64));
}

} // verus!
