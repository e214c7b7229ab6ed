//! Display builtins that look at their arguments alone.
use crate::value::{
    arg, arg_or_nil, cons, expect_args, expect_args_range, outcome, signal, signalled, sym, views,
    wrong_number, wrong_type, wrong_type_argument, EvalResult, Flow, Lisp, Outcome, Value,
};
use vstd::prelude::*;

verus! {

/// What a builtin of `min` to `max` arguments gives, where it gets as many.
pub open spec fn of_arity(name: Seq<char>, args: Seq<Lisp>, min: int, max: int, end: Outcome) -> Outcome {
    if min <= args.len() <= max {
        end
    } else {
        wrong_number(name, args.len())
    }
}

/// What is given where a value is an integer; it is an error where it is not.
pub open spec fn if_integer(predicate: Seq<char>, v: Lisp, end: Outcome) -> Outcome {
    if v is Int {
        end
    } else {
        wrong_type(predicate, v)
    }
}

/// What is given where a value is an integer or nil; it is an error where it is neither.
pub open spec fn if_integer_or_nil(predicate: Seq<char>, v: Lisp, end: Outcome) -> Outcome {
    if v == Lisp::Nil {
        end
    } else {
        if_integer(predicate, v, end)
    }
}

/// Signals where a value is no integer.
pub fn expect_fixnum_arg(predicate: &str, v: &Value) -> (r: Result<(), Flow>)
    ensures
        r is Ok <==> v@ is Int,
        r matches Err(f) ==> signalled(f) == wrong_type(predicate@, v@),
{
    match v {
        Value::Int(_) => Ok(()),
        _ => Err(wrong_type_argument(predicate, v)),
    }
}

/// Signals where a value is no position.
pub fn expect_integer_or_marker(v: &Value) -> (r: Result<(), Flow>)
    ensures
        r is Ok <==> v@ is Int,
        r matches Err(f) ==> signalled(f) == wrong_type("integer-or-marker-p"@, v@),
{
    expect_fixnum_arg("integer-or-marker-p", v)
}

/// `(invisible-p POS-OR-PROP)`
pub open spec fn invisible_p(args: Seq<Lisp>) -> Outcome {
    of_arity(
        "invisible-p"@,
        args,
        1,
        1,
        match arg(args, 0) {
            Lisp::Int(n) => if n == 0 {
                Outcome::Signal(
                    "args-out-of-range"@,
                    cons(Lisp::Int(0), Lisp::Nil),
                )
            } else if n < 0 {
                Outcome::Value(Lisp::True)
            } else {
                Outcome::Value(Lisp::Nil)
            },
            Lisp::Nil => Outcome::Value(Lisp::Nil),
            _ => Outcome::Value(Lisp::True),
        },
    )
}

/// `(invisible-p POS-OR-PROP)` -> boolean: positions are visible from one on,
/// properties are visible where they are nil.
pub fn builtin_invisible_p(args: &Vec<Value>) -> (r: EvalResult)
    ensures
        outcome(r) == invisible_p(views(args@)),
{
    expect_args("invisible-p", args, 1)?;
    match arg_or_nil(args, 0) {
        Value::Int(n) => if n == 0 {
            Err(signal("args-out-of-range", Value::list1(Value::Int(0))))
        } else if n < 0 {
            Ok(Value::True)
        } else {
            Ok(Value::Nil)
        },
        Value::Nil => Ok(Value::Nil),
        _ => Ok(Value::True),
    }
}

/// `(line-pixel-height)` -> the height of a line of cells of size one.
pub fn builtin_line_pixel_height(args: &Vec<Value>) -> (r: EvalResult)
    ensures
        outcome(r) == of_arity(
            "line-pixel-height"@,
            views(args@),
            0,
            0,
            Outcome::Value(Lisp::Int(1)),
        ),
{
    expect_args("line-pixel-height", args, 0)?;
    Ok(Value::Int(1))
}

/// `(window-text-pixel-size ...)` without a session.
pub open spec fn batch_text_pixel_size(args: Seq<Lisp>) -> Outcome {
    of_arity(
        "window-text-pixel-size"@,
        args,
        0,
        7,
        if arg(args, 0) != Lisp::Nil {
            wrong_type("window-live-p"@, arg(args, 0))
        } else {
            if_integer_or_nil(
                "integer-or-marker-p"@,
                arg(args, 1),
                if_integer_or_nil(
                    "integer-or-marker-p"@,
                    arg(args, 2),
                    Outcome::Value(cons(Lisp::Int(0), Lisp::Int(0))),
                ),
            )
        },
    )
}

/// `(window-text-pixel-size &optional WINDOW FROM TO X-LIMIT Y-LIMIT MODE)` without
/// a session -> `(0 . 0)`.
pub fn builtin_window_text_pixel_size(args: &Vec<Value>) -> (r: EvalResult)
    ensures
        outcome(r) == batch_text_pixel_size(views(args@)),
{
    expect_args_range("window-text-pixel-size", args, 0, 7)?;
    let window: Value = arg_or_nil(args, 0);
    if !window.is_nil() {
        return Err(wrong_type_argument("window-live-p", &window));
    }
    let from: Value = arg_or_nil(args, 1);
    if !from.is_nil() {
        expect_integer_or_marker(&from)?;
    }
    let to: Value = arg_or_nil(args, 2);
    if !to.is_nil() {
        expect_integer_or_marker(&to)?;
    }
    Ok(Value::cons(Value::Int(0), Value::Int(0)))
}

/// `(pos-visible-in-window-p ...)` without a session.
pub open spec fn batch_pos_visible(args: Seq<Lisp>) -> Outcome {
    of_arity(
        "pos-visible-in-window-p"@,
        args,
        0,
        3,
        if arg(args, 1) != Lisp::Nil {
            wrong_type("window-live-p"@, arg(args, 1))
        } else if arg(args, 0) == Lisp::True {
            Outcome::Value(Lisp::Nil)
        } else {
            if_integer_or_nil("integer-or-marker-p"@, arg(args, 0), Outcome::Value(Lisp::Nil))
        },
    )
}

/// `(pos-visible-in-window-p &optional POS WINDOW PARTIALLY)` without a session:
/// nothing is visible.
pub fn builtin_pos_visible_in_window_p(args: &Vec<Value>) -> (r: EvalResult)
    ensures
        outcome(r) == batch_pos_visible(views(args@)),
{
    expect_args_range("pos-visible-in-window-p", args, 0, 3)?;
    let window: Value = arg_or_nil(args, 1);
    if !window.is_nil() {
        return Err(wrong_type_argument("window-live-p", &window));
    }
    let pos: Value = arg_or_nil(args, 0);
    if !pos.is_nil() && !pos.is_t() {
        expect_integer_or_marker(&pos)?;
    }
    Ok(Value::Nil)
}

/// `(move-point-visually DIRECTION)`
pub open spec fn move_point_visually(args: Seq<Lisp>) -> Outcome {
    of_arity(
        "move-point-visually"@,
        args,
        1,
        1,
        match arg(args, 0) {
            Lisp::Int(n) => Outcome::Signal(
                "args-out-of-range"@,
                cons(Lisp::Int(n), cons(Lisp::Int(n), Lisp::Nil)),
            ),
            _ => wrong_type("fixnump"@, arg(args, 0)),
        },
    )
}

/// `(move-point-visually DIRECTION)`: there is no window to move in.
pub fn builtin_move_point_visually(args: &Vec<Value>) -> (r: EvalResult)
    ensures
        outcome(r) == move_point_visually(views(args@)),
{
    expect_args("move-point-visually", args, 1)?;
    let direction: Value = arg_or_nil(args, 0);
    match direction {
        Value::Int(n) => Err(
            signal("args-out-of-range", Value::list2(Value::Int(n), Value::Int(n))),
        ),
        _ => Err(wrong_type_argument("fixnump", &direction)),
    }
}

/// `(lookup-image-map MAP X Y)`
pub open spec fn lookup_image_map(args: Seq<Lisp>) -> Outcome {
    of_arity(
        "lookup-image-map"@,
        args,
        3,
        3,
        if arg(args, 0) == Lisp::Nil {
            Outcome::Value(Lisp::Nil)
        } else {
            if_integer(
                "fixnump"@,
                arg(args, 1),
                if_integer("fixnump"@, arg(args, 2), Outcome::Value(Lisp::Nil)),
            )
        },
    )
}

/// `(lookup-image-map MAP X Y)` -> nil: there are no images.
pub fn builtin_lookup_image_map(args: &Vec<Value>) -> (r: EvalResult)
    ensures
        outcome(r) == lookup_image_map(views(args@)),
{
    expect_args("lookup-image-map", args, 3)?;
    if !arg_or_nil(args, 0).is_nil() {
        expect_fixnum_arg("fixnump", &arg_or_nil(args, 1))?;
        expect_fixnum_arg("fixnump", &arg_or_nil(args, 2))?;
    }
    Ok(Value::Nil)
}

/// `(current-bidi-paragraph-direction &optional BUFFER)`
pub open spec fn paragraph_direction(args: Seq<Lisp>) -> Outcome {
    of_arity(
        "current-bidi-paragraph-direction"@,
        args,
        0,
        1,
        if arg(args, 0) != Lisp::Nil && !(arg(args, 0) is Buffer) {
            wrong_type("bufferp"@, arg(args, 0))
        } else {
            Outcome::Value(sym("left-to-right"@))
        },
    )
}

/// `(current-bidi-paragraph-direction &optional BUFFER)` -> `left-to-right`.
pub fn builtin_current_bidi_paragraph_direction(args: &Vec<Value>) -> (r: EvalResult)
    ensures
        outcome(r) == paragraph_direction(views(args@)),
{
    expect_args_range("current-bidi-paragraph-direction", args, 0, 1)?;
    let buffer: Value = arg_or_nil(args, 0);
    if !buffer.is_nil() && !buffer.is_buffer() {
        return Err(wrong_type_argument("bufferp", &buffer));
    }
    Ok(Value::symbol("left-to-right"))
}

/// `(bidi-resolved-levels &optional PARAGRAPH-DIRECTION)` -> nil.
pub fn builtin_bidi_resolved_levels(args: &Vec<Value>) -> (r: EvalResult)
    ensures
        outcome(r) == of_arity(
            "bidi-resolved-levels"@,
            views(args@),
            0,
            1,
            if_integer_or_nil("fixnump"@, arg(views(args@), 0), Outcome::Value(Lisp::Nil)),
        ),
{
    expect_args_range("bidi-resolved-levels", args, 0, 1)?;
    let direction: Value = arg_or_nil(args, 0);
    if !direction.is_nil() {
        expect_fixnum_arg("fixnump", &direction)?;
    }
    Ok(Value::Nil)
}

/// `(bidi-find-overridden-directionality STRING/START END/START STRING/END)`
pub open spec fn overridden_directionality(args: Seq<Lisp>) -> Outcome {
    of_arity(
        "bidi-find-overridden-directionality"@,
        args,
        3,
        4,
        if arg(args, 2) == Lisp::Nil {
            if_integer(
                "integer-or-marker-p"@,
                arg(args, 0),
                if_integer("integer-or-marker-p"@, arg(args, 1), Outcome::Value(Lisp::Nil)),
            )
        } else if arg(args, 2) is Str {
            Outcome::Value(Lisp::Nil)
        } else {
            wrong_type("stringp"@, arg(args, 2))
        },
    )
}

/// `(bidi-find-overridden-directionality STRING/START END/START STRING/END &optional DIRECTION)`
/// -> nil.
pub fn builtin_bidi_find_overridden_directionality(args: &Vec<Value>) -> (r: EvalResult)
    ensures
        outcome(r) == overridden_directionality(views(args@)),
{
    expect_args_range("bidi-find-overridden-directionality", args, 3, 4)?;
    let third: Value = arg_or_nil(args, 2);
    if third.is_nil() {
        expect_integer_or_marker(&arg_or_nil(args, 0))?;
        expect_integer_or_marker(&arg_or_nil(args, 1))?;
        return Ok(Value::Nil);
    }
    if !third.is_string() {
        return Err(wrong_type_argument("stringp", &third));
    }
    Ok(Value::Nil)
}

/// `(tool-bar-height &optional FRAME PIXELWISE)` without a session -> 0.
pub fn builtin_tool_bar_height(args: &Vec<Value>) -> (r: EvalResult)
    ensures
        outcome(r) == of_arity(
            "tool-bar-height"@,
            views(args@),
            0,
            2,
            Outcome::Value(Lisp::Int(0)),
        ),
{
    expect_args_range("tool-bar-height", args, 0, 2)?;
    Ok(Value::Int(0))
}

/// `(tab-bar-height &optional FRAME PIXELWISE)` without a session -> 0.
pub fn builtin_tab_bar_height(args: &Vec<Value>) -> (r: EvalResult)
    ensures
        outcome(r) == of_arity(
            "tab-bar-height"@,
            views(args@),
            0,
            2,
            Outcome::Value(Lisp::Int(0)),
        ),
{
    expect_args_range("tab-bar-height", args, 0, 2)?;
    Ok(Value::Int(0))
}

/// `(line-number-display-width &optional ON-DISPLAY)` -> 0: there are no line numbers.
pub fn builtin_line_number_display_width(args: &Vec<Value>) -> (r: EvalResult)
    ensures
        outcome(r) == of_arity(
            "line-number-display-width"@,
            views(args@),
            0,
            1,
            Outcome::Value(Lisp::Int(0)),
        ),
{
    expect_args_range("line-number-display-width", args, 0, 1)?;
    Ok(Value::Int(0))
}

/// `(long-line-optimizations-p)` -> nil.
pub fn builtin_long_line_optimizations_p(args: &Vec<Value>) -> (r: EvalResult)
    ensures
        outcome(r) == of_arity(
            "long-line-optimizations-p"@,
            views(args@),
            0,
            0,
            Outcome::Value(Lisp::Nil),
        ),
{
    expect_args("long-line-optimizations-p", args, 0)?;
    Ok(Value::Nil)
}

} // verus!
