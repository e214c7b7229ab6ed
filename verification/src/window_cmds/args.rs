//! Numbers and positions among the arguments of a builtin.
use crate::float::{float_floor, float_truncate, floored, truncated};
use crate::value::{
    error_outcome, error_signal, list3, signal, wrong_type, wrong_type_argument, Flow, Lisp,
    Outcome, Value,
};
use crate::window_cmds::resolve::{found, Found};
use vstd::prelude::*;

verus! {

/// An integer, or the signal for a value of the wrong type.
pub open spec fn int_arg(v: Lisp, pred: Seq<char>) -> Found<i64> {
    match v {
        Lisp::Int(n) => Found::Is(n),
        _ => Found::Signal(wrong_type(pred, v)),
    }
}

/// Extract an integer from a value.
pub fn expect_int(v: &Value) -> (r: Result<i64, Flow>)
    ensures
        found(r) == int_arg(v@, "integerp"@),
{
    match v {
        Value::Int(n) => Ok(*n),
        _ => Err(wrong_type_argument("integerp", v)),
    }
}

/// Extract a fixnum from a value.
pub fn expect_fixnum(v: &Value) -> (r: Result<i64, Flow>)
    ensures
        found(r) == int_arg(v@, "fixnump"@),
{
    match v {
        Value::Int(n) => Ok(*n),
        _ => Err(wrong_type_argument("fixnump", v)),
    }
}

/// A position argument: an integer, or a marker with the position that it has, if any.
#[derive(Debug, Clone, Copy, PartialEq, Eq)]
pub enum IntegerOrMarkerArg {
    Int(i64),
    Marker(Option<i64>),
}

/// The position that an argument is, or the signal for a value of the wrong type.
pub open spec fn position_arg(v: Lisp) -> Found<IntegerOrMarkerArg> {
    match v {
        Lisp::Int(n) => Found::Is(IntegerOrMarkerArg::Int(n)),
        Lisp::Marker(_, p) => Found::Is(IntegerOrMarkerArg::Marker(p)),
        _ => Found::Signal(wrong_type("integer-or-marker-p"@, v)),
    }
}

/// The position that an argument is.
pub fn parse_integer_or_marker_arg(v: &Value) -> (r: Result<IntegerOrMarkerArg, Flow>)
    ensures
        found(r) == position_arg(v@),
{
    match v {
        Value::Int(n) => Ok(IntegerOrMarkerArg::Int(*n)),
        Value::Marker(_, p) => Ok(IntegerOrMarkerArg::Marker(*p)),
        _ => Err(wrong_type_argument("integer-or-marker-p", v)),
    }
}

/// A count: an integer, a float rounded down, or the position of a marker.
pub open spec fn count_arg(v: Lisp) -> Found<i64> {
    match v {
        Lisp::Int(n) => Found::Is(n),
        Lisp::Float(b) => Found::Is(floored(b)),
        Lisp::Marker(_, Some(p)) => Found::Is(p),
        Lisp::Marker(_, None) => Found::Signal(
            error_outcome("Marker does not point anywhere"@),
        ),
        _ => Found::Signal(wrong_type("number-or-marker-p"@, v)),
    }
}

/// A count: an integer, a float rounded down, or the position of a marker.
pub fn expect_number_or_marker_count(v: &Value) -> (r: Result<i64, Flow>)
    ensures
        found(r) == count_arg(v@),
{
    match v {
        Value::Int(n) => Ok(*n),
        Value::Float(b) => Ok(float_floor(*b)),
        Value::Marker(_, p) => match p {
            Some(n) => Ok(*n),
            None => Err(error_signal("Marker does not point anywhere")),
        },
        _ => Err(wrong_type_argument("number-or-marker-p", v)),
    }
}

/// The widest margin.
pub const MAX_MARGIN: i64 = 2_147_483_647;

/// The width of a margin: none for `nil`.
pub open spec fn margin_arg(v: Lisp) -> Found<usize> {
    match v {
        Lisp::Nil => Found::Is(0),
        Lisp::Int(n) => if n < 0 || n > MAX_MARGIN {
            Found::Signal(
                Outcome::Signal(
                    "args-out-of-range"@,
                    list3(v, Lisp::Int(0), Lisp::Int(MAX_MARGIN)),
                ),
            )
        } else {
            Found::Is(n as usize)
        },
        _ => Found::Signal(wrong_type("integerp"@, v)),
    }
}

/// Parse a window margin argument (`nil` or a non-negative integer).
pub fn expect_margin_width(v: &Value) -> (r: Result<usize, Flow>)
    ensures
        found(r) == margin_arg(v@),
{
    match v {
        Value::Nil => Ok(0),
        Value::Int(n) => if *n < 0 || *n > MAX_MARGIN {
            Err(
                signal(
                    "args-out-of-range",
                    Value::list3(Value::Int(*n), Value::Int(0), Value::Int(MAX_MARGIN)),
                ),
            )
        } else {
            Ok(*n as usize)
        },
        _ => Err(wrong_type_argument("integerp", v)),
    }
}

/// A number among the arguments: an integer, or a float cut off.
pub open spec fn plain_count(v: Lisp) -> i64 {
    match v {
        Lisp::Int(n) => n,
        Lisp::Float(b) => truncated(b),
        _ => 1,
    }
}

/// The number that a prefix argument stands for.
pub open spec fn prefix_count(v: Lisp) -> i64 {
    match v {
        Lisp::Symbol(s) => if s == "-"@ {
            -1i64
        } else {
            1
        },
        Lisp::Cons(a, _) => plain_count(*a),
        _ => plain_count(v),
    }
}

/// A number among the arguments.
fn plain_number(v: &Value) -> (r: i64)
    ensures
        r == plain_count(v@),
{
    match v {
        Value::Int(n) => *n,
        Value::Float(b) => float_truncate(*b),
        _ => 1,
    }
}

/// The number that a prefix argument stands for.
pub fn scroll_prefix_value(v: &Value) -> (r: i64)
    ensures
        r == prefix_count(v@),
{
    match v {
        Value::Symbol(s) => if crate::text::str_eq(s.as_str(), "-") {
            -1
        } else {
            1
        },
        Value::Cons(a, _) => plain_number(a),
        _ => plain_number(v),
    }
}

} // verus!
