//! Positions that are given by integers or markers.
use crate::value::{
    error_outcome, error_signal, wrong_type, wrong_type_argument, Flow, Lisp, Value,
};
use crate::window_cmds::resolve::{found, Found};
use vstd::prelude::*;

verus! {

/// The position that an argument is: an integer or a marker that points somewhere.
pub open spec fn position_arg(a: Lisp) -> Found<i64> {
    match a {
        Lisp::Int(n) => Found::Is(n),
        Lisp::Marker(_, Some(n)) => Found::Is(n),
        Lisp::Marker(_, None) => Found::Signal(
            error_outcome("Marker does not point anywhere"@),
        ),
        _ => Found::Signal(wrong_type("integer-or-marker-p"@, a)),
    }
}

/// The position that an argument is.
pub fn position_of(a: &Value) -> (r: Result<i64, Flow>)
    ensures
        found(r) == position_arg(a@),
{
    match a {
        Value::Int(n) => Ok(*n),
        Value::Marker(_, Some(n)) => Ok(*n),
        Value::Marker(_, None) => Err(error_signal("Marker does not point anywhere")),
        _ => Err(wrong_type_argument("integer-or-marker-p", a)),
    }
}

} // verus!
