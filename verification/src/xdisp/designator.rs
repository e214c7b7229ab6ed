//! Optional arguments that stand for windows and buffers.
use crate::buffer::{BufferManager, Buffers};
use crate::frame::{FrameManager, Frames};
use crate::value::{signalled, wrong_type, wrong_type_argument, Flow, Lisp, Value};
use crate::window_cmds::resolve::{designated, window_id_from_designator};
use vstd::prelude::*;

verus! {

/// The frame and the window that a value designates, where there is such a window.
pub open spec fn located(frames: Frames, a: Lisp) -> Option<(u64, u64)> {
    match designated(a) {
        Some(id) => match frames.frame_of_valid(id) {
            Some(f) => Some((f, id)),
            None => None,
        },
        None => None,
    }
}

/// The frame and the window that a value designates, where there is such a window.
pub fn locate_window(frames: &FrameManager, a: &Value) -> (r: Option<(u64, u64)>)
    ensures
        r == located(frames@, a@),
{
    match window_id_from_designator(a) {
        Some(id) => match frames.find_valid_window_frame_id(id) {
            Some(f) => Some((f, id)),
            None => None,
        },
        None => None,
    }
}

/// Whether a value is nil or designates a window.
pub open spec fn optional_window(frames: Frames, a: Lisp) -> bool {
    a == Lisp::Nil || located(frames, a) is Some
}

/// Signals where a value is neither nil nor designates a window.
pub fn validate_optional_window_designator(
    frames: &FrameManager,
    a: &Value,
    predicate: &str,
) -> (r: Result<(), Flow>)
    ensures
        r is Ok <==> optional_window(frames@, a@),
        r matches Err(f) ==> signalled(f) == wrong_type(predicate@, a@),
{
    if a.is_nil() {
        return Ok(());
    }
    match locate_window(frames, a) {
        Some(_) => Ok(()),
        None => Err(wrong_type_argument(predicate, a)),
    }
}

/// Whether a value is nil or a buffer that lives.
pub open spec fn optional_buffer(buffers: Buffers, a: Lisp) -> bool {
    match a {
        Lisp::Nil => true,
        Lisp::Buffer(id) => buffers.get(id) is Some,
        _ => false,
    }
}

/// Signals where a value is neither nil nor a buffer that lives.
pub fn validate_optional_buffer_designator(buffers: &BufferManager, a: &Value) -> (r: Result<
    (),
    Flow,
>)
    ensures
        r is Ok <==> optional_buffer(buffers@, a@),
        r matches Err(f) ==> signalled(f) == wrong_type("bufferp"@, a@),
{
    match a {
        Value::Nil => Ok(()),
        Value::Buffer(id) => match buffers.get(*id) {
            Some(_) => Ok(()),
            None => Err(wrong_type_argument("bufferp", a)),
        },
        _ => Err(wrong_type_argument("bufferp", a)),
    }
}

/// The buffer of a mode line: a buffer argument, else what the window shows.
pub open spec fn target_buffer(frames: Frames, window: Lisp, buffer: Lisp) -> Option<u64> {
    match buffer {
        Lisp::Buffer(id) => Some(id),
        _ => match located(frames, window) {
            Some((f, w)) => match frames.window(f, w) {
                Some(x) => x.shown_buffer(),
                None => None,
            },
            None => None,
        },
    }
}

/// The buffer of a mode line: a buffer argument, else what the window shows.
pub fn resolve_mode_line_buffer(frames: &FrameManager, window: &Value, buffer: &Value) -> (r: Option<
    u64,
>)
    ensures
        r == target_buffer(frames@, window@, buffer@),
{
    match buffer {
        Value::Buffer(id) => Some(*id),
        _ => match locate_window(frames, window) {
            Some((f, w)) => match frames.find_window(f, w) {
                Some(x) => x.buffer_id(),
                None => None,
            },
            None => None,
        },
    }
}

} // verus!
