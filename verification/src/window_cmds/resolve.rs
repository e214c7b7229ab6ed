//! From arguments to the windows and frames that they stand for.
use crate::frame::{Frame, FrameManager, Frames};
use crate::text::{append_chars, chars_of, digits, str_eq, string_of, unsigned_text};
use crate::value::{
    error_outcome, error_signal, signalled, wrong_type, wrong_type_argument, Flow, Lisp, Outcome,
    Value,
};
use crate::window::Window;
use crate::window_cmds::state::{boot_id, booted, ensure_selected_frame_id, Ui, UiState};
use vstd::prelude::*;

verus! {

/// What was found, or the signal that was raised.
pub enum Found<T> {
    Is(T),
    Signal(Outcome),
}

/// What a result stands for.
pub open spec fn found<T>(r: Result<T, Flow>) -> Found<T> {
    match r {
        Ok(x) => Found::Is(x),
        Err(f) => Found::Signal(signalled(f)),
    }
}

/// An integer taken as the bits of an unsigned number.
pub open spec fn unsigned(n: i64) -> u64 {
    if n >= 0 {
        n as u64
    } else {
        (n + 0x1_0000_0000_0000_0000) as u64
    }
}

/// An integer taken as the bits of an unsigned number.
pub fn as_unsigned(n: i64) -> (r: u64)
    ensures
        r == unsigned(n),
{
    if n >= 0 {
        n as u64
    } else {
        (n as i128 + 0x1_0000_0000_0000_0000) as u64
    }
}

/// The window that a value designates: a window, or its number.
pub open spec fn designated(v: Lisp) -> Option<u64> {
    match v {
        Lisp::Window(id) => Some(id),
        Lisp::Int(n) => if n >= 0 {
            Some(n as u64)
        } else {
            None
        },
        _ => None,
    }
}

/// The window that a value designates.
pub fn window_id_from_designator(v: &Value) -> (r: Option<u64>)
    ensures
        r == designated(v@),
{
    match v {
        Value::Window(id) => Some(*id),
        Value::Int(n) => if *n >= 0 {
            Some(*n as u64)
        } else {
            None
        },
        _ => None,
    }
}

/// The frame of a window, any window for `window-valid-p` and a live one otherwise.
pub open spec fn frame_for(frames: Frames, id: u64, pred: Seq<char>) -> Option<u64> {
    if pred == "window-valid-p"@ {
        frames.frame_of_valid(id)
    } else {
        frames.frame_of_live(id)
    }
}

/// The frame of a window, any window for `window-valid-p` and a live one otherwise.
pub fn resolve_window_frame_id_for_pred(frames: &FrameManager, id: u64, pred: &str) -> (r: Option<
    u64,
>)
    ensures
        r == frame_for(frames@, id, pred@),
{
    if str_eq(pred, "window-valid-p") {
        frames.find_valid_window_frame_id(id)
    } else {
        frames.find_window_frame_id(id)
    }
}

/// The session after an argument was resolved: the startup frame comes for `nil`.
pub open spec fn after(st: UiState, a: Lisp) -> UiState {
    if a == Lisp::Nil {
        booted(st)
    } else {
        st
    }
}

/// The selected window of the selected frame.
pub open spec fn selected_window_of(st: UiState) -> Found<(u64, u64)> {
    match booted(st).frames.get(boot_id(st)) {
        Some(f) => Found::Is((boot_id(st), f.selected_window)),
        None => Found::Signal(error_outcome("No selected frame"@)),
    }
}

/// The frame and the window that an argument stands for: the selected ones for
/// `nil`. Any other value that stands for no window raises `wrong-type-argument`.
pub open spec fn window_arg(st: UiState, a: Lisp, pred: Seq<char>) -> Found<(u64, u64)> {
    if a == Lisp::Nil {
        selected_window_of(st)
    } else {
        match designated(a) {
            Some(id) => match frame_for(st.frames, id, pred) {
                Some(f) => Found::Is((f, id)),
                None => Found::Signal(wrong_type(pred, a)),
            },
            None => Found::Signal(wrong_type(pred, a)),
        }
    }
}

/// The selected frame and its selected window.
fn resolve_selected_window(ui: &mut Ui) -> (r: Result<(u64, u64), Flow>)
    ensures
        final(ui)@ == booted(old(ui)@),
        found(r) == selected_window_of(old(ui)@),
{
    let id: u64 = ensure_selected_frame_id(ui);
    match ui.frames.get(id) {
        Some(f) => Ok((id, f.selected_window)),
        None => Err(error_signal("No selected frame")),
    }
}

/// Resolve an optional window designator.
pub fn resolve_window_id_with_pred(ui: &mut Ui, a: &Value, pred: &str) -> (r: Result<
    (u64, u64),
    Flow,
>)
    ensures
        final(ui)@ == after(old(ui)@, a@),
        found(r) == window_arg(old(ui)@, a@, pred@),
{
    if a.is_nil() {
        return resolve_selected_window(ui);
    }
    match window_id_from_designator(a) {
        Some(id) => match resolve_window_frame_id_for_pred(&ui.frames, id, pred) {
            Some(f) => Ok((f, id)),
            None => Err(wrong_type_argument(pred, a)),
        },
        None => Err(wrong_type_argument(pred, a)),
    }
}

/// Resolve an optional designator of a live window.
pub fn resolve_window_id(ui: &mut Ui, a: &Value) -> (r: Result<(u64, u64), Flow>)
    ensures
        final(ui)@ == after(old(ui)@, a@),
        found(r) == window_arg(old(ui)@, a@, "window-live-p"@),
{
    resolve_window_id_with_pred(ui, a, "window-live-p")
}

/// The window object that an argument stands for, which may be deleted already.
pub open spec fn window_object_arg(st: UiState, a: Lisp, pred: Seq<char>) -> Found<u64> {
    if a == Lisp::Nil {
        match selected_window_of(st) {
            Found::Is((_, w)) => Found::Is(w),
            Found::Signal(o) => Found::Signal(o),
        }
    } else {
        match designated(a) {
            Some(id) => if st.frames.known_window(id) {
                Found::Is(id)
            } else {
                Found::Signal(wrong_type(pred, a))
            },
            None => Found::Signal(wrong_type(pred, a)),
        }
    }
}

/// Resolve an optional window designator that may be stale.
pub fn resolve_window_object_id_with_pred(ui: &mut Ui, a: &Value, pred: &str) -> (r: Result<
    u64,
    Flow,
>)
    ensures
        final(ui)@ == after(old(ui)@, a@),
        found(r) == window_object_arg(old(ui)@, a@, pred@),
{
    if a.is_nil() {
        let (_, w) = resolve_selected_window(ui)?;
        return Ok(w);
    }
    match window_id_from_designator(a) {
        Some(id) => if ui.frames.is_window_object_id(id) {
            Ok(id)
        } else {
            Err(wrong_type_argument(pred, a))
        },
        None => Err(wrong_type_argument(pred, a)),
    }
}

/// The live window that an argument stands for, with the generic error otherwise.
pub open spec fn window_or_error_arg(st: UiState, a: Lisp) -> Found<(u64, u64)> {
    if a == Lisp::Nil {
        selected_window_of(st)
    } else {
        match designated(a) {
            Some(id) => match st.frames.frame_of_live(id) {
                Some(f) => Found::Is((f, id)),
                None => Found::Signal(error_outcome("Invalid window"@)),
            },
            None => Found::Signal(error_outcome("Invalid window"@)),
        }
    }
}

/// Resolve a window designator for operations that change windows, which signal
/// the generic error for an invalid one.
pub fn resolve_window_id_or_error(ui: &mut Ui, a: &Value) -> (r: Result<(u64, u64), Flow>)
    ensures
        final(ui)@ == after(old(ui)@, a@),
        found(r) == window_or_error_arg(old(ui)@, a@),
{
    if a.is_nil() {
        return resolve_selected_window(ui);
    }
    match window_id_from_designator(a) {
        Some(id) => match ui.frames.find_window_frame_id(id) {
            Some(f) => Ok((f, id)),
            None => Err(error_signal("Invalid window")),
        },
        None => Err(error_signal("Invalid window")),
    }
}

/// How a designator is written in an error message: a window by its number, any
/// other value as it is printed.
pub open spec fn designator_text(frames: Frames, a: Lisp, printed: Seq<char>) -> Seq<char> {
    match designated(a) {
        Some(id) => if frames.known_window(id) || a is Window {
            "#<window "@ + digits(id as nat) + ">"@
        } else {
            printed
        },
        None => printed,
    }
}

/// How a designator is written in an error message; `printed` is how it is printed.
pub fn format_window_designator_for_error(
    frames: &FrameManager,
    a: &Value,
    printed: &str,
) -> (r: Vec<char>)
    ensures
        r@ == designator_text(frames@, a@, printed@),
{
    match window_id_from_designator(a) {
        Some(id) => {
            let is_window: bool = match a {
                Value::Window(_) => true,
                _ => false,
            };
            if frames.is_window_object_id(id) || is_window {
                let mut out: Vec<char> = chars_of("#<window ");
                append_chars(&mut out, unsigned_text(id as u128).as_slice());
                append_chars(&mut out, chars_of(">").as_slice());
                return out;
            }
            chars_of(printed)
        },
        None => chars_of(printed),
    }
}

/// The message for a designator that stands for no live or valid window.
pub open spec fn not_a_window(
    frames: Frames,
    a: Lisp,
    live_only: bool,
    printed: Seq<char>,
) -> Outcome {
    error_outcome(
        designator_text(frames, a, printed) + " is not a "@ + (if live_only {
            "live"@
        } else {
            "valid"@
        }) + " window"@,
    )
}

/// Raises the error for a designator that stands for no live or valid window.
fn not_a_window_error(
    frames: &FrameManager,
    a: &Value,
    live_only: bool,
    printed: &str,
) -> (r: Flow)
    ensures
        signalled(r) == not_a_window(frames@, a@, live_only, printed@),
{
    let mut out: Vec<char> = format_window_designator_for_error(frames, a, printed);
    append_chars(&mut out, chars_of(" is not a ").as_slice());
    let kind: Vec<char> = if live_only {
        chars_of("live")
    } else {
        chars_of("valid")
    };
    append_chars(&mut out, kind.as_slice());
    append_chars(&mut out, chars_of(" window").as_slice());
    error_signal(string_of(out.as_slice()).as_str())
}

/// The window that an argument stands for, with an error that shows the argument otherwise.
pub open spec fn window_or_window_error_arg(
    st: UiState,
    a: Lisp,
    live_only: bool,
    printed: Seq<char>,
) -> Found<(u64, u64)> {
    if a == Lisp::Nil {
        selected_window_of(st)
    } else {
        let frame = match designated(a) {
            Some(id) => if live_only {
                st.frames.frame_of_live(id)
            } else {
                st.frames.frame_of_valid(id)
            },
            None => None,
        };
        match frame {
            Some(f) => Found::Is((f, designated(a)->0)),
            None => Found::Signal(not_a_window(st.frames, a, live_only, printed)),
        }
    }
}

/// Resolve a window designator, signalling an error that shows an invalid one;
/// `printed` is how the argument is printed.
pub fn resolve_window_id_or_window_error(
    ui: &mut Ui,
    a: &Value,
    live_only: bool,
    printed: &str,
) -> (r: Result<(u64, u64), Flow>)
    ensures
        final(ui)@ == after(old(ui)@, a@),
        found(r) == window_or_window_error_arg(old(ui)@, a@, live_only, printed@),
{
    if a.is_nil() {
        return resolve_selected_window(ui);
    }
    match window_id_from_designator(a) {
        Some(id) => {
            let frame: Option<u64> = if live_only {
                ui.frames.find_window_frame_id(id)
            } else {
                ui.frames.find_valid_window_frame_id(id)
            };
            match frame {
                Some(f) => Ok((f, id)),
                None => Err(not_a_window_error(&ui.frames, a, live_only, printed)),
            }
        },
        None => Err(not_a_window_error(&ui.frames, a, live_only, printed)),
    }
}

/// The frame that a value is, or is the number of.
pub open spec fn designated_frame(v: Lisp) -> Option<u64> {
    match v {
        Lisp::Frame(id) => Some(id),
        Lisp::Int(n) => Some(unsigned(n)),
        _ => None,
    }
}

/// The frame that a value is, or is the number of.
pub fn frame_id_from_designator(v: &Value) -> (r: Option<u64>)
    ensures
        r == designated_frame(v@),
{
    match v {
        Value::Frame(id) => Some(*id),
        Value::Int(n) => Some(as_unsigned(*n)),
        _ => None,
    }
}

/// The frame that an argument stands for: the selected one for `nil`. Any other
/// value that stands for no frame raises `wrong-type-argument`.
pub open spec fn frame_arg(st: UiState, a: Lisp, pred: Seq<char>) -> Found<u64> {
    if a == Lisp::Nil {
        Found::Is(boot_id(st))
    } else {
        match designated_frame(a) {
            Some(id) => if st.frames.get(id) is Some {
                Found::Is(id)
            } else {
                Found::Signal(wrong_type(pred, a))
            },
            None => Found::Signal(wrong_type(pred, a)),
        }
    }
}

/// Resolve a frame designator.
pub fn resolve_frame_id(ui: &mut Ui, a: &Value, pred: &str) -> (r: Result<u64, Flow>)
    ensures
        final(ui)@ == after(old(ui)@, a@),
        found(r) == frame_arg(old(ui)@, a@, pred@),
{
    if a.is_nil() {
        return Ok(ensure_selected_frame_id(ui));
    }
    match frame_id_from_designator(a) {
        Some(id) => if ui.frames.get(id).is_some() {
            Ok(id)
        } else {
            Err(wrong_type_argument(pred, a))
        },
        None => Err(wrong_type_argument(pred, a)),
    }
}

/// The frame that an argument stands for, itself or by one of its windows.
pub open spec fn frame_or_window_arg(st: UiState, a: Lisp, pred: Seq<char>) -> Found<u64> {
    let refused: Found<u64> = Found::Signal(wrong_type(pred, a));
    match a {
        Lisp::Nil => Found::Is(boot_id(st)),
        Lisp::Frame(id) => if st.frames.get(id) is Some {
            Found::Is(id)
        } else {
            refused
        },
        Lisp::Int(n) => if st.frames.get(unsigned(n)) is Some {
            Found::Is(unsigned(n))
        } else {
            match st.frames.frame_of_valid(unsigned(n)) {
                Some(f) => Found::Is(f),
                None => refused,
            }
        },
        Lisp::Window(id) => match st.frames.frame_of_valid(id) {
            Some(f) => Found::Is(f),
            None => refused,
        },
        _ => refused,
    }
}

/// Resolve a frame designator that may also be a window designator.
pub fn resolve_frame_or_window_frame_id(ui: &mut Ui, a: &Value, pred: &str) -> (r: Result<
    u64,
    Flow,
>)
    ensures
        final(ui)@ == after(old(ui)@, a@),
        found(r) == frame_or_window_arg(old(ui)@, a@, pred@),
{
    let of_window: Option<u64> = match a {
        Value::Nil => {
            return Ok(ensure_selected_frame_id(ui));
        },
        Value::Frame(id) => if ui.frames.get(*id).is_some() {
            Some(*id)
        } else {
            None
        },
        Value::Int(n) => {
            let id: u64 = as_unsigned(*n);
            if ui.frames.get(id).is_some() {
                Some(id)
            } else {
                ui.frames.find_valid_window_frame_id(id)
            }
        },
        Value::Window(id) => ui.frames.find_valid_window_frame_id(*id),
        _ => None,
    };
    match of_window {
        Some(f) => Ok(f),
        None => Err(wrong_type_argument(pred, a)),
    }
}

/// A window of a frame, or the error for a missing frame or window.
pub open spec fn window_in(frames: Frames, frame: u64, id: u64) -> Found<Window> {
    match frames.get(frame) {
        Some(f) => match f.window(id) {
            Some(w) => Found::Is(w),
            None => Found::Signal(error_outcome("Window not found"@)),
        },
        None => Found::Signal(error_outcome("Frame not found"@)),
    }
}

/// Look up a window of a frame.
pub fn get_window(frames: &FrameManager, frame: u64, id: u64) -> (r: Result<Window, Flow>)
    ensures
        found(r) == window_in(frames@, frame, id),
{
    match frames.get(frame) {
        Some(f) => match f.find_window(id) {
            Some(w) => Ok(w),
            None => Err(error_signal("Window not found")),
        },
        None => Err(error_signal("Frame not found")),
    }
}

/// A frame, or the error for a missing one.
pub fn get_frame(frames: &FrameManager, id: u64) -> (r: Result<&Frame, Flow>)
    ensures
        match r {
            Ok(f) => frames@.get(id) == Some(f@),
            Err(e) => frames@.get(id) is None && signalled(e) == error_outcome(
                "Frame not found"@,
            ),
        },
{
    match frames.get(id) {
        Some(f) => Ok(f),
        None => Err(error_signal("Frame not found")),
    }
}

} // verus!
