//! Builtins that split, delete and select windows.
use crate::frame::{FrameManager, FrameState, Frames};
use crate::text::str_eq;
use crate::value::outcome;
use crate::value::{
    arg, arg_or_nil, error_outcome, error_signal, expect_args, expect_args_range, expect_max_args,
    views, wrong_type, wrong_type_argument, EvalResult, Lisp, Value,
};
use crate::window::{leaf_ids, SplitDirection, Window};
use crate::window_cmds::args::{count_arg, expect_number_or_marker_count};
use crate::window_cmds::listing::{step_to, stepped};
use crate::window_cmds::query::with_arity;
use crate::window_cmds::resolve::{
    after, designated, found, frame_arg, get_frame, get_window, resolve_frame_id,
    resolve_window_id_or_error, resolve_window_id_with_pred, resolve_window_object_id_with_pred,
    window_arg, window_id_from_designator, window_in, window_object_arg, window_or_error_arg,
    Found,
};
use crate::window_cmds::state::{
    boot_id, booted, ends, ensure_selected_frame_id, gives, Step, Ui, UiState,
};
use vstd::prelude::*;

verus! {

/// The direction of a split: side by side for `left` and `right`.
pub open spec fn split_direction(side: Lisp) -> SplitDirection {
    match side {
        Lisp::Symbol(s) => if s == "right"@ || s == "left"@ {
            SplitDirection::Horizontal
        } else {
            SplitDirection::Vertical
        },
        _ => SplitDirection::Vertical,
    }
}

/// The direction of a split.
fn direction_of_split(side: &Value) -> (r: SplitDirection)
    ensures
        r == split_direction(side@),
{
    match side {
        Value::Symbol(s) => if str_eq(s.as_str(), "right") || str_eq(s.as_str(), "left") {
            SplitDirection::Horizontal
        } else {
            SplitDirection::Vertical
        },
        _ => SplitDirection::Vertical,
    }
}

/// Splitting a window; the new window shows the same buffer.
pub open spec fn split_window_step(st: UiState, window: Lisp, side: Lisp) -> Step {
    let s = after(st, window);
    match window_or_error_arg(st, window) {
        Found::Is((f, w)) => match window_in(s.frames, f, w) {
            Found::Is(_) => if s.frames.can_split(f, w) {
                gives(
                    s.with_frames(s.frames.split(f, w, split_direction(side))),
                    Lisp::Window(s.frames.next_window_id),
                )
            } else {
                ends(s, error_outcome("Cannot split window"@))
            },
            Found::Signal(o) => ends(s, o),
        },
        Found::Signal(o) => ends(s, o),
    }
}

/// Splits a window on a side -> the new window.
pub fn split_window_internal_impl(ui: &mut Ui, window: &Value, side: &Value) -> (r: EvalResult)
    ensures
        final(ui)@ == split_window_step(old(ui)@, window@, side@).state,
        outcome(r) == split_window_step(old(ui)@, window@, side@).end,
{
    let (f, w) = resolve_window_id_or_error(ui, window)?;
    let dir: SplitDirection = direction_of_split(side);
    let _window: Window = get_window(&ui.frames, f, w)?;
    match ui.frames.split_window(f, w, dir) {
        Some(new) => Ok(Value::Window(new)),
        None => Err(error_signal("Cannot split window")),
    }
}

/// The buffer of the selected window of a frame.
pub open spec fn selected_buffer(frames: Frames, f: u64) -> Option<u64> {
    match frames.get(f) {
        Some(frame) => frame.window_buffer(frame.selected_window),
        None => None,
    }
}

/// The buffer of the selected window of a frame.
pub fn selected_window_buffer(frames: &FrameManager, f: u64) -> (r: Option<u64>)
    ensures
        r == selected_buffer(frames@, f),
{
    match frames.get(f) {
        Some(frame) => frame.window_buffer(frame.selected_window),
        None => None,
    }
}

/// `(delete-window &optional WINDOW)`
pub open spec fn delete_window_step(st: UiState, args: Seq<Lisp>) -> Step {
    let s = after(st, arg(args, 0));
    with_arity(
        st,
        "delete-window"@,
        args,
        0,
        1,
        match window_or_error_arg(st, arg(args, 0)) {
            Found::Is((f, w)) => if s.frames.can_delete(f, w) {
                let t = s.with_frames(s.frames.without_window(f, w));
                gives(t.with_current(selected_buffer(t.frames, f)), Lisp::Nil)
            } else {
                ends(s, error_outcome("Cannot delete sole window"@))
            },
            Found::Signal(o) => ends(s, o),
        },
    )
}

/// `(delete-window &optional WINDOW)` -> nil.
pub fn builtin_delete_window(ui: &mut Ui, args: &Vec<Value>) -> (r: EvalResult)
    ensures
        final(ui)@ == delete_window_step(old(ui)@, views(args@)).state,
        outcome(r) == delete_window_step(old(ui)@, views(args@)).end,
{
    expect_max_args("delete-window", args, 1)?;
    let (f, w) = resolve_window_id_or_error(ui, &arg_or_nil(args, 0))?;
    if !ui.frames.delete_window(f, w) {
        return Err(error_signal("Cannot delete sole window"));
    }
    let buffer: Option<u64> = selected_window_buffer(&ui.frames, f);
    ui.set_current(buffer);
    Ok(Value::Nil)
}

/// The frames after all of some windows but one were deleted, one after the other.
/// The last window of a frame stays.
pub open spec fn all_deleted(frames: Frames, f: u64, ids: Seq<u64>, keep: u64) -> Frames
    decreases ids.len(),
{
    if ids.len() == 0 {
        frames
    } else {
        all_deleted(
            if ids[0] == keep {
                frames
            } else {
                frames.without_window(f, ids[0])
            },
            f,
            ids.drop_first(),
            keep,
        )
    }
}

/// Deletes all of some windows but one.
fn delete_all_but(frames: &mut FrameManager, f: u64, ids: &Vec<u64>, keep: u64)
    ensures
        final(frames)@ == all_deleted(old(frames)@, f, ids@, keep),
{
    let mut i: usize = 0;
    proof {
        assert(ids@.skip(0) =~= ids@);
    }
    while i < ids.len()
        invariant
            i <= ids.len(),
            all_deleted(frames@, f, ids@.skip(i as int), keep) == all_deleted(
                old(frames)@,
                f,
                ids@,
                keep,
            ),
        decreases ids.len() - i,
    {
        proof {
            assert(ids@.skip(i as int)[0] == ids@[i as int]);
            assert(ids@.skip(i as int).drop_first() =~= ids@.skip(i + 1));
        }
        if ids[i] != keep {
            let _done: bool = frames.delete_window(f, ids[i]);
        }
        i = i + 1;
    }
}

/// The session after all windows of a frame but one were deleted and that one was selected.
pub open spec fn only_window(s: UiState, f: u64, keep: u64) -> Step {
    match s.frames.get(f) {
        Some(frame) => {
            let frames = all_deleted(s.frames, f, leaf_ids(frame.root), keep);
            match frames.get(f) {
                Some(g) => {
                    let t = s.with_frames(frames.with_frame(f, g.with_selected(keep)));
                    gives(t.with_current(shown_on(t.frames, f, keep)), Lisp::Nil)
                },
                None => gives(s.with_frames(frames), Lisp::Nil),
            }
        },
        None => ends(s, error_outcome("Frame not found"@)),
    }
}

/// The buffer that a window of a frame shows.
pub open spec fn shown_on(frames: Frames, f: u64, w: u64) -> Option<u64> {
    match frames.get(f) {
        Some(frame) => frame.window_buffer(w),
        None => None,
    }
}

/// The buffer that a window of a frame shows.
fn buffer_shown_on(frames: &FrameManager, f: u64, w: u64) -> (r: Option<u64>)
    ensures
        r == shown_on(frames@, f, w),
{
    match frames.get(f) {
        Some(frame) => frame.window_buffer(w),
        None => None,
    }
}

/// Deletes all windows of a frame but one and selects that one.
fn keep_only_window(ui: &mut Ui, f: u64, keep: u64) -> (r: EvalResult)
    ensures
        final(ui)@ == only_window(old(ui)@, f, keep).state,
        outcome(r) == only_window(old(ui)@, f, keep).end,
{
    let ids: Vec<u64> = get_frame(&ui.frames, f)?.window_list();
    delete_all_but(&mut ui.frames, f, &ids, keep);
    if ui.frames.get(f).is_none() {
        return Ok(Value::Nil);
    }
    let _done: bool = ui.frames.select_window(f, keep);
    let buffer: Option<u64> = buffer_shown_on(&ui.frames, f, keep);
    ui.set_current(buffer);
    Ok(Value::Nil)
}

/// `(delete-other-windows &optional WINDOW)`
pub open spec fn delete_other_windows_step(st: UiState, args: Seq<Lisp>) -> Step {
    let s = after(st, arg(args, 0));
    with_arity(
        st,
        "delete-other-windows"@,
        args,
        0,
        2,
        match window_or_error_arg(st, arg(args, 0)) {
            Found::Is((f, w)) => only_window(s, f, w),
            Found::Signal(o) => ends(s, o),
        },
    )
}

/// `(delete-other-windows &optional WINDOW)` -> nil.
pub fn builtin_delete_other_windows(ui: &mut Ui, args: &Vec<Value>) -> (r: EvalResult)
    ensures
        final(ui)@ == delete_other_windows_step(old(ui)@, views(args@)).state,
        outcome(r) == delete_other_windows_step(old(ui)@, views(args@)).end,
{
    expect_max_args("delete-other-windows", args, 2)?;
    let (f, w) = resolve_window_id_or_error(ui, &arg_or_nil(args, 0))?;
    keep_only_window(ui, f, w)
}

/// `(delete-other-windows-internal &optional WINDOW ALL-FRAMES)`
pub open spec fn delete_other_windows_internal_step(st: UiState, args: Seq<Lisp>) -> Step {
    let s = after(st, arg(args, 0));
    with_arity(
        st,
        "delete-other-windows-internal"@,
        args,
        0,
        2,
        match window_arg(st, arg(args, 0), "window-valid-p"@) {
            Found::Is((f, w)) => only_window(s, f, w),
            Found::Signal(o) => ends(s, o),
        },
    )
}

/// `(delete-other-windows-internal &optional WINDOW ALL-FRAMES)` -> nil.
pub fn builtin_delete_other_windows_internal(ui: &mut Ui, args: &Vec<Value>) -> (r: EvalResult)
    ensures
        final(ui)@ == delete_other_windows_internal_step(old(ui)@, views(args@)).state,
        outcome(r) == delete_other_windows_internal_step(old(ui)@, views(args@)).end,
{
    expect_max_args("delete-other-windows-internal", args, 2)?;
    let (f, w) = resolve_window_id_with_pred(ui, &arg_or_nil(args, 0), "window-valid-p")?;
    keep_only_window(ui, f, w)
}

/// What deleting a window object does: nothing where it is deleted already.
pub open spec fn window_deleted(s: UiState, w: u64) -> Step {
    match s.frames.frame_of_valid(w) {
        Some(f) => match s.frames.get(f) {
            Some(frame) => if frame.minibuffer_window == Some(w) || leaf_ids(frame.root).len()
                <= 1 {
                ends(
                    s,
                    error_outcome("Attempt to delete minibuffer or sole ordinary window"@),
                )
            } else if s.frames.can_delete(f, w) {
                gives(s.with_frames(s.frames.without_window(f, w)), Lisp::Nil)
            } else {
                ends(s, error_outcome("Deletion failed"@))
            },
            None => ends(s, error_outcome("Frame not found"@)),
        },
        None => gives(s, Lisp::Nil),
    }
}

/// `(delete-window-internal WINDOW)`
pub open spec fn delete_window_internal_step(st: UiState, args: Seq<Lisp>) -> Step {
    let s = after(st, arg(args, 0));
    with_arity(
        st,
        "delete-window-internal"@,
        args,
        1,
        1,
        match window_object_arg(st, arg(args, 0), "windowp"@) {
            Found::Is(w) => window_deleted(s, w),
            Found::Signal(o) => ends(s, o),
        },
    )
}

/// `(delete-window-internal WINDOW)` -> nil.
pub fn builtin_delete_window_internal(ui: &mut Ui, args: &Vec<Value>) -> (r: EvalResult)
    ensures
        final(ui)@ == delete_window_internal_step(old(ui)@, views(args@)).state,
        outcome(r) == delete_window_internal_step(old(ui)@, views(args@)).end,
{
    expect_args("delete-window-internal", args, 1)?;
    let w: u64 = resolve_window_object_id_with_pred(ui, &arg_or_nil(args, 0), "windowp")?;
    let f: u64 = match ui.frames.find_valid_window_frame_id(w) {
        Some(f) => f,
        None => {
            return Ok(Value::Nil);
        },
    };
    let frame = get_frame(&ui.frames, f)?;
    let mini: bool = match frame.minibuffer_window {
        Some(m) => m == w,
        None => false,
    };
    if mini || frame.window_list().len() <= 1 {
        return Err(error_signal("Attempt to delete minibuffer or sole ordinary window"));
    }
    if ui.frames.delete_window(f, w) {
        Ok(Value::Nil)
    } else {
        Err(error_signal("Deletion failed"))
    }
}

/// The session after a window of a frame was selected.
pub open spec fn window_selected(s: UiState, f: u64, w: u64, record: bool) -> UiState {
    let frames = match s.frames.get(f) {
        Some(frame) => s.frames.with_frame(f, frame.with_selected(w)),
        None => s.frames,
    };
    let t = s.with_frames(
        if record {
            frames.selection_noted(w)
        } else {
            frames
        },
    );
    t.with_current(shown_on(frames, f, w))
}

/// `(select-window WINDOW &optional NORECORD)`
pub open spec fn select_window_step(st: UiState, args: Seq<Lisp>) -> Step {
    let s = booted(st);
    let refused = ends(s, wrong_type("window-live-p"@, arg(args, 0)));
    with_arity(
        st,
        "select-window"@,
        args,
        1,
        2,
        match designated(arg(args, 0)) {
            Some(w) => match s.frames.get(boot_id(st)) {
                Some(f) => if f.live(w) {
                    gives(
                        window_selected(s, boot_id(st), w, arg(args, 1) == Lisp::Nil),
                        Lisp::Window(w),
                    )
                } else {
                    refused
                },
                None => ends(s, error_outcome("No selected frame"@)),
            },
            None => refused,
        },
    )
}

/// `(select-window WINDOW &optional NORECORD)` -> WINDOW.
pub fn builtin_select_window(ui: &mut Ui, args: &Vec<Value>) -> (r: EvalResult)
    ensures
        final(ui)@ == select_window_step(old(ui)@, views(args@)).state,
        outcome(r) == select_window_step(old(ui)@, views(args@)).end,
{
    expect_args_range("select-window", args, 1, 2)?;
    let f: u64 = ensure_selected_frame_id(ui);
    let w: u64 = match window_id_from_designator(&args[0]) {
        Some(w) => w,
        None => {
            return Err(wrong_type_argument("window-live-p", &args[0]));
        },
    };
    let record: bool = arg_or_nil(args, 1).is_nil();
    if ui.frames.get(f).is_none() {
        return Err(error_signal("No selected frame"));
    }
    if !ui.frames.select_window(f, w) {
        proof {
            lemma_same_frame(old(ui)@, f, w);
        }
        return Err(wrong_type_argument("window-live-p", &args[0]));
    }
    let buffer: Option<u64> = buffer_shown_on(&ui.frames, f, w);
    if record {
        ui.frames.note_window_selected(w);
    }
    ui.set_current(buffer);
    Ok(Value::Window(w))
}

/// Selecting a window that shows no buffer changes nothing.
proof fn lemma_same_frame(st: UiState, f: u64, w: u64)
    ensures
        booted(st).frames.get(f) matches Some(frame) ==> !frame.live(w) ==> booted(
            st,
        ).frames.with_frame(f, frame.with_selected(w)) == booted(st).frames,
{
    match booted(st).frames.get(f) {
        Some(frame) => {
            if !frame.live(w) {
                let frames = booted(st).frames;
                let i = crate::frame::frame_index(frames.list, f);
                assert(frames.list.update(i, frame) =~= frames.list);
            }
        },
        None => {},
    }
}

/// `(set-frame-selected-window FRAME WINDOW &optional NORECORD)`
pub open spec fn set_frame_selected_window_step(st: UiState, args: Seq<Lisp>) -> Step {
    let s = after(st, arg(args, 0));
    let refused = ends(s, wrong_type("window-live-p"@, arg(args, 1)));
    with_arity(
        st,
        "set-frame-selected-window"@,
        args,
        2,
        3,
        match frame_arg(st, arg(args, 0), "frame-live-p"@) {
            Found::Is(f) => match designated(arg(args, 1)) {
                Some(w) => match s.frames.frame_of_live(w) {
                    Some(own) => if own != f {
                        ends(
                            s,
                            error_outcome(
                                "In `set-frame-selected-window', WINDOW is not on FRAME"@,
                            ),
                        )
                    } else if f == boot_id(s) {
                        select_window_step(
                            booted(s),
                            if args.len() == 3 {
                                seq![Lisp::Window(w), args[2]]
                            } else {
                                seq![Lisp::Window(w)]
                            },
                        )
                    } else {
                        match booted(s).frames.get(f) {
                            Some(frame) => gives(
                                booted(s).with_frames(
                                    booted(s).frames.with_frame(
                                        f,
                                        FrameState { selected_window: w, ..frame },
                                    ),
                                ),
                                Lisp::Window(w),
                            ),
                            None => ends(booted(s), error_outcome("Frame not found"@)),
                        }
                    },
                    None => refused,
                },
                None => refused,
            },
            Found::Signal(o) => ends(s, o),
        },
    )
}

/// `(set-frame-selected-window FRAME WINDOW &optional NORECORD)` -> WINDOW.
pub fn builtin_set_frame_selected_window(ui: &mut Ui, args: &Vec<Value>) -> (r: EvalResult)
    ensures
        final(ui)@ == set_frame_selected_window_step(old(ui)@, views(args@)).state,
        outcome(r) == set_frame_selected_window_step(old(ui)@, views(args@)).end,
{
    expect_args_range("set-frame-selected-window", args, 2, 3)?;
    let f: u64 = resolve_frame_id(ui, &args[0], "frame-live-p")?;
    let w: u64 = match window_id_from_designator(&args[1]) {
        Some(w) => w,
        None => {
            return Err(wrong_type_argument("window-live-p", &args[1]));
        },
    };
    let own: u64 = match ui.frames.find_window_frame_id(w) {
        Some(own) => own,
        None => {
            return Err(wrong_type_argument("window-live-p", &args[1]));
        },
    };
    if own != f {
        return Err(error_signal("In `set-frame-selected-window', WINDOW is not on FRAME"));
    }
    let selected: u64 = ensure_selected_frame_id(ui);
    if f == selected {
        let mut select_args: Vec<Value> = Vec::new();
        let first: Value = Value::Window(w);
        proof {
            assert(first@ == Lisp::Window(w));
        }
        select_args.push(first);
        if args.len() == 3 {
            select_args.push(args[2].copy());
            proof {
                assert(views(select_args@) =~= seq![Lisp::Window(w), views(args@)[2]]);
            }
        } else {
            proof {
                assert(views(select_args@) =~= seq![Lisp::Window(w)]);
            }
        }
        return builtin_select_window(ui, &select_args);
    }
    if ui.frames.get(f).is_none() {
        return Err(error_signal("Frame not found"));
    }
    ui.frames.set_selected_window(f, w);
    Ok(Value::Window(w))
}

/// `(other-window COUNT &optional ALL-FRAMES)`
pub open spec fn other_window_step(st: UiState, args: Seq<Lisp>) -> Step {
    let s = booted(st);
    with_arity(
        st,
        "other-window"@,
        args,
        1,
        3,
        match count_arg(arg(args, 0)) {
            Found::Is(count) => match s.frames.selected_frame() {
                Some(frame) => if leaf_ids(frame.root).len() == 0 {
                    gives(s, Lisp::Nil)
                } else {
                    let w = stepped(leaf_ids(frame.root), frame.selected_window, count as int);
                    gives(window_selected(s, frame.id, w, frame.live(w)), Lisp::Nil)
                },
                None => gives(s, Lisp::Nil),
            },
            Found::Signal(o) => ends(st, o),
        },
    )
}

/// `(other-window COUNT &optional ALL-FRAMES)` -> nil.
pub fn builtin_other_window(ui: &mut Ui, args: &Vec<Value>) -> (r: EvalResult)
    ensures
        final(ui)@ == other_window_step(old(ui)@, views(args@)).state,
        outcome(r) == other_window_step(old(ui)@, views(args@)).end,
{
    expect_args_range("other-window", args, 1, 3)?;
    let count: i64 = expect_number_or_marker_count(&args[0])?;
    let _id: u64 = ensure_selected_frame_id(ui);
    let (f, list, current): (u64, Vec<u64>, u64) = match ui.frames.selected_frame() {
        Some(frame) => (frame.id, frame.window_list(), frame.selected_window),
        None => {
            return Ok(Value::Nil);
        },
    };
    if list.len() == 0 {
        return Ok(Value::Nil);
    }
    let w: u64 = step_to(&list, current, count);
    proof {
        lemma_selected_frame_is_got(booted(old(ui)@).frames);
    }
    let switched: bool = ui.frames.select_window(f, w);
    let buffer: Option<u64> = buffer_shown_on(&ui.frames, f, w);
    if switched {
        ui.frames.note_window_selected(w);
    }
    ui.set_current(buffer);
    Ok(Value::Nil)
}

/// The selected frame is the frame with its identifier.
proof fn lemma_selected_frame_is_got(frames: Frames)
    ensures
        frames.selected_frame() matches Some(f) ==> frames.get(f.id) == Some(f),
{
    match frames.selected {
        Some(id) => {
            crate::frame::lemma_frame_index(frames.list, id);
        },
        None => {},
    }
}

} // verus!
