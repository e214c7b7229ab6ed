//! Builtins that show a buffer in a window.
use crate::buffer::{named_buffer, BufferManager, Buffers};
use crate::frame::{FrameManager, Frames, RecordState, WindowRecord};
use crate::table::{entry, with_entry};
use crate::text::string_of;
use crate::value::outcome;
use crate::value::{
    arg, arg_or_nil, error_outcome, error_signal, expect_args_range, list3, list_items, list_of,
    list_to_vec, str_chars, views, wrong_type, wrong_type_argument, EvalResult, Flow, Lisp,
    Outcome, Value,
};
use crate::window::{Leaf, Window};
use crate::window_cmds::query::{on_window, with_arity};
use crate::window_cmds::resolve::{found, resolve_window_id, Found};
use crate::window_cmds::state::{
    boot_id, booted, ends, ensure_selected_frame_id, gives, Step, Ui, UiState,
};
use vstd::prelude::*;

verus! {

/// The buffer that an argument is or names, where it must exist.
pub open spec fn shown_buffer_arg(b: Buffers, a: Lisp) -> Found<u64> {
    match a {
        Lisp::Buffer(id) => if b.get(id) is Some {
            Found::Is(id)
        } else {
            Found::Signal(error_outcome("Attempt to display deleted buffer"@))
        },
        Lisp::Str(_, _) => match named_buffer(b.list, str_chars(a)->0) {
            Some(id) => Found::Is(id),
            None => Found::Signal(wrong_type("bufferp"@, Lisp::Nil)),
        },
        _ => Found::Signal(wrong_type("stringp"@, a)),
    }
}

/// The buffer that a name names.
fn find_named(b: &BufferManager, a: &Value) -> (r: Option<u64>)
    requires
        a@ is Str,
    ensures
        r == named_buffer(b@.list, str_chars(a@)->0),
{
    match a.as_runtime_string() {
        Some(name) => b.find_buffer_by_name(string_of(name.as_slice()).as_str()),
        None => None,
    }
}

/// The buffer that an argument is or names, where it must exist.
fn resolve_shown_buffer(b: &BufferManager, a: &Value) -> (r: Result<u64, Flow>)
    ensures
        found(r) == shown_buffer_arg(b@, a@),
{
    match a {
        Value::Buffer(id) => if b.get(*id).is_some() {
            Ok(*id)
        } else {
            Err(error_signal("Attempt to display deleted buffer"))
        },
        Value::Str(_, _) => match find_named(b, a) {
            Some(id) => Ok(id),
            None => {
                let missing: Value = Value::Nil;
                Err(wrong_type_argument("bufferp", &missing))
            },
        },
        _ => Err(wrong_type_argument("stringp", a)),
    }
}

/// Whether an entry of a buffer history is for a buffer.
pub open spec fn history_of(e: Lisp, buffer: u64) -> bool {
    match list_items(e) {
        Some(items) => items.len() > 0 && items[0] == Lisp::Buffer(buffer),
        None => false,
    }
}

/// A buffer history without the entries for a buffer.
pub open spec fn history_without(entries: Seq<Lisp>, buffer: u64) -> Seq<Lisp>
    decreases entries.len(),
{
    if entries.len() == 0 {
        entries
    } else if history_of(entries.last(), buffer) {
        history_without(entries.drop_last(), buffer)
    } else {
        history_without(entries.drop_last(), buffer).push(entries.last())
    }
}

/// Whether an entry of a buffer history is for a buffer.
fn is_history_of(e: &Value, buffer: u64) -> (r: bool)
    ensures
        r == history_of(e@, buffer),
{
    match list_to_vec(e) {
        Some(items) => if items.len() > 0 {
            proof {
                assert(views(items@)[0] == items@[0]@);
            }
            match items[0].as_buffer_id() {
                Some(b) => b == buffer,
                None => false,
            }
        } else {
            false
        },
        None => false,
    }
}

/// A buffer history without the entries for a buffer.
fn keep_other_history(entries: &Vec<Value>, buffer: u64, first: Value) -> (r: Vec<Value>)
    ensures
        views(r@) == seq![first@] + history_without(views(entries@), buffer),
{
    let mut out: Vec<Value> = Vec::new();
    let ghost head = first@;
    out.push(first);
    let mut i: usize = 0;
    let ghost all = views(entries@);
    proof {
        assert(all.take(0) =~= Seq::<Lisp>::empty());
        assert(views(out@) =~= seq![head] + history_without(all.take(0), buffer));
    }
    while i < entries.len()
        invariant
            i <= entries.len(),
            all == views(entries@),
            views(out@) == seq![head] + history_without(all.take(i as int), buffer),
        decreases entries.len() - i,
    {
        proof {
            assert(all.take(i + 1).drop_last() =~= all.take(i as int));
            assert(all.take(i + 1).last() == entries@[i as int]@);
        }
        if !is_history_of(&entries[i], buffer) {
            let ghost before = out@;
            out.push(entries[i].copy());
            proof {
                assert(views(out@) =~= views(before).push(entries@[i as int]@));
                assert(views(out@) =~= seq![head] + history_without(
                    all.take(i as int),
                    buffer,
                ).push(entries@[i as int]@));
            }
        }
        i = i + 1;
    }
    proof {
        assert(all.take(i as int) =~= all);
    }
    out
}

/// A position, at least one.
pub open spec fn position_value(n: usize) -> Option<i64> {
    Some(
        if n < 1 {
            1
        } else {
            n as i64
        },
    )
}

/// A position, at least one.
fn position_or_first(n: usize) -> (r: Option<i64>)
    ensures
        r == position_value(n),
{
    if n < 1 {
        Some(1)
    } else {
        Some(n as i64)
    }
}

/// The entry for what a window showed: the buffer, and markers at its start and point.
pub open spec fn history_entry(b: Buffers, l: Leaf) -> Lisp {
    let name = match b.get(l.buffer_id) {
        Some(x) => Some(x.name),
        None => None,
    };
    list3(
        Lisp::Buffer(l.buffer_id),
        Lisp::Marker(name, position_value(l.window_start)),
        Lisp::Marker(name, position_value(l.point)),
    )
}

/// The name of a buffer that may be missing.
fn buffer_name(b: &BufferManager, id: u64) -> (r: Option<String>)
    ensures
        crate::value::opt_text(r) == (match b@.get(id) {
            Some(x) => Some(x.name),
            None => None::<Seq<char>>,
        }),
{
    match b.get(id) {
        Some(x) => Some(x.name.clone()),
        None => None,
    }
}

/// The entry for what a window showed.
fn make_history_entry(b: &BufferManager, l: &Leaf) -> (r: Value)
    ensures
        r@ == history_entry(b@, *l),
{
    let first: Value = Value::Buffer(l.buffer_id);
    let start: Value = Value::Marker(
        buffer_name(b, l.buffer_id),
        position_or_first(l.window_start),
    );
    let point: Value = Value::Marker(buffer_name(b, l.buffer_id), position_or_first(l.point));
    proof {
        assert(first@ == Lisp::Buffer(l.buffer_id));
        assert(start@ is Marker);
        assert(point@ is Marker);
    }
    Value::list3(first, start, point)
}

/// What is kept of a window after it stopped to show a buffer.
pub open spec fn history_added(k: RecordState, b: Buffers, l: Leaf) -> Found<RecordState> {
    match list_items(k.prev_buffers) {
        Some(entries) => Found::Is(
            RecordState {
                prev_buffers: list_of(
                    seq![history_entry(b, l)] + history_without(entries, l.buffer_id),
                ),
                next_buffers: Lisp::Nil,
                ..k
            },
        ),
        None => Found::Signal(wrong_type("listp"@, k.prev_buffers)),
    }
}

/// The frames after what a window shows was kept: its start and point there, and
/// an entry in its history where it shows another buffer next.
pub open spec fn shown_kept(s: UiState, f: u64, w: u64, buffer: u64) -> (Frames, Option<Outcome>) {
    match s.frames.window(f, w) {
        Some(Window::Leaf(l)) => {
            let k = s.frames.record(w);
            let kept = RecordState {
                positions: with_entry(k.positions, l.buffer_id, (l.window_start, l.point)),
                ..k
            };
            if l.buffer_id == buffer {
                (s.frames.with_record(w, kept), None)
            } else {
                match history_added(kept, s.buffers, l) {
                    Found::Is(r) => (s.frames.with_record(w, r), None),
                    Found::Signal(o) => (s.frames.with_record(w, kept), Some(o)),
                }
            }
        },
        _ => (s.frames, None),
    }
}

/// Keeps what a window shows before it shows a buffer.
fn keep_shown(ui: &mut Ui, f: u64, w: u64, buffer: u64) -> (r: Result<(), Flow>)
    ensures
        final(ui)@.buffers == old(ui)@.buffers,
        final(ui)@.frames == shown_kept(old(ui)@, f, w, buffer).0,
        match r {
            Ok(_) => shown_kept(old(ui)@, f, w, buffer).1 is None,
            Err(e) => shown_kept(old(ui)@, f, w, buffer).1 == Some(
                crate::value::signalled(e),
            ),
        },
{
    let l: Leaf = match ui.frames.find_window(f, w) {
        Some(Window::Leaf(l)) => l,
        _ => {
            return Ok(());
        },
    };
    let mut k: WindowRecord = ui.frames.record(w);
    k.set_position(l.buffer_id, l.window_start, l.point);
    if l.buffer_id == buffer {
        ui.frames.set_record(w, k);
        return Ok(());
    }
    match list_to_vec(&k.prev_buffers) {
        Some(entries) => {
            let first: Value = make_history_entry(&ui.buffers, &l);
            let history: Value = Value::list(
                keep_other_history(&entries, l.buffer_id, first),
            );
            k.set_prev_buffers(history);
            k.set_next_buffers(Value::Nil);
            ui.frames.set_record(w, k);
            Ok(())
        },
        None => {
            let e: Flow = wrong_type_argument("listp", &k.prev_buffers);
            ui.frames.set_record(w, k);
            Err(e)
        },
    }
}

/// A position, at least one.
pub open spec fn at_least_one(n: usize) -> usize {
    if n < 1 {
        1
    } else {
        n
    }
}

/// A position, at least one.
fn make_at_least_one(n: usize) -> (r: usize)
    ensures
        r == at_least_one(n),
{
    if n < 1 {
        1
    } else {
        n
    }
}

/// The position of point in a buffer, for a window that shows it for the first time.
pub open spec fn first_point(b: Buffers, buffer: u64) -> usize {
    match b.get(buffer) {
        Some(x) => if x.chars_before(x.pt) < usize::MAX {
            (x.chars_before(x.pt) + 1) as usize
        } else {
            usize::MAX
        },
        None => 1,
    }
}

/// The position of point in a buffer.
fn point_in_buffer(b: &BufferManager, buffer: u64) -> (r: usize)
    ensures
        r == first_point(b@, buffer),
{
    match b.get(buffer) {
        Some(x) => {
            let n: usize = x.point_char();
            if n < usize::MAX {
                n + 1
            } else {
                usize::MAX
            }
        },
        None => 1,
    }
}

/// The frames after a window shows a buffer, where it was when it showed it last.
pub open spec fn shown(
    frames: Frames,
    f: u64,
    w: u64,
    buffer: u64,
    point: usize,
    keep_margins: bool,
) -> Frames {
    let (start, pt) = match entry(frames.record(w).positions, buffer) {
        Some(p) => p,
        None => (1usize, point),
    };
    match frames.window(f, w) {
        Some(Window::Leaf(l)) => frames.with_leaf(
            f,
            w,
            Leaf {
                buffer_id: buffer,
                window_start: at_least_one(start),
                point: at_least_one(pt),
                left_margin: if keep_margins {
                    l.left_margin
                } else {
                    0
                },
                right_margin: if keep_margins {
                    l.right_margin
                } else {
                    0
                },
                ..l
            },
        ),
        _ => frames,
    }
}

/// Makes a window show a buffer, where it was when it showed it last.
fn show(
    frames: &mut FrameManager,
    f: u64,
    w: u64,
    buffer: u64,
    point: usize,
    keep_margins: bool,
)
    ensures
        final(frames)@ == shown(old(frames)@, f, w, buffer, point, keep_margins),
{
    let (start, pt): (usize, usize) = match frames.record(w).position(buffer) {
        Some(p) => p,
        None => (1, point),
    };
    match frames.find_window(f, w) {
        Some(Window::Leaf(l)) => {
            let mut new: Leaf = l;
            new.buffer_id = buffer;
            new.window_start = make_at_least_one(start);
            new.point = make_at_least_one(pt);
            if !keep_margins {
                new.left_margin = 0;
                new.right_margin = 0;
            }
            frames.set_leaf(f, w, new);
        },
        _ => {},
    }
}

/// `(set-window-buffer WINDOW BUFFER-OR-NAME &optional KEEP-MARGINS)`
pub open spec fn set_window_buffer_step(st: UiState, args: Seq<Lisp>) -> Step {
    with_arity(
        st,
        "set-window-buffer"@,
        args,
        2,
        3,
        on_window(
            st,
            arg(args, 0),
            "window-live-p"@,
            |s: UiState, f: u64, w: u64|
                match shown_buffer_arg(s.buffers, arg(args, 1)) {
                    Found::Is(buffer) => match shown_kept(s, f, w, buffer) {
                        (frames, None) => gives(
                            s.with_frames(
                                shown(
                                    frames,
                                    f,
                                    w,
                                    buffer,
                                    first_point(s.buffers, buffer),
                                    arg(args, 2) != Lisp::Nil,
                                ),
                            ),
                            Lisp::Nil,
                        ),
                        (frames, Some(o)) => ends(s.with_frames(frames), o),
                    },
                    Found::Signal(o) => ends(s, o),
                },
        ),
    )
}

/// `(set-window-buffer WINDOW BUFFER-OR-NAME &optional KEEP-MARGINS)` -> nil.
pub fn builtin_set_window_buffer(ui: &mut Ui, args: &Vec<Value>) -> (r: EvalResult)
    ensures
        final(ui)@ == set_window_buffer_step(old(ui)@, views(args@)).state,
        outcome(r) == set_window_buffer_step(old(ui)@, views(args@)).end,
{
    expect_args_range("set-window-buffer", args, 2, 3)?;
    let (f, w) = resolve_window_id(ui, &arg_or_nil(args, 0))?;
    let buffer: u64 = resolve_shown_buffer(&ui.buffers, &args[1])?;
    let keep_margins: bool = arg_or_nil(args, 2).is_truthy();
    let point: usize = point_in_buffer(&ui.buffers, buffer);
    keep_shown(ui, f, w, buffer)?;
    show(&mut ui.frames, f, w, buffer, point, keep_margins);
    Ok(Value::Nil)
}

/// The buffer that an argument is or names; a buffer that is named and missing is made.
pub open spec fn made_buffer_arg(b: Buffers, a: Lisp, dead: Seq<char>) -> (Buffers, Found<u64>) {
    match a {
        Lisp::Buffer(id) => if b.get(id) is Some {
            (b, Found::Is(id))
        } else {
            (b, Found::Signal(error_outcome(dead)))
        },
        Lisp::Str(_, _) => {
            let (made, id) = crate::window_cmds::state::buffer_named(b, str_chars(a)->0);
            (made, Found::Is(id))
        },
        _ => (b, Found::Signal(wrong_type("stringp"@, a))),
    }
}

/// The buffer that an argument is or names; a buffer that is named and missing is made.
fn resolve_made_buffer(b: &mut BufferManager, a: &Value, dead: &str) -> (r: Result<u64, Flow>)
    ensures
        (final(b)@, found(r)) == made_buffer_arg(old(b)@, a@, dead@),
{
    match a {
        Value::Buffer(id) => if b.get(*id).is_some() {
            Ok(*id)
        } else {
            Err(error_signal(dead))
        },
        Value::Str(_, _) => match a.as_runtime_string() {
            Some(name) => {
                let name: String = string_of(name.as_slice());
                Ok(crate::window_cmds::state::get_or_create_buffer(b, name.as_str()))
            },
            None => Err(wrong_type_argument("stringp", a)),
        },
        _ => Err(wrong_type_argument("stringp", a)),
    }
}

/// The frames after a window shows another buffer and nothing else changed.
pub open spec fn buffer_put(frames: Frames, f: u64, w: u64, buffer: u64) -> Frames {
    match frames.window(f, w) {
        Some(Window::Leaf(l)) => frames.with_leaf(f, w, Leaf { buffer_id: buffer, ..l }),
        _ => frames,
    }
}

/// Showing a buffer in the selected window.
pub open spec fn in_selected_window(
    st: UiState,
    buffer: u64,
    current: bool,
    window: bool,
) -> Step {
    let s = booted(st);
    match s.frames.get(boot_id(st)) {
        Some(f) => {
            let t = s.with_frames(buffer_put(s.frames, boot_id(st), f.selected_window, buffer));
            gives(
                if current {
                    t.with_current(Some(buffer))
                } else {
                    t
                },
                if window {
                    Lisp::Window(f.selected_window)
                } else {
                    Lisp::Buffer(buffer)
                },
            )
        },
        None => ends(s, error_outcome("No selected window"@)),
    }
}

/// Shows a buffer in the selected window.
fn show_in_selected_window(ui: &mut Ui, buffer: u64, current: bool, window: bool) -> (r: EvalResult)
    ensures
        final(ui)@ == in_selected_window(old(ui)@, buffer, current, window).state,
        outcome(r) == in_selected_window(old(ui)@, buffer, current, window).end,
{
    let f: u64 = ensure_selected_frame_id(ui);
    let w: u64 = match ui.frames.get(f) {
        Some(frame) => frame.selected_window,
        None => {
            return Err(error_signal("No selected window"));
        },
    };
    match ui.frames.find_window(f, w) {
        Some(Window::Leaf(l)) => {
            let mut new: Leaf = l;
            new.buffer_id = buffer;
            ui.frames.set_leaf(f, w, new);
        },
        _ => {},
    }
    if current {
        ui.set_current(Some(buffer));
    }
    if window {
        Ok(Value::Window(w))
    } else {
        Ok(Value::Buffer(buffer))
    }
}

/// `(switch-to-buffer BUFFER-OR-NAME &optional NORECORD FORCE-SAME-WINDOW)`
pub open spec fn switch_to_buffer_step(st: UiState, args: Seq<Lisp>) -> Step {
    with_arity(
        st,
        "switch-to-buffer"@,
        args,
        1,
        3,
        match made_buffer_arg(st.buffers, arg(args, 0), "Attempt to display deleted buffer"@) {
            (b, Found::Is(id)) => in_selected_window(
                UiState { buffers: b, ..st },
                id,
                true,
                false,
            ),
            (b, Found::Signal(o)) => ends(UiState { buffers: b, ..st }, o),
        },
    )
}

/// `(switch-to-buffer BUFFER-OR-NAME &optional NORECORD FORCE-SAME-WINDOW)` -> buffer.
pub fn builtin_switch_to_buffer(ui: &mut Ui, args: &Vec<Value>) -> (r: EvalResult)
    ensures
        final(ui)@ == switch_to_buffer_step(old(ui)@, views(args@)).state,
        outcome(r) == switch_to_buffer_step(old(ui)@, views(args@)).end,
{
    expect_args_range("switch-to-buffer", args, 1, 3)?;
    let id: u64 = resolve_made_buffer(
        &mut ui.buffers,
        &args[0],
        "Attempt to display deleted buffer",
    )?;
    show_in_selected_window(ui, id, true, false)
}

/// The buffer that an argument is or names, with one error for any that is missing.
pub open spec fn valid_buffer_arg(b: Buffers, a: Lisp) -> Found<u64> {
    match a {
        Lisp::Buffer(id) => if b.get(id) is Some {
            Found::Is(id)
        } else {
            Found::Signal(error_outcome("Invalid buffer"@))
        },
        Lisp::Str(_, _) => match named_buffer(b.list, str_chars(a)->0) {
            Some(id) => Found::Is(id),
            None => Found::Signal(error_outcome("Invalid buffer"@)),
        },
        _ => Found::Signal(wrong_type("stringp"@, a)),
    }
}

/// The buffer that an argument is or names, with one error for any that is missing.
fn resolve_valid_buffer(b: &BufferManager, a: &Value) -> (r: Result<u64, Flow>)
    ensures
        found(r) == valid_buffer_arg(b@, a@),
{
    match a {
        Value::Buffer(id) => if b.get(*id).is_some() {
            Ok(*id)
        } else {
            Err(error_signal("Invalid buffer"))
        },
        Value::Str(_, _) => match find_named(b, a) {
            Some(id) => Ok(id),
            None => Err(error_signal("Invalid buffer")),
        },
        _ => Err(wrong_type_argument("stringp", a)),
    }
}

/// `(display-buffer BUFFER-OR-NAME &optional ACTION FRAME)`
pub open spec fn display_buffer_step(st: UiState, args: Seq<Lisp>) -> Step {
    with_arity(
        st,
        "display-buffer"@,
        args,
        1,
        3,
        match valid_buffer_arg(st.buffers, arg(args, 0)) {
            Found::Is(id) => in_selected_window(st, id, false, true),
            Found::Signal(o) => ends(st, o),
        },
    )
}

/// `(display-buffer BUFFER-OR-NAME &optional ACTION FRAME)` -> window object.
pub fn builtin_display_buffer(ui: &mut Ui, args: &Vec<Value>) -> (r: EvalResult)
    ensures
        final(ui)@ == display_buffer_step(old(ui)@, views(args@)).state,
        outcome(r) == display_buffer_step(old(ui)@, views(args@)).end,
{
    expect_args_range("display-buffer", args, 1, 3)?;
    let id: u64 = resolve_valid_buffer(&ui.buffers, &args[0])?;
    show_in_selected_window(ui, id, false, true)
}

/// `(pop-to-buffer BUFFER-OR-NAME &optional ACTION NORECORD)`
pub open spec fn pop_to_buffer_step(st: UiState, args: Seq<Lisp>) -> Step {
    with_arity(
        st,
        "pop-to-buffer"@,
        args,
        1,
        3,
        match made_buffer_arg(st.buffers, arg(args, 0), "Invalid buffer"@) {
            (b, Found::Is(id)) => in_selected_window(
                UiState { buffers: b, ..st },
                id,
                true,
                false,
            ),
            (b, Found::Signal(o)) => ends(UiState { buffers: b, ..st }, o),
        },
    )
}

/// `(pop-to-buffer BUFFER-OR-NAME &optional ACTION NORECORD)` -> buffer.
pub fn builtin_pop_to_buffer(ui: &mut Ui, args: &Vec<Value>) -> (r: EvalResult)
    ensures
        final(ui)@ == pop_to_buffer_step(old(ui)@, views(args@)).state,
        outcome(r) == pop_to_buffer_step(old(ui)@, views(args@)).end,
{
    expect_args_range("pop-to-buffer", args, 1, 3)?;
    let id: u64 = resolve_made_buffer(&mut ui.buffers, &args[0], "Invalid buffer")?;
    show_in_selected_window(ui, id, true, false)
}

} // verus!
