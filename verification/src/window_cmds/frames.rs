//! Builtins that select, show, make and delete frames, and their parameters.
use crate::frame::{frame_ids, Frame, FrameManager, FrameState, Frames};
use crate::text::str_eq;
use crate::value::outcome;
use crate::value::{
    arg, arg_or_nil, cons, error_outcome, error_signal, expect_args, expect_args_range,
    expect_max_args, lbool, list_items, list_of, list_to_vec, lstr, sym, views, wrong_number,
    wrong_type, wrong_type_argument, EvalResult, Lisp, Outcome, Value,
};
use crate::window_cmds::edit::{selected_buffer, selected_window_buffer};
use crate::window_cmds::listing::visible_ids;
use crate::window_cmds::query::{on_frame, with_arity};
use crate::window_cmds::resolve::{
    after, designated_frame, found, frame_arg, frame_id_from_designator, get_frame,
    resolve_frame_id, Found,
};
use crate::window_cmds::state::{
    boot_id, booted, ends, ensure_selected_frame_id, gives, Step, Ui, UiState,
};
use vstd::prelude::*;

verus! {

/// The frames with one of them shown or hidden.
pub open spec fn visibility_set(frames: Frames, id: u64, visible: bool) -> Frames {
    match frames.get(id) {
        Some(f) => frames.with_frame(id, FrameState { visible, ..f }),
        None => frames,
    }
}

/// `(iconify-frame &optional FRAME)`
pub open spec fn iconify_frame_step(st: UiState, args: Seq<Lisp>) -> Step {
    let s = after(st, arg(args, 0));
    with_arity(
        st,
        "iconify-frame"@,
        args,
        0,
        1,
        match frame_arg(st, arg(args, 0), "frame-live-p"@) {
            Found::Is(id) => if s.frames.get(id) is Some {
                gives(s.with_frames(visibility_set(s.frames, id, false)), Lisp::Nil)
            } else {
                ends(s, error_outcome("Frame not found"@))
            },
            Found::Signal(o) => ends(s, o),
        },
    )
}

/// `(iconify-frame &optional FRAME)` -> nil.
pub fn builtin_iconify_frame(ui: &mut Ui, args: &Vec<Value>) -> (r: EvalResult)
    ensures
        final(ui)@ == iconify_frame_step(old(ui)@, views(args@)).state,
        outcome(r) == iconify_frame_step(old(ui)@, views(args@)).end,
{
    expect_max_args("iconify-frame", args, 1)?;
    let id: u64 = resolve_frame_id(ui, &arg_or_nil(args, 0), "frame-live-p")?;
    let _f = get_frame(&ui.frames, id)?;
    ui.frames.set_visible(id, false);
    Ok(Value::Nil)
}

/// `(make-frame-visible &optional FRAME)`
pub open spec fn make_frame_visible_step(st: UiState, args: Seq<Lisp>) -> Step {
    let s = after(st, arg(args, 0));
    with_arity(
        st,
        "make-frame-visible"@,
        args,
        0,
        1,
        match frame_arg(st, arg(args, 0), "frame-live-p"@) {
            Found::Is(id) => match s.frames.get(id) {
                Some(f) => gives(
                    s.with_frames(visibility_set(s.frames, id, true)),
                    Lisp::Frame(f.id),
                ),
                None => ends(s, error_outcome("Frame not found"@)),
            },
            Found::Signal(o) => ends(s, o),
        },
    )
}

/// `(make-frame-visible &optional FRAME)` -> frame.
pub fn builtin_make_frame_visible(ui: &mut Ui, args: &Vec<Value>) -> (r: EvalResult)
    ensures
        final(ui)@ == make_frame_visible_step(old(ui)@, views(args@)).state,
        outcome(r) == make_frame_visible_step(old(ui)@, views(args@)).end,
{
    expect_max_args("make-frame-visible", args, 1)?;
    let id: u64 = resolve_frame_id(ui, &arg_or_nil(args, 0), "frame-live-p")?;
    let own: u64 = get_frame(&ui.frames, id)?.id;
    ui.frames.set_visible(id, true);
    Ok(Value::Frame(own))
}

/// `(selected-frame)`
pub open spec fn selected_frame_step(st: UiState, args: Seq<Lisp>) -> Step {
    with_arity(
        st,
        "selected-frame"@,
        args,
        0,
        0,
        gives(booted(st), Lisp::Frame(boot_id(st))),
    )
}

/// `(selected-frame)` -> frame object.
pub fn builtin_selected_frame(ui: &mut Ui, args: &Vec<Value>) -> (r: EvalResult)
    ensures
        final(ui)@ == selected_frame_step(old(ui)@, views(args@)).state,
        outcome(r) == selected_frame_step(old(ui)@, views(args@)).end,
{
    expect_args("selected-frame", args, 0)?;
    let id: u64 = ensure_selected_frame_id(ui);
    Ok(Value::Frame(id))
}

/// The session after a frame was selected.
pub open spec fn frame_selected(s: UiState, id: u64, record: bool) -> UiState {
    let frames = s.frames.with_selected(id);
    let noted = match frames.get(id) {
        Some(f) => if record {
            frames.selection_noted(f.selected_window)
        } else {
            frames
        },
        None => frames,
    };
    s.with_frames(noted).with_current(selected_buffer(noted, id))
}

/// Selecting a frame; `shown` says whether the frame is the result.
pub open spec fn select_frame_step(
    st: UiState,
    name: Seq<char>,
    args: Seq<Lisp>,
    shown: bool,
) -> Step {
    let refused = ends(st, wrong_type("frame-live-p"@, arg(args, 0)));
    with_arity(
        st,
        name,
        args,
        1,
        2,
        match designated_frame(arg(args, 0)) {
            Some(id) => if st.frames.get(id) is Some {
                gives(
                    frame_selected(st, id, arg(args, 1) == Lisp::Nil),
                    if shown {
                        Lisp::Frame(id)
                    } else {
                        Lisp::Nil
                    },
                )
            } else {
                refused
            },
            None => refused,
        },
    )
}

/// Selects a frame.
fn select_frame(ui: &mut Ui, name: &str, args: &Vec<Value>, shown: bool) -> (r: EvalResult)
    ensures
        final(ui)@ == select_frame_step(old(ui)@, name@, views(args@), shown).state,
        outcome(r) == select_frame_step(old(ui)@, name@, views(args@), shown).end,
{
    expect_args_range(name, args, 1, 2)?;
    let id: u64 = match frame_id_from_designator(&args[0]) {
        Some(id) => id,
        None => {
            return Err(wrong_type_argument("frame-live-p", &args[0]));
        },
    };
    if !ui.frames.select_frame(id) {
        return Err(wrong_type_argument("frame-live-p", &args[0]));
    }
    if arg_or_nil(args, 1).is_nil() {
        let selected: Option<u64> = match ui.frames.get(id) {
            Some(f) => Some(f.selected_window),
            None => None,
        };
        match selected {
            Some(w) => {
                ui.frames.note_window_selected(w);
            },
            None => {},
        }
    }
    let buffer: Option<u64> = selected_window_buffer(&ui.frames, id);
    ui.set_current(buffer);
    if shown {
        Ok(Value::Frame(id))
    } else {
        Ok(Value::Nil)
    }
}

/// `(select-frame FRAME &optional NORECORD)` -> frame.
pub fn builtin_select_frame(ui: &mut Ui, args: &Vec<Value>) -> (r: EvalResult)
    ensures
        final(ui)@ == select_frame_step(old(ui)@, "select-frame"@, views(args@), true).state,
        outcome(r) == select_frame_step(old(ui)@, "select-frame"@, views(args@), true).end,
{
    select_frame(ui, "select-frame", args, true)
}

/// `(select-frame-set-input-focus FRAME &optional NORECORD)` -> nil.
pub fn builtin_select_frame_set_input_focus(ui: &mut Ui, args: &Vec<Value>) -> (r: EvalResult)
    ensures
        ({
            let step = select_frame_step(
                old(ui)@,
                "select-frame-set-input-focus"@,
                views(args@),
                false,
            );
            final(ui)@ == step.state && outcome(r) == step.end
        }),
{
    select_frame(ui, "select-frame-set-input-focus", args, false)
}

/// Frames as values.
pub open spec fn frame_values(ids: Seq<u64>) -> Seq<Lisp> {
    Seq::new(ids.len(), |i: int| Lisp::Frame(ids[i]))
}

/// The list of some frames.
fn frame_list_value(ids: &Vec<u64>) -> (r: Value)
    ensures
        r@ == list_of(frame_values(ids@)),
{
    let mut out: Vec<Value> = Vec::new();
    let mut i: usize = 0;
    while i < ids.len()
        invariant
            i <= ids.len(),
            views(out@) == frame_values(ids@).take(i as int),
        decreases ids.len() - i,
    {
        let f: Value = Value::Frame(ids[i]);
        proof {
            assert(f@ == Lisp::Frame(ids@[i as int]));
        }
        let ghost before = out@;
        out.push(f);
        i = i + 1;
        proof {
            assert(views(out@) =~= views(before).push(Lisp::Frame(ids@[i - 1])));
            assert(views(out@) =~= frame_values(ids@).take(i as int));
        }
    }
    proof {
        assert(views(out@) =~= frame_values(ids@));
    }
    Value::list(out)
}

/// `(frame-list)`
pub open spec fn frame_list_step(st: UiState, args: Seq<Lisp>) -> Step {
    with_arity(
        st,
        "frame-list"@,
        args,
        0,
        0,
        gives(booted(st), list_of(frame_values(frame_ids(booted(st).frames.list)))),
    )
}

/// `(frame-list)` -> list of frame objects.
pub fn builtin_frame_list(ui: &mut Ui, args: &Vec<Value>) -> (r: EvalResult)
    ensures
        final(ui)@ == frame_list_step(old(ui)@, views(args@)).state,
        outcome(r) == frame_list_step(old(ui)@, views(args@)).end,
{
    expect_args("frame-list", args, 0)?;
    let _id: u64 = ensure_selected_frame_id(ui);
    let ids: Vec<u64> = ui.frames.frame_list();
    Ok(frame_list_value(&ids))
}

/// `(visible-frame-list)`
pub open spec fn visible_frame_list_step(st: UiState, args: Seq<Lisp>) -> Step {
    with_arity(
        st,
        "visible-frame-list"@,
        args,
        0,
        0,
        gives(booted(st), list_of(frame_values(visible_ids(booted(st).frames.list)))),
    )
}

/// `(visible-frame-list)` -> list of visible frame objects.
pub fn builtin_visible_frame_list(ui: &mut Ui, args: &Vec<Value>) -> (r: EvalResult)
    ensures
        final(ui)@ == visible_frame_list_step(old(ui)@, views(args@)).state,
        outcome(r) == visible_frame_list_step(old(ui)@, views(args@)).end,
{
    expect_args("visible-frame-list", args, 0)?;
    let _id: u64 = ensure_selected_frame_id(ui);
    let ids: Vec<u64> = ui.frames.visible_frame_list();
    Ok(frame_list_value(&ids))
}

/// An integer cut to 32 bits.
pub open spec fn low_bits(n: i64) -> u32 {
    (n as int % 0x1_0000_0000) as u32
}

/// An integer cut to 32 bits.
pub fn cut_to_u32(n: i64) -> (r: u32)
    ensures
        r == low_bits(n),
{
    let m: i128 = if n >= 0 {
        n as i128
    } else {
        n as i128 + 0x1_0000_0000_0000_0000
    };
    proof {
        if n < 0 {
            assert((n as int + 0x1_0000_0000_0000_0000) % 0x1_0000_0000 == n as int
                % 0x1_0000_0000);
        }
    }
    (m % 0x1_0000_0000) as u32
}

/// What the parameters of a new frame say.
pub struct NewFrame {
    pub width: u32,
    pub height: u32,
    pub name: Lisp,
}

/// What one parameter of a new frame says.
pub open spec fn new_frame_with(n: NewFrame, item: Lisp) -> NewFrame {
    match item {
        Lisp::Cons(a, d) => match *a {
            Lisp::Symbol(key) => if key == "width"@ && *d is Int {
                NewFrame { width: low_bits(d->Int_0), ..n }
            } else if key == "height"@ && *d is Int {
                NewFrame { height: low_bits(d->Int_0), ..n }
            } else if key == "name"@ && *d is Str {
                NewFrame { name: bare_string(*d), ..n }
            } else {
                n
            },
            _ => n,
        },
        _ => n,
    }
}

/// A string without its text properties.
pub open spec fn bare_string(v: Lisp) -> Lisp {
    match v {
        Lisp::Str(text, _) => Lisp::Str(text, Box::new(Lisp::Nil)),
        _ => v,
    }
}

/// A string without its text properties.
fn strip_properties(v: &Value) -> (r: Value)
    ensures
        r@ == bare_string(v@),
{
    match v {
        Value::Str(s, _) => Value::heap_string(s.copy()),
        _ => v.copy(),
    }
}

/// What some parameters of a new frame say, the later ones last.
pub open spec fn new_frame_of(n: NewFrame, items: Seq<Lisp>) -> NewFrame
    decreases items.len(),
{
    if items.len() == 0 {
        n
    } else {
        new_frame_with(new_frame_of(n, items.drop_last()), items.last())
    }
}

/// A frame of 800 by 600 pixels named F.
pub open spec fn default_new_frame() -> NewFrame {
    NewFrame { width: 800, height: 600, name: lstr("F"@) }
}

/// What the parameters of a new frame say.
pub open spec fn requested_frame(a: Lisp) -> NewFrame {
    match list_items(a) {
        Some(items) => new_frame_of(default_new_frame(), items),
        None => default_new_frame(),
    }
}

/// What some parameters of a new frame say.
fn parse_new_frame(a: &Value) -> (r: (u32, u32, Value))
    ensures
        ({
            let n = requested_frame(a@);
            r.0 == n.width && r.1 == n.height && r.2@ == n.name
        }),
{
    let mut width: u32 = 800;
    let mut height: u32 = 600;
    let mut name: Value = Value::string("F");
    let items: Vec<Value> = match list_to_vec(a) {
        Some(items) => items,
        None => {
            return (width, height, name);
        },
    };
    let ghost all = views(items@);
    let mut i: usize = 0;
    proof {
        assert(all.take(0) =~= Seq::<Lisp>::empty());
    }
    while i < items.len()
        invariant
            i <= items.len(),
            all == views(items@),
            ({
                let n = new_frame_of(default_new_frame(), all.take(i as int));
                width == n.width && height == n.height && name@ == n.name
            }),
        decreases items.len() - i,
    {
        proof {
            assert(all.take(i + 1).drop_last() =~= all.take(i as int));
            assert(all.take(i + 1).last() == items@[i as int]@);
            reveal_with_fuel(Value::lisp, 2);
        }
        match &items[i] {
            Value::Cons(a, d) => match &**a {
                Value::Symbol(key) => {
                    if str_eq(key.as_str(), "width") {
                        match d.as_int() {
                            Some(n) => {
                                width = cut_to_u32(n);
                            },
                            None => {},
                        }
                    } else if str_eq(key.as_str(), "height") {
                        match d.as_int() {
                            Some(n) => {
                                height = cut_to_u32(n);
                            },
                            None => {},
                        }
                    } else if str_eq(key.as_str(), "name") {
                        if d.is_string() {
                            name = strip_properties(d);
                        }
                    }
                },
                _ => {},
            },
            _ => {},
        }
        i = i + 1;
        proof {
            reveal_strlit("width");
            reveal_strlit("height");
            reveal_strlit("name");
            assert("width"@.len() == 5 && "height"@.len() == 6 && "name"@.len() == 4);
        }
    }
    proof {
        assert(all.take(i as int) =~= all);
    }
    (width, height, name)
}

/// `(make-frame &optional PARAMETERS)`
pub open spec fn make_frame_step(st: UiState, args: Seq<Lisp>) -> Step {
    let n = requested_frame(arg(args, 0));
    with_arity(
        st,
        "make-frame"@,
        args,
        0,
        1,
        gives(
            st.with_frames(
                st.frames.created(
                    n.name,
                    n.width,
                    n.height,
                    match st.buffers.current_buffer() {
                        Some(b) => b.id,
                        None => 0,
                    },
                ),
            ),
            Lisp::Frame(st.frames.next_frame_id),
        ),
    )
}

/// `(make-frame &optional PARAMETERS)` -> frame.
pub fn builtin_make_frame(ui: &mut Ui, args: &Vec<Value>) -> (r: EvalResult)
    ensures
        final(ui)@ == make_frame_step(old(ui)@, views(args@)).state,
        outcome(r) == make_frame_step(old(ui)@, views(args@)).end,
{
    expect_max_args("make-frame", args, 1)?;
    let (width, height, name) = parse_new_frame(&arg_or_nil(args, 0));
    let buffer: u64 = match ui.buffers.current_buffer() {
        Some(b) => b.id,
        None => 0,
    };
    let id: u64 = ui.frames.create_frame(name, width, height, buffer);
    Ok(Value::Frame(id))
}

/// `(delete-frame &optional FRAME FORCE)`
pub open spec fn delete_frame_step(st: UiState, args: Seq<Lisp>) -> Step {
    let s = after(st, arg(args, 0));
    with_arity(
        st,
        "delete-frame"@,
        args,
        0,
        2,
        match frame_arg(st, arg(args, 0), "framep"@) {
            Found::Is(id) => if s.frames.get(id) is Some {
                gives(s.with_frames(s.frames.deleted(id)), Lisp::Nil)
            } else {
                ends(s, error_outcome("Cannot delete frame"@))
            },
            Found::Signal(o) => ends(s, o),
        },
    )
}

/// `(delete-frame &optional FRAME FORCE)` -> nil.
pub fn builtin_delete_frame(ui: &mut Ui, args: &Vec<Value>) -> (r: EvalResult)
    ensures
        final(ui)@ == delete_frame_step(old(ui)@, views(args@)).state,
        outcome(r) == delete_frame_step(old(ui)@, views(args@)).end,
{
    expect_max_args("delete-frame", args, 2)?;
    let id: u64 = resolve_frame_id(ui, &arg_or_nil(args, 0), "framep")?;
    if !ui.frames.delete_frame(id) {
        return Err(error_signal("Cannot delete frame"));
    }
    Ok(Value::Nil)
}

/// The title of a frame, empty where it has none.
pub open spec fn title_value(f: FrameState) -> Lisp {
    if f.title == Lisp::Nil {
        lstr(""@)
    } else {
        f.title
    }
}

/// The parameter `width` of a frame, or its width in columns.
pub open spec fn width_value(f: FrameState) -> Lisp {
    match f.parameter("width"@) {
        Some(v) => v,
        None => Lisp::Int(f.columns() as i64),
    }
}

/// The parameter `height` of a frame, or its height in lines.
pub open spec fn height_value(f: FrameState) -> Lisp {
    match f.parameter("height"@) {
        Some(v) => v,
        None => Lisp::Int(f.lines() as i64),
    }
}

/// A parameter of a frame by its name.
pub open spec fn parameter_value(f: FrameState, name: Seq<char>) -> Lisp {
    if name == "name"@ {
        f.name
    } else if name == "title"@ {
        title_value(f)
    } else if name == "width"@ {
        width_value(f)
    } else if name == "height"@ {
        height_value(f)
    } else if name == "visibility"@ {
        lbool(f.visible)
    } else {
        match f.parameter(name) {
            Some(v) => v,
            None => Lisp::Nil,
        }
    }
}

impl Frame {
    /// The title, empty where there is none.
    fn title_text(&self) -> (r: Value)
        ensures
            r@ == title_value(self@),
    {
        if self.title.is_nil() {
            Value::string("")
        } else {
            self.title.copy()
        }
    }

    /// The parameter `width`, or the width in columns.
    fn width_or_columns(&self) -> (r: Value)
        ensures
            r@ == width_value(self@),
    {
        match self.parameter("width") {
            Some(v) => v,
            None => Value::Int(self.columns()),
        }
    }

    /// The parameter `height`, or the height in lines.
    fn height_or_lines(&self) -> (r: Value)
        ensures
            r@ == height_value(self@),
    {
        match self.parameter("height") {
            Some(v) => v,
            None => Value::Int(self.lines()),
        }
    }
}

/// `(frame-parameter FRAME PARAMETER)`
pub open spec fn frame_parameter_step(st: UiState, args: Seq<Lisp>) -> Step {
    let s = after(st, arg(args, 0));
    with_arity(
        st,
        "frame-parameter"@,
        args,
        2,
        2,
        match frame_arg(st, arg(args, 0), "framep"@) {
            Found::Is(id) => match arg(args, 1) {
                Lisp::Symbol(name) => match s.frames.get(id) {
                    Some(f) => gives(s, parameter_value(f, name)),
                    None => ends(s, error_outcome("Frame not found"@)),
                },
                _ => gives(s, Lisp::Nil),
            },
            Found::Signal(o) => ends(s, o),
        },
    )
}

/// `(frame-parameter FRAME PARAMETER)` -> value or nil.
pub fn builtin_frame_parameter(ui: &mut Ui, args: &Vec<Value>) -> (r: EvalResult)
    ensures
        final(ui)@ == frame_parameter_step(old(ui)@, views(args@)).state,
        outcome(r) == frame_parameter_step(old(ui)@, views(args@)).end,
{
    expect_args("frame-parameter", args, 2)?;
    let id: u64 = resolve_frame_id(ui, &args[0], "framep")?;
    match &args[1] {
        Value::Symbol(name) => {
            let f = get_frame(&ui.frames, id)?;
            let name: &str = name.as_str();
            if str_eq(name, "name") {
                Ok(f.name.copy())
            } else if str_eq(name, "title") {
                Ok(f.title_text())
            } else if str_eq(name, "width") {
                Ok(f.width_or_columns())
            } else if str_eq(name, "height") {
                Ok(f.height_or_lines())
            } else if str_eq(name, "visibility") {
                Ok(Value::bool_val(f.visible))
            } else {
                match f.parameter(name) {
                    Some(v) => Ok(v),
                    None => Ok(Value::Nil),
                }
            }
        },
        _ => Ok(Value::Nil),
    }
}

/// Parameters as pairs of a symbol and a value.
pub open spec fn parameter_pairs(s: Seq<(Seq<char>, Lisp)>) -> Seq<Lisp> {
    Seq::new(s.len(), |i: int| cons(sym(s[i].0), s[i].1))
}

/// All parameters of a frame as pairs, those that every frame has first.
pub open spec fn all_parameters(f: FrameState) -> Seq<Lisp> {
    seq![
        cons(sym("name"@), f.name),
        cons(sym("title"@), title_value(f)),
        cons(sym("width"@), width_value(f)),
        cons(sym("height"@), height_value(f)),
        cons(sym("visibility"@), lbool(f.visible)),
    ] + parameter_pairs(f.parameters)
}

/// All parameters of a frame as pairs.
fn list_parameters(f: &Frame) -> (r: Vec<Value>)
    ensures
        views(r@) == all_parameters(f@),
{
    let mut out: Vec<Value> = Vec::new();
    out.push(Value::cons(Value::symbol("name"), f.name.copy()));
    out.push(Value::cons(Value::symbol("title"), f.title_text()));
    out.push(Value::cons(Value::symbol("width"), f.width_or_columns()));
    out.push(Value::cons(Value::symbol("height"), f.height_or_lines()));
    out.push(Value::cons(Value::symbol("visibility"), Value::bool_val(f.visible)));
    let ghost head = views(out@);
    let ghost pairs = parameter_pairs(f@.parameters);
    let mut i: usize = 0;
    proof {
        assert(head =~= all_parameters(f@).take(5));
        assert(views(out@) =~= head + pairs.take(0));
    }
    while i < f.parameters.entries.len()
        invariant
            i <= f.parameters.entries.len(),
            pairs == parameter_pairs(f@.parameters),
            views(out@) == head + pairs.take(i as int),
        decreases f.parameters.entries.len() - i,
    {
        let ghost before = out@;
        let pair: Value = Value::cons(
            Value::symbol(f.parameters.entries[i].0.as_str()),
            f.parameters.entries[i].1.copy(),
        );
        proof {
            assert(pair@ == pairs[i as int]);
        }
        out.push(pair);
        i = i + 1;
        proof {
            assert(views(out@) =~= views(before).push(pairs[i - 1]));
            assert(views(out@) =~= head + pairs.take(i as int));
        }
    }
    proof {
        assert(pairs.take(i as int) =~= pairs);
        assert(views(out@) =~= all_parameters(f@));
    }
    out
}

/// `(frame-parameters &optional FRAME)`
pub open spec fn frame_parameters_step(st: UiState, args: Seq<Lisp>) -> Step {
    with_arity(
        st,
        "frame-parameters"@,
        args,
        0,
        1,
        on_frame(
            st,
            arg(args, 0),
            "framep"@,
            |s: UiState, f: FrameState| gives(s, list_of(all_parameters(f))),
        ),
    )
}

/// `(frame-parameters &optional FRAME)` -> alist.
pub fn builtin_frame_parameters(ui: &mut Ui, args: &Vec<Value>) -> (r: EvalResult)
    ensures
        final(ui)@ == frame_parameters_step(old(ui)@, views(args@)).state,
        outcome(r) == frame_parameters_step(old(ui)@, views(args@)).end,
{
    expect_max_args("frame-parameters", args, 1)?;
    let id: u64 = resolve_frame_id(ui, &arg_or_nil(args, 0), "framep")?;
    let f = get_frame(&ui.frames, id)?;
    Ok(Value::list(list_parameters(f)))
}

/// A frame with one parameter changed. The bars follow their numbers of lines.
pub open spec fn frame_modified(f: FrameState, key: Seq<char>, v: Lisp) -> FrameState {
    if key == "name"@ {
        if v is Str {
            FrameState { name: bare_string(v), ..f }
        } else {
            f
        }
    } else if key == "title"@ {
        if v is Str {
            FrameState { title: bare_string(v), ..f }
        } else {
            f
        }
    } else if key == "width"@ || key == "height"@ {
        if v is Int {
            f.with_parameter(key, v)
        } else {
            f
        }
    } else if key == "visibility"@ {
        FrameState { visible: v != Lisp::Nil, ..f }
    } else if key == "tab-bar-lines"@ || key == "tool-bar-lines"@ {
        f.with_parameter(key, v).with_bars()
    } else {
        f.with_parameter(key, v)
    }
}

/// A frame with the parameter changed that a pair names.
pub open spec fn frame_with_pair(f: FrameState, item: Lisp) -> FrameState {
    match item {
        Lisp::Cons(a, d) => match *a {
            Lisp::Symbol(key) => frame_modified(f, key, *d),
            _ => f,
        },
        _ => f,
    }
}

/// A frame with some parameters changed, the later ones last.
pub open spec fn frame_with_pairs(f: FrameState, items: Seq<Lisp>) -> FrameState
    decreases items.len(),
{
    if items.len() == 0 {
        f
    } else {
        frame_with_pair(frame_with_pairs(f, items.drop_last()), items.last())
    }
}

impl Frame {
    /// Changes one parameter.
    fn modify_parameter(&mut self, key: &str, v: &Value)
        ensures
            final(self)@ == frame_modified(old(self)@, key@, v@),
    {
        if str_eq(key, "name") {
            if v.is_string() {
                self.set_name(strip_properties(v));
            }
        } else if str_eq(key, "title") {
            if v.is_string() {
                self.set_title(strip_properties(v));
            }
        } else if str_eq(key, "width") || str_eq(key, "height") {
            match v.as_int() {
                Some(n) => {
                    self.set_parameter(key, Value::Int(n));
                },
                None => {},
            }
        } else if str_eq(key, "visibility") {
            self.set_visible(v.is_truthy());
        } else {
            self.set_parameter(key, v.copy());
            if str_eq(key, "tab-bar-lines") || str_eq(key, "tool-bar-lines") {
                self.sync_bar_heights_from_parameters();
            }
        }
    }

    /// Changes some parameters, the later ones last.
    fn modify_parameters(&mut self, items: &Vec<Value>)
        ensures
            final(self)@ == frame_with_pairs(old(self)@, views(items@)),
    {
        let ghost all = views(items@);
        let ghost start = self@;
        let mut i: usize = 0;
        proof {
            assert(all.take(0) =~= Seq::<Lisp>::empty());
        }
        while i < items.len()
            invariant
                i <= items.len(),
                all == views(items@),
                self@ == frame_with_pairs(start, all.take(i as int)),
            decreases items.len() - i,
        {
            proof {
                assert(all.take(i + 1).drop_last() =~= all.take(i as int));
                assert(all.take(i + 1).last() == items@[i as int]@);
                reveal_with_fuel(Value::lisp, 2);
            }
            match &items[i] {
                Value::Cons(a, d) => match &**a {
                    Value::Symbol(key) => {
                        self.modify_parameter(key.as_str(), d);
                    },
                    _ => {},
                },
                _ => {},
            }
            i = i + 1;
        }
        proof {
            assert(all.take(i as int) =~= all);
        }
    }
}

/// The frames with some parameters of one of them changed.
pub open spec fn parameters_modified(frames: Frames, id: u64, items: Seq<Lisp>) -> Frames {
    match frames.get(id) {
        Some(f) => frames.with_frame(id, frame_with_pairs(f, items)),
        None => frames,
    }
}

impl FrameManager {
    /// Changes some parameters of a frame.
    pub fn modify_parameters(&mut self, id: u64, items: &Vec<Value>)
        ensures
            final(self)@ == parameters_modified(old(self)@, id, views(items@)),
    {
        let i: usize = self.index_of(id);
        let ghost before = self@;
        if i < self.list.len() {
            self.list[i].modify_parameters(items);
            proof {
                assert(self@.list =~= parameters_modified(before, id, views(items@)).list);
                assert(self@.records =~= before.records);
            }
        }
    }
}

/// The elements of a list; none for any other value.
pub open spec fn items_or_none(v: Lisp) -> Seq<Lisp> {
    match list_items(v) {
        Some(items) => items,
        None => Seq::empty(),
    }
}

/// The elements of a list; none for any other value.
pub fn list_or_empty(v: &Value) -> (r: Vec<Value>)
    ensures
        views(r@) == items_or_none(v@),
{
    match list_to_vec(v) {
        Some(items) => items,
        None => {
            let none: Vec<Value> = Vec::new();
            proof {
                assert(views(none@) =~= Seq::<Lisp>::empty());
            }
            none
        },
    }
}

/// `(modify-frame-parameters FRAME ALIST)`
pub open spec fn modify_frame_parameters_step(st: UiState, args: Seq<Lisp>) -> Step {
    let s = after(st, arg(args, 0));
    with_arity(
        st,
        "modify-frame-parameters"@,
        args,
        2,
        2,
        match frame_arg(st, arg(args, 0), "frame-live-p"@) {
            Found::Is(id) => if s.frames.get(id) is Some {
                gives(
                    s.with_frames(
                        parameters_modified(s.frames, id, items_or_none(arg(args, 1))),
                    ),
                    Lisp::Nil,
                )
            } else {
                ends(s, error_outcome("Frame not found"@))
            },
            Found::Signal(o) => ends(s, o),
        },
    )
}

/// `(modify-frame-parameters FRAME ALIST)` -> nil.
pub fn builtin_modify_frame_parameters(ui: &mut Ui, args: &Vec<Value>) -> (r: EvalResult)
    ensures
        final(ui)@ == modify_frame_parameters_step(old(ui)@, views(args@)).state,
        outcome(r) == modify_frame_parameters_step(old(ui)@, views(args@)).end,
{
    expect_args("modify-frame-parameters", args, 2)?;
    let id: u64 = resolve_frame_id(ui, &args[0], "frame-live-p")?;
    let items: Vec<Value> = list_or_empty(&args[1]);
    let _f = get_frame(&ui.frames, id)?;
    ui.frames.modify_parameters(id, &items);
    Ok(Value::Nil)
}

/// A parameter that is no part of the frame itself is read back as it was set last.
pub proof fn law_modified_parameter_is_read_back(f: FrameState, key: Seq<char>, v: Lisp)
    requires
        key != "name"@,
        key != "title"@,
        key != "width"@,
        key != "height"@,
        key != "visibility"@,
    ensures
        parameter_value(frame_modified(f, key, v), key) == v,
{
    crate::table::law_entry_set(f.parameters, key, v);
}

/// The name, the title and the numbers of a frame are read back as they were set last.
pub proof fn law_modified_frame_is_read_back(f: FrameState, text: Lisp, n: i64)
    requires
        text is Str,
    ensures
        parameter_value(frame_modified(f, "name"@, text), "name"@) == bare_string(text),
        parameter_value(frame_modified(f, "title"@, text), "title"@) == bare_string(text),
        parameter_value(frame_modified(f, "width"@, Lisp::Int(n)), "width"@) == Lisp::Int(n),
        parameter_value(frame_modified(f, "height"@, Lisp::Int(n)), "height"@) == Lisp::Int(n),
        parameter_value(frame_modified(f, "visibility"@, text), "visibility"@) == Lisp::True,
        parameter_value(frame_modified(f, "visibility"@, Lisp::Nil), "visibility"@) == Lisp::Nil,
{
    reveal_strlit("name");
    reveal_strlit("title");
    reveal_strlit("width");
    reveal_strlit("height");
    reveal_strlit("visibility");
    assert("name"@.len() == 4 && "title"@.len() == 5 && "width"@.len() == 5 && "height"@.len() == 6
        && "visibility"@.len() == 10);
    assert("title"@[0] == 't' && "width"@[0] == 'w');
    crate::table::law_entry_set(f.parameters, "width"@, Lisp::Int(n));
    crate::table::law_entry_set(f.parameters, "height"@, Lisp::Int(n));
}

/// `(frame-visible-p FRAME)`
pub open spec fn frame_visible_p_end(frames: Frames, args: Seq<Lisp>) -> Outcome {
    if args.len() != 1 {
        wrong_number("frame-visible-p"@, args.len())
    } else {
        match designated_frame(args[0]) {
            Some(id) => match frames.get(id) {
                Some(f) => Outcome::Value(lbool(f.visible)),
                None => wrong_type("frame-live-p"@, args[0]),
            },
            None => wrong_type("frame-live-p"@, args[0]),
        }
    }
}

/// `(frame-visible-p FRAME)` -> t or nil.
pub fn builtin_frame_visible_p(frames: &FrameManager, args: &Vec<Value>) -> (r: EvalResult)
    ensures
        outcome(r) == frame_visible_p_end(frames@, views(args@)),
{
    expect_args("frame-visible-p", args, 1)?;
    match frame_id_from_designator(&args[0]) {
        Some(id) => match frames.get(id) {
            Some(f) => Ok(Value::bool_val(f.visible)),
            None => Err(wrong_type_argument("frame-live-p", &args[0])),
        },
        None => Err(wrong_type_argument("frame-live-p", &args[0])),
    }
}

/// `(framep OBJ)`
pub open spec fn framep_end(frames: Frames, args: Seq<Lisp>) -> Outcome {
    if args.len() != 1 {
        wrong_number("framep"@, args.len())
    } else {
        match designated_frame(args[0]) {
            Some(id) => match frames.get(id) {
                Some(f) => Outcome::Value(
                    match f.parameter("window-system"@) {
                        Some(v) => v,
                        None => Lisp::True,
                    },
                ),
                None => Outcome::Value(Lisp::Nil),
            },
            None => Outcome::Value(Lisp::Nil),
        }
    }
}

/// `(framep OBJ)` -> t or the window system if OBJ is a frame that exists.
pub fn builtin_framep(frames: &FrameManager, args: &Vec<Value>) -> (r: EvalResult)
    ensures
        outcome(r) == framep_end(frames@, views(args@)),
{
    expect_args("framep", args, 1)?;
    match frame_id_from_designator(&args[0]) {
        Some(id) => match frames.get(id) {
            Some(f) => match f.parameter("window-system") {
                Some(v) => Ok(v),
                None => Ok(Value::True),
            },
            None => Ok(Value::Nil),
        },
        None => Ok(Value::Nil),
    }
}

/// `(frame-live-p OBJ)`
pub open spec fn frame_live_p_end(frames: Frames, args: Seq<Lisp>) -> Outcome {
    if args.len() != 1 {
        wrong_number("frame-live-p"@, args.len())
    } else {
        match designated_frame(args[0]) {
            Some(id) => Outcome::Value(lbool(frames.get(id) is Some)),
            None => Outcome::Value(Lisp::Nil),
        }
    }
}

/// `(frame-live-p OBJ)` -> t if OBJ is a frame that exists.
pub fn builtin_frame_live_p(frames: &FrameManager, args: &Vec<Value>) -> (r: EvalResult)
    ensures
        outcome(r) == frame_live_p_end(frames@, views(args@)),
{
    expect_args("frame-live-p", args, 1)?;
    match frame_id_from_designator(&args[0]) {
        Some(id) => Ok(Value::bool_val(frames.get(id).is_some())),
        None => Ok(Value::Nil),
    }
}

} // verus!
