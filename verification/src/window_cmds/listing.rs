//! Builtins that list windows and look for one.
use crate::buffer::named_buffer;
use crate::float::{float_scaled, finite, negative, not_a_number, scaled, significand};
use crate::frame::{frame_ids, Frame, FrameManager, FrameState, Frames};
use crate::text::string_of;
use crate::value::outcome;
use crate::value::{
    arg, arg_or_nil, error_outcome, error_signal, expect_args, expect_args_range, expect_max_args,
    list_of, str_chars, views, wrong_type, wrong_type_argument, EvalResult, Flow, Lisp, Value,
};
use crate::window::{contains, inside, leaf_at, leaf_ids, Window};
use crate::window_cmds::query::{on_frame, on_window, with_arity};
use crate::window_cmds::resolve::{
    after, designated, designated_frame, found, frame_id_from_designator, get_frame,
    resolve_frame_id, resolve_window_id, resolve_window_id_with_pred, window_arg,
    window_id_from_designator, Found,
};
use crate::window_cmds::state::{
    boot_id, booted, ends, ensure_selected_frame_id, gives, Step, Ui, UiState,
};
use vstd::prelude::*;

verus! {

/// Windows as values.
pub open spec fn window_values(ids: Seq<u64>) -> Seq<Lisp> {
    Seq::new(ids.len(), |i: int| Lisp::Window(ids[i]))
}

/// The list of some windows.
fn window_list_value(ids: &Vec<u64>) -> (r: Value)
    ensures
        r@ == list_of(window_values(ids@)),
{
    let mut out: Vec<Value> = Vec::new();
    let mut i: usize = 0;
    while i < ids.len()
        invariant
            i <= ids.len(),
            views(out@) == window_values(ids@).take(i as int),
        decreases ids.len() - i,
    {
        let w: Value = Value::Window(ids[i]);
        proof {
            assert(w@ == Lisp::Window(ids@[i as int]));
        }
        let ghost before = out@;
        out.push(w);
        i = i + 1;
        proof {
            assert(views(out@) =~= views(before).push(Lisp::Window(ids@[i - 1])));
            assert(views(out@) =~= window_values(ids@).take(i as int));
        }
    }
    proof {
        assert(views(out@) =~= window_values(ids@));
    }
    Value::list(out)
}

/// The windows of a frame, with the minibuffer window where it is asked for.
pub open spec fn frame_windows(f: FrameState, minibuffer: bool) -> Seq<u64> {
    if minibuffer {
        match f.minibuffer_window {
            Some(w) => leaf_ids(f.root).push(w),
            None => leaf_ids(f.root),
        }
    } else {
        leaf_ids(f.root)
    }
}

/// The windows of a frame, with the minibuffer window where it is asked for.
fn list_frame_windows(f: &Frame, minibuffer: bool) -> (r: Vec<u64>)
    ensures
        r@ == frame_windows(f@, minibuffer),
{
    let mut out: Vec<u64> = f.window_list();
    if minibuffer {
        match f.minibuffer_window {
            Some(w) => {
                out.push(w);
            },
            None => {},
        }
    }
    out
}

/// The frame of the window that the argument ALL-FRAMES is.
pub open spec fn all_frames_arg(frames: Frames, a: Lisp) -> Found<Option<u64>> {
    if a == Lisp::Nil {
        Found::Is(None)
    } else {
        match designated(a) {
            Some(id) => match frames.frame_of_live(id) {
                Some(f) => Found::Is(Some(f)),
                None => if frames.known_window(id) {
                    Found::Signal(wrong_type("window-live-p"@, a))
                } else {
                    Found::Signal(wrong_type("windowp"@, a))
                },
            },
            None => Found::Signal(wrong_type("windowp"@, a)),
        }
    }
}

/// The frame of the window that the argument ALL-FRAMES is.
fn resolve_all_frames(frames: &FrameManager, a: &Value) -> (r: Result<Option<u64>, Flow>)
    ensures
        found(r) == all_frames_arg(frames@, a@),
{
    if a.is_nil() {
        return Ok(None);
    }
    match window_id_from_designator(a) {
        Some(id) => match frames.find_window_frame_id(id) {
            Some(f) => Ok(Some(f)),
            None => if frames.is_window_object_id(id) {
                Err(wrong_type_argument("window-live-p", a))
            } else {
                Err(wrong_type_argument("windowp", a))
            },
        },
        None => Err(wrong_type_argument("windowp", a)),
    }
}

/// The frame whose windows are listed.
pub open spec fn listed_frame(frames: Frames, selected: u64, a: Lisp) -> Found<u64> {
    if a == Lisp::Nil {
        Found::Is(selected)
    } else {
        match designated_frame(a) {
            Some(id) => if frames.get(id) is Some {
                Found::Is(id)
            } else {
                Found::Signal(error_outcome("Window is on a different frame"@))
            },
            None => Found::Signal(error_outcome("Window is on a different frame"@)),
        }
    }
}

/// The frame whose windows are listed.
fn resolve_listed_frame(frames: &FrameManager, selected: u64, a: &Value) -> (r: Result<u64, Flow>)
    ensures
        found(r) == listed_frame(frames@, selected, a@),
{
    if a.is_nil() {
        return Ok(selected);
    }
    match frame_id_from_designator(a) {
        Some(id) => if frames.get(id).is_some() {
            Ok(id)
        } else {
            Err(error_signal("Window is on a different frame"))
        },
        None => Err(error_signal("Window is on a different frame")),
    }
}

/// `(window-list &optional FRAME MINIBUF ALL-FRAMES)`
pub open spec fn window_list_step(st: UiState, args: Seq<Lisp>) -> Step {
    let s = booted(st);
    with_arity(
        st,
        "window-list"@,
        args,
        0,
        3,
        match all_frames_arg(s.frames, arg(args, 2)) {
            Found::Is(all) => match listed_frame(s.frames, boot_id(st), arg(args, 0)) {
                Found::Is(own) => {
                    let id = match all {
                        Some(f) => f,
                        None => own,
                    };
                    match s.frames.get(id) {
                        Some(f) => gives(
                            s,
                            list_of(
                                window_values(
                                    frame_windows(f, arg(args, 1) == Lisp::True),
                                ),
                            ),
                        ),
                        None => ends(s, error_outcome("Frame not found"@)),
                    }
                },
                Found::Signal(o) => ends(s, o),
            },
            Found::Signal(o) => ends(s, o),
        },
    )
}

/// `(window-list &optional FRAME MINIBUF ALL-FRAMES)` -> list of window objects.
pub fn builtin_window_list(ui: &mut Ui, args: &Vec<Value>) -> (r: EvalResult)
    ensures
        final(ui)@ == window_list_step(old(ui)@, views(args@)).state,
        outcome(r) == window_list_step(old(ui)@, views(args@)).end,
{
    expect_max_args("window-list", args, 3)?;
    let selected: u64 = ensure_selected_frame_id(ui);
    let all: Option<u64> = resolve_all_frames(&ui.frames, &arg_or_nil(args, 2))?;
    let own: u64 = resolve_listed_frame(&ui.frames, selected, &arg_or_nil(args, 0))?;
    let id: u64 = match all {
        Some(f) => f,
        None => own,
    };
    let f = get_frame(&ui.frames, id)?;
    let ids: Vec<u64> = list_frame_windows(f, arg_or_nil(args, 1).is_t());
    Ok(window_list_value(&ids))
}

/// The index of the first place where a number stands; the length where it does not.
pub open spec fn place_of(s: Seq<u64>, x: u64) -> int
    decreases s.len(),
{
    if s.len() == 0 {
        0
    } else if s[0] == x {
        0
    } else {
        1 + place_of(s.drop_first(), x)
    }
}

/// The index of the first place where a number stands.
pub fn find_place(s: &Vec<u64>, x: u64) -> (r: usize)
    ensures
        r == place_of(s@, x),
        r <= s@.len(),
        r < s@.len() ==> s@[r as int] == x,
{
    let mut i: usize = 0;
    proof {
        assert(s@.skip(0) =~= s@);
    }
    while i < s.len()
        invariant
            i <= s.len(),
            i + place_of(s@.skip(i as int), x) == place_of(s@, x),
        decreases s.len() - i,
    {
        proof {
            assert(s@.skip(i as int)[0] == s@[i as int]);
            assert(s@.skip(i as int).drop_first() =~= s@.skip(i + 1));
        }
        if s[i] == x {
            return i;
        }
        i = i + 1;
    }
    i
}

/// The sequence turned so that a number comes first, where it is in it.
pub open spec fn turned_to(s: Seq<u64>, x: u64) -> Seq<u64> {
    let i = place_of(s, x);
    if 0 <= i < s.len() {
        s.skip(i) + s.take(i)
    } else {
        s
    }
}

/// The sequence turned so that a number comes first.
fn turn_to(s: &Vec<u64>, x: u64) -> (r: Vec<u64>)
    ensures
        r@ == turned_to(s@, x),
{
    let n: usize = find_place(s, x);
    let start: usize = if n < s.len() {
        n
    } else {
        0
    };
    let mut out: Vec<u64> = Vec::new();
    let mut i: usize = start;
    while i < s.len()
        invariant
            start <= i <= s.len(),
            out@ == s@.subrange(start as int, i as int),
        decreases s.len() - i,
    {
        out.push(s[i]);
        i = i + 1;
        proof {
            assert(out@ =~= s@.subrange(start as int, i as int));
        }
    }
    let mut j: usize = 0;
    while j < start
        invariant
            j <= start <= s.len(),
            out@ == s@.subrange(start as int, s@.len() as int) + s@.take(j as int),
        decreases start - j,
    {
        out.push(s[j]);
        j = j + 1;
        proof {
            assert(out@ =~= s@.subrange(start as int, s@.len() as int) + s@.take(j as int));
        }
    }
    proof {
        assert(out@ =~= turned_to(s@, x));
    }
    out
}

/// The visible frames among some frames.
pub open spec fn visible_ids(list: Seq<FrameState>) -> Seq<u64>
    decreases list.len(),
{
    if list.len() == 0 {
        Seq::empty()
    } else if list.last().visible {
        visible_ids(list.drop_last()).push(list.last().id)
    } else {
        visible_ids(list.drop_last())
    }
}

impl FrameManager {
    /// The identifiers of the visible frames.
    pub fn visible_frame_list(&self) -> (r: Vec<u64>)
        ensures
            r@ == visible_ids(self@.list),
    {
        let mut out: Vec<u64> = Vec::new();
        let mut i: usize = 0;
        proof {
            assert(self@.list.take(0) =~= Seq::<FrameState>::empty());
        }
        while i < self.list.len()
            invariant
                i <= self.list.len(),
                out@ == visible_ids(self@.list.take(i as int)),
            decreases self.list.len() - i,
        {
            proof {
                assert(self@.list.take(i + 1).drop_last() =~= self@.list.take(i as int));
                assert(self@.list.take(i + 1).last() == self.list@[i as int]@);
            }
            if self.list[i].visible {
                out.push(self.list[i].id);
            }
            i = i + 1;
        }
        proof {
            assert(self@.list.take(i as int) =~= self@.list);
        }
        out
    }
}

/// The frames whose windows are listed: that of the window, all of them for `t`,
/// the visible ones for `visible` and zero, or a frame that is given.
pub open spec fn walked_frames(frames: Frames, own: u64, a: Lisp) -> Found<Seq<u64>> {
    match a {
        Lisp::True => Found::Is(frame_ids(frames.list)),
        Lisp::Symbol(s) => if s == "visible"@ {
            Found::Is(visible_ids(frames.list))
        } else {
            Found::Is(seq![own])
        },
        Lisp::Int(n) => if n == 0 {
            Found::Is(visible_ids(frames.list))
        } else {
            Found::Is(seq![own])
        },
        Lisp::Frame(id) => if frames.get(id) is Some {
            Found::Is(seq![id])
        } else {
            Found::Signal(wrong_type("frame-live-p"@, a))
        },
        _ => Found::Is(seq![own]),
    }
}

/// The frames whose windows are listed, with the first one first.
pub open spec fn walk_order(ids: Seq<u64>, own: u64) -> Seq<u64> {
    if ids.len() == 0 {
        seq![own]
    } else {
        turned_to(ids, own)
    }
}

/// One frame.
fn one(id: u64) -> (r: Vec<u64>)
    ensures
        r@ == seq![id],
{
    let mut out: Vec<u64> = Vec::new();
    out.push(id);
    proof {
        assert(out@ =~= seq![id]);
    }
    out
}

/// The frames whose windows are listed.
fn resolve_walked_frames(frames: &FrameManager, own: u64, a: &Value) -> (r: Result<Vec<u64>, Flow>)
    ensures
        match r {
            Ok(v) => walked_frames(frames@, own, a@) == Found::Is(v@),
            Err(e) => walked_frames(frames@, own, a@) == Found::<Seq<u64>>::Signal(
                crate::value::signalled(e),
            ),
        },
{
    match a {
        Value::True => Ok(frames.frame_list()),
        Value::Symbol(s) => if crate::text::str_eq(s.as_str(), "visible") {
            Ok(frames.visible_frame_list())
        } else {
            Ok(one(own))
        },
        Value::Int(n) => if *n == 0 {
            Ok(frames.visible_frame_list())
        } else {
            Ok(one(own))
        },
        Value::Frame(id) => if frames.get(*id).is_some() {
            Ok(one(*id))
        } else {
            Err(wrong_type_argument("frame-live-p", a))
        },
        _ => Ok(one(own)),
    }
}

/// The windows of one frame of a walk: its own frame from the first window on.
pub open spec fn walked_windows(
    frames: Frames,
    id: u64,
    own: u64,
    start: u64,
    minibuffer: bool,
) -> Seq<u64> {
    match frames.get(id) {
        Some(f) => {
            let list = if id == own {
                turned_to(leaf_ids(f.root), start)
            } else {
                leaf_ids(f.root)
            };
            if minibuffer {
                match f.minibuffer_window {
                    Some(w) => list.push(w),
                    None => list,
                }
            } else {
                list
            }
        },
        None => Seq::empty(),
    }
}

/// The windows of all frames of a walk.
pub open spec fn walk(
    frames: Frames,
    ids: Seq<u64>,
    own: u64,
    start: u64,
    minibuffer: bool,
) -> Seq<u64>
    decreases ids.len(),
{
    if ids.len() == 0 {
        Seq::empty()
    } else {
        walk(frames, ids.drop_last(), own, start, minibuffer) + walked_windows(
            frames,
            ids.last(),
            own,
            start,
            minibuffer,
        )
    }
}

/// The windows of one frame of a walk.
fn walk_frame(frames: &FrameManager, id: u64, own: u64, start: u64, minibuffer: bool) -> (r: Vec<
    u64,
>)
    ensures
        r@ == walked_windows(frames@, id, own, start, minibuffer),
{
    match frames.get(id) {
        Some(f) => {
            let mut list: Vec<u64> = f.window_list();
            if id == own {
                list = turn_to(&list, start);
            }
            if minibuffer {
                match f.minibuffer_window {
                    Some(w) => {
                        list.push(w);
                    },
                    None => {},
                }
            }
            list
        },
        None => Vec::new(),
    }
}

/// The windows of all frames of a walk.
fn walk_frames(
    frames: &FrameManager,
    ids: &Vec<u64>,
    own: u64,
    start: u64,
    minibuffer: bool,
) -> (r: Vec<u64>)
    ensures
        r@ == walk(frames@, ids@, own, start, minibuffer),
{
    let mut out: Vec<u64> = Vec::new();
    let mut i: usize = 0;
    proof {
        assert(ids@.take(0) =~= Seq::<u64>::empty());
    }
    while i < ids.len()
        invariant
            i <= ids.len(),
            out@ == walk(frames@, ids@.take(i as int), own, start, minibuffer),
        decreases ids.len() - i,
    {
        proof {
            assert(ids@.take(i + 1).drop_last() =~= ids@.take(i as int));
            assert(ids@.take(i + 1).last() == ids@[i as int]);
        }
        let mut more: Vec<u64> = walk_frame(frames, ids[i], own, start, minibuffer);
        out.append(&mut more);
        i = i + 1;
    }
    proof {
        assert(ids@.take(i as int) =~= ids@);
    }
    out
}

/// A sequence with each number only where it stands first.
pub open spec fn distinct(s: Seq<u64>) -> Seq<u64>
    decreases s.len(),
{
    if s.len() == 0 {
        s
    } else {
        let d = distinct(s.drop_last());
        if d.contains(s.last()) {
            d
        } else {
            d.push(s.last())
        }
    }
}

/// A number is in the sequence of distinct numbers where it was in the sequence.
proof fn lemma_distinct_contains(s: Seq<u64>, y: u64)
    ensures
        s.contains(y) == distinct(s).contains(y),
    decreases s.len(),
{
    if s.len() > 0 {
        let t = s.drop_last();
        lemma_distinct_contains(t, y);
        let d = distinct(t);
        let x = s.last();
        if s.contains(y) {
            let i = choose|i: int| 0 <= i < s.len() && s[i] == y;
            if i < t.len() {
                assert(t[i] == y);
                let j = choose|j: int| 0 <= j < d.len() && d[j] == y;
                assert(distinct(s)[j] == y);
            } else if !d.contains(x) {
                assert(distinct(s)[d.len() as int] == y);
            }
        }
        if distinct(s).contains(y) {
            let i = choose|i: int| 0 <= i < distinct(s).len() && distinct(s)[i] == y;
            if i < d.len() {
                assert(d[i] == y);
                let j = choose|j: int| 0 <= j < t.len() && t[j] == y;
                assert(s[j] == y);
            } else {
                assert(s[s.len() - 1] == y);
            }
        }
    }
}

/// No window is listed twice, and every window that was met is listed.
pub proof fn law_distinct_has_no_duplicates(s: Seq<u64>)
    ensures
        distinct(s).no_duplicates(),
        forall|x: u64| s.contains(x) <==> #[trigger] distinct(s).contains(x),
    decreases s.len(),
{
    assert forall|x: u64| s.contains(x) <==> #[trigger] distinct(s).contains(x) by {
        lemma_distinct_contains(s, x);
    }
    if s.len() > 0 {
        let d = distinct(s.drop_last());
        law_distinct_has_no_duplicates(s.drop_last());
        assert forall|i: int, j: int|
            0 <= i < distinct(s).len() && 0 <= j < distinct(s).len() && i != j implies distinct(
            s,
        )[i] != distinct(s)[j] by {
            if i < d.len() && j < d.len() {
                assert(d[i] != d[j]);
            } else if i < d.len() {
                assert(d.contains(d[i]));
            } else if j < d.len() {
                assert(d.contains(d[j]));
            }
        }
    }
}

/// A sequence with each number only where it stands first.
fn keep_distinct(s: &Vec<u64>) -> (r: Vec<u64>)
    ensures
        r@ == distinct(s@),
{
    let mut out: Vec<u64> = Vec::new();
    let mut i: usize = 0;
    proof {
        assert(s@.take(0) =~= Seq::<u64>::empty());
    }
    while i < s.len()
        invariant
            i <= s.len(),
            out@ == distinct(s@.take(i as int)),
        decreases s.len() - i,
    {
        proof {
            assert(s@.take(i + 1).drop_last() =~= s@.take(i as int));
            assert(s@.take(i + 1).last() == s@[i as int]);
        }
        let place: usize = find_place(&out, s[i]);
        proof {
            lemma_place_of(out@, s@[i as int]);
        }
        if place >= out.len() {
            out.push(s[i]);
        }
        i = i + 1;
    }
    proof {
        assert(s@.take(i as int) =~= s@);
    }
    out
}

proof fn lemma_place_of(s: Seq<u64>, x: u64)
    ensures
        0 <= place_of(s, x) <= s.len(),
        s.contains(x) == (place_of(s, x) < s.len()),
    decreases s.len(),
{
    if s.len() > 0 {
        if s[0] == x {
            assert(s.contains(x));
        } else {
            let t = s.drop_first();
            lemma_place_of(t, x);
            if s.contains(x) {
                let i = choose|i: int| 0 <= i < s.len() && s[i] == x;
                assert(t[i - 1] == x);
            }
            if t.contains(x) {
                let i = choose|i: int| 0 <= i < t.len() && t[i] == x;
                assert(s[i + 1] == x);
            }
        }
    }
}

/// The window where a walk starts.
pub open spec fn walk_start(s: UiState, a: Lisp) -> Found<(u64, u64)> {
    match a {
        Lisp::Nil => window_arg(s, Lisp::Nil, "window-live-p"@),
        Lisp::Window(id) => match s.frames.frame_of_live(id) {
            Some(f) => Found::Is((f, id)),
            None => Found::Signal(wrong_type("window-live-p"@, a)),
        },
        _ => Found::Signal(wrong_type("window-live-p"@, a)),
    }
}

/// `(window-list-1 &optional WINDOW MINIBUF ALL-FRAMES)`
pub open spec fn window_list_1_step(st: UiState, args: Seq<Lisp>) -> Step {
    let s = after(booted(st), arg(args, 0));
    with_arity(
        st,
        "window-list-1"@,
        args,
        0,
        3,
        match walk_start(booted(st), arg(args, 0)) {
            Found::Is((own, start)) => match walked_frames(s.frames, own, arg(args, 2)) {
                Found::Is(ids) => gives(
                    s,
                    list_of(
                        window_values(
                            distinct(
                                walk(
                                    s.frames,
                                    walk_order(ids, own),
                                    own,
                                    start,
                                    arg(args, 1) == Lisp::True,
                                ),
                            ),
                        ),
                    ),
                ),
                Found::Signal(o) => ends(s, o),
            },
            Found::Signal(o) => ends(s, o),
        },
    )
}

/// `(window-list-1 &optional WINDOW MINIBUF ALL-FRAMES)` -> list of live windows.
pub fn builtin_window_list_1(ui: &mut Ui, args: &Vec<Value>) -> (r: EvalResult)
    ensures
        final(ui)@ == window_list_1_step(old(ui)@, views(args@)).state,
        outcome(r) == window_list_1_step(old(ui)@, views(args@)).end,
{
    expect_max_args("window-list-1", args, 3)?;
    let _id: u64 = ensure_selected_frame_id(ui);
    let a: Value = arg_or_nil(args, 0);
    let (own, start): (u64, u64) = match &a {
        Value::Nil => resolve_window_id_with_pred(ui, &a, "window-live-p")?,
        Value::Window(id) => match ui.frames.find_window_frame_id(*id) {
            Some(f) => (f, *id),
            None => {
                return Err(wrong_type_argument("window-live-p", &a));
            },
        },
        _ => {
            return Err(wrong_type_argument("window-live-p", &a));
        },
    };
    let ids: Vec<u64> = resolve_walked_frames(&ui.frames, own, &arg_or_nil(args, 2))?;
    let order: Vec<u64> = if ids.len() == 0 {
        one(own)
    } else {
        turn_to(&ids, own)
    };
    let all: Vec<u64> = walk_frames(&ui.frames, &order, own, start, arg_or_nil(args, 1).is_t());
    let windows: Vec<u64> = keep_distinct(&all);
    Ok(window_list_value(&windows))
}

/// The first of some windows that shows a buffer.
pub open spec fn first_showing(f: FrameState, ids: Seq<u64>, buffer: u64) -> Option<u64>
    decreases ids.len(),
{
    if ids.len() == 0 {
        None
    } else if f.window_buffer(ids[0]) == Some(buffer) {
        Some(ids[0])
    } else {
        first_showing(f, ids.drop_first(), buffer)
    }
}

/// The first window of a frame that shows a buffer.
fn find_showing(f: &Frame, buffer: u64) -> (r: Option<u64>)
    ensures
        r == first_showing(f@, leaf_ids(f@.root), buffer),
{
    let ids: Vec<u64> = f.window_list();
    let mut i: usize = 0;
    proof {
        assert(ids@.skip(0) =~= ids@);
    }
    while i < ids.len()
        invariant
            i <= ids.len(),
            ids@ == leaf_ids(f@.root),
            first_showing(f@, ids@.skip(i as int), buffer) == first_showing(f@, ids@, buffer),
        decreases ids.len() - i,
    {
        proof {
            assert(ids@.skip(i as int)[0] == ids@[i as int]);
            assert(ids@.skip(i as int).drop_first() =~= ids@.skip(i + 1));
        }
        match f.window_buffer(ids[i]) {
            Some(b) => {
                if b == buffer {
                    return Some(ids[i]);
                }
            },
            None => {},
        }
        i = i + 1;
    }
    None
}

/// `(get-buffer-window &optional BUFFER-OR-NAME ALL-FRAMES)`
pub open spec fn get_buffer_window_step(st: UiState, args: Seq<Lisp>) -> Step {
    let a = arg(args, 0);
    let target: Option<u64> = match a {
        Lisp::Str(_, _) => named_buffer(st.buffers.list, str_chars(a)->0),
        Lisp::Buffer(id) => if st.buffers.get(id) is Some {
            Some(id)
        } else {
            None
        },
        _ => None,
    };
    with_arity(
        st,
        "get-buffer-window"@,
        args,
        0,
        2,
        if a != Lisp::Nil && !(a is Str) && !(a is Buffer) {
            ends(st, wrong_type("stringp"@, a))
        } else {
            match target {
                Some(b) => match booted(st).frames.get(boot_id(st)) {
                    Some(f) => gives(
                        booted(st),
                        match first_showing(f, leaf_ids(f.root), b) {
                            Some(w) => Lisp::Window(w),
                            None => Lisp::Nil,
                        },
                    ),
                    None => ends(booted(st), error_outcome("Frame not found"@)),
                },
                None => gives(st, Lisp::Nil),
            }
        },
    )
}

/// `(get-buffer-window &optional BUFFER-OR-NAME ALL-FRAMES)` -> window or nil.
pub fn builtin_get_buffer_window(ui: &mut Ui, args: &Vec<Value>) -> (r: EvalResult)
    ensures
        final(ui)@ == get_buffer_window_step(old(ui)@, views(args@)).state,
        outcome(r) == get_buffer_window_step(old(ui)@, views(args@)).end,
{
    expect_max_args("get-buffer-window", args, 2)?;
    let a: Value = arg_or_nil(args, 0);
    let target: Option<u64> = match &a {
        Value::Nil => None,
        Value::Str(_, _) => match a.as_runtime_string() {
            Some(name) => ui.buffers.find_buffer_by_name(string_of(name.as_slice()).as_str()),
            None => None,
        },
        Value::Buffer(id) => if ui.buffers.get(*id).is_some() {
            Some(*id)
        } else {
            None
        },
        _ => {
            return Err(wrong_type_argument("stringp", &a));
        },
    };
    match target {
        Some(b) => {
            let id: u64 = ensure_selected_frame_id(ui);
            let f = get_frame(&ui.frames, id)?;
            match find_showing(f, b) {
                Some(w) => Ok(Value::Window(w)),
                None => Ok(Value::Nil),
            }
        },
        None => Ok(Value::Nil),
    }
}

/// Whether a value is a number.
pub open spec fn is_number(v: Lisp) -> bool {
    v is Int || v is Float
}

/// Whether a coordinate is below zero, or no number.
pub open spec fn before_frame(v: Lisp) -> bool {
    match v {
        Lisp::Int(n) => n < 0,
        Lisp::Float(b) => not_a_number(b) || (negative(b) && (!finite(b) || significand(b) != 0)),
        _ => true,
    }
}

/// The cell of a coordinate that is not below zero.
pub open spec fn cell_of(v: Lisp) -> int {
    match v {
        Lisp::Int(n) => n as int,
        Lisp::Float(b) => scaled(b, 1),
        _ => 0,
    }
}

/// Whether a coordinate that is not below zero lies at a limit or past it.
pub open spec fn past_frame(v: Lisp, limit: int) -> bool {
    match v {
        Lisp::Float(b) => !finite(b) || cell_of(v) >= limit,
        _ => cell_of(v) >= limit,
    }
}

/// The pixel of a coordinate that is not below zero, at most the largest number there is.
pub open spec fn pixel_of(v: Lisp, size: u32) -> int {
    let n = match v {
        Lisp::Int(n) => n * size,
        Lisp::Float(b) => scaled(b, size as int),
        _ => 0,
    };
    if n <= u64::MAX {
        n
    } else {
        u64::MAX as int
    }
}

/// The window of a frame at some coordinates, counted in columns and lines.
pub open spec fn window_at(f: FrameState, x: Lisp, y: Lisp) -> Lisp {
    if before_frame(x) || before_frame(y) || past_frame(x, f.total_cols()) || past_frame(
        y,
        f.total_lines(),
    ) {
        Lisp::Nil
    } else {
        let px = pixel_of(x, f.char_width);
        let py = pixel_of(y, f.char_height);
        match leaf_at(f.root, px, py) {
            Some(w) => Lisp::Window(w),
            None => match (f.minibuffer_window, f.minibuffer_leaf) {
                (Some(w), Some(l)) => if inside(l.bounds, px, py) {
                    Lisp::Window(w)
                } else {
                    Lisp::Nil
                },
                _ => Lisp::Nil,
            },
        }
    }
}

/// Whether a coordinate is below zero, or no number.
fn is_before_frame(v: &Value) -> (r: bool)
    ensures
        r == before_frame(v@),
{
    match v {
        Value::Int(n) => *n < 0,
        Value::Float(b) => {
            let exponent: u64 = (*b / 0x10_0000_0000_0000) % 2048;
            let fraction: u64 = *b % 0x10_0000_0000_0000;
            let neg: bool = *b >= 0x8000_0000_0000_0000;
            if exponent == 2047 {
                fraction != 0 || neg
            } else {
                neg && (exponent != 0 || fraction != 0)
            }
        },
        _ => true,
    }
}

/// Whether a coordinate that is not below zero lies at a limit or past it.
fn is_past_frame(v: &Value, limit: i64) -> (r: bool)
    requires
        is_number(v@),
    ensures
        r == past_frame(v@, limit as int),
{
    match v {
        Value::Int(n) => *n >= limit,
        Value::Float(b) => {
            let exponent: u64 = (*b / 0x10_0000_0000_0000) % 2048;
            if exponent == 2047 {
                return true;
            }
            let cell: u128 = float_scaled(*b, 1);
            limit <= 0 || cell >= limit as u128
        },
        _ => false,
    }
}

/// The pixel of a coordinate that is not below zero.
fn pixel(v: &Value, size: u32) -> (r: u64)
    requires
        is_number(v@),
        !before_frame(v@),
    ensures
        r == pixel_of(v@, size),
{
    match v {
        Value::Int(n) => {
            let m: u128 = *n as u128;
            let k: u128 = size as u128;
            proof {
                assert(0 <= m * k <= 0x7fff_ffff_ffff_ffff * 0xffff_ffff) by (nonlinear_arith)
                    requires
                        0 <= m <= 0x7fff_ffff_ffff_ffff,
                        0 <= k <= 0xffff_ffff,
                ;
            }
            let p: u128 = m * k;
            if p <= u64::MAX as u128 {
                p as u64
            } else {
                u64::MAX
            }
        },
        Value::Float(b) => {
            let p: u128 = float_scaled(*b, size);
            if p <= u64::MAX as u128 {
                p as u64
            } else {
                u64::MAX
            }
        },
        _ => 0,
    }
}

/// `(window-at X Y &optional FRAME)`
pub open spec fn window_at_step(st: UiState, args: Seq<Lisp>) -> Step {
    with_arity(
        st,
        "window-at"@,
        args,
        2,
        3,
        if !is_number(arg(args, 0)) {
            ends(st, wrong_type("numberp"@, arg(args, 0)))
        } else if !is_number(arg(args, 1)) {
            ends(st, wrong_type("numberp"@, arg(args, 1)))
        } else {
            on_frame(
                st,
                arg(args, 2),
                "frame-live-p"@,
                |s: UiState, f: FrameState|
                    gives(s, window_at(f, arg(args, 0), arg(args, 1))),
            )
        },
    )
}

/// Expect a number.
fn expect_number(v: &Value) -> (r: Result<(), Flow>)
    ensures
        r is Ok <==> is_number(v@),
        r matches Err(f) ==> crate::value::signalled(f) == wrong_type("numberp"@, v@),
{
    match v {
        Value::Int(_) => Ok(()),
        Value::Float(_) => Ok(()),
        _ => Err(wrong_type_argument("numberp", v)),
    }
}

/// The window of a frame at some coordinates.
fn find_window_at(f: &Frame, x: &Value, y: &Value) -> (r: Value)
    requires
        is_number(x@),
        is_number(y@),
    ensures
        r@ == window_at(f@, x@, y@),
{
    if is_before_frame(x) || is_before_frame(y) || is_past_frame(x, f.frame_total_cols())
        || is_past_frame(y, f.frame_total_lines()) {
        return Value::Nil;
    }
    let px: u64 = pixel(x, f.char_width);
    let py: u64 = pixel(y, f.char_height);
    match f.root.leaf_at(px, py) {
        Some(w) => Value::Window(w),
        None => match (f.minibuffer_window, &f.minibuffer_leaf) {
            (Some(w), Some(l)) => if contains(&l.bounds, px, py) {
                Value::Window(w)
            } else {
                Value::Nil
            },
            _ => Value::Nil,
        },
    }
}

/// `(window-at X Y &optional FRAME)` -> window object or nil.
pub fn builtin_window_at(ui: &mut Ui, args: &Vec<Value>) -> (r: EvalResult)
    ensures
        final(ui)@ == window_at_step(old(ui)@, views(args@)).state,
        outcome(r) == window_at_step(old(ui)@, views(args@)).end,
{
    expect_args_range("window-at", args, 2, 3)?;
    expect_number(&args[0])?;
    expect_number(&args[1])?;
    let id: u64 = resolve_frame_id(ui, &arg_or_nil(args, 2), "frame-live-p")?;
    let f = get_frame(&ui.frames, id)?;
    Ok(find_window_at(f, &args[0], &args[1]))
}

/// The window that comes after another one in its frame, going around, `steps` windows further.
pub open spec fn stepped(list: Seq<u64>, id: u64, steps: int) -> u64 {
    let i = place_of(list, id);
    let from = if 0 <= i < list.len() {
        i
    } else {
        0
    };
    list[(from + steps) % list.len() as int]
}

/// A builtin that gives the next or the previous window.
pub open spec fn neighbour_step(
    st: UiState,
    name: Seq<char>,
    args: Seq<Lisp>,
    steps: int,
) -> Step {
    with_arity(
        st,
        name,
        args,
        0,
        3,
        on_window(
            st,
            arg(args, 0),
            "window-live-p"@,
            |s: UiState, f: u64, w: u64|
                match s.frames.get(f) {
                    Some(frame) => gives(
                        s,
                        if leaf_ids(frame.root).len() == 0 {
                            Lisp::Nil
                        } else {
                            Lisp::Window(stepped(leaf_ids(frame.root), w, steps))
                        },
                    ),
                    None => ends(s, error_outcome("Frame not found"@)),
                },
        ),
    )
}

/// The window some steps further.
pub fn step_to(list: &Vec<u64>, id: u64, steps: i64) -> (r: u64)
    requires
        list@.len() > 0,
    ensures
        r == stepped(list@, id, steps as int),
{
    let i: usize = find_place(list, id);
    let from: usize = if i < list.len() {
        i
    } else {
        0
    };
    let len: i128 = list.len() as i128;
    let sum: i128 = from as i128 + steps as i128;
    let at: i128 = euclidean_rem(sum, len);
    list[at as usize]
}

/// The remainder that is not negative.
fn euclidean_rem(a: i128, b: i128) -> (r: i128)
    requires
        0 < b <= 0x1_0000_0000_0000_0000,
        -0x2_0000_0000_0000_0000 < a < 0x2_0000_0000_0000_0000,
    ensures
        r == a as int % b as int,
        0 <= r < b,
{
    if a >= 0 {
        a % b
    } else {
        let m: i128 = (-a) % b;
        proof {
            vstd::arithmetic::div_mod::lemma_fundamental_div_mod(-a as int, b as int);
            let q = (-a) as int / b as int;
            if m == 0 {
                assert(a as int == b as int * (-q)) by (nonlinear_arith)
                    requires
                        -a == b * q + 0,
                ;
                vstd::arithmetic::div_mod::lemma_mod_multiples_basic(-q, b as int);
                assert((-q) * (b as int) == b as int * (-q)) by (nonlinear_arith);
            } else {
                assert(a as int == b as int * (-q - 1) + (b - m)) by (nonlinear_arith)
                    requires
                        -a == b * q + m,
                ;
                vstd::arithmetic::div_mod::lemma_fundamental_div_mod_converse(
                    a as int,
                    b as int,
                    -q - 1,
                    b - m,
                );
            }
        }
        if m == 0 {
            0
        } else {
            b - m
        }
    }
}

/// `(next-window &optional WINDOW MINIBUF ALL-FRAMES)` -> window object.
pub fn builtin_next_window(ui: &mut Ui, args: &Vec<Value>) -> (r: EvalResult)
    ensures
        ({
            let step = neighbour_step(old(ui)@, "next-window"@, views(args@), 1);
            final(ui)@ == step.state && outcome(r) == step.end
        }),
{
    expect_max_args("next-window", args, 3)?;
    let (f, w) = resolve_window_id(ui, &arg_or_nil(args, 0))?;
    let list: Vec<u64> = get_frame(&ui.frames, f)?.window_list();
    if list.len() == 0 {
        return Ok(Value::Nil);
    }
    Ok(Value::Window(step_to(&list, w, 1)))
}

/// `(previous-window &optional WINDOW MINIBUF ALL-FRAMES)` -> window object.
pub fn builtin_previous_window(ui: &mut Ui, args: &Vec<Value>) -> (r: EvalResult)
    ensures
        ({
            let step = neighbour_step(old(ui)@, "previous-window"@, views(args@), -1);
            final(ui)@ == step.state && outcome(r) == step.end
        }),
{
    expect_max_args("previous-window", args, 3)?;
    let (f, w) = resolve_window_id(ui, &arg_or_nil(args, 0))?;
    let list: Vec<u64> = get_frame(&ui.frames, f)?.window_list();
    if list.len() == 0 {
        return Ok(Value::Nil);
    }
    Ok(Value::Window(step_to(&list, w, -1)))
}

/// The first of some windows that is not the given one.
pub open spec fn first_other(ids: Seq<u64>, id: u64) -> u64
    decreases ids.len(),
{
    if ids.len() == 0 {
        id
    } else if ids[0] != id {
        ids[0]
    } else {
        first_other(ids.drop_first(), id)
    }
}

/// `(other-window-for-scrolling)`
pub open spec fn other_window_for_scrolling_step(st: UiState, args: Seq<Lisp>) -> Step {
    with_arity(
        st,
        "other-window-for-scrolling"@,
        args,
        0,
        0,
        match booted(st).frames.get(boot_id(st)) {
            Some(f) => if leaf_ids(f.root).len() <= 1 {
                ends(booted(st), error_outcome("There is no other window"@))
            } else {
                gives(
                    booted(st),
                    Lisp::Window(first_other(leaf_ids(f.root), f.selected_window)),
                )
            },
            None => ends(booted(st), error_outcome("No selected frame"@)),
        },
    )
}

/// `(other-window-for-scrolling)` -> window object used for scrolling.
pub fn builtin_other_window_for_scrolling(ui: &mut Ui, args: &Vec<Value>) -> (r: EvalResult)
    ensures
        final(ui)@ == other_window_for_scrolling_step(old(ui)@, views(args@)).state,
        outcome(r) == other_window_for_scrolling_step(old(ui)@, views(args@)).end,
{
    expect_args("other-window-for-scrolling", args, 0)?;
    let id: u64 = ensure_selected_frame_id(ui);
    let (list, selected): (Vec<u64>, u64) = match ui.frames.get(id) {
        Some(f) => (f.window_list(), f.selected_window),
        None => {
            return Err(error_signal("No selected frame"));
        },
    };
    if list.len() <= 1 {
        return Err(error_signal("There is no other window"));
    }
    Ok(Value::Window(find_other(&list, selected)))
}

/// The first of some windows that is not the given one.
fn find_other(list: &Vec<u64>, id: u64) -> (r: u64)
    ensures
        r == first_other(list@, id),
{
    let mut i: usize = 0;
    proof {
        assert(list@.skip(0) =~= list@);
    }
    while i < list.len()
        invariant
            i <= list.len(),
            first_other(list@.skip(i as int), id) == first_other(list@, id),
        decreases list.len() - i,
    {
        proof {
            assert(list@.skip(i as int)[0] == list@[i as int]);
            assert(list@.skip(i as int).drop_first() =~= list@.skip(i + 1));
        }
        if list[i] != id {
            return list[i];
        }
        i = i + 1;
    }
    id
}

} // verus!
