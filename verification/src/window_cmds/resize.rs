//! Applying sizes that were asked for to the windows of a frame.
use crate::frame::{FrameManager, FrameState, Frames};
use crate::table::{entry, lemma_entry_found};
use crate::value::outcome;
use crate::value::{arg, arg_or_nil, expect_max_args, views, EvalResult, Lisp, Value};
use crate::window::{
    first_id, first_rect, plus, size_plus, Combination, Leaf, Rect, SplitDirection, Windows,
};
use crate::window_cmds::query::with_arity;
use crate::window_cmds::resolve::{after, frame_arg, get_frame, resolve_frame_id, Found};
use crate::window_cmds::state::{ends, gives, Step, Ui, UiState};
use vstd::prelude::*;

verus! {

/// The size that is asked for a window.
pub fn asked_size(sizes: &Vec<(u64, i64)>, id: u64) -> (r: Option<i64>)
    ensures
        r == entry(sizes@, id),
{
    let mut i: usize = 0;
    while i < sizes.len()
        invariant
            i <= sizes.len(),
            forall|j: int| 0 <= j < i ==> (#[trigger] sizes@[j]).0 != id,
        decreases sizes.len() - i,
    {
        if sizes[i].0 == id {
            proof {
                lemma_entry_found(sizes@, id, i as int);
            }
            return Some(sizes[i].1);
        }
        i = i + 1;
    }
    proof {
        lemma_entry_found(sizes@, id, i as int);
    }
    None
}

/// The size of a rectangle along an axis.
pub open spec fn length(r: Rect, horizontal: bool) -> u32 {
    if horizontal {
        r.width
    } else {
        r.height
    }
}

/// A number of cells of a size as a length, within the sizes there are.
pub open spec fn cell_length(n: i64, unit: u32) -> u32 {
    if n <= 0 {
        0
    } else if n * unit <= u32::MAX {
        (n * unit) as u32
    } else {
        u32::MAX
    }
}

/// The length that a window gets: the one asked for, in units, or the one that it has.
pub open spec fn new_length(
    sizes: Seq<(u64, i64)>,
    id: u64,
    r: Rect,
    horizontal: bool,
    unit: u32,
) -> u32 {
    match entry(sizes, id) {
        Some(n) => cell_length(n, unit),
        None => length(r, horizontal),
    }
}

/// The length that a window gets.
fn length_of(sizes: &Vec<(u64, i64)>, id: u64, r: &Rect, horizontal: bool, unit: u32) -> (n: u32)
    ensures
        n == new_length(sizes@, id, *r, horizontal, unit),
{
    match asked_size(sizes, id) {
        Some(n) => crate::frame::height_of_bar(Some(n), unit),
        None => if horizontal {
            r.width
        } else {
            r.height
        },
    }
}

/// A rectangle with another place and length along an axis.
pub open spec fn moved(r: Rect, horizontal: bool, edge: u32, n: u32) -> Rect {
    if horizontal {
        Rect { x: edge, width: n, ..r }
    } else {
        Rect { y: edge, height: n, ..r }
    }
}

/// A rectangle with another place and length along an axis.
fn move_rect(r: &Rect, horizontal: bool, edge: u32, n: u32) -> (s: Rect)
    ensures
        s == moved(*r, horizontal, edge, n),
{
    if horizontal {
        Rect { x: edge, y: r.y, width: n, height: r.height }
    } else {
        Rect { x: r.x, y: edge, width: r.width, height: n }
    }
}

/// Whether the windows of a combination lie along an axis.
pub open spec fn lies_along(c: Combination, horizontal: bool) -> bool {
    (c.direction == SplitDirection::Horizontal) == horizontal
}

/// The sum of the lengths that some siblings get.
pub open spec fn length_sum(
    w: Windows,
    sizes: Seq<(u64, i64)>,
    horizontal: bool,
    unit: u32,
) -> int
    decreases w,
{
    match w {
        Windows::Empty => 0,
        Windows::Leaf(l, next) => new_length(sizes, l.id, l.bounds, horizontal, unit) + length_sum(
            *next,
            sizes,
            horizontal,
            unit,
        ),
        Windows::Internal(c, _, next) => new_length(sizes, c.id, c.bounds, horizontal, unit)
            + length_sum(*next, sizes, horizontal, unit),
    }
}

/// Whether all of some siblings get a length.
pub open spec fn all_lengths(
    w: Windows,
    sizes: Seq<(u64, i64)>,
    horizontal: bool,
    unit: u32,
    n: u32,
) -> bool
    decreases w,
{
    match w {
        Windows::Empty => true,
        Windows::Leaf(l, next) => new_length(sizes, l.id, l.bounds, horizontal, unit) == n
            && all_lengths(*next, sizes, horizontal, unit, n),
        Windows::Internal(c, _, next) => new_length(sizes, c.id, c.bounds, horizontal, unit) == n
            && all_lengths(*next, sizes, horizontal, unit, n),
    }
}

/// Whether the lengths that are asked for fit together: no window without a
/// length, and in every combination the windows fill it.
pub open spec fn lengths_fit(
    w: Windows,
    sizes: Seq<(u64, i64)>,
    horizontal: bool,
    unit: u32,
) -> bool
    decreases w,
{
    match w {
        Windows::Empty => true,
        Windows::Leaf(l, next) => new_length(sizes, l.id, l.bounds, horizontal, unit) > 0
            && lengths_fit(*next, sizes, horizontal, unit),
        Windows::Internal(c, child, next) => {
            let n = new_length(sizes, c.id, c.bounds, horizontal, unit);
            (if lies_along(c, horizontal) {
                length_sum(*child, sizes, horizontal, unit) == n
            } else {
                all_lengths(*child, sizes, horizontal, unit, n)
            }) && lengths_fit(*child, sizes, horizontal, unit) && lengths_fit(
                *next,
                sizes,
                horizontal,
                unit,
            )
        },
    }
}

/// Windows with the lengths that are asked for, from an edge on.
pub open spec fn resized(
    w: Windows,
    sizes: Seq<(u64, i64)>,
    horizontal: bool,
    unit: u32,
    edge: u32,
    along: bool,
) -> Windows
    decreases w,
{
    match w {
        Windows::Empty => Windows::Empty,
        Windows::Leaf(l, next) => {
            let n = new_length(sizes, l.id, l.bounds, horizontal, unit);
            Windows::Leaf(
                Leaf { bounds: moved(l.bounds, horizontal, edge, n), ..l },
                Box::new(
                    resized(
                        *next,
                        sizes,
                        horizontal,
                        unit,
                        if along {
                            plus(edge, n)
                        } else {
                            edge
                        },
                        along,
                    ),
                ),
            )
        },
        Windows::Internal(c, child, next) => {
            let n = new_length(sizes, c.id, c.bounds, horizontal, unit);
            Windows::Internal(
                Combination { bounds: moved(c.bounds, horizontal, edge, n), ..c },
                Box::new(
                    resized(*child, sizes, horizontal, unit, edge, lies_along(c, horizontal)),
                ),
                Box::new(
                    resized(
                        *next,
                        sizes,
                        horizontal,
                        unit,
                        if along {
                            plus(edge, n)
                        } else {
                            edge
                        },
                        along,
                    ),
                ),
            )
        },
    }
}

/// Whether the windows of a combination lie along an axis.
fn runs_along(c: &Combination, horizontal: bool) -> (r: bool)
    ensures
        r == lies_along(*c, horizontal),
{
    match c.direction {
        SplitDirection::Horizontal => horizontal,
        SplitDirection::Vertical => !horizontal,
    }
}

/// Whether the lengths of some siblings sum up to a length.
fn sums_to(
    w: &Windows,
    sizes: &Vec<(u64, i64)>,
    horizontal: bool,
    unit: u32,
    n: u32,
) -> (r: bool)
    ensures
        r == (length_sum(*w, sizes@, horizontal, unit) == n),
        length_sum(*w, sizes@, horizontal, unit) >= 0,
    decreases w,
{
    let (own, next): (u32, &Box<Windows>) = match w {
        Windows::Empty => {
            return n == 0;
        },
        Windows::Leaf(l, next) => (length_of(sizes, l.id, &l.bounds, horizontal, unit), next),
        Windows::Internal(c, _, next) => (
            length_of(sizes, c.id, &c.bounds, horizontal, unit),
            next,
        ),
    };
    if own > n {
        let _rest: bool = sums_to(next, sizes, horizontal, unit, 0);
        false
    } else {
        sums_to(next, sizes, horizontal, unit, n - own)
    }
}

/// Whether all of some siblings get a length.
fn all_are(
    w: &Windows,
    sizes: &Vec<(u64, i64)>,
    horizontal: bool,
    unit: u32,
    n: u32,
) -> (r: bool)
    ensures
        r == all_lengths(*w, sizes@, horizontal, unit, n),
    decreases w,
{
    match w {
        Windows::Empty => true,
        Windows::Leaf(l, next) => length_of(sizes, l.id, &l.bounds, horizontal, unit) == n
            && all_are(next, sizes, horizontal, unit, n),
        Windows::Internal(c, _, next) => length_of(sizes, c.id, &c.bounds, horizontal, unit) == n
            && all_are(next, sizes, horizontal, unit, n),
    }
}

/// Whether the lengths that are asked for fit together.
fn window_resize_check(
    w: &Windows,
    sizes: &Vec<(u64, i64)>,
    horizontal: bool,
    unit: u32,
) -> (r: bool)
    ensures
        r == lengths_fit(*w, sizes@, horizontal, unit),
    decreases w,
{
    match w {
        Windows::Empty => true,
        Windows::Leaf(l, next) => length_of(sizes, l.id, &l.bounds, horizontal, unit) > 0
            && window_resize_check(next, sizes, horizontal, unit),
        Windows::Internal(c, child, next) => {
            let n: u32 = length_of(sizes, c.id, &c.bounds, horizontal, unit);
            let filled: bool = if runs_along(c, horizontal) {
                sums_to(child, sizes, horizontal, unit, n)
            } else {
                all_are(child, sizes, horizontal, unit, n)
            };
            filled && window_resize_check(child, sizes, horizontal, unit) && window_resize_check(
                next,
                sizes,
                horizontal,
                unit,
            )
        },
    }
}

/// Windows with the lengths that are asked for.
fn resize(
    w: &Windows,
    sizes: &Vec<(u64, i64)>,
    horizontal: bool,
    unit: u32,
    edge: u32,
    along: bool,
) -> (r: Windows)
    ensures
        r == resized(*w, sizes@, horizontal, unit, edge, along),
    decreases w,
{
    match w {
        Windows::Empty => Windows::Empty,
        Windows::Leaf(l, next) => {
            let n: u32 = length_of(sizes, l.id, &l.bounds, horizontal, unit);
            let mut new: Leaf = *l;
            new.bounds = move_rect(&l.bounds, horizontal, edge, n);
            let after: u32 = if along {
                size_plus(edge, n)
            } else {
                edge
            };
            Windows::Leaf(new, Box::new(resize(next, sizes, horizontal, unit, after, along)))
        },
        Windows::Internal(c, child, next) => {
            let n: u32 = length_of(sizes, c.id, &c.bounds, horizontal, unit);
            let mut new: Combination = *c;
            new.bounds = move_rect(&c.bounds, horizontal, edge, n);
            let after: u32 = if along {
                size_plus(edge, n)
            } else {
                edge
            };
            Windows::Internal(
                new,
                Box::new(
                    resize(child, sizes, horizontal, unit, edge, runs_along(c, horizontal)),
                ),
                Box::new(resize(next, sizes, horizontal, unit, after, along)),
            )
        },
    }
}

/// Where a rectangle begins along an axis.
pub open spec fn near_edge(r: Rect, horizontal: bool) -> u32 {
    if horizontal {
        r.x
    } else {
        r.y
    }
}

/// A frame with the lengths that are asked for, where they fit it.
pub open spec fn frame_resized(f: FrameState, sizes: Seq<(u64, i64)>, horizontal: bool) -> Option<
    FrameState,
> {
    let r = first_rect(f.root);
    let asked = match first_id(f.root) {
        Some(id) => entry(sizes, id),
        None => None,
    };
    let root_length = match asked {
        Some(n) => n as int,
        None => length(r, horizontal) as int,
    };
    if lengths_fit(f.root, sizes, horizontal, 1) && root_length == length(r, horizontal) {
        Some(
            FrameState {
                root: resized(f.root, sizes, horizontal, 1, near_edge(r, horizontal), false),
                ..f
            },
        )
    } else {
        None
    }
}

/// `(window-resize-apply &optional FRAME HORIZONTAL)`; `sizes` are the sizes in
/// pixels that are asked for, by window.
pub open spec fn window_resize_apply_step(
    st: UiState,
    args: Seq<Lisp>,
    sizes: Seq<(u64, i64)>,
) -> Step {
    let horizontal = arg(args, 1) != Lisp::Nil;
    with_arity(
        st,
        "window-resize-apply"@,
        args,
        0,
        2,
        match frame_arg(st, arg(args, 0), "frame-live-p"@) {
            Found::Is(id) => {
                let s = after(st, arg(args, 0));
                match s.frames.get(id) {
                    Some(f) => match frame_resized(f, sizes, horizontal) {
                        Some(g) => gives(
                            s.with_frames(s.frames.with_frame(id, g)),
                            Lisp::True,
                        ),
                        None => gives(s, Lisp::Nil),
                    },
                    None => ends(s, crate::value::error_outcome("Frame not found"@)),
                }
            },
            Found::Signal(o) => ends(after(st, arg(args, 0)), o),
        },
    )
}

impl FrameManager {
    /// Replaces the tree of windows of a frame.
    fn replace_root(&mut self, id: u64, root: Windows)
        ensures
            final(self)@ == (match old(self)@.get(id) {
                Some(f) => old(self)@.with_frame(id, FrameState { root, ..f }),
                None => old(self)@,
            }),
    {
        let i: usize = self.index_of(id);
        let ghost before = self@;
        if i < self.list.len() {
            self.list[i].set_root(root);
            proof {
                assert(self@.list =~= before.list.update(
                    i as int,
                    FrameState { root, ..before.list[i as int] },
                ));
                assert(self@.records =~= before.records);
            }
        }
    }

    /// Moves the minibuffer window of a frame.
    fn place_minibuffer(&mut self, id: u64, bounds: Rect)
        ensures
            final(self)@ == (match old(self)@.get(id) {
                Some(f) => match f.minibuffer_leaf {
                    Some(l) => old(self)@.with_frame(
                        id,
                        FrameState { minibuffer_leaf: Some(Leaf { bounds, ..l }), ..f },
                    ),
                    None => old(self)@,
                },
                None => old(self)@,
            }),
    {
        let i: usize = self.index_of(id);
        let ghost before = self@;
        if i < self.list.len() {
            match self.list[i].minibuffer_leaf {
                Some(l) => {
                    let mut new: Leaf = l;
                    new.bounds = bounds;
                    self.list[i].set_minibuffer_leaf(new);
                    proof {
                        assert(self@.list =~= before.list.update(
                            i as int,
                            FrameState {
                                minibuffer_leaf: Some(new),
                                ..before.list[i as int]
                            },
                        ));
                        assert(self@.records =~= before.records);
                    }
                },
                None => {},
            }
        }
    }
}

impl crate::frame::Frame {
    /// Replaces the minibuffer window.
    fn set_minibuffer_leaf(&mut self, l: Leaf)
        ensures
            final(self)@ == (FrameState { minibuffer_leaf: Some(l), ..old(self)@ }),
    {
        self.minibuffer_leaf = Some(l);
    }
}

/// `(window-resize-apply &optional FRAME HORIZONTAL)` -> t or nil.
pub fn builtin_window_resize_apply(
    ui: &mut Ui,
    args: &Vec<Value>,
    sizes: &Vec<(u64, i64)>,
) -> (r: EvalResult)
    ensures
        final(ui)@ == window_resize_apply_step(old(ui)@, views(args@), sizes@).state,
        outcome(r) == window_resize_apply_step(old(ui)@, views(args@), sizes@).end,
{
    expect_max_args("window-resize-apply", args, 2)?;
    let id: u64 = resolve_frame_id(ui, &arg_or_nil(args, 0), "frame-live-p")?;
    let horizontal: bool = arg_or_nil(args, 1).is_truthy();
    let f = get_frame(&ui.frames, id)?;
    if !window_resize_check(&f.root, sizes, horizontal, 1) {
        return Ok(Value::Nil);
    }
    let rect: Rect = f.root.first_rect();
    let own: u32 = if horizontal {
        rect.width
    } else {
        rect.height
    };
    let asked: Option<i64> = match f.root.first_id() {
        Some(w) => asked_size(sizes, w),
        None => None,
    };
    match asked {
        Some(n) => if n != own as i64 {
            return Ok(Value::Nil);
        },
        None => {},
    }
    let edge: u32 = if horizontal {
        rect.x
    } else {
        rect.y
    };
    let root: Windows = resize(&f.root, sizes, horizontal, 1, edge, false);
    ui.frames.replace_root(id, root);
    Ok(Value::True)
}

/// Where the minibuffer window goes when its height is asked for in lines: below
/// the root window.
pub open spec fn minibuffer_rect(f: FrameState, l: Leaf, lines: i64) -> Rect {
    let r = first_rect(f.root);
    Rect {
        x: l.bounds.x,
        y: plus(r.y, r.height),
        width: l.bounds.width,
        height: cell_length(lines, f.char_height),
    }
}

/// A frame with the sizes in columns or lines that are asked for.
pub open spec fn frame_resized_total(
    f: FrameState,
    sizes: Seq<(u64, i64)>,
    horizontal: bool,
) -> FrameState {
    let unit = if horizontal {
        f.char_width
    } else {
        f.char_height
    };
    let g = FrameState {
        root: resized(
            f.root,
            sizes,
            horizontal,
            unit,
            near_edge(first_rect(f.root), horizontal),
            false,
        ),
        ..f
    };
    if horizontal {
        g
    } else {
        match (g.minibuffer_window, g.minibuffer_leaf) {
            (Some(w), Some(l)) => match entry(sizes, w) {
                Some(n) => FrameState {
                    minibuffer_leaf: Some(Leaf { bounds: minibuffer_rect(g, l, n), ..l }),
                    ..g
                },
                None => g,
            },
            _ => g,
        }
    }
}

/// `(window-resize-apply-total &optional FRAME HORIZONTAL)`; `sizes` are the sizes
/// in columns or lines that are asked for, by window.
pub open spec fn window_resize_apply_total_step(
    st: UiState,
    args: Seq<Lisp>,
    sizes: Seq<(u64, i64)>,
) -> Step {
    let horizontal = arg(args, 1) != Lisp::Nil;
    with_arity(
        st,
        "window-resize-apply-total"@,
        args,
        0,
        2,
        match frame_arg(st, arg(args, 0), "frame-live-p"@) {
            Found::Is(id) => {
                let s = after(st, arg(args, 0));
                match s.frames.get(id) {
                    Some(f) => gives(
                        s.with_frames(
                            s.frames.with_frame(
                                id,
                                frame_resized_total(f, sizes, horizontal),
                            ),
                        ),
                        Lisp::True,
                    ),
                    None => ends(s, crate::value::error_outcome("Frame not found"@)),
                }
            },
            Found::Signal(o) => ends(after(st, arg(args, 0)), o),
        },
    )
}

/// `(window-resize-apply-total &optional FRAME HORIZONTAL)` -> t.
pub fn builtin_window_resize_apply_total(
    ui: &mut Ui,
    args: &Vec<Value>,
    sizes: &Vec<(u64, i64)>,
) -> (r: EvalResult)
    ensures
        final(ui)@ == window_resize_apply_total_step(old(ui)@, views(args@), sizes@).state,
        outcome(r) == window_resize_apply_total_step(old(ui)@, views(args@), sizes@).end,
{
    expect_max_args("window-resize-apply-total", args, 2)?;
    let id: u64 = resolve_frame_id(ui, &arg_or_nil(args, 0), "frame-live-p")?;
    let horizontal: bool = arg_or_nil(args, 1).is_truthy();
    let ghost s = ui@.frames;
    let f = get_frame(&ui.frames, id)?;
    let ghost frame = f@;
    let unit: u32 = if horizontal {
        f.char_width
    } else {
        f.char_height
    };
    let rect: Rect = f.root.first_rect();
    let edge: u32 = if horizontal {
        rect.x
    } else {
        rect.y
    };
    let root: Windows = resize(&f.root, sizes, horizontal, unit, edge, false);
    let below: Rect = root.first_rect();
    let char_height: u32 = f.char_height;
    let place: Option<Rect> = if horizontal {
        None
    } else {
        match (f.minibuffer_window, &f.minibuffer_leaf) {
            (Some(w), Some(l)) => match asked_size(sizes, w) {
                Some(n) => Some(
                    Rect {
                        x: l.bounds.x,
                        y: size_plus(below.y, below.height),
                        width: l.bounds.width,
                        height: crate::frame::height_of_bar(Some(n), char_height),
                    },
                ),
                None => None,
            },
            _ => None,
        }
    };
    ui.frames.replace_root(id, root);
    proof {
        crate::frame::lemma_frame_index(s.list, id);
        let i = crate::frame::frame_index(s.list, id);
        let g = FrameState { root, ..frame };
        lemma_replaced_frame(s, id, g);
    }
    match place {
        Some(b) => {
            ui.frames.place_minibuffer(id, b);
        },
        None => {},
    }
    proof {
        let g = FrameState { root, ..frame };
        let h = frame_resized_total(frame, sizes@, horizontal);
        let i = crate::frame::frame_index(s.list, id);
        assert(s.list.update(i, g).update(i, h) =~= s.list.update(i, h));
        if h == g {
            assert(s.list.update(i, g) =~= s.list.update(i, h));
        }
    }
    Ok(Value::True)
}

/// A frame that is put in the place of one with its identifier is found there.
proof fn lemma_replaced_frame(s: Frames, id: u64, g: FrameState)
    requires
        s.get(id) is Some,
        g.id == s.get(id)->0.id,
    ensures
        s.with_frame(id, g).get(id) == Some(g),
        crate::frame::frame_index(s.with_frame(id, g).list, id) == crate::frame::frame_index(
            s.list,
            id,
        ),
{
    crate::frame::lemma_frame_index(s.list, id);
    let i = crate::frame::frame_index(s.list, id);
    let t = s.list.update(i, g);
    crate::frame::lemma_frame_index(t, id);
    let k = crate::frame::frame_index(t, id);
    if k < i {
        assert(t[k] == s.list[k]);
        assert(s.list[k].id != id);
    } else if i < k {
        assert(t[i].id != id);
    }
}

} // verus!
