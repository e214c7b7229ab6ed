//! What resizing windows and frames, and setting what frames have, comes to.
use crate::frame::{lemma_frame_index, FrameState, Frames};
use crate::table::{entry, law_entry_set, law_entry_set_keeps_others};
use crate::tiling::{across, branching, extent, fills, near, tiled};
use crate::value::{cons, lbool, list1, list_items, Lisp, Outcome};
use crate::window::{find, first_rect, plus, rest_of, Leaf, Rect, SplitDirection, Window, Windows};
use crate::window_cmds::frame_size::{
    frame_dimension, set_frame_height_step, set_frame_size_step, set_frame_width_step,
};
use crate::window_cmds::frames::{
    bare_string, default_new_frame, frame_modified, frame_parameter_step, frame_visible_p_end,
    frame_with_pairs, iconify_frame_step, make_frame_step, make_frame_visible_step,
    modify_frame_parameters_step, new_frame_of, parameter_value, requested_frame, select_frame_step,
    selected_frame_step,
};
use crate::window_cmds::resize::{
    all_lengths, frame_resized, length, length_sum, lengths_fit, lies_along, moved, near_edge,
    new_length, resized,
};
use crate::window_cmds::state::UiState;
use vstd::prelude::*;

verus! {

/// The direction in which lengths are changed.
pub open spec fn axis(horizontal: bool) -> SplitDirection {
    if horizontal {
        SplitDirection::Horizontal
    } else {
        SplitDirection::Vertical
    }
}

proof fn lemma_length_sum(w: Windows, sizes: Seq<(u64, i64)>, horizontal: bool, unit: u32)
    ensures
        length_sum(w, sizes, horizontal, unit) >= 0,
    decreases w,
{
    match w {
        Windows::Empty => {},
        Windows::Leaf(_, next) => lemma_length_sum(*next, sizes, horizontal, unit),
        Windows::Internal(_, _, next) => lemma_length_sum(*next, sizes, horizontal, unit),
    }
}

proof fn lemma_resized_fills(
    w: Windows,
    sizes: Seq<(u64, i64)>,
    horizontal: bool,
    unit: u32,
    whole: Rect,
    start: int,
    dir: SplitDirection,
    room: Rect,
    edge: u32,
)
    requires
        fills(w, whole, start, dir),
        lengths_fit(w, sizes, horizontal, unit),
        room == moved(
            whole,
            horizontal,
            near_edge(room, horizontal),
            length(room, horizontal),
        ),
        near_edge(room, horizontal) + length(room, horizontal) <= u32::MAX,
        dir == axis(horizontal) ==> edge + length_sum(w, sizes, horizontal, unit) == near_edge(
            room,
            horizontal,
        ) + length(room, horizontal),
        dir != axis(horizontal) ==> edge == near_edge(room, horizontal) && all_lengths(
            w,
            sizes,
            horizontal,
            unit,
            length(room, horizontal),
        ),
    ensures
        fills(
            resized(w, sizes, horizontal, unit, edge, dir == axis(horizontal)),
            room,
            if dir == axis(horizontal) {
                edge as int
            } else {
                start
            },
            dir,
        ),
    decreases w,
{
    let along = dir == axis(horizontal);
    match w {
        Windows::Empty => {},
        Windows::Leaf(l, next) => {
            let n = new_length(sizes, l.id, l.bounds, horizontal, unit);
            lemma_length_sum(*next, sizes, horizontal, unit);
            lemma_resized_fills(
                *next,
                sizes,
                horizontal,
                unit,
                whole,
                start + extent(l.bounds, dir),
                dir,
                room,
                if along {
                    plus(edge, n)
                } else {
                    edge
                },
            );
        },
        Windows::Internal(c, child, next) => {
            let n = new_length(sizes, c.id, c.bounds, horizontal, unit);
            lemma_length_sum(*next, sizes, horizontal, unit);
            let new = moved(c.bounds, horizontal, edge, n);
            lemma_resized_fills(
                *child,
                sizes,
                horizontal,
                unit,
                c.bounds,
                near(c.bounds, c.direction),
                c.direction,
                new,
                edge,
            );
            assert(lies_along(c, horizontal) == (c.direction == axis(horizontal)));
            lemma_resized_fills(
                *next,
                sizes,
                horizontal,
                unit,
                whole,
                start + extent(c.bounds, dir),
                dir,
                room,
                if along {
                    plus(edge, n)
                } else {
                    edge
                },
            );
        },
    }
}

proof fn lemma_resized_branches(
    w: Windows,
    sizes: Seq<(u64, i64)>,
    horizontal: bool,
    unit: u32,
    edge: u32,
    along: bool,
)
    ensures
        ({
            let r = resized(w, sizes, horizontal, unit, edge, along);
            &&& branching(w) ==> branching(r)
            &&& r is Empty == w is Empty
            &&& rest_of(r) is Empty == rest_of(w) is Empty
        }),
    decreases w,
{
    match w {
        Windows::Empty => {},
        Windows::Leaf(l, next) => {
            let n = new_length(sizes, l.id, l.bounds, horizontal, unit);
            let e = if along {
                plus(edge, n)
            } else {
                edge
            };
            lemma_resized_branches(*next, sizes, horizontal, unit, e, along);
        },
        Windows::Internal(c, child, next) => {
            let n = new_length(sizes, c.id, c.bounds, horizontal, unit);
            let e = if along {
                plus(edge, n)
            } else {
                edge
            };
            lemma_resized_branches(
                *child,
                sizes,
                horizontal,
                unit,
                edge,
                lies_along(c, horizontal),
            );
            lemma_resized_branches(*next, sizes, horizontal, unit, e, along);
        },
    }
}

/// Windows that fill their room still fill it after `window-resize-apply` changed their
/// sizes.
pub proof fn law_resized_windows_fill(f: FrameState, sizes: Seq<(u64, i64)>, horizontal: bool)
    requires
        tiled(f.root),
    ensures
        frame_resized(f, sizes, horizontal) matches Some(g) ==> tiled(g.root) && first_rect(g.root)
            == first_rect(f.root),
{
    match frame_resized(f, sizes, horizontal) {
        Some(g) => {
            let r = first_rect(f.root);
            let edge = near_edge(r, horizontal);
            lemma_resized_branches(f.root, sizes, horizontal, 1, edge, false);
            reveal_with_fuel(fills, 2);
            reveal_with_fuel(resized, 2);
            match f.root {
                Windows::Empty => {},
                Windows::Leaf(l, next) => {
                    assert(*next is Empty);
                },
                Windows::Internal(c, child, next) => {
                    assert(*next is Empty);
                    let n = new_length(sizes, c.id, c.bounds, horizontal, 1);
                    assert(n == length(r, horizontal));
                    assert(moved(c.bounds, horizontal, edge, n) == c.bounds);
                    lemma_resized_fills(
                        *child,
                        sizes,
                        horizontal,
                        1,
                        c.bounds,
                        near(c.bounds, c.direction),
                        c.direction,
                        c.bounds,
                        edge,
                    );
                    assert(lies_along(c, horizontal) == (c.direction == axis(horizontal)));
                },
            }
        },
        None => {},
    }
}

/// A window that is resized gets the length that is asked for, and keeps its length where
/// none is. Across it is as it was, and it shows what it did.
pub proof fn law_window_gets_its_length(
    w: Windows,
    sizes: Seq<(u64, i64)>,
    horizontal: bool,
    unit: u32,
    edge: u32,
    along: bool,
    id: u64,
)
    ensures
        match find(w, id) {
            Some(x) => find(resized(w, sizes, horizontal, unit, edge, along), id) matches Some(y)
                && ({
                let dir = axis(horizontal);
                &&& entry(sizes, id) is None ==> extent(y.rect(), dir) == extent(x.rect(), dir)
                &&& entry(sizes, id) matches Some(n) ==> (0 <= n && n * unit <= u32::MAX
                    ==> extent(y.rect(), dir) == n * unit)
                &&& near(y.rect(), across(dir)) == near(x.rect(), across(dir))
                &&& extent(y.rect(), across(dir)) == extent(x.rect(), across(dir))
                &&& x matches Window::Leaf(l) ==> y == Window::Leaf(
                    Leaf { bounds: y.rect(), ..l },
                )
            }),
            None => find(resized(w, sizes, horizontal, unit, edge, along), id) is None,
        },
    decreases w,
{
    match w {
        Windows::Empty => {},
        Windows::Leaf(l, next) => {
            let n = new_length(sizes, l.id, l.bounds, horizontal, unit);
            let e = if along {
                plus(edge, n)
            } else {
                edge
            };
            law_window_gets_its_length(*next, sizes, horizontal, unit, e, along, id);
            assert(0int * unit == 0);
        },
        Windows::Internal(c, child, next) => {
            let n = new_length(sizes, c.id, c.bounds, horizontal, unit);
            let e = if along {
                plus(edge, n)
            } else {
                edge
            };
            law_window_gets_its_length(
                *child,
                sizes,
                horizontal,
                unit,
                edge,
                lies_along(c, horizontal),
                id,
            );
            law_window_gets_its_length(*next, sizes, horizontal, unit, e, along, id);
            assert(0int * unit == 0);
        },
    }
}

pub(crate) proof fn lemma_size_names()
    ensures
        "width"@ != "height"@,
        "width"@ != "neovm--frame-text-lines"@,
        "height"@ != "neovm--frame-text-lines"@,
        "name"@ != "width"@,
        "name"@ != "height"@,
        "title"@ != "height"@,
        "name"@ != "title"@,
        "title"@ != "width"@,
        "visibility"@ != "name"@,
        "visibility"@ != "title"@,
        "visibility"@ != "width"@,
        "visibility"@ != "height"@,
{
    reveal_strlit("width");
    reveal_strlit("height");
    reveal_strlit("name");
    reveal_strlit("title");
    reveal_strlit("visibility");
    reveal_strlit("neovm--frame-text-lines");
    assert("width"@[0] == 'w' && "title"@[0] == 't');
    assert("width"@.len() == 5 && "height"@.len() == 6 && "name"@.len() == 4 && "title"@.len() == 5
        && "visibility"@.len() == 10 && "neovm--frame-text-lines"@.len() == 23);
}

/// A frame whose text was given a size has that size, or the smallest one where it is
/// smaller, and one line more in all.
pub proof fn law_text_size_is_set(f: FrameState, cols: int, lines: int)
    requires
        cols <= u32::MAX,
        lines < u32::MAX,
    ensures
        ({
            let g = f.with_text_size(cols, lines);
            &&& cols >= 10 ==> g.total_cols() == cols
            &&& cols < 10 ==> g.total_cols() == 10
            &&& lines >= 5 ==> g.text_lines() == lines
            &&& lines < 5 ==> g.text_lines() == 5
            &&& g.total_lines() == g.text_lines() + 1
            &&& g.root == f.root && g.selected_window == f.selected_window
        }),
{
    lemma_size_names();
    let c = frame_dimension(cols, 10);
    let l = frame_dimension(lines, 5);
    let total = l + 1;
    let p = f.with_parameter("width"@, Lisp::Int(c as i64));
    let q = p.with_parameter("height"@, Lisp::Int(total as i64));
    let r = q.with_parameter("neovm--frame-text-lines"@, Lisp::Int(l as i64));
    law_entry_set(f.parameters, "width"@, Lisp::Int(c as i64));
    law_entry_set(p.parameters, "height"@, Lisp::Int(total as i64));
    law_entry_set(q.parameters, "neovm--frame-text-lines"@, Lisp::Int(l as i64));
    law_entry_set_keeps_others(p.parameters, "height"@, Lisp::Int(total as i64), "width"@);
    law_entry_set_keeps_others(
        q.parameters,
        "neovm--frame-text-lines"@,
        Lisp::Int(l as i64),
        "width"@,
    );
    law_entry_set_keeps_others(
        q.parameters,
        "neovm--frame-text-lines"@,
        Lisp::Int(l as i64),
        "height"@,
    );
    assert(f.with_text_size(cols, lines) == r);
}

pub(crate) proof fn lemma_frame_replaced(s: Frames, id: u64, g: FrameState)
    requires
        s.get(id) is Some,
        g.id == id,
    ensures
        s.get(id)->0.id == id,
        s.with_frame(id, g).get(id) == Some(g),
        s.with_frame(id, g).selected == s.selected,
{
    lemma_frame_index(s.list, id);
    let k = crate::frame::frame_index(s.list, id);
    let t = s.list.update(k, g);
    lemma_frame_index(t, id);
    let i = crate::frame::frame_index(t, id);
    if i < k {
        assert(t[i] == s.list[i]);
    } else if k < i {
        assert(t[k].id != id);
    }
}

/// `set-frame-size` sets both sizes of the text of a frame, `set-frame-width` its columns
/// and `set-frame-height` its lines, and neither of these the other.
pub proof fn law_frame_sizes_are_set(st: UiState, id: u64, f: FrameState, cols: i64, lines: i64)
    requires
        st.frames.get(id) == Some(f),
        10 <= cols < u32::MAX,
        5 <= lines < u32::MAX,
        10 <= f.total_cols() < u32::MAX,
        5 <= f.text_lines() < u32::MAX,
    ensures
        ({
            let a = Lisp::Frame(id);
            let sized = set_frame_size_step(st, seq![a, Lisp::Int(cols), Lisp::Int(lines)]);
            let wide = set_frame_width_step(st, seq![a, Lisp::Int(cols)]);
            let high = set_frame_height_step(st, seq![a, Lisp::Int(lines)]);
            &&& sized.end == Outcome::Value(Lisp::Nil)
            &&& wide.end == Outcome::Value(Lisp::Nil)
            &&& high.end == Outcome::Value(Lisp::Nil)
            &&& sized.state.frames.get(id) matches Some(g) && g.total_cols() == cols
                && g.text_lines() == lines
            &&& wide.state.frames.get(id) matches Some(g) && g.total_cols() == cols
                && g.text_lines() == f.text_lines()
            &&& high.state.frames.get(id) matches Some(g) && g.total_cols() == f.total_cols()
                && g.text_lines() == lines
        }),
{
    let a = Lisp::Frame(id);
    let x = seq![a, Lisp::Int(cols), Lisp::Int(lines)];
    let y = seq![a, Lisp::Int(cols)];
    let z = seq![a, Lisp::Int(lines)];
    assert(x.len() == 3 && x[0] == a && x[1] == Lisp::Int(cols) && x[2] == Lisp::Int(lines));
    assert(y.len() == 2 && y[0] == a && y[1] == Lisp::Int(cols));
    assert(z.len() == 2 && z[0] == a && z[1] == Lisp::Int(lines));
    lemma_frame_replaced(st.frames, id, FrameState { id, ..f });
    law_text_size_is_set(f, cols as int, lines as int);
    law_text_size_is_set(f, cols as int, f.text_lines());
    law_text_size_is_set(f, f.total_cols(), lines as int);
    lemma_frame_replaced(st.frames, id, f.with_text_size(cols as int, lines as int));
    lemma_frame_replaced(st.frames, id, f.with_text_size(cols as int, f.text_lines()));
    lemma_frame_replaced(st.frames, id, f.with_text_size(f.total_cols(), lines as int));
}

/// A frame parameter that was set is read back: a name and a title are strings without
/// properties, sizes are integers, and the visibility is true or false. Setting one leaves
/// the others.
pub proof fn law_frame_parameter_is_read_back(
    f: FrameState,
    key: Seq<char>,
    v: Lisp,
    other: Seq<char>,
)
    requires
        key != other,
    ensures
        ({
            let g = frame_modified(f, key, v);
            let got = parameter_value(g, key);
            let text = key == "name"@ || key == "title"@;
            let size = key == "width"@ || key == "height"@;
            &&& text && v is Str ==> got == bare_string(v)
            &&& text && v !is Str ==> got == parameter_value(f, key)
            &&& size && v is Int ==> got == v
            &&& size && v !is Int ==> got == parameter_value(f, key)
            &&& key == "visibility"@ ==> got == lbool(v != Lisp::Nil)
            &&& !text && !size && key != "visibility"@ ==> got == v
            &&& parameter_value(g, other) == parameter_value(f, other)
            &&& g.id == f.id && g.root == f.root
        }),
{
    lemma_size_names();
    law_entry_set(f.parameters, key, v);
    law_entry_set_keeps_others(f.parameters, key, v, other);
    if key != "width"@ {
        law_entry_set_keeps_others(f.parameters, key, v, "width"@);
    }
    if key != "height"@ {
        law_entry_set_keeps_others(f.parameters, key, v, "height"@);
    }
}

/// `frame-parameter` gives what `modify-frame-parameters` set.
pub proof fn law_frame_parameter_is_modified(
    st: UiState,
    id: u64,
    f: FrameState,
    key: Seq<char>,
    v: Lisp,
)
    requires
        st.frames.get(id) == Some(f),
        f.id == id,
    ensures
        ({
            let pair = cons(Lisp::Symbol(key), v);
            let t = modify_frame_parameters_step(st, seq![Lisp::Frame(id), list1(pair)]);
            let got = frame_parameter_step(t.state, seq![Lisp::Frame(id), Lisp::Symbol(key)]);
            &&& t.end == Outcome::Value(Lisp::Nil)
            &&& got.state == t.state
            &&& got.end == Outcome::Value(parameter_value(frame_modified(f, key, v), key))
        }),
{
    let pair = cons(Lisp::Symbol(key), v);
    let x = seq![Lisp::Frame(id), list1(pair)];
    let y = seq![Lisp::Frame(id), Lisp::Symbol(key)];
    assert(x.len() == 2 && x[0] == Lisp::Frame(id) && x[1] == list1(pair));
    assert(y.len() == 2 && y[0] == Lisp::Frame(id) && y[1] == Lisp::Symbol(key));
    reveal_with_fuel(list_items, 3);
    let items = seq![pair];
    assert(list_items(list1(pair)) == Some(seq![pair] + Seq::<Lisp>::empty()));
    assert(seq![pair] + Seq::<Lisp>::empty() =~= items);
    assert(items.last() == pair && items.drop_last() =~= Seq::<Lisp>::empty());
    reveal_with_fuel(frame_with_pairs, 2);
    assert(frame_with_pairs(f, items) == frame_modified(f, key, v));
    assert(key.push('-').len() != key.len());
    law_frame_parameter_is_read_back(f, key, v, key.push('-'));
    lemma_frame_replaced(st.frames, id, frame_modified(f, key, v));
}

/// An iconified frame is not visible, and one that was made visible is.
pub proof fn law_visibility_is_set(st: UiState, id: u64, f: FrameState)
    requires
        st.frames.get(id) == Some(f),
        f.id == id,
    ensures
        ({
            let a = seq![Lisp::Frame(id)];
            let away = iconify_frame_step(st, a);
            let back = make_frame_visible_step(st, a);
            &&& frame_visible_p_end(away.state.frames, a) == Outcome::Value(Lisp::Nil)
            &&& frame_visible_p_end(back.state.frames, a) == Outcome::Value(Lisp::True)
            &&& back.end == Outcome::Value(Lisp::Frame(id))
            &&& make_frame_visible_step(away.state, a).state.frames.get(id) == Some(
                FrameState { visible: true, ..f },
            )
        }),
{
    let a = seq![Lisp::Frame(id)];
    assert(a.len() == 1 && a[0] == Lisp::Frame(id));
    let off = FrameState { visible: false, ..f };
    let on = FrameState { visible: true, ..f };
    lemma_frame_replaced(st.frames, id, off);
    lemma_frame_replaced(st.frames, id, on);
    let away = iconify_frame_step(st, a);
    assert(away.state.frames.get(id) == Some(off));
    lemma_frame_replaced(away.state.frames, id, on);
}

/// A frame that was selected is the selected one.
pub proof fn law_selected_frame_is_read_back(
    st: UiState,
    name: Seq<char>,
    id: u64,
    norecord: Lisp,
    shown: bool,
)
    requires
        st.frames.get(id) is Some,
    ensures
        ({
            let t = select_frame_step(st, name, seq![Lisp::Frame(id), norecord], shown);
            &&& selected_frame_step(t.state, seq![]).end == Outcome::Value(Lisp::Frame(id))
            &&& t.state.frames.list == st.frames.list
            &&& t.end == Outcome::Value(
                if shown {
                    Lisp::Frame(id)
                } else {
                    Lisp::Nil
                },
            )
        }),
{
    let a = seq![Lisp::Frame(id), norecord];
    let z = Seq::<Lisp>::empty();
    assert(a.len() == 2 && a[0] == Lisp::Frame(id) && a[1] == norecord && z.len() == 0);
    lemma_frame_index(st.frames.list, id);
    let t = select_frame_step(st, name, a, shown);
    assert(t.state.frames.list == st.frames.list);
    assert(t.state.frames.selected == Some(id));
}

/// The last parameter of a kind is the one that a new frame gets.
pub proof fn law_last_parameter_counts(items: Seq<Lisp>, n: i64, name: Lisp)
    requires
        0 <= n <= u32::MAX,
        name is Str,
    ensures
        ({
            let d = default_new_frame();
            let before = new_frame_of(d, items);
            let wide = new_frame_of(d, items.push(cons(Lisp::Symbol("width"@), Lisp::Int(n))));
            let high = new_frame_of(d, items.push(cons(Lisp::Symbol("height"@), Lisp::Int(n))));
            let named = new_frame_of(d, items.push(cons(Lisp::Symbol("name"@), name)));
            &&& wide.width == n && wide.height == before.height && wide.name == before.name
            &&& high.height == n && high.width == before.width && high.name == before.name
            &&& named.name == bare_string(name) && named.width == before.width && named.height
                == before.height
        }),
{
    lemma_size_names();
    let d = default_new_frame();
    let a = cons(Lisp::Symbol("width"@), Lisp::Int(n));
    let b = cons(Lisp::Symbol("height"@), Lisp::Int(n));
    let c = cons(Lisp::Symbol("name"@), name);
    assert(items.push(a).drop_last() =~= items && items.push(a).last() == a);
    assert(items.push(b).drop_last() =~= items && items.push(b).last() == b);
    assert(items.push(c).drop_last() =~= items && items.push(c).last() == c);
    assert(n as int % 0x1_0000_0000 == n) by {
        vstd::arithmetic::div_mod::lemma_small_mod(n as nat, 0x1_0000_0000);
    }
}

/// `make-frame` adds one frame, with the size and the name that are asked for, and leaves
/// the others.
pub proof fn law_new_frame_is_added(st: UiState, a: Lisp)
    requires
        st.frames.selected is Some,
    ensures
        ({
            let t = make_frame_step(st, seq![a]);
            let list = t.state.frames.list;
            let n = requested_frame(a);
            &&& list.len() == st.frames.list.len() + 1
            &&& list.drop_last() == st.frames.list
            &&& t.end == Outcome::Value(Lisp::Frame(list.last().id))
            &&& list.last().name == n.name && list.last().width == n.width && list.last().height
                == n.height
            &&& t.state.frames.selected == st.frames.selected
            &&& t.state.buffers == st.buffers
        }),
{
    let x = seq![a];
    assert(x.len() == 1 && x[0] == a);
    let t = make_frame_step(st, x);
    assert(t.state.frames.list.drop_last() =~= st.frames.list);
}

} // verus!
