//! Where windows are, how large they are, and which of them are listed.
use crate::frame::{cells, FrameState};
use crate::value::{list4, list_of, Lisp, Outcome};
use crate::window::{find, inside, leaf_at, leaf_ids, Combination, Leaf, Window, Windows};
use crate::window_cmds::geometry::{
    body_height, body_width, edges, measured, normal_ratio, window_mode_line_height_step, Measure,
};
use crate::window_cmds::laws::{
    has_combination, law_listed_window_is_live, lemma_found_is_somewhere, sound,
};
use crate::window_cmds::listing::{
    distinct, first_showing, get_buffer_window_step, place_of, stepped, turned_to, walk, walk_order,
    window_at, window_list_1_step, window_list_step, window_values,
};
use crate::window_cmds::order::well_formed;
use crate::window_cmds::resolve::{after, window_arg, Found};
use crate::window_cmds::state::{booted, UiState};
use crate::window_cmds::step_laws::roomy;
use vstd::prelude::*;

verus! {

proof fn lemma_cells(length: int, size: u32)
    requires
        size > 0,
        length >= 0,
    ensures
        cells(length, size) * size <= length < (cells(length, size) + 1) * size,
        cells(length, size) >= 0,
        length <= u32::MAX ==> cells(length, size) <= u32::MAX,
{
    let u = size as int;
    let q = length / u;
    vstd::arithmetic::div_mod::lemma_fundamental_div_mod(length, u);
    vstd::arithmetic::div_mod::lemma_mod_bound(length, u);
    assert(u * q == q * u && (q + 1) * u == q * u + u) by (nonlinear_arith);
    assert(q >= 0 && q <= length) by (nonlinear_arith)
        requires
            u * q <= length < u * q + u,
            u >= 1,
            length >= 0,
    ;
}

/// A window is as many columns wide and lines high as whole cells fit into it, and begins
/// at the cell in which its first corner lies.
pub proof fn law_window_is_counted_in_cells(m: Measure)
    requires
        m.char_width > 0,
        m.char_height > 0,
    ensures
        m.columns() * m.char_width <= m.rect.width < (m.columns() + 1) * m.char_width,
        m.lines() * m.char_height <= m.rect.height < (m.lines() + 1) * m.char_height,
        m.left() * m.char_width <= m.rect.x < (m.left() + 1) * m.char_width,
        m.top() * m.char_height <= m.rect.y < (m.top() + 1) * m.char_height,
        m.pixels ==> m.pixel_width() == m.rect.width && m.pixel_height() == m.rect.height,
        !m.pixels ==> m.pixel_width() == m.columns() && m.pixel_height() == m.lines(),
{
    lemma_cells(m.rect.width as int, m.char_width);
    lemma_cells(m.rect.height as int, m.char_height);
    lemma_cells(m.rect.x as int, m.char_width);
    lemma_cells(m.rect.y as int, m.char_height);
}

/// The body of a window is as high as the window without its mode line, in lines and in
/// pixels, and as wide as the window.
pub proof fn law_mode_line_takes_rest(
    st: UiState,
    a: Lisp,
    total: i64,
    mode_line: i64,
    columns: i64,
)
    requires
        well_formed(st.frames),
        roomy(st.frames),
        measured(
            st,
            "window-total-height"@,
            seq![a],
            2,
            "window-valid-p"@,
            |m: Measure| m.lines(),
        ).end == Outcome::Value(Lisp::Int(total)),
        measured(
            st,
            "window-total-width"@,
            seq![a],
            2,
            "window-valid-p"@,
            |m: Measure| m.columns(),
        ).end == Outcome::Value(Lisp::Int(columns)),
        window_mode_line_height_step(st, seq![a]).end == Outcome::Value(Lisp::Int(mode_line)),
        window_arg(booted(st), a, "window-valid-p"@) == window_arg(booted(st), a, "window-live-p"@),
        window_arg(booted(st), a, "window-live-p"@) matches Found::Is((f, w)) && after(
            booted(st),
            a,
        ).frames.get(f)->0.char_height > 0,
    ensures
        measured(
            st,
            "window-body-height"@,
            seq![a],
            2,
            "window-live-p"@,
            body_height(seq![a]),
        ).end == Outcome::Value(Lisp::Int((total - mode_line) as i64)),
        measured(
            st,
            "window-body-width"@,
            seq![a],
            2,
            "window-live-p"@,
            body_width(seq![a]),
        ).end == Outcome::Value(Lisp::Int(columns)),
{
    let x = seq![a];
    assert(x.len() == 1 && x[0] == a);
    match window_arg(booted(st), a, "window-live-p"@) {
        Found::Is((f, w)) => {
            let s = after(booted(st), a);
            let frame = s.frames.get(f)->0;
            match frame.window(w) {
                Some(v) => {
                    lemma_cells(v.rect().height as int, frame.char_height);
                },
                None => {},
            }
        },
        Found::Signal(_) => {},
    }
}

/// The edges of a window are as far apart as it is wide and high. Those of its body leave
/// the mode line out at the bottom. For a window of whole cells the edges in cells are
/// those in pixels by the size of a cell.
pub proof fn law_edges_are_as_far_apart(m: Measure, x: int, y: int, w: int, h: int)
    requires
        m.char_width > 0,
        m.char_height > 0,
        m.rect.x == x * m.char_width,
        m.rect.y == y * m.char_height,
        m.rect.width == w * m.char_width,
        m.rect.height == h * m.char_height,
        0 <= x,
        0 <= y,
        0 <= w,
        0 <= h,
    ensures
        edges(m, false, true) == list4(
            Lisp::Int(m.rect.x as i64),
            Lisp::Int(m.rect.y as i64),
            Lisp::Int((m.rect.x + m.rect.width) as i64),
            Lisp::Int((m.rect.y + m.rect.height) as i64),
        ),
        edges(m, false, false) == list4(
            Lisp::Int(x as i64),
            Lisp::Int(y as i64),
            Lisp::Int((x + w) as i64),
            Lisp::Int((y + h) as i64),
        ),
        m.minibuffer ==> edges(m, true, true) == edges(m, false, true) && edges(m, true, false)
            == edges(m, false, false),
        !m.minibuffer ==> edges(m, true, true) == list4(
            Lisp::Int(m.rect.x as i64),
            Lisp::Int(m.rect.y as i64),
            Lisp::Int((m.rect.x + m.rect.width) as i64),
            Lisp::Int((m.rect.y + m.rect.height - m.char_height) as i64),
        ) && edges(m, true, false) == list4(
            Lisp::Int(x as i64),
            Lisp::Int(y as i64),
            Lisp::Int((x + w) as i64),
            Lisp::Int((y + h - 1) as i64),
        ),
        m.columns() == w && m.lines() == h,
{
    let u = m.char_width as int;
    let v = m.char_height as int;
    assert(x * u + w * u == (x + w) * u) by (nonlinear_arith);
    assert(y * v + h * v == (y + h) * v) by (nonlinear_arith);
    vstd::arithmetic::div_mod::lemma_div_by_multiple(x, u);
    vstd::arithmetic::div_mod::lemma_div_by_multiple(y, v);
    vstd::arithmetic::div_mod::lemma_div_by_multiple(w, u);
    vstd::arithmetic::div_mod::lemma_div_by_multiple(h, v);
    vstd::arithmetic::div_mod::lemma_div_by_multiple(x + w, u);
    vstd::arithmetic::div_mod::lemma_div_by_multiple(y + h, v);
}

/// The normal sizes of windows that share a combination between them add up to one along
/// it, and each has all of it across.
pub proof fn law_normal_sizes_add_up(a: Window, b: Window, c: Combination)
    requires
        c.direction is Horizontal ==> a.rect().width + b.rect().width == c.bounds.width > 0,
        c.direction is Vertical ==> a.rect().height + b.rect().height == c.bounds.height > 0,
    ensures
        ({
            let along = c.direction is Horizontal;
            let m = normal_ratio(a, Window::Internal(c), along);
            let n = normal_ratio(b, Window::Internal(c), along);
            let across = normal_ratio(a, Window::Internal(c), !along);
            &&& m.whole == n.whole && m.part + n.part == m.whole
            &&& across.part == across.whole
            &&& along ==> m.part == a.rect().width
            &&& !along ==> m.part == a.rect().height
        }),
{
}

/// Without arguments `window-list` lists the live windows of the selected frame but the
/// minibuffer, each once; with `t` the minibuffer comes last.
pub proof fn law_live_windows_are_listed(st: UiState, f: FrameState, x: u64)
    requires
        st.frames.selected_frame() == Some(f),
        st.frames.get(f.id) == Some(f),
        sound(f),
    ensures
        ({
            let ids = leaf_ids(f.root);
            &&& window_list_step(st, seq![]).end == Outcome::Value(list_of(window_values(ids)))
            &&& window_list_step(st, seq![]).state == st
            &&& ids.no_duplicates()
            &&& ids.contains(x) <==> (find(f.root, x) matches Some(Window::Leaf(_)))
            &&& f.minibuffer_window matches Some(w) ==> window_list_step(
                st,
                seq![Lisp::Nil, Lisp::True],
            ).end == Outcome::Value(list_of(window_values(ids.push(w))))
        }),
{
    let z = Seq::<Lisp>::empty();
    let y = seq![Lisp::Nil, Lisp::True];
    assert(z.len() == 0 && y.len() == 2 && y[0] == Lisp::Nil && y[1] == Lisp::True);
    if leaf_ids(f.root).contains(x) {
        assert(!has_combination(f.root, x));
        law_listed_window_is_live(f.root, x);
    }
    lemma_found_is_somewhere(f.root, x);
}

proof fn lemma_distinct_same(s: Seq<u64>)
    requires
        s.no_duplicates(),
    ensures
        distinct(s) == s,
    decreases s.len(),
{
    if s.len() > 0 {
        let t = s.drop_last();
        assert forall|i: int, j: int| 0 <= i < t.len() && 0 <= j < t.len() && i != j implies t[i]
            != t[j] by {
            assert(s[i] != s[j]);
        }
        lemma_distinct_same(t);
        if t.contains(s.last()) {
            let i = choose|i: int| 0 <= i < t.len() && t[i] == s.last();
            assert(s[i] != s[s.len() - 1]);
        }
        assert(t.push(s.last()) =~= s);
    }
}

/// A window is listed once, and every one that is walked is listed.
pub proof fn law_windows_are_listed_once(s: Seq<u64>, x: u64)
    ensures
        distinct(s).no_duplicates(),
        distinct(s).contains(x) <==> s.contains(x),
    decreases s.len(),
{
    if s.len() > 0 {
        let t = s.drop_last();
        let d = distinct(t);
        law_windows_are_listed_once(t, x);
        law_windows_are_listed_once(t, s.last());
        let e = distinct(s);
        if s.contains(x) {
            let i = choose|i: int| 0 <= i < s.len() && s[i] == x;
            if i < t.len() {
                assert(t[i] == x);
                let j = choose|j: int| 0 <= j < d.len() && d[j] == x;
                assert(e[j] == x);
            } else if !d.contains(s.last()) {
                assert(e[e.len() - 1] == x);
            }
        }
        if e.contains(x) {
            let j = choose|j: int| 0 <= j < e.len() && e[j] == x;
            if j < d.len() {
                assert(d[j] == x);
                let i = choose|i: int| 0 <= i < t.len() && t[i] == x;
                assert(s[i] == x);
            } else {
                assert(s[s.len() - 1] == x);
            }
        }
        if !d.contains(s.last()) {
            assert forall|i: int, j: int|
                0 <= i < e.len() && 0 <= j < e.len() && i != j implies e[i] != e[j] by {
                if i == d.len() {
                    assert(d.contains(d[j]));
                } else if j == d.len() {
                    assert(d.contains(d[i]));
                }
            }
        }
    }
}

proof fn lemma_turned(s: Seq<u64>, i: int)
    requires
        s.no_duplicates(),
        0 <= i < s.len(),
    ensures
        place_of(s, s[i]) == i,
        turned_to(s, s[i]) == s.skip(i) + s.take(i),
        turned_to(s, s[i]).no_duplicates(),
{
    crate::window_cmds::laws::lemma_place(s, i);
    let t = s.skip(i) + s.take(i);
    assert forall|j: int, k: int| 0 <= j < t.len() && 0 <= k < t.len() && j != k implies t[j]
        != t[k] by {
        let n = s.len() as int;
        let a = if j < n - i {
            j + i
        } else {
            j + i - n
        };
        let b = if k < n - i {
            k + i
        } else {
            k + i - n
        };
        assert(t[j] == s[a] && t[k] == s[b] && a != b);
    }
}

/// `window-list-1` begins with the window that it is asked for, and goes on in the order of
/// `next-window`.
pub proof fn law_windows_are_listed_in_turn(
    st: UiState,
    f: u64,
    w: u64,
    frame: FrameState,
    i: int,
    k: int,
)
    requires
        st.frames.selected_frame() is Some,
        st.frames.frame_of_live(w) == Some(f),
        st.frames.get(f) == Some(frame),
        leaf_ids(frame.root).no_duplicates(),
        0 <= i < leaf_ids(frame.root).len(),
        leaf_ids(frame.root)[i] == w,
        0 <= k < leaf_ids(frame.root).len(),
    ensures
        ({
            let ids = leaf_ids(frame.root);
            let list = turned_to(ids, w);
            &&& window_list_1_step(st, seq![Lisp::Window(w)]).end == Outcome::Value(
                list_of(window_values(list)),
            )
            &&& list.len() == ids.len()
            &&& list[0] == w
            &&& list[k] == stepped(ids, w, k)
        }),
{
    let ids = leaf_ids(frame.root);
    let n = ids.len() as int;
    lemma_turned(ids, i);
    let list = turned_to(ids, w);
    lemma_distinct_same(list);
    let args = seq![Lisp::Window(w)];
    assert(args.len() == 1 && args[0] == Lisp::Window(w));
    let own = seq![f];
    crate::window_cmds::laws::lemma_place(own, 0);
    assert(walk_order(own, f) =~= own);
    assert(own.last() == f && own.drop_last() =~= Seq::<u64>::empty());
    reveal_with_fuel(walk, 2);
    assert(walk(st.frames, own, f, w, false) =~= list);
    assert(list[0] == w);
    if i + k < n {
        assert((i + k) % n == i + k) by {
            vstd::arithmetic::div_mod::lemma_small_mod((i + k) as nat, n as nat);
        }
    } else {
        assert((i + k) % n == i + k - n) by {
            vstd::arithmetic::div_mod::lemma_mod_sub_multiples_vanish(i + k, n);
            vstd::arithmetic::div_mod::lemma_small_mod((i + k - n) as nat, n as nat);
        }
    }
}

proof fn lemma_first_showing(f: FrameState, ids: Seq<u64>, buffer: u64)
    ensures
        first_showing(f, ids, buffer) matches Some(w) ==> f.window_buffer(w) == Some(buffer)
            && ids.contains(w),
        first_showing(f, ids, buffer) is None ==> forall|x: u64|
            ids.contains(x) ==> #[trigger] f.window_buffer(x) != Some(buffer),
    decreases ids.len(),
{
    if ids.len() > 0 {
        let t = ids.drop_first();
        lemma_first_showing(f, t, buffer);
        assert(ids.contains(ids[0]));
        assert forall|x: u64| ids.contains(x) && x != ids[0] implies t.contains(x) by {
            let i = choose|i: int| 0 <= i < ids.len() && ids[i] == x;
            assert(t[i - 1] == x);
        }
        assert forall|x: u64| t.contains(x) implies ids.contains(x) by {
            let i = choose|i: int| 0 <= i < t.len() && t[i] == x;
            assert(ids[i + 1] == x);
        }
    }
}

/// `get-buffer-window` gives a window of the selected frame that shows the buffer, or nil
/// where none does.
pub proof fn law_window_shows_buffer(st: UiState, f: FrameState, buffer: u64)
    requires
        st.frames.selected_frame() == Some(f),
        st.frames.get(f.id) == Some(f),
        st.buffers.get(buffer) is Some,
    ensures
        ({
            let t = get_buffer_window_step(st, seq![Lisp::Buffer(buffer)]);
            &&& t.state == st
            &&& t.end == Outcome::Value(Lisp::Nil) || (t.end matches Outcome::Value(
                Lisp::Window(w),
            ) && f.window_buffer(w) == Some(buffer) && leaf_ids(f.root).contains(w))
            &&& t.end == Outcome::Value(Lisp::Nil) ==> forall|x: u64|
                leaf_ids(f.root).contains(x) ==> #[trigger] f.window_buffer(x) != Some(buffer)
        }),
{
    let args = seq![Lisp::Buffer(buffer)];
    assert(args.len() == 1 && args[0] == Lisp::Buffer(buffer));
    lemma_first_showing(f, leaf_ids(f.root), buffer);
}

proof fn lemma_leaf_at(w: Windows, px: int, py: int)
    requires
        leaf_ids(w).no_duplicates(),
        forall|x: u64| leaf_ids(w).contains(x) ==> !#[trigger] has_combination(w, x),
    ensures
        leaf_at(w, px, py) matches Some(x) ==> (find(w, x) matches Some(Window::Leaf(l)) && inside(
            l.bounds,
            px,
            py,
        )),
    decreases w,
{
    match w {
        Windows::Empty => {},
        Windows::Leaf(l, next) => {
            let ids = leaf_ids(w);
            let rest = leaf_ids(*next);
            assert(ids =~= seq![l.id] + rest);
            assert(ids[0] == l.id);
            assert forall|i: int, j: int| 0 <= i < rest.len() && 0 <= j < rest.len() && i
                != j implies rest[i] != rest[j] by {
                assert(ids[i + 1] == rest[i] && ids[j + 1] == rest[j]);
            }
            assert forall|x: u64| rest.contains(x) implies !#[trigger] has_combination(*next, x)
                && x != l.id by {
                let i = choose|i: int| 0 <= i < rest.len() && rest[i] == x;
                assert(ids[i + 1] == x);
                assert(ids.contains(x));
                assert(!has_combination(w, x));
            }
            lemma_leaf_at(*next, px, py);
            match leaf_at(*next, px, py) {
                Some(x) => {
                    lemma_found_is_somewhere(*next, x);
                    assert(rest.contains(x));
                    assert(!has_combination(*next, x));
                },
                None => {},
            }
        },
        Windows::Internal(c, child, next) => {
            let ids = leaf_ids(w);
            let a = leaf_ids(*child);
            let b = leaf_ids(*next);
            assert(ids =~= a + b);
            crate::tiling::lemma_distinct_parts(a, b);
            assert forall|x: u64| a.contains(x) implies !#[trigger] has_combination(*child, x) by {
                assert((a + b).contains(x));
                assert(!has_combination(w, x));
            }
            assert forall|x: u64| b.contains(x) implies !#[trigger] has_combination(*next, x) by {
                assert((a + b).contains(x));
                assert(!has_combination(w, x));
            }
            lemma_leaf_at(*child, px, py);
            lemma_leaf_at(*next, px, py);
            match leaf_at(*child, px, py) {
                Some(x) => {
                    lemma_found_is_somewhere(*child, x);
                    assert(a.contains(x) && (a + b).contains(x));
                    assert(!has_combination(w, x));
                },
                None => match leaf_at(*next, px, py) {
                    Some(x) => {
                        lemma_found_is_somewhere(*next, x);
                        assert(b.contains(x) && (a + b).contains(x));
                        assert(!has_combination(w, x));
                        lemma_found_is_somewhere(*child, x);
                    },
                    None => {},
                },
            }
        },
    }
}

/// The window at a cell of a frame has the cell inside it.
pub proof fn law_window_at_cell_holds_it(f: FrameState, x: i64, y: i64)
    requires
        sound(f),
        0 <= x <= u32::MAX,
        0 <= y <= u32::MAX,
    ensures
        ({
            let px = x * f.char_width;
            let py = y * f.char_height;
            let there = window_at(f, Lisp::Int(x), Lisp::Int(y));
            &&& there == Lisp::Nil || there is Window
            &&& x >= f.total_cols() || y >= f.total_lines() ==> there == Lisp::Nil
            &&& there matches Lisp::Window(w) ==> {
                ||| (find(f.root, w) matches Some(Window::Leaf(l)) && inside(l.bounds, px, py))
                ||| f.minibuffer_window == Some(w) && (f.minibuffer_leaf matches Some(l)
                    && inside(l.bounds, px, py))
            }
        }),
        forall|n: i64|
            n < 0 ==> #[trigger] window_at(f, Lisp::Int(n), Lisp::Int(y)) == Lisp::Nil && window_at(
                f,
                Lisp::Int(x),
                Lisp::Int(n),
            ) == Lisp::Nil,
{
    let px = x * f.char_width;
    let py = y * f.char_height;
    assert(0 <= px <= u64::MAX) by (nonlinear_arith)
        requires
            0 <= x <= u32::MAX,
            px == x * f.char_width,
    ;
    assert(0 <= py <= u64::MAX) by (nonlinear_arith)
        requires
            0 <= y <= u32::MAX,
            py == y * f.char_height,
    ;
    lemma_leaf_at(f.root, px, py);
}

} // verus!
