//! Where scrolling takes point, and where recentering takes the window.
use crate::buffer::{min2, BufferState};
use crate::encoding::region_laws::lemma_buffer_replaced;
use crate::frame::lemma_frame_index;
use crate::symbol::Symbols;
use crate::value::{Lisp, Outcome};
use crate::window::{Leaf, Window};
use crate::window_cmds::geometry::{body_height, measured};
use crate::window_cmds::laws::law_window_is_read_back;
use crate::window_cmds::order::well_formed;
use crate::window_cmds::scroll::{
    line_begin, lines_down, lines_up, next_line, recenter_step, recentered_offset, region_end,
    region_offset, scroll_down_step, scroll_up_step,
};
use crate::window_cmds::resolve::{window_arg, Found};
use crate::window_cmds::state::{booted, Step, UiState};
use crate::window_cmds::step_laws::lemma_resolved;
use crate::xdisp::point_laws::law_offset_of_position;
use vstd::prelude::*;

verus! {

/// How many lines end in a part of a text.
pub open spec fn breaks(text: Seq<u8>, from: int, to: int) -> int
    decreases to - from,
{
    if from >= to {
        0
    } else {
        breaks(text, from, to - 1) + (if text[to - 1] == 10 {
            1int
        } else {
            0
        })
    }
}

/// Whether a line begins at an offset of a text whose first accessible offset is given.
pub open spec fn begins_line(text: Seq<u8>, at: int, first: int) -> bool {
    at == first || text[at - 1] == 10
}

proof fn lemma_breaks(text: Seq<u8>, from: int, mid: int, to: int)
    requires
        from <= mid <= to,
    ensures
        breaks(text, from, to) == breaks(text, from, mid) + breaks(text, mid, to),
        breaks(text, from, mid) >= 0,
    decreases to - from,
{
    if mid < to {
        lemma_breaks(text, from, mid, to - 1);
    } else if from < mid {
        lemma_breaks(text, from, mid - 1, mid - 1);
    }
}

proof fn lemma_next_line(text: Seq<u8>, pos: int, limit: int)
    requires
        0 <= pos < limit <= text.len(),
    ensures
        ({
            let r = next_line(text, pos, limit);
            &&& pos < r <= limit
            &&& breaks(text, pos, r - 1) == 0
            &&& text[r - 1] == 10 || r == limit
        }),
    decreases limit - pos,
{
    if text[pos] != 10 {
        if pos + 1 < limit {
            lemma_next_line(text, pos + 1, limit);
            let r = next_line(text, pos, limit);
            lemma_breaks(text, pos, pos + 1, r - 1);
            assert(breaks(text, pos, pos + 1) == 0) by {
                reveal_with_fuel(breaks, 2);
            }
        } else {
            assert(next_line(text, pos + 1, limit) == pos + 1);
        }
    }
}

/// Going down passes as many line ends as it is told to, unless the limit comes first.
pub proof fn law_going_down_passes_lines(text: Seq<u8>, pos: int, limit: int, n: int)
    requires
        0 <= pos <= limit <= text.len(),
        0 <= n,
    ensures
        ({
            let r = lines_down(text, pos, limit, n);
            &&& pos <= r <= limit
            &&& 0 < n && pos < limit ==> pos < r
            &&& breaks(text, pos, r) <= n
            &&& breaks(text, pos, r) < n ==> r == limit
            &&& r < limit && 0 < n ==> text[r - 1] == 10
            &&& n == 0 ==> r == pos
        }),
    decreases n,
{
    if n > 0 && pos < limit {
        lemma_next_line(text, pos, limit);
        let q = next_line(text, pos, limit);
        let r = lines_down(text, pos, limit, n);
        law_going_down_passes_lines(text, q, limit, n - 1);
        lemma_breaks(text, pos, q, r);
        lemma_breaks(text, pos, q - 1, q);
        if r < limit && n == 1 {
            assert(r == q);
        }
    }
}

proof fn lemma_line_begin(text: Seq<u8>, pos: int, first: int)
    requires
        0 <= first <= pos <= text.len(),
    ensures
        ({
            let r = line_begin(text, pos, first);
            &&& first <= r <= pos
            &&& breaks(text, r, pos) == 0
            &&& begins_line(text, r, first)
        }),
    decreases pos,
{
    if first < pos && text[pos - 1] != 10 {
        lemma_line_begin(text, pos - 1, first);
    }
}

/// Going up from where a line begins passes as many line ends as it is told to, and
/// comes to where a line begins, unless the first offset comes before.
pub proof fn law_going_up_passes_lines(text: Seq<u8>, pos: int, first: int, n: int)
    requires
        0 <= first <= pos <= text.len(),
        begins_line(text, pos, first),
        0 <= n,
    ensures
        ({
            let r = lines_up(text, pos, first, n);
            &&& first <= r <= pos
            &&& begins_line(text, r, first)
            &&& breaks(text, r, pos) <= n
            &&& breaks(text, r, pos) < n ==> r == first
        }),
    decreases n,
{
    if n > 0 && first < pos {
        lemma_line_begin(text, pos - 1, first);
        let q = line_begin(text, pos - 1, first);
        let r = lines_up(text, pos, first, n);
        law_going_up_passes_lines(text, q, first, n - 1);
        lemma_breaks(text, r, q, pos);
        assert(breaks(text, q, pos) == 1);
    }
}

/// A session whose selected window shows a buffer.
pub open spec fn shows(st: UiState, f: u64, w: u64, l: Leaf, b: BufferState) -> bool {
    &&& well_formed(st.frames)
    &&& st.frames.selected == Some(f)
    &&& st.frames.get(f) matches Some(g) && g.selected_window == w
    &&& st.frames.window(f, w) == Some(Window::Leaf(l))
    &&& st.buffers.get(l.buffer_id) == Some(b)
    &&& b.wf()
    &&& b.text.len() < usize::MAX
}

/// A session in which the point of a window and of its buffer are at an offset, and all
/// else of the two is as it was.
pub open spec fn point_is_at(
    t: UiState,
    f: u64,
    w: u64,
    l: Leaf,
    b: BufferState,
    offset: int,
) -> bool {
    &&& t.buffers.get(l.buffer_id) == Some(BufferState { pt: offset, ..b })
    &&& t.frames.window(f, w) == Some(
        Window::Leaf(Leaf { point: (b.chars_before(offset) + 1) as usize, ..l }),
    )
}

pub(crate) proof fn lemma_shown(st: UiState, f: u64, w: u64, l: Leaf, b: BufferState)
    requires
        shows(st, f, w, l, b),
    ensures
        st.frames.selected_frame() is Some,
        l.id == w,
        b.id == l.buffer_id,
        region_end(b) == b.zv,
        b.begv <= region_offset(b, l.point as i64 as int) <= b.zv,
        booted(st) == st,
        window_arg(st, Lisp::Nil, "window-live-p"@) == Found::Is((f, w)),
{
    lemma_frame_index(st.frames.list, f);
    lemma_resolved(st, Lisp::Nil, f, w);
    lemma_buffer_replaced(st.buffers, l.buffer_id, BufferState { id: l.buffer_id, ..b }, 0);
}

proof fn lemma_point_moved(st: UiState, f: u64, w: u64, l: Leaf, b: BufferState, offset: int)
    requires
        shows(st, f, w, l, b),
        b.begv <= offset <= b.zv,
    ensures
        point_is_at(crate::window_cmds::scroll::point_moved(st, f, w, l.buffer_id, offset),
            f,
            w,
            l,
            b,
            offset,
        ),
{
    lemma_shown(st, f, w, l, b);
    let new = Leaf { point: (b.chars_before(offset) + 1) as usize, ..l };
    law_window_is_read_back(st.frames, f, w, new);
    lemma_buffer_replaced(st.buffers, l.buffer_id, BufferState { pt: offset, ..b }, 0);
}

/// `scroll-up` with a positive number takes point down by that many lines, to the
/// beginning of one, or to the end of the buffer where it has fewer. At the end it raises
/// `end-of-buffer` and nothing changes.
pub proof fn law_scrolling_up_goes_down(
    st: UiState,
    symbols: Symbols,
    name: Seq<char>,
    n: i64,
    f: u64,
    w: u64,
    l: Leaf,
    b: BufferState,
)
    requires
        shows(st, f, w, l, b),
        0 < n,
    ensures
        ({
            let from = region_offset(b, l.point as i64 as int);
            let t = scroll_up_step(st, symbols, name, seq![Lisp::Int(n)]);
            &&& from == b.zv ==> t.end == Outcome::Signal("end-of-buffer"@, Lisp::Nil) && t.state
                == st
            &&& from < b.zv ==> t.end == Outcome::Value(Lisp::Nil) && exists|to: int|
                from < to <= b.zv && #[trigger] point_is_at(t.state, f, w, l, b, to) && breaks(
                    b.text,
                    from,
                    to,
                ) <= n && (to < b.zv ==> breaks(b.text, from, to) == n && b.text[to - 1] == 10)
        }),
{
    lemma_shown(st, f, w, l, b);
    let from = region_offset(b, l.point as i64 as int);
    let args = seq![Lisp::Int(n)];
    assert(args.len() == 1 && args[0] == Lisp::Int(n));
    if from < b.zv {
        law_going_down_passes_lines(b.text, from, b.zv, n as int);
        let to = lines_down(b.text, from, b.zv, n as int);
        lemma_point_moved(st, f, w, l, b, to);
        let t = scroll_up_step(st, symbols, name, args);
        assert(point_is_at(t.state, f, w, l, b, to));
    }
}

/// `scroll-down` with a number that is not negative takes point to the beginning of the
/// line that is so many lines further up, or to the beginning of the buffer where it has
/// fewer. At the beginning it raises `beginning-of-buffer` and nothing changes.
pub proof fn law_scrolling_down_goes_up(
    st: UiState,
    symbols: Symbols,
    name: Seq<char>,
    n: i64,
    f: u64,
    w: u64,
    l: Leaf,
    b: BufferState,
)
    requires
        shows(st, f, w, l, b),
        0 <= n,
    ensures
        ({
            let from = region_offset(b, l.point as i64 as int);
            let t = scroll_down_step(st, symbols, name, seq![Lisp::Int(n)]);
            &&& from == b.begv ==> t.end == Outcome::Signal("beginning-of-buffer"@, Lisp::Nil)
                && t.state == st
            &&& from > b.begv ==> t.end == Outcome::Value(Lisp::Nil) && exists|to: int|
                b.begv <= to <= from && #[trigger] point_is_at(t.state, f, w, l, b, to)
                    && begins_line(b.text, to, b.begv) && breaks(b.text, to, from) <= n && (b.begv
                    < to ==> breaks(b.text, to, from) == n)
        }),
{
    lemma_shown(st, f, w, l, b);
    let from = region_offset(b, l.point as i64 as int);
    let args = seq![Lisp::Int(n)];
    assert(args.len() == 1 && args[0] == Lisp::Int(n));
    if from > b.begv {
        lemma_line_begin(b.text, from, b.begv);
        let begin = line_begin(b.text, from, b.begv);
        law_going_up_passes_lines(b.text, begin, b.begv, n as int);
        let to = lines_up(b.text, begin, b.begv, n as int);
        lemma_breaks(b.text, to, begin, from);
        lemma_point_moved(st, f, w, l, b, to);
        let t = scroll_down_step(st, symbols, name, args);
        assert(point_is_at(t.state, f, w, l, b, to));
    }
}

/// Scrolling one way by a number is scrolling the other way by the opposite number, and
/// anything but a number or `nil` stands for one line.
pub proof fn law_scrolling_ways_are_opposite(
    st: UiState,
    symbols: Symbols,
    name: Seq<char>,
    n: i64,
    a: Lisp,
)
    requires
        n > i64::MIN,
        a !is Int,
        a != Lisp::Nil,
    ensures
        scroll_down_step(st, symbols, name, seq![Lisp::Int(n)]) == scroll_up_step(
            st,
            symbols,
            name,
            seq![Lisp::Int((-n) as i64)],
        ),
        scroll_up_step(st, symbols, name, seq![a]) == scroll_up_step(
            st,
            symbols,
            name,
            seq![Lisp::Int(1)],
        ),
        scroll_down_step(st, symbols, name, seq![a]) == scroll_down_step(
            st,
            symbols,
            name,
            seq![Lisp::Int(1)],
        ),
{
    let x = seq![Lisp::Int(n)];
    let y = seq![Lisp::Int((-n) as i64)];
    let z = seq![a];
    let o = seq![Lisp::Int(1)];
    assert(x.len() == 1 && x[0] == Lisp::Int(n) && y.len() == 1 && y[0] == Lisp::Int((-n) as i64));
    assert(z.len() == 1 && z[0] == a && o.len() == 1 && o[0] == Lisp::Int(1));
}

/// What `window-body-height` does without arguments.
pub open spec fn own_height(st: UiState) -> Step {
    measured(
        st,
        "window-body-height"@,
        Seq::empty(),
        2,
        "window-live-p"@,
        body_height(Seq::empty()),
    )
}

/// Without an argument, scrolling goes by what `window-body-height` gives less the lines
/// of context, and by one line at least: `next-screen-context-lines` of them, or two where
/// that variable holds no integer.
pub proof fn law_scrolling_goes_by_height(
    st: UiState,
    symbols: Symbols,
    name: Seq<char>,
    height: i64,
    context: i64,
)
    requires
        own_height(st).end == Outcome::Value(Lisp::Int(height)),
        symbols.value("next-screen-context-lines"@) == Some(Lisp::Int(context)) || (symbols.value(
            "next-screen-context-lines"@,
        ) !is Some || symbols.value("next-screen-context-lines"@)->0 !is Int) && context == 2,
        height - context <= i64::MAX,
    ensures
        ({
            let n = if height - context > 1 {
                height - context
            } else {
                1
            };
            let arg = seq![Lisp::Int(n as i64)];
            let s = own_height(st).state;
            &&& scroll_up_step(st, symbols, name, seq![]) == scroll_up_step(s, symbols, name, arg)
            &&& scroll_down_step(st, symbols, name, seq![]) == scroll_down_step(
                s,
                symbols,
                name,
                arg,
            )
            &&& scroll_up_step(st, symbols, name, seq![Lisp::Nil]) == scroll_up_step(
                st,
                symbols,
                name,
                seq![],
            )
            &&& scroll_down_step(st, symbols, name, seq![Lisp::Nil]) == scroll_down_step(
                st,
                symbols,
                name,
                seq![],
            )
            &&& st.frames.selected_frame() is Some ==> s == st
        }),
{
    let n = if height - context > 1 {
        height - context
    } else {
        1
    };
    let x = seq![Lisp::Int(n as i64)];
    let y = seq![Lisp::Nil];
    let z = Seq::<Lisp>::empty();
    assert(x.len() == 1 && x[0] == Lisp::Int(n as i64) && y.len() == 1 && y[0] == Lisp::Nil);
    assert(z.len() == 0);
}

/// Without an argument, `scroll-up` takes point further down where it is not at the end,
/// and `scroll-down` never takes it further down.
pub proof fn law_scrolling_by_height_has_its_way(
    st: UiState,
    symbols: Symbols,
    name: Seq<char>,
    f: u64,
    w: u64,
    l: Leaf,
    b: BufferState,
)
    requires
        shows(st, f, w, l, b),
    ensures
        ({
            let from = region_offset(b, l.point as i64 as int);
            let up = scroll_up_step(st, symbols, name, seq![]);
            let down = scroll_down_step(st, symbols, name, seq![]);
            &&& from < b.zv ==> up.end == Outcome::Value(Lisp::Nil) && exists|to: int|
                from < to <= b.zv && #[trigger] point_is_at(up.state, f, w, l, b, to)
            &&& from == b.zv ==> up.end == Outcome::Signal("end-of-buffer"@, Lisp::Nil)
            &&& from > b.begv ==> down.end == Outcome::Value(Lisp::Nil) && exists|to: int|
                b.begv <= to <= from && #[trigger] point_is_at(down.state, f, w, l, b, to)
            &&& from == b.begv ==> down.end == Outcome::Signal("beginning-of-buffer"@, Lisp::Nil)
        }),
{
    lemma_shown(st, f, w, l, b);
    let from = region_offset(b, l.point as i64 as int);
    let (s, n) = crate::window_cmds::scroll::scroll_distance(st, symbols, Lisp::Nil);
    assert(s == st && n >= 1);
    let up = scroll_up_step(st, symbols, name, seq![]);
    let down = scroll_down_step(st, symbols, name, seq![]);
    if from < b.zv {
        law_going_down_passes_lines(b.text, from, b.zv, n);
        let to = lines_down(b.text, from, b.zv, n);
        lemma_point_moved(st, f, w, l, b, to);
        assert(point_is_at(up.state, f, w, l, b, to));
    }
    if from > b.begv {
        lemma_line_begin(b.text, from, b.begv);
        let begin = line_begin(b.text, from, b.begv);
        law_going_up_passes_lines(b.text, begin, b.begv, n);
        let to = lines_up(b.text, begin, b.begv, n);
        lemma_point_moved(st, f, w, l, b, to);
        assert(point_is_at(down.state, f, w, l, b, to));
    }
}

/// `recenter` leaves as many lines of the buffer between the start of the window and the
/// line of point as its argument says, or starts at the beginning of the buffer where
/// there are fewer. Point stays.
pub proof fn law_recentering_counts_lines(
    st: UiState,
    name: Seq<char>,
    max: int,
    n: i64,
    f: u64,
    w: u64,
    l: Leaf,
    b: BufferState,
)
    requires
        shows(st, f, w, l, b),
        0 <= n,
        1 <= max,
    ensures
        ({
            let at = region_offset(b, l.point as i64 as int);
            let t = recenter_step(st, name, seq![Lisp::Int(n)], max);
            &&& t.end == Outcome::Value(Lisp::Nil)
            &&& t.state.buffers == st.buffers
            &&& exists|start: int|
                b.begv <= start <= at && t.state.frames.window(f, w) == Some(
                    Window::Leaf(
                        Leaf {
                            window_start: (min2(
                                #[trigger] b.chars_before(start) as int,
                                b.codes().len() as int,
                            ) + 1) as usize,
                            ..l
                        },
                    ),
                ) && begins_line(b.text, start, b.begv) && breaks(b.text, start, at) <= n && (
                b.begv < start ==> breaks(b.text, start, at) == n)
        }),
{
    lemma_shown(st, f, w, l, b);
    let at = region_offset(b, l.point as i64 as int);
    let args = seq![Lisp::Int(n)];
    assert(args.len() == 1 && args[0] == Lisp::Int(n));
    lemma_line_begin(b.text, at, b.begv);
    let begin = line_begin(b.text, at, b.begv);
    law_going_up_passes_lines(b.text, begin, b.begv, n as int);
    let start = lines_up(b.text, begin, b.begv, n as int);
    lemma_breaks(b.text, start, begin, at);
    assert(start == recentered_offset(b, l.point as i64 as int, n as int));
    crate::buffer::lemma_no_more_codes_than_bytes(b.text, b.multibyte);
    crate::buffer::lemma_no_more_codes_than_bytes(b.text.take(start), b.multibyte);
    let new = Leaf {
        window_start: (min2(b.chars_before(start) as int, b.codes().len() as int) + 1) as usize,
        ..l
    };
    law_window_is_read_back(st.frames, f, w, new);
}

/// `recenter` counts negative numbers from the bottom of the window, but not beyond its
/// top, and shows point in the middle for anything but a number.
pub proof fn law_recentering_counts_from_both_ends(
    st: UiState,
    name: Seq<char>,
    max: int,
    n: i64,
    a: Lisp,
    height: i64,
)
    requires
        own_height(st).end == Outcome::Value(Lisp::Int(height)),
        st.frames.selected_frame() is Some,
        0 <= height,
        1 <= max,
        0 < n,
        a !is Int,
    ensures
        ({
            let centered = |x: Lisp| recenter_step(st, name, seq![x], max);
            &&& centered(Lisp::Int((-n) as i64)) == centered(
                Lisp::Int(
                    (if n < height {
                        height - n
                    } else {
                        0
                    }) as i64,
                ),
            )
            &&& centered(a) == centered(Lisp::Int((height / 2) as i64))
            &&& centered(Lisp::Nil) == recenter_step(st, name, seq![], max)
        }),
{
    let m = Lisp::Int(
        (if n < height {
            height - n
        } else {
            0
        }) as i64,
    );
    let p = seq![Lisp::Int((-n) as i64)];
    let q = seq![m];
    let r = seq![a];
    let o = seq![Lisp::Int((height / 2) as i64)];
    let z = seq![Lisp::Nil];
    let e = Seq::<Lisp>::empty();
    assert(p.len() == 1 && p[0] == Lisp::Int((-n) as i64) && q.len() == 1 && q[0] == m);
    assert(r.len() == 1 && r[0] == a && o.len() == 1 && o[0] == Lisp::Int((height / 2) as i64));
    assert(z.len() == 1 && z[0] == Lisp::Nil && e.len() == 0);
}

/// Scrolling starts at point: as many characters are before the offset as before the
/// position, which is kept inside the accessible region.
pub proof fn law_scrolling_starts_at_point(b: BufferState, p: int)
    requires
        b.wf(),
        1 <= p <= b.codes().len() + 1,
    ensures
        ({
            let at = region_offset(b, p);
            &&& b.begv <= b.offset_of(p) <= b.zv ==> b.chars_before(at) == p - 1
            &&& b.offset_of(p) < b.begv ==> at == b.begv
            &&& b.offset_of(p) > b.zv ==> at == b.zv
            &&& b.begv <= at <= b.zv
        }),
{
    law_offset_of_position(b, p);
}

} // verus!
