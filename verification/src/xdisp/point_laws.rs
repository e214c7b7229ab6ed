//! Where positions are in a buffer, in the rows of a window, and on the screen.
use crate::buffer::{moved_point, offset_after, BufferState};
use crate::emacs_char::{char_at, codes_from, text_codes};
use crate::encoding::region_laws::lemma_buffer_replaced;
use crate::frame::{FrameState, Frames};
use crate::snapshot::{covering, drawn_in, Drawn};
use crate::value::{Lisp, Outcome};
use crate::window::{Leaf, Window};
use crate::window_cmds::frames::frame_modified;
use crate::window_cmds::geometry::measure;
use crate::window_cmds::position::after_lines;
use crate::window_cmds::resolve::Found;
use crate::window_cmds::state::UiState;
use crate::xdisp::measure::{bar_size, line_start_index, move_to_window_line, window_body_lines};
use crate::xdisp::measure_laws::law_lines_are_stepped_over;
use crate::xdisp::posn::{drawn_at_xy, text_position, xy_window};
use crate::xdisp::visible::{
    counted_row, point_position, row_place, shown_in, target_position, visible_at, Shown,
};
use vstd::prelude::*;

verus! {

proof fn lemma_codes_of_prefix(s: Seq<u8>, i: int, n: int)
    requires
        0 <= i <= s.len(),
        0 <= n <= codes_from(s, i).len(),
    ensures
        ({
            let o = offset_after(s, i, n);
            &&& i <= o <= s.len()
            &&& codes_from(s.take(o), i) == codes_from(s, i).take(n)
            &&& 0 < n ==> i < o
            &&& n == codes_from(s, i).len() ==> o == s.len()
        }),
    decreases s.len() - i,
{
    let o = offset_after(s, i, n);
    if n == 0 {
        assert(codes_from(s.take(o), i) =~= codes_from(s, i).take(0));
    } else {
        let (code, len) = char_at(s, i);
        let rest = codes_from(s, i + len);
        assert(codes_from(s, i) == seq![code] + rest);
        lemma_codes_of_prefix(s, i + len, n - 1);
        let t = s.take(o);
        assert forall|k: int| i <= k < i + len implies t[k] == s[k] by {}
        assert(char_at(t, i) == (code, len));
        assert((seq![code] + rest).take(n) =~= seq![code] + rest.take(n - 1));
    }
}

/// The text before the offset of a position holds the characters before the position, and
/// a later position has a later offset.
pub proof fn law_offset_of_position(b: BufferState, p: int)
    requires
        1 <= p <= b.codes().len() + 1,
    ensures
        0 <= b.offset_of(p) <= b.text.len(),
        text_codes(b.text.take(b.offset_of(p)), b.multibyte) == b.codes().take(p - 1),
        b.chars_before(b.offset_of(p)) == p - 1,
        p == b.codes().len() + 1 ==> b.offset_of(p) == b.text.len(),
        p <= b.codes().len() ==> b.offset_of(p) < b.offset_of(p + 1),
{
    if b.multibyte {
        lemma_codes_of_prefix(b.text, 0, p - 1);
        if p <= b.codes().len() {
            lemma_offset_step(b.text, 0, p - 1);
        }
    } else {
        let o = b.offset_of(p);
        assert(text_codes(b.text.take(o), false) =~= b.codes().take(p - 1));
    }
}

proof fn lemma_offset_step(s: Seq<u8>, i: int, n: int)
    requires
        0 <= i <= s.len(),
        0 <= n < codes_from(s, i).len(),
    ensures
        offset_after(s, i, n) < offset_after(s, i, n + 1),
    decreases s.len() - i,
{
    reveal_with_fuel(offset_after, 2);
    if n > 0 {
        let (code, len) = char_at(s, i);
        assert(codes_from(s, i) == seq![code] + codes_from(s, i + len));
        lemma_offset_step(s, i + len, n - 1);
    }
}

/// The rows of a window lie below each other, each as high as a cell; what is below the
/// body is cut off, of the last row alone.
pub proof fn law_rows_fill_body(c: Shown, row: int)
    requires
        c.wf(),
        0 <= row < c.body_lines,
    ensures
        ({
            let m = row_place(c, row);
            let next = row_place(c, row + 1);
            &&& m.vpos == row
            &&& next.ypos == m.ypos + c.char_height
            &&& row_place(c, 0).ypos == 0
            &&& 0 <= m.offbot < c.char_height
            &&& m.height + m.offbot == c.char_height
            &&& m.offbot > 0 ==> m.ypos + m.height == c.body_height
            &&& row < c.body_lines - 1 ==> m.offbot == 0
        }),
{
    let h = c.char_height;
    let k = c.body_lines - 1;
    assert((row + 1) * h == row * h + h && (row + 2) * h == (row + 1) * h + h) by (nonlinear_arith);
    assert(row * h <= k * h) by (nonlinear_arith)
        requires
            row <= k,
            h >= 1,
    ;
    if row < k {
        assert((row + 1) * h <= k * h) by (nonlinear_arith)
            requires
                row + 1 <= k,
                h >= 1,
        ;
    }
    assert(0 * h == 0);
}

/// `window-line-height` counts rows from the top, and from the bottom for negative numbers;
/// the mode line is below the body; without an argument it is the row of point.
pub proof fn law_rows_are_counted_from_both_ends(c: Shown, n: i64)
    requires
        c.wf(),
    ensures
        0 <= n < c.body_lines ==> counted_row(c, Lisp::Int(n)) == Found::Is(
            Some(row_place(c, n as int)),
        ),
        0 < n <= c.body_lines ==> counted_row(c, Lisp::Int((-n) as i64)) == Found::Is(
            Some(row_place(c, c.body_lines - n)),
        ),
        n >= c.body_lines ==> counted_row(c, Lisp::Int(n)) == Found::Is(
            None::<crate::xdisp::visible::RowPlace>,
        ),
        n < -c.body_lines ==> counted_row(c, Lisp::Int(n)) == Found::Is(
            None::<crate::xdisp::visible::RowPlace>,
        ),
        !c.is_minibuffer ==> (counted_row(c, Lisp::Symbol("mode-line"@)) matches Found::Is(Some(m))
            && m.ypos == c.body_height && m.height == c.char_height && m.offbot == 0),
        c.is_minibuffer ==> counted_row(c, Lisp::Symbol("mode-line"@)) == Found::Is(
            None::<crate::xdisp::visible::RowPlace>,
        ),
        counted_row(c, Lisp::Nil) == Found::Is(
            match visible_at(c, point_position(c)) {
                Some((_, m)) => Some(m),
                None => None,
            },
        ),
{
    assert(crate::value::symbol_name(Lisp::Symbol("mode-line"@)) == Some("mode-line"@));
    assert(crate::value::symbol_name(Lisp::Int(n)) is None);
    assert(crate::value::symbol_name(Lisp::Int((-n) as i64)) is None);
}

/// The place that is asked for is point without a position, that of the buffer in the
/// selected window and that of the window in any other; a number is kept inside the buffer;
/// `t` is where the last row of the window starts.
pub proof fn law_asked_position(f: FrameState, id: u64, l: Leaf, b: BufferState, n: i64)
    requires
        f.char_height >= 1,
        1 <= l.window_start <= b.codes().len() + 1,
        b.wf(),
        1 <= l.point <= b.codes().len() + 1,
        b.chars_before(b.pt) <= b.codes().len(),
    ensures
        ({
            let c = shown_in(f, id, l, b);
            let size = b.codes().len() as int;
            &&& f.selected_window == id ==> target_position(c, Lisp::Nil) == Found::Is(
                b.chars_before(b.pt) as int + 1,
            )
            &&& f.selected_window != id ==> target_position(c, Lisp::Nil) == Found::Is(
                l.point as int,
            )
            &&& 1 <= n <= size + 1 ==> target_position(c, Lisp::Int(n)) == Found::Is(n as int)
            &&& n < 1 ==> target_position(c, Lisp::Int(n)) == Found::Is(1int)
            &&& n > size + 1 ==> target_position(c, Lisp::Int(n)) == Found::Is(size + 1)
            &&& target_position(c, Lisp::True) matches Found::Is(p) && ({
                let passed = b.codes().subrange(l.window_start - 1, p - 1).filter(
                    |x: u32| x == 10,
                ).len();
                &&& l.window_start <= p <= size + 1
                &&& passed <= c.body_lines - 1
                &&& passed < c.body_lines - 1 ==> p == size + 1
                &&& passed > 0 && passed == c.body_lines - 1 ==> b.codes()[p - 2] == 10
            })
        }),
{
    let c = shown_in(f, id, l, b);
    assert(c.body_lines >= 1) by {
        vstd::arithmetic::div_mod::lemma_div_non_zero(
            c.body_height + c.char_height - 1,
            c.char_height,
        );
    }
    law_lines_are_stepped_over(b.codes(), l.window_start - 1, c.body_lines - 1);
}

/// The place that is found at a pair of coordinates is the drawn cell that covers them, and
/// nil where none does. Coordinates in the whole window are to the right of those in its
/// text area by the width of what is left of it; coordinates in a frame are further by where
/// its selected window begins.
pub proof fn law_found_place_holds_coordinates(
    frames: Frames,
    f: u64,
    frame: FrameState,
    w: u64,
    win: Window,
    d: Drawn,
    x: i64,
    y: i64,
)
    requires
        frames.get(f) == Some(frame),
        frames.frame_of_valid(w) == Some(f),
        frame.window(w) == Some(win),
        drawn_in(frame.drawn, w) == Some(d),
        i64::MIN <= x + d.left + win.rect().x <= i64::MAX,
        i64::MIN <= x + d.left <= i64::MAX,
        y + win.rect().y <= i64::MAX,
        frame.selected_window == w,
        f <= i64::MAX,
        frames.frame_of_valid(f) is None,
    ensures
        ({
            let at = drawn_at_xy(frames, x, y, Lisp::Window(w), false);
            &&& at == Outcome::Value(
                match covering(d.points, x as int, y as int) {
                    Some(p) => text_position(w, p),
                    None => Lisp::Nil,
                },
            )
            &&& drawn_at_xy(frames, (x + d.left) as i64, y, Lisp::Window(w), true) == at
            &&& xy_window(frames, Lisp::Int(f as i64)) == Found::Is(Some((f, w, false)))
                ==> drawn_at_xy(
                frames,
                (x + d.left + win.rect().x) as i64,
                (y + win.rect().y) as i64,
                Lisp::Int(f as i64),
                false,
            ) == at
        }),
{
}

/// A bar is as many lines high as its parameter says, and as many pixels as these lines
/// take.
pub proof fn law_bar_is_as_high_as_asked(f: FrameState, n: i64, tab: bool)
    requires
        0 < n,
        n * f.char_height <= u32::MAX,
    ensures
        ({
            let key = if tab {
                "tab-bar-lines"@
            } else {
                "tool-bar-lines"@
            };
            let g = frame_modified(f, key, Lisp::Int(n));
            let pixels = if tab {
                g.tab_bar_height
            } else {
                g.tool_bar_height
            };
            &&& bar_size(g, key, pixels, Lisp::Nil) == Lisp::Int(n)
            &&& bar_size(g, key, pixels, Lisp::True) == Lisp::Int((n * f.char_height) as i64)
        }),
{
    reveal_strlit("tab-bar-lines");
    reveal_strlit("tool-bar-lines");
    reveal_strlit("name");
    reveal_strlit("title");
    reveal_strlit("width");
    reveal_strlit("height");
    reveal_strlit("visibility");
    assert("tab-bar-lines"@.len() == 13 && "tool-bar-lines"@.len() == 14 && "name"@.len() == 4
        && "title"@.len() == 5 && "width"@.len() == 5 && "height"@.len() == 6
        && "visibility"@.len() == 10);
    let key = if tab {
        "tab-bar-lines"@
    } else {
        "tool-bar-lines"@
    };
    crate::table::law_entry_set(f.parameters, key, Lisp::Int(n));
    assert(0 <= n * f.char_height) by (nonlinear_arith)
        requires
            0 < n,
    ;
}

/// `move-to-window-line` takes point to where a line begins that is as many line ends after
/// the start of the window as it gives, or to the end of the text where there are fewer.
pub proof fn law_point_goes_to_window_line(
    st: UiState,
    f: FrameState,
    l: Leaf,
    b: BufferState,
    n: i64,
)
    requires
        st.frames.selected_frame() == Some(f),
        f.window(f.selected_window) == Some(Window::Leaf(l)),
        st.buffers.get(l.buffer_id) == Some(b),
        st.buffers.current == Some(l.buffer_id),
        b.wf(),
        b.begv == 0,
        b.zv == b.text.len(),
        1 <= l.window_start <= b.codes().len() + 1,
        0 <= n < window_body_lines(f, l),
    ensures
        ({
            let t = move_to_window_line(st, seq![Lisp::Int(n)]);
            &&& t.end == Outcome::Value(Lisp::Int(n))
            &&& t.state.frames == st.frames
            &&& t.state.buffers.get(l.buffer_id) matches Some(x) && x.text == b.text && exists|
                p: int,
            |
                l.window_start <= p <= b.codes().len() + 1 && x.pt == #[trigger] b.offset_of(p)
                    && ({
                    let passed = b.codes().subrange(l.window_start - 1, p - 1).filter(
                        |x: u32| x == 10,
                    ).len();
                    &&& passed <= n
                    &&& passed < n ==> p == b.codes().len() + 1
                    &&& passed == n && n > 0 ==> b.codes()[p - 2] == 10
                    &&& n == 0 ==> p == l.window_start
                })
        }),
{
    let args = seq![Lisp::Int(n)];
    assert(args.len() == 1 && args[0] == Lisp::Int(n));
    let codes = b.codes();
    law_lines_are_stepped_over(codes, l.window_start - 1, n as int);
    let r = after_lines(codes, l.window_start - 1, n as int);
    let p = r + 1;
    assert(line_start_index(codes, l.window_start, n as int) == r);
    law_offset_of_position(b, p);
    let x = moved_point(b, b.offset_of(p));
    lemma_buffer_replaced(st.buffers, l.buffer_id, BufferState { id: l.buffer_id, ..x }, 0);
    assert(x.id == l.buffer_id);
    assert(x.pt == b.offset_of(p));
    let t = move_to_window_line(st, args);
    assert(t.state.buffers.get(l.buffer_id) == Some(x));
}

/// `move-to-window-line` counts the lines of the body of the window, of which there is one
/// at least.
pub proof fn law_window_lines_are_those_of_body(f: FrameState, l: Leaf)
    requires
        f.char_height > 0,
    ensures
        ({
            let body = measure(f, f.selected_window, Window::Leaf(l)).body_lines();
            window_body_lines(f, l) == (if body > 1 {
                body
            } else {
                1
            })
        }),
{
}

} // verus!
