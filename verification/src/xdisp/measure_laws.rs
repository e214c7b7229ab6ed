//! What the sizes of text and the places of positions are.
use crate::buffer::{max2, BufferState};
use crate::frame::FrameState;
use crate::snapshot::{covering, covers, drawn_at, point_from, DisplayPointSnapshot};
use crate::value::{cons, list2, Lisp, Outcome};
use crate::window::{Leaf, Window};
use crate::window_cmds::position::after_lines;
use crate::window_cmds::resolve::Found;
use crate::window_cmds::state::UiState;
use crate::xdisp::measure::{
    counts_mode_line, line_count, line_ends, marked_end, move_to_window_line, next_line_end,
    region_codes, text_pixel_size, text_size, trimmed_end, widest, window_body_lines,
};
use crate::xdisp::visible::{
    display_context, exact_place, pos_visible, row_col, shown_in, visible_at, visible_value, Shown,
};
use vstd::prelude::*;

verus! {

/// Whether some characters are ordinary ones, which take one cell each.
pub open spec fn ordinary(codes: Seq<u32>) -> bool {
    forall|i: int| 0 <= i < codes.len() ==> #[trigger] codes[i] != 10 && codes[i] != 9
}

proof fn lemma_widest_best(codes: Seq<u32>, i: int, col: int, best: int)
    requires
        0 <= col,
        0 <= best,
    ensures
        widest(codes, i, col, best) == max2(best, widest(codes, i, col, 0)),
        widest(codes, i, col, 0) >= 0,
    decreases codes.len() - i,
{
    if 0 <= i < codes.len() {
        if codes[i] == 10 {
            lemma_widest_best(codes, i + 1, 0, max2(col, best));
            lemma_widest_best(codes, i + 1, 0, col);
        } else if codes[i] == 9 {
            lemma_widest_best(codes, i + 1, (col / 8 + 1) * 8, best);
        } else {
            lemma_widest_best(codes, i + 1, col + 1, best);
        }
    }
}

proof fn lemma_widest_shifts(a: Seq<u32>, b: Seq<u32>, i: int, col: int, best: int)
    requires
        0 <= i,
    ensures
        widest(a + b, a.len() + i, col, best) == widest(b, i, col, best),
    decreases b.len() - i,
{
    if i < b.len() {
        assert((a + b)[a.len() + i] == b[i]);
        if b[i] == 10 {
            lemma_widest_shifts(a, b, i + 1, 0, max2(col, best));
        } else if b[i] == 9 {
            lemma_widest_shifts(a, b, i + 1, (col / 8 + 1) * 8, best);
        } else {
            lemma_widest_shifts(a, b, i + 1, col + 1, best);
        }
    }
}

proof fn lemma_widest_before_line(s: Seq<u32>, t: Seq<u32>, i: int, col: int, best: int)
    requires
        0 <= i <= s.len(),
        0 <= col,
        0 <= best,
    ensures
        widest(s.push(10) + t, i, col, best) == max2(
            widest(s, i, col, best),
            widest(t, 0, 0, 0),
        ),
    decreases s.len() - i,
{
    let u = s.push(10) + t;
    if i == s.len() {
        assert(u[i] == 10);
        lemma_widest_shifts(s.push(10), t, 0, 0, max2(col, best));
        lemma_widest_best(t, 0, 0, max2(col, best));
    } else {
        assert(u[i] == s[i]);
        if s[i] == 10 {
            lemma_widest_before_line(s, t, i + 1, 0, max2(col, best));
        } else if s[i] == 9 {
            lemma_widest_before_line(s, t, i + 1, (col / 8 + 1) * 8, best);
        } else {
            lemma_widest_before_line(s, t, i + 1, col + 1, best);
        }
    }
}

proof fn lemma_widest_ordinary(s: Seq<u32>, i: int, col: int)
    requires
        0 <= i <= s.len(),
        0 <= col,
        ordinary(s),
    ensures
        widest(s, i, col, 0) == col + s.len() - i,
    decreases s.len() - i,
{
    if i < s.len() {
        lemma_widest_ordinary(s, i + 1, col + 1);
    }
}

/// A text is as wide as its widest line, and a line of ordinary characters as they are many.
pub proof fn law_text_is_as_wide_as_widest_line(s: Seq<u32>, t: Seq<u32>)
    ensures
        widest(s.push(10) + t, 0, 0, 0) == max2(widest(s, 0, 0, 0), widest(t, 0, 0, 0)),
        ordinary(s) ==> widest(s, 0, 0, 0) == s.len(),
        widest(s, 0, 0, 0) >= 0,
{
    lemma_widest_before_line(s, t, 0, 0, 0);
    lemma_widest_best(s, 0, 0, 0);
    if ordinary(s) {
        lemma_widest_ordinary(s, 0, 0);
    }
}

/// Where the last character of a text without line ends goes.
proof fn lemma_widest_pushed(s: Seq<u32>, c: u32, i: int, col: int)
    requires
        0 <= i <= s.len(),
        0 <= col,
        forall|k: int| 0 <= k < s.len() ==> #[trigger] s[k] != 10,
        c != 10,
    ensures
        widest(s.push(c), i, col, 0) == (if c == 9 {
            (widest(s, i, col, 0) / 8 + 1) * 8
        } else {
            widest(s, i, col, 0) + 1
        }),
        widest(s, i, col, 0) >= 0,
    decreases s.len() - i,
{
    reveal_with_fuel(widest, 2);
    if i < s.len() {
        assert(s.push(c)[i] == s[i]);
        if s[i] == 9 {
            lemma_widest_pushed(s, c, i + 1, (col / 8 + 1) * 8);
        } else {
            lemma_widest_pushed(s, c, i + 1, col + 1);
        }
    } else {
        assert(s.push(c)[i] == c);
    }
}

/// One more ordinary character makes a line one column wider, and a tab takes it to the
/// next multiple of eight.
pub proof fn law_character_widens_line(line: Seq<u32>, c: u32)
    requires
        forall|k: int| 0 <= k < line.len() ==> #[trigger] line[k] != 10,
        c != 10,
    ensures
        ({
            let before = widest(line, 0, 0, 0);
            let after = widest(line.push(c), 0, 0, 0);
            &&& c != 9 ==> after == before + 1
            &&& c == 9 ==> before < after <= before + 8 && after % 8 == 0
        }),
{
    lemma_widest_pushed(line, c, 0, 0);
}

proof fn lemma_line_ends(s: Seq<u32>, t: Seq<u32>, i: int)
    requires
        0 <= i <= s.len(),
    ensures
        line_ends(s + t, i) == line_ends(s, i) + line_ends(t, 0),
        line_ends(s, i) >= 0,
    decreases s.len() - i,
{
    if i < s.len() {
        assert((s + t)[i] == s[i]);
        lemma_line_ends(s, t, i + 1);
    } else {
        lemma_line_ends_shift(s, t, 0);
    }
}

proof fn lemma_line_ends_shift(s: Seq<u32>, t: Seq<u32>, i: int)
    requires
        0 <= i <= t.len(),
    ensures
        line_ends(s + t, s.len() + i) == line_ends(t, i),
    decreases t.len() - i,
{
    if i < t.len() {
        assert((s + t)[s.len() + i] == t[i]);
        lemma_line_ends_shift(s, t, i + 1);
    }
}

proof fn lemma_ends_filtered(s: Seq<u32>)
    ensures
        line_ends(s, 0) == s.filter(|x: u32| x == 10).len(),
    decreases s.len(),
{
    reveal(Seq::filter);
    reveal_with_fuel(line_ends, 2);
    if s.len() > 0 {
        lemma_ends_filtered(s.drop_last());
        assert(s =~= s.drop_last() + seq![s.last()]);
        lemma_line_ends(s.drop_last(), seq![s.last()], 0);
        assert(seq![s.last()][0] == s.last());
    }
}

/// A text has a line for each line end, and one more for what follows the last of
/// them; a text without characters has one line.
pub proof fn law_lines_are_counted(s: Seq<u32>, t: Seq<u32>)
    ensures
        line_count(s) == s.filter(|x: u32| x == 10).len() + (if s.len() == 0 || s.last() != 10 {
            1int
        } else {
            0
        }),
        t.len() > 0 ==> line_count(s.push(10) + t) == line_count(s.push(10)) + line_count(t),
{
    lemma_ends_filtered(s);
    reveal_with_fuel(line_ends, 2);
    if t.len() > 0 {
        let a = s.push(10);
        lemma_line_ends(a, t, 0);
        assert((a + t).last() == t.last());
    }
    if s.len() == 0 {
        assert(line_ends(s, 0) == 0);
    }
}

/// The size of a text is its columns in widths of cells and its lines in heights of
/// cells: one ordinary character measures one cell, and a line of them as many cells
/// side by side. The mode line counts as one more line of cells where it is asked for.
pub proof fn law_text_is_measured_in_cells(
    f: FrameState,
    id: u64,
    code: u32,
    line: Seq<u32>,
    s: Seq<u32>,
)
    requires
        code != 10,
        code != 9,
        ordinary(line),
        line.len() * f.char_width <= i64::MAX,
        widest(s, 0, 0, 0) * f.char_width <= i64::MAX,
        (line_count(s) + 1) * f.char_height <= i64::MAX,
    ensures
        text_size(f, id, seq![code], Lisp::Nil) == cons(
            Lisp::Int(f.char_width as i64),
            Lisp::Int(f.char_height as i64),
        ),
        text_size(f, id, line, Lisp::Nil) == cons(
            Lisp::Int((line.len() * f.char_width) as i64),
            Lisp::Int(f.char_height as i64),
        ),
        text_size(f, id, s, Lisp::Nil) == cons(
            Lisp::Int((widest(s, 0, 0, 0) * f.char_width) as i64),
            Lisp::Int((line_count(s) * f.char_height) as i64),
        ),
        f.minibuffer_window != Some(id) ==> text_size(f, id, s, Lisp::True) == cons(
            Lisp::Int((widest(s, 0, 0, 0) * f.char_width) as i64),
            Lisp::Int((line_count(s) * f.char_height + f.char_height) as i64),
        ) && text_size(f, id, s, Lisp::Symbol("mode-line"@)) == text_size(
            f,
            id,
            s,
            Lisp::True,
        ),
        f.minibuffer_window == Some(id) ==> text_size(f, id, s, Lisp::True) == text_size(
            f,
            id,
            s,
            Lisp::Nil,
        ),
{
    let one = seq![code];
    assert(ordinary(one));
    law_text_is_as_wide_as_widest_line(one, one);
    law_text_is_as_wide_as_widest_line(line, line);
    law_text_is_as_wide_as_widest_line(s, s);
    law_lines_are_counted(one, one);
    law_lines_are_counted(line, line);
    law_lines_are_counted(s, s);
    lemma_no_ends(one);
    lemma_no_ends(line);
    lemma_ends_filtered(s);
    lemma_line_ends(s, s, 0);
    assert((line_count(s) + 1) * f.char_height == line_count(s) * f.char_height + f.char_height)
        by (nonlinear_arith);
    assert(0 <= line_count(s) * f.char_height && 0 <= widest(s, 0, 0, 0) * f.char_width)
        by (nonlinear_arith)
        requires
            0 <= line_count(s),
            0 <= widest(s, 0, 0, 0),
    ;
    assert(0 <= line.len() * f.char_width) by (nonlinear_arith);
    assert(line_count(one) == 1 && line_count(line) == 1);
    assert(1 * f.char_height == f.char_height && 1 * f.char_width == f.char_width);
    assert(widest(one, 0, 0, 0) * f.char_width == f.char_width);
    assert(line_count(one) * f.char_height == f.char_height);
    assert(line_count(line) * f.char_height == f.char_height);
    assert(!counts_mode_line(Lisp::Nil)) by {
        reveal_strlit("nil");
        reveal_strlit("mode-line");
        assert("nil"@.len() == 3 && "mode-line"@.len() == 9);
    }
}

/// One more ordinary character at the end of a widest line makes the text wider by the
/// width of a cell, and leaves its height.
pub proof fn law_character_adds_its_cell(
    f: FrameState,
    id: u64,
    before: Seq<u32>,
    line: Seq<u32>,
    c: u32,
    width: i64,
    height: i64,
)
    requires
        forall|k: int| 0 <= k < line.len() ==> #[trigger] line[k] != 10,
        line.len() > 0,
        c != 10,
        c != 9,
        widest(line, 0, 0, 0) >= widest(before, 0, 0, 0),
        text_size(f, id, before.push(10) + line, Lisp::Nil) == cons(
            Lisp::Int(width),
            Lisp::Int(height),
        ),
        width + f.char_width <= i64::MAX,
    ensures
        text_size(f, id, before.push(10) + line.push(c), Lisp::Nil) == cons(
            Lisp::Int((width + f.char_width) as i64),
            Lisp::Int(height),
        ),
{
    law_text_is_as_wide_as_widest_line(before, line);
    law_text_is_as_wide_as_widest_line(before, line.push(c));
    law_text_is_as_wide_as_widest_line(line, line);
    law_character_widens_line(line, c);
    let n = widest(line, 0, 0, 0);
    assert((n + 1) * f.char_width == n * f.char_width + f.char_width) by (nonlinear_arith);
    assert(0 <= n * f.char_width) by (nonlinear_arith)
        requires
            0 <= n,
    ;
    lemma_line_ends(before.push(10), line, 0);
    lemma_line_ends(before.push(10), line.push(c), 0);
    lemma_line_ends(line, seq![c], 0);
    assert(line.push(c) =~= line + seq![c]);
    reveal_with_fuel(line_ends, 2);
    assert(seq![c][0] == c);
    assert(line[line.len() - 1] != 10);
    assert((before.push(10) + line).last() == line.last());
    assert((before.push(10) + line.push(c)).last() == c);
    assert(line_count(before.push(10) + line) == line_count(before.push(10) + line.push(c)));
    assert(!counts_mode_line(Lisp::Nil)) by {
        reveal_strlit("nil");
        reveal_strlit("mode-line");
        assert("nil"@.len() == 3 && "mode-line"@.len() == 9);
    }
}

proof fn lemma_no_ends(s: Seq<u32>)
    requires
        ordinary(s),
    ensures
        s.filter(|x: u32| x == 10).len() == 0,
        line_count(s) == 1,
    decreases s.len(),
{
    reveal(Seq::filter);
    lemma_ends_filtered(s);
    if s.len() > 0 {
        assert(ordinary(s.drop_last())) by {
            assert forall|i: int| 0 <= i < s.len() - 1 implies #[trigger] s.drop_last()[i] != 10
                && s.drop_last()[i] != 9 by {
                assert(s[i] != 10 && s[i] != 9);
            }
        }
        lemma_no_ends(s.drop_last());
        assert(s[s.len() - 1] != 10);
    }
}

/// `window-text-pixel-size` measures the text that the window shows: all of it, the
/// bytes from FROM on and before TO, or all but its blank end where TO is `t`.
pub proof fn law_window_text_is_measured(
    st: UiState,
    f: FrameState,
    w: u64,
    b: BufferState,
    from: i64,
    to: i64,
)
    requires
        st.frames.selected_frame() == Some(f),
        crate::xdisp::designator::optional_window(st.frames, Lisp::Window(w)),
        f.window_buffer(w) is Some,
        st.buffers.get(f.window_buffer(w)->0) == Some(b),
        1 <= from <= to <= b.text.len() + 1,
    ensures
        text_pixel_size(st, seq![Lisp::Window(w)]) == Outcome::Value(
            text_size(f, w, b.codes(), Lisp::Nil),
        ),
        text_pixel_size(st, seq![Lisp::Window(w), Lisp::Int(from), Lisp::Int(to)])
            == Outcome::Value(
            text_size(
                f,
                w,
                crate::emacs_char::text_codes(
                    b.text.subrange(from - 1, to - 1),
                    b.multibyte,
                ),
                Lisp::Nil,
            ),
        ),
        text_pixel_size(st, seq![Lisp::Window(w), Lisp::Nil, Lisp::True]) == Outcome::Value(
            text_size(
                f,
                w,
                crate::emacs_char::text_codes(
                    b.text.subrange(0, trimmed_end(b.text)),
                    b.multibyte,
                ),
                Lisp::Nil,
            ),
        ),
        text_pixel_size(
            st,
            seq![Lisp::Window(w), Lisp::Nil, Lisp::Nil, Lisp::Nil, Lisp::Nil, Lisp::True],
        ) == Outcome::Value(text_size(f, w, b.codes(), Lisp::True)),
        w == f.selected_window ==> text_pixel_size(st, seq![]) == text_pixel_size(
            st,
            seq![Lisp::Window(w)],
        ),
{
    law_blank_end_is_cut_off(b.text);
    let t = seq![Lisp::Window(w), Lisp::Nil, Lisp::True];
    let m = seq![Lisp::Window(w), Lisp::Nil, Lisp::Nil, Lisp::Nil, Lisp::Nil, Lisp::True];
    assert(t.len() == 3 && t[0] == Lisp::Window(w) && t[1] == Lisp::Nil && t[2] == Lisp::True);
    assert(m.len() == 6 && m[0] == Lisp::Window(w) && m[1] == Lisp::Nil && m[2] == Lisp::Nil && m[5]
        == Lisp::True);
    assert(b.text.subrange(0, b.text.len() as int) =~= b.text);
    let x = seq![Lisp::Window(w)];
    let y = seq![Lisp::Window(w), Lisp::Int(from), Lisp::Int(to)];
    assert(x.len() == 1 && x[0] == Lisp::Window(w));
    assert(y.len() == 3 && y[0] == Lisp::Window(w) && y[1] == Lisp::Int(from) && y[2]
        == Lisp::Int(to));
    assert(region_codes(b, Lisp::Nil, Lisp::Nil) == b.codes());
}

/// The text that TO as `t` leaves: what is cut off is blank, and holds whole lines
/// after the last one with something on it.
pub proof fn law_blank_end_is_cut_off(bytes: Seq<u8>)
    ensures
        0 <= trimmed_end(bytes) <= bytes.len(),
        forall|i: int|
            trimmed_end(bytes) <= i < bytes.len() ==> #[trigger] bytes[i] == 32 || bytes[i] == 9
                || bytes[i] == 10 || bytes[i] == 13,
        0 < trimmed_end(bytes) < bytes.len() ==> bytes[trimmed_end(bytes)] == 10,
        trimmed_end(bytes) > 0 ==> exists|i: int|
            0 <= i < trimmed_end(bytes) && #[trigger] bytes[i] != 10 && bytes[i] != 32 && bytes[i]
                != 9 && bytes[i] != 13 && forall|j: int|
                i < j < trimmed_end(bytes) ==> #[trigger] bytes[j] != 10,
{
    let n = marked_end(bytes, bytes.len() as int);
    lemma_marked_end(bytes, bytes.len() as int);
    if n > 0 {
        lemma_next_line_end(bytes, n);
        assert(bytes[n - 1] != 10);
    }
}

proof fn lemma_marked_end(bytes: Seq<u8>, n: int)
    requires
        0 <= n <= bytes.len(),
    ensures
        0 <= marked_end(bytes, n) <= n,
        forall|i: int|
            marked_end(bytes, n) <= i < n ==> #[trigger] bytes[i] == 32 || bytes[i] == 9
                || bytes[i] == 10 || bytes[i] == 13,
        marked_end(bytes, n) > 0 ==> {
            let c = bytes[marked_end(bytes, n) - 1];
            c != 32 && c != 9 && c != 10 && c != 13
        },
    decreases n,
{
    if n > 0 {
        lemma_marked_end(bytes, n - 1);
    }
}

proof fn lemma_next_line_end(bytes: Seq<u8>, i: int)
    requires
        0 <= i <= bytes.len(),
    ensures
        i <= next_line_end(bytes, i) <= bytes.len(),
        next_line_end(bytes, i) < bytes.len() ==> bytes[next_line_end(bytes, i)] == 10,
        forall|j: int| i <= j < next_line_end(bytes, i) ==> #[trigger] bytes[j] != 10,
    decreases bytes.len() - i,
{
    if i < bytes.len() && bytes[i] != 10 {
        lemma_next_line_end(bytes, i + 1);
    }
}

/// The row of a place is the number of line ends between the start and it, and its
/// column the number of characters after the last of them.
pub proof fn law_row_and_column(codes: Seq<u32>, start: int, target: int, line: int)
    requires
        0 <= start <= line <= target <= codes.len(),
        line == start || codes[line - 1] == 10,
        forall|i: int| line <= i < target ==> #[trigger] codes[i] != 10,
    ensures
        row_col(codes, start, target, 0, 0) == (
            codes.subrange(start, target).filter(|x: u32| x == 10).len() as int,
            target - line,
        ),
{
    lemma_row_col(codes, start, target, line, 0, 0);
    lemma_ends_filtered(codes.subrange(start, target));
}

proof fn lemma_row_col(codes: Seq<u32>, i: int, target: int, line: int, row: int, col: int)
    requires
        0 <= i <= target <= codes.len(),
        line <= target,
        i < line ==> codes[line - 1] == 10,
        forall|k: int| line <= k < target ==> #[trigger] codes[k] != 10,
    ensures
        row_col(codes, i, target, row, col).0 == row + line_ends(codes.subrange(i, target), 0),
        i < line ==> row_col(codes, i, target, row, col).1 == target - line,
        line <= i ==> row_col(codes, i, target, row, col).1 == col + target - i,
    decreases target - i,
{
    let s = codes.subrange(i, target);
    if i < target {
        let t = codes.subrange(i + 1, target);
        assert(s =~= seq![codes[i]] + t);
        lemma_line_ends(seq![codes[i]], t, 0);
        reveal_with_fuel(line_ends, 2);
        assert(seq![codes[i]][0] == codes[i]);
        if codes[i] == 10 {
            lemma_row_col(codes, i + 1, target, line, row + 1, 0);
        } else {
            lemma_row_col(codes, i + 1, target, line, row, col + 1);
        }
    } else {
        assert(line_ends(s, 0) == 0);
    }
}

/// A position is visible where it is not before the start of the window and its row
/// is among those of the window: it stands as many cells to the right as its column
/// and as many down as its row. All of it is visible where the row ends in the body.
pub proof fn law_visible_position_stands_in_cells(c: Shown, pos: int, line: int)
    requires
        c.wf(),
        c.window_start - 1 <= line <= pos - 1 <= c.codes.len(),
        line == c.window_start - 1 || c.codes[line - 1] == 10,
        forall|i: int| line <= i < pos - 1 ==> #[trigger] c.codes[i] != 10,
        (pos - 1 - line) * c.char_width <= i64::MAX,
    ensures
        ({
            let row = c.codes.subrange(c.window_start - 1, pos - 1).filter(
                |x: u32| x == 10,
            ).len() as int;
            let x = (pos - 1 - line) * c.char_width;
            let y = row * c.char_height;
            &&& row >= c.body_lines ==> visible_at(c, pos) is None
            &&& row < c.body_lines ==> {
                &&& visible_at(c, pos) matches Some((a, m)) && a == x && m.ypos == y && m.vpos
                    == row
                &&& (visible_value(visible_at(c, pos), false) == Lisp::True) == (y + c.char_height
                    <= c.body_height)
                &&& y + c.char_height <= c.body_height ==> visible_value(
                    visible_at(c, pos),
                    true,
                ) == list2(Lisp::Int(x as i64), Lisp::Int(y as i64))
            }
        }),
        forall|p: int| p < c.window_start ==> #[trigger] visible_at(c, p) is None,
{
    law_row_and_column(c.codes, c.window_start - 1, pos - 1, line);
    let row = c.codes.subrange(c.window_start - 1, pos - 1).filter(|x: u32| x == 10).len() as int;
    assert((row + 1) * c.char_height == row * c.char_height + c.char_height) by (nonlinear_arith);
    assert(0 <= (pos - 1 - line) * c.char_width) by (nonlinear_arith)
        requires
            0 <= pos - 1 - line,
            1 <= c.char_width,
    ;
}

/// The body of a window is its height but the mode line, which the minibuffer has
/// none of, and it shows the lines of cells that start in it.
pub proof fn law_body_is_what_mode_line_leaves(f: FrameState, id: u64, l: Leaf, b: BufferState)
    requires
        f.char_height >= 1,
        f.char_width >= 1,
        l.bounds.height > f.char_height,
    ensures
        ({
            let c = shown_in(f, id, l, b);
            &&& f.minibuffer_window == Some(id) ==> c.body_height == l.bounds.height
            &&& f.minibuffer_window != Some(id) ==> c.body_height == l.bounds.height
                - f.char_height
            &&& c.char_width == f.char_width && c.char_height == f.char_height
            &&& (c.body_lines - 1) * f.char_height < c.body_height <= c.body_lines * f.char_height
            &&& l.window_start >= 1 ==> c.window_start == l.window_start
            &&& c.codes == b.codes()
        }),
{
    let c = shown_in(f, id, l, b);
    let h = c.body_height;
    let u = f.char_height as int;
    let q = (h + u - 1) / u;
    vstd::arithmetic::div_mod::lemma_fundamental_div_mod(h + u - 1, u);
    vstd::arithmetic::div_mod::lemma_mod_bound(h + u - 1, u);
    assert(u * q == q * u && (q - 1) * u == q * u - u) by (nonlinear_arith);
}

/// `pos-visible-in-window-p` of a position says whether it is visible.
pub proof fn law_pos_visible_asks_for_place(
    st: UiState,
    window: Lisp,
    c: Shown,
    pos: i64,
    partially: Lisp,
)
    requires
        crate::xdisp::designator::optional_window(st.frames, window),
        exact_place(st.frames, st.buffers, window, Lisp::Int(pos)) == Found::Is(
            None::<(u64, DisplayPointSnapshot)>,
        ),
        display_context(st.frames, st.buffers, window) == Found::Is(Some(c)),
        1 <= pos <= c.codes.len() + 1,
    ensures
        pos_visible(st, seq![Lisp::Int(pos), window, partially]) == Outcome::Value(
            visible_value(visible_at(c, pos as int), partially != Lisp::Nil),
        ),
{
    let x = seq![Lisp::Int(pos), window, partially];
    assert(x.len() == 3 && x[0] == Lisp::Int(pos) && x[1] == window && x[2] == partially);
}

/// The place some lines further down is after that many line ends, or the end of the
/// text where there are fewer.
pub proof fn law_lines_are_stepped_over(codes: Seq<u32>, i: int, n: int)
    requires
        0 <= i <= codes.len(),
        0 <= n,
    ensures
        ({
            let r = after_lines(codes, i, n);
            let passed = codes.subrange(i, r).filter(|x: u32| x == 10).len();
            &&& i <= r <= codes.len()
            &&& passed <= n
            &&& passed < n ==> r == codes.len()
            &&& passed == n && n > 0 ==> codes[r - 1] == 10
            &&& n == 0 ==> r == i
        }),
{
    lemma_after_lines(codes, i, n);
    lemma_ends_filtered(codes.subrange(i, after_lines(codes, i, n)));
}

proof fn lemma_after_lines(codes: Seq<u32>, i: int, n: int)
    requires
        0 <= i <= codes.len(),
        0 <= n,
    ensures
        ({
            let r = after_lines(codes, i, n);
            let passed = line_ends(codes.subrange(i, r), 0);
            &&& i <= r <= codes.len()
            &&& passed <= n
            &&& passed < n ==> r == codes.len()
            &&& passed == n && n > 0 ==> i < r && codes[r - 1] == 10
            &&& n == 0 ==> r == i
        }),
    decreases codes.len() - i,
{
    let r = after_lines(codes, i, n);
    let s = codes.subrange(i, r);
    if n > 0 && i < codes.len() {
        let m = if codes[i] == 10 {
            n - 1
        } else {
            n
        };
        lemma_after_lines(codes, i + 1, m);
        let t = codes.subrange(i + 1, r);
        assert(s =~= seq![codes[i]] + t);
        lemma_line_ends(seq![codes[i]], t, 0);
        reveal_with_fuel(line_ends, 2);
        assert(seq![codes[i]][0] == codes[i]);
    } else {
        assert(line_ends(s, 0) == 0);
    }
}

/// `move-to-window-line` goes to the middle line without a number, counts negative
/// numbers from the bottom, and stays on the lines of the window.
pub proof fn law_window_lines_are_counted_from_both_ends(
    st: UiState,
    f: FrameState,
    l: Leaf,
    n: i64,
)
    requires
        st.frames.selected_frame() == Some(f),
        f.window(f.selected_window) == Some(Window::Leaf(l)),
        st.buffers.get(l.buffer_id) is Some,
        st.buffers.current is Some,
    ensures
        ({
            let lines = window_body_lines(f, l);
            let goes = |a: Lisp| move_to_window_line(st, seq![a]);
            &&& goes(Lisp::Nil) == goes(Lisp::Int((lines / 2) as i64))
            &&& 0 < n <= lines && n < i64::MAX ==> goes(Lisp::Int((-n) as i64)) == goes(
                Lisp::Int((lines - n) as i64),
            )
            &&& n >= lines ==> goes(Lisp::Int(n)) == goes(Lisp::Int((lines - 1) as i64))
            &&& 0 <= n < lines ==> goes(Lisp::Int(n)).end == Outcome::Value(Lisp::Int(n))
        }),
{
    let lines = window_body_lines(f, l);
    vstd::arithmetic::div_mod::lemma_div_is_ordered_by_denominator(
        l.bounds.height as int,
        1,
        max2(f.char_height as int, 1),
    );
    assert(1 <= lines <= u32::MAX);
    let a = seq![Lisp::Nil];
    let b = seq![Lisp::Int((lines / 2) as i64)];
    let c = seq![Lisp::Int((-n) as i64)];
    let d = seq![Lisp::Int((lines - n) as i64)];
    let e = seq![Lisp::Int((lines - 1) as i64)];
    let g = seq![Lisp::Int(n)];
    assert(a[0] == Lisp::Nil && b[0] == Lisp::Int((lines / 2) as i64) && c[0] == Lisp::Int(
        (-n) as i64,
    ) && d[0] == Lisp::Int((lines - n) as i64) && e[0] == Lisp::Int((lines - 1) as i64) && g[0]
        == Lisp::Int(n));
}

/// The drawn place of a position is that of the position itself where it was drawn.
pub proof fn law_drawn_position_is_found(s: Seq<DisplayPointSnapshot>, pos: int, i: int)
    requires
        0 <= i < s.len(),
        s[i].buffer_pos == pos,
        forall|j: int| 0 <= j < i ==> (#[trigger] s[j]).buffer_pos < pos,
    ensures
        drawn_at(s, pos) == Some(s[i]),
{
    lemma_point_from(s, pos, None, i);
}

proof fn lemma_point_from(
    s: Seq<DisplayPointSnapshot>,
    pos: int,
    before: Option<DisplayPointSnapshot>,
    i: int,
)
    requires
        0 <= i < s.len(),
        s[i].buffer_pos == pos,
        forall|j: int| 0 <= j < i ==> (#[trigger] s[j]).buffer_pos < pos,
    ensures
        point_from(s, pos, before) matches Some((p, _)) && p == s[i],
    decreases s.len(),
{
    if i > 0 {
        let t = s.drop_first();
        assert(s[0].buffer_pos < pos);
        assert forall|j: int| 0 <= j < i - 1 implies (#[trigger] t[j]).buffer_pos < pos by {
            assert(t[j] == s[j + 1]);
        }
        assert(t[i - 1] == s[i]);
        lemma_point_from(t, pos, Some(s[0]), i - 1);
    }
}

/// The drawn place at a pair of coordinates is one whose cell they lie in.
pub proof fn law_drawn_cell_holds_coordinates(s: Seq<DisplayPointSnapshot>, x: int, y: int)
    ensures
        covering(s, x, y) matches Some(p) ==> p.x <= x && p.y <= y && (x < p.x + p.width || x
            == p.x) && (y < p.y + p.height || y == p.y) && s.contains(p),
        covering(s, x, y) is None ==> forall|i: int|
            0 <= i < s.len() ==> !(s[i].x <= x < s[i].x + s[i].width && (#[trigger] s[i]).y <= y
                < s[i].y + s[i].height),
    decreases s.len(),
{
    if s.len() > 0 {
        let t = s.drop_first();
        law_drawn_cell_holds_coordinates(t, x, y);
        if covers(s[0], x, y) {
            assert(s.contains(s[0]));
        } else {
            match covering(t, x, y) {
                Some(p) => {
                    let i = choose|i: int| 0 <= i < t.len() && t[i] == p;
                    assert(s[i + 1] == p);
                },
                None => {
                    assert forall|i: int| 0 <= i < s.len() implies !(s[i].x <= x < s[i].x
                        + s[i].width && (#[trigger] s[i]).y <= y < s[i].y + s[i].height) by {
                        if i > 0 {
                            assert(t[i - 1] == s[i]);
                        }
                    }
                },
            }
        }
    }
}

} // verus!
