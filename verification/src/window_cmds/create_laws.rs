//! What scrolling sideways and making frames on a window system come to.
use crate::buffer::BufferState;
use crate::frame::{FrameState, Frames};
use crate::value::{cons, lstr, Lisp, Outcome};
use crate::window::{Leaf, Window, Windows};
use crate::window_cmds::create::{
    gui_metrics, gui_name, gui_params, gui_size, gui_title, realized, GuiFrameMetrics, GuiParams,
};
use crate::window_cmds::geometry::{measured, Measure};
use crate::window_cmds::laws::law_window_is_read_back;
use crate::window_cmds::records::scroll_sideways_step;
use crate::window_cmds::scroll_laws::{lemma_shown, shows};
use crate::window_cmds::state::UiState;
use vstd::prelude::*;

verus! {

/// `scroll-left` moves a window as many columns as it is told to, and `scroll-right` takes
/// it back by as many, but never beyond the first column. Both give the column.
pub proof fn law_scrolling_sideways_counts_columns(
    st: UiState,
    name: Seq<char>,
    f: u64,
    w: u64,
    l: Leaf,
    b: BufferState,
    n: i64,
)
    requires
        shows(st, f, w, l, b),
        0 <= n,
        l.hscroll + n <= i64::MAX,
        l.hscroll + n <= usize::MAX,
    ensures
        ({
            let args = seq![Lisp::Int(n)];
            let left = scroll_sideways_step(st, name, args, true);
            let right = scroll_sideways_step(st, name, args, false);
            let back = if l.hscroll >= n {
                l.hscroll - n
            } else {
                0
            };
            &&& left.end == Outcome::Value(Lisp::Int((l.hscroll + n) as i64))
            &&& left.state.frames.window(f, w) == Some(
                Window::Leaf(Leaf { hscroll: (l.hscroll + n) as usize, ..l }),
            )
            &&& right.end == Outcome::Value(Lisp::Int(back as i64))
            &&& right.state.frames.window(f, w) == Some(
                Window::Leaf(Leaf { hscroll: back as usize, ..l }),
            )
            &&& left.state.buffers == st.buffers && right.state.buffers == st.buffers
        }),
{
    lemma_shown(st, f, w, l, b);
    let args = seq![Lisp::Int(n)];
    assert(args.len() == 1 && args[0] == Lisp::Int(n));
    let back = if l.hscroll >= n {
        l.hscroll - n
    } else {
        0
    };
    law_window_is_read_back(st.frames, f, w, Leaf { hscroll: (l.hscroll + n) as usize, ..l });
    law_window_is_read_back(st.frames, f, w, Leaf { hscroll: back as usize, ..l });
}

/// Without an argument a window is scrolled sideways by its width but two columns, and by
/// one column at least; `-` stands for one column the other way.
pub proof fn law_scrolling_sideways_goes_by_width(
    st: UiState,
    name: Seq<char>,
    f: u64,
    w: u64,
    l: Leaf,
    b: BufferState,
    columns: i64,
    left: bool,
)
    requires
        shows(st, f, w, l, b),
        measured(
            st,
            "window-total-width"@,
            seq![],
            2,
            "window-valid-p"@,
            |m: Measure| m.columns(),
        ).end == Outcome::Value(Lisp::Int(columns)),
        st.frames.get(f)->0.char_width > 0,
    ensures
        ({
            let n = if columns > 3 {
                columns - 2
            } else {
                1
            };
            &&& scroll_sideways_step(st, name, seq![], left) == scroll_sideways_step(
                st,
                name,
                seq![Lisp::Int(n as i64)],
                left,
            )
            &&& scroll_sideways_step(st, name, seq![Lisp::Symbol("-"@)], left)
                == scroll_sideways_step(st, name, seq![Lisp::Int(1)], !left)
        }),
{
    lemma_shown(st, f, w, l, b);
    let n = if columns > 3 {
        columns - 2
    } else {
        1
    };
    let z = Seq::<Lisp>::empty();
    let x = seq![Lisp::Int(n as i64)];
    let y = seq![Lisp::Symbol("-"@)];
    let o = seq![Lisp::Int(1)];
    assert(z.len() == 0 && x.len() == 1 && x[0] == Lisp::Int(n as i64));
    assert(y.len() == 1 && y[0] == Lisp::Symbol("-"@) && o.len() == 1 && o[0] == Lisp::Int(1));
    let frame = st.frames.get(f)->0;
    vstd::arithmetic::div_mod::lemma_div_is_ordered_by_denominator(
        l.bounds.width as int,
        1,
        frame.char_width as int,
    );
    vstd::arithmetic::div_mod::lemma_div_pos_is_pos(
        l.bounds.width as int,
        frame.char_width as int,
    );
    assert(columns == l.bounds.width as int / frame.char_width as int);
}

/// The last parameter of a kind is the one that counts for a frame on a window system.
pub proof fn law_last_gui_parameter_counts(items: Seq<Lisp>, n: i64)
    requires
        0 < n <= u32::MAX,
    ensures
        ({
            let before = gui_params(items);
            let wide = gui_params(items.push(cons(Lisp::Symbol("width"@), Lisp::Int(n))));
            let high = gui_params(items.push(cons(Lisp::Symbol("height"@), Lisp::Int(n))));
            let unseen = gui_params(items.push(cons(Lisp::Symbol("visibility"@), Lisp::Nil)));
            &&& wide == (GuiParams { width_columns: Some(n as u32), ..before })
            &&& high == (GuiParams { height_lines: Some(n as u32), ..before })
            &&& unseen == (GuiParams { visibility: Some(false), ..before })
        }),
{
    crate::window_cmds::size_laws::lemma_size_names();
    let a = cons(Lisp::Symbol("width"@), Lisp::Int(n));
    let b = cons(Lisp::Symbol("height"@), Lisp::Int(n));
    let c = cons(Lisp::Symbol("visibility"@), Lisp::Nil);
    assert(items.push(a).drop_last() =~= items && items.push(a).last() == a);
    assert(items.push(b).drop_last() =~= items && items.push(b).last() == b);
    assert(items.push(c).drop_last() =~= items && items.push(c).last() == c);
    assert(n as int % 0x1_0000_0000 == n) by {
        vstd::arithmetic::div_mod::lemma_small_mod(n as nat, 0x1_0000_0000);
    }
}

/// A frame on a window system is as many cells large as is asked for, its minibuffer below
/// them; without a wish it is as large as the selected frame.
pub proof fn law_gui_frame_has_asked_size(p: GuiParams, f: FrameState, frames: Frames)
    requires
        frames.selected_frame() == Some(f),
        f.char_width > 0,
        f.char_height > 0,
        f.minibuffer_leaf matches Some(l) && l.bounds.height == f.char_height,
        f.width > 0,
        f.height > f.char_height,
        p.width_columns matches Some(c) ==> 0 < c && c * f.char_width <= u32::MAX,
        p.height_lines matches Some(h) ==> 0 < h && (h + 1) * f.char_height <= u32::MAX,
    ensures
        ({
            let size = gui_size(p, gui_metrics(frames));
            &&& p.width_columns matches Some(c) ==> size.0 == c * f.char_width
            &&& p.width_columns is None ==> size.0 == f.width
            &&& p.height_lines matches Some(h) ==> size.1 == (h + 1) * f.char_height
            &&& p.height_lines is None ==> size.1 == f.height
        }),
{
    match p.width_columns {
        Some(c) => {
            assert(c * f.char_width >= 1) by (nonlinear_arith)
                requires
                    c >= 1,
                    f.char_width >= 1,
            ;
        },
        None => {},
    }
    match p.height_lines {
        Some(h) => {
            assert((h + 1) * f.char_height == h * f.char_height + f.char_height)
                by (nonlinear_arith);
            assert(h * f.char_height >= f.char_height) by (nonlinear_arith)
                requires
                    h >= 1,
            ;
        },
        None => {},
    }
}

/// The window and the minibuffer of a frame on a window system fill it, the minibuffer
/// below the window, and the frame has the cells that it was measured by.
pub proof fn law_gui_frame_is_filled(
    f: FrameState,
    p: GuiParams,
    items: Seq<Lisp>,
    m: GuiFrameMetrics,
    size: (u32, u32),
    buffer: u64,
    minibuffer: Option<u64>,
    l: Leaf,
    mini: Leaf,
)
    requires
        f.root == Windows::Leaf(l, Box::new(Windows::Empty)),
        f.minibuffer_leaf == Some(mini),
        size.1 >= m.minibuffer_height + m.char_height,
    ensures
        ({
            let g = realized(f, p, items, m, size, buffer, minibuffer);
            &&& g.width == size.0 && g.height == size.1
            &&& g.char_width == m.char_width && g.char_height == m.char_height
            &&& g.root matches Windows::Leaf(x, _) && x.id == l.id && x.buffer_id == buffer
                && x.bounds.x == 0 && x.bounds.y == 0 && x.bounds.width == size.0
            &&& g.minibuffer_leaf matches Some(y) && y.bounds.x == 0 && y.bounds.width == size.0
                && y.bounds.height == m.minibuffer_height && y.bounds.y + y.bounds.height == size.1
            &&& g.root matches Windows::Leaf(x, _) && x.bounds.height + m.minibuffer_height
                == size.1
            &&& p.visibility matches Some(v) ==> g.visible == v
            &&& g.name == lstr(gui_name(p)) && g.title == lstr(gui_title(p))
        }),
{
    lemma_parameters_keep_frame(
        (FrameState {
            name: lstr(gui_name(p)),
            title: lstr(gui_title(p)),
            width: size.0,
            height: size.1,
            visible: match p.visibility {
                Some(v) => v,
                None => f.visible,
            },
            char_width: m.char_width,
            char_height: m.char_height,
            font_pixel_size: m.font_pixel_size,
            ..f
        }).with_parameter("window-system"@, crate::value::sym("neomacs"@)),
        items,
    );
}

proof fn lemma_parameters_keep_frame(f: FrameState, items: Seq<Lisp>)
    ensures
        ({
            let g = crate::window_cmds::create::with_all_parameters(f, items);
            g == FrameState { parameters: g.parameters, ..f }
        }),
    decreases items.len(),
{
    if items.len() > 0 {
        lemma_parameters_keep_frame(f, items.drop_last());
    }
}

/// A name and a title stand for each other where one of them is missing.
pub proof fn law_name_and_title_stand_in(p: GuiParams)
    ensures
        p.title matches Some(t) ==> gui_title(p) == t,
        p.name matches Some(n) ==> gui_name(p) == n,
        p.title is None && p.name is Some ==> gui_title(p) == gui_name(p),
        p.name is None ==> gui_name(p) == gui_title(p),
{
}

} // verus!
