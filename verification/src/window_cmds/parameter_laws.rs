//! What is listed of frames and their parameters.
use crate::frame::{FrameState, Frames};
use crate::value::{cons, sym, Lisp, Outcome};
use crate::window_cmds::frame_size::{native_height, native_width, text_height};
use crate::window_cmds::frames::{
    all_parameters, frame_live_p_end, frame_visible_p_end, framep_end, parameter_value,
};
use crate::window_cmds::geometry::window_edges_step;
use crate::window_cmds::listing::visible_ids;
use crate::window_cmds::scroll_laws::{lemma_shown, shows};
use crate::window_cmds::size_laws::{law_text_size_is_set, lemma_size_names};
use crate::window_cmds::state::UiState;
use vstd::prelude::*;

verus! {

/// `frame-parameters` lists the name, the title, the sizes and the visibility as
/// `frame-parameter` gives them, and then every parameter that was set.
pub proof fn law_parameters_are_listed(f: FrameState, i: int)
    requires
        0 <= i < f.parameters.len(),
    ensures
        ({
            let all = all_parameters(f);
            &&& all.len() == f.parameters.len() + 5
            &&& all[0] == cons(sym("name"@), parameter_value(f, "name"@))
            &&& all[1] == cons(sym("title"@), parameter_value(f, "title"@))
            &&& all[2] == cons(sym("width"@), parameter_value(f, "width"@))
            &&& all[3] == cons(sym("height"@), parameter_value(f, "height"@))
            &&& all[4] == cons(sym("visibility"@), parameter_value(f, "visibility"@))
            &&& all[5 + i] == cons(sym(f.parameters[i].0), f.parameters[i].1)
        }),
{
    lemma_size_names();
}

/// The visible frames are those that are visible, in the order of all of them.
pub proof fn law_visible_frames_are_listed(list: Seq<FrameState>, f: FrameState)
    ensures
        visible_ids(list.push(f)) == (if f.visible {
            visible_ids(list).push(f.id)
        } else {
            visible_ids(list)
        }),
        visible_ids(Seq::empty()) == Seq::<u64>::empty(),
{
    assert(list.push(f).drop_last() =~= list);
}

/// A frame that is there is live and a frame; any other value is neither.
pub proof fn law_live_frames_are_frames(frames: Frames, id: u64)
    ensures
        ({
            let a = seq![Lisp::Frame(id)];
            let there = frames.get(id) is Some;
            &&& frame_live_p_end(frames, a) == Outcome::Value(
                if there {
                    Lisp::True
                } else {
                    Lisp::Nil
                },
            )
            &&& there && frames.get(id)->0.parameter("window-system"@) is None ==> framep_end(
                frames,
                a,
            ) == Outcome::Value(Lisp::True)
            &&& !there ==> framep_end(frames, a) == Outcome::Value(Lisp::Nil)
            &&& there == (frame_visible_p_end(frames, a) is Value)
        }),
        framep_end(frames, seq![Lisp::Nil]) == Outcome::Value(Lisp::Nil),
        frame_live_p_end(frames, seq![Lisp::Nil]) == Outcome::Value(Lisp::Nil),
{
    let a = seq![Lisp::Frame(id)];
    let z = seq![Lisp::Nil];
    assert(a.len() == 1 && a[0] == Lisp::Frame(id) && z.len() == 1 && z[0] == Lisp::Nil);
}

/// On a terminal a frame is as large as its text was made, and one line higher in all; on a
/// window system it is measured in pixels, whatever its text.
pub proof fn law_frame_is_as_large_as_made(f: FrameState, cols: int, lines: int)
    requires
        10 <= cols <= u32::MAX,
        5 <= lines < u32::MAX,
    ensures
        f.parameter("window-system"@) is None ==> ({
            let g = f.with_text_size(cols, lines);
            &&& text_height(g) == lines
            &&& native_height(g) == lines + 1
            &&& native_width(g) == cols
        }),
        f.on_window_system() ==> native_height(f) == f.height && native_width(f) == f.width
            && text_height(f) == f.height,
{
    law_text_size_is_set(f, cols, lines);
    reveal_strlit("window-system");
    reveal_strlit("width");
    reveal_strlit("height");
    reveal_strlit("neovm--frame-text-lines");
    assert("window-system"@.len() == 13 && "width"@.len() == 5 && "height"@.len() == 6
        && "neovm--frame-text-lines"@.len() == 23);
    let g = f.with_text_size(cols, lines);
    let c = Lisp::Int(cols as i64);
    let t = Lisp::Int((lines + 1) as i64);
    let l = Lisp::Int(lines as i64);
    let p = f.with_parameter("width"@, c);
    let q = p.with_parameter("height"@, t);
    crate::table::law_entry_set_keeps_others(f.parameters, "width"@, c, "window-system"@);
    crate::table::law_entry_set_keeps_others(p.parameters, "height"@, t, "window-system"@);
    crate::table::law_entry_set_keeps_others(
        q.parameters,
        "neovm--frame-text-lines"@,
        l,
        "window-system"@,
    );
    assert(g.parameter("window-system"@) == f.parameter("window-system"@));
}

/// `window-edges` of the selected window are those of its room, in pixels where they are
/// asked for; those of its body leave out the mode line, which the minibuffer has none of.
pub proof fn law_window_edges_are_those_of_room(
    st: UiState,
    f: u64,
    w: u64,
    l: crate::window::Leaf,
    b: crate::buffer::BufferState,
    printed: Seq<char>,
)
    requires
        shows(st, f, w, l, b),
        st.frames.get(f)->0.minibuffer_window != Some(w),
    ensures
        ({
            let r = l.bounds;
            let h = st.frames.get(f)->0.char_height;
            let whole = window_edges_step(
                st,
                seq![Lisp::Nil, Lisp::Nil, Lisp::Nil, Lisp::True],
                printed,
            );
            let body = window_edges_step(
                st,
                seq![Lisp::Nil, Lisp::True, Lisp::Nil, Lisp::True],
                printed,
            );
            &&& whole.state == st && body.state == st
            &&& whole.end == Outcome::Value(
                crate::value::list4(
                    Lisp::Int(r.x as i64),
                    Lisp::Int(r.y as i64),
                    Lisp::Int((r.x + r.width) as i64),
                    Lisp::Int((r.y + r.height) as i64),
                ),
            )
            &&& body.end == Outcome::Value(
                crate::value::list4(
                    Lisp::Int(r.x as i64),
                    Lisp::Int(r.y as i64),
                    Lisp::Int((r.x + r.width) as i64),
                    Lisp::Int((r.y + r.height - h) as i64),
                ),
            )
        }),
{
    lemma_shown(st, f, w, l, b);
    let x = seq![Lisp::Nil, Lisp::Nil, Lisp::Nil, Lisp::True];
    let y = seq![Lisp::Nil, Lisp::True, Lisp::Nil, Lisp::True];
    assert(x.len() == 4 && x[0] == Lisp::Nil && x[1] == Lisp::Nil && x[3] == Lisp::True);
    assert(y.len() == 4 && y[0] == Lisp::Nil && y[1] == Lisp::True && y[3] == Lisp::True);
}

} // verus!
