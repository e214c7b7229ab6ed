//! Which windows and frames are selected, and when they were used.
use crate::frame::{frame_index, frame_without, lemma_frame_index, FrameState, Frames, RecordState};
use crate::value::{Lisp, Outcome};
use crate::window::{law_without_removes_window, leaf_ids, omitting};
use crate::window_cmds::edit::{delete_window_step, select_window_step};
use crate::window_cmds::frames::delete_frame_step;
use crate::window_cmds::laws::law_record_is_read_back;
use crate::window_cmds::listing::{first_other, other_window_for_scrolling_step};
use crate::window_cmds::records::window_bump_use_time_step;
use crate::window_cmds::size_laws::lemma_frame_replaced;
use crate::window_cmds::state::UiState;
use crate::window_cmds::step_laws::lemma_record_identifier;
use vstd::prelude::*;

verus! {

/// A window that is selected is used now, unless that is not to be recorded, and its buffer
/// becomes current. Other windows stay as long unused as they were.
pub proof fn law_selecting_notes_use(
    st: UiState,
    f: u64,
    frame: FrameState,
    w: u64,
    norecord: Lisp,
    other: u64,
)
    requires
        st.frames.selected == Some(f),
        st.frames.get(f) == Some(frame),
        frame.id == f,
        frame.live(w),
        st.frames.clock < i64::MAX,
        other != w,
        frame.window_buffer(w) matches Some(b) && st.buffers.get(b) is Some,
    ensures
        ({
            let t = select_window_step(st, seq![Lisp::Window(w), norecord]);
            let s = t.state.frames;
            &&& t.end == Outcome::Value(Lisp::Window(w))
            &&& s.get(f) == Some(FrameState { selected_window: w, ..frame })
            &&& t.state.buffers.current == frame.window_buffer(w)
            &&& norecord == Lisp::Nil ==> s.record(w).use_time == st.frames.clock + 1 && s.clock
                == st.frames.clock + 1
            &&& norecord != Lisp::Nil ==> s.record(w) == st.frames.record(w) && s.clock
                == st.frames.clock
            &&& s.record(other) == st.frames.record(other)
        }),
{
    let args = seq![Lisp::Window(w), norecord];
    assert(args.len() == 2 && args[0] == Lisp::Window(w) && args[1] == norecord);
    let g = FrameState { selected_window: w, ..frame };
    lemma_frame_replaced(st.frames, f, g);
    let frames = st.frames.with_frame(f, g);
    let noted = Frames { clock: (st.frames.clock + 1) as i64, ..frames };
    lemma_record_identifier(noted, w);
    let r = RecordState { use_time: (st.frames.clock + 1) as i64, ..noted.record(w) };
    law_record_is_read_back(noted, w, r, other);
    assert(noted.with_record(w, r).list == frames.list);
    let t = select_window_step(st, args);
    assert(t.state.frames.list == frames.list);
    assert(frames.record(w) == st.frames.record(w));
    assert(frames.record(other) == st.frames.record(other));
    assert(noted.record(other) == frames.record(other));
}

/// Without its selected window a frame selects the first window that is left; deleting
/// another window leaves the selected one. The buffer of the selected window becomes current.
pub proof fn law_deletion_selects_first_window(
    st: UiState,
    f: u64,
    frame: FrameState,
    w: u64,
)
    requires
        st.frames.get(f) == Some(frame),
        frame.id == f,
        st.frames.frame_of_live(w) == Some(f),
        st.frames.can_delete(f, w),
        leaf_ids(frame.root).no_duplicates(),
    ensures
        ({
            let t = delete_window_step(st, seq![Lisp::Window(w)]);
            let left = omitting(leaf_ids(frame.root), w);
            &&& t.end == Outcome::Value(Lisp::Nil)
            &&& t.state.frames.get(f) matches Some(g) && leaf_ids(g.root) == left
                && g.selected_window == (if frame.selected_window == w && left.len() > 0 {
                left[0]
            } else {
                frame.selected_window
            }) && (g.window_buffer(g.selected_window) matches Some(b) ==> (st.buffers.get(
                b,
            ) is Some ==> t.state.buffers.current == Some(b)))
            &&& t.state.buffers.list == st.buffers.list
        }),
{
    let args = seq![Lisp::Window(w)];
    assert(args.len() == 1 && args[0] == Lisp::Window(w));
    law_without_removes_window(frame.root, w, crate::window::SplitDirection::Vertical);
    lemma_frame_replaced(st.frames, f, frame_without(frame, w));
}

/// Deleting a frame leaves all others, and the first of them is selected where the deleted
/// one was.
pub proof fn law_deleted_frame_is_gone(st: UiState, id: u64, i: int)
    requires
        0 <= i < st.frames.list.len(),
        st.frames.list[i].id == id,
        forall|j: int| 0 <= j < i ==> (#[trigger] st.frames.list[j]).id != id,
    ensures
        ({
            let t = delete_frame_step(st, seq![Lisp::Frame(id)]);
            let left = st.frames.list.take(i) + st.frames.list.skip(i + 1);
            &&& t.end == Outcome::Value(Lisp::Nil)
            &&& t.state.frames.list == left
            &&& st.frames.selected != Some(id) ==> t.state.frames.selected == st.frames.selected
            &&& st.frames.selected == Some(id) && left.len() > 0 ==> t.state.frames.selected
                == Some(left[0].id)
            &&& t.state.buffers == st.buffers
        }),
{
    let args = seq![Lisp::Frame(id)];
    assert(args.len() == 1 && args[0] == Lisp::Frame(id));
    let list = st.frames.list;
    lemma_frame_index(list, id);
    let k = frame_index(list, id);
    if k < i {
        assert(list[k].id != id);
    }
    assert(k == i);
    assert(list.remove(i) =~= list.take(i) + list.skip(i + 1));
}

proof fn lemma_first_other(ids: Seq<u64>, id: u64)
    requires
        exists|k: int| 0 <= k < ids.len() && #[trigger] ids[k] != id,
    ensures
        first_other(ids, id) != id,
        ids.contains(first_other(ids, id)),
    decreases ids.len(),
{
    let k = choose|k: int| 0 <= k < ids.len() && #[trigger] ids[k] != id;
    if ids[0] != id {
        assert(ids.contains(ids[0]));
    } else {
        let t = ids.drop_first();
        assert(t[k - 1] == ids[k]);
        lemma_first_other(t, id);
        let j = choose|j: int| 0 <= j < t.len() && t[j] == first_other(t, id);
        assert(ids[j + 1] == t[j]);
    }
}

/// The window that is scrolled in place of the selected one is another window of the frame;
/// where there is none that is an error.
pub proof fn law_other_window_is_scrolled(st: UiState, f: FrameState)
    requires
        st.frames.selected_frame() == Some(f),
        st.frames.get(f.id) == Some(f),
        leaf_ids(f.root).no_duplicates(),
    ensures
        ({
            let t = other_window_for_scrolling_step(st, seq![]);
            let ids = leaf_ids(f.root);
            &&& t.state == st
            &&& ids.len() > 1 ==> (t.end matches Outcome::Value(Lisp::Window(x)) && x
                != f.selected_window && ids.contains(x))
            &&& ids.len() <= 1 ==> t.end is Signal
        }),
{
    let z = Seq::<Lisp>::empty();
    assert(z.len() == 0);
    let ids = leaf_ids(f.root);
    if ids.len() > 1 {
        assert(ids[0] != ids[1]);
        if ids[0] == f.selected_window {
            assert(ids[1] != f.selected_window);
        } else {
            assert(ids[0] != f.selected_window);
        }
        lemma_first_other(ids, f.selected_window);
    }
}

/// `window-bump-use-time` makes a window the one that was used last before the selected one,
/// and gives when the selected one was used.
pub proof fn law_bumped_window_was_used_before(
    st: UiState,
    f: FrameState,
    w: u64,
    g: u64,
)
    requires
        st.frames.selected_frame() == Some(f),
        st.frames.get(f.id) == Some(f),
        st.frames.frame_of_live(w) == Some(g),
        w != f.selected_window,
        st.frames.clock < i64::MAX,
        st.frames.record(f.selected_window).use_time <= st.frames.clock,
    ensures
        ({
            let t = window_bump_use_time_step(st, seq![Lisp::Window(w)]);
            let before = st.frames.record(f.selected_window).use_time;
            let s = t.state.frames;
            &&& t.end == Outcome::Value(Lisp::Int(before))
            &&& s.record(w).use_time == before
            &&& s.record(f.selected_window).use_time == st.frames.clock + 1
            &&& s.record(w).use_time < s.record(f.selected_window).use_time
            &&& s.list == st.frames.list
        }),
{
    let args = seq![Lisp::Window(w)];
    assert(args.len() == 1 && args[0] == Lisp::Window(w));
    let own = f.selected_window;
    let before = st.frames.record(own).use_time;
    lemma_record_identifier(st.frames, w);
    let r = RecordState { use_time: before, ..st.frames.record(w) };
    law_record_is_read_back(st.frames, w, r, own);
    let a = st.frames.with_record(w, r);
    let b = Frames { clock: (st.frames.clock + 1) as i64, ..a };
    lemma_record_identifier(b, own);
    assert(b.record(w) == a.record(w) && b.record(own) == a.record(own));
    let q = RecordState { use_time: (st.frames.clock + 1) as i64, ..b.record(own) };
    law_record_is_read_back(b, own, q, w);
    assert(b.list == st.frames.list);
}

} // verus!
