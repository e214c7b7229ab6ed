//! What a mode line knows of its window, its buffer and its frame.
use crate::buffer::{BufferState, Buffers};
use crate::coding::Codings;
use crate::frame::{FrameState, Frames};
use crate::symbol::Symbols;
use crate::value::{list2, symbol_name, Lisp, Outcome};
use crate::window::{Leaf, Window};
use crate::window_cmds::resolve::Found;
use crate::window_cmds::state::UiState;
use crate::xdisp::designator::{optional_window, target_buffer};
use crate::xdisp::percent::{eol_variable, mnemonic, percent_state};
use crate::xdisp::posn::{posn_at_point, text_position};
use crate::xdisp::visible::{exact_place, pos_visible};
use vstd::prelude::*;

verus! {

/// A mode line speaks of the text from the start of its window on, and up to where the
/// window ends, which is counted from the end of the buffer.
pub proof fn law_line_speaks_of_shown_text(
    frames: Frames,
    buffers: Buffers,
    codings: Option<Codings>,
    symbols: Symbols,
    width: Option<usize>,
    f: FrameState,
    l: Leaf,
    b: BufferState,
)
    requires
        frames.selected_frame() == Some(f),
        f.window(f.selected_window) == Some(Window::Leaf(l)),
        buffers.get(l.buffer_id) == Some(b),
        1 <= l.window_start,
        l.window_end_pos <= b.chars_before(b.zv) + 1,
    ensures
        ({
            let p = percent_state(frames, buffers, codings, symbols, Lisp::Nil, width);
            &&& p.window_start == l.window_start - 1
            &&& p.window_end + l.window_end_pos == b.chars_before(b.zv) + 1
            &&& p.target_width == width
            &&& p.is_tty_frame == !f.on_window_system()
        }),
{
}

/// The window of a mode line may be left out where it is the selected one.
pub proof fn law_selected_window_may_be_left_out(
    frames: Frames,
    buffers: Buffers,
    codings: Option<Codings>,
    symbols: Symbols,
    width: Option<usize>,
    f: FrameState,
    id: u64,
)
    requires
        frames.selected == Some(id),
        frames.get(id) == Some(f),
        frames.frame_of_valid(f.selected_window) == Some(id),
    ensures
        percent_state(frames, buffers, codings, symbols, Lisp::Window(f.selected_window), width)
            == percent_state(frames, buffers, codings, symbols, Lisp::Nil, width),
{
}

/// A frame is shown by its title, else by its name where that was given to it or where it
/// is on a terminal.
pub proof fn law_frame_is_shown_by_title(
    frames: Frames,
    buffers: Buffers,
    codings: Option<Codings>,
    symbols: Symbols,
    a: Lisp,
    width: Option<usize>,
    f: FrameState,
)
    requires
        frames.selected_frame() == Some(f),
        f.name is Str,
    ensures
        ({
            let p = percent_state(frames, buffers, codings, symbols, a, width);
            &&& f.title is Str ==> p.frame_name == Some(f.title)
            &&& f.title !is Str && f.explicit_name ==> p.frame_name == Some(f.name)
            &&& f.title !is Str && !f.on_window_system() ==> p.frame_name == Some(f.name)
            &&& f.title !is Str && !f.explicit_name && f.on_window_system()
                ==> p.frame_name is None
        }),
{
}

/// The coding systems of the keyboard and of the terminal are shown on a terminal alone:
/// those of the session where they are known, else those that variables name. That of the
/// buffer is the one that its own variable names, with the sign of its line endings.
pub proof fn law_coding_systems_are_shown(
    frames: Frames,
    buffers: Buffers,
    codings: Codings,
    symbols: Symbols,
    width: Option<usize>,
    f: FrameState,
    l: Leaf,
    b: BufferState,
    coding: Seq<char>,
    keyboard: Seq<char>,
    terminal: Seq<char>,
)
    requires
        frames.selected_frame() == Some(f),
        f.window(f.selected_window) == Some(Window::Leaf(l)),
        buffers.get(l.buffer_id) == Some(b),
        b.local("buffer-file-coding-system"@) == Some(Lisp::Symbol(coding)),
        symbols.value("keyboard-coding-system"@) == Some(Lisp::Symbol(keyboard)),
        symbols.value("terminal-coding-system"@) == Some(Lisp::Symbol(terminal)),
    ensures
        ({
            let known = percent_state(frames, buffers, Some(codings), symbols, Lisp::Nil, width);
            let named = percent_state(frames, buffers, None, symbols, Lisp::Nil, width);
            &&& known.coding_mnemonic == mnemonic(coding)
            &&& named.coding_mnemonic == mnemonic(coding)
            &&& !f.on_window_system() ==> {
                &&& known.keyboard_coding_mnemonic == mnemonic(codings.keyboard)
                &&& known.terminal_coding_mnemonic == mnemonic(codings.terminal)
                &&& named.keyboard_coding_mnemonic == mnemonic(keyboard)
                &&& named.terminal_coding_mnemonic == mnemonic(terminal)
            }
            &&& symbols.value(eol_variable(coding)) matches Some(v) ==> (v is Str
                ==> known.eol_indicator == Some(v))
            &&& symbols.value(eol_variable(coding)) is None ==> known.eol_indicator is None
        }),
{
    assert(symbol_name(Lisp::Symbol(coding)) == Some(coding));
    assert(symbol_name(Lisp::Symbol(keyboard)) == Some(keyboard));
    assert(symbol_name(Lisp::Symbol(terminal)) == Some(terminal));
}

/// `posn-at-point` and `pos-visible-in-window-p` agree on where a drawn position is.
pub proof fn law_drawn_places_agree(st: UiState, pos: Lisp, window: Lisp)
    requires
        optional_window(st.frames, window),
        exact_place(st.frames, st.buffers, window, pos) matches Found::Is(Some(_)),
    ensures
        exact_place(st.frames, st.buffers, window, pos) matches Found::Is(Some((w, p))) && ({
            let at = posn_at_point(st, seq![pos, window]);
            &&& at == Outcome::Value(text_position(w, p))
            &&& pos_visible(st, seq![pos, window, Lisp::True]) == Outcome::Value(
                list2(Lisp::Int(p.x), Lisp::Int(p.y)),
            )
            &&& pos_visible(st, seq![pos, window]) == Outcome::Value(Lisp::True)
        }),
{
    let x = seq![pos, window];
    let y = seq![pos, window, Lisp::True];
    assert(x.len() == 2 && x[0] == pos && x[1] == window);
    assert(y.len() == 3 && y[0] == pos && y[1] == window && y[2] == Lisp::True);
}

/// A line is formatted in the buffer that is given for it, else in the one that its window
/// shows, and in the current one where it is given neither.
pub proof fn law_line_has_its_buffer(
    frames: Frames,
    f: u64,
    w: u64,
    l: Leaf,
    id: u64,
    window: Lisp,
)
    requires
        frames.frame_of_valid(w) == Some(f),
        frames.window(f, w) == Some(Window::Leaf(l)),
    ensures
        target_buffer(frames, window, Lisp::Buffer(id)) == Some(id),
        target_buffer(frames, Lisp::Window(w), Lisp::Nil) == Some(l.buffer_id),
        target_buffer(frames, Lisp::Nil, Lisp::Nil) is None,
{
}

} // verus!
