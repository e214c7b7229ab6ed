//! The frames and buffers of a session, and the frame that is there from the start.
use crate::buffer::{named_buffer, BufferManager, Buffers};
use crate::frame::{Frame, FrameManager, FrameState, Frames};
use crate::table::with_entry;
use crate::value::{lstr, Lisp, Outcome, Value};
use crate::window::{Leaf, Rect, Window};
use vstd::prelude::*;

verus! {

/// What the frames and buffers of a session are.
pub struct UiState {
    pub frames: Frames,
    pub buffers: Buffers,
}

/// The frames and buffers of a session.
#[derive(Debug, PartialEq, Eq)]
pub struct Ui {
    pub frames: FrameManager,
    pub buffers: BufferManager,
}

impl View for Ui {
    type V = UiState;

    open spec fn view(&self) -> UiState {
        UiState { frames: self.frames@, buffers: self.buffers@ }
    }
}

/// What a builtin leaves behind and how it ends.
pub struct Step {
    pub state: UiState,
    pub end: Outcome,
}

/// A builtin that ends with a value.
pub open spec fn gives(state: UiState, v: Lisp) -> Step {
    Step { state, end: Outcome::Value(v) }
}

/// A builtin that ends in some way.
pub open spec fn ends(state: UiState, end: Outcome) -> Step {
    Step { state, end }
}

impl UiState {
    /// The session with other frames.
    pub open spec fn with_frames(self, frames: Frames) -> UiState {
        UiState { frames, ..self }
    }

    /// The session with another current buffer; unchanged for no buffer.
    pub open spec fn with_current(self, buffer: Option<u64>) -> UiState {
        match buffer {
            Some(id) => UiState { buffers: self.buffers.with_current(id), ..self },
            None => self,
        }
    }
}

impl Ui {
    /// No frames and no buffers.
    pub fn new() -> (r: Self)
        ensures
            r@.frames == crate::frame::no_frames(),
            r@.buffers.list == Seq::<crate::buffer::BufferState>::empty(),
            r@.buffers.current is None,
            r@.buffers.next_id == 1,
    {
        Ui { frames: FrameManager::new(), buffers: BufferManager::new() }
    }

    /// Makes a buffer the current one.
    pub fn set_current(&mut self, buffer: Option<u64>)
        ensures
            final(self)@ == old(self)@.with_current(buffer),
    {
        match buffer {
            Some(id) => {
                self.buffers.set_current(id);
            },
            None => {},
        }
    }
}

/// The buffer with the given name, which is made where there is none.
pub open spec fn buffer_named(b: Buffers, name: Seq<char>) -> (Buffers, u64) {
    match named_buffer(b.list, name) {
        Some(id) => (b, id),
        None => (b.created(name), b.next_id),
    }
}

/// The buffer with the given name, which is made where there is none.
pub fn get_or_create_buffer(b: &mut BufferManager, name: &str) -> (r: u64)
    ensures
        (final(b)@, r) == buffer_named(old(b)@, name@),
{
    match b.find_buffer_by_name(name) {
        Some(id) => id,
        None => b.create_buffer(name),
    }
}

/// The current buffer, or a new one named `*scratch*`.
pub open spec fn current_or_scratch(b: Buffers) -> (Buffers, u64) {
    match b.current_buffer() {
        Some(x) => (b, x.id),
        None => (b.created("*scratch*"@), b.next_id),
    }
}

/// The current buffer, or a new one named `*scratch*`.
pub fn current_buffer_or_scratch(b: &mut BufferManager) -> (r: u64)
    ensures
        (final(b)@, r) == current_or_scratch(old(b)@),
{
    let current: Option<u64> = match b.current_buffer() {
        Some(x) => Some(x.id),
        None => None,
    };
    match current {
        Some(id) => id,
        None => b.create_buffer("*scratch*"),
    }
}

/// The frame that a session without a display starts with: 80 columns and 24
/// lines of cells of size one, point and start at the first character, and a
/// minibuffer window of one line below.
pub open spec fn startup_frame(f: FrameState, minibuffer: u64) -> FrameState {
    let g = FrameState {
        char_width: 1,
        char_height: 1,
        font_pixel_size: 1,
        parameters: with_entry(
            with_entry(f.parameters, "width"@, Lisp::Int(80)),
            "height"@,
            Lisp::Int(25),
        ),
        ..f
    };
    let h = match g.window(g.selected_window) {
        Some(Window::Leaf(l)) => g.with_leaf(
            g.selected_window,
            Leaf { window_start: 1, point: 1, ..l },
        ),
        _ => g,
    };
    match h.minibuffer_leaf {
        Some(l) => FrameState {
            minibuffer_leaf: Some(
                Leaf {
                    buffer_id: minibuffer,
                    bounds: Rect { x: 0, y: 24, width: 80, height: 1 },
                    ..l
                },
            ),
            ..h
        },
        None => h,
    }
}

impl Frame {
    /// Makes this the frame that a session without a display starts with.
    fn become_startup_frame(&mut self, minibuffer: u64)
        ensures
            final(self)@ == startup_frame(old(self)@, minibuffer),
    {
        self.char_width = 1;
        self.char_height = 1;
        self.font_pixel_size = 1;
        self.set_parameter("width", Value::Int(80));
        self.set_parameter("height", Value::Int(25));
        let selected: u64 = self.selected_window;
        match self.find_leaf(selected) {
            Some(l) => {
                let mut new: Leaf = l;
                new.window_start = 1;
                new.point = 1;
                self.set_leaf(selected, new);
            },
            None => {},
        }
        match self.minibuffer_leaf {
            Some(l) => {
                let mut new: Leaf = l;
                new.buffer_id = minibuffer;
                new.bounds = Rect { x: 0, y: 24, width: 80, height: 1 };
                self.minibuffer_leaf = Some(new);
            },
            None => {},
        }
    }
}

impl FrameManager {
    /// Makes a frame the one that a session without a display starts with.
    fn set_startup_frame(&mut self, id: u64, minibuffer: u64)
        ensures
            final(self)@ == (match old(self)@.get(id) {
                Some(f) => old(self)@.with_frame(id, startup_frame(f, minibuffer)),
                None => old(self)@,
            }),
    {
        let i: usize = self.index_of(id);
        let ghost before = self@;
        if i < self.list.len() {
            self.list[i].become_startup_frame(minibuffer);
            proof {
                assert(self@.list =~= before.list.update(
                    i as int,
                    startup_frame(before.list[i as int], minibuffer),
                ));
                assert(self@.records =~= before.records);
            }
        }
    }
}

/// A session that has a selected frame: as it is, or with the startup frame.
pub open spec fn booted(st: UiState) -> UiState {
    if st.frames.selected_frame() is Some {
        st
    } else {
        let (b1, shown) = current_or_scratch(st.buffers);
        let frames = st.frames.created(lstr("F1"@), 80, 24, shown);
        let (b2, minibuffer) = buffer_named(b1, " *Minibuf-0*"@);
        let id = st.frames.next_frame_id;
        UiState {
            frames: match frames.get(id) {
                Some(f) => frames.with_frame(id, startup_frame(f, minibuffer)),
                None => frames,
            },
            buffers: b2,
        }
    }
}

/// The frame that is selected after a session has a selected frame.
pub open spec fn boot_id(st: UiState) -> u64 {
    match st.frames.selected_frame() {
        Some(f) => f.id,
        None => st.frames.next_frame_id,
    }
}

/// Ensure a selected frame exists and return its identifier.
pub fn ensure_selected_frame_id(ui: &mut Ui) -> (r: u64)
    ensures
        final(ui)@ == booted(old(ui)@),
        r == boot_id(old(ui)@),
{
    let selected: Option<u64> = match ui.frames.selected_frame() {
        Some(f) => Some(f.id),
        None => None,
    };
    match selected {
        Some(id) => id,
        None => {
            let shown: u64 = current_buffer_or_scratch(&mut ui.buffers);
            let id: u64 = ui.frames.create_frame(Value::string("F1"), 80, 24, shown);
            let minibuffer: u64 = get_or_create_buffer(&mut ui.buffers, " *Minibuf-0*");
            ui.frames.set_startup_frame(id, minibuffer);
            id
        },
    }
}

} // verus!
