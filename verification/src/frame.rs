//! Frames: a tree of windows with a minibuffer window, and the table of all frames.
use crate::buffer::{next_identifier, next_of};
use crate::snapshot::{drawn_in, drawn_views, window_snapshot, Drawn, WindowDisplaySnapshot};
use crate::table::{entry, with_entry, SymTable};
use crate::value::{int_of, Lisp, Value};
use crate::window::{
    find, leaf_ids, new_leaf, split_at, with_leaf, without, Leaf, Rect, SplitDirection, Window,
    Windows,
};
use vstd::prelude::*;

verus! {

/// What a frame is. Sizes are in pixels.
pub struct FrameState {
    pub id: u64,
    pub name: Lisp,
    pub title: Lisp,
    pub root: Windows,
    pub minibuffer_leaf: Option<Leaf>,
    pub minibuffer_window: Option<u64>,
    pub selected_window: u64,
    pub width: u32,
    pub height: u32,
    pub char_width: u32,
    pub char_height: u32,
    pub font_pixel_size: u32,
    pub visible: bool,
    pub explicit_name: bool,
    pub tab_bar_height: u32,
    pub tool_bar_height: u32,
    pub parameters: Seq<(Seq<char>, Lisp)>,
    pub faces: Seq<(Seq<char>, Lisp)>,
    pub drawn: Seq<Drawn>,
}

/// A frame. Sizes are in pixels.
#[derive(Debug, PartialEq, Eq)]
pub struct Frame {
    pub id: u64,
    pub name: Value,
    pub title: Value,
    pub root: Windows,
    pub minibuffer_leaf: Option<Leaf>,
    pub minibuffer_window: Option<u64>,
    pub selected_window: u64,
    pub width: u32,
    pub height: u32,
    pub char_width: u32,
    pub char_height: u32,
    pub font_pixel_size: u32,
    pub visible: bool,
    pub explicit_name: bool,
    pub tab_bar_height: u32,
    pub tool_bar_height: u32,
    pub parameters: SymTable,
    pub faces: SymTable,
    pub snapshots: Vec<WindowDisplaySnapshot>,
}

impl View for Frame {
    type V = FrameState;

    open spec fn view(&self) -> FrameState {
        FrameState {
            id: self.id,
            name: self.name@,
            title: self.title@,
            root: self.root,
            minibuffer_leaf: self.minibuffer_leaf,
            minibuffer_window: self.minibuffer_window,
            selected_window: self.selected_window,
            width: self.width,
            height: self.height,
            char_width: self.char_width,
            char_height: self.char_height,
            font_pixel_size: self.font_pixel_size,
            visible: self.visible,
            explicit_name: self.explicit_name,
            tab_bar_height: self.tab_bar_height,
            tool_bar_height: self.tool_bar_height,
            parameters: self.parameters@,
            faces: self.faces@,
            drawn: drawn_views(self.snapshots@),
        }
    }
}

/// How many cells of a size fit into a length; none where the size is zero.
pub open spec fn cells(length: int, size: u32) -> int {
    if size == 0 {
        0
    } else {
        length / size as int
    }
}

/// How many cells of a size fit into a length.
pub fn cell_count(length: u64, size: u32) -> (r: u64)
    ensures
        r == cells(length as int, size),
        r <= length,
{
    if size == 0 {
        0
    } else {
        let r: u64 = length / size as u64;
        proof {
            assert(length as int / size as int <= length as int) by (nonlinear_arith)
                requires
                    size > 0,
                    length >= 0,
            ;
        }
        r
    }
}

/// The height of a bar of some lines.
pub open spec fn bar_height(lines: Option<i64>, char_height: u32) -> u32 {
    match lines {
        Some(n) => if n <= 0 {
            0
        } else if n * char_height <= u32::MAX {
            (n * char_height) as u32
        } else {
            u32::MAX
        },
        None => 0,
    }
}

/// The height of a bar of some lines.
pub fn height_of_bar(lines: Option<i64>, char_height: u32) -> (r: u32)
    ensures
        r == bar_height(lines, char_height),
{
    match lines {
        Some(n) => if n <= 0 {
            0
        } else {
            let h: i128 = char_height as i128;
            let m: i128 = n as i128;
            proof {
                assert(0 <= m * h <= 0x7fff_ffff_ffff_ffff * 0xffff_ffff) by (nonlinear_arith)
                    requires
                        0 < m <= 0x7fff_ffff_ffff_ffff,
                        0 <= h <= 0xffff_ffff,
                ;
            }
            let p: i128 = m * h;
            if p <= u32::MAX as i128 {
                p as u32
            } else {
                u32::MAX
            }
        },
        None => 0,
    }
}

impl FrameState {
    /// The window with the given identifier.
    pub open spec fn window(self, id: u64) -> Option<Window> {
        match find(self.root, id) {
            Some(w) => Some(w),
            None => match self.minibuffer_leaf {
                Some(l) => if l.id == id {
                    Some(Window::Leaf(l))
                } else {
                    None
                },
                None => None,
            },
        }
    }

    /// Whether a window of the frame shows a buffer.
    pub open spec fn live(self, id: u64) -> bool {
        match self.window(id) {
            Some(Window::Leaf(_)) => true,
            _ => false,
        }
    }

    /// The frame with one of its windows changed.
    pub open spec fn with_leaf(self, id: u64, new: Leaf) -> FrameState {
        if find(self.root, id) is Some {
            FrameState { root: with_leaf(self.root, id, new), ..self }
        } else {
            match self.minibuffer_leaf {
                Some(l) => if l.id == id {
                    FrameState { minibuffer_leaf: Some(new), ..self }
                } else {
                    self
                },
                None => self,
            }
        }
    }

    /// The buffer that a window shows.
    pub open spec fn window_buffer(self, id: u64) -> Option<u64> {
        match self.window(id) {
            Some(w) => w.shown_buffer(),
            None => None,
        }
    }

    /// The frame with another selected window; unchanged where that shows no buffer.
    pub open spec fn with_selected(self, id: u64) -> FrameState {
        if self.live(id) {
            FrameState { selected_window: id, ..self }
        } else {
            self
        }
    }

    /// The value of a parameter.
    pub open spec fn parameter(self, name: Seq<char>) -> Option<Lisp> {
        entry(self.parameters, name)
    }

    /// The integer that a parameter is.
    pub open spec fn int_parameter(self, name: Seq<char>) -> Option<i64> {
        match self.parameter(name) {
            Some(v) => int_of(v),
            None => None,
        }
    }

    /// The frame with a parameter set.
    pub open spec fn with_parameter(self, name: Seq<char>, value: Lisp) -> FrameState {
        FrameState { parameters: with_entry(self.parameters, name, value), ..self }
    }

    /// The frame with the heights of its bars as its parameters say.
    pub open spec fn with_bars(self) -> FrameState {
        FrameState {
            tab_bar_height: bar_height(self.int_parameter("tab-bar-lines"@), self.char_height),
            tool_bar_height: bar_height(self.int_parameter("tool-bar-lines"@), self.char_height),
            ..self
        }
    }

    /// The width in columns.
    pub open spec fn columns(self) -> int {
        cells(self.width as int, self.char_width)
    }

    /// The height in lines.
    pub open spec fn lines(self) -> int {
        cells(self.height as int, self.char_height)
    }

    /// Whether the frame is on a window system.
    pub open spec fn on_window_system(self) -> bool {
        self.parameter("window-system"@) matches Some(v) && v != Lisp::Nil
    }
}

impl Frame {
    /// The window with the given identifier.
    pub fn find_window(&self, id: u64) -> (r: Option<Window>)
        ensures
            r == self@.window(id),
    {
        match self.root.find(id) {
            Some(w) => Some(w),
            None => match &self.minibuffer_leaf {
                Some(l) => if l.id == id {
                    Some(Window::Leaf(*l))
                } else {
                    None
                },
                None => None,
            },
        }
    }

    /// Whether a window of the frame shows a buffer.
    pub fn is_live(&self, id: u64) -> (r: bool)
        ensures
            r == self@.live(id),
    {
        match self.find_window(id) {
            Some(Window::Leaf(_)) => true,
            _ => false,
        }
    }

    /// The window with the given identifier, where it shows a buffer.
    pub fn find_leaf(&self, id: u64) -> (r: Option<Leaf>)
        ensures
            match r {
                Some(l) => self@.window(id) == Some(Window::Leaf(l)),
                None => !self@.live(id),
            },
    {
        match self.find_window(id) {
            Some(Window::Leaf(l)) => Some(l),
            _ => None,
        }
    }

    /// Changes one window.
    pub fn set_leaf(&mut self, id: u64, new: Leaf)
        ensures
            final(self)@ == old(self)@.with_leaf(id, new),
    {
        let in_tree: bool = match self.root.find(id) {
            Some(_) => true,
            None => false,
        };
        if in_tree {
            self.root = self.root.with_leaf(id, new);
        } else {
            let mine: bool = match &self.minibuffer_leaf {
                Some(l) => l.id == id,
                None => false,
            };
            if mine {
                self.minibuffer_leaf = Some(new);
            }
        }
    }

    /// The windows that show buffers, in order, without the minibuffer window.
    pub fn window_list(&self) -> (r: Vec<u64>)
        ensures
            r@ == leaf_ids(self@.root),
    {
        self.root.window_list()
    }

    /// The buffer that a window shows.
    pub fn window_buffer(&self, id: u64) -> (r: Option<u64>)
        ensures
            r == self@.window_buffer(id),
    {
        match self.find_window(id) {
            Some(w) => w.buffer_id(),
            None => None,
        }
    }

    /// Selects a window, where it shows a buffer.
    pub fn select_window(&mut self, id: u64) -> (r: bool)
        ensures
            r == old(self)@.live(id),
            final(self)@ == old(self)@.with_selected(id),
    {
        if self.is_live(id) {
            self.selected_window = id;
            true
        } else {
            false
        }
    }

    /// Makes a window the selected one without a test.
    pub fn set_selected_window(&mut self, id: u64)
        ensures
            final(self)@ == (FrameState { selected_window: id, ..old(self)@ }),
    {
        self.selected_window = id;
    }

    /// Shows or hides the frame.
    pub fn set_visible(&mut self, visible: bool)
        ensures
            final(self)@ == (FrameState { visible, ..old(self)@ }),
    {
        self.visible = visible;
    }

    /// Names the frame.
    pub fn set_name(&mut self, name: Value)
        ensures
            final(self)@ == (FrameState { name: name@, ..old(self)@ }),
    {
        self.name = name;
    }

    /// Gives the frame a title.
    pub fn set_title(&mut self, title: Value)
        ensures
            final(self)@ == (FrameState { title: title@, ..old(self)@ }),
    {
        self.title = title;
    }

    /// The value of a parameter.
    pub fn parameter(&self, name: &str) -> (r: Option<Value>)
        ensures
            match r {
                Some(v) => self@.parameter(name@) == Some(v@),
                None => self@.parameter(name@) is None,
            },
    {
        self.parameters.get(name)
    }

    /// The integer that a parameter is.
    pub fn frame_parameter_int(&self, name: &str) -> (r: Option<i64>)
        ensures
            r == self@.int_parameter(name@),
    {
        match self.parameters.get(name) {
            Some(v) => v.as_int(),
            None => None,
        }
    }

    /// Sets a parameter.
    pub fn set_parameter(&mut self, name: &str, value: Value)
        ensures
            final(self)@ == old(self)@.with_parameter(name@, value@),
    {
        self.parameters.set(name, value);
    }

    /// Sets the heights of the bars as the parameters say.
    pub fn sync_bar_heights_from_parameters(&mut self)
        ensures
            final(self)@ == old(self)@.with_bars(),
    {
        let tab: u32 = height_of_bar(self.frame_parameter_int("tab-bar-lines"), self.char_height);
        let tool: u32 = height_of_bar(
            self.frame_parameter_int("tool-bar-lines"),
            self.char_height,
        );
        self.tab_bar_height = tab;
        self.tool_bar_height = tool;
    }

    /// The width in columns.
    pub fn columns(&self) -> (r: i64)
        ensures
            r == self@.columns(),
    {
        cell_count(self.width as u64, self.char_width) as i64
    }

    /// The height in lines.
    pub fn lines(&self) -> (r: i64)
        ensures
            r == self@.lines(),
    {
        cell_count(self.height as u64, self.char_height) as i64
    }

    /// Whether the frame is on a window system.
    pub fn uses_window_system(&self) -> (r: bool)
        ensures
            r == self@.on_window_system(),
    {
        match self.parameters.get("window-system") {
            Some(v) => !v.is_nil(),
            None => false,
        }
    }

    /// Says which window system the frame is on; none for a terminal.
    pub fn set_window_system(&mut self, system: Option<Value>)
        ensures
            final(self)@ == old(self)@.with_parameter(
                "window-system"@,
                match system {
                    Some(v) => v@,
                    None => Lisp::Nil,
                },
            ),
    {
        match system {
            Some(v) => self.set_parameter("window-system", v),
            None => self.set_parameter("window-system", Value::Nil),
        }
    }

    /// Keeps what a face is on this frame.
    pub fn set_realized_face(&mut self, name: &str, face: Value)
        ensures
            final(self)@ == (FrameState {
                faces: with_entry(old(self)@.faces, name@, face@),
                ..old(self)@
            }),
    {
        self.faces.set(name, face);
    }

    /// What a face is on this frame.
    pub fn realized_face(&self, name: &str) -> (r: Option<Value>)
        ensures
            match r {
                Some(v) => entry(self@.faces, name@) == Some(v@),
                None => entry(self@.faces, name@) is None,
            },
    {
        self.faces.get(name)
    }

    /// Says what was last drawn.
    pub fn replace_display_snapshots(&mut self, snapshots: Vec<WindowDisplaySnapshot>)
        ensures
            final(self)@ == (FrameState { drawn: drawn_views(snapshots@), ..old(self)@ }),
    {
        self.snapshots = snapshots;
    }

    /// What was last drawn in a window.
    pub fn window_display_snapshot(&self, id: u64) -> (r: Option<&WindowDisplaySnapshot>)
        ensures
            match r {
                Some(d) => drawn_in(self@.drawn, id) == Some(d@),
                None => drawn_in(self@.drawn, id) is None,
            },
    {
        window_snapshot(&self.snapshots, id)
    }
}

/// What is kept for each window object besides its place in a frame.
pub struct RecordState {
    pub id: u64,
    pub use_time: i64,
    pub display_table: Lisp,
    pub cursor_type: Lisp,
    pub parameters: Lisp,
    pub prev_buffers: Lisp,
    pub next_buffers: Lisp,
    pub positions: Seq<(u64, (usize, usize))>,
}

/// What is kept for each window object besides its place in a frame: when it was
/// last used, how it displays, its parameters, the buffers that it showed before,
/// and the start and the point that it had in each buffer.
#[derive(Debug, PartialEq, Eq)]
pub struct WindowRecord {
    pub id: u64,
    pub use_time: i64,
    pub display_table: Value,
    pub cursor_type: Value,
    pub parameters: Value,
    pub prev_buffers: Value,
    pub next_buffers: Value,
    pub positions: Vec<(u64, (usize, usize))>,
}

impl View for WindowRecord {
    type V = RecordState;

    open spec fn view(&self) -> RecordState {
        RecordState {
            id: self.id,
            use_time: self.use_time,
            display_table: self.display_table@,
            cursor_type: self.cursor_type@,
            parameters: self.parameters@,
            prev_buffers: self.prev_buffers@,
            next_buffers: self.next_buffers@,
            positions: self.positions@,
        }
    }
}

/// What is kept for a window of which nothing was said yet.
pub open spec fn new_record(id: u64) -> RecordState {
    RecordState {
        id,
        use_time: 0,
        display_table: Lisp::Nil,
        cursor_type: Lisp::True,
        parameters: Lisp::Nil,
        prev_buffers: Lisp::Nil,
        next_buffers: Lisp::Nil,
        positions: Seq::empty(),
    }
}

impl WindowRecord {
    /// What is kept for a window of which nothing was said yet.
    pub fn new(id: u64) -> (r: Self)
        ensures
            r@ == new_record(id),
    {
        let r = WindowRecord {
            id,
            use_time: 0,
            display_table: Value::Nil,
            cursor_type: Value::True,
            parameters: Value::Nil,
            prev_buffers: Value::Nil,
            next_buffers: Value::Nil,
            positions: Vec::new(),
        };
        proof {
            assert(r@.positions =~= Seq::<(u64, (usize, usize))>::empty());
        }
        r
    }

    /// Says when the window was last used.
    pub fn set_use_time(&mut self, n: i64)
        ensures
            final(self)@ == (RecordState { use_time: n, ..old(self)@ }),
    {
        self.use_time = n;
    }

    /// Sets the display table.
    pub fn set_display_table(&mut self, v: Value)
        ensures
            final(self)@ == (RecordState { display_table: v@, ..old(self)@ }),
    {
        self.display_table = v;
    }

    /// Sets the cursor type.
    pub fn set_cursor_type(&mut self, v: Value)
        ensures
            final(self)@ == (RecordState { cursor_type: v@, ..old(self)@ }),
    {
        self.cursor_type = v;
    }

    /// Sets the parameters.
    pub fn set_parameters(&mut self, v: Value)
        ensures
            final(self)@ == (RecordState { parameters: v@, ..old(self)@ }),
    {
        self.parameters = v;
    }

    /// Sets the buffers that were shown before.
    pub fn set_prev_buffers(&mut self, v: Value)
        ensures
            final(self)@ == (RecordState { prev_buffers: v@, ..old(self)@ }),
    {
        self.prev_buffers = v;
    }

    /// Sets the buffers that come next.
    pub fn set_next_buffers(&mut self, v: Value)
        ensures
            final(self)@ == (RecordState { next_buffers: v@, ..old(self)@ }),
    {
        self.next_buffers = v;
    }

    /// Sets the start and the point for a buffer.
    pub fn set_position(&mut self, buffer: u64, start: usize, point: usize)
        ensures
            final(self)@ == (RecordState {
                positions: with_entry(old(self)@.positions, buffer, (start, point)),
                ..old(self)@
            }),
    {
        let i: usize = self.position_index(buffer);
        let ghost before = self@.positions;
        if i < self.positions.len() {
            self.positions.set(i, (buffer, (start, point)));
        } else {
            self.positions.push((buffer, (start, point)));
        }
        proof {
            assert(self@.positions =~= with_entry(before, buffer, (start, point)));
        }
    }

    /// The index of the entry for a buffer.
    fn position_index(&self, buffer: u64) -> (r: usize)
        ensures
            r <= self.positions.len(),
            r == crate::table::entry_index(self@.positions, buffer),
    {
        let mut i: usize = 0;
        while i < self.positions.len()
            invariant
                i <= self.positions.len(),
                forall|j: int| 0 <= j < i ==> (#[trigger] self@.positions[j]).0 != buffer,
            decreases self.positions.len() - i,
        {
            if self.positions[i].0 == buffer {
                proof {
                    crate::table::lemma_entry_found(self@.positions, buffer, i as int);
                }
                return i;
            }
            i = i + 1;
        }
        proof {
            crate::table::lemma_entry_found(self@.positions, buffer, i as int);
        }
        i
    }

    /// The start and the point for a buffer.
    pub fn position(&self, buffer: u64) -> (r: Option<(usize, usize)>)
        ensures
            r == entry(self@.positions, buffer),
    {
        let i: usize = self.position_index(buffer);
        if i < self.positions.len() {
            Some(self.positions[i].1)
        } else {
            None
        }
    }

    /// A copy of the record.
    pub fn copy(&self) -> (r: WindowRecord)
        ensures
            r@ == self@,
    {
        let mut positions: Vec<(u64, (usize, usize))> = Vec::new();
        let mut i: usize = 0;
        while i < self.positions.len()
            invariant
                i <= self.positions.len(),
                positions@ == self.positions@.take(i as int),
            decreases self.positions.len() - i,
        {
            positions.push(self.positions[i]);
            i = i + 1;
            proof {
                assert(positions@ =~= self.positions@.take(i as int));
            }
        }
        proof {
            assert(positions@ =~= self.positions@);
        }
        WindowRecord {
            id: self.id,
            use_time: self.use_time,
            display_table: self.display_table.copy(),
            cursor_type: self.cursor_type.copy(),
            parameters: self.parameters.copy(),
            prev_buffers: self.prev_buffers.copy(),
            next_buffers: self.next_buffers.copy(),
            positions,
        }
    }
}

/// What the frames of a session are.
pub struct Frames {
    pub list: Seq<FrameState>,
    pub selected: Option<u64>,
    pub old_selected: Option<u64>,
    pub next_frame_id: u64,
    pub next_window_id: u64,
    pub clock: i64,
    pub records: Seq<RecordState>,
}

/// The frames of a session, in the order in which they were made, and what is
/// kept of their windows.
#[derive(Debug, PartialEq, Eq)]
pub struct FrameManager {
    pub list: Vec<Frame>,
    pub selected: Option<u64>,
    pub old_selected: Option<u64>,
    pub next_frame_id: u64,
    pub next_window_id: u64,
    pub clock: i64,
    pub records: Vec<WindowRecord>,
}

/// What some frames are.
pub open spec fn frame_views(s: Seq<Frame>) -> Seq<FrameState> {
    Seq::new(s.len(), |i: int| s[i]@)
}

/// What some records are.
pub open spec fn record_views(s: Seq<WindowRecord>) -> Seq<RecordState> {
    Seq::new(s.len(), |i: int| s[i]@)
}

impl View for FrameManager {
    type V = Frames;

    open spec fn view(&self) -> Frames {
        Frames {
            list: frame_views(self.list@),
            selected: self.selected,
            old_selected: self.old_selected,
            next_frame_id: self.next_frame_id,
            next_window_id: self.next_window_id,
            clock: self.clock,
            records: record_views(self.records@),
        }
    }
}

/// The index of the frame with the given identifier; the number of frames where there is none.
pub open spec fn frame_index(list: Seq<FrameState>, id: u64) -> int
    decreases list.len(),
{
    if list.len() == 0 {
        0
    } else if list[0].id == id {
        0
    } else {
        1 + frame_index(list.drop_first(), id)
    }
}

/// The index of the record of a window; the number of records where there is none.
pub open spec fn record_index(list: Seq<RecordState>, id: u64) -> int
    decreases list.len(),
{
    if list.len() == 0 {
        0
    } else if list[0].id == id {
        0
    } else {
        1 + record_index(list.drop_first(), id)
    }
}

/// The index of a frame is the first place where its identifier stands.
pub proof fn lemma_frame_index(list: Seq<FrameState>, id: u64)
    ensures
        0 <= frame_index(list, id) <= list.len(),
        frame_index(list, id) < list.len() ==> list[frame_index(list, id)].id == id,
        forall|j: int| 0 <= j < frame_index(list, id) ==> (#[trigger] list[j]).id != id,
    decreases list.len(),
{
    if list.len() > 0 && list[0].id != id {
        let t = list.drop_first();
        lemma_frame_index(t, id);
        assert forall|j: int| 0 <= j < frame_index(list, id) implies (#[trigger] list[j]).id
            != id by {
            if j > 0 {
                assert(t[j - 1] == list[j]);
            }
        }
    }
}

/// The index of a record is the first place where its window's identifier stands.
pub proof fn lemma_record_index(list: Seq<RecordState>, id: u64)
    ensures
        0 <= record_index(list, id) <= list.len(),
        record_index(list, id) < list.len() ==> list[record_index(list, id)].id == id,
        forall|j: int| 0 <= j < record_index(list, id) ==> (#[trigger] list[j]).id != id,
    decreases list.len(),
{
    if list.len() > 0 && list[0].id != id {
        let t = list.drop_first();
        lemma_record_index(t, id);
        assert forall|j: int| 0 <= j < record_index(list, id) implies (#[trigger] list[j]).id
            != id by {
            if j > 0 {
                assert(t[j - 1] == list[j]);
            }
        }
    }
}

/// The identifier of the first frame that has a window, live or of any sort.
pub open spec fn frame_with(list: Seq<FrameState>, id: u64, live: bool) -> Option<u64>
    decreases list.len(),
{
    if list.len() == 0 {
        None
    } else if (if live {
        list[0].live(id)
    } else {
        list[0].window(id) is Some
    }) {
        Some(list[0].id)
    } else {
        frame_with(list.drop_first(), id, live)
    }
}

/// The identifiers of some frames.
pub open spec fn frame_ids(list: Seq<FrameState>) -> Seq<u64> {
    Seq::new(list.len(), |i: int| list[i].id)
}

/// The next time.
pub open spec fn tick(clock: i64) -> i64 {
    if clock < i64::MAX {
        (clock + 1) as i64
    } else {
        clock
    }
}

impl Frames {
    /// The frame with the given identifier.
    pub open spec fn get(self, id: u64) -> Option<FrameState> {
        let i = frame_index(self.list, id);
        if 0 <= i < self.list.len() {
            Some(self.list[i])
        } else {
            None
        }
    }

    /// The selected frame.
    pub open spec fn selected_frame(self) -> Option<FrameState> {
        match self.selected {
            Some(id) => self.get(id),
            None => None,
        }
    }

    /// The frames with one of them changed.
    pub open spec fn with_frame(self, id: u64, f: FrameState) -> Frames {
        let i = frame_index(self.list, id);
        if 0 <= i < self.list.len() {
            Frames { list: self.list.update(i, f), ..self }
        } else {
            self
        }
    }

    /// The frame that has a window that shows a buffer.
    pub open spec fn frame_of_live(self, id: u64) -> Option<u64> {
        frame_with(self.list, id, true)
    }

    /// The frame that has a window.
    pub open spec fn frame_of_valid(self, id: u64) -> Option<u64> {
        frame_with(self.list, id, false)
    }

    /// Whether a window was ever made with this identifier.
    pub open spec fn known_window(self, id: u64) -> bool {
        1 <= id < self.next_window_id
    }

    /// The window with the given identifier on a frame.
    pub open spec fn window(self, frame: u64, id: u64) -> Option<Window> {
        match self.get(frame) {
            Some(f) => f.window(id),
            None => None,
        }
    }

    /// The frames with a window of one of them changed.
    pub open spec fn with_leaf(self, frame: u64, id: u64, new: Leaf) -> Frames {
        match self.get(frame) {
            Some(f) => self.with_frame(frame, f.with_leaf(id, new)),
            None => self,
        }
    }

    /// What is kept of a window.
    pub open spec fn record(self, id: u64) -> RecordState {
        let i = record_index(self.records, id);
        if 0 <= i < self.records.len() {
            self.records[i]
        } else {
            new_record(id)
        }
    }

    /// The frames with what is kept of a window changed.
    pub open spec fn with_record(self, id: u64, r: RecordState) -> Frames {
        let i = record_index(self.records, id);
        if 0 <= i < self.records.len() {
            Frames { records: self.records.update(i, r), ..self }
        } else {
            Frames { records: self.records.push(r), ..self }
        }
    }

    /// The frames after a window was selected.
    pub open spec fn selection_noted(self, id: u64) -> Frames {
        let t = tick(self.clock);
        let s = Frames { clock: t, ..self };
        s.with_record(id, RecordState { use_time: t, ..s.record(id) })
    }

    /// The frames after a window was made the one used last but for the selected one.
    pub open spec fn use_time_bumped(self, selected: u64, target: u64) -> Frames {
        if selected == target {
            self
        } else {
            let s = self.with_record(
                target,
                RecordState {
                    use_time: self.record(selected).use_time,
                    ..self.record(target)
                },
            );
            s.selection_noted(selected)
        }
    }

    /// The frames with one more.
    pub open spec fn created(self, name: Lisp, width: u32, height: u32, buffer: u64) -> Frames {
        let f = new_frame(
            self.next_frame_id,
            self.next_window_id,
            next_of(self.next_window_id),
            name,
            width,
            height,
            buffer,
        );
        let s = Frames {
            list: self.list.push(f),
            old_selected: match self.old_selected {
                Some(w) => Some(w),
                None => Some(self.next_window_id),
            },
            next_frame_id: next_of(self.next_frame_id),
            next_window_id: next_of(next_of(self.next_window_id)),
            ..self
        };
        match self.selected {
            Some(_) => s,
            None => (Frames { selected: Some(f.id), ..s }).selection_noted(self.next_window_id),
        }
    }

    /// The frames without one of them.
    pub open spec fn deleted(self, id: u64) -> Frames {
        let i = frame_index(self.list, id);
        if 0 <= i < self.list.len() {
            let list = self.list.remove(i);
            Frames {
                list,
                selected: if self.selected == Some(id) {
                    if list.len() > 0 {
                        Some(list[0].id)
                    } else {
                        None
                    }
                } else {
                    self.selected
                },
                ..self
            }
        } else {
            self
        }
    }

    /// The frames with another selected one; unchanged where it does not exist.
    pub open spec fn with_selected(self, id: u64) -> Frames {
        if self.get(id) is Some {
            Frames { selected: Some(id), ..self }
        } else {
            self
        }
    }

    /// Whether a window can be split.
    pub open spec fn can_split(self, frame: u64, id: u64) -> bool {
        &&& self.next_window_id < u64::MAX - 1
        &&& self.get(frame) matches Some(f) && find(f.root, id) matches Some(Window::Leaf(_))
    }

    /// The frames after a window was split.
    pub open spec fn split(self, frame: u64, id: u64, dir: SplitDirection) -> Frames {
        if self.can_split(frame, id) {
            let f = self.get(frame)->0;
            let n = self.next_window_id;
            let root = split_at(f.root, id, dir, None, n, (n + 1) as u64);
            let s = Frames {
                next_window_id: if find(root, (n + 1) as u64) is Some {
                    (n + 2) as u64
                } else {
                    (n + 1) as u64
                },
                ..self
            };
            s.with_frame(frame, FrameState { root, ..f })
        } else {
            self
        }
    }

    /// Whether a window can be deleted: it shows a buffer and is not the only one of its frame.
    pub open spec fn can_delete(self, frame: u64, id: u64) -> bool {
        &&& self.get(frame) matches Some(f) && find(f.root, id) matches Some(Window::Leaf(_))
            && leaf_ids(f.root).len() > 1
    }

    /// The frames after a window was deleted.
    pub open spec fn without_window(self, frame: u64, id: u64) -> Frames {
        if self.can_delete(frame, id) {
            let f = self.get(frame)->0;
            self.with_frame(frame, frame_without(f, id))
        } else {
            self
        }
    }
}

/// A frame without one of its windows. The first window is selected where that
/// one was.
pub open spec fn frame_without(f: FrameState, id: u64) -> FrameState {
    let root = without(f.root, id, SplitDirection::Vertical);
    FrameState {
        root,
        selected_window: if f.selected_window == id && leaf_ids(root).len() > 0 {
            leaf_ids(root)[0]
        } else {
            f.selected_window
        },
        ..f
    }
}

/// The height of the root window of a new frame: the lines of sixteen pixels above
/// the last one, which may be cut off. A frame of less than two lines is all its own.
pub open spec fn root_height(height: u32) -> u32 {
    if height < 32 {
        height
    } else {
        ((height - 1) as u32 / 16 * 16) as u32
    }
}

/// A new frame with one window and a minibuffer window below it. The minibuffer
/// window takes the last line of the frame, be it a whole line or not, and lies below
/// a frame of less than two lines.
pub open spec fn new_frame(
    id: u64,
    root_id: u64,
    minibuffer_id: u64,
    name: Lisp,
    width: u32,
    height: u32,
    buffer: u64,
) -> FrameState {
    FrameState {
        id,
        name,
        title: Lisp::Nil,
        root: Windows::Leaf(
            new_leaf(root_id, buffer, Rect { x: 0, y: 0, width, height: root_height(height) }),
            Box::new(Windows::Empty),
        ),
        minibuffer_leaf: Some(
            Leaf {
                window_start: 1,
                point: 1,
                ..new_leaf(
                    minibuffer_id,
                    buffer,
                    Rect { x: 0, y: root_height(height), width, height: 16 },
                )
            },
        ),
        minibuffer_window: Some(minibuffer_id),
        selected_window: root_id,
        width,
        height,
        char_width: 8,
        char_height: 16,
        font_pixel_size: 16,
        visible: true,
        explicit_name: false,
        tab_bar_height: 0,
        tool_bar_height: 0,
        parameters: Seq::empty(),
        faces: Seq::empty(),
        drawn: Seq::empty(),
    }
}

/// A new frame with one window and a minibuffer window below it.
fn make_frame(
    id: u64,
    root_id: u64,
    minibuffer_id: u64,
    name: Value,
    width: u32,
    height: u32,
    buffer: u64,
) -> (r: Frame)
    ensures
        r@ == new_frame(id, root_id, minibuffer_id, name@, width, height, buffer),
{
    let root: u32 = if height < 32 {
        height
    } else {
        (height - 1) / 16 * 16
    };
    let mut mini: Leaf = Leaf::new(
        minibuffer_id,
        buffer,
        Rect { x: 0, y: root, width, height: 16 },
    );
    mini.window_start = 1;
    mini.point = 1;
    let r = Frame {
        id,
        name,
        title: Value::Nil,
        root: Windows::Leaf(
            Leaf::new(root_id, buffer, Rect { x: 0, y: 0, width, height: root }),
            Box::new(Windows::Empty),
        ),
        minibuffer_leaf: Some(mini),
        minibuffer_window: Some(minibuffer_id),
        selected_window: root_id,
        width,
        height,
        char_width: 8,
        char_height: 16,
        font_pixel_size: 16,
        visible: true,
        explicit_name: false,
        tab_bar_height: 0,
        tool_bar_height: 0,
        parameters: SymTable::new(),
        faces: SymTable::new(),
        snapshots: Vec::new(),
    };
    proof {
        assert(r@.drawn =~= Seq::<Drawn>::empty());
    }
    r
}

/// The first identifier of a frame. Frames and windows have different identifiers.
pub const FIRST_FRAME_ID: u64 = 0x1_0000_0000;

impl FrameManager {
    /// No frames.
    pub fn new() -> (r: Self)
        ensures
            r@ == no_frames(),
    {
        let r = FrameManager {
            list: Vec::new(),
            selected: None,
            old_selected: None,
            next_frame_id: FIRST_FRAME_ID,
            next_window_id: 1,
            clock: 0,
            records: Vec::new(),
        };
        proof {
            assert(r@.list =~= Seq::<FrameState>::empty());
            assert(r@.records =~= Seq::<RecordState>::empty());
        }
        r
    }

    /// The index of the frame with the given identifier.
    pub fn index_of(&self, id: u64) -> (r: usize)
        ensures
            r <= self.list.len(),
            r == frame_index(self@.list, id),
            r < self.list.len() ==> self.list@[r as int]@ == self@.list[r as int],
            (r < self.list.len()) == (self@.get(id) is Some),
    {
        let mut i: usize = 0;
        proof {
            lemma_frame_index(self@.list, id);
        }
        while i < self.list.len()
            invariant
                i <= self.list.len(),
                i <= frame_index(self@.list, id) <= self.list.len(),
                frame_index(self@.list, id) < self.list.len() ==> self@.list[frame_index(
                    self@.list,
                    id,
                )].id == id,
                forall|j: int|
                    0 <= j < frame_index(self@.list, id) ==> (#[trigger] self@.list[j]).id != id,
            decreases self.list.len() - i,
        {
            proof {
                assert(self@.list[i as int].id == self.list@[i as int].id);
            }
            if self.list[i].id == id {
                return i;
            }
            i = i + 1;
        }
        i
    }

    /// The frame with the given identifier.
    pub fn get(&self, id: u64) -> (r: Option<&Frame>)
        ensures
            match r {
                Some(f) => self@.get(id) == Some(f@),
                None => self@.get(id) is None,
            },
    {
        let i: usize = self.index_of(id);
        if i < self.list.len() {
            Some(&self.list[i])
        } else {
            None
        }
    }

    /// The selected frame.
    pub fn selected_frame(&self) -> (r: Option<&Frame>)
        ensures
            match r {
                Some(f) => self@.selected_frame() == Some(f@),
                None => self@.selected_frame() is None,
            },
    {
        match self.selected {
            Some(id) => self.get(id),
            None => None,
        }
    }

    /// The identifiers of all frames.
    pub fn frame_list(&self) -> (r: Vec<u64>)
        ensures
            r@ == frame_ids(self@.list),
    {
        let mut out: Vec<u64> = Vec::new();
        let mut i: usize = 0;
        while i < self.list.len()
            invariant
                i <= self.list.len(),
                out@ == frame_ids(self@.list).take(i as int),
            decreases self.list.len() - i,
        {
            out.push(self.list[i].id);
            i = i + 1;
            proof {
                assert(out@ =~= frame_ids(self@.list).take(i as int));
            }
        }
        proof {
            assert(out@ =~= frame_ids(self@.list));
        }
        out
    }

    /// The first frame that has a window, live or of any sort.
    fn find_frame_with(&self, id: u64, live: bool) -> (r: Option<u64>)
        ensures
            r == frame_with(self@.list, id, live),
    {
        let mut i: usize = 0;
        proof {
            assert(self@.list.skip(0) =~= self@.list);
        }
        while i < self.list.len()
            invariant
                i <= self.list.len(),
                frame_with(self@.list.skip(i as int), id, live) == frame_with(
                    self@.list,
                    id,
                    live,
                ),
            decreases self.list.len() - i,
        {
            proof {
                assert(self@.list.skip(i as int)[0] == self.list@[i as int]@);
                assert(self@.list.skip(i as int).drop_first() =~= self@.list.skip(i + 1));
            }
            let here: bool = if live {
                self.list[i].is_live(id)
            } else {
                match self.list[i].find_window(id) {
                    Some(_) => true,
                    None => false,
                }
            };
            if here {
                return Some(self.list[i].id);
            }
            i = i + 1;
        }
        None
    }

    /// The frame that has a window that shows a buffer.
    pub fn find_window_frame_id(&self, id: u64) -> (r: Option<u64>)
        ensures
            r == self@.frame_of_live(id),
    {
        self.find_frame_with(id, true)
    }

    /// The frame that has a window.
    pub fn find_valid_window_frame_id(&self, id: u64) -> (r: Option<u64>)
        ensures
            r == self@.frame_of_valid(id),
    {
        self.find_frame_with(id, false)
    }

    /// Whether a window was ever made with this identifier.
    pub fn is_window_object_id(&self, id: u64) -> (r: bool)
        ensures
            r == self@.known_window(id),
    {
        1 <= id && id < self.next_window_id
    }

    /// The window with the given identifier on a frame.
    pub fn find_window(&self, frame: u64, id: u64) -> (r: Option<Window>)
        ensures
            r == self@.window(frame, id),
    {
        match self.get(frame) {
            Some(f) => f.find_window(id),
            None => None,
        }
    }

    /// Changes a window of a frame.
    pub fn set_leaf(&mut self, frame: u64, id: u64, new: Leaf)
        ensures
            final(self)@ == old(self)@.with_leaf(frame, id, new),
    {
        let i: usize = self.index_of(frame);
        let ghost before = self@;
        if i < self.list.len() {
            self.list[i].set_leaf(id, new);
            proof {
                assert(self@.list =~= before.with_leaf(frame, id, new).list);
                assert(self@.records =~= before.records);
            }
        }
    }

    /// Selects a window of a frame, where it shows a buffer.
    pub fn select_window(&mut self, frame: u64, id: u64) -> (r: bool)
        ensures
            final(self)@ == (match old(self)@.get(frame) {
                Some(f) => old(self)@.with_frame(frame, f.with_selected(id)),
                None => old(self)@,
            }),
            r == (old(self)@.get(frame) matches Some(f) && f.live(id)),
    {
        let i: usize = self.index_of(frame);
        let ghost before = self@;
        if i < self.list.len() {
            let done: bool = self.list[i].select_window(id);
            proof {
                let f = before.list[i as int];
                assert(self@.list =~= before.list.update(i as int, f.with_selected(id)));
                assert(self@.records =~= before.records);
            }
            done
        } else {
            false
        }
    }

    /// Makes a window the selected one of a frame without a test.
    pub fn set_selected_window(&mut self, frame: u64, id: u64)
        ensures
            final(self)@ == (match old(self)@.get(frame) {
                Some(f) => old(self)@.with_frame(
                    frame,
                    FrameState { selected_window: id, ..f },
                ),
                None => old(self)@,
            }),
    {
        let i: usize = self.index_of(frame);
        let ghost before = self@;
        if i < self.list.len() {
            self.list[i].set_selected_window(id);
            proof {
                let f = before.list[i as int];
                assert(self@.list =~= before.list.update(
                    i as int,
                    FrameState { selected_window: id, ..f },
                ));
                assert(self@.records =~= before.records);
            }
        }
    }

    /// Shows or hides a frame.
    pub fn set_visible(&mut self, frame: u64, visible: bool)
        ensures
            final(self)@ == (match old(self)@.get(frame) {
                Some(f) => old(self)@.with_frame(frame, FrameState { visible, ..f }),
                None => old(self)@,
            }),
    {
        let i: usize = self.index_of(frame);
        let ghost before = self@;
        if i < self.list.len() {
            self.list[i].set_visible(visible);
            proof {
                let f = before.list[i as int];
                assert(self@.list =~= before.list.update(i as int, FrameState { visible, ..f }));
                assert(self@.records =~= before.records);
            }
        }
    }

    /// What is kept of a window.
    pub fn record(&self, id: u64) -> (r: WindowRecord)
        ensures
            r@ == self@.record(id),
    {
        let i: usize = self.record_index_of(id);
        if i < self.records.len() {
            self.records[i].copy()
        } else {
            WindowRecord::new(id)
        }
    }

    /// The index of the record of a window.
    fn record_index_of(&self, id: u64) -> (r: usize)
        ensures
            r <= self.records.len(),
            r == record_index(self@.records, id),
    {
        let mut i: usize = 0;
        proof {
            lemma_record_index(self@.records, id);
        }
        while i < self.records.len()
            invariant
                i <= self.records.len(),
                i <= record_index(self@.records, id) <= self.records.len(),
                record_index(self@.records, id) < self.records.len() ==> self@.records[record_index(
                    self@.records,
                    id,
                )].id == id,
                forall|j: int|
                    0 <= j < record_index(self@.records, id) ==> (#[trigger] self@.records[j]).id
                        != id,
            decreases self.records.len() - i,
        {
            proof {
                assert(self@.records[i as int].id == self.records@[i as int].id);
            }
            if self.records[i].id == id {
                return i;
            }
            i = i + 1;
        }
        i
    }

    /// Changes what is kept of a window.
    pub fn set_record(&mut self, id: u64, r: WindowRecord)
        ensures
            final(self)@ == old(self)@.with_record(id, r@),
    {
        let i: usize = self.record_index_of(id);
        let ghost before = self@;
        if i < self.records.len() {
            self.records.set(i, r);
        } else {
            self.records.push(r);
        }
        proof {
            assert(self@.records =~= before.with_record(id, r@).records);
            assert(self@.list =~= before.list);
        }
    }

    /// Notes that a window was selected.
    pub fn note_window_selected(&mut self, id: u64)
        ensures
            final(self)@ == old(self)@.selection_noted(id),
    {
        if self.clock < i64::MAX {
            self.clock = self.clock + 1;
        }
        let mut r: WindowRecord = self.record(id);
        r.set_use_time(self.clock);
        self.set_record(id, r);
    }

    /// When a window was last used.
    pub fn window_use_time(&self, id: u64) -> (r: i64)
        ensures
            r == self@.record(id).use_time,
    {
        self.record(id).use_time
    }

    /// Makes a window the one used last but for the selected one.
    pub fn bump_window_use_time(&mut self, selected: u64, target: u64) -> (r: Option<i64>)
        ensures
            final(self)@ == old(self)@.use_time_bumped(selected, target),
            r == (if selected == target {
                None::<i64>
            } else {
                Some(old(self)@.record(selected).use_time)
            }),
    {
        if selected == target {
            return None;
        }
        let t: i64 = self.window_use_time(selected);
        let mut r: WindowRecord = self.record(target);
        r.set_use_time(t);
        self.set_record(target, r);
        self.note_window_selected(selected);
        Some(t)
    }

    /// Makes a frame with one window that shows a buffer, and selects it where
    /// no frame is selected.
    pub fn create_frame(&mut self, name: Value, width: u32, height: u32, buffer: u64) -> (r: u64)
        ensures
            final(self)@ == old(self)@.created(name@, width, height, buffer),
            r == old(self)@.next_frame_id,
    {
        let ghost before = self@;
        let ghost label = name@;
        let id: u64 = self.next_frame_id;
        let root_id: u64 = self.next_window_id;
        let mini_id: u64 = next_identifier(root_id);
        let f: Frame = make_frame(id, root_id, mini_id, name, width, height, buffer);
        let ghost made = f@;
        self.list.push(f);
        self.next_frame_id = next_identifier(id);
        self.next_window_id = next_identifier(mini_id);
        if self.old_selected.is_none() {
            self.old_selected = Some(root_id);
        }
        proof {
            assert(self@.list =~= before.list.push(made));
            assert(self@.records =~= before.records);
        }
        if self.selected.is_none() {
            self.selected = Some(id);
            proof {
                assert(self@.list =~= before.list.push(made));
                assert(self@.records =~= before.records);
            }
            self.note_window_selected(root_id);
        }
        id
    }

    /// Deletes a frame, where it exists.
    pub fn delete_frame(&mut self, id: u64) -> (r: bool)
        ensures
            r == (old(self)@.get(id) is Some),
            final(self)@ == old(self)@.deleted(id),
    {
        let ghost before = self@;
        let i: usize = self.index_of(id);
        if i >= self.list.len() {
            return false;
        }
        let _gone: Frame = self.list.remove(i);
        let mine: bool = match self.selected {
            Some(s) => s == id,
            None => false,
        };
        if mine {
            self.selected = if self.list.len() > 0 {
                Some(self.list[0].id)
            } else {
                None
            };
        }
        proof {
            assert(self@.list =~= before.list.remove(i as int));
            assert(self@.records =~= before.records);
            assert(self@ == before.deleted(id));
        }
        true
    }

    /// Selects a frame, where it exists.
    pub fn select_frame(&mut self, id: u64) -> (r: bool)
        ensures
            r == (old(self)@.get(id) is Some),
            final(self)@ == old(self)@.with_selected(id),
    {
        if self.index_of(id) < self.list.len() {
            self.selected = Some(id);
            true
        } else {
            false
        }
    }

    /// Splits a window of a frame; the new window shows the same buffer.
    pub fn split_window(&mut self, frame: u64, id: u64, dir: SplitDirection) -> (r: Option<u64>)
        ensures
            final(self)@ == old(self)@.split(frame, id, dir),
            r == (if old(self)@.can_split(frame, id) {
                Some(old(self)@.next_window_id)
            } else {
                None
            }),
    {
        let ghost before = self@;
        let n: u64 = self.next_window_id;
        if n >= u64::MAX - 1 {
            return None;
        }
        let i: usize = self.index_of(frame);
        if i >= self.list.len() {
            return None;
        }
        let is_leaf: bool = match self.list[i].root.find(id) {
            Some(Window::Leaf(_)) => true,
            _ => false,
        };
        if !is_leaf {
            return None;
        }
        let root: Windows = self.list[i].root.split_at(id, dir, None, n, n + 1);
        let wrapped: bool = match root.find(n + 1) {
            Some(_) => true,
            None => false,
        };
        self.next_window_id = if wrapped {
            n + 2
        } else {
            n + 1
        };
        self.list[i].set_root(root);
        proof {
            assert(self@.list =~= before.split(frame, id, dir).list);
            assert(self@.records =~= before.records);
        }
        Some(n)
    }

    /// Deletes a window of a frame, unless it is the only one.
    pub fn delete_window(&mut self, frame: u64, id: u64) -> (r: bool)
        ensures
            final(self)@ == old(self)@.without_window(frame, id),
            r == old(self)@.can_delete(frame, id),
    {
        let ghost before = self@;
        let i: usize = self.index_of(frame);
        if i >= self.list.len() {
            return false;
        }
        let is_leaf: bool = match self.list[i].root.find(id) {
            Some(Window::Leaf(_)) => true,
            _ => false,
        };
        if !is_leaf || self.list[i].root.window_list().len() <= 1 {
            return false;
        }
        self.list[i].remove_window(id);
        proof {
            assert(self@.list =~= before.without_window(frame, id).list);
            assert(self@.records =~= before.records);
        }
        true
    }
}

/// No frames.
pub open spec fn no_frames() -> Frames {
    Frames {
        list: Seq::empty(),
        selected: None,
        old_selected: None,
        next_frame_id: FIRST_FRAME_ID,
        next_window_id: 1,
        clock: 0,
        records: Seq::empty(),
    }
}

impl Frame {
    /// Replaces the tree of windows.
    pub fn set_root(&mut self, root: Windows)
        ensures
            final(self)@ == (FrameState { root, ..old(self)@ }),
    {
        self.root = root;
    }

    /// Takes a window out of the tree; the first window is selected where that one was.
    fn remove_window(&mut self, id: u64)
        ensures
            final(self)@ == frame_without(old(self)@, id),
    {
        let root: Windows = self.root.without(id, SplitDirection::Vertical);
        let list: Vec<u64> = root.window_list();
        if self.selected_window == id && list.len() > 0 {
            self.selected_window = list[0];
        }
        self.root = root;
    }
}

} // verus!
