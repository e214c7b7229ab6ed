//! Making a frame for a window system.
use crate::buffer::named_buffer;
use crate::frame::{Frame, FrameManager, FrameState, Frames};
use crate::storage::string_storage;
use crate::text::{str_eq, string_of};
use crate::value::{
    error_outcome, expect_args, lstr, sym, symbol_name, views, wrong_number, Flow, Lisp, Value,
};
use crate::window::{minus, plus, size_minus, size_plus, Leaf, Rect, Windows};
use crate::window_cmds::frames::{cut_to_u32, items_or_none, list_or_empty, low_bits};
use crate::window_cmds::resolve::{found, Found};
use crate::window_cmds::state::{current_buffer_or_scratch, current_or_scratch, Ui, UiState};
use vstd::prelude::*;

verus! {

/// What the parameters of a frame for a window system say.
pub struct GuiParams {
    pub name: Option<Seq<char>>,
    pub title: Option<Seq<char>>,
    pub width_columns: Option<u32>,
    pub height_lines: Option<u32>,
    pub visibility: Option<bool>,
}

/// What the parameters of a frame for a window system say.
#[derive(Debug, PartialEq, Eq)]
pub struct ParsedGuiFrameParams {
    pub name: Option<String>,
    pub title: Option<String>,
    pub width_columns: Option<u32>,
    pub height_lines: Option<u32>,
    pub visibility: Option<bool>,
}

impl View for ParsedGuiFrameParams {
    type V = GuiParams;

    open spec fn view(&self) -> GuiParams {
        GuiParams {
            name: crate::value::opt_text(self.name),
            title: crate::value::opt_text(self.title),
            width_columns: self.width_columns,
            height_lines: self.height_lines,
            visibility: self.visibility,
        }
    }
}

/// The text of a string, or the name of a symbol.
pub open spec fn stringish(v: Lisp) -> Option<Seq<char>> {
    match v {
        Lisp::Str(text, _) => Some(string_storage(text)),
        _ => symbol_name(v),
    }
}

/// The text of a string, or the name of a symbol.
fn stringish_value(v: &Value) -> (r: Option<String>)
    ensures
        crate::value::opt_text(r) == stringish(v@),
{
    match v.as_runtime_string() {
        Some(s) => Some(string_of(s.as_slice())),
        None => v.as_symbol_name(),
    }
}

/// A number of columns or lines, where it is positive.
pub open spec fn positive(v: Lisp, otherwise: Option<u32>) -> Option<u32> {
    match v {
        Lisp::Int(n) => if n > 0 {
            Some(low_bits(n))
        } else {
            otherwise
        },
        _ => otherwise,
    }
}

/// A number of columns or lines, where it is positive.
fn positive_or(v: &Value, otherwise: Option<u32>) -> (r: Option<u32>)
    ensures
        r == positive(v@, otherwise),
{
    match v.as_int() {
        Some(n) => if n > 0 {
            Some(cut_to_u32(n))
        } else {
            otherwise
        },
        None => otherwise,
    }
}

/// What one parameter says.
pub open spec fn gui_with(p: GuiParams, key: Seq<char>, v: Lisp) -> GuiParams {
    if key == "name"@ {
        GuiParams { name: stringish(v), ..p }
    } else if key == "title"@ {
        GuiParams { title: stringish(v), ..p }
    } else if key == "width"@ {
        GuiParams { width_columns: positive(v, p.width_columns), ..p }
    } else if key == "height"@ {
        GuiParams { height_lines: positive(v, p.height_lines), ..p }
    } else if key == "visibility"@ {
        GuiParams { visibility: Some(v != Lisp::Nil), ..p }
    } else {
        p
    }
}

/// What the parameter says that a pair names.
pub open spec fn gui_with_pair(p: GuiParams, item: Lisp) -> GuiParams {
    match item {
        Lisp::Cons(a, d) => match symbol_name(*a) {
            Some(key) => gui_with(p, key, *d),
            None => p,
        },
        _ => p,
    }
}

/// Nothing said.
pub open spec fn no_gui_params() -> GuiParams {
    GuiParams {
        name: None,
        title: None,
        width_columns: None,
        height_lines: None,
        visibility: None,
    }
}

/// What some parameters say, the later ones last.
pub open spec fn gui_params(items: Seq<Lisp>) -> GuiParams
    decreases items.len(),
{
    if items.len() == 0 {
        no_gui_params()
    } else {
        gui_with_pair(gui_params(items.drop_last()), items.last())
    }
}

/// What some parameters say.
pub fn parse_gui_frame_params(items: &Vec<Value>) -> (r: ParsedGuiFrameParams)
    ensures
        r@ == gui_params(views(items@)),
{
    let mut p = ParsedGuiFrameParams {
        name: None,
        title: None,
        width_columns: None,
        height_lines: None,
        visibility: None,
    };
    let ghost all = views(items@);
    let mut i: usize = 0;
    proof {
        assert(all.take(0) =~= Seq::<Lisp>::empty());
    }
    while i < items.len()
        invariant
            i <= items.len(),
            all == views(items@),
            p@ == gui_params(all.take(i as int)),
        decreases items.len() - i,
    {
        proof {
            assert(all.take(i + 1).drop_last() =~= all.take(i as int));
            assert(all.take(i + 1).last() == items@[i as int]@);
            reveal_with_fuel(Value::lisp, 2);
        }
        match &items[i] {
            Value::Cons(a, d) => match a.as_symbol_name() {
                Some(key) => {
                    let key: &str = key.as_str();
                    if str_eq(key, "name") {
                        p.name = stringish_value(d);
                    } else if str_eq(key, "title") {
                        p.title = stringish_value(d);
                    } else if str_eq(key, "width") {
                        p.width_columns = positive_or(d, p.width_columns);
                    } else if str_eq(key, "height") {
                        p.height_lines = positive_or(d, p.height_lines);
                    } else if str_eq(key, "visibility") {
                        p.visibility = Some(d.is_truthy());
                    }
                },
                None => {},
            },
            _ => {},
        }
        i = i + 1;
    }
    proof {
        assert(all.take(i as int) =~= all);
    }
    p
}

/// The sizes from which those of a new frame are counted.
#[derive(Debug, Clone, Copy, PartialEq, Eq)]
pub struct GuiFrameMetrics {
    pub width_px: u32,
    pub height_px: u32,
    pub char_width: u32,
    pub char_height: u32,
    pub font_pixel_size: u32,
    pub minibuffer_height: u32,
}

/// The larger of two sizes.
pub open spec fn larger(a: u32, b: u32) -> u32 {
    if a >= b {
        a
    } else {
        b
    }
}

/// The larger of two sizes.
fn larger_of(a: u32, b: u32) -> (r: u32)
    ensures
        r == larger(a, b),
{
    if a >= b {
        a
    } else {
        b
    }
}

/// The smaller of two sizes.
pub open spec fn smaller(a: u32, b: u32) -> u32 {
    if a <= b {
        a
    } else {
        b
    }
}

/// The product of two sizes, at most the largest size there is.
pub open spec fn times(a: u32, b: u32) -> u32 {
    if a * b <= u32::MAX {
        (a * b) as u32
    } else {
        u32::MAX
    }
}

/// The product of two sizes, at most the largest size there is.
fn size_times(a: u32, b: u32) -> (r: u32)
    ensures
        r == times(a, b),
{
    let x: u64 = a as u64;
    let y: u64 = b as u64;
    proof {
        assert(0 <= x * y <= 0xffff_ffff * 0xffff_ffff) by (nonlinear_arith)
            requires
                0 <= x <= 0xffff_ffff,
                0 <= y <= 0xffff_ffff,
        ;
    }
    let p: u64 = x * y;
    if p <= u32::MAX as u64 {
        p as u32
    } else {
        u32::MAX
    }
}

/// The sizes of the selected frame, or those of a frame of 960 by 640 pixels.
pub open spec fn gui_metrics(frames: Frames) -> GuiFrameMetrics {
    match frames.selected_frame() {
        Some(f) => {
            let minibuffer = match f.minibuffer_leaf {
                Some(l) => larger(larger(l.bounds.height, f.char_height), 1),
                None => larger(times(f.char_height, 2), 1),
            };
            GuiFrameMetrics {
                width_px: larger(f.width, 1),
                height_px: larger(f.height, plus(minibuffer, 1)),
                char_width: larger(f.char_width, 1),
                char_height: larger(f.char_height, 1),
                font_pixel_size: larger(f.font_pixel_size, 1),
                minibuffer_height: minibuffer,
            }
        },
        None => GuiFrameMetrics {
            width_px: 960,
            height_px: 640,
            char_width: 8,
            char_height: 16,
            font_pixel_size: 16,
            minibuffer_height: 32,
        },
    }
}

/// The sizes of the selected frame.
pub fn current_gui_frame_metrics(frames: &FrameManager) -> (r: GuiFrameMetrics)
    ensures
        r == gui_metrics(frames@),
{
    match frames.selected_frame() {
        Some(f) => {
            let minibuffer: u32 = match &f.minibuffer_leaf {
                Some(l) => larger_of(larger_of(l.bounds.height, f.char_height), 1),
                None => larger_of(size_times(f.char_height, 2), 1),
            };
            GuiFrameMetrics {
                width_px: larger_of(f.width, 1),
                height_px: larger_of(f.height, size_plus(minibuffer, 1)),
                char_width: larger_of(f.char_width, 1),
                char_height: larger_of(f.char_height, 1),
                font_pixel_size: larger_of(f.font_pixel_size, 1),
                minibuffer_height: minibuffer,
            }
        },
        None => GuiFrameMetrics {
            width_px: 960,
            height_px: 640,
            char_width: 8,
            char_height: 16,
            font_pixel_size: 16,
            minibuffer_height: 32,
        },
    }
}

/// The width and the height of a new frame in pixels.
pub open spec fn gui_size(p: GuiParams, m: GuiFrameMetrics) -> (u32, u32) {
    (
        match p.width_columns {
            Some(cols) => larger(times(cols, m.char_width), 1),
            None => m.width_px,
        },
        match p.height_lines {
            Some(lines) => plus(
                larger(times(lines, m.char_height), m.char_height),
                m.minibuffer_height,
            ),
            None => m.height_px,
        },
    )
}

/// The width and the height of a new frame in pixels.
fn size_of_gui_frame(p: &ParsedGuiFrameParams, m: &GuiFrameMetrics) -> (r: (u32, u32))
    ensures
        r == gui_size(p@, *m),
{
    let width: u32 = match p.width_columns {
        Some(cols) => larger_of(size_times(cols, m.char_width), 1),
        None => m.width_px,
    };
    let height: u32 = match p.height_lines {
        Some(lines) => size_plus(
            larger_of(size_times(lines, m.char_height), m.char_height),
            m.minibuffer_height,
        ),
        None => m.height_px,
    };
    (width, height)
}

/// The title of a new frame: the title that is given, or its name, or a default.
pub open spec fn gui_title(p: GuiParams) -> Seq<char> {
    match p.title {
        Some(t) => t,
        None => match p.name {
            Some(n) => n,
            None => "Neomacs"@,
        },
    }
}

/// The name of a new frame: the name that is given, or its title.
pub open spec fn gui_name(p: GuiParams) -> Seq<char> {
    match p.name {
        Some(n) => n,
        None => gui_title(p),
    }
}

/// The title of a new frame.
fn title_of_gui_frame(p: &ParsedGuiFrameParams) -> (r: String)
    ensures
        r@ == gui_title(p@),
{
    match &p.title {
        Some(t) => t.clone(),
        None => match &p.name {
            Some(n) => n.clone(),
            None => "Neomacs".to_owned(),
        },
    }
}

/// The name of a new frame.
fn name_of_gui_frame(p: &ParsedGuiFrameParams) -> (r: String)
    ensures
        r@ == gui_name(p@),
{
    match &p.name {
        Some(n) => n.clone(),
        None => title_of_gui_frame(p),
    }
}

/// A frame with all of some parameters set, the later ones last.
pub open spec fn with_all_parameters(f: FrameState, items: Seq<Lisp>) -> FrameState
    decreases items.len(),
{
    if items.len() == 0 {
        f
    } else {
        let g = with_all_parameters(f, items.drop_last());
        match items.last() {
            Lisp::Cons(a, d) => match symbol_name(*a) {
                Some(key) => g.with_parameter(key, *d),
                None => g,
            },
            _ => g,
        }
    }
}

/// A new frame as its parameters and the sizes say: on the window system, the
/// minibuffer window below the root window.
pub open spec fn realized(
    f: FrameState,
    p: GuiParams,
    items: Seq<Lisp>,
    m: GuiFrameMetrics,
    size: (u32, u32),
    buffer: u64,
    minibuffer: Option<u64>,
) -> FrameState {
    let root_height = larger(minus(size.1, m.minibuffer_height), m.char_height);
    let g = FrameState {
        name: lstr(gui_name(p)),
        title: lstr(gui_title(p)),
        width: size.0,
        height: size.1,
        visible: match p.visibility {
            Some(v) => v,
            None => f.visible,
        },
        char_width: m.char_width,
        char_height: m.char_height,
        font_pixel_size: m.font_pixel_size,
        ..f
    };
    let h = with_all_parameters(g.with_parameter("window-system"@, sym("neomacs"@)), items);
    FrameState {
        root: match h.root {
            Windows::Leaf(l, next) => Windows::Leaf(
                Leaf {
                    buffer_id: buffer,
                    bounds: Rect { x: 0, y: 0, width: size.0, height: root_height },
                    ..l
                },
                next,
            ),
            _ => h.root,
        },
        minibuffer_leaf: match h.minibuffer_leaf {
            Some(l) => Some(
                Leaf {
                    buffer_id: match minibuffer {
                        Some(b) => b,
                        None => l.buffer_id,
                    },
                    bounds: Rect {
                        x: 0,
                        y: root_height,
                        width: size.0,
                        height: smaller(m.minibuffer_height, size.1),
                    },
                    ..l
                },
            ),
            None => None,
        },
        ..h
    }
}

impl Frame {
    /// Sets all of some parameters, the later ones last.
    fn set_all_parameters(&mut self, items: &Vec<Value>)
        ensures
            final(self)@ == with_all_parameters(old(self)@, views(items@)),
    {
        let ghost all = views(items@);
        let ghost start = self@;
        let mut i: usize = 0;
        proof {
            assert(all.take(0) =~= Seq::<Lisp>::empty());
        }
        while i < items.len()
            invariant
                i <= items.len(),
                all == views(items@),
                self@ == with_all_parameters(start, all.take(i as int)),
            decreases items.len() - i,
        {
            proof {
                assert(all.take(i + 1).drop_last() =~= all.take(i as int));
                assert(all.take(i + 1).last() == items@[i as int]@);
                reveal_with_fuel(Value::lisp, 2);
            }
            match &items[i] {
                Value::Cons(a, d) => match a.as_symbol_name() {
                    Some(key) => {
                        self.set_parameter(key.as_str(), d.copy());
                    },
                    None => {},
                },
                _ => {},
            }
            i = i + 1;
        }
        proof {
            assert(all.take(i as int) =~= all);
        }
    }

    /// Makes a new frame what its parameters and the sizes say.
    fn realize(
        &mut self,
        p: &ParsedGuiFrameParams,
        items: &Vec<Value>,
        m: &GuiFrameMetrics,
        size: (u32, u32),
        buffer: u64,
        minibuffer: Option<u64>,
    )
        ensures
            final(self)@ == realized(
                old(self)@,
                p@,
                views(items@),
                *m,
                size,
                buffer,
                minibuffer,
            ),
    {
        let root_height: u32 = larger_of(
            size_minus(size.1, m.minibuffer_height),
            m.char_height,
        );
        self.name = Value::string(name_of_gui_frame(p).as_str());
        self.title = Value::string(title_of_gui_frame(p).as_str());
        self.width = size.0;
        self.height = size.1;
        match p.visibility {
            Some(v) => {
                self.visible = v;
            },
            None => {},
        }
        self.char_width = m.char_width;
        self.char_height = m.char_height;
        self.font_pixel_size = m.font_pixel_size;
        self.set_parameter("window-system", Value::symbol("neomacs"));
        self.set_all_parameters(items);
        let root: Windows = match &self.root {
            Windows::Leaf(l, next) => {
                let mut new: Leaf = *l;
                new.buffer_id = buffer;
                new.bounds = Rect { x: 0, y: 0, width: size.0, height: root_height };
                Windows::Leaf(new, Box::new(next.copy()))
            },
            _ => self.root.copy(),
        };
        self.root = root;
        match self.minibuffer_leaf {
            Some(l) => {
                let mut new: Leaf = l;
                match minibuffer {
                    Some(b) => {
                        new.buffer_id = b;
                    },
                    None => {},
                }
                new.bounds = Rect {
                    x: 0,
                    y: root_height,
                    width: size.0,
                    height: if m.minibuffer_height <= size.1 {
                        m.minibuffer_height
                    } else {
                        size.1
                    },
                };
                self.minibuffer_leaf = Some(new);
            },
            None => {},
        }
    }
}

/// What the host of a window system is asked for: a window for a frame.
#[derive(Debug, PartialEq, Eq)]
pub struct GuiFrameHostRequest {
    pub frame_id: u64,
    pub width: u32,
    pub height: u32,
    pub title: String,
}

/// What the host of a window system is asked for.
pub struct HostRequest {
    pub frame_id: u64,
    pub width: u32,
    pub height: u32,
    pub title: Seq<char>,
}

impl View for GuiFrameHostRequest {
    type V = HostRequest;

    open spec fn view(&self) -> HostRequest {
        HostRequest {
            frame_id: self.frame_id,
            width: self.width,
            height: self.height,
            title: self.title@,
        }
    }
}

/// The session with a new frame for a window system, and what the host is asked for.
pub open spec fn gui_frame_made(st: UiState, a: Lisp) -> (UiState, Found<HostRequest>) {
    let items = items_or_none(a);
    let p = gui_params(items);
    let m = gui_metrics(st.frames);
    let size = gui_size(p, m);
    let (buffers, buffer) = current_or_scratch(st.buffers);
    let minibuffer = named_buffer(buffers.list, " *Minibuf-0*"@);
    let id = st.frames.next_frame_id;
    let frames = st.frames.created(lstr(gui_name(p)), size.0, size.1, buffer);
    match frames.get(id) {
        Some(f) => (
            UiState {
                frames: frames.with_frame(
                    id,
                    realized(f, p, items, m, size, buffer, minibuffer),
                ),
                buffers,
            },
            Found::Is(
                HostRequest { frame_id: id, width: size.0, height: size.1, title: gui_title(p) },
            ),
        ),
        None => (
            UiState { frames, buffers },
            Found::Signal(error_outcome("Frame not found"@)),
        ),
    }
}

/// `(x-create-frame PARMS)`, up to the request to the host
pub open spec fn x_create_frame_made(st: UiState, args: Seq<Lisp>) -> (
    UiState,
    Found<HostRequest>,
) {
    if args.len() != 1 {
        (st, Found::Signal(wrong_number("x-create-frame"@, args.len())))
    } else {
        gui_frame_made(st, args[0])
    }
}

/// What a result with a request stands for.
pub open spec fn requested(r: Result<GuiFrameHostRequest, Flow>) -> Found<HostRequest> {
    match r {
        Ok(x) => Found::Is(x@),
        Err(f) => Found::Signal(crate::value::signalled(f)),
    }
}

/// `(x-create-frame PARMS)` -> the request to the host for the new frame.
pub fn builtin_x_create_frame(ui: &mut Ui, args: &Vec<Value>) -> (r: Result<
    GuiFrameHostRequest,
    Flow,
>)
    ensures
        (final(ui)@, requested(r)) == x_create_frame_made(old(ui)@, views(args@)),
{
    expect_args("x-create-frame", args, 1)?;
    let items: Vec<Value> = list_or_empty(&args[0]);
    let p: ParsedGuiFrameParams = parse_gui_frame_params(&items);
    let m: GuiFrameMetrics = current_gui_frame_metrics(&ui.frames);
    let size: (u32, u32) = size_of_gui_frame(&p, &m);
    let buffer: u64 = current_buffer_or_scratch(&mut ui.buffers);
    let minibuffer: Option<u64> = ui.buffers.find_buffer_by_name(" *Minibuf-0*");
    let name: String = name_of_gui_frame(&p);
    let id: u64 = ui.frames.create_frame(
        Value::string(name.as_str()),
        size.0,
        size.1,
        buffer,
    );
    let i: usize = ui.frames.index_of(id);
    if i >= ui.frames.list.len() {
        return Err(crate::value::error_signal("Frame not found"));
    }
    ui.frames.realize_frame(id, &p, &items, &m, size, buffer, minibuffer);
    Ok(
        GuiFrameHostRequest {
            frame_id: id,
            width: size.0,
            height: size.1,
            title: title_of_gui_frame(&p),
        },
    )
}

impl FrameManager {
    /// Makes a new frame what its parameters and the sizes say.
    fn realize_frame(
        &mut self,
        id: u64,
        p: &ParsedGuiFrameParams,
        items: &Vec<Value>,
        m: &GuiFrameMetrics,
        size: (u32, u32),
        buffer: u64,
        minibuffer: Option<u64>,
    )
        ensures
            final(self)@ == (match old(self)@.get(id) {
                Some(f) => old(self)@.with_frame(
                    id,
                    realized(f, p@, views(items@), *m, size, buffer, minibuffer),
                ),
                None => old(self)@,
            }),
    {
        let i: usize = self.index_of(id);
        let ghost before = self@;
        if i < self.list.len() {
            self.list[i].realize(p, items, m, size, buffer, minibuffer);
            proof {
                assert(self@.list =~= before.list.update(
                    i as int,
                    realized(
                        before.list[i as int],
                        p@,
                        views(items@),
                        *m,
                        size,
                        buffer,
                        minibuffer,
                    ),
                ));
                assert(self@.records =~= before.records);
            }
        }
    }
}

} // verus!
