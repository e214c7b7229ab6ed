//! What the percent constructs of a mode line stand for.
use crate::buffer::{max2, min2, Buffer, BufferManager, BufferState, Buffers};
use crate::coding::{CodingSystemManager, Codings};
use crate::encoding::family::{coding_base, strip_eol_suffix};
use crate::frame::{FrameManager, Frames};
use crate::process::ProcessState;
use crate::symbol::{Obarray, Symbols};
use crate::text::{ends_with, has_suffix, is_unicode_scalar, lemma_char, str_eq};
use crate::value::{symbol_name, Lisp, Value};
use crate::window::Window;
use crate::window_cmds::resolve::{designated, window_id_from_designator};
use crate::xdisp::rendered::{marked, string_marks, Mark, ModeLineRendered};
use vstd::prelude::*;

verus! {

/// What a mode line is made from: variables, buffers, processes and how many
/// command loops run inside the first one.
pub struct LineState {
    pub symbols: Symbols,
    pub buffers: Buffers,
    pub processes: Seq<ProcessState>,
    pub depth: int,
}

/// The window and frame that the percent constructs speak of.
pub struct PercentState {
    pub window_start: int,
    pub window_end: int,
    pub frame_name: Option<Lisp>,
    pub coding_mnemonic: char,
    pub terminal_coding_mnemonic: char,
    pub keyboard_coding_mnemonic: char,
    pub is_tty_frame: bool,
    pub eol_indicator: Option<Lisp>,
    pub target_width: Option<usize>,
}

/// The window and frame that the percent constructs speak of.
#[derive(Debug, PartialEq, Eq)]
pub struct ModeLinePercentContext {
    pub window_start: u128,
    pub window_end: u128,
    pub frame_name: Option<Value>,
    pub coding_mnemonic: char,
    pub terminal_coding_mnemonic: char,
    pub keyboard_coding_mnemonic: char,
    pub is_tty_frame: bool,
    pub eol_indicator: Option<Value>,
    pub target_width: Option<usize>,
}

/// No position in a buffer is beyond this.
pub const SPAN_LIMIT: u128 = 0x2_0000_0000_0000_0000;

impl PercentState {
    /// Whether the window's span is one that a buffer can have.
    pub open spec fn bounded(self) -> bool {
        0 <= self.window_start <= SPAN_LIMIT && 0 <= self.window_end <= SPAN_LIMIT
    }
}

/// A value that may be missing.
pub open spec fn opt_view(v: Option<Value>) -> Option<Lisp> {
    match v {
        Some(x) => Some(x@),
        None => None,
    }
}

impl View for ModeLinePercentContext {
    type V = PercentState;

    open spec fn view(&self) -> PercentState {
        PercentState {
            window_start: self.window_start as int,
            window_end: self.window_end as int,
            frame_name: opt_view(self.frame_name),
            coding_mnemonic: self.coding_mnemonic,
            terminal_coding_mnemonic: self.terminal_coding_mnemonic,
            keyboard_coding_mnemonic: self.keyboard_coding_mnemonic,
            is_tty_frame: self.is_tty_frame,
            eol_indicator: opt_view(self.eol_indicator),
            target_width: self.target_width,
        }
    }
}

/// The value of a variable in the current buffer: its local one, else the global one.
pub open spec fn variable(symbols: Symbols, buffers: Buffers, name: Seq<char>) -> Option<Lisp> {
    match buffers.current_buffer() {
        Some(b) => match b.local(name) {
            Some(v) => Some(v),
            None => symbols.value(name),
        },
        None => symbols.value(name),
    }
}

/// The value of a variable in the current buffer.
pub fn mode_line_symbol_value(
    obarray: &Obarray,
    buffers: &BufferManager,
    name: &str,
) -> (r: Option<Value>)
    ensures
        opt_view(r) == variable(obarray@, buffers@, name@),
{
    match buffers.current_buffer() {
        Some(b) => match b.get_buffer_local(name) {
            Some(v) => {
                return Some(v);
            },
            None => {},
        },
        None => {},
    }
    obarray.symbol_value(name)
}

/// The character that stands for a coding system.
pub open spec fn mnemonic(name: Seq<char>) -> char {
    let base = coding_base(name);
    if base == "utf-8"@ || base == "utf-8-emacs"@ || base == "utf-8-auto"@ || base
        == "prefer-utf-8"@ || base == "mule-utf-8"@ {
        'U'
    } else if base == "undecided"@ {
        '-'
    } else if base == "raw-text"@ {
        '='
    } else if base == "no-conversion"@ || base == "binary"@ {
        '0'
    } else if base == "us-ascii"@ || base == "ascii"@ {
        '.'
    } else if base == "iso-8859-1"@ || base == "iso-latin-1"@ || base == "latin-1"@ {
        '1'
    } else if base == "iso-8859-2"@ || base == "iso-latin-2"@ || base == "latin-2"@ {
        '2'
    } else if base == "iso-8859-3"@ || base == "latin-3"@ {
        '3'
    } else if base == "iso-8859-4"@ || base == "latin-4"@ {
        '4'
    } else if base == "iso-8859-5"@ || base == "latin-5"@ {
        '5'
    } else if base == "iso-2022-jp"@ || base == "junet"@ {
        'J'
    } else if base == "euc-jp"@ {
        'E'
    } else if base == "shift_jis"@ || base == "sjis"@ {
        'S'
    } else if base == "iso-2022-kr"@ {
        'K'
    } else if base == "euc-kr"@ {
        'e'
    } else if base == "gb2312"@ || base == "euc-cn"@ || base == "cn-gb"@ {
        'C'
    } else if base == "big5"@ {
        'B'
    } else {
        '-'
    }
}

/// The character that stands for a coding system.
pub fn coding_system_mnemonic_char(name: &str) -> (r: char)
    ensures
        r == mnemonic(name@),
{
    let owned: String = strip_eol_suffix(name);
    let base: &str = owned.as_str();
    if str_eq(base, "utf-8") || str_eq(base, "utf-8-emacs") || str_eq(base, "utf-8-auto")
        || str_eq(base, "prefer-utf-8") || str_eq(base, "mule-utf-8") {
        'U'
    } else if str_eq(base, "undecided") {
        '-'
    } else if str_eq(base, "raw-text") {
        '='
    } else if str_eq(base, "no-conversion") || str_eq(base, "binary") {
        '0'
    } else if str_eq(base, "us-ascii") || str_eq(base, "ascii") {
        '.'
    } else if str_eq(base, "iso-8859-1") || str_eq(base, "iso-latin-1") || str_eq(
        base,
        "latin-1",
    ) {
        '1'
    } else if str_eq(base, "iso-8859-2") || str_eq(base, "iso-latin-2") || str_eq(
        base,
        "latin-2",
    ) {
        '2'
    } else if str_eq(base, "iso-8859-3") || str_eq(base, "latin-3") {
        '3'
    } else if str_eq(base, "iso-8859-4") || str_eq(base, "latin-4") {
        '4'
    } else if str_eq(base, "iso-8859-5") || str_eq(base, "latin-5") {
        '5'
    } else if str_eq(base, "iso-2022-jp") || str_eq(base, "junet") {
        'J'
    } else if str_eq(base, "euc-jp") {
        'E'
    } else if str_eq(base, "shift_jis") || str_eq(base, "sjis") {
        'S'
    } else if str_eq(base, "iso-2022-kr") {
        'K'
    } else if str_eq(base, "euc-kr") {
        'e'
    } else if str_eq(base, "gb2312") || str_eq(base, "euc-cn") || str_eq(base, "cn-gb") {
        'C'
    } else if str_eq(base, "big5") {
        'B'
    } else {
        '-'
    }
}

/// The character that a value is.
pub open spec fn char_value(v: Lisp) -> Option<char> {
    match v {
        Lisp::Int(n) => if 0 <= n <= 0x10FFFF && is_unicode_scalar(n as u32) {
            Some(n as u32 as char)
        } else {
            None
        },
        _ => None,
    }
}

/// The character that a value is.
pub fn as_char(v: &Value) -> (r: Option<char>)
    ensures
        r == char_value(v@),
{
    match v {
        Value::Int(n) => if 0 <= *n && *n <= 0x10FFFF {
            match char::from_u32(*n as u32) {
                Some(c) => {
                    proof {
                        lemma_char(c);
                    }
                    Some(c)
                },
                None => None,
            }
        } else {
            None
        },
        _ => None,
    }
}

/// The text of a string with its properties, or the character that a value is.
pub open spec fn text_or_char(v: Lisp) -> Seq<Mark> {
    match v {
        Lisp::Str(_, _) => string_marks(v),
        _ => match char_value(v) {
            Some(c) => seq![marked(c, Lisp::Nil)],
            None => Seq::empty(),
        },
    }
}

/// The text of a string with its properties, or the character that a value is.
pub fn text_or_character(v: &Value) -> (r: ModeLineRendered)
    ensures
        r@ == text_or_char(v@),
{
    if v.is_string() {
        return ModeLineRendered::of_string(v);
    }
    let mut r = ModeLineRendered::new();
    match as_char(v) {
        Some(c) => {
            r.push(c, Value::Nil);
            proof {
                assert(r@ =~= text_or_char(v@));
            }
        },
        None => {},
    }
    r
}

/// The name of the variable that shows the line endings of a coding system.
pub open spec fn eol_variable(name: Seq<char>) -> Seq<char> {
    if has_suffix(name, "-dos"@) {
        "eol-mnemonic-dos"@
    } else if has_suffix(name, "-mac"@) {
        "eol-mnemonic-mac"@
    } else if has_suffix(name, "-unix"@) {
        "eol-mnemonic-unix"@
    } else {
        "eol-mnemonic-undecided"@
    }
}

/// What shows the line endings of a coding system.
pub open spec fn eol_shown(symbols: Symbols, name: Seq<char>) -> Option<Lisp> {
    match symbols.value(eol_variable(name)) {
        Some(v) => if v is Str || char_value(v) is Some {
            Some(v)
        } else {
            None
        },
        None => None,
    }
}

/// What shows the line endings of a coding system.
fn coding_system_eol_indicator(obarray: &Obarray, name: &str) -> (r: Option<Value>)
    ensures
        opt_view(r) == eol_shown(obarray@, name@),
{
    let v: Option<Value> = if ends_with(name, "-dos") {
        obarray.symbol_value("eol-mnemonic-dos")
    } else if ends_with(name, "-mac") {
        obarray.symbol_value("eol-mnemonic-mac")
    } else if ends_with(name, "-unix") {
        obarray.symbol_value("eol-mnemonic-unix")
    } else {
        obarray.symbol_value("eol-mnemonic-undecided")
    };
    match v {
        Some(x) => if x.is_string() || as_char(&x).is_some() {
            Some(x)
        } else {
            None
        },
        None => None,
    }
}

/// The window that a mode line is for: the one that an argument designates, else
/// the selected one.
pub open spec fn line_window(frames: Frames, a: Lisp) -> Option<Window> {
    let selected = match frames.selected_frame() {
        Some(f) => f.window(f.selected_window),
        None => None,
    };
    match designated(a) {
        Some(id) => match frames.frame_of_valid(id) {
            Some(f) => frames.window(f, id),
            None => selected,
        },
        None => selected,
    }
}

/// The window that a mode line is for.
fn resolve_mode_line_window(frames: &FrameManager, a: &Value) -> (r: Option<Window>)
    ensures
        r == line_window(frames@, a@),
{
    match window_id_from_designator(a) {
        Some(id) => match frames.find_valid_window_frame_id(id) {
            Some(f) => {
                return frames.find_window(f, id);
            },
            None => {},
        },
        None => {},
    }
    match frames.selected_frame() {
        Some(f) => f.find_window(f.selected_window),
        None => None,
    }
}

/// The buffer that a mode line's window shows, else the current one.
pub open spec fn line_buffer(frames: Frames, buffers: Buffers, a: Lisp) -> Option<BufferState> {
    match line_window(frames, a) {
        Some(w) => match w.shown_buffer() {
            Some(id) => match buffers.get(id) {
                Some(b) => Some(b),
                None => buffers.current_buffer(),
            },
            None => buffers.current_buffer(),
        },
        None => buffers.current_buffer(),
    }
}

/// How many characters stand before the end of the accessible region.
pub open spec fn last_char(b: BufferState) -> int {
    b.chars_before(b.zv) as int
}

/// How many characters stand before the start of the accessible region.
pub open spec fn first_char(b: BufferState) -> int {
    b.chars_before(b.begv) as int
}

/// Where the window of a mode line starts and ends, in characters from zero.
pub open spec fn line_span(frames: Frames, buffers: Buffers, a: Lisp) -> (int, int) {
    match line_window(frames, a) {
        Some(Window::Leaf(l)) => {
            let start = max2(l.window_start - 1, 0);
            match line_buffer(frames, buffers, a) {
                Some(b) => (start, max2(last_char(b) + 1 - l.window_end_pos, 0)),
                None => (start, start),
            }
        },
        Some(Window::Internal(_)) => (0, 0),
        None => match line_buffer(frames, buffers, a) {
            Some(b) => (0, last_char(b)),
            None => (0, 0),
        },
    }
}

/// The name of the selected frame: its title, else its name where it was given one
/// or the frame is on a terminal.
pub open spec fn shown_frame_name(frames: Frames) -> Option<Lisp> {
    match frames.selected_frame() {
        Some(f) => if f.title is Str {
            Some(f.title)
        } else if (f.explicit_name || !f.on_window_system()) && f.name is Str {
            Some(f.name)
        } else {
            None
        },
        None => None,
    }
}

/// Whether the selected frame is on a terminal.
pub open spec fn on_terminal(frames: Frames) -> bool {
    match frames.selected_frame() {
        Some(f) => !f.on_window_system(),
        None => false,
    }
}

/// The coding system of the buffer of a mode line.
pub open spec fn line_coding(frames: Frames, buffers: Buffers, a: Lisp) -> Option<Seq<char>> {
    match line_buffer(frames, buffers, a) {
        Some(b) => match b.local("buffer-file-coding-system"@) {
            Some(v) => symbol_name(v),
            None => None,
        },
        None => None,
    }
}

/// The character for the coding system that a variable names.
pub open spec fn variable_mnemonic(symbols: Symbols, name: Seq<char>) -> char {
    match symbols.value(name) {
        Some(v) => match symbol_name(v) {
            Some(s) => mnemonic(s),
            None => '-',
        },
        None => '-',
    }
}

/// The window and frame that the percent constructs speak of. The coding systems
/// of the terminal and the keyboard are those of the session where they are known,
/// else those that variables name.
pub open spec fn percent_state(
    frames: Frames,
    buffers: Buffers,
    codings: Option<Codings>,
    symbols: Symbols,
    a: Lisp,
    width: Option<usize>,
) -> PercentState {
    let coding = line_coding(frames, buffers, a);
    PercentState {
        window_start: line_span(frames, buffers, a).0,
        window_end: line_span(frames, buffers, a).1,
        frame_name: shown_frame_name(frames),
        coding_mnemonic: match coding {
            Some(s) => mnemonic(s),
            None => '-',
        },
        terminal_coding_mnemonic: if !on_terminal(frames) {
            '\0'
        } else {
            match codings {
                Some(c) => mnemonic(c.terminal),
                None => variable_mnemonic(symbols, "terminal-coding-system"@),
            }
        },
        keyboard_coding_mnemonic: if !on_terminal(frames) {
            '\0'
        } else {
            match codings {
                Some(c) => mnemonic(c.keyboard),
                None => variable_mnemonic(symbols, "keyboard-coding-system"@),
            }
        },
        is_tty_frame: on_terminal(frames),
        eol_indicator: match coding {
            Some(s) => eol_shown(symbols, s),
            None => None,
        },
        target_width: width,
    }
}

/// What coding systems are known.
pub open spec fn codings_view(c: Option<&CodingSystemManager>) -> Option<Codings> {
    match c {
        Some(m) => Some(m@),
        None => None,
    }
}

/// The character for the coding system that a variable names.
fn symbol_mnemonic(obarray: &Obarray, name: &str) -> (r: char)
    ensures
        r == variable_mnemonic(obarray@, name@),
{
    match obarray.symbol_value(name) {
        Some(v) => match v.as_symbol_name() {
            Some(s) => coding_system_mnemonic_char(s.as_str()),
            None => '-',
        },
        None => '-',
    }
}

/// Builds the window and frame context of the percent constructs.
pub fn build_mode_line_percent_context(
    frames: &FrameManager,
    buffers: &BufferManager,
    codings: Option<&CodingSystemManager>,
    obarray: &Obarray,
    window_arg: &Value,
    width: Option<usize>,
) -> (r: ModeLinePercentContext)
    ensures
        r@ == percent_state(
            frames@,
            buffers@,
            codings_view(codings),
            obarray@,
            window_arg@,
            width,
        ),
        r@.bounded(),
{
    let mut frame_name: Option<Value> = None;
    let mut tty: bool = false;
    match frames.selected_frame() {
        Some(f) => {
            tty = !f.uses_window_system();
            if f.title.is_string() {
                frame_name = Some(f.title.copy());
            } else if (f.explicit_name || tty) && f.name.is_string() {
                frame_name = Some(f.name.copy());
            }
        },
        None => {},
    }
    let window: Option<Window> = resolve_mode_line_window(frames, window_arg);
    let shown: Option<&Buffer> = match &window {
        Some(w) => match w.buffer_id() {
            Some(id) => match buffers.get(id) {
                Some(b) => Some(b),
                None => buffers.current_buffer(),
            },
            None => buffers.current_buffer(),
        },
        None => buffers.current_buffer(),
    };
    let mut start: u128 = 0;
    let mut end: u128 = 0;
    match &window {
        Some(Window::Leaf(l)) => {
            start = if l.window_start == 0 {
                0
            } else {
                (l.window_start - 1) as u128
            };
            match shown {
                Some(b) => {
                    let z: u128 = b.byte_to_char(b.zv) as u128 + 1;
                    end = if z > l.window_end_pos as u128 {
                        z - l.window_end_pos as u128
                    } else {
                        0
                    };
                },
                None => {
                    end = start;
                },
            }
        },
        Some(Window::Internal(_)) => {},
        None => match shown {
            Some(b) => {
                end = b.byte_to_char(b.zv) as u128;
            },
            None => {},
        },
    }
    let coding: Option<String> = match shown {
        Some(b) => match b.get_buffer_local("buffer-file-coding-system") {
            Some(v) => v.as_symbol_name(),
            None => None,
        },
        None => None,
    };
    let mut coding_mnemonic: char = '-';
    let mut eol_indicator: Option<Value> = None;
    match &coding {
        Some(s) => {
            coding_mnemonic = coding_system_mnemonic_char(s.as_str());
            eol_indicator = coding_system_eol_indicator(obarray, s.as_str());
        },
        None => {},
    }
    let mut terminal: char = '\0';
    let mut keyboard: char = '\0';
    if tty {
        match codings {
            Some(c) => {
                terminal = coding_system_mnemonic_char(c.terminal.as_str());
                keyboard = coding_system_mnemonic_char(c.keyboard.as_str());
            },
            None => {
                terminal = symbol_mnemonic(obarray, "terminal-coding-system");
                keyboard = symbol_mnemonic(obarray, "keyboard-coding-system");
            },
        }
    }
    ModeLinePercentContext {
        window_start: start,
        window_end: end,
        frame_name,
        coding_mnemonic,
        terminal_coding_mnemonic: terminal,
        keyboard_coding_mnemonic: keyboard,
        is_tty_frame: tty,
        eol_indicator,
        target_width: width,
    }
}

/// A share of a whole in percent, rounded up and at most 99.
pub open spec fn percent99(n: int, d: int) -> int {
    if d <= 0 {
        0
    } else {
        min2((d - 1 + 100 * n) / d, 99)
    }
}

/// A share of a whole in percent, rounded up and at most 99.
pub fn share_in_percent(n: u128, d: u128) -> (r: u64)
    requires
        n <= 2 * SPAN_LIMIT,
        d <= 2 * SPAN_LIMIT,
    ensures
        r == percent99(n as int, d as int),
{
    if d == 0 {
        return 0;
    }
    let p: u128 = (d - 1 + 100 * n) / d;
    if p < 99 {
        p as u64
    } else {
        99
    }
}

} // verus!
