//! Strings with percent constructs in them.
use crate::buffer::{max2, Buffer, BufferManager};
use crate::process::ProcessManager;
use crate::symbol::Obarray;
use crate::text::{chars_of, code_of, digits, unsigned_text};
use crate::value::{str_chars, Lisp, Value};
use crate::xdisp::construct::{
    both_shares, both_shares_text, bottom_share, bottom_share_text, buffer_read_only, column,
    is_remote_directory, line_number, mode_line_human_readable_size, mode_line_process_status,
    prefix_line_and_column, process_status, read_only, readable_size, region, region_of, remote,
    top_share, top_share_text, travel, travel_text,
};
use crate::xdisp::percent::{
    mode_line_symbol_value, text_or_char, text_or_character, variable, LineState,
    ModeLinePercentContext, PercentState,
};
use crate::xdisp::rendered::{
    marked, overlaid, plain, segment, string_marks, Mark, ModeLineRendered,
};
use vstd::prelude::*;

verus! {

/// What a mode line is made from.
pub open spec fn line_state(
    obarray: Obarray,
    buffers: BufferManager,
    processes: ProcessManager,
    depth: int,
) -> LineState {
    LineState { symbols: obarray@, buffers: buffers@, processes: processes@, depth }
}

/// A character some times over.
pub open spec fn repeated(c: char, n: int) -> Seq<char> {
    Seq::new(
        if n > 0 {
            n as nat
        } else {
            0
        },
        |i: int| c,
    )
}

/// A character some times over.
fn repeat(c: char, n: usize) -> (r: Vec<char>)
    ensures
        r@ == repeated(c, n as int),
{
    let mut out: Vec<char> = Vec::new();
    let mut i: usize = 0;
    proof {
        assert(out@ =~= repeated(c, 0));
    }
    while i < n
        invariant
            i <= n,
            out@ == repeated(c, i as int),
        decreases n - i,
    {
        proof {
            assert(repeated(c, i + 1) =~= repeated(c, i as int).push(c));
        }
        out.push(c);
        i = i + 1;
    }
    out
}

/// The size of the accessible region of the current buffer, in bytes.
pub open spec fn region_size(e: LineState) -> nat {
    match e.buffers.current_buffer() {
        Some(b) => max2(b.zv - b.begv, 0) as nat,
        None => 0,
    }
}

/// Whether the current buffer has changes that are not saved.
pub open spec fn is_modified(e: LineState) -> bool {
    e.buffers.current_buffer() matches Some(b) && b.modified
}

/// Whether the current buffer is read-only.
pub open spec fn is_read_only(e: LineState) -> bool {
    e.buffers.current_buffer() matches Some(b) && read_only(e.symbols, b)
}

/// Whether part of the current buffer is not accessible.
pub open spec fn is_narrowed(e: LineState) -> bool {
    e.buffers.current_buffer() matches Some(b) && (b.begv > 0 || b.zv < b.text.len())
}

/// The line of point in the current buffer.
pub open spec fn current_line(e: LineState) -> int {
    match e.buffers.current_buffer() {
        Some(b) => line_number(b),
        None => 1,
    }
}

/// The column of point in the current buffer.
pub open spec fn current_column(e: LineState) -> int {
    match e.buffers.current_buffer() {
        Some(b) => column(b),
        None => 0,
    }
}

/// A text about where a window is in the accessible region; nothing without a buffer.
pub open spec fn where_text(
    e: LineState,
    p: PercentState,
    f: spec_fn(int, int, int, int) -> Seq<char>,
) -> Seq<char> {
    match e.buffers.current_buffer() {
        Some(b) => f(region(b).0, region(b).1, p.window_start, p.window_end),
        None => seq![],
    }
}

/// The characters for the coding systems of a mode line.
pub open spec fn coding_text(p: PercentState) -> Seq<char> {
    if p.is_tty_frame {
        seq![p.terminal_coding_mnemonic, p.keyboard_coding_mnemonic, p.coding_mnemonic]
    } else {
        seq![p.coding_mnemonic]
    }
}

/// Dashes: as many as fill the row after `so_far` characters, two where there is
/// no row to fill.
pub open spec fn dashes(p: PercentState, so_far: int) -> Seq<char> {
    match p.target_width {
        Some(w) => if w > so_far {
            repeated('-', w - so_far)
        } else {
            "--"@
        },
        None => "--"@,
    }
}

/// Whether the default directory is remote.
pub open spec fn in_remote_directory(e: LineState) -> bool {
    match variable(e.symbols, e.buffers, "default-directory"@) {
        Some(v) => match str_chars(v) {
            Some(dir) => remote(dir),
            None => false,
        },
        None => false,
    }
}

/// The text of a percent construct that has no properties of its own.
pub open spec fn construct_text(e: LineState, p: PercentState, c: char, so_far: int) -> Seq<char> {
    if c == 'b' {
        match e.buffers.current_buffer() {
            Some(b) => b.name,
            None => "*scratch*"@,
        }
    } else if c == 'f' {
        match e.buffers.current_buffer() {
            Some(b) => match str_chars(b.file_name) {
                Some(s) => s,
                None => seq![],
            },
            None => seq![],
        }
    } else if c == 'i' {
        digits(region_size(e))
    } else if c == 'I' {
        readable_size(region_size(e))
    } else if c == '*' {
        if is_read_only(e) {
            "%"@
        } else if is_modified(e) {
            "*"@
        } else {
            "-"@
        }
    } else if c == '+' {
        if is_modified(e) {
            "*"@
        } else if is_read_only(e) {
            "%"@
        } else {
            "-"@
        }
    } else if c == '&' {
        if is_modified(e) {
            "*"@
        } else {
            "-"@
        }
    } else if c == '-' {
        dashes(p, so_far)
    } else if c == '%' {
        "%"@
    } else if c == 'n' {
        if is_narrowed(e) {
            " Narrow"@
        } else {
            seq![]
        }
    } else if c == 's' {
        process_status(e)
    } else if c == 'l' {
        digits(current_line(e) as nat)
    } else if c == 'c' {
        digits(current_column(e) as nat)
    } else if c == 'C' {
        digits((current_column(e) + 1) as nat)
    } else if c == 'p' {
        where_text(e, p, |a: int, b: int, s: int, t: int| top_share(a, b, s, t))
    } else if c == 'P' {
        where_text(e, p, |a: int, b: int, s: int, t: int| bottom_share(a, b, s, t))
    } else if c == 'o' {
        where_text(e, p, |a: int, b: int, s: int, t: int| travel(a, b, s, t))
    } else if c == 'q' {
        where_text(e, p, |a: int, b: int, s: int, t: int| both_shares(a, b, s, t))
    } else if c == 'z' {
        coding_text(p)
    } else if c == '@' {
        if in_remote_directory(e) {
            "@"@
        } else {
            "-"@
        }
    } else if c == '[' {
        if e.depth > 5 {
            "[[[... "@
        } else {
            repeated('[', e.depth)
        }
    } else if c == ']' {
        if e.depth > 5 {
            " ...]]]"@
        } else {
            repeated(']', e.depth)
        }
    } else if c == 'e' {
        seq![]
    } else if c == ' ' {
        " "@
    } else {
        seq!['%', c]
    }
}

/// What a percent construct stands for, where `so_far` characters precede it.
pub open spec fn construct_marks(e: LineState, p: PercentState, c: char, so_far: int) -> Seq<
    Mark,
> {
    if c == 'F' {
        match p.frame_name {
            Some(v) => text_or_char(v),
            None => plain("Emacs"@),
        }
    } else if c == 'm' {
        match variable(e.symbols, e.buffers, "mode-name"@) {
            Some(v) => string_marks(v),
            None => seq![],
        }
    } else if c == 'Z' {
        plain(coding_text(p)) + (match p.eol_indicator {
            Some(v) => text_or_char(v),
            None => plain(":"@),
        })
    } else {
        plain(construct_text(e, p, c, so_far))
    }
}

/// The characters for the coding systems of a mode line.
fn coding_characters(p: &ModeLinePercentContext) -> (r: Vec<char>)
    ensures
        r@ == coding_text(p@),
{
    let mut out: Vec<char> = Vec::new();
    if p.is_tty_frame {
        out.push(p.terminal_coding_mnemonic);
        out.push(p.keyboard_coding_mnemonic);
    }
    out.push(p.coding_mnemonic);
    proof {
        assert(out@ =~= coding_text(p@));
    }
    out
}

/// What a mode line shows of the current buffer's state.
fn status_characters(modified: bool, read_only: bool, c: char) -> (r: Vec<char>)
    requires
        c == '*' || c == '+' || c == '&',
    ensures
        r@ == (if c == '*' && read_only {
            "%"@
        } else if modified {
            "*"@
        } else if c == '+' && read_only {
            "%"@
        } else {
            "-"@
        }),
{
    if c == '*' && read_only {
        chars_of("%")
    } else if modified {
        chars_of("*")
    } else if c == '+' && read_only {
        chars_of("%")
    } else {
        chars_of("-")
    }
}

/// A text about where a window is in the accessible region of a buffer.
fn where_characters(b: &Buffer, p: &ModeLinePercentContext, c: char) -> (r: Vec<char>)
    requires
        p@.bounded(),
        c == 'p' || c == 'P' || c == 'o' || c == 'q',
    ensures
        ({
            let (begv, zv) = region(b@);
            r@ == (if c == 'p' {
                top_share(begv, zv, p@.window_start, p@.window_end)
            } else if c == 'P' {
                bottom_share(begv, zv, p@.window_start, p@.window_end)
            } else if c == 'o' {
                travel(begv, zv, p@.window_start, p@.window_end)
            } else {
                both_shares(begv, zv, p@.window_start, p@.window_end)
            })
        }),
{
    let (begv, zv) = region_of(b);
    if c == 'p' {
        top_share_text(begv, zv, p.window_start, p.window_end)
    } else if c == 'P' {
        bottom_share_text(begv, zv, p.window_start, p.window_end)
    } else if c == 'o' {
        travel_text(begv, zv, p.window_start, p.window_end)
    } else {
        both_shares_text(begv, zv, p.window_start, p.window_end)
    }
}

/// The text of a percent construct that has no properties of its own.
#[verifier::rlimit(40)]
fn construct_characters(
    obarray: &Obarray,
    buffers: &BufferManager,
    processes: &ProcessManager,
    depth: usize,
    p: &ModeLinePercentContext,
    c: char,
    so_far: usize,
) -> (r: Vec<char>)
    requires
        p@.bounded(),
    ensures
        r@ == construct_text(
            line_state(*obarray, *buffers, *processes, depth as int),
            p@,
            c,
            so_far as int,
        ),
{
    let buf: Option<&Buffer> = buffers.current_buffer();
    let ghost e = line_state(*obarray, *buffers, *processes, depth as int);
    if c == 'b' {
        match buf {
            Some(b) => chars_of(b.name.as_str()),
            None => chars_of("*scratch*"),
        }
    } else if c == 'f' {
        match buf {
            Some(b) => match b.file_name.as_runtime_string() {
                Some(s) => s,
                None => Vec::new(),
            },
            None => Vec::new(),
        }
    } else if c == 'i' || c == 'I' {
        let size: usize = match buf {
            Some(b) => if b.zv > b.begv {
                b.zv - b.begv
            } else {
                0
            },
            None => 0,
        };
        proof {
            assert(size == region_size(e));
        }
        if c == 'i' {
            unsigned_text(size as u128)
        } else {
            mode_line_human_readable_size(size)
        }
    } else if c == '*' || c == '+' || c == '&' {
        let modified: bool = match buf {
            Some(b) => b.modified,
            None => false,
        };
        let read_only: bool = match buf {
            Some(b) => buffer_read_only(obarray, b),
            None => false,
        };
        proof {
            assert(modified == is_modified(e));
            assert(read_only == is_read_only(e));
        }
        status_characters(modified, read_only, c)
    } else if c == '-' {
        match p.target_width {
            Some(w) => if w > so_far {
                repeat('-', w - so_far)
            } else {
                chars_of("--")
            },
            None => chars_of("--"),
        }
    } else if c == '%' {
        chars_of("%")
    } else if c == 'n' {
        let narrowed: bool = match buf {
            Some(b) => b.begv > 0 || b.zv < b.text.len(),
            None => false,
        };
        proof {
            assert(narrowed == is_narrowed(e));
        }
        if narrowed {
            chars_of(" Narrow")
        } else {
            Vec::new()
        }
    } else if c == 's' {
        let r: Vec<char> = mode_line_process_status(buffers, processes);
        proof {
            assert(r@ == process_status(e));
        }
        r
    } else if c == 'l' || c == 'c' || c == 'C' {
        let (line, col) = match buf {
            Some(b) => prefix_line_and_column(b),
            None => (1, 0),
        };
        proof {
            assert(line == current_line(e) && col == current_column(e));
        }
        if c == 'l' {
            unsigned_text(line)
        } else if c == 'c' {
            unsigned_text(col as u128)
        } else {
            unsigned_text(col as u128 + 1)
        }
    } else if c == 'p' || c == 'P' || c == 'o' || c == 'q' {
        match buf {
            Some(b) => where_characters(b, p, c),
            None => Vec::new(),
        }
    } else if c == 'z' {
        coding_characters(p)
    } else if c == '@' {
        let far: bool = match mode_line_symbol_value(obarray, buffers, "default-directory") {
            Some(v) => match v.as_runtime_string() {
                Some(dir) => is_remote_directory(&dir),
                None => false,
            },
            None => false,
        };
        proof {
            assert(far == in_remote_directory(e));
        }
        if far {
            chars_of("@")
        } else {
            chars_of("-")
        }
    } else if c == '[' {
        if depth > 5 {
            chars_of("[[[... ")
        } else {
            repeat('[', depth)
        }
    } else if c == ']' {
        if depth > 5 {
            chars_of(" ...]]]")
        } else {
            repeat(']', depth)
        }
    } else if c == 'e' {
        Vec::new()
    } else if c == ' ' {
        chars_of(" ")
    } else {
        let mut unknown: Vec<char> = Vec::new();
        unknown.push('%');
        unknown.push(c);
        proof {
            assert(unknown@ =~= seq!['%', c]);
        }
        unknown
    }
}

/// What a percent construct stands for, where `so_far` characters precede it.
fn construct(
    obarray: &Obarray,
    buffers: &BufferManager,
    processes: &ProcessManager,
    depth: usize,
    p: &ModeLinePercentContext,
    c: char,
    so_far: usize,
) -> (r: ModeLineRendered)
    requires
        p@.bounded(),
    ensures
        r@ == construct_marks(
            line_state(*obarray, *buffers, *processes, depth as int),
            p@,
            c,
            so_far as int,
        ),
{
    if c == 'F' {
        match &p.frame_name {
            Some(v) => text_or_character(v),
            None => ModeLineRendered::plain(chars_of("Emacs").as_slice()),
        }
    } else if c == 'm' {
        match mode_line_symbol_value(obarray, buffers, "mode-name") {
            Some(v) => ModeLineRendered::of_string(&v),
            None => ModeLineRendered::new(),
        }
    } else if c == 'Z' {
        let mut r = ModeLineRendered::plain(coding_characters(p).as_slice());
        match &p.eol_indicator {
            Some(v) => {
                r.append_rendered(&text_or_character(v));
            },
            None => {
                r.append_rendered(&ModeLineRendered::plain(chars_of(":").as_slice()));
            },
        }
        r
    } else {
        let text: Vec<char> = construct_characters(
            obarray,
            buffers,
            processes,
            depth,
            p,
            c,
            so_far,
        );
        ModeLineRendered::plain(text.as_slice())
    }
}

/// Whether a character is a decimal digit.
pub open spec fn is_digit(c: char) -> bool {
    '0' <= c <= '9'
}

/// A number with one more digit; the largest one where it has no room.
pub open spec fn grown(acc: u64, c: char) -> u64 {
    if acc <= 1_000_000_000_000_000_000 {
        (acc * 10 + (c as u32 - 0x30)) as u64
    } else {
        u64::MAX
    }
}

/// The number that is written at an index, and the index after it.
pub open spec fn number_at(f: Seq<Mark>, i: int, acc: u64) -> (u64, int)
    decreases f.len() - i,
{
    if 0 <= i < f.len() && is_digit(f[i].c) {
        number_at(f, i + 1, grown(acc, f[i].c))
    } else {
        (acc, i)
    }
}

/// The number that is written at an index, and the index after it.
fn read_number(f: &ModeLineRendered, i: usize) -> (r: (u64, usize))
    requires
        i <= f@.len(),
    ensures
        r.0 == number_at(f@, i as int, 0).0,
        r.1 == number_at(f@, i as int, 0).1,
        i <= r.1 <= f@.len(),
{
    let mut j: usize = i;
    let mut n: u64 = 0;
    while j < f.chars.len() && '0' <= f.chars[j].c && f.chars[j].c <= '9'
        invariant
            i <= j <= f@.len(),
            f@.len() == f.chars.len(),
            number_at(f@, j as int, n) == number_at(f@, i as int, 0),
        decreases f@.len() - j,
    {
        let c: char = f.chars[j].c;
        proof {
            assert(f@[j as int].c == c);
        }
        let d: u32 = code_of(c) - 0x30;
        n = if n <= 1_000_000_000_000_000_000 {
            n * 10 + d as u64
        } else {
            u64::MAX
        };
        j = j + 1;
    }
    proof {
        if j < f@.len() {
            assert(f@[j as int].c == f.chars@[j as int].c);
        }
    }
    (n, j)
}

/// A text followed by what a string stands for from an index on: its characters
/// with their properties, and its percent constructs, each padded to its field
/// width and with the properties of its percent sign.
pub open spec fn expanded(
    e: LineState,
    p: PercentState,
    f: Seq<Mark>,
    i: int,
    out: Seq<Mark>,
) -> Seq<Mark>
    decreases f.len() - i,
{
    if i < 0 || i >= f.len() {
        out
    } else if f[i].c != '%' {
        expanded(e, p, f, i + 1, out.push(f[i]))
    } else {
        let (width, j) = number_at(f, i + 1, 0);
        if i < j < f.len() {
            let seg = overlaid(construct_marks(e, p, f[j].c, out.len() as int), f[i].props);
            expanded(e, p, f, j + 1, out + segment(seg, width as int, 0))
        } else {
            out + segment(overlaid(plain("%"@), f[i].props), width as int, 0)
        }
    }
}

/// Appends what a string stands for, with its percent constructs.
pub fn expand_mode_line_percent(
    obarray: &Obarray,
    buffers: &BufferManager,
    processes: &ProcessManager,
    depth: usize,
    p: &ModeLinePercentContext,
    value: &Value,
    result: &mut ModeLineRendered,
)
    requires
        p@.bounded(),
    ensures
        final(result)@ == expanded(
            line_state(*obarray, *buffers, *processes, depth as int),
            p@,
            string_marks(value@),
            0,
            old(result)@,
        ),
{
    let f: ModeLineRendered = ModeLineRendered::of_string(value);
    let ghost e = line_state(*obarray, *buffers, *processes, depth as int);
    let ghost whole = expanded(e, p@, f@, 0, result@);
    let mut i: usize = 0;
    while i < f.chars.len()
        invariant
            i <= f@.len(),
            f@.len() == f.chars.len(),
            p@.bounded(),
            e == line_state(*obarray, *buffers, *processes, depth as int),
            f@ == string_marks(value@),
            whole == expanded(e, p@, f@, 0, old(result)@),
            whole == expanded(e, p@, f@, i as int, result@),
        decreases f@.len() - i,
    {
        proof {
            assert(f@[i as int] == f.chars@[i as int]@);
        }
        let c: char = f.chars[i].c;
        if c != '%' {
            result.push(c, f.chars[i].props.copy());
            i = i + 1;
        } else {
            let (width, j) = read_number(&f, i + 1);
            if j < f.chars.len() {
                proof {
                    assert(f@[j as int] == f.chars@[j as int]@);
                }
                let so_far: usize = result.char_len();
                let mut seg: ModeLineRendered = construct(
                    obarray,
                    buffers,
                    processes,
                    depth,
                    p,
                    f.chars[j].c,
                    so_far,
                );
                seg.overlay_properties(&f.chars[i].props);
                result.append_rendered(&seg.segment(width, 0));
                i = j + 1;
            } else {
                let mut seg: ModeLineRendered = ModeLineRendered::plain(chars_of("%").as_slice());
                seg.overlay_properties(&f.chars[i].props);
                result.append_rendered(&seg.segment(width, 0));
                return;
            }
        }
    }
}

/// A text followed by a string: as it stands, or with its percent constructs.
pub open spec fn with_string(
    e: LineState,
    p: PercentState,
    out: Seq<Mark>,
    v: Lisp,
    literal: bool,
) -> Seq<Mark> {
    if literal {
        out + string_marks(v)
    } else {
        expanded(e, p, string_marks(v), 0, out)
    }
}

/// Appends a string: as it stands, or with its percent constructs.
pub fn append_mode_line_string(
    obarray: &Obarray,
    buffers: &BufferManager,
    processes: &ProcessManager,
    depth: usize,
    p: &ModeLinePercentContext,
    result: &mut ModeLineRendered,
    value: &Value,
    literal: bool,
)
    requires
        p@.bounded(),
    ensures
        final(result)@ == with_string(
            line_state(*obarray, *buffers, *processes, depth as int),
            p@,
            old(result)@,
            value@,
            literal,
        ),
{
    if literal {
        result.append_rendered(&ModeLineRendered::of_string(value));
    } else {
        expand_mode_line_percent(obarray, buffers, processes, depth, p, value, result);
    }
}

proof fn lemma_literal_from(e: LineState, p: PercentState, f: Seq<Mark>, i: int, out: Seq<Mark>)
    requires
        0 <= i <= f.len(),
        forall|k: int| 0 <= k < f.len() ==> (#[trigger] f[k]).c != '%',
    ensures
        expanded(e, p, f, i, out) == out + f.skip(i),
    decreases f.len() - i,
{
    if i < f.len() {
        assert(f[i].c != '%');
        lemma_literal_from(e, p, f, i + 1, out.push(f[i]));
        assert(out.push(f[i]) + f.skip(i + 1) =~= out + f.skip(i));
    } else {
        assert(out + f.skip(i) =~= out);
    }
}

/// A string without a percent sign stands for itself.
pub proof fn law_string_without_percent_is_literal(
    e: LineState,
    p: PercentState,
    out: Seq<Mark>,
    v: Lisp,
)
    requires
        forall|k: int|
            0 <= k < string_marks(v).len() ==> (#[trigger] string_marks(v)[k]).c != '%',
    ensures
        with_string(e, p, out, v, false) == with_string(e, p, out, v, true),
{
    let f = string_marks(v);
    lemma_literal_from(e, p, f, 0, out);
    assert(f.skip(0) =~= f);
}

/// A dash construct fills the row: where the text is shorter than the row, it is as
/// long as the row after `%-`.
pub proof fn law_dashes_fill_row(
    e: LineState,
    p: PercentState,
    props: Lisp,
    out: Seq<Mark>,
    width: usize,
)
    requires
        p.target_width == Some(width),
        out.len() < width,
    ensures
        expanded(e, p, seq![marked('%', props), marked('-', props)], 0, out).len() == width,
{
    let f = seq![marked('%', props), marked('-', props)];
    reveal_with_fuel(expanded, 3);
    reveal_with_fuel(number_at, 2);
    assert(f[0].c == '%' && f[1].c == '-');
    assert(number_at(f, 1, 0) == (0u64, 1int));
    let seg = overlaid(construct_marks(e, p, '-', out.len() as int), props);
    assert(seg.len() == width - out.len());
    crate::xdisp::rendered::law_segment_length(seg, 0, 0);
}

} // verus!
