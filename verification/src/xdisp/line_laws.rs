//! What the percent constructs of a mode line show.
use crate::buffer::BufferState;
use crate::emacs_char::text_codes;
use crate::text::{digit_char, digits};
use crate::value::{str_chars, Lisp};
use crate::xdisp::construct::{
    column, last_line, line_number, newlines, power_letter, read_only, readable_size, reduced,
    remote, rounded,
};
use crate::xdisp::expand::{
    construct_marks, expanded, is_digit, number_at, repeated,
};
use crate::xdisp::percent::{
    first_char, last_char, percent99, variable, LineState, PercentState,
};
use crate::xdisp::rendered::{marked, overlaid, plain, plist_overlaid, segment, string_marks, Mark};
use vstd::prelude::*;

verus! {

/// The number that some decimal digits stand for.
pub open spec fn number_of(s: Seq<char>) -> nat
    decreases s.len(),
{
    if s.len() == 0 {
        0
    } else {
        (10 * number_of(s.drop_last()) + (s.last() as int - 0x30)) as nat
    }
}

/// A number is shown in decimal digits that stand for it, without a zero in front.
pub proof fn law_digits_stand_for_number(n: nat)
    ensures
        number_of(digits(n)) == n,
        digits(n).len() > 0,
        n > 0 ==> digits(n)[0] != '0',
        n == 0 ==> digits(n) == seq!['0'],
        forall|i: int| 0 <= i < digits(n).len() ==> '0' <= #[trigger] digits(n)[i] <= '9',
    decreases n,
{
    reveal_with_fuel(number_of, 2);
    if n < 10 {
        assert(digits(n).drop_last() =~= Seq::<char>::empty());
        assert(digit_char(n) as int == 0x30 + n);
    } else {
        law_digits_stand_for_number(n / 10);
        assert(digits(n).drop_last() =~= digits(n / 10));
        assert(digit_char(n % 10) as int == 0x30 + n % 10);
        assert(n == 10 * (n / 10) + n % 10);
    }
}

/// Each line end counts, wherever it stands: the line ends of two texts add up, and
/// they are the bytes that are newlines.
pub proof fn law_each_newline_counts(s: Seq<u8>, t: Seq<u8>, b: u8)
    ensures
        newlines(s + t) == newlines(s) + newlines(t),
        newlines(s.push(b)) == newlines(s) + (if b == 10 {
            1nat
        } else {
            0
        }),
        newlines(s) == s.filter(|x: u8| x == 10).len(),
        newlines(s) <= s.len(),
        newlines(s) == 0 <==> !s.contains(10),
    decreases t.len() + s.len(),
{
    let is_end = |x: u8| x == 10;
    assert(s.push(b).drop_last() =~= s);
    if t.len() == 0 {
        assert(s + t =~= s);
    } else {
        law_each_newline_counts(s, t.drop_last(), b);
        assert((s + t).drop_last() =~= s + t.drop_last());
        assert((s + t).last() == t.last());
    }
    lemma_newlines_filtered(s);
    if s.contains(10) {
        let i = choose|i: int| 0 <= i < s.len() && s[i] == 10;
        lemma_newline_found(s, i);
    } else {
        lemma_no_newlines(s);
    }
}

proof fn lemma_newlines_filtered(s: Seq<u8>)
    ensures
        newlines(s) == s.filter(|x: u8| x == 10).len(),
        newlines(s) <= s.len(),
    decreases s.len(),
{
    reveal(Seq::filter);
    if s.len() > 0 {
        lemma_newlines_filtered(s.drop_last());
    }
}

proof fn lemma_newline_found(s: Seq<u8>, i: int)
    requires
        0 <= i < s.len(),
        s[i] == 10,
    ensures
        newlines(s) > 0,
    decreases s.len(),
{
    if i < s.len() - 1 {
        lemma_newline_found(s.drop_last(), i);
    }
}

proof fn lemma_no_newlines(s: Seq<u8>)
    requires
        !s.contains(10),
    ensures
        newlines(s) == 0,
    decreases s.len(),
{
    if s.len() > 0 {
        assert(!s.drop_last().contains(10)) by {
            if s.drop_last().contains(10) {
                let i = choose|i: int| 0 <= i < s.len() - 1 && s.drop_last()[i] == 10;
                assert(s[i] == 10);
            }
        }
        assert(s.last() != 10) by {
            assert(s[s.len() - 1] == s.last());
        }
        lemma_no_newlines(s.drop_last());
    }
}

/// The last line of a text starts after its last newline.
pub proof fn law_last_line_follows_newline(s: Seq<u8>)
    ensures
        0 <= last_line(s) <= s.len(),
        last_line(s) == 0 || s[last_line(s) - 1] == 10,
        forall|i: int| last_line(s) <= i < s.len() ==> #[trigger] s[i] != 10,
    decreases s.len(),
{
    if s.len() > 0 && s.last() != 10 {
        law_last_line_follows_newline(s.drop_last());
        let k = last_line(s);
        if k > 0 {
            assert(s.drop_last()[k - 1] == s[k - 1]);
        }
        assert forall|i: int| k <= i < s.len() implies #[trigger] s[i] != 10 by {
            if i < s.len() - 1 {
                assert(s.drop_last()[i] == s[i]);
            }
        }
    }
}

/// The line of point is one more than the number of newlines before it, and its
/// column is the number of characters after the last of them.
pub proof fn law_line_and_column_of_point(b: BufferState, start: int)
    requires
        0 <= start <= b.pt <= b.text.len(),
        start == 0 || b.text[start - 1] == 10,
        forall|i: int| start <= i < b.pt ==> #[trigger] b.text[i] != 10,
    ensures
        line_number(b) == 1 + b.text.take(b.pt).filter(|x: u8| x == 10).len(),
        column(b) == text_codes(b.text.subrange(start, b.pt), b.multibyte).len(),
{
    let s = b.text.take(b.pt);
    law_each_newline_counts(s, s, 0);
    law_last_line_follows_newline(s);
    let k = last_line(s);
    if k < start {
        assert(s[start - 1] == 10);
    } else if start < k {
        assert(b.text[k - 1] == s[k - 1]);
    }
    assert(s.skip(k) =~= b.text.subrange(start, b.pt));
}

/// Inserting text moves point down by the newlines in it, whatever stands before.
pub proof fn law_inserted_newlines_move_line(b: BufferState, bytes: Seq<u8>)
    requires
        0 <= b.pt <= b.text.len(),
    ensures
        line_number(b.inserted(bytes)) == line_number(b) + bytes.filter(|x: u8| x == 10).len(),
        line_number(b.inserted(seq![10u8])) == line_number(b) + 1,
        column(b.inserted(seq![10u8])) == 0,
{
    let s = b.text.take(b.pt);
    let c = b.inserted(bytes);
    assert(c.text.take(c.pt) =~= s + bytes);
    law_each_newline_counts(s, bytes, 0);
    lemma_newlines_filtered(bytes);
    let one = seq![10u8];
    let d = b.inserted(one);
    assert(d.text.take(d.pt) =~= s.push(10));
    law_each_newline_counts(s, one, 10);
    let t = s.push(10);
    assert(last_line(t) == t.len());
    assert(t.skip(last_line(t)) =~= Seq::<u8>::empty());
    assert(text_codes(Seq::<u8>::empty(), b.multibyte).len() == 0);
}

/// The text of one percent construct.
pub open spec fn construct(c: char) -> Seq<Mark> {
    plain(seq!['%', c])
}

/// A construct stands for its text, after the text so far.
pub(crate) proof fn lemma_construct(e: LineState, p: PercentState, c: char, out: Seq<Mark>)
    requires
        !is_digit(c),
    ensures
        expanded(e, p, construct(c), 0, out) == out + construct_marks(
            e,
            p,
            c,
            out.len() as int,
        ),
{
    let f = construct(c);
    reveal_with_fuel(expanded, 3);
    reveal_with_fuel(number_at, 2);
    assert(f.len() == 2 && f[0] == marked('%', Lisp::Nil) && f[1] == marked(c, Lisp::Nil));
    assert(number_at(f, 1, 0) == (0u64, 1int));
    let m = construct_marks(e, p, c, out.len() as int);
    lemma_overlaid_nothing(m);
    assert(segment(m, 0, 0) =~= m);
}

proof fn lemma_overlaid_nothing(s: Seq<Mark>)
    ensures
        overlaid(s, Lisp::Nil) == s,
{
    reveal_with_fuel(plist_overlaid, 2);
    assert(overlaid(s, Lisp::Nil) =~= s);
}

/// What is shown of the buffer: its name, its file, its size, whether it is
/// narrowed, and the line and the column of point, from zero and from one.
pub proof fn law_constructs_of_buffer(
    e: LineState,
    p: PercentState,
    out: Seq<Mark>,
    b: BufferState,
    start: int,
)
    requires
        e.buffers.current_buffer() == Some(b),
        0 <= start <= b.pt <= b.text.len(),
        start == 0 || b.text[start - 1] == 10,
        forall|i: int| start <= i < b.pt ==> #[trigger] b.text[i] != 10,
    ensures
        expanded(e, p, construct('b'), 0, out) == out + plain(b.name),
        expanded(e, p, construct('f'), 0, out) == out + (match str_chars(b.file_name) {
            Some(s) => plain(s),
            None => Seq::empty(),
        }),
        b.begv <= b.zv ==> expanded(e, p, construct('i'), 0, out) == out + plain(
            digits((b.zv - b.begv) as nat),
        ),
        expanded(e, p, construct('n'), 0, out) == (if 0 < b.begv || b.zv < b.text.len() {
            out + plain(" Narrow"@)
        } else {
            out
        }),
        expanded(e, p, construct('l'), 0, out) == out + plain(
            digits(1 + b.text.take(b.pt).filter(|x: u8| x == 10).len()),
        ),
        expanded(e, p, construct('c'), 0, out) == out + plain(
            digits(text_codes(b.text.subrange(start, b.pt), b.multibyte).len()),
        ),
        expanded(e, p, construct('C'), 0, out) == out + plain(
            digits(text_codes(b.text.subrange(start, b.pt), b.multibyte).len() + 1),
        ),
{
    law_line_and_column_of_point(b, start);
    lemma_construct(e, p, 'b', out);
    lemma_construct(e, p, 'f', out);
    lemma_construct(e, p, 'i', out);
    lemma_construct(e, p, 'n', out);
    lemma_construct(e, p, 'l', out);
    lemma_construct(e, p, 'c', out);
    lemma_construct(e, p, 'C', out);
    assert(plain(seq![]) =~= Seq::<Mark>::empty());
    assert(out + Seq::<Mark>::empty() =~= out);
}

/// Whether a variable is true in the current buffer.
pub open spec fn is_on(e: LineState, name: Seq<char>) -> bool {
    match variable(e.symbols, e.buffers, name) {
        Some(v) => v != Lisp::Nil,
        None => false,
    }
}

/// A variable has its local value in the current buffer, and its own one elsewhere.
pub proof fn law_local_value_comes_first(e: LineState, name: Seq<char>, b: BufferState)
    requires
        e.buffers.current_buffer() == Some(b),
    ensures
        b.local(name) matches Some(v) ==> variable(e.symbols, e.buffers, name) == Some(v),
        b.local(name) is None ==> variable(e.symbols, e.buffers, name) == e.symbols.value(name),
{
}

/// What is shown of whether the buffer was changed and can be: `%*` says first that
/// it is read-only, `%+` that it was changed, and `%&` only that.
pub proof fn law_constructs_of_change(
    e: LineState,
    p: PercentState,
    out: Seq<Mark>,
    b: BufferState,
)
    requires
        e.buffers.current_buffer() == Some(b),
    ensures
        ({
            let locked = is_on(e, "buffer-read-only"@) && !is_on(e, "inhibit-read-only"@);
            &&& expanded(e, p, construct('*'), 0, out) == out.push(
                marked(
                    if locked {
                        '%'
                    } else if b.modified {
                        '*'
                    } else {
                        '-'
                    },
                    Lisp::Nil,
                ),
            )
            &&& expanded(e, p, construct('+'), 0, out) == out.push(
                marked(
                    if b.modified {
                        '*'
                    } else if locked {
                        '%'
                    } else {
                        '-'
                    },
                    Lisp::Nil,
                ),
            )
            &&& expanded(e, p, construct('&'), 0, out) == out.push(
                marked(
                    if b.modified {
                        '*'
                    } else {
                        '-'
                    },
                    Lisp::Nil,
                ),
            )
        }),
        read_only(e.symbols, b) <==> is_on(e, "buffer-read-only"@) && !is_on(
            e,
            "inhibit-read-only"@,
        ),
{
    reveal_strlit("%");
    reveal_strlit("*");
    reveal_strlit("-");
    lemma_construct(e, p, '*', out);
    lemma_construct(e, p, '+', out);
    lemma_construct(e, p, '&', out);
    assert(out + plain("%"@) =~= out.push(marked('%', Lisp::Nil)));
    assert(out + plain("*"@) =~= out.push(marked('*', Lisp::Nil)));
    assert(out + plain("-"@) =~= out.push(marked('-', Lisp::Nil)));
}

/// Whether a number is a share in percent, rounded up and at most 99.
pub open spec fn is_percentage(n: int, part: int, whole: int) -> bool {
    &&& 0 <= n <= 99
    &&& n * whole < 100 * part + whole
    &&& n < 99 ==> 100 * part <= n * whole
}

/// A share in percent is the least whole number that is not below it, at most 99.
pub proof fn law_percentage_is_rounded_up(part: int, whole: int)
    requires
        whole > 0,
        part >= 0,
    ensures
        is_percentage(percent99(part, whole), part, whole),
{
    let t = whole - 1 + 100 * part;
    let q = t / whole;
    vstd::arithmetic::div_mod::lemma_fundamental_div_mod(t, whole);
    vstd::arithmetic::div_mod::lemma_mod_bound(t, whole);
    let r = t % whole;
    assert(whole * q == q * whole) by (nonlinear_arith);
    assert(q >= 0) by (nonlinear_arith)
        requires
            t >= 0,
            whole > 0,
            t == whole * q + r,
            r < whole,
    ;
    if q > 99 {
        assert(99 * whole < 100 * part + whole) by (nonlinear_arith)
            requires
                q > 99,
                q * whole <= whole - 1 + 100 * part,
                whole > 0,
        ;
    }
}

/// What is shown of the place of the window in its buffer: `All` and `Bottom` where
/// its end shows, `Top` where its start does, and how much is above otherwise, of the
/// buffer for `%p` and of what does not show for `%o`. `%P` says how much is above
/// its end, and `%q` from where to where it is.
pub proof fn law_constructs_of_place(
    e: LineState,
    p: PercentState,
    out: Seq<Mark>,
    b: BufferState,
)
    requires
        e.buffers.current_buffer() == Some(b),
        first_char(b) <= last_char(b),
    ensures
        ({
            let from = first_char(b);
            let to = last_char(b);
            let top = p.window_start;
            let bottom = p.window_end;
            let shows = |c: char| expanded(e, p, construct(c), 0, out);
            &&& bottom >= to && top <= from ==> {
                &&& shows('p') == out + plain("All"@)
                &&& shows('P') == out + plain("All"@)
                &&& shows('o') == out + plain("All"@)
                &&& shows('q') == out + plain("All   "@)
            }
            &&& bottom >= to && top > from ==> {
                &&& shows('p') == out + plain("Bottom"@)
                &&& shows('P') == out + plain("Bottom"@)
                &&& shows('o') == out + plain("Bottom"@)
            }
            &&& bottom < to && top <= from ==> {
                &&& shows('p') == out + plain("Top"@)
                &&& shows('o') == out + plain("Top"@)
                &&& bottom >= from ==> exists|n: int|
                    #[trigger] is_percentage(n, bottom - from, to - from) && shows('P') == out
                        + plain(digits(n as nat).push('%'))
            }
            &&& bottom < to && top > from ==> {
                &&& from < to ==> exists|n: int|
                    #[trigger] is_percentage(n, top - from, to - from) && shows('p') == out
                        + plain(digits(n as nat).push('%'))
                &&& exists|n: int|
                    #[trigger] is_percentage(n, top - from, (top - from) + (to - bottom))
                        && shows('o') == out + plain(digits(n as nat).push('%'))
                &&& bottom >= from ==> exists|n: int|
                    #[trigger] is_percentage(n, bottom - from, to - from) && shows('P') == out
                        + plain("Top"@ + digits(n as nat).push('%'))
            }
            &&& bottom < to && from <= bottom && from < top ==> exists|m: int, n: int|
                #[trigger] is_percentage(m, top - from, to - from) && #[trigger] is_percentage(
                    n,
                    bottom - from,
                    to - from,
                ) && shows('q') == out + plain(
                    if m == n {
                        digits(m as nat).push('%')
                    } else {
                        digits(m as nat).push('-') + digits(n as nat).push('%')
                    },
                )
        }),
{
    lemma_construct(e, p, 'p', out);
    lemma_construct(e, p, 'P', out);
    lemma_construct(e, p, 'o', out);
    lemma_construct(e, p, 'q', out);
    let from = first_char(b);
    let to = last_char(b);
    let top = p.window_start;
    let bottom = p.window_end;
    if bottom < to {
        if top > from && from < to {
            law_percentage_is_rounded_up(top - from, to - from);
        }
        if top > from {
            law_percentage_is_rounded_up(top - from, (top - from) + (to - bottom));
        }
        if bottom >= from {
            law_percentage_is_rounded_up(bottom - from, to - from);
        }
    }
}

/// What is shown of the session: the command loops as brackets, the coding systems,
/// of the terminal too where there is one, the process, and the frame's name.
pub proof fn law_constructs_of_session(e: LineState, p: PercentState, out: Seq<Mark>)
    ensures
        0 <= e.depth <= 5 ==> {
            &&& expanded(e, p, construct('['), 0, out) == out + plain(
                Seq::new(e.depth as nat, |i: int| '['),
            )
            &&& expanded(e, p, construct(']'), 0, out) == out + plain(
                Seq::new(e.depth as nat, |i: int| ']'),
            )
        },
        e.depth > 5 ==> {
            &&& expanded(e, p, construct('['), 0, out) == out + plain("[[[... "@)
            &&& expanded(e, p, construct(']'), 0, out) == out + plain(" ...]]]"@)
        },
        !p.is_tty_frame ==> expanded(e, p, construct('z'), 0, out) == out + plain(
            seq![p.coding_mnemonic],
        ),
        p.is_tty_frame ==> expanded(e, p, construct('z'), 0, out) == out + plain(
            seq![
                p.terminal_coding_mnemonic,
                p.keyboard_coding_mnemonic,
                p.coding_mnemonic,
            ],
        ),
        p.eol_indicator is None ==> expanded(e, p, construct('Z'), 0, out) == expanded(
            e,
            p,
            construct('z'),
            0,
            out,
        ).push(marked(':', Lisp::Nil)),
        p.eol_indicator matches Some(v) && v is Str ==> expanded(e, p, construct('Z'), 0, out)
            == expanded(e, p, construct('z'), 0, out) + string_marks(p.eol_indicator->0),
        p.frame_name is None ==> expanded(e, p, construct('F'), 0, out) == out + plain("Emacs"@),
        p.frame_name matches Some(v) && v is Str ==> expanded(e, p, construct('F'), 0, out)
            == out + string_marks(p.frame_name->0),
        variable(e.symbols, e.buffers, "mode-name"@) matches Some(v) ==> expanded(
            e,
            p,
            construct('m'),
            0,
            out,
        ) == out + string_marks(v),
        e.buffers.current matches Some(id) ==> {
            &&& (exists|i: int|
                0 <= i < e.processes.len() && (#[trigger] e.processes[i]).buffer == Some(id))
                ==> exists|i: int|
                0 <= i < e.processes.len() && (#[trigger] e.processes[i]).buffer == Some(id)
                    && expanded(e, p, construct('s'), 0, out) == out + plain(
                    e.processes[i].status,
                )
            &&& (forall|i: int|
                0 <= i < e.processes.len() ==> (#[trigger] e.processes[i]).buffer != Some(id))
                ==> expanded(e, p, construct('s'), 0, out) == out + plain("no process"@)
        },
        p.target_width is None ==> expanded(e, p, construct('-'), 0, out) == out + plain("--"@),
        expanded(e, p, construct('%'), 0, out) == out.push(marked('%', Lisp::Nil)),
        expanded(e, p, construct(' '), 0, out) == out.push(marked(' ', Lisp::Nil)),
        expanded(e, p, construct('e'), 0, out) == out,
{
    lemma_construct(e, p, '[', out);
    lemma_construct(e, p, ']', out);
    lemma_construct(e, p, 'z', out);
    lemma_construct(e, p, 'Z', out);
    lemma_construct(e, p, 'F', out);
    lemma_construct(e, p, 'm', out);
    lemma_construct(e, p, 's', out);
    lemma_construct(e, p, '-', out);
    lemma_construct(e, p, '%', out);
    lemma_construct(e, p, ' ', out);
    lemma_construct(e, p, 'e', out);
    reveal_strlit("%");
    reveal_strlit(" ");
    reveal_strlit(":");
    if 0 <= e.depth {
        assert(repeated('[', e.depth) =~= Seq::new(e.depth as nat, |i: int| '['));
        assert(repeated(']', e.depth) =~= Seq::new(e.depth as nat, |i: int| ']'));
    }
    let z = expanded(e, p, construct('z'), 0, out);
    assert(z + plain(":"@) =~= z.push(marked(':', Lisp::Nil)));
    assert(out + plain("%"@) =~= out.push(marked('%', Lisp::Nil)));
    assert(out + plain(" "@) =~= out.push(marked(' ', Lisp::Nil)));
    assert(out + plain(seq![]) =~= out);
    let c = crate::xdisp::expand::coding_text(p);
    match p.eol_indicator {
        Some(v) => {
            if v is Str {
                assert(out + (plain(c) + string_marks(v)) =~= (out + plain(c)) + string_marks(v));
            }
        },
        None => {
            assert(out + (plain(c) + plain(":"@)) =~= (out + plain(c)) + plain(":"@));
        },
    }
    match e.buffers.current {
        Some(id) => {
            lemma_process_of(e.processes, id);
        },
        None => {},
    }
}

proof fn lemma_process_of(list: Seq<crate::process::ProcessState>, id: u64)
    ensures
        match crate::process::process_of(list, id) {
            Some(p) => exists|i: int|
                0 <= i < list.len() && #[trigger] list[i] == p && p.buffer == Some(id),
            None => forall|i: int| 0 <= i < list.len() ==> (#[trigger] list[i]).buffer != Some(id),
        },
    decreases list.len(),
{
    if list.len() > 0 {
        let rest = list.drop_first();
        lemma_process_of(rest, id);
        if list[0].buffer != Some(id) {
            match crate::process::process_of(rest, id) {
                Some(p) => {
                    let i = choose|i: int|
                        0 <= i < rest.len() && #[trigger] rest[i] == p && p.buffer == Some(id);
                    assert(list[i + 1] == p);
                },
                None => {
                    assert forall|i: int| 0 <= i < list.len() implies (#[trigger] list[i]).buffer
                        != Some(id) by {
                        if i > 0 {
                            assert(rest[i - 1] == list[i]);
                        }
                    }
                },
            }
        }
    }
}

/// A construct that is not known stands for itself.
pub proof fn law_unknown_construct_stands_for_itself(
    e: LineState,
    p: PercentState,
    c: char,
    out: Seq<Mark>,
)
    requires
        !is_digit(c),
        !seq![
            'b',
            'f',
            'i',
            'I',
            '*',
            '+',
            '&',
            '-',
            '%',
            'n',
            's',
            'l',
            'c',
            'C',
            'p',
            'P',
            'o',
            'q',
            'z',
            'Z',
            '@',
            '[',
            ']',
            'e',
            ' ',
            'F',
            'm',
        ].contains(c),
    ensures
        expanded(e, p, construct(c), 0, out) == out + construct(c),
{
    let known = seq![
        'b',
        'f',
        'i',
        'I',
        '*',
        '+',
        '&',
        '-',
        '%',
        'n',
        's',
        'l',
        'c',
        'C',
        'p',
        'P',
        'o',
        'q',
        'z',
        'Z',
        '@',
        '[',
        ']',
        'e',
        ' ',
        'F',
        'm',
    ];
    assert(forall|i: int| 0 <= i < known.len() ==> known[i] != c);
    assert(known[0] != c && known[1] != c && known[2] != c && known[3] != c && known[4] != c
        && known[5] != c && known[6] != c && known[7] != c && known[8] != c && known[9] != c
        && known[10] != c && known[11] != c && known[12] != c && known[13] != c && known[14]
        != c && known[15] != c && known[16] != c && known[17] != c && known[18] != c
        && known[19] != c && known[20] != c && known[21] != c && known[22] != c && known[23]
        != c && known[24] != c && known[25] != c && known[26] != c);
    lemma_construct(e, p, c, out);
}

/// Text without a percent sign comes before what follows it as it stands.
pub proof fn law_text_before_construct_is_kept(
    e: LineState,
    p: PercentState,
    text: Seq<Mark>,
    f: Seq<Mark>,
    out: Seq<Mark>,
)
    requires
        forall|k: int| 0 <= k < text.len() ==> (#[trigger] text[k]).c != '%',
    ensures
        expanded(e, p, text + f, 0, out) == expanded(e, p, f, 0, out + text),
{
    lemma_after_text(e, p, text, f, 0, out);
    assert(text.skip(0) =~= text);
    lemma_expanded_shifts(e, p, text, f, 0, out + text);
}

proof fn lemma_after_text(
    e: LineState,
    p: PercentState,
    text: Seq<Mark>,
    f: Seq<Mark>,
    i: int,
    out: Seq<Mark>,
)
    requires
        0 <= i <= text.len(),
        forall|k: int| 0 <= k < text.len() ==> (#[trigger] text[k]).c != '%',
    ensures
        expanded(e, p, text + f, i, out) == expanded(
            e,
            p,
            text + f,
            text.len() as int,
            out + text.skip(i),
        ),
    decreases text.len() - i,
{
    if i < text.len() {
        assert((text + f)[i] == text[i]);
        lemma_after_text(e, p, text, f, i + 1, out.push(text[i]));
        assert(out.push(text[i]) + text.skip(i + 1) =~= out + text.skip(i));
    } else {
        assert(out + text.skip(i) =~= out);
    }
}

proof fn lemma_number_shifts(text: Seq<Mark>, f: Seq<Mark>, i: int, acc: u64)
    requires
        0 <= i,
    ensures
        number_at(text + f, text.len() + i, acc).0 == number_at(f, i, acc).0,
        number_at(text + f, text.len() + i, acc).1 == number_at(f, i, acc).1 + text.len(),
        number_at(f, i, acc).1 >= i,
    decreases f.len() - i,
{
    if i < f.len() {
        assert((text + f)[text.len() + i] == f[i]);
        if is_digit(f[i].c) {
            lemma_number_shifts(text, f, i + 1, crate::xdisp::expand::grown(acc, f[i].c));
        }
    }
}

proof fn lemma_expanded_shifts(
    e: LineState,
    p: PercentState,
    text: Seq<Mark>,
    f: Seq<Mark>,
    i: int,
    out: Seq<Mark>,
)
    requires
        0 <= i,
    ensures
        expanded(e, p, text + f, text.len() + i, out) == expanded(e, p, f, i, out),
    decreases f.len() - i,
{
    if i < f.len() {
        let g = text + f;
        assert(g[text.len() + i] == f[i]);
        if f[i].c != '%' {
            lemma_expanded_shifts(e, p, text, f, i + 1, out.push(f[i]));
        } else {
            lemma_number_shifts(text, f, i + 1, 0);
            let (width, j) = number_at(f, i + 1, 0);
            if j < f.len() {
                assert(g[text.len() + j] == f[j]);
                let seg = overlaid(construct_marks(e, p, f[j].c, out.len() as int), f[i].props);
                lemma_expanded_shifts(
                    e,
                    p,
                    text,
                    f,
                    j + 1,
                    out + segment(seg, width as int, 0),
                );
            }
        }
    }
}

/// A construct with a width of one or two digits is as wide at least: what it stands
/// for without one comes first, and spaces fill the rest.
pub proof fn law_width_pads_construct(
    e: LineState,
    p: PercentState,
    tens: nat,
    ones: nat,
    c: char,
    out: Seq<Mark>,
)
    requires
        tens <= 9,
        ones <= 9,
        !is_digit(c),
    ensures
        ({
            let width = 10 * tens + ones;
            let bare = expanded(e, p, construct(c), 0, out);
            let f = plain(seq!['%', digit_char(tens), digit_char(ones), c]);
            let wide = expanded(e, p, f, 0, out);
            let short = width - (bare.len() - out.len());
            &&& wide.len() == bare.len() + (if short > 0 {
                short
            } else {
                0
            })
            &&& wide.take(bare.len() as int) == bare
            &&& forall|i: int|
                bare.len() <= i < wide.len() ==> #[trigger] wide[i] == marked(' ', Lisp::Nil)
        }),
        ({
            let f = plain(seq!['%', digit_char(ones), c]);
            expanded(e, p, f, 0, out) == expanded(
                e,
                p,
                plain(seq!['%', '0', digit_char(ones), c]),
                0,
                out,
            )
        }),
{
    reveal_with_fuel(expanded, 3);
    reveal_with_fuel(number_at, 4);
    lemma_construct(e, p, c, out);
    let m = construct_marks(e, p, c, out.len() as int);
    lemma_overlaid_nothing(m);
    let f = plain(seq!['%', digit_char(tens), digit_char(ones), c]);
    let width = 10 * tens + ones;
    assert(f.len() == 4 && f[0].c == '%' && f[1].c == digit_char(tens) && f[2].c == digit_char(
        ones,
    ) && f[3].c == c);
    assert(digit_char(tens) as u32 == 0x30 + tens && digit_char(ones) as u32 == 0x30 + ones);
    assert(is_digit(digit_char(tens)) && is_digit(digit_char(ones)));
    assert(number_at(f, 1, 0) == (width as u64, 3int));
    let wide = expanded(e, p, f, 0, out);
    assert(wide == out + segment(m, width as int, 0));
    let bare = out + m;
    assert(wide.take(bare.len() as int) =~= bare);
    let g = plain(seq!['%', digit_char(ones), c]);
    assert(g.len() == 3 && g[0].c == '%' && g[1].c == digit_char(ones) && g[2].c == c);
    assert(number_at(g, 1, 0) == (ones as u64, 2int));
    let h = plain(seq!['%', '0', digit_char(ones), c]);
    assert(h.len() == 4 && h[0].c == '%' && h[1].c == '0' && h[2].c == digit_char(ones) && h[3].c
        == c);
    assert(number_at(h, 1, 0) == (ones as u64, 3int));
}

/// Whether a directory is remote: `/`, a method of at least two small letters, and a colon.
pub proof fn law_remote_directories(method: Seq<char>, rest: Seq<char>, dir: Seq<char>)
    requires
        forall|i: int| 0 <= i < method.len() ==> 'a' <= #[trigger] method[i] <= 'z',
    ensures
        method.len() >= 2 <==> remote(seq!['/'] + method + seq![':'] + rest),
        !dir.contains(':') ==> !remote(dir),
        dir.len() == 0 || dir[0] != '/' ==> !remote(dir),
        remote(dir) ==> dir.len() > 3 && 'a' <= dir[1] <= 'z' && 'a' <= dir[2] <= 'z',
{
    let d = seq!['/'] + method + seq![':'] + rest;
    let p = method.len() + 1;
    assert(d[p as int] == ':');
    assert forall|j: int| 1 <= j < p implies 'a' <= #[trigger] d[j] <= 'z' by {
        assert(d[j] == method[j - 1]);
    }
    if remote(d) {
        let q = choose|q: int|
            3 <= q < d.len() && #[trigger] d[q] == ':' && forall|j: int|
                1 <= j < q ==> 'a' <= #[trigger] d[j] <= 'z';
        if q > p {
            assert('a' <= d[p as int]);
        } else if q < p {
            assert(d[q] == method[q - 1]);
        }
    }
    if remote(dir) {
        let q = choose|q: int|
            3 <= q < dir.len() && #[trigger] dir[q] == ':' && forall|j: int|
                1 <= j < q ==> 'a' <= #[trigger] dir[j] <= 'z';
        assert(dir.contains(':'));
        assert('a' <= dir[1] <= 'z' && 'a' <= dir[2] <= 'z');
    }
}

/// `%@` says whether the default directory is remote.
pub proof fn law_construct_of_directory(e: LineState, p: PercentState, out: Seq<Mark>)
    ensures
        ({
            let dir = variable(e.symbols, e.buffers, "default-directory"@);
            let far = match dir {
                Some(v) => str_chars(v) is Some && remote(str_chars(v)->0),
                None => false,
            };
            expanded(e, p, construct('@'), 0, out) == out.push(
                marked(
                    if far {
                        '@'
                    } else {
                        '-'
                    },
                    Lisp::Nil,
                ),
            )
        }),
{
    reveal_strlit("@");
    reveal_strlit("-");
    lemma_construct(e, p, '@', out);
    assert(out + plain("@"@) =~= out.push(marked('@', Lisp::Nil)));
    assert(out + plain("-"@) =~= out.push(marked('-', Lisp::Nil)));
}

/// A size is shown as it is below a thousand, with tenths of a thousand below ten
/// thousand, and in thousands below a million, each rounded half up.
pub proof fn law_size_is_shown_in_thousands(n: nat)
    ensures
        n < 1000 ==> readable_size(n) == digits(n),
        1000 <= n < 9950 ==> readable_size(n) == digits((n + 50) / 100 / 10) + seq!['.'] + digits(
            (n + 50) / 100 % 10,
        ) + seq!['k'],
        9950 <= n < 999_500 ==> readable_size(n) == digits((n + 500) / 1000) + seq!['k'],
        999_500 <= n < 1_000_000 ==> readable_size(n) == seq!['1', '.', '0', 'M'],
{
    reveal_with_fuel(reduced, 3);
    reveal_with_fuel(digits, 2);
    if n < 1000 {
        assert(readable_size(n) =~= digits(n));
    } else if n < 1_000_000 {
        let q = n / 1000;
        let r = n % 1000;
        assert(q < 1000 && n == 1000 * q + r);
        assert(reduced(n, 0, 0) == (q, r, 1nat));
        if n < 9950 {
            assert((n + 50) / 100 == 10 * q + (r + 50) / 100);
            assert(q <= 9);
            assert(readable_size(n) =~= digits((n + 50) / 100 / 10) + seq!['.'] + digits(
                (n + 50) / 100 % 10,
            ) + seq!['k']);
        } else if n < 999_500 {
            assert((n + 500) / 1000 == q + (r + 500) / 1000);
            assert(readable_size(n) =~= digits((n + 500) / 1000) + seq!['k']);
        } else {
            assert(q == 999 && r >= 500);
            assert(readable_size(n) =~= seq!['1', '.', '0', 'M']) by {
                assert(digits(1) =~= seq!['1']) by {
                    assert(digit_char(1) == '1');
                }
                assert(digits(0) =~= seq!['0']) by {
                    assert(digit_char(0) == '0');
                }
            }
        }
    }
}

/// A thousand times a size is shown by the same number with the next letter.
pub proof fn law_size_times_thousand_has_next_letter(n: nat)
    requires
        n >= 1000,
    ensures
        exists|number: Seq<char>, e: nat|
            e >= 1 && readable_size(n) == #[trigger] (number + power_letter(e))
                && readable_size(1000 * n) == number + power_letter(e + 1),
        power_letter(1) == seq!['k'] && power_letter(2) == seq!['M'] && power_letter(3)
            == seq!['G'] && power_letter(4) == seq!['T'] && power_letter(5) == seq!['P']
            && power_letter(6) == seq!['E'],
{
    assert(1000 * n / 1000 == n && 1000 * n % 1000 == 0);
    assert(reduced(1000 * n, 0, 0) == reduced(n, 0, 1));
    lemma_reduced_powers(n / 1000, n % 1000, 1);
    assert(reduced(n, 0, 0) == reduced(n / 1000, n % 1000, 1));
    assert(reduced(n, 0, 1) == reduced(n / 1000, n % 1000, 2));
    let (q, r, e) = reduced(n, 0, 0);
    let (whole, tenths, power) = rounded(q, r, e);
    assert(reduced(1000 * n, 0, 0) == (q, r, e + 1));
    assert(rounded(q, r, e + 1) == (whole, tenths, power + 1));
    let number = digits(whole) + (match tenths {
        Some(t) => seq!['.'] + digits(t),
        None => seq![],
    });
    assert(readable_size(n) == number + power_letter(power));
    assert(readable_size(1000 * n) == number + power_letter(power + 1));
}

proof fn lemma_reduced_powers(q: nat, r: nat, e: nat)
    ensures
        ({
            let (a, b, c) = reduced(q, r, e);
            reduced(q, r, e + 1) == (a, b, c + 1) && c >= e && a < 1000
        }),
    decreases q,
{
    if q >= 1000 {
        lemma_reduced_powers(q / 1000, q % 1000, e + 1);
    }
}

/// `%I` shows the size of the accessible text.
pub proof fn law_construct_of_size(e: LineState, p: PercentState, out: Seq<Mark>, b: BufferState)
    requires
        e.buffers.current_buffer() == Some(b),
        b.begv <= b.zv,
    ensures
        expanded(e, p, construct('I'), 0, out) == out + plain(
            readable_size((b.zv - b.begv) as nat),
        ),
{
    lemma_construct(e, p, 'I', out);
}

} // verus!
