//! The text of each percent construct, and strings with the constructs in them.
use crate::buffer::{max2, min2, Buffer, BufferManager, BufferState};
use crate::emacs_char::{decode_text, text_codes};
use crate::process::{process_of, ProcessManager};
use crate::symbol::{Obarray, Symbols};
use crate::text::{append_chars, chars_of, digits, unsigned_text};
use crate::value::Lisp;
use crate::xdisp::percent::{
    first_char, last_char, percent99, share_in_percent, LineState, SPAN_LIMIT,
};
use vstd::prelude::*;

verus! {

/// How many of some bytes end a line.
pub open spec fn newlines(s: Seq<u8>) -> nat
    decreases s.len(),
{
    if s.len() == 0 {
        0
    } else {
        newlines(s.drop_last()) + (if s.last() == 10 {
            1nat
        } else {
            0
        })
    }
}

/// Where the last line of some bytes starts.
pub open spec fn last_line(s: Seq<u8>) -> int
    decreases s.len(),
{
    if s.len() == 0 || s.last() == 10 {
        s.len() as int
    } else {
        last_line(s.drop_last())
    }
}

/// The bytes before point.
pub open spec fn before_point(b: BufferState) -> Seq<u8> {
    b.text.take(min2(max2(b.pt, 0), b.text.len() as int))
}

/// The number of the line that point is on, from one.
pub open spec fn line_number(b: BufferState) -> int {
    newlines(before_point(b)) as int + 1
}

/// How many characters stand before point on its line.
pub open spec fn column(b: BufferState) -> int {
    let s = before_point(b);
    text_codes(s.skip(last_line(s)), b.multibyte).len() as int
}

/// The line and the column of point.
pub fn prefix_line_and_column(b: &Buffer) -> (r: (u128, usize))
    ensures
        r.0 == line_number(b@),
        r.1 == column(b@),
{
    let end: usize = if b.pt <= b.text.len() {
        b.pt
    } else {
        b.text.len()
    };
    let ghost s = before_point(b@);
    let mut i: usize = 0;
    let mut line: u128 = 1;
    let mut start: usize = 0;
    while i < end
        invariant
            i <= end <= b.text.len(),
            s == b.text@.take(end as int),
            line == newlines(s.take(i as int)) + 1,
            line <= i + 1,
            start == last_line(s.take(i as int)),
            start <= i,
        decreases end - i,
    {
        proof {
            assert(s.take(i + 1).drop_last() =~= s.take(i as int));
            assert(s.take(i + 1).last() == b.text@[i as int]);
        }
        if b.text[i] == 10 {
            line = line + 1;
            start = i + 1;
        }
        i = i + 1;
    }
    proof {
        assert(s.take(i as int) =~= s);
    }
    let tail: &[u8] = vstd::slice::slice_subrange(b.text.as_slice(), start, end);
    proof {
        assert(tail@ =~= s.skip(last_line(s)));
    }
    (line, decode_text(tail, b.multibyte).len())
}

/// A number below a thousand, what was left over by the last division by a
/// thousand, and how often it was divided.
pub open spec fn reduced(q: nat, r: nat, e: nat) -> (nat, nat, nat)
    decreases q,
{
    if q < 1000 {
        (q, r, e)
    } else {
        reduced(q / 1000, q % 1000, e + 1)
    }
}

/// The letter for a power of a thousand.
pub open spec fn power_letter(e: nat) -> Seq<char> {
    if e == 0 {
        seq![]
    } else if e == 1 {
        seq!['k']
    } else if e == 2 {
        seq!['M']
    } else if e == 3 {
        seq!['G']
    } else if e == 4 {
        seq!['T']
    } else if e == 5 {
        seq!['P']
    } else if e == 6 {
        seq!['E']
    } else {
        seq!['Z']
    }
}

/// A number, its tenths where they are shown, and its power of a thousand,
/// rounded half up: tenths are shown below ten.
pub open spec fn rounded(q: nat, r: nat, e: nat) -> (nat, Option<nat>, nat) {
    if e == 0 {
        (q, None, e)
    } else if q <= 9 {
        if r % 100 < 50 {
            (q, Some(r / 100), e)
        } else if r / 100 < 9 {
            (q, Some(r / 100 + 1), e)
        } else if q + 1 < 10 {
            (q + 1, Some(0nat), e)
        } else {
            (q + 1, None, e)
        }
    } else if r < 500 {
        (q, None, e)
    } else if q < 999 {
        (q + 1, None, e)
    } else {
        (1, Some(0nat), e + 1)
    }
}

/// A size in a short form, such as `1.5k`.
pub open spec fn readable_size(n: nat) -> Seq<char> {
    let (q, r, e) = reduced(n, 0, 0);
    let (whole, tenths, power) = rounded(q, r, e);
    digits(whole) + (match tenths {
        Some(t) => seq!['.'] + digits(t),
        None => seq![],
    }) + power_letter(power)
}

/// The power of a thousand that a number is divided by stays small.
proof fn lemma_reduced(q: nat, r: nat, e: nat, limit: nat)
    requires
        q < vstd::arithmetic::power::pow(1000, limit + 1),
        r < 1000,
    ensures
        reduced(q, r, e).2 <= e + limit,
        reduced(q, r, e).0 < 1000,
        reduced(q, r, e).1 < 1000,
        reduced(q, r, e).2 >= e,
    decreases q,
{
    if q >= 1000 {
        if limit == 0 {
            vstd::arithmetic::power::lemma_pow1(1000);
        } else {
            vstd::arithmetic::power::lemma_pow_adds(1000, limit, 1);
            vstd::arithmetic::power::lemma_pow1(1000);
            let p = vstd::arithmetic::power::pow(1000, limit);
            assert(q < p * 1000);
            assert(q / 1000 < p) by (nonlinear_arith)
                requires
                    q < p * 1000,
            ;
            lemma_reduced(q / 1000, q % 1000, e + 1, (limit - 1) as nat);
        }
    }
}

/// A size in a short form, such as `1.5k`.
pub fn mode_line_human_readable_size(n: usize) -> (r: Vec<char>)
    ensures
        r@ == readable_size(n as nat),
{
    let mut q: u64 = n as u64;
    let mut rest: u64 = 0;
    let mut e: u64 = 0;
    proof {
        let p = vstd::arithmetic::power::pow(1000, 7);
        assert(p == 1_000_000_000_000_000_000_000) by {
            reveal(vstd::arithmetic::power::pow);
            assert(vstd::arithmetic::power::pow(1000, 0) == 1);
            assert(vstd::arithmetic::power::pow(1000, 1) == 1000);
            assert(vstd::arithmetic::power::pow(1000, 2) == 1000_000);
            assert(vstd::arithmetic::power::pow(1000, 3) == 1000_000_000);
            assert(vstd::arithmetic::power::pow(1000, 4) == 1000_000_000_000);
            assert(vstd::arithmetic::power::pow(1000, 5) == 1000_000_000_000_000);
            assert(vstd::arithmetic::power::pow(1000, 6) == 1000_000_000_000_000_000);
        }
        lemma_reduced(n as nat, 0, 0, 6);
    }
    while q >= 1000
        invariant
            reduced(q as nat, rest as nat, e as nat) == reduced(n as nat, 0, 0),
            reduced(n as nat, 0, 0).2 <= 6,
            rest < 1000,
            e <= 6,
        decreases q,
    {
        proof {
            lemma_reduced_grows((q / 1000) as nat, (q % 1000) as nat, (e + 1) as nat);
        }
        rest = q % 1000;
        q = q / 1000;
        e = e + 1;
    }
    let mut tenths: Option<u64> = None;
    if e > 0 {
        if q <= 9 {
            if rest % 100 < 50 {
                tenths = Some(rest / 100);
            } else if rest / 100 < 9 {
                tenths = Some(rest / 100 + 1);
            } else {
                q = q + 1;
                if q < 10 {
                    tenths = Some(0);
                }
            }
        } else if rest >= 500 {
            if q < 999 {
                q = q + 1;
            } else {
                q = 1;
                e = e + 1;
                tenths = Some(0);
            }
        }
    }
    let mut out: Vec<char> = unsigned_text(q as u128);
    match tenths {
        Some(t) => {
            let ghost before = out@;
            out.push('.');
            append_chars(&mut out, unsigned_text(t as u128).as_slice());
            proof {
                assert(out@ =~= before + (seq!['.'] + digits(t as nat)));
            }
        },
        None => {
            proof {
                assert(out@ + Seq::<char>::empty() =~= out@);
            }
        },
    }
    let ghost before = out@;
    if e == 1 {
        out.push('k');
    } else if e == 2 {
        out.push('M');
    } else if e == 3 {
        out.push('G');
    } else if e == 4 {
        out.push('T');
    } else if e == 5 {
        out.push('P');
    } else if e == 6 {
        out.push('E');
    } else if e > 6 {
        out.push('Z');
    }
    proof {
        assert(out@ =~= before + power_letter(e as nat));
    }
    out
}

proof fn lemma_reduced_grows(q: nat, r: nat, e: nat)
    ensures
        reduced(q, r, e).2 >= e,
    decreases q,
{
    if q >= 1000 {
        lemma_reduced_grows(q / 1000, q % 1000, e + 1);
    }
}

/// Whether a name of a directory is that of a remote one: `/METHOD:` with a
/// method of two or more lower case letters.
pub open spec fn remote(dir: Seq<char>) -> bool {
    dir.len() > 0 && dir[0] == '/' && exists|p: int|
        3 <= p < dir.len() && #[trigger] dir[p] == ':' && forall|j: int|
            1 <= j < p ==> 'a' <= #[trigger] dir[j] <= 'z'
}

/// Whether a name of a directory is that of a remote one.
pub fn is_remote_directory(dir: &Vec<char>) -> (r: bool)
    ensures
        r == remote(dir@),
{
    if dir.len() == 0 || dir[0] != '/' {
        return false;
    }
    let mut i: usize = 1;
    while i < dir.len()
        invariant
            1 <= i <= dir.len(),
            dir@[0] == '/',
            forall|j: int| 1 <= j < i ==> 'a' <= #[trigger] dir@[j] <= 'z',
        decreases dir.len() - i,
    {
        let c: char = dir[i];
        if c == ':' {
            proof {
                if i < 3 {
                    assert forall|p: int| 3 <= p < dir@.len() && #[trigger] dir@[p] == ':' && (
                    forall|j: int| 1 <= j < p ==> 'a' <= #[trigger] dir@[j] <= 'z') implies false by {
                        assert('a' <= dir@[i as int] <= 'z');
                    }
                }
                assert(dir@[i as int] == ':');
            }
            return i >= 3;
        }
        if c < 'a' || c > 'z' {
            proof {
                assert forall|p: int| 3 <= p < dir@.len() && #[trigger] dir@[p] == ':' && (
                forall|j: int| 1 <= j < p ==> 'a' <= #[trigger] dir@[j] <= 'z') implies false by {
                    if i < p {
                        assert('a' <= dir@[i as int] <= 'z');
                    } else if p < i {
                        assert('a' <= dir@[p] <= 'z');
                    }
                }
            }
            return false;
        }
        i = i + 1;
    }
    proof {
        assert forall|p: int| 3 <= p < dir@.len() && #[trigger] dir@[p] == ':' && (forall|j: int|
            1 <= j < p ==> 'a' <= #[trigger] dir@[j] <= 'z') implies false by {
            assert('a' <= dir@[p] <= 'z');
        }
    }
    false
}

/// A percentage.
pub open spec fn percentage(n: int) -> Seq<char> {
    digits(n as nat).push('%')
}

/// A percentage.
fn percentage_text(n: u64) -> (r: Vec<char>)
    ensures
        r@ == percentage(n as int),
{
    let mut out: Vec<char> = unsigned_text(n as u128);
    out.push('%');
    out
}

/// How far the top of a window is into the accessible region.
pub open spec fn top_share(begv: int, zv: int, top: int, bottom: int) -> Seq<char> {
    if bottom >= zv {
        if top <= begv {
            "All"@
        } else {
            "Bottom"@
        }
    } else if top <= begv {
        "Top"@
    } else {
        percentage(percent99(top - begv, zv - begv))
    }
}

/// How far the bottom of a window is into the accessible region.
pub open spec fn bottom_share(begv: int, zv: int, top: int, bottom: int) -> Seq<char> {
    if bottom >= zv {
        if top <= begv {
            "All"@
        } else {
            "Bottom"@
        }
    } else {
        let p = percentage(percent99(max2(bottom - begv, 0), max2(zv - begv, 0)));
        if top <= begv {
            p
        } else {
            "Top"@ + p
        }
    }
}

/// How far a window has travelled through the accessible region.
pub open spec fn travel(begv: int, zv: int, top: int, bottom: int) -> Seq<char> {
    if bottom >= zv {
        if top <= begv {
            "All"@
        } else {
            "Bottom"@
        }
    } else if top <= begv {
        "Top"@
    } else {
        percentage(percent99(top - begv, (top - begv) + (zv - bottom)))
    }
}

/// How far the top and the bottom of a window are into the accessible region.
pub open spec fn both_shares(begv: int, zv: int, top: int, bottom: int) -> Seq<char> {
    if top <= begv && bottom >= zv {
        "All   "@
    } else {
        let range = max2(zv - begv, 0);
        let first = if top <= begv {
            0
        } else {
            percent99(top - begv, range)
        };
        let last = if bottom >= zv {
            100
        } else {
            percent99(max2(bottom - begv, 0), range)
        };
        if first == last {
            percentage(first)
        } else {
            digits(first as nat).push('-') + percentage(last)
        }
    }
}

/// Where the accessible region of a buffer starts and ends, in characters from zero.
pub open spec fn region(b: BufferState) -> (int, int) {
    (first_char(b), max2(last_char(b), first_char(b)))
}

/// Where the accessible region of a buffer starts and ends.
pub fn region_of(b: &Buffer) -> (r: (u128, u128))
    ensures
        (r.0 as int, r.1 as int) == region(b@),
        r.0 <= r.1 <= u64::MAX,
{
    let begv: u128 = b.byte_to_char(b.begv) as u128;
    let zv: u128 = b.byte_to_char(b.zv) as u128;
    if zv > begv {
        (begv, zv)
    } else {
        (begv, begv)
    }
}

/// How far the top of a window is into the accessible region.
pub fn top_share_text(begv: u128, zv: u128, top: u128, bottom: u128) -> (r: Vec<char>)
    requires
        begv <= zv <= SPAN_LIMIT,
        top <= SPAN_LIMIT,
    ensures
        r@ == top_share(begv as int, zv as int, top as int, bottom as int),
{
    if bottom >= zv {
        if top <= begv {
            chars_of("All")
        } else {
            chars_of("Bottom")
        }
    } else if top <= begv {
        chars_of("Top")
    } else {
        percentage_text(share_in_percent(top - begv, zv - begv))
    }
}

/// How far the bottom of a window is into the accessible region.
pub fn bottom_share_text(begv: u128, zv: u128, top: u128, bottom: u128) -> (r: Vec<char>)
    requires
        begv <= zv <= SPAN_LIMIT,
        bottom <= SPAN_LIMIT,
    ensures
        r@ == bottom_share(begv as int, zv as int, top as int, bottom as int),
{
    if bottom >= zv {
        if top <= begv {
            chars_of("All")
        } else {
            chars_of("Bottom")
        }
    } else {
        let inside: u128 = if bottom > begv {
            bottom - begv
        } else {
            0
        };
        let p: Vec<char> = percentage_text(share_in_percent(inside, zv - begv));
        if top <= begv {
            p
        } else {
            let mut out: Vec<char> = chars_of("Top");
            append_chars(&mut out, p.as_slice());
            out
        }
    }
}

/// How far a window has travelled through the accessible region.
pub fn travel_text(begv: u128, zv: u128, top: u128, bottom: u128) -> (r: Vec<char>)
    requires
        begv <= zv <= SPAN_LIMIT,
        top <= SPAN_LIMIT,
    ensures
        r@ == travel(begv as int, zv as int, top as int, bottom as int),
{
    if bottom >= zv {
        if top <= begv {
            chars_of("All")
        } else {
            chars_of("Bottom")
        }
    } else if top <= begv {
        chars_of("Top")
    } else {
        percentage_text(share_in_percent(top - begv, (top - begv) + (zv - bottom)))
    }
}

/// How far the top and the bottom of a window are into the accessible region.
pub fn both_shares_text(begv: u128, zv: u128, top: u128, bottom: u128) -> (r: Vec<char>)
    requires
        begv <= zv <= SPAN_LIMIT,
        top <= SPAN_LIMIT,
        bottom <= SPAN_LIMIT,
    ensures
        r@ == both_shares(begv as int, zv as int, top as int, bottom as int),
{
    if top <= begv && bottom >= zv {
        return chars_of("All   ");
    }
    let range: u128 = zv - begv;
    let first: u64 = if top <= begv {
        0
    } else {
        share_in_percent(top - begv, range)
    };
    let last: u64 = if bottom >= zv {
        100
    } else {
        share_in_percent(
            if bottom > begv {
                bottom - begv
            } else {
                0
            },
            range,
        )
    };
    if first == last {
        percentage_text(first)
    } else {
        let mut out: Vec<char> = unsigned_text(first as u128);
        out.push('-');
        append_chars(&mut out, percentage_text(last).as_slice());
        out
    }
}

/// Whether a buffer is read-only for editing commands: its `buffer-read-only` is
/// not nil and `inhibit-read-only` is.
pub open spec fn read_only(symbols: Symbols, b: BufferState) -> bool {
    let own = match b.local("buffer-read-only"@) {
        Some(v) => v,
        None => match symbols.value("buffer-read-only"@) {
            Some(v) => v,
            None => Lisp::Nil,
        },
    };
    let inhibited = match b.local("inhibit-read-only"@) {
        Some(v) => v,
        None => match symbols.value("inhibit-read-only"@) {
            Some(v) => v,
            None => Lisp::Nil,
        },
    };
    own != Lisp::Nil && inhibited == Lisp::Nil
}

/// Whether a buffer is read-only for editing commands.
pub fn buffer_read_only(obarray: &Obarray, b: &Buffer) -> (r: bool)
    ensures
        r == read_only(obarray@, b@),
{
    let own: bool = match b.get_buffer_local("buffer-read-only") {
        Some(v) => v.is_truthy(),
        None => match obarray.symbol_value("buffer-read-only") {
            Some(v) => v.is_truthy(),
            None => false,
        },
    };
    let inhibited: bool = match b.get_buffer_local("inhibit-read-only") {
        Some(v) => v.is_truthy(),
        None => match obarray.symbol_value("inhibit-read-only") {
            Some(v) => v.is_truthy(),
            None => false,
        },
    };
    own && !inhibited
}

/// The status of the process of the current buffer.
pub open spec fn process_status(e: LineState) -> Seq<char> {
    match e.buffers.current {
        Some(id) => match process_of(e.processes, id) {
            Some(p) => p.status,
            None => "no process"@,
        },
        None => "no process"@,
    }
}

/// The status of the process of the current buffer.
pub fn mode_line_process_status(buffers: &BufferManager, processes: &ProcessManager) -> (r: Vec<char>)
    ensures
        forall|e: LineState|
            e.buffers == buffers@ && e.processes == processes@ ==> r@ == #[trigger] process_status(
                e,
            ),
{
    match buffers.current_buffer_id() {
        Some(id) => match processes.find_by_buffer_id(id) {
            Some(p) => chars_of(p.status.as_str()),
            None => chars_of("no process"),
        },
        None => chars_of("no process"),
    }
}

} // verus!
