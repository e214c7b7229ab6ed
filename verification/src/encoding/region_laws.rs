//! What becomes of a converted string or region.
use crate::buffer::{bytes_for, max2, min2, BufferState, Buffers};
use crate::encoding::commands::{
    canonical_name, coding_arg, coding_region, coding_string, converted_region,
    region_delivered, region_destination, region_offsets, region_text,
};
use crate::encoding::eol::{dos_bytes, dos_text, eol_bytes, eol_of, eol_text, EolType};
use crate::encoding::utf16::{codes_units, unit_bytes, units_bytes, utf16_bytes, Utf16Endian};
use crate::lisp_string::LispText;
use crate::marker::position_arg;
use crate::session::SessionState;
use crate::text::has_suffix;
use crate::value::{list1, sym, Lisp, Outcome};
use crate::window_cmds::resolve::Found;
use crate::xdisp::construct::read_only;
use vstd::prelude::*;

verus! {

/// A buffer that is got has the identifier by which it was got, and one that takes its
/// place is got instead of it, with every other one as it was.
pub(crate) proof fn lemma_buffer_replaced(s: Buffers, id: u64, b: BufferState, other: u64)
    requires
        s.get(id) is Some,
        b.id == id,
    ensures
        s.get(id)->0.id == id,
        s.with_buffer(id, b).get(id) == Some(b),
        other != id ==> s.with_buffer(id, b).get(other) == s.get(other),
        s.with_buffer(id, b).current == s.current,
{
    lemma_index(s.list, id);
    let k = crate::buffer::buffer_index(s.list, id);
    let t = s.list.update(k, b);
    lemma_index(t, id);
    lemma_index(t, other);
    lemma_index(s.list, other);
    let i = crate::buffer::buffer_index(t, id);
    if i < k {
        assert(t[i] == s.list[i]);
    } else if k < i {
        assert(t[k].id != id);
    }
    if other != id {
        let m = crate::buffer::buffer_index(s.list, other);
        let n = crate::buffer::buffer_index(t, other);
        if m < n {
            if m < t.len() {
                assert(t[m] == s.list[m]);
                assert(t[m].id != other);
            }
        } else if n < m {
            assert(n != k);
            assert(t[n] == s.list[n]);
        }
    }
}

proof fn lemma_index(list: Seq<BufferState>, id: u64)
    ensures
        ({
            let i = crate::buffer::buffer_index(list, id);
            &&& 0 <= i <= list.len()
            &&& i < list.len() ==> list[i].id == id
            &&& forall|j: int| 0 <= j < i ==> (#[trigger] list[j]).id != id
        }),
    decreases list.len(),
{
    if list.len() > 0 && list[0].id != id {
        let t = list.drop_first();
        lemma_index(t, id);
        let i = crate::buffer::buffer_index(list, id);
        if i < list.len() {
            assert(t[i - 1] == list[i]);
        }
        assert forall|j: int| 0 <= j < i implies (#[trigger] list[j]).id != id by {
            if j > 0 {
                assert(t[j - 1] == list[j]);
            }
        }
    }
}

/// Where the text of a buffer was replaced: what stood before and after is still there.
pub proof fn law_replaced_text(b: BufferState, start: int, end: int, text: LispText, runs: Lisp)
    requires
        0 <= start <= end <= b.text.len(),
    ensures
        ({
            let bytes = bytes_for(b.multibyte, text);
            let d = b.replaced(start, end, text, runs);
            &&& d.text == b.text.take(start) + bytes + b.text.skip(end)
            &&& d.id == b.id && d.name == b.name && d.multibyte == b.multibyte
            &&& d.modified
            &&& b.pt <= start ==> d.pt == b.pt
            &&& start < b.pt <= end ==> d.pt == start
            &&& end < b.pt <= b.text.len() ==> d.pt == b.pt - (end - start) + bytes.len()
            &&& b.begv <= start ==> d.begv == b.begv
            &&& end <= b.zv <= b.text.len() && start < b.zv ==> d.zv == b.zv - (end - start)
                + bytes.len()
        }),
        bytes_for(text.multibyte, text) == text.bytes,
{
    let bytes = bytes_for(b.multibyte, text);
    let c = b.deleted(start, end);
    let d = b.replaced(start, end, text, runs);
    assert(c.text.take(start) =~= b.text.take(start));
    assert(c.text.skip(start) =~= b.text.skip(end));
}

/// Where the result of a conversion goes into another buffer, it is inserted at its
/// point, which stays.
pub proof fn law_received_text(b: BufferState, text: LispText, runs: Lisp)
    requires
        0 <= b.pt <= b.text.len(),
    ensures
        ({
            let d = b.received(text, runs);
            &&& d.text == b.text.take(b.pt) + bytes_for(b.multibyte, text) + b.text.skip(b.pt)
            &&& d.pt == b.pt
            &&& d.id == b.id && d.multibyte == b.multibyte && d.modified
        }),
{
}

/// What the arguments of a conversion of a region come to.
proof fn lemma_region_result(
    s: SessionState,
    a: Lisp,
    c: Lisp,
    coding: Lisp,
    encode: bool,
    current: u64,
    b: BufferState,
    m: i64,
    n: i64,
    destination: Lisp,
)
    requires
        s.ui.buffers.current == Some(current),
        s.ui.buffers.get(current) == Some(b),
        position_arg(a) == Found::Is(m),
        position_arg(c) == Found::Is(n),
        coding_region(s, seq![a, c, coding, Lisp::True], encode).end is Value,
        0 <= b.offset_of(min2(m as int, n as int)) <= b.offset_of(max2(m as int, n as int))
            <= b.text.len(),
    ensures
        ({
            let start = b.offset_of(min2(m as int, n as int));
            let end = b.offset_of(max2(m as int, n as int));
            let given = coding_region(s, seq![a, c, coding, Lisp::True], encode);
            let coding_name = coding_arg(s, coding)->Is_0;
            let result = converted_region(region_text(b, start, end), coding_name, encode);
            &&& b.id == current
            &&& coding_arg(s, coding) is Is
            &&& result is Str
            &&& given.end == Outcome::Value(result)
            &&& given.state == s.coding_used(coding_name)
            &&& region_destination(destination) matches Found::Is(d) ==> coding_region(
                s,
                seq![a, c, coding, destination],
                encode,
            ) == region_delivered(s, current, b, (start, end), result, coding_name, d)
        }),
{
    lemma_index(s.ui.buffers.list, current);
    let x = seq![a, c, coding, destination];
    let y = seq![a, c, coding, Lisp::True];
    assert(x.len() == 4 && x[0] == a && x[1] == c && x[2] == coding && x[3] == destination);
    assert(y.len() == 4 && y[0] == a && y[1] == c && y[2] == coding && y[3] == Lisp::True);
    let start = b.offset_of(min2(m as int, n as int));
    let end = b.offset_of(max2(m as int, n as int));
    assert(coding_arg(s, coding) is Is);
    assert(region_offsets(b, a, c) is Is);
    assert(region_offsets(b, a, c) == Found::Is((start, end)));
}

/// Converting a region with `t` as the destination gives the result and changes no
/// buffer. It is what converting the text of the region as a string gives.
pub proof fn law_region_is_given(
    s: SessionState,
    a: Lisp,
    c: Lisp,
    coding: Lisp,
    encode: bool,
    current: u64,
    b: BufferState,
    m: i64,
    n: i64,
)
    requires
        s.ui.buffers.current == Some(current),
        s.ui.buffers.get(current) == Some(b),
        position_arg(a) == Found::Is(m),
        position_arg(c) == Found::Is(n),
        coding_region(s, seq![a, c, coding, Lisp::True], encode).end is Value,
        0 <= b.offset_of(min2(m as int, n as int)) <= b.offset_of(max2(m as int, n as int))
            <= b.text.len(),
        coding != Lisp::Nil,
    ensures
        ({
            let start = b.offset_of(min2(m as int, n as int));
            let end = b.offset_of(max2(m as int, n as int));
            let given = coding_region(s, seq![a, c, coding, Lisp::True], encode);
            let string = Lisp::Str(
                LispText { bytes: b.text.subrange(start, end), multibyte: b.multibyte },
                Box::new(Lisp::Nil),
            );
            &&& given.end->Value_0 is Str
            &&& given.state.ui == s.ui
            &&& given == coding_string(s, seq![string, coding], encode)
        }),
{
    lemma_region_result(s, a, c, coding, encode, current, b, m, n, Lisp::True);
    let start = b.offset_of(min2(m as int, n as int));
    let end = b.offset_of(max2(m as int, n as int));
    let string = Lisp::Str(
        LispText { bytes: b.text.subrange(start, end), multibyte: b.multibyte },
        Box::new(Lisp::Nil),
    );
    let x = seq![string, coding];
    assert(x.len() == 2 && x[0] == string && x[1] == coding);
    assert(crate::value::arg(x, 0) == string && crate::value::arg(x, 1) == coding);
    assert(crate::value::arg(x, 3) == Lisp::Nil);
}

/// Converting a region without a destination puts what `t` as the destination gives in
/// the place of the region, and gives the number of its characters. In a buffer that
/// is read-only it is an error, and nothing changes.
#[verifier::rlimit(50)]
pub proof fn law_region_is_converted_in_place(
    s: SessionState,
    a: Lisp,
    c: Lisp,
    coding: Lisp,
    encode: bool,
    current: u64,
    b: BufferState,
    other: u64,
    m: i64,
    n: i64,
)
    requires
        s.ui.buffers.current == Some(current),
        s.ui.buffers.get(current) == Some(b),
        position_arg(a) == Found::Is(m),
        position_arg(c) == Found::Is(n),
        coding_region(s, seq![a, c, coding, Lisp::True], encode).end is Value,
        0 <= b.offset_of(min2(m as int, n as int)) <= b.offset_of(max2(m as int, n as int))
            <= b.text.len(),
    ensures
        ({
            let start = b.offset_of(min2(m as int, n as int));
            let end = b.offset_of(max2(m as int, n as int));
            let given = coding_region(s, seq![a, c, coding, Lisp::True], encode);
            let text = given.end->Value_0->Str_0;
            let done = coding_region(s, seq![a, c, coding, Lisp::Nil], encode);
            &&& coding_region(s, seq![a, c, coding], encode) == done
            &&& !read_only(s.symbols, b) ==> {
                let d = done.state.ui.buffers.get(current)->0;
                &&& done.end == Outcome::Value(Lisp::Int(text.codes().len() as i64))
                &&& done.state.ui.buffers.get(current) is Some
                &&& d.text == b.text.take(start) + bytes_for(b.multibyte, text) + b.text.skip(end)
                &&& d.id == b.id && d.multibyte == b.multibyte
                &&& other != current ==> done.state.ui.buffers.get(other) == s.ui.buffers.get(
                    other,
                )
                &&& done.state.ui.buffers.current == Some(current)
                &&& done.state.ui.frames == s.ui.frames
                &&& done.state.symbols == given.state.symbols
            }
            &&& read_only(s.symbols, b) ==> done.state == s && done.end == Outcome::Signal(
                "buffer-read-only"@,
                list1(Lisp::Buffer(current)),
            )
        }),
{
    lemma_region_result(s, a, c, coding, encode, current, b, m, n, Lisp::Nil);
    let start = b.offset_of(min2(m as int, n as int));
    let end = b.offset_of(max2(m as int, n as int));
    let value = coding_region(s, seq![a, c, coding, Lisp::True], encode).end->Value_0;
    let text = value->Str_0;
    let runs = *value->Str_1;
    let d = b.replaced(start, end, text, runs);
    law_replaced_text(b, start, end, text, runs);
    lemma_buffer_replaced(s.ui.buffers, current, d, other);
    let x = seq![a, c, coding];
    let y = seq![a, c, coding, Lisp::Nil];
    assert(x.len() == 3 && x[0] == a && x[1] == c && x[2] == coding);
    assert(y.len() == 4 && y[0] == a && y[1] == c && y[2] == coding && y[3] == Lisp::Nil);
}

/// Converting a region into another buffer inserts what `t` as the destination gives
/// at its point, and gives the number of its characters. A buffer that does not exist
/// is an error.
pub proof fn law_region_goes_into_buffer(
    s: SessionState,
    a: Lisp,
    c: Lisp,
    coding: Lisp,
    encode: bool,
    current: u64,
    b: BufferState,
    other: u64,
    m: i64,
    n: i64,
)
    requires
        s.ui.buffers.current == Some(current),
        s.ui.buffers.get(current) == Some(b),
        position_arg(a) == Found::Is(m),
        position_arg(c) == Found::Is(n),
        coding_region(s, seq![a, c, coding, Lisp::True], encode).end is Value,
        0 <= b.offset_of(min2(m as int, n as int)) <= b.offset_of(max2(m as int, n as int))
            <= b.text.len(),
    ensures
        ({
            let given = coding_region(s, seq![a, c, coding, Lisp::True], encode);
            let text = given.end->Value_0->Str_0;
            let done = coding_region(s, seq![a, c, coding, Lisp::Buffer(other)], encode);
            &&& s.ui.buffers.get(other) matches Some(o) ==> 0 <= o.pt <= o.text.len() ==> {
                let d = done.state.ui.buffers.get(other)->0;
                &&& done.end == Outcome::Value(Lisp::Int(text.codes().len() as i64))
                &&& done.state.ui.buffers.get(other) is Some
                &&& d.text == o.text.take(o.pt) + bytes_for(o.multibyte, text) + o.text.skip(o.pt)
                &&& d.pt == o.pt
                &&& other != current ==> done.state.ui.buffers.get(current) == Some(b)
                &&& done.state.ui.buffers.current == Some(current)
                &&& done.state.symbols == given.state.symbols
            }
            &&& s.ui.buffers.get(other) is None ==> done.state == s && done.end is Signal
        }),
{
    lemma_region_result(s, a, c, coding, encode, current, b, m, n, Lisp::Buffer(other));
    let value = coding_region(s, seq![a, c, coding, Lisp::True], encode).end->Value_0;
    let text = value->Str_0;
    let runs = *value->Str_1;
    match s.ui.buffers.get(other) {
        Some(o) => {
            lemma_index(s.ui.buffers.list, other);
            if 0 <= o.pt <= o.text.len() {
                law_received_text(o, text, runs);
            }
            lemma_buffer_replaced(s.ui.buffers, other, o.received(text, runs), current);
        },
        None => {},
    }
}

/// The two ends of a region may come in either order.
pub proof fn law_region_ends_in_either_order(
    s: SessionState,
    a: Lisp,
    c: Lisp,
    coding: Lisp,
    destination: Lisp,
    encode: bool,
)
    requires
        coding_region(s, seq![a, c, coding, destination], encode).end is Value,
    ensures
        coding_region(s, seq![c, a, coding, destination], encode) == coding_region(
            s,
            seq![a, c, coding, destination],
            encode,
        ),
{
}

/// A coding system that was used is noted by its canonical name.
pub proof fn law_used_coding_is_noted(
    s: SessionState,
    string: Lisp,
    coding: Seq<char>,
    encode: bool,
)
    requires
        string is Str,
        coding != "nil"@,
        coding != "t"@,
        s.codings.knows(coding),
    ensures
        ({
            let done = coding_string(s, seq![string, sym(coding)], encode);
            &&& done.end is Value
            &&& done.state.ui == s.ui
            &&& done.state.symbols.value("last-coding-system-used"@) == Some(
                sym(
                    match s.codings.canonical(coding) {
                        Some(n) => n,
                        None => coding,
                    },
                ),
            )
        }),
{
    crate::table::law_entry_set(
        s.symbols.values,
        "last-coding-system-used"@,
        sym(canonical_name(s, coding)),
    );
}

/// Where line endings are written with `-dos`, each newline gets a carriage return
/// before it, and nothing else changes; with `-mac` it becomes one.
pub proof fn law_line_endings_are_written(s: Seq<u8>, t: Seq<u8>, b: u8, i: int)
    ensures
        eol_bytes(s + t, EolType::Dos) == eol_bytes(s, EolType::Dos) + eol_bytes(t, EolType::Dos),
        eol_bytes(seq![b], EolType::Dos) == (if b == 10 {
            seq![13u8, 10u8]
        } else {
            seq![b]
        }),
        eol_bytes(s, EolType::Mac).len() == s.len(),
        0 <= i < s.len() ==> eol_bytes(s, EolType::Mac)[i] == (if s[i] == 10 {
            13u8
        } else {
            s[i]
        }),
        eol_bytes(s, EolType::Unix) == s,
    decreases t.len(),
{
    reveal_with_fuel(dos_bytes, 2);
    assert(seq![b].drop_last() =~= Seq::<u8>::empty());
    assert(dos_bytes(seq![b]) =~= if b == 10 {
        seq![13u8, 10u8]
    } else {
        seq![b]
    });
    if t.len() == 0 {
        assert(s + t =~= s);
        assert(dos_bytes(s) + dos_bytes(t) =~= dos_bytes(s));
    } else {
        law_line_endings_are_written(s, t.drop_last(), b, i);
        assert((s + t).drop_last() =~= s + t.drop_last());
        assert((s + t).last() == t.last());
        assert(dos_bytes(s + t) =~= dos_bytes(s) + dos_bytes(t));
    }
}

/// Line endings of text are written as those of bytes are.
pub proof fn law_text_line_endings_are_written(s: Seq<char>, t: Seq<char>, c: char, i: int)
    ensures
        eol_text(s + t, EolType::Dos) == eol_text(s, EolType::Dos) + eol_text(t, EolType::Dos),
        eol_text(seq![c], EolType::Dos) == (if c == '\n' {
            seq!['\r', '\n']
        } else {
            seq![c]
        }),
        eol_text(s, EolType::Mac).len() == s.len(),
        0 <= i < s.len() ==> eol_text(s, EolType::Mac)[i] == (if s[i] == '\n' {
            '\r'
        } else {
            s[i]
        }),
        eol_text(s, EolType::Unix) == s,
    decreases t.len(),
{
    reveal_with_fuel(dos_text, 2);
    assert(seq![c].drop_last() =~= Seq::<char>::empty());
    assert(dos_text(seq![c]) =~= if c == '\n' {
        seq!['\r', '\n']
    } else {
        seq![c]
    });
    if t.len() == 0 {
        assert(s + t =~= s);
        assert(dos_text(s) + dos_text(t) =~= dos_text(s));
    } else {
        law_text_line_endings_are_written(s, t.drop_last(), c, i);
        assert((s + t).drop_last() =~= s + t.drop_last());
        assert((s + t).last() == t.last());
        assert(dos_text(s + t) =~= dos_text(s) + dos_text(t));
    }
}

/// The end of a coding system's name says which line endings it writes.
pub proof fn law_name_says_line_endings(base: Seq<char>)
    ensures
        eol_of(base + "-dos"@) == EolType::Dos,
        eol_of(base + "-mac"@) == EolType::Mac,
        eol_of(base + "-unix"@) == EolType::Unix,
        base.len() < 4 ==> eol_of(base) == EolType::Unix,
        crate::encoding::family::coding_base(base + "-dos"@) == base,
        crate::encoding::family::coding_base(base + "-mac"@) == base,
        crate::encoding::family::coding_base(base + "-unix"@) == base,
{
    reveal_strlit("-dos");
    reveal_strlit("-mac");
    reveal_strlit("-unix");
    let d = base + "-dos"@;
    let m = base + "-mac"@;
    let u = base + "-unix"@;
    let n = base.len() as int;
    assert(d.subrange(n, n + 4) =~= "-dos"@);
    assert(m.subrange(n, n + 4) =~= "-mac"@);
    assert(u.subrange(n, n + 5) =~= "-unix"@);
    assert(m.last() == 'c' && u.last() == 'x' && d.last() == 's');
    assert(!has_suffix(m, "-dos"@)) by {
        if has_suffix(m, "-dos"@) {
            assert(m.subrange(n, n + 4)[3] == "-dos"@[3]);
        }
    }
    assert(!has_suffix(u, "-dos"@)) by {
        if has_suffix(u, "-dos"@) {
            assert(u.subrange(n + 1, n + 5)[3] == "-dos"@[3]);
        }
    }
    assert(!has_suffix(u, "-mac"@)) by {
        if has_suffix(u, "-mac"@) {
            assert(u.subrange(n + 1, n + 5)[3] == "-mac"@[3]);
        }
    }
    assert(!has_suffix(d, "-unix"@)) by {
        if has_suffix(d, "-unix"@) {
            assert(d.subrange(n - 1, n + 4)[4] == "-unix"@[4]);
        }
    }
    assert(!has_suffix(m, "-unix"@)) by {
        if has_suffix(m, "-unix"@) {
            assert(m.subrange(n - 1, n + 4)[4] == "-unix"@[4]);
        }
    }
    assert(d.take(n) =~= base);
    assert(m.take(n) =~= base);
    assert(u.take(n) =~= base);
}

/// UTF-16 writes a character of the first plane in two bytes, in the order of the
/// coding system, after the byte order mark where there is one.
pub proof fn law_utf16_byte_order(codes: Seq<u32>, code: u32, endian: Utf16Endian)
    requires
        code < 0xD800,
    ensures
        utf16_bytes(seq![code], Utf16Endian::Big, false) == seq![
            (code / 256) as u8,
            (code % 256) as u8,
        ],
        utf16_bytes(seq![code], Utf16Endian::Little, false) == seq![
            (code % 256) as u8,
            (code / 256) as u8,
        ],
        utf16_bytes(codes, Utf16Endian::Big, true) == seq![0xFEu8, 0xFFu8] + utf16_bytes(
            codes,
            Utf16Endian::Big,
            false,
        ),
        utf16_bytes(codes, Utf16Endian::Little, true) == seq![0xFFu8, 0xFEu8] + utf16_bytes(
            codes,
            Utf16Endian::Little,
            false,
        ),
        utf16_bytes(codes.push(code), endian, false) == utf16_bytes(codes, endian, false)
            + utf16_bytes(seq![code], endian, false),
{
    reveal_with_fuel(codes_units, 2);
    reveal_with_fuel(units_bytes, 2);
    let none = Seq::<u16>::empty();
    let u = seq![code as u16];
    assert(seq![code].drop_last() =~= Seq::<u32>::empty());
    assert(codes_units(seq![code]) =~= u);
    assert(none + u =~= u);
    assert(u.drop_last() =~= none);
    assert(units_bytes(endian, u) =~= unit_bytes(endian, code as u16));
    assert(utf16_bytes(seq![code], Utf16Endian::Big, false) =~= seq![
        (code / 256) as u8,
        (code % 256) as u8,
    ]);
    assert(utf16_bytes(seq![code], Utf16Endian::Little, false) =~= seq![
        (code % 256) as u8,
        (code / 256) as u8,
    ]);
    let all = codes_units(codes);
    let mark = seq![0xFEFFu16];
    assert(none + all =~= all);
    assert(mark.drop_last() =~= none);
    crate::encoding::utf16::lemma_units_bytes_concatenation(Utf16Endian::Big, mark, all);
    crate::encoding::utf16::lemma_units_bytes_concatenation(Utf16Endian::Little, mark, all);
    assert(units_bytes(Utf16Endian::Big, mark) =~= seq![0xFEu8, 0xFFu8]);
    assert(units_bytes(Utf16Endian::Little, mark) =~= seq![0xFFu8, 0xFEu8]);
    assert(codes.push(code).drop_last() =~= codes);
    assert(codes_units(codes.push(code)) == all + u);
    assert(none + (all + u) =~= all + u);
    crate::encoding::utf16::lemma_units_bytes_concatenation(endian, all, u);
}

/// A marker stands for the position that it is at.
pub proof fn law_marker_stands_for_position(
    s: SessionState,
    name: Option<Seq<char>>,
    m: i64,
    n: i64,
    coding: Lisp,
    destination: Lisp,
    encode: bool,
)
    requires
        coding_region(
            s,
            seq![Lisp::Int(m), Lisp::Int(n), coding, destination],
            encode,
        ).end is Value,
    ensures
        coding_region(
            s,
            seq![Lisp::Marker(name, Some(m)), Lisp::Marker(name, Some(n)), coding, destination],
            encode,
        ) == coding_region(s, seq![Lisp::Int(m), Lisp::Int(n), coding, destination], encode),
{
    let x = seq![Lisp::Marker(name, Some(m)), Lisp::Marker(name, Some(n)), coding, destination];
    let y = seq![Lisp::Int(m), Lisp::Int(n), coding, destination];
    assert(x.len() == 4 && x[0] == Lisp::Marker(name, Some(m)) && x[1] == Lisp::Marker(
        name,
        Some(n),
    ) && x[2] == coding && x[3] == destination);
    assert(y.len() == 4 && y[0] == Lisp::Int(m) && y[1] == Lisp::Int(n) && y[2] == coding && y[3]
        == destination);
}

/// A region is refused where it is not all accessible, whichever way its ends come, and then
/// nothing changes.
pub proof fn law_region_is_accessible(
    s: SessionState,
    current: u64,
    b: BufferState,
    m: i64,
    n: i64,
    coding: Seq<char>,
    encode: bool,
)
    requires
        s.ui.buffers.current == Some(current),
        s.ui.buffers.get(current) == Some(b),
        s.codings.knows(coding),
    ensures
        ({
            let first = b.chars_before(b.begv) + 1;
            let last = b.chars_before(b.zv) + 1;
            let args = seq![Lisp::Int(m), Lisp::Int(n), Lisp::Symbol(coding), Lisp::True];
            let done = coding_region(s, args, encode);
            &&& (done.end is Value) == (first <= m <= last && first <= n <= last)
            &&& done.end !is Value ==> done.state == s && done.end == Outcome::Signal(
                "args-out-of-range"@,
                crate::value::list2(Lisp::Int(m), Lisp::Int(n)),
            )
        }),
{
    let args = seq![Lisp::Int(m), Lisp::Int(n), Lisp::Symbol(coding), Lisp::True];
    assert(args.len() == 4 && args[0] == Lisp::Int(m) && args[1] == Lisp::Int(n) && args[2]
        == Lisp::Symbol(coding) && args[3] == Lisp::True);
}

} // verus!
