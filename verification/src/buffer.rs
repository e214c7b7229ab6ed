//! Buffers: text with a point, an accessible region and local variables.
use crate::emacs_char::{
    byte_char, char_at, codes_from, decode_text, push_char, string_char, text_codes,
    unibyte_to_char,
};
use crate::lisp_string::{LispString, LispText};
use crate::storage::codes_bytes;
use crate::table::{entry, with_entry, SymTable};
use crate::text::{append_bytes, copy_bytes, str_eq};
use crate::value::{car, cdr, int_of, Lisp, Value};
use vstd::prelude::*;

verus! {

/// What a buffer holds. Positions are byte offsets into the text.
pub struct BufferState {
    pub id: u64,
    pub name: Seq<char>,
    pub text: Seq<u8>,
    pub multibyte: bool,
    pub begv: int,
    pub zv: int,
    pub pt: int,
    pub modified: bool,
    pub file_name: Lisp,
    pub locals: Seq<(Seq<char>, Lisp)>,
    pub runs: Seq<Run>,
}

/// A buffer.
#[derive(Debug, PartialEq, Eq)]
pub struct Buffer {
    pub id: u64,
    pub name: String,
    pub text: Vec<u8>,
    pub multibyte: bool,
    pub begv: usize,
    pub zv: usize,
    pub pt: usize,
    pub modified: bool,
    pub file_name: Value,
    pub locals: SymTable,
    pub runs: Vec<TextRun>,
}

impl View for Buffer {
    type V = BufferState;

    open spec fn view(&self) -> BufferState {
        BufferState {
            id: self.id,
            name: self.name@,
            text: self.text@,
            multibyte: self.multibyte,
            begv: self.begv as int,
            zv: self.zv as int,
            pt: self.pt as int,
            modified: self.modified,
            file_name: self.file_name@,
            locals: self.locals@,
            runs: run_views(self.runs@),
        }
    }
}

/// The byte offset that is `n` characters after offset `i` of multibyte text.
pub open spec fn offset_after(s: Seq<u8>, i: int, n: int) -> int
    decreases s.len() - i,
{
    if n <= 0 || i < 0 || i >= s.len() {
        i
    } else {
        offset_after(s, i + char_at(s, i).1, n - 1)
    }
}

/// The byte offset of the character with the given number, from zero; the end of
/// the text where there are fewer characters.
pub open spec fn char_offset(s: Seq<u8>, multibyte: bool, n: int) -> int {
    if multibyte {
        offset_after(s, 0, n)
    } else if n <= 0 {
        0
    } else if n < s.len() {
        n
    } else {
        s.len() as int
    }
}

/// The smaller of two numbers.
pub open spec fn min2(a: int, b: int) -> int {
    if a <= b {
        a
    } else {
        b
    }
}

/// The larger of two numbers.
pub open spec fn max2(a: int, b: int) -> int {
    if a >= b {
        a
    } else {
        b
    }
}

/// The bytes that a string becomes in a multibyte or unibyte buffer.
pub open spec fn bytes_for(multibyte: bool, text: LispText) -> Seq<u8> {
    if multibyte == text.multibyte {
        text.bytes
    } else if multibyte {
        codes_bytes(Seq::new(text.bytes.len(), |i: int| byte_char(text.bytes[i])))
    } else {
        Seq::new(text.codes().len(), |i: int| (text.codes()[i] % 256) as u8)
    }
}

impl BufferState {
    /// The character codes of the whole text.
    pub open spec fn codes(self) -> Seq<u32> {
        text_codes(self.text, self.multibyte)
    }

    /// How many characters stand before a byte offset.
    pub open spec fn chars_before(self, offset: int) -> nat {
        text_codes(self.text.take(min2(offset, self.text.len() as int)), self.multibyte).len()
    }

    /// The byte offset of a Lisp position.
    pub open spec fn offset_of(self, position: int) -> int {
        char_offset(self.text, self.multibyte, position - 1)
    }

    /// Whether point and the accessible region lie inside the text, in order.
    pub open spec fn wf(self) -> bool {
        0 <= self.begv <= self.pt <= self.zv <= self.text.len()
    }

    /// The byte offset of point, inside the text.
    pub open spec fn point_offset(self) -> int {
        min2(self.pt, self.text.len() as int)
    }

    /// How many characters some bytes are in this buffer.
    pub open spec fn chars_in(self, bytes: Seq<u8>) -> int {
        text_codes(bytes, self.multibyte).len() as int
    }

    /// The buffer with bytes inserted at point and point after them.
    pub open spec fn inserted(self, bytes: Seq<u8>) -> BufferState {
        let at = self.point_offset();
        BufferState {
            text: self.text.take(at) + bytes + self.text.skip(at),
            pt: at + bytes.len(),
            zv: min2(self.zv, self.text.len() as int) + bytes.len(),
            modified: true,
            runs: runs_inserted(
                self.runs,
                self.chars_before(at) as int,
                self.chars_in(bytes),
                self.codes().len() as int,
            ),
            ..self
        }
    }

    /// The buffer with the bytes between two offsets removed, and point where they
    /// were if it was among them.
    pub open spec fn deleted(self, start: int, end: int) -> BufferState {
        BufferState {
            text: self.text.take(start) + self.text.skip(end),
            begv: place_deleted(self.begv, start, end),
            pt: place_deleted(self.pt, start, end),
            zv: place_deleted(self.zv, start, end),
            modified: true,
            runs: runs_deleted(
                self.runs,
                self.chars_before(start) as int,
                max2(self.chars_before(start) as int, self.chars_before(end) as int),
            ),
            ..self
        }
    }

    /// The buffer with the property runs of a string added from a character on.
    pub open spec fn with_runs(self, at: int, count: int, runs: Lisp) -> BufferState {
        BufferState { runs: self.runs + string_runs(runs, at, count), ..self }
    }

    /// The buffer with a string with property runs inserted at point, which stays
    /// where it is.
    pub open spec fn received(self, text: LispText, runs: Lisp) -> BufferState {
        let bytes = bytes_for(self.multibyte, text);
        let p = self.chars_before(self.point_offset()) as int;
        BufferState {
            pt: self.pt,
            ..self.inserted(bytes).with_runs(p, self.chars_in(bytes), runs)
        }
    }

    /// The buffer with a string with property runs in place of the bytes between two
    /// offsets. Point stays where it is in the text around them.
    pub open spec fn replaced(self, start: int, end: int, text: LispText, runs: Lisp) -> BufferState {
        let bytes = bytes_for(self.multibyte, text);
        let c = self.deleted(start, end);
        let p = c.chars_before(start) as int;
        BufferState {
            pt: if c.pt > start {
                c.point_offset() + bytes.len()
            } else {
                c.pt
            },
            ..(BufferState { pt: start, ..c }).inserted(bytes).with_runs(
                p,
                self.chars_in(bytes),
                runs,
            )
        }
    }

    /// The value of a local variable.
    pub open spec fn local(self, name: Seq<char>) -> Option<Lisp> {
        entry(self.locals, name)
    }
}

impl Buffer {
    /// An empty multibyte buffer.
    pub fn new(id: u64, name: &str) -> (r: Self)
        ensures
            r@ == empty_buffer(id, name@),
    {
        let r = Buffer {
            id,
            name: name.to_owned(),
            text: Vec::new(),
            multibyte: true,
            begv: 0,
            zv: 0,
            pt: 0,
            modified: false,
            file_name: Value::Nil,
            locals: SymTable::new(),
            runs: Vec::new(),
        };
        proof {
            assert(r@.text =~= Seq::<u8>::empty());
            assert(r@.runs =~= Seq::<Run>::empty());
        }
        r
    }

    /// The character codes of the whole text.
    pub fn codes(&self) -> (r: Vec<u32>)
        ensures
            r@ == self@.codes(),
    {
        decode_text(self.text.as_slice(), self.multibyte)
    }

    /// The number of characters in the whole text.
    pub fn char_count(&self) -> (r: usize)
        ensures
            r == self@.codes().len(),
    {
        self.codes().len()
    }

    /// How many characters stand before a byte offset.
    pub fn byte_to_char(&self, offset: usize) -> (r: usize)
        ensures
            r == self@.chars_before(offset as int),
    {
        let end: usize = if offset <= self.text.len() {
            offset
        } else {
            self.text.len()
        };
        let prefix: &[u8] = vstd::slice::slice_subrange(self.text.as_slice(), 0, end);
        proof {
            assert(prefix@ =~= self@.text.take(min2(offset as int, self@.text.len() as int)));
        }
        decode_text(prefix, self.multibyte).len()
    }

    /// How many characters stand before point.
    pub fn point_char(&self) -> (r: usize)
        ensures
            r == self@.chars_before(self@.pt),
    {
        self.byte_to_char(self.pt)
    }

    /// The number of bytes in the whole text.
    pub fn total_bytes(&self) -> (r: usize)
        ensures
            r == self@.text.len(),
    {
        self.text.len()
    }

    /// The byte offset of a Lisp position.
    pub fn lisp_pos_to_byte(&self, position: i64) -> (r: usize)
        ensures
            r == self@.offset_of(position as int),
            r <= self@.text.len(),
    {
        if position <= 1 {
            return 0;
        }
        self.char_number_to_byte((position - 1) as u64)
    }

    /// The byte offset of the character with a number, from zero.
    pub fn char_index_to_byte(&self, index: usize) -> (r: usize)
        ensures
            r == self@.offset_of(index + 1),
            r <= self@.text.len(),
    {
        self.char_number_to_byte(index as u64)
    }

    /// The byte offset of the character with a number, from zero.
    fn char_number_to_byte(&self, n: u64) -> (r: usize)
        ensures
            r == char_offset(self@.text, self@.multibyte, n as int),
            r <= self@.text.len(),
    {
        if !self.multibyte {
            if n < self.text.len() as u64 {
                return n as usize;
            }
            return self.text.len();
        }
        let mut left: u64 = n;
        let mut pos: usize = 0;
        while left > 0 && pos < self.text.len()
            invariant
                pos <= self.text.len(),
                offset_after(self@.text, pos as int, left as int) == offset_after(
                    self@.text,
                    0,
                    n as int,
                ),
            decreases self.text.len() - pos,
        {
            let (_, len) = string_char(self.text.as_slice(), pos);
            pos = pos + len;
            left = left - 1;
        }
        pos
    }

    /// Moves point to a byte offset, kept inside the accessible region.
    pub fn goto_byte(&mut self, offset: usize)
        ensures
            final(self)@ == moved_point(old(self)@, offset as int),
            old(self)@.wf() ==> final(self)@.wf(),
    {
        self.pt = if offset < self.begv {
            self.begv
        } else if offset > self.zv {
            self.zv
        } else {
            offset
        };
    }

    /// Inserts a string at point and moves point after it.
    pub fn insert_lisp_string(&mut self, s: &LispString)
        ensures
            final(self)@ == old(self)@.inserted(bytes_for(old(self)@.multibyte, s@)),
            old(self)@.wf() ==> final(self)@.wf(),
    {
        let bytes: Vec<u8> = string_bytes_for(self.multibyte, s);
        self.insert_bytes(bytes.as_slice());
    }

    /// The byte offset of point, inside the text.
    fn point_in_text(&self) -> (r: usize)
        ensures
            r == self@.point_offset(),
    {
        if self.pt <= self.text.len() {
            self.pt
        } else {
            self.text.len()
        }
    }

    /// Inserts bytes at point and moves point after them.
    pub fn insert_bytes(&mut self, bytes: &[u8])
        ensures
            final(self)@ == old(self)@.inserted(bytes@),
            old(self)@.wf() ==> final(self)@.wf(),
    {
        let ghost before = self@;
        let at: usize = self.point_in_text();
        let p: usize = self.byte_to_char(at);
        let total: usize = self.char_count();
        let n: usize = decode_text(bytes, self.multibyte).len();
        let visible: usize = if self.zv <= self.text.len() {
            self.zv
        } else {
            self.text.len()
        };
        let mut text: Vec<u8> = Vec::new();
        append_bytes(&mut text, vstd::slice::slice_subrange(self.text.as_slice(), 0, at));
        append_bytes(&mut text, bytes);
        append_bytes(
            &mut text,
            vstd::slice::slice_subrange(self.text.as_slice(), at, self.text.len()),
        );
        proof {
            lemma_no_more_codes_than_bytes(before.text, before.multibyte);
            lemma_no_more_codes_than_bytes(bytes@, before.multibyte);
            assert(text@.len() == before.text.len() + bytes@.len());
            assert(text.len() == text@.len());
        }
        let runs: Vec<TextRun> = runs_after_insert(&self.runs, p, n, total);
        self.text = text;
        self.pt = at + bytes.len();
        self.zv = visible + bytes.len();
        self.modified = true;
        self.runs = runs;
        proof {
            assert(self@.text =~= before.inserted(bytes@).text);
        }
    }

    /// Removes the bytes between two offsets.
    pub fn delete_bytes(&mut self, start: usize, end: usize)
        requires
            start <= end <= old(self)@.text.len(),
        ensures
            final(self)@ == old(self)@.deleted(start as int, end as int),
            old(self)@.wf() ==> final(self)@.wf(),
    {
        let ghost before = self@;
        let a: usize = self.byte_to_char(start);
        let through: usize = self.byte_to_char(end);
        let b: usize = if through > a {
            through
        } else {
            a
        };
        let mut text: Vec<u8> = Vec::new();
        append_bytes(&mut text, vstd::slice::slice_subrange(self.text.as_slice(), 0, start));
        append_bytes(
            &mut text,
            vstd::slice::slice_subrange(self.text.as_slice(), end, self.text.len()),
        );
        self.text = text;
        self.begv = after_deletion(self.begv, start, end);
        self.pt = after_deletion(self.pt, start, end);
        self.zv = after_deletion(self.zv, start, end);
        self.modified = true;
        self.runs = runs_after_delete(&self.runs, a, b);
        proof {
            assert(self@.text =~= before.deleted(start as int, end as int).text);
        }
    }

    /// The text between two offsets.
    pub fn substring(&self, start: usize, end: usize) -> (r: LispString)
        requires
            start <= end <= self@.text.len(),
        ensures
            r@ == (LispText {
                bytes: self@.text.subrange(start as int, end as int),
                multibyte: self@.multibyte,
            }),
    {
        LispString {
            data: copy_bytes(vstd::slice::slice_subrange(self.text.as_slice(), start, end)),
            multibyte: self.multibyte,
        }
    }

    /// Adds the property runs of a string from a character on.
    pub fn add_runs(&mut self, at: usize, count: usize, runs: &Value)
        requires
            at + count <= usize::MAX,
        ensures
            final(self)@ == old(self)@.with_runs(at as int, count as int, runs@),
    {
        let ghost before = self@;
        let mut added: Vec<TextRun> = runs_of_string(runs, at, count);
        let ghost new = run_views(added@);
        self.runs.append(&mut added);
        proof {
            assert(self@.runs =~= before.runs + new);
        }
    }

    /// Inserts a string with property runs at point, which stays where it is.
    pub fn receive(&mut self, text: &LispString, runs: &Value)
        ensures
            final(self)@ == old(self)@.received(text@, runs@),
            old(self)@.wf() ==> final(self)@.wf(),
    {
        let point: usize = self.pt;
        let at: usize = self.point_in_text();
        let p: usize = self.byte_to_char(at);
        let bytes: Vec<u8> = string_bytes_for(self.multibyte, text);
        let count: usize = decode_text(bytes.as_slice(), self.multibyte).len();
        proof {
            lemma_no_more_codes_than_bytes(
                self@.text.take(min2(at as int, self@.text.len() as int)),
                self@.multibyte,
            );
            lemma_no_more_codes_than_bytes(bytes@, self@.multibyte);
        }
        self.insert_bytes(bytes.as_slice());
        proof {
            assert(self.text.len() == self.text@.len());
        }
        self.add_runs(p, count, runs);
        self.pt = point;
    }

    /// Puts a string with property runs in place of the bytes between two offsets.
    pub fn replace(&mut self, start: usize, end: usize, text: &LispString, runs: &Value)
        requires
            start <= end <= old(self)@.text.len(),
        ensures
            final(self)@ == old(self)@.replaced(start as int, end as int, text@, runs@),
    {
        let bytes: Vec<u8> = string_bytes_for(self.multibyte, text);
        let count: usize = decode_text(bytes.as_slice(), self.multibyte).len();
        self.delete_bytes(start, end);
        let saved: usize = self.pt;
        let inside: usize = self.point_in_text();
        let p: usize = self.byte_to_char(start);
        proof {
            lemma_no_more_codes_than_bytes(
                self@.text.take(min2(start as int, self@.text.len() as int)),
                self@.multibyte,
            );
            lemma_no_more_codes_than_bytes(bytes@, self@.multibyte);
        }
        self.pt = start;
        self.insert_bytes(bytes.as_slice());
        proof {
            assert(self.text.len() == self.text@.len());
        }
        self.add_runs(p, count, runs);
        self.pt = if saved > start {
            inside + bytes.len()
        } else {
            saved
        };
    }

    /// The value of a local variable.
    pub fn get_buffer_local(&self, name: &str) -> (r: Option<Value>)
        ensures
            match r {
                Some(v) => self@.local(name@) == Some(v@),
                None => self@.local(name@) is None,
            },
    {
        self.locals.get(name)
    }

    /// Sets a local variable.
    pub fn set_buffer_local(&mut self, name: &str, value: Value)
        ensures
            final(self)@ == (BufferState {
                locals: with_entry(old(self)@.locals, name@, value@),
                ..old(self)@
            }),
    {
        self.locals.set(name, value);
    }
}

/// The buffer with point at a byte offset, kept inside the accessible region.
pub open spec fn moved_point(b: BufferState, offset: int) -> BufferState {
    BufferState {
        pt: if offset < b.begv {
            b.begv
        } else if offset > b.zv {
            b.zv
        } else {
            offset
        },
        ..b
    }
}

/// An empty multibyte buffer.
pub open spec fn empty_buffer(id: u64, name: Seq<char>) -> BufferState {
    BufferState {
        id,
        name,
        text: Seq::empty(),
        multibyte: true,
        begv: 0,
        zv: 0,
        pt: 0,
        modified: false,
        file_name: Lisp::Nil,
        locals: Seq::empty(),
        runs: Seq::empty(),
    }
}

/// The bytes that a string becomes in a multibyte or unibyte buffer.
pub fn string_bytes_for(multibyte: bool, s: &LispString) -> (r: Vec<u8>)
    ensures
        r@ == bytes_for(multibyte, s@),
{
    if multibyte == s.multibyte {
        return copy_bytes(s.as_bytes());
    }
    let mut out: Vec<u8> = Vec::new();
    let mut i: usize = 0;
    if multibyte {
        let ghost codes = Seq::new(s@.bytes.len(), |i: int| byte_char(s@.bytes[i]));
        while i < s.data.len()
            invariant
                i <= s.data.len(),
                codes == Seq::new(s@.bytes.len(), |i: int| byte_char(s@.bytes[i])),
                out@ == codes_bytes(codes.take(i as int)),
            decreases s.data.len() - i,
        {
            proof {
                assert(codes.take(i + 1).drop_last() =~= codes.take(i as int));
            }
            push_char(&mut out, unibyte_to_char(s.data[i]));
            i = i + 1;
        }
        proof {
            assert(codes.take(i as int) =~= codes);
        }
        out
    } else {
        let codes: Vec<u32> = decode_text(s.as_bytes(), true);
        while i < codes.len()
            invariant
                i <= codes.len(),
                codes@ == s@.codes(),
                s@.multibyte,
                out@ == bytes_for(false, s@).take(i as int),
            decreases codes.len() - i,
        {
            proof {
                assert(bytes_for(false, s@).take(i + 1) =~= bytes_for(false, s@).take(
                    i as int,
                ).push((codes@[i as int] % 256) as u8));
            }
            out.push((codes[i] % 256) as u8);
            i = i + 1;
        }
        proof {
            assert(out@ =~= bytes_for(false, s@));
        }
        out
    }
}

/// A run of characters with a property list.
pub struct Run {
    pub start: int,
    pub end: int,
    pub plist: Lisp,
}

/// A run of characters with a property list.
#[derive(Debug, PartialEq, Eq)]
pub struct TextRun {
    pub start: usize,
    pub end: usize,
    pub plist: Value,
}

impl View for TextRun {
    type V = Run;

    open spec fn view(&self) -> Run {
        Run { start: self.start as int, end: self.end as int, plist: self.plist@ }
    }
}

/// What some runs are.
pub open spec fn run_views(s: Seq<TextRun>) -> Seq<Run> {
    Seq::new(s.len(), |i: int| s[i]@)
}

/// Where a character at `x` or after goes where `n` characters come in at `p`.
pub open spec fn place_inserted(x: int, p: int, n: int, total: int) -> int {
    if x < p {
        x
    } else {
        min2(x, total) + n
    }
}

/// What a run becomes where `n` characters without properties come in at `p`.
pub open spec fn run_inserted(r: Run, p: int, n: int, total: int) -> Seq<Run> {
    if r.end <= p {
        seq![r]
    } else if r.start >= p {
        seq![
            Run {
                start: place_inserted(r.start, p, n, total),
                end: place_inserted(r.end, p, n, total),
                plist: r.plist,
            },
        ]
    } else {
        seq![
            Run { start: r.start, end: p, plist: r.plist },
            Run {
                start: place_inserted(p, p, n, total),
                end: place_inserted(r.end, p, n, total),
                plist: r.plist,
            },
        ]
    }
}

/// What some runs become where `n` characters without properties come in at `p`.
pub open spec fn runs_inserted(rs: Seq<Run>, p: int, n: int, total: int) -> Seq<Run>
    decreases rs.len(),
{
    if rs.len() == 0 {
        seq![]
    } else {
        runs_inserted(rs.drop_last(), p, n, total) + run_inserted(rs.last(), p, n, total)
    }
}

/// Where a place goes where what is between two places is removed.
pub open spec fn place_deleted(x: int, start: int, end: int) -> int {
    if x <= start {
        x
    } else if x >= end {
        x - (end - start)
    } else {
        start
    }
}

/// What some runs become where the characters between two places are removed.
pub open spec fn runs_deleted(rs: Seq<Run>, start: int, end: int) -> Seq<Run>
    decreases rs.len(),
{
    if rs.len() == 0 {
        seq![]
    } else {
        let r = rs.last();
        let a = place_deleted(r.start, start, end);
        let b = place_deleted(r.end, start, end);
        let rest = runs_deleted(rs.drop_last(), start, end);
        if a < b {
            rest.push(Run { start: a, end: b, plist: r.plist })
        } else {
            rest
        }
    }
}

/// The runs `(START END PLIST)` of a string of `count` characters, where its first
/// character is the one with number `at`.
pub open spec fn string_runs(runs: Lisp, at: int, count: int) -> Seq<Run>
    decreases runs,
{
    match runs {
        Lisp::Cons(run, rest) => match (int_of(car(*run)), int_of(car(cdr(*run)))) {
            (Some(a), Some(b)) => if 0 <= a < b <= count {
                seq![Run { start: at + a, end: at + b, plist: car(cdr(cdr(*run))) }]
                    + string_runs(*rest, at, count)
            } else {
                string_runs(*rest, at, count)
            },
            _ => string_runs(*rest, at, count),
        },
        _ => seq![],
    }
}

/// The runs of a string, where its first character is the one with number `at`.
fn runs_of_string(runs: &Value, at: usize, count: usize) -> (r: Vec<TextRun>)
    requires
        at + count <= usize::MAX,
    ensures
        run_views(r@) == string_runs(runs@, at as int, count as int),
    decreases runs,
{
    match runs {
        Value::Cons(run, rest) => {
            let mut more: Vec<TextRun> = runs_of_string(rest, at, count);
            let tail: Value = run.cdr();
            match (run.car().as_int(), tail.car().as_int()) {
                (Some(a), Some(b)) => if 0 <= a && a < b && b as u128 <= count as u128 {
                    let mut out: Vec<TextRun> = Vec::new();
                    out.push(
                        TextRun {
                            start: at + a as usize,
                            end: at + b as usize,
                            plist: tail.cdr().car(),
                        },
                    );
                    let ghost first = out@[0]@;
                    let ghost others = run_views(more@);
                    out.append(&mut more);
                    proof {
                        assert(run_views(out@) =~= seq![first] + others);
                    }
                    out
                } else {
                    more
                },
                _ => more,
            }
        },
        _ => {
            let none: Vec<TextRun> = Vec::new();
            proof {
                assert(run_views(none@) =~= Seq::<Run>::empty());
            }
            none
        },
    }
}

/// Appends a run.
fn push_run(out: &mut Vec<TextRun>, start: usize, end: usize, plist: Value)
    ensures
        run_views(final(out)@) == run_views(old(out)@).push(
            (Run { start: start as int, end: end as int, plist: plist@ }),
        ),
{
    let ghost before = run_views(out@);
    let ghost p = plist@;
    out.push(TextRun { start, end, plist });
    proof {
        assert(run_views(out@) =~= before.push(
            Run { start: start as int, end: end as int, plist: p },
        ));
    }
}

/// Where a character goes where `n` characters come in at `p`.
fn after_insertion(x: usize, p: usize, n: usize, total: usize) -> (r: usize)
    requires
        total + n <= usize::MAX,
    ensures
        r == place_inserted(x as int, p as int, n as int, total as int),
{
    if x < p {
        x
    } else if x < total {
        x + n
    } else {
        total + n
    }
}

/// What some runs become where `n` characters without properties come in at `p`.
fn runs_after_insert(rs: &Vec<TextRun>, p: usize, n: usize, total: usize) -> (r: Vec<TextRun>)
    requires
        total + n <= usize::MAX,
    ensures
        run_views(r@) == runs_inserted(run_views(rs@), p as int, n as int, total as int),
{
    let mut out: Vec<TextRun> = Vec::new();
    let ghost all = run_views(rs@);
    let mut i: usize = 0;
    proof {
        assert(run_views(out@) =~= Seq::<Run>::empty());
    }
    while i < rs.len()
        invariant
            i <= rs.len(),
            all == run_views(rs@),
            total + n <= usize::MAX,
            run_views(out@) == runs_inserted(
                all.take(i as int),
                p as int,
                n as int,
                total as int,
            ),
        decreases rs.len() - i,
    {
        let r: &TextRun = &rs[i];
        let ghost before = run_views(out@);
        proof {
            assert(all.take(i + 1).drop_last() =~= all.take(i as int));
            assert(all.take(i + 1).last() == rs@[i as int]@);
        }
        if r.end <= p {
            push_run(&mut out, r.start, r.end, r.plist.copy());
        } else if r.start >= p {
            push_run(
                &mut out,
                after_insertion(r.start, p, n, total),
                after_insertion(r.end, p, n, total),
                r.plist.copy(),
            );
        } else {
            push_run(&mut out, r.start, p, r.plist.copy());
            push_run(
                &mut out,
                after_insertion(p, p, n, total),
                after_insertion(r.end, p, n, total),
                r.plist.copy(),
            );
        }
        proof {
            assert(run_views(out@) =~= before + run_inserted(
                rs@[i as int]@,
                p as int,
                n as int,
                total as int,
            ));
        }
        i = i + 1;
    }
    proof {
        assert(all.take(i as int) =~= all);
    }
    out
}

/// Where a place goes where what is between two places is removed.
fn after_deletion(x: usize, start: usize, end: usize) -> (r: usize)
    requires
        start <= end,
    ensures
        r == place_deleted(x as int, start as int, end as int),
{
    if x <= start {
        x
    } else if x >= end {
        x - (end - start)
    } else {
        start
    }
}

/// What some runs become where the characters between two places are removed.
fn runs_after_delete(rs: &Vec<TextRun>, start: usize, end: usize) -> (r: Vec<TextRun>)
    requires
        start <= end,
    ensures
        run_views(r@) == runs_deleted(run_views(rs@), start as int, end as int),
{
    let mut out: Vec<TextRun> = Vec::new();
    let ghost all = run_views(rs@);
    let mut i: usize = 0;
    proof {
        assert(run_views(out@) =~= Seq::<Run>::empty());
    }
    while i < rs.len()
        invariant
            i <= rs.len(),
            start <= end,
            all == run_views(rs@),
            run_views(out@) == runs_deleted(all.take(i as int), start as int, end as int),
        decreases rs.len() - i,
    {
        let r: &TextRun = &rs[i];
        proof {
            assert(all.take(i + 1).drop_last() =~= all.take(i as int));
            assert(all.take(i + 1).last() == rs@[i as int]@);
        }
        let a: usize = after_deletion(r.start, start, end);
        let b: usize = after_deletion(r.end, start, end);
        if a < b {
            push_run(&mut out, a, b, r.plist.copy());
        }
        i = i + 1;
    }
    proof {
        assert(all.take(i as int) =~= all);
    }
    out
}

/// Text has no more characters than bytes.
pub proof fn lemma_no_more_codes_than_bytes(s: Seq<u8>, multibyte: bool)
    ensures
        text_codes(s, multibyte).len() <= s.len(),
{
    if multibyte {
        lemma_codes_from_length(s, 0);
    }
}

proof fn lemma_codes_from_length(s: Seq<u8>, i: int)
    requires
        0 <= i <= s.len(),
    ensures
        codes_from(s, i).len() <= s.len() - i,
    decreases s.len() - i,
{
    if i < s.len() {
        lemma_codes_from_length(s, i + char_at(s, i).1);
    }
}

/// What the buffers of a session are.
pub struct Buffers {
    pub list: Seq<BufferState>,
    pub current: Option<u64>,
    pub next_id: u64,
}

/// The buffers of a session, in the order in which they were made.
#[derive(Debug, PartialEq, Eq)]
pub struct BufferManager {
    pub list: Vec<Buffer>,
    pub current: Option<u64>,
    pub next_id: u64,
}

/// What some buffers are.
pub open spec fn buffer_views(s: Seq<Buffer>) -> Seq<BufferState> {
    Seq::new(s.len(), |i: int| s[i]@)
}

impl View for BufferManager {
    type V = Buffers;

    open spec fn view(&self) -> Buffers {
        Buffers {
            list: buffer_views(self.list@),
            current: self.current,
            next_id: self.next_id,
        }
    }
}

/// The next identifier; the last one stays the last.
pub open spec fn next_of(id: u64) -> u64 {
    if id < u64::MAX {
        (id + 1) as u64
    } else {
        id
    }
}

/// The next identifier; the last one stays the last.
pub fn next_identifier(id: u64) -> (r: u64)
    ensures
        r == next_of(id),
{
    if id < u64::MAX {
        id + 1
    } else {
        id
    }
}

/// The index of the buffer with the given identifier; the number of buffers where there is none.
pub open spec fn buffer_index(list: Seq<BufferState>, id: u64) -> int
    decreases list.len(),
{
    if list.len() == 0 {
        0
    } else if list[0].id == id {
        0
    } else {
        1 + buffer_index(list.drop_first(), id)
    }
}

/// What the index of a buffer says.
pub proof fn lemma_buffer_index(list: Seq<BufferState>, id: u64, i: int)
    requires
        0 <= i <= list.len(),
        i < list.len() ==> list[i].id == id,
        forall|j: int| 0 <= j < i ==> (#[trigger] list[j]).id != id,
    ensures
        buffer_index(list, id) == i,
    decreases list.len(),
{
    if i > 0 {
        assert(list[0].id != id);
        let t = list.drop_first();
        assert forall|j: int| 0 <= j < i - 1 implies (#[trigger] t[j]).id != id by {
            assert(t[j] == list[j + 1]);
        }
        lemma_buffer_index(t, id, i - 1);
    }
}

/// The identifier of the first buffer with the given name.
pub open spec fn named_buffer(list: Seq<BufferState>, name: Seq<char>) -> Option<u64>
    decreases list.len(),
{
    if list.len() == 0 {
        None
    } else if list[0].name == name {
        Some(list[0].id)
    } else {
        named_buffer(list.drop_first(), name)
    }
}

impl Buffers {
    /// The buffer with the given identifier.
    pub open spec fn get(self, id: u64) -> Option<BufferState> {
        let i = buffer_index(self.list, id);
        if 0 <= i < self.list.len() {
            Some(self.list[i])
        } else {
            None
        }
    }

    /// The current buffer.
    pub open spec fn current_buffer(self) -> Option<BufferState> {
        match self.current {
            Some(id) => self.get(id),
            None => None,
        }
    }

    /// The buffers with one more.
    pub open spec fn created(self, name: Seq<char>) -> Buffers {
        Buffers {
            list: self.list.push(empty_buffer(self.next_id, name)),
            next_id: next_of(self.next_id),
            ..self
        }
    }

    /// The buffers with another current one; unchanged where it does not exist.
    pub open spec fn with_current(self, id: u64) -> Buffers {
        if self.get(id) is Some {
            Buffers { current: Some(id), ..self }
        } else {
            self
        }
    }

    /// The buffers with one of them replaced.
    pub open spec fn with_buffer(self, id: u64, b: BufferState) -> Buffers {
        let i = buffer_index(self.list, id);
        if 0 <= i < self.list.len() {
            Buffers { list: self.list.update(i, b), ..self }
        } else {
            self
        }
    }

    /// Whether every buffer is well-formed.
    pub open spec fn wf(self) -> bool {
        forall|i: int| 0 <= i < self.list.len() ==> (#[trigger] self.list[i]).wf()
    }
}

impl BufferManager {
    /// No buffers.
    pub fn new() -> (r: Self)
        ensures
            r@.list == Seq::<BufferState>::empty(),
            r@.current is None,
            r@.next_id == 1,
            r@.wf(),
    {
        let r = BufferManager { list: Vec::new(), current: None, next_id: 1 };
        proof {
            assert(r@.list =~= Seq::<BufferState>::empty());
        }
        r
    }

    /// The index of the buffer with the given identifier.
    pub fn index_of(&self, id: u64) -> (r: usize)
        ensures
            r <= self.list.len(),
            r == buffer_index(self@.list, id),
            r < self.list.len() ==> self.list@[r as int]@ == self@.list[r as int],
            (r < self.list.len()) == (self@.get(id) is Some),
    {
        let mut i: usize = 0;
        while i < self.list.len()
            invariant
                i <= self.list.len(),
                forall|j: int| 0 <= j < i ==> (#[trigger] self@.list[j]).id != id,
            decreases self.list.len() - i,
        {
            if self.list[i].id == id {
                proof {
                    assert(self@.list[i as int].id == id);
                    lemma_buffer_index(self@.list, id, i as int);
                }
                return i;
            }
            i = i + 1;
        }
        proof {
            lemma_buffer_index(self@.list, id, i as int);
        }
        i
    }

    /// The buffer with the given identifier.
    pub fn get(&self, id: u64) -> (r: Option<&Buffer>)
        ensures
            match r {
                Some(b) => self@.get(id) == Some(b@),
                None => self@.get(id) is None,
            },
    {
        let i: usize = self.index_of(id);
        if i < self.list.len() {
            Some(&self.list[i])
        } else {
            None
        }
    }

    /// The current buffer.
    pub fn current_buffer(&self) -> (r: Option<&Buffer>)
        ensures
            match r {
                Some(b) => self@.current_buffer() == Some(b@),
                None => self@.current_buffer() is None,
            },
    {
        match self.current {
            Some(id) => self.get(id),
            None => None,
        }
    }

    /// The identifier of the current buffer.
    pub fn current_buffer_id(&self) -> (r: Option<u64>)
        ensures
            r == self@.current,
    {
        self.current
    }

    /// The identifier of the first buffer with the given name.
    pub fn find_buffer_by_name(&self, name: &str) -> (r: Option<u64>)
        ensures
            r == named_buffer(self@.list, name@),
    {
        let mut i: usize = 0;
        proof {
            assert(self@.list.skip(0) =~= self@.list);
        }
        while i < self.list.len()
            invariant
                i <= self.list.len(),
                named_buffer(self@.list.skip(i as int), name@) == named_buffer(self@.list, name@),
            decreases self.list.len() - i,
        {
            proof {
                assert(self@.list.skip(i as int)[0] == self.list@[i as int]@);
                assert(self@.list.skip(i as int).drop_first() =~= self@.list.skip(i + 1));
            }
            if str_eq(self.list[i].name.as_str(), name) {
                return Some(self.list[i].id);
            }
            i = i + 1;
        }
        None
    }

    /// Makes an empty buffer.
    pub fn create_buffer(&mut self, name: &str) -> (r: u64)
        ensures
            final(self)@ == old(self)@.created(name@),
            r == old(self)@.next_id,
            old(self)@.wf() ==> final(self)@.wf(),
    {
        let ghost before = self@;
        let id: u64 = self.next_id;
        self.list.push(Buffer::new(id, name));
        self.next_id = next_identifier(id);
        proof {
            assert(self@.list =~= before.created(name@).list);
            assert(before.wf() ==> self@.wf()) by {
                assert forall|i: int| before.wf() && 0 <= i < self@.list.len() implies (
                #[trigger] self@.list[i]).wf() by {
                    if i < before.list.len() {
                        assert(before.list[i].wf());
                    }
                }
            }
        }
        id
    }

    /// Makes a buffer the current one, where it exists.
    pub fn set_current(&mut self, id: u64)
        ensures
            final(self)@ == old(self)@.with_current(id),
    {
        if self.index_of(id) < self.list.len() {
            self.current = Some(id);
        }
    }

    /// Inserts a string with property runs at the point of a buffer, which stays
    /// where it is.
    pub fn receive(&mut self, id: u64, text: &LispString, runs: &Value)
        ensures
            final(self)@ == (match old(self)@.get(id) {
                Some(b) => old(self)@.with_buffer(id, b.received(text@, runs@)),
                None => old(self)@,
            }),
    {
        let i: usize = self.index_of(id);
        if i < self.list.len() {
            let ghost before = self@;
            self.list[i].receive(text, runs);
            proof {
                assert(self@.list =~= before.list.update(
                    i as int,
                    before.list[i as int].received(text@, runs@),
                ));
            }
        }
    }

    /// Puts a string with property runs in place of the bytes between two offsets of
    /// a buffer.
    pub fn replace(&mut self, id: u64, start: usize, end: usize, text: &LispString, runs: &Value)
        requires
            old(self)@.get(id) matches Some(b) ==> start <= end <= b.text.len(),
        ensures
            final(self)@ == (match old(self)@.get(id) {
                Some(b) => old(self)@.with_buffer(
                    id,
                    b.replaced(start as int, end as int, text@, runs@),
                ),
                None => old(self)@,
            }),
    {
        let i: usize = self.index_of(id);
        if i < self.list.len() {
            let ghost before = self@;
            self.list[i].replace(start, end, text, runs);
            proof {
                assert(self@.list =~= before.list.update(
                    i as int,
                    before.list[i as int].replaced(start as int, end as int, text@, runs@),
                ));
            }
        }
    }

    /// Moves the point of a buffer to a byte offset.
    pub fn goto_buffer_byte(&mut self, id: u64, offset: usize)
        ensures
            final(self)@ == (match old(self)@.get(id) {
                Some(b) => old(self)@.with_buffer(id, moved_point(b, offset as int)),
                None => old(self)@,
            }),
            old(self)@.wf() ==> final(self)@.wf(),
    {
        let i: usize = self.index_of(id);
        if i < self.list.len() {
            let ghost before = self@;
            self.list[i].goto_byte(offset);
            proof {
                assert(self@.list =~= before.list.update(
                    i as int,
                    moved_point(before.list[i as int], offset as int),
                ));
                assert forall|j: int| before.wf() && 0 <= j < self@.list.len() implies (
                #[trigger] self@.list[j]).wf() by {
                    assert(before.list[j].wf());
                }
            }
        }
    }
}

} // verus!
