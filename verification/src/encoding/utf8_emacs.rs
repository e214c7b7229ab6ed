//! UTF-8 with the raw bytes and the characters beyond Unicode that Emacs text can hold.
use crate::emacs_char::{byte_char, lemma_split3, lemma_split4, low6, unibyte_to_char};
use crate::storage::{
    code_storage, push_code, RAW_BYTE_SENTINEL_BASE, RAW_BYTE_SENTINEL_MAX, RAW_BYTE_SENTINEL_MIN,
    UNIBYTE_BYTE_SENTINEL_BASE, UNIBYTE_BYTE_SENTINEL_MAX, UNIBYTE_BYTE_SENTINEL_MIN,
};
use crate::text::{code_of, lemma_char};
use vstd::prelude::*;

verus! {

/// Whether the byte continues a sequence.
pub open spec fn is_cont(b: u8) -> bool {
    0x80 <= b <= 0xBF
}

/// Whether the bytes at the `n` indices after `i` are there and continue a sequence.
pub open spec fn continued(s: Seq<u8>, i: int, n: int) -> bool {
    i + n < s.len() && forall|j: int| i < j <= i + n ==> is_cont(#[trigger] s[j])
}

/// How many bytes the sequence that starts at index `i` has; zero where the
/// byte there starts no complete sequence.
pub open spec fn sequence_len(s: Seq<u8>, i: int) -> int {
    let b = s[i];
    if b < 0x80 {
        1
    } else if 0xC2 <= b <= 0xDF && continued(s, i, 1) {
        2
    } else if 0xE0 <= b <= 0xEF && continued(s, i, 2) {
        3
    } else if 0xF0 <= b <= 0xF7 && continued(s, i, 3) {
        4
    } else if 0xF8 <= b <= 0xFB && continued(s, i, 4) {
        5
    } else if 0xFC <= b <= 0xFD && continued(s, i, 5) {
        6
    } else {
        0
    }
}

/// The character code of the sequence of `n` bytes that starts at index `i`.
pub open spec fn sequence_code(s: Seq<u8>, i: int, n: int) -> u32 {
    let b = s[i] as int;
    if n == 1 {
        b as u32
    } else if n == 2 {
        (b % 32 * 64 + low6(s[i + 1])) as u32
    } else if n == 3 {
        (b % 16 * 4096 + low6(s[i + 1]) * 64 + low6(s[i + 2])) as u32
    } else if n == 4 {
        (b % 8 * 262144 + low6(s[i + 1]) * 4096 + low6(s[i + 2]) * 64 + low6(s[i + 3])) as u32
    } else if n == 5 {
        (b % 4 * 16777216 + low6(s[i + 1]) * 262144 + low6(s[i + 2]) * 4096 + low6(s[i + 3]) * 64
            + low6(s[i + 4])) as u32
    } else {
        (b % 2 * 1073741824 + low6(s[i + 1]) * 16777216 + low6(s[i + 2]) * 262144 + low6(s[i + 3])
            * 4096 + low6(s[i + 4]) * 64 + low6(s[i + 5])) as u32
    }
}

/// The character that starts at index `i`, and how many bytes it takes. A byte
/// that starts no complete sequence is a raw byte.
pub open spec fn utf8_emacs_at(s: Seq<u8>, i: int) -> (u32, int) {
    let n = sequence_len(s, i);
    if n == 0 {
        (byte_char(s[i]), 1)
    } else {
        (sequence_code(s, i, n), n)
    }
}

/// The text of the bytes from index `i` on.
pub open spec fn utf8_emacs_from(s: Seq<u8>, i: int) -> Seq<char>
    decreases s.len() - i,
{
    if i < 0 || i >= s.len() {
        Seq::empty()
    } else {
        let (code, n) = utf8_emacs_at(s, i);
        code_storage(code) + utf8_emacs_from(s, i + n)
    }
}

/// Whether the bytes at the `n` indices after `i` are there and continue a sequence.
fn has_continuation(s: &[u8], i: usize, n: usize) -> (r: bool)
    requires
        i < s.len(),
        n <= 5,
    ensures
        r == continued(s@, i as int, n as int),
{
    if s.len() - i <= n {
        return false;
    }
    let mut k: usize = 1;
    while k <= n
        invariant
            1 <= k <= n + 1,
            i + n < s.len(),
            n <= 5,
            forall|j: int| i < j < i + k ==> is_cont(#[trigger] s@[j]),
        decreases n + 1 - k,
    {
        let b: u8 = s[i + k];
        if b < 0x80 || b > 0xBF {
            proof {
                assert(!is_cont(s@[i + k]));
            }
            return false;
        }
        k = k + 1;
    }
    true
}

/// The payload bits of the continuation byte at index `i`.
fn payload(s: &[u8], i: usize) -> (r: u32)
    requires
        i < s.len(),
    ensures
        r == low6(s@[i as int]),
        r < 64,
{
    (s[i] % 64) as u32
}

/// The character that starts at index `i`, and how many bytes it takes.
fn read_utf8_emacs(s: &[u8], i: usize) -> (r: (u32, usize))
    requires
        i < s.len(),
    ensures
        r.0 == utf8_emacs_at(s@, i as int).0,
        r.1 == utf8_emacs_at(s@, i as int).1,
        1 <= r.1,
        i + r.1 <= s.len(),
{
    let b: u8 = s[i];
    if b < 0x80 {
        return (b as u32, 1);
    }
    if 0xC2 <= b && b <= 0xDF && has_continuation(s, i, 1) {
        return ((b % 32) as u32 * 64 + payload(s, i + 1), 2);
    }
    if 0xE0 <= b && b <= 0xEF && has_continuation(s, i, 2) {
        return ((b % 16) as u32 * 4096 + payload(s, i + 1) * 64 + payload(s, i + 2), 3);
    }
    if 0xF0 <= b && b <= 0xF7 && has_continuation(s, i, 3) {
        return (
            (b % 8) as u32 * 262144 + payload(s, i + 1) * 4096 + payload(s, i + 2) * 64 + payload(
                s,
                i + 3,
            ),
            4,
        );
    }
    if 0xF8 <= b && b <= 0xFB && has_continuation(s, i, 4) {
        return (
            (b % 4) as u32 * 16777216 + payload(s, i + 1) * 262144 + payload(s, i + 2) * 4096
                + payload(s, i + 3) * 64 + payload(s, i + 4),
            5,
        );
    }
    if 0xFC <= b && b <= 0xFD && has_continuation(s, i, 5) {
        return (
            (b % 2) as u32 * 1073741824 + payload(s, i + 1) * 16777216 + payload(s, i + 2) * 262144
                + payload(s, i + 3) * 4096 + payload(s, i + 4) * 64 + payload(s, i + 5),
            6,
        );
    }
    (unibyte_to_char(b), 1)
}

/// Appends a decoded character in its stored form.
pub fn push_emacs_utf8_decoded_char(out: &mut Vec<char>, code: u32)
    ensures
        final(out)@ == old(out)@ + code_storage(code),
{
    push_code(out, code)
}

/// The multibyte text in which every byte is a character of its own: an ASCII one or
/// a raw byte.
pub open spec fn raw_multibyte_text(bytes: Seq<u8>) -> Seq<char>
    decreases bytes.len(),
{
    if bytes.len() == 0 {
        Seq::empty()
    } else {
        raw_multibyte_text(bytes.drop_last()) + code_storage(byte_char(bytes.last()))
    }
}

/// The multibyte text in which every byte is a character of its own.
pub fn bytes_to_multibyte_raw_string(bytes: &[u8]) -> (r: Vec<char>)
    ensures
        r@ == raw_multibyte_text(bytes@),
{
    let mut out: Vec<char> = Vec::new();
    let mut i: usize = 0;
    while i < bytes.len()
        invariant
            i <= bytes.len(),
            out@ == raw_multibyte_text(bytes@.take(i as int)),
        decreases bytes.len() - i,
    {
        proof {
            assert(bytes@.take(i + 1).drop_last() =~= bytes@.take(i as int));
        }
        push_emacs_utf8_decoded_char(&mut out, unibyte_to_char(bytes[i]));
        i = i + 1;
    }
    proof {
        assert(bytes@.take(i as int) =~= bytes@);
    }
    out
}

/// The text of some bytes; bytes that are no UTF-8 become raw bytes.
pub fn decode_utf8_emacs_bytes(bytes: &[u8]) -> (r: Vec<char>)
    ensures
        r@ == utf8_emacs_from(bytes@, 0),
{
    let mut out: Vec<char> = Vec::new();
    let mut i: usize = 0;
    while i < bytes.len()
        invariant
            i <= bytes.len(),
            out@ + utf8_emacs_from(bytes@, i as int) == utf8_emacs_from(bytes@, 0),
        decreases bytes.len() - i,
    {
        let (code, n) = read_utf8_emacs(bytes, i);
        let ghost before = out@;
        push_emacs_utf8_decoded_char(&mut out, code);
        proof {
            assert(before + utf8_emacs_from(bytes@, i as int) =~= out@ + utf8_emacs_from(
                bytes@,
                i + n,
            ));
        }
        i = i + n;
    }
    proof {
        assert(out@ + utf8_emacs_from(bytes@, i as int) =~= out@);
    }
    out
}

/// The bytes of a character code, in UTF-8 extended to 31 bits; none for a larger number.
pub open spec fn utf8_code_bytes(code: u32) -> Seq<u8> {
    let c = code as int;
    if c <= 0x7F {
        seq![c as u8]
    } else if c <= 0x7FF {
        seq![(0xC0 + c / 64) as u8, (0x80 + c % 64) as u8]
    } else if c <= 0xFFFF {
        seq![(0xE0 + c / 4096) as u8, (0x80 + c / 64 % 64) as u8, (0x80 + c % 64) as u8]
    } else if c <= 0x1FFFFF {
        seq![
            (0xF0 + c / 262144 % 8) as u8,
            (0x80 + c / 4096 % 64) as u8,
            (0x80 + c / 64 % 64) as u8,
            (0x80 + c % 64) as u8,
        ]
    } else if c <= 0x3FFFFF {
        seq![
            (0xF8 + c / 16777216 % 4) as u8,
            (0x80 + c / 262144 % 64) as u8,
            (0x80 + c / 4096 % 64) as u8,
            (0x80 + c / 64 % 64) as u8,
            (0x80 + c % 64) as u8,
        ]
    } else if c <= 0x7FFFFFFF {
        seq![
            (0xFC + c / 1073741824 % 2) as u8,
            (0x80 + c / 16777216 % 64) as u8,
            (0x80 + c / 262144 % 64) as u8,
            (0x80 + c / 4096 % 64) as u8,
            (0x80 + c / 64 % 64) as u8,
            (0x80 + c % 64) as u8,
        ]
    } else {
        Seq::empty()
    }
}

/// Appends the bytes of a character code.
pub fn encode_emacs_utf8_codepoint(code: u32, out: &mut Vec<u8>)
    ensures
        final(out)@ == old(out)@ + utf8_code_bytes(code),
{
    let ghost before = out@;
    if code <= 0x7F {
        out.push(code as u8);
    } else if code <= 0x7FF {
        out.push((0xC0 + code / 64) as u8);
        out.push((0x80 + code % 64) as u8);
    } else if code <= 0xFFFF {
        out.push((0xE0 + code / 4096) as u8);
        out.push((0x80 + code / 64 % 64) as u8);
        out.push((0x80 + code % 64) as u8);
    } else if code <= 0x1FFFFF {
        out.push((0xF0 + code / 262144 % 8) as u8);
        out.push((0x80 + code / 4096 % 64) as u8);
        out.push((0x80 + code / 64 % 64) as u8);
        out.push((0x80 + code % 64) as u8);
    } else if code <= 0x3FFFFF {
        out.push((0xF8 + code / 16777216 % 4) as u8);
        out.push((0x80 + code / 262144 % 64) as u8);
        out.push((0x80 + code / 4096 % 64) as u8);
        out.push((0x80 + code / 64 % 64) as u8);
        out.push((0x80 + code % 64) as u8);
    } else if code <= 0x7FFFFFFF {
        out.push((0xFC + code / 1073741824 % 2) as u8);
        out.push((0x80 + code / 16777216 % 64) as u8);
        out.push((0x80 + code / 262144 % 64) as u8);
        out.push((0x80 + code / 4096 % 64) as u8);
        out.push((0x80 + code / 64 % 64) as u8);
        out.push((0x80 + code % 64) as u8);
    }
    proof {
        assert(out@ =~= before + utf8_code_bytes(code));
    }
}

/// The byte that a stored raw byte stands for.
pub open spec fn sentinel_byte(c: char) -> Option<u8> {
    let cp = c as u32;
    if RAW_BYTE_SENTINEL_MIN <= cp <= RAW_BYTE_SENTINEL_MAX {
        Some((cp - RAW_BYTE_SENTINEL_BASE) as u8)
    } else if UNIBYTE_BYTE_SENTINEL_MIN <= cp <= UNIBYTE_BYTE_SENTINEL_MAX {
        Some((cp - UNIBYTE_BYTE_SENTINEL_BASE) as u8)
    } else {
        None
    }
}

/// The byte that a stored raw byte stands for.
pub fn sentinel_to_byte(c: char) -> (r: Option<u8>)
    ensures
        r == sentinel_byte(c),
{
    let cp: u32 = code_of(c);
    if RAW_BYTE_SENTINEL_MIN <= cp && cp <= RAW_BYTE_SENTINEL_MAX {
        Some((cp - RAW_BYTE_SENTINEL_BASE) as u8)
    } else if UNIBYTE_BYTE_SENTINEL_MIN <= cp && cp <= UNIBYTE_BYTE_SENTINEL_MAX {
        Some((cp - UNIBYTE_BYTE_SENTINEL_BASE) as u8)
    } else {
        None
    }
}

/// The bytes of one element of a storage string.
pub open spec fn stored_char_bytes(c: char) -> Seq<u8> {
    match sentinel_byte(c) {
        Some(b) => seq![b],
        None => utf8_code_bytes(c as u32),
    }
}

/// The bytes of a storage string.
pub open spec fn utf8_emacs_bytes(s: Seq<char>) -> Seq<u8>
    decreases s.len(),
{
    if s.len() == 0 {
        Seq::empty()
    } else {
        utf8_emacs_bytes(s.drop_last()) + stored_char_bytes(s.last())
    }
}

/// The bytes of a storage string: raw bytes as they are, the rest in UTF-8.
pub fn encode_utf8_emacs_text(s: &[char]) -> (r: Vec<u8>)
    ensures
        r@ == utf8_emacs_bytes(s@),
{
    let mut out: Vec<u8> = Vec::new();
    let mut i: usize = 0;
    while i < s.len()
        invariant
            i <= s.len(),
            out@ == utf8_emacs_bytes(s@.take(i as int)),
        decreases s.len() - i,
    {
        let ghost before = out@;
        proof {
            assert(s@.take(i + 1).drop_last() =~= s@.take(i as int));
        }
        match sentinel_to_byte(s[i]) {
            Some(b) => {
                out.push(b);
                proof {
                    assert(out@ =~= before + seq![b]);
                }
            },
            None => {
                encode_emacs_utf8_codepoint(code_of(s[i]), &mut out);
            },
        }
        i = i + 1;
    }
    proof {
        assert(s@.take(i as int) =~= s@);
    }
    out
}

/// The bytes of one Unicode character read back as the character, whatever
/// stands before and after them.
proof fn lemma_scalar_read_back(a: Seq<u8>, c: char, rest: Seq<u8>)
    ensures
        utf8_emacs_at(a + utf8_code_bytes(c as u32) + rest, a.len() as int) == (
            c as u32,
            utf8_code_bytes(c as u32).len() as int,
        ),
{
    lemma_char(c);
    let v = c as u32 as int;
    let s = a + utf8_code_bytes(c as u32) + rest;
    let i = a.len() as int;
    if v <= 0x7F {
        assert(s[i] == v);
    } else if v <= 0x7FF {
        assert(s[i] == 0xC0 + v / 64 && s[i + 1] == 0x80 + v % 64);
        assert(continued(s, i, 1));
    } else if v <= 0xFFFF {
        assert(s[i] == 0xE0 + v / 4096 && s[i + 1] == 0x80 + v / 64 % 64 && s[i + 2] == 0x80 + v
            % 64);
        assert(continued(s, i, 2));
        lemma_split3(v);
    } else {
        assert(s[i] == 0xF0 + v / 262144 % 8 && s[i + 1] == 0x80 + v / 4096 % 64);
        assert(s[i + 2] == 0x80 + v / 64 % 64 && s[i + 3] == 0x80 + v % 64);
        assert(continued(s, i, 3));
        lemma_split4(v);
    }
}

/// The text read from where `t`'s bytes start, after the bytes of `a`.
proof fn lemma_text_read_back(a: Seq<char>, t: Seq<char>)
    requires
        forall|i: int| 0 <= i < t.len() ==> sentinel_byte(#[trigger] t[i]) is None,
    ensures
        utf8_emacs_from(utf8_emacs_bytes(a) + utf8_emacs_rest(t), utf8_emacs_bytes(a).len() as int)
            == t,
    decreases t.len(),
{
    let s = utf8_emacs_bytes(a) + utf8_emacs_rest(t);
    let i = utf8_emacs_bytes(a).len() as int;
    if t.len() == 0 {
        assert(utf8_emacs_from(s, i) =~= t);
    } else {
        let c = t[0];
        let tail = t.drop_first();
        assert(sentinel_byte(c) is None);
        lemma_char(c);
        let b = utf8_code_bytes(c as u32);
        assert(s =~= utf8_emacs_bytes(a) + b + utf8_emacs_rest(tail));
        lemma_scalar_read_back(utf8_emacs_bytes(a), c, utf8_emacs_rest(tail));
        assert(a.push(c).drop_last() =~= a);
        assert(s =~= utf8_emacs_bytes(a.push(c)) + utf8_emacs_rest(tail));
        assert forall|k: int| 0 <= k < tail.len() implies sentinel_byte(#[trigger] tail[k]) is None by {
            assert(tail[k] == t[k + 1]);
        }
        lemma_text_read_back(a.push(c), tail);
        assert(code_storage(c as u32) =~= seq![c]);
        assert(utf8_emacs_from(s, i) =~= seq![c] + tail);
        assert(seq![c] + tail =~= t);
    }
}

/// The bytes of a storage string, from its first element on.
spec fn utf8_emacs_rest(t: Seq<char>) -> Seq<u8>
    decreases t.len(),
{
    if t.len() == 0 {
        Seq::empty()
    } else {
        stored_char_bytes(t[0]) + utf8_emacs_rest(t.drop_first())
    }
}

/// Taking the elements from the front or from the back gives the same bytes.
proof fn lemma_bytes_from_front(a: Seq<char>, t: Seq<char>)
    ensures
        utf8_emacs_bytes(a) + utf8_emacs_rest(t) == utf8_emacs_bytes(a + t),
    decreases t.len(),
{
    if t.len() == 0 {
        assert(a + t =~= a);
        assert(utf8_emacs_bytes(a) + utf8_emacs_rest(t) =~= utf8_emacs_bytes(a));
    } else {
        lemma_bytes_from_front(a.push(t[0]), t.drop_first());
        assert(a.push(t[0]) + t.drop_first() =~= a + t);
        assert(a.push(t[0]).drop_last() =~= a);
        assert(utf8_emacs_bytes(a) + utf8_emacs_rest(t) =~= utf8_emacs_bytes(a.push(t[0]))
            + utf8_emacs_rest(t.drop_first()));
    }
}

/// Text without stored raw bytes reads back whole from its bytes.
pub proof fn law_utf8_emacs_round_trip(s: Seq<char>)
    requires
        forall|i: int| 0 <= i < s.len() ==> sentinel_byte(#[trigger] s[i]) is None,
    ensures
        utf8_emacs_from(utf8_emacs_bytes(s), 0) == s,
{
    let e = Seq::<char>::empty();
    lemma_text_read_back(e, s);
    lemma_bytes_from_front(e, s);
    assert(e + s =~= s);
}

/// ASCII bytes are their own text.
pub proof fn law_ascii_bytes_are_text(b: Seq<u8>, i: int)
    requires
        0 <= i <= b.len(),
        forall|k: int| 0 <= k < b.len() ==> #[trigger] b[k] < 0x80,
    ensures
        utf8_emacs_from(b, i) == Seq::new((b.len() - i) as nat, |k: int| b[i + k] as char),
    decreases b.len() - i,
{
    if i < b.len() {
        law_ascii_bytes_are_text(b, i + 1);
        assert(b[i] < 0x80);
        assert(code_storage(b[i] as u32) =~= seq![b[i] as char]);
    }
    assert(utf8_emacs_from(b, i) =~= Seq::new((b.len() - i) as nat, |k: int| b[i + k] as char));
}

} // verus!
