//! Storage strings: Unicode strings that also hold raw bytes and characters
//! beyond Unicode, by private-use characters that stand for them.
use crate::emacs_char::{
    byte_char, char_at, char_bytes, push_char, raw_byte_of, string_char, decode_text,
    unibyte_to_char, char_to_byte8, MAX_5_BYTE_CHAR, MAX_CHAR,
};
use crate::lisp_string::{LispString, LispText};
use crate::text::{append_chars, code_of, is_unicode_scalar, lemma_char};
use vstd::prelude::*;

verus! {

/// A raw byte `b` of a multibyte string is stored as this code point plus `b`.
pub const RAW_BYTE_SENTINEL_BASE: u32 = 0xE000;

pub const RAW_BYTE_SENTINEL_MIN: u32 = 0xE080;

pub const RAW_BYTE_SENTINEL_MAX: u32 = 0xE0FF;

/// Starts the stored form of a character beyond Unicode.
pub const EXTENDED_PREFIX: char = '\u{E100}';

/// The number of bytes of such a character follows as this code point plus the number.
pub const EXTENDED_LEN_BASE: u32 = 0xE110;

/// Each byte of such a character follows as this code point plus the byte.
pub const EXTENDED_BYTE_BASE: u32 = 0xE200;

/// A byte `b` of a unibyte string is stored as this code point plus `b`, unless it is ASCII.
pub const UNIBYTE_BYTE_SENTINEL_BASE: u32 = 0xE300;

pub const UNIBYTE_BYTE_SENTINEL_MIN: u32 = 0xE300;

pub const UNIBYTE_BYTE_SENTINEL_MAX: u32 = 0xE3FF;

/// The stored form of a character that is no Unicode scalar value.
pub open spec fn nonunicode_storage(code: u32) -> Option<Seq<char>> {
    if code > MAX_CHAR {
        None
    } else if code > MAX_5_BYTE_CHAR {
        Some(seq![(RAW_BYTE_SENTINEL_BASE + raw_byte_of(code)) as char])
    } else {
        let bytes = char_bytes(code);
        Some(
            seq![EXTENDED_PREFIX, (EXTENDED_LEN_BASE + bytes.len()) as char] + Seq::new(
                bytes.len(),
                |i: int| (EXTENDED_BYTE_BASE + bytes[i]) as char,
            ),
        )
    }
}

/// The stored form of a character: itself where it is a Unicode scalar value,
/// U+FFFD where it is no character code at all.
pub open spec fn code_storage(code: u32) -> Seq<char> {
    if is_unicode_scalar(code) {
        seq![code as char]
    } else {
        match nonunicode_storage(code) {
            Some(s) => s,
            None => seq!['\u{FFFD}'],
        }
    }
}

/// The character with the given code.
fn scalar_char(code: u32) -> (r: char)
    requires
        is_unicode_scalar(code),
    ensures
        r == code as char,
{
    match char::from_u32(code) {
        Some(c) => {
            proof {
                lemma_char(c);
            }
            c
        },
        None => '?',
    }
}

/// The stored form of a character that is no Unicode scalar value.
pub fn encode_nonunicode_char_for_storage(code: u32) -> (r: Option<Vec<char>>)
    ensures
        match r {
            Some(v) => nonunicode_storage(code) == Some(v@),
            None => nonunicode_storage(code) is None,
        },
{
    if code > MAX_CHAR {
        return None;
    }
    let mut out: Vec<char> = Vec::new();
    if code > MAX_5_BYTE_CHAR {
        out.push(scalar_char(RAW_BYTE_SENTINEL_BASE + char_to_byte8(code) as u32));
        proof {
            assert(out@ =~= nonunicode_storage(code)->Some_0);
        }
        return Some(out);
    }
    let mut bytes: Vec<u8> = Vec::new();
    push_char(&mut bytes, code);
    proof {
        assert(bytes@ =~= char_bytes(code));
    }
    out.push(EXTENDED_PREFIX);
    out.push(scalar_char(EXTENDED_LEN_BASE + bytes.len() as u32));
    let mut i: usize = 0;
    while i < bytes.len()
        invariant
            i <= bytes.len(),
            bytes@ == char_bytes(code),
            out@.len() == i + 2,
            out@[0] == EXTENDED_PREFIX,
            out@[1] == (EXTENDED_LEN_BASE + bytes@.len()) as char,
            forall|j: int| 0 <= j < i ==> out@[j + 2] == (EXTENDED_BYTE_BASE + bytes@[j]) as char,
        decreases bytes.len() - i,
    {
        out.push(scalar_char(EXTENDED_BYTE_BASE + bytes[i] as u32));
        i = i + 1;
    }
    proof {
        assert forall|k: int| 0 <= k < out@.len() implies out@[k]
            == nonunicode_storage(code)->Some_0[k] by {
            if k >= 2 {
                assert(out@[(k - 2) + 2] == (EXTENDED_BYTE_BASE + bytes@[k - 2]) as char);
            }
        }
        assert(out@ =~= nonunicode_storage(code)->Some_0);
    }
    Some(out)
}

/// Appends the stored form of a character.
pub fn push_code(out: &mut Vec<char>, code: u32)
    ensures
        final(out)@ == old(out)@ + code_storage(code),
{
    match char::from_u32(code) {
        Some(c) => {
            out.push(c);
            proof {
                lemma_char(c);
                assert(out@ =~= old(out)@ + code_storage(code));
            }
        },
        None => match encode_nonunicode_char_for_storage(code) {
            Some(v) => {
                append_chars(out, v.as_slice());
            },
            None => {
                out.push('\u{FFFD}');
                proof {
                    assert(out@ =~= old(out)@ + code_storage(code));
                }
            },
        },
    }
}

/// The stored form of a sequence of characters.
pub open spec fn codes_storage(codes: Seq<u32>) -> Seq<char>
    decreases codes.len(),
{
    if codes.len() == 0 {
        Seq::empty()
    } else {
        codes_storage(codes.drop_last()) + code_storage(codes.last())
    }
}

/// The stored form of the bytes of a unibyte string.
pub open spec fn unibyte_storage(bytes: Seq<u8>) -> Seq<char> {
    Seq::new(
        bytes.len(),
        |i: int|
            if bytes[i] < 0x80 {
                bytes[i] as char
            } else {
                (UNIBYTE_BYTE_SENTINEL_BASE + bytes[i]) as char
            },
    )
}

/// The stored form of the bytes of a unibyte string.
pub fn bytes_to_unibyte_storage_string(bytes: &[u8]) -> (r: Vec<char>)
    ensures
        r@ == unibyte_storage(bytes@),
{
    let mut out: Vec<char> = Vec::new();
    let mut i: usize = 0;
    while i < bytes.len()
        invariant
            i <= bytes.len(),
            out@ == unibyte_storage(bytes@).take(i as int),
        decreases bytes.len() - i,
    {
        let b: u8 = bytes[i];
        let c: char = if b < 0x80 {
            b as char
        } else {
            scalar_char(UNIBYTE_BYTE_SENTINEL_BASE + b as u32)
        };
        proof {
            assert(unibyte_storage(bytes@).take(i + 1) =~= unibyte_storage(bytes@).take(
                i as int,
            ).push(c));
        }
        out.push(c);
        i = i + 1;
    }
    proof {
        assert(unibyte_storage(bytes@).take(i as int) =~= unibyte_storage(bytes@));
    }
    out
}

/// The stored form of a Lisp string.
pub open spec fn string_storage(s: LispText) -> Seq<char> {
    if s.multibyte {
        codes_storage(s.codes())
    } else {
        unibyte_storage(s.bytes)
    }
}

/// The stored form of a Lisp string.
pub fn runtime_string_from_lisp_string(s: &LispString) -> (r: Vec<char>)
    ensures
        r@ == string_storage(s@),
{
    if !s.is_multibyte() {
        return bytes_to_unibyte_storage_string(s.as_bytes());
    }
    let codes: Vec<u32> = decode_text(s.as_bytes(), true);
    let mut out: Vec<char> = Vec::new();
    let mut i: usize = 0;
    while i < codes.len()
        invariant
            i <= codes.len(),
            out@ == codes_storage(codes@.take(i as int)),
        decreases codes.len() - i,
    {
        proof {
            assert(codes@.take(i + 1).drop_last() =~= codes@.take(i as int));
        }
        push_code(&mut out, codes[i]);
        i = i + 1;
    }
    proof {
        assert(codes@.take(i as int) =~= codes@);
    }
    out
}

/// How many bytes the stored character beyond Unicode at index `i` has, zero where none is there.
pub open spec fn extended_len(s: Seq<char>, i: int) -> int {
    let n = s[i + 1] as int - EXTENDED_LEN_BASE;
    if s[i] == EXTENDED_PREFIX && i + 1 < s.len() && 1 <= n <= 5 && i + 2 + n <= s.len() && (
    forall|j: int| i + 2 <= j < i + 2 + n ==> EXTENDED_BYTE_BASE <= #[trigger] s[j] as u32
        <= EXTENDED_BYTE_BASE + 0xFF) {
        n
    } else {
        0
    }
}

/// The bytes of the stored character beyond Unicode at index `i`.
pub open spec fn extended_bytes(s: Seq<char>, i: int) -> Seq<u8> {
    Seq::new(
        extended_len(s, i) as nat,
        |j: int| (s[i + 2 + j] as int - EXTENDED_BYTE_BASE) as u8,
    )
}

/// The character that is stored at index `i`, and how many elements it takes.
/// A stored byte of a unibyte string stands for itself in unibyte text and for
/// a raw byte in multibyte text.
pub open spec fn stored_at(s: Seq<char>, i: int, multibyte: bool) -> (u32, int) {
    let cp = s[i] as u32;
    if RAW_BYTE_SENTINEL_MIN <= cp <= RAW_BYTE_SENTINEL_MAX {
        (byte_char((cp - RAW_BYTE_SENTINEL_BASE) as u8), 1)
    } else if UNIBYTE_BYTE_SENTINEL_MIN <= cp <= UNIBYTE_BYTE_SENTINEL_MAX {
        let b = (cp - UNIBYTE_BYTE_SENTINEL_BASE) as u8;
        (
            if multibyte {
                byte_char(b)
            } else {
                b as u32
            },
            1,
        )
    } else if extended_len(s, i) > 0 {
        (char_at(extended_bytes(s, i), 0).0, 2 + extended_len(s, i))
    } else {
        (cp, 1)
    }
}

/// The bytes of the stored character beyond Unicode at index `i`, where one is there.
fn stored_extended(s: &[char], i: usize) -> (r: Option<Vec<u8>>)
    requires
        i < s.len(),
    ensures
        match r {
            Some(v) => extended_len(s@, i as int) > 0 && v@ == extended_bytes(s@, i as int),
            None => extended_len(s@, i as int) == 0,
        },
{
    if s[i] != EXTENDED_PREFIX || s.len() - i < 2 {
        return None;
    }
    let l: u32 = code_of(s[i + 1]);
    if l < EXTENDED_LEN_BASE + 1 || l > EXTENDED_LEN_BASE + 5 {
        return None;
    }
    let n: usize = (l - EXTENDED_LEN_BASE) as usize;
    if s.len() - i < 2 + n {
        return None;
    }
    let mut out: Vec<u8> = Vec::new();
    let mut j: usize = 0;
    while j < n
        invariant
            j <= n,
            i + 2 + n <= s.len(),
            out@.len() == j,
            n == s@[i + 1] as int - EXTENDED_LEN_BASE,
            forall|k: int|
                i + 2 <= k < i + 2 + j ==> EXTENDED_BYTE_BASE <= #[trigger] s@[k] as u32
                    <= EXTENDED_BYTE_BASE + 0xFF,
            forall|k: int|
                0 <= k < j ==> #[trigger] out@[k] == (s@[i + 2 + k] as int
                    - EXTENDED_BYTE_BASE) as u8,
        decreases n - j,
    {
        let cp: u32 = code_of(s[i + 2 + j]);
        if cp < EXTENDED_BYTE_BASE || cp > EXTENDED_BYTE_BASE + 0xFF {
            proof {
                assert(!(EXTENDED_BYTE_BASE <= s@[i + 2 + j] as u32 <= EXTENDED_BYTE_BASE + 0xFF));
            }
            return None;
        }
        out.push((cp - EXTENDED_BYTE_BASE) as u8);
        j = j + 1;
    }
    proof {
        assert(extended_len(s@, i as int) == n);
        assert(out@ =~= extended_bytes(s@, i as int));
    }
    Some(out)
}

/// The character that is stored at index `i`, and how many elements it takes.
fn read_stored(s: &[char], i: usize, multibyte: bool) -> (r: (u32, usize))
    requires
        i < s.len(),
    ensures
        r.0 == stored_at(s@, i as int, multibyte).0,
        r.1 == stored_at(s@, i as int, multibyte).1,
        1 <= r.1,
        i + r.1 <= s.len(),
{
    let cp: u32 = code_of(s[i]);
    if RAW_BYTE_SENTINEL_MIN <= cp && cp <= RAW_BYTE_SENTINEL_MAX {
        (unibyte_to_char((cp - RAW_BYTE_SENTINEL_BASE) as u8), 1)
    } else if UNIBYTE_BYTE_SENTINEL_MIN <= cp && cp <= UNIBYTE_BYTE_SENTINEL_MAX {
        let b: u8 = (cp - UNIBYTE_BYTE_SENTINEL_BASE) as u8;
        if multibyte {
            (unibyte_to_char(b), 1)
        } else {
            (b as u32, 1)
        }
    } else {
        match stored_extended(s, i) {
            Some(v) => (string_char(v.as_slice(), 0).0, 2 + v.len()),
            None => (cp, 1),
        }
    }
}

/// The characters that a storage string holds from index `i` on.
pub open spec fn stored_codes(s: Seq<char>, i: int, multibyte: bool) -> Seq<u32>
    decreases s.len() - i,
{
    if i < 0 || i >= s.len() {
        Seq::empty()
    } else {
        let (code, len) = stored_at(s, i, multibyte);
        seq![code] + stored_codes(s, i + len, multibyte)
    }
}

/// The characters that a storage string holds.
pub fn decode_storage_char_codes(s: &[char], multibyte: bool) -> (r: Vec<u32>)
    ensures
        r@ == stored_codes(s@, 0, multibyte),
{
    let mut out: Vec<u32> = Vec::new();
    let mut i: usize = 0;
    while i < s.len()
        invariant
            i <= s.len(),
            out@ + stored_codes(s@, i as int, multibyte) == stored_codes(s@, 0, multibyte),
        decreases s.len() - i,
    {
        let (code, len) = read_stored(s, i, multibyte);
        proof {
            assert(out@ + stored_codes(s@, i as int, multibyte) =~= out@.push(code) + stored_codes(
                s@,
                i + len,
                multibyte,
            ));
        }
        out.push(code);
        i = i + len;
    }
    proof {
        assert(out@ + stored_codes(s@, i as int, multibyte) =~= out@);
    }
    out
}

/// The internal multibyte form of a sequence of characters.
pub open spec fn codes_bytes(codes: Seq<u32>) -> Seq<u8>
    decreases codes.len(),
{
    if codes.len() == 0 {
        Seq::empty()
    } else {
        codes_bytes(codes.drop_last()) + char_bytes(codes.last())
    }
}

/// The Lisp string that a storage string stands for.
pub open spec fn storage_text(s: Seq<char>, multibyte: bool) -> LispText {
    let codes = stored_codes(s, 0, multibyte);
    LispText {
        bytes: if multibyte {
            codes_bytes(codes)
        } else {
            Seq::new(codes.len(), |i: int| (codes[i] % 256) as u8)
        },
        multibyte,
    }
}

/// The Lisp string that a storage string stands for.
pub fn runtime_string_to_lisp_string(s: &[char], multibyte: bool) -> (r: LispString)
    ensures
        r@ == storage_text(s@, multibyte),
{
    let codes: Vec<u32> = decode_storage_char_codes(s, multibyte);
    let mut out: Vec<u8> = Vec::new();
    let mut i: usize = 0;
    while i < codes.len()
        invariant
            i <= codes.len(),
            codes@ == stored_codes(s@, 0, multibyte),
            multibyte ==> out@ == codes_bytes(codes@.take(i as int)),
            !multibyte ==> out@ == storage_text(s@, false).bytes.take(i as int),
        decreases codes.len() - i,
    {
        if multibyte {
            proof {
                assert(codes@.take(i + 1).drop_last() =~= codes@.take(i as int));
            }
            push_char(&mut out, codes[i]);
        } else {
            proof {
                assert(storage_text(s@, false).bytes.take(i + 1) =~= storage_text(
                    s@,
                    false,
                ).bytes.take(i as int).push((codes@[i as int] % 256) as u8));
            }
            out.push((codes[i] % 256) as u8);
        }
        i = i + 1;
    }
    proof {
        assert(codes@.take(i as int) =~= codes@);
        assert(storage_text(s@, false).bytes.take(i as int) =~= storage_text(s@, false).bytes
            || multibyte);
    }
    LispString { data: out, multibyte }
}

/// A unibyte string comes back whole from its stored form.
pub proof fn law_unibyte_storage_round_trip(bytes: Seq<u8>)
    ensures
        storage_text(unibyte_storage(bytes), false) == (LispText { bytes, multibyte: false }),
{
    let s = unibyte_storage(bytes);
    lemma_unibyte_stored_codes(bytes, 0);
    assert(storage_text(s, false).bytes =~= bytes);
}

/// The characters that a stored unibyte string holds are its bytes.
proof fn lemma_unibyte_stored_codes(bytes: Seq<u8>, i: int)
    requires
        0 <= i <= bytes.len(),
    ensures
        stored_codes(unibyte_storage(bytes), i, false) == Seq::new(
            (bytes.len() - i) as nat,
            |j: int| bytes[i + j] as u32,
        ),
    decreases bytes.len() - i,
{
    let s = unibyte_storage(bytes);
    if i < bytes.len() {
        lemma_unibyte_stored_codes(bytes, i + 1);
        assert(extended_len(s, i) == 0);
        assert(stored_at(s, i, false) == (bytes[i] as u32, 1int));
    }
    assert(stored_codes(s, i, false) =~= Seq::new(
        (bytes.len() - i) as nat,
        |j: int| bytes[i + j] as u32,
    ));
}

} // verus!
