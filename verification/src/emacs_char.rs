//! Emacs character codes and their internal multibyte form.
//!
//! A character code is at most `MAX_CHAR`. Codes up to 0x10FFFF are Unicode
//! code points, the last 128 codes stand for the raw bytes 0x80 to 0xFF.
use vstd::prelude::*;

verus! {

/// The largest character code.
pub const MAX_CHAR: u32 = 0x3FFFFF;

/// The largest character code that does not stand for a raw byte.
pub const MAX_5_BYTE_CHAR: u32 = 0x3FFF7F;

/// Whether `code` stands for a raw byte.
pub fn char_byte8_p(code: u32) -> (r: bool)
    ensures
        r == (code > MAX_5_BYTE_CHAR),
{
    code > MAX_5_BYTE_CHAR
}

/// The raw byte that `code` stands for.
pub open spec fn raw_byte_of(code: u32) -> u8 {
    ((code - 0x3FFF00) % 256) as u8
}

/// The raw byte that `code` stands for.
pub fn char_to_byte8(code: u32) -> (r: u8)
    requires
        code > MAX_5_BYTE_CHAR,
    ensures
        r == raw_byte_of(code),
{
    ((code - 0x3FFF00) % 256) as u8
}

/// The character code of a byte in unibyte text.
pub open spec fn byte_char(byte: u8) -> u32 {
    if byte < 0x80 {
        byte as u32
    } else {
        (byte + 0x3FFF00) as u32
    }
}

/// The character code of a byte in unibyte text.
pub fn unibyte_to_char(byte: u8) -> (r: u32)
    ensures
        r == byte_char(byte),
{
    if byte < 0x80 {
        byte as u32
    } else {
        byte as u32 + 0x3FFF00
    }
}

/// The value of the six payload bits of a continuation byte.
pub open spec fn low6(b: u8) -> int {
    b as int % 64
}

/// The character that starts at index `i` of multibyte text, and how many bytes it takes.
/// A byte that starts no complete character is a raw byte of its own.
pub open spec fn char_at(s: Seq<u8>, i: int) -> (u32, int) {
    let b = s[i] as int;
    if b < 0x80 {
        (b as u32, 1)
    } else if 0xC0 <= b < 0xE0 && i + 1 < s.len() {
        let c = (b - 0xC0) * 64 + low6(s[i + 1]);
        (if b < 0xC2 { (c + 0x3FFF80) as u32 } else { c as u32 }, 2)
    } else if 0xE0 <= b < 0xF0 && i + 2 < s.len() {
        (((b - 0xE0) * 4096 + low6(s[i + 1]) * 64 + low6(s[i + 2])) as u32, 3)
    } else if 0xF0 <= b < 0xF8 && i + 3 < s.len() {
        (
            ((b - 0xF0) * 262144 + low6(s[i + 1]) * 4096 + low6(s[i + 2]) * 64 + low6(
                s[i + 3],
            )) as u32,
            4,
        )
    } else if 0xF8 <= b && i + 4 < s.len() {
        (
            (low6(s[i + 1]) * 262144 + low6(s[i + 2]) * 4096 + low6(s[i + 3]) * 64 + low6(
                s[i + 4],
            )) as u32,
            5,
        )
    } else {
        ((b + 0x3FFF00) as u32, 1)
    }
}

/// The character that starts at index `pos` of multibyte text, and how many bytes it takes.
pub fn string_char(s: &[u8], pos: usize) -> (r: (u32, usize))
    requires
        pos < s@.len(),
    ensures
        r.0 == char_at(s@, pos as int).0,
        r.1 == char_at(s@, pos as int).1,
        1 <= r.1 <= 5,
        pos + r.1 <= s@.len(),
{
    let b: u8 = s[pos];
    let left: usize = s.len() - pos;
    if b < 0x80 {
        (b as u32, 1)
    } else if 0xC0 <= b && b < 0xE0 && left > 1 {
        let c: u32 = (b - 0xC0) as u32 * 64 + (s[pos + 1] % 64) as u32;
        (
            if b < 0xC2 {
                c + 0x3FFF80
            } else {
                c
            },
            2,
        )
    } else if 0xE0 <= b && b < 0xF0 && left > 2 {
        (
            (b - 0xE0) as u32 * 4096 + (s[pos + 1] % 64) as u32 * 64 + (s[pos + 2] % 64) as u32,
            3,
        )
    } else if 0xF0 <= b && b < 0xF8 && left > 3 {
        (
            (b - 0xF0) as u32 * 262144 + (s[pos + 1] % 64) as u32 * 4096 + (s[pos + 2] % 64) as u32
                * 64 + (s[pos + 3] % 64) as u32,
            4,
        )
    } else if 0xF8 <= b && left > 4 {
        (
            (s[pos + 1] % 64) as u32 * 262144 + (s[pos + 2] % 64) as u32 * 4096 + (s[pos + 3]
                % 64) as u32 * 64 + (s[pos + 4] % 64) as u32,
            5,
        )
    } else {
        (b as u32 + 0x3FFF00, 1)
    }
}

/// The character codes of multibyte text from index `i` on.
pub open spec fn codes_from(s: Seq<u8>, i: int) -> Seq<u32>
    decreases s.len() - i,
{
    if i < 0 || i >= s.len() {
        Seq::empty()
    } else {
        let (code, len) = char_at(s, i);
        seq![code] + codes_from(s, i + len)
    }
}

/// The character codes of text: those of its characters where it is multibyte,
/// else its bytes as they are.
pub open spec fn text_codes(s: Seq<u8>, multibyte: bool) -> Seq<u32> {
    if multibyte {
        codes_from(s, 0)
    } else {
        Seq::new(s.len(), |i: int| s[i] as u32)
    }
}

/// Reading one more character extends the codes read so far.
proof fn lemma_codes_step(s: Seq<u8>, i: int, done: Seq<u32>)
    requires
        0 <= i < s.len(),
    ensures
        done + codes_from(s, i) == done.push(char_at(s, i).0) + codes_from(s, i + char_at(s, i).1),
{
    assert(done + codes_from(s, i) =~= done.push(char_at(s, i).0) + codes_from(
        s,
        i + char_at(s, i).1,
    ));
}

/// The character codes of text.
pub fn decode_text(s: &[u8], multibyte: bool) -> (r: Vec<u32>)
    ensures
        r@ == text_codes(s@, multibyte),
{
    let mut out: Vec<u32> = Vec::new();
    let mut pos: usize = 0;
    if multibyte {
        while pos < s.len()
            invariant
                pos <= s@.len(),
                out@ + codes_from(s@, pos as int) == codes_from(s@, 0),
            decreases s@.len() - pos,
        {
            let (code, len) = string_char(s, pos);
            proof {
                lemma_codes_step(s@, pos as int, out@);
            }
            out.push(code);
            pos = pos + len;
        }
        proof {
            assert(out@ + codes_from(s@, pos as int) =~= out@);
        }
        out
    } else {
        while pos < s.len()
            invariant
                pos <= s@.len(),
                out@ == text_codes(s@, false).take(pos as int),
            decreases s@.len() - pos,
        {
            proof {
                assert(text_codes(s@, false).take(pos + 1) =~= text_codes(s@, false).take(
                    pos as int,
                ).push(s@[pos as int] as u32));
            }
            out.push(s[pos] as u32);
            pos = pos + 1;
        }
        proof {
            assert(text_codes(s@, false).take(pos as int) =~= text_codes(s@, false));
        }
        out
    }
}

/// The number of characters in multibyte text.
pub fn chars_in_multibyte(s: &[u8]) -> (r: usize)
    ensures
        r == codes_from(s@, 0).len(),
{
    let codes: Vec<u32> = decode_text(s, true);
    codes.len()
}

/// The internal multibyte form of a character.
pub open spec fn char_bytes(code: u32) -> Seq<u8> {
    let c = code as int;
    if c <= 0x7F {
        seq![c as u8]
    } else if c <= 0x7FF {
        seq![(0xC0 + c / 64) as u8, (0x80 + c % 64) as u8]
    } else if c <= 0xFFFF {
        seq![(0xE0 + c / 4096) as u8, (0x80 + c / 64 % 64) as u8, (0x80 + c % 64) as u8]
    } else if c <= 0x1FFFFF {
        seq![
            (0xF0 + c / 262144) as u8,
            (0x80 + c / 4096 % 64) as u8,
            (0x80 + c / 64 % 64) as u8,
            (0x80 + c % 64) as u8,
        ]
    } else if c <= MAX_5_BYTE_CHAR {
        seq![
            0xF8u8,
            (0x80 + c / 262144 % 64) as u8,
            (0x80 + c / 4096 % 64) as u8,
            (0x80 + c / 64 % 64) as u8,
            (0x80 + c % 64) as u8,
        ]
    } else {
        let b = raw_byte_of(code) as int;
        seq![(0xC0 + b / 64 % 2) as u8, (0x80 + b % 64) as u8]
    }
}

/// Appends the internal multibyte form of a character.
pub fn push_char(out: &mut Vec<u8>, code: u32)
    ensures
        final(out)@ == old(out)@ + char_bytes(code),
{
    let ghost before = out@;
    if code <= 0x7F {
        out.push(code as u8);
    } else if code <= 0x7FF {
        out.push((0xC0 + code / 64) as u8);
        out.push((0x80 + code % 64) as u8);
    } else if code <= 0xFFFF {
        out.push((0xE0 + code / 4096) as u8);
        out.push((0x80 + code / 64 % 64) as u8);
        out.push((0x80 + code % 64) as u8);
    } else if code <= 0x1FFFFF {
        out.push((0xF0 + code / 262144) as u8);
        out.push((0x80 + code / 4096 % 64) as u8);
        out.push((0x80 + code / 64 % 64) as u8);
        out.push((0x80 + code % 64) as u8);
    } else if code <= MAX_5_BYTE_CHAR {
        out.push(0xF8);
        out.push((0x80 + code / 262144 % 64) as u8);
        out.push((0x80 + code / 4096 % 64) as u8);
        out.push((0x80 + code / 64 % 64) as u8);
        out.push((0x80 + code % 64) as u8);
    } else {
        let b: u8 = char_to_byte8(code);
        out.push(0xC0 + b / 64 % 2);
        out.push(0x80 + b % 64);
    }
    proof {
        assert(out@ =~= before + char_bytes(code));
    }
}

/// A code of at most 16 bits from its three groups of bits.
pub proof fn lemma_split3(c: int)
    requires
        0 <= c,
    ensures
        c / 4096 * 4096 + c / 64 % 64 * 64 + c % 64 == c,
{
    assert(c / 64 / 64 == c / 4096);
}

/// A code from its groups of bits.
pub proof fn lemma_split4(c: int)
    requires
        0 <= c,
    ensures
        c / 262144 * 262144 + c / 4096 % 64 * 4096 + c / 64 % 64 * 64 + c % 64 == c,
        c <= 0x3FFFFF ==> c / 262144 % 64 == c / 262144,
{
    assert(c / 64 / 64 == c / 4096);
    assert(c / 4096 / 64 == c / 262144);
}

/// Reading back a character of up to two bytes, or a raw byte.
proof fn lemma_short_read_back(code: u32, rest: Seq<u8>)
    requires
        code <= 0x7FF || MAX_5_BYTE_CHAR < code <= MAX_CHAR,
    ensures
        char_at(char_bytes(code) + rest, 0) == (code, char_bytes(code).len() as int),
{
    let c = code as int;
    let s = char_bytes(code) + rest;
    if c <= 0x7F {
        assert(s[0] == c);
    } else if c <= 0x7FF {
        assert(s[0] == 0xC0 + c / 64 && s[1] == 0x80 + c % 64);
    } else {
        let b = raw_byte_of(code) as int;
        assert(s[0] == 0xC0 + b / 64 % 2 && s[1] == 0x80 + b % 64);
    }
}

/// Reading back a character of three bytes.
proof fn lemma_three_read_back(code: u32, rest: Seq<u8>)
    requires
        0x7FF < code <= 0xFFFF,
    ensures
        char_at(char_bytes(code) + rest, 0) == (code, char_bytes(code).len() as int),
{
    let c = code as int;
    let s = char_bytes(code) + rest;
    assert(s[0] == 0xE0 + c / 4096 && s[1] == 0x80 + c / 64 % 64 && s[2] == 0x80 + c % 64);
    lemma_split3(c);
}

/// Reading back a character of four bytes.
#[verifier::spinoff_prover]
proof fn lemma_four_read_back(code: u32, rest: Seq<u8>)
    requires
        0xFFFF < code <= 0x1FFFFF,
    ensures
        char_at(char_bytes(code) + rest, 0) == (code, char_bytes(code).len() as int),
{
    let c = code as int;
    let s = char_bytes(code) + rest;
    let (a, b, d, e) = (c / 262144, c / 4096 % 64, c / 64 % 64, c % 64);
    lemma_split4(c);
    assert(0 <= a < 8 && 0 <= b < 64 && 0 <= d < 64 && 0 <= e < 64);
    assert(s.len() >= 4);
    assert(s[0] == 0xF0 + a && s[1] == 0x80 + b && s[2] == 0x80 + d && s[3] == 0x80 + e);
    assert(low6(s[1]) == b && low6(s[2]) == d && low6(s[3]) == e);
}

/// Reading back a character of five bytes.
#[verifier::spinoff_prover]
proof fn lemma_five_read_back(code: u32, rest: Seq<u8>)
    requires
        0x1FFFFF < code <= MAX_5_BYTE_CHAR,
    ensures
        char_at(char_bytes(code) + rest, 0) == (code, char_bytes(code).len() as int),
{
    let c = code as int;
    let s = char_bytes(code) + rest;
    let (a, b, d, e) = (c / 262144 % 64, c / 4096 % 64, c / 64 % 64, c % 64);
    lemma_split4(c);
    assert(0 <= a < 64 && 0 <= b < 64 && 0 <= d < 64 && 0 <= e < 64);
    assert(s.len() >= 5);
    assert(s[0] == 0xF8 && s[1] == 0x80 + a && s[2] == 0x80 + b);
    assert(s[3] == 0x80 + d && s[4] == 0x80 + e);
    assert(low6(s[1]) == a && low6(s[2]) == b && low6(s[3]) == d && low6(s[4]) == e);
}

/// Reading the internal form of a character, whatever follows it, gives the
/// character back and stops where its form ends.
pub proof fn law_char_bytes_read_back(code: u32, rest: Seq<u8>)
    requires
        code <= MAX_CHAR,
    ensures
        char_at(char_bytes(code) + rest, 0) == (code, char_bytes(code).len() as int),
{
    if code <= 0x7FF || code > MAX_5_BYTE_CHAR {
        lemma_short_read_back(code, rest);
    } else if code <= 0xFFFF {
        lemma_three_read_back(code, rest);
    } else if code <= 0x1FFFFF {
        lemma_four_read_back(code, rest);
    } else {
        lemma_five_read_back(code, rest);
    }
}

} // verus!
