//! What bytes stand for when they are read.
use crate::emacs_char::{byte_char, low6};
use crate::encoding::utf16::{
    body_units, is_high, is_low, unit_at, units_text, utf16_text, Utf16Endian,
};
use crate::encoding::utf8_emacs::{
    continued, raw_multibyte_text, sequence_len, utf8_code_bytes, utf8_emacs_at, utf8_emacs_from,
};
use crate::storage::code_storage;
use vstd::prelude::*;

verus! {

/// The bytes of a character code are read back as it, whatever comes after them.
pub proof fn law_code_bytes_are_read_back(code: u32, rest: Seq<u8>)
    requires
        code <= 0x7FFFFFFF,
    ensures
        utf8_emacs_at(utf8_code_bytes(code) + rest, 0) == (
            code,
            utf8_code_bytes(code).len() as int,
        ),
{
    let c = code as int;
    let s = utf8_code_bytes(code) + rest;
    if c <= 0x7F {
        assert(s[0] == c);
    } else if c <= 0x7FF {
        lemma_two(c, s);
    } else if c <= 0xFFFF {
        lemma_three(c, s);
    } else if c <= 0x1FFFFF {
        lemma_four(c, s);
    } else if c <= 0x3FFFFF {
        lemma_five(c, s);
    } else {
        lemma_six(c, s);
    }
}

proof fn lemma_two(c: int, s: Seq<u8>)
    requires
        0x7F < c <= 0x7FF,
        s.len() >= 2,
        s[0] == 0xC0 + c / 64,
        s[1] == 0x80 + c % 64,
    ensures
        utf8_emacs_at(s, 0) == (c as u32, 2int),
{
}

proof fn lemma_three(c: int, s: Seq<u8>)
    requires
        0x7FF < c <= 0xFFFF,
        s.len() >= 3,
        s[0] == 0xE0 + c / 4096,
        s[1] == 0x80 + c / 64 % 64,
        s[2] == 0x80 + c % 64,
    ensures
        utf8_emacs_at(s, 0) == (c as u32, 3int),
{
}

proof fn lemma_four(c: int, s: Seq<u8>)
    requires
        0xFFFF < c <= 0x1FFFFF,
        s.len() >= 4,
        s[0] == 0xF0 + c / 262144 % 8,
        s[1] == 0x80 + c / 4096 % 64,
        s[2] == 0x80 + c / 64 % 64,
        s[3] == 0x80 + c % 64,
    ensures
        utf8_emacs_at(s, 0) == (c as u32, 4int),
{
}

proof fn lemma_five(c: int, s: Seq<u8>)
    requires
        0x1FFFFF < c <= 0x3FFFFF,
        s.len() >= 5,
        s[0] == 0xF8 + c / 16777216 % 4,
        s[1] == 0x80 + c / 262144 % 64,
        s[2] == 0x80 + c / 4096 % 64,
        s[3] == 0x80 + c / 64 % 64,
        s[4] == 0x80 + c % 64,
    ensures
        utf8_emacs_at(s, 0) == (c as u32, 5int),
{
    let q = c / 64;
    let r = q / 64;
    let t = r / 64;
    assert(c / 4096 == r && c / 262144 == t);
    assert(c / 16777216 == 0 && t < 64);
    assert(s[0] == 0xF8);
    assert(low6(s[4]) == c % 64);
    assert(low6(s[3]) == q % 64);
    assert(low6(s[2]) == r % 64);
    assert(low6(s[1]) == t);
    assert(c == t * 262144 + r % 64 * 4096 + q % 64 * 64 + c % 64);
    assert(continued(s, 0, 4));
    assert(sequence_len(s, 0) == 5);
}

proof fn lemma_six(c: int, s: Seq<u8>)
    requires
        0x3FFFFF < c <= 0x7FFFFFFF,
        s.len() >= 6,
        s[0] == 0xFC + c / 1073741824 % 2,
        s[1] == 0x80 + c / 16777216 % 64,
        s[2] == 0x80 + c / 262144 % 64,
        s[3] == 0x80 + c / 4096 % 64,
        s[4] == 0x80 + c / 64 % 64,
        s[5] == 0x80 + c % 64,
    ensures
        utf8_emacs_at(s, 0) == (c as u32, 6int),
{
    let q = c / 64;
    let r = q / 64;
    let t = r / 64;
    let u = t / 64;
    let v = u / 64;
    assert(c / 4096 == r && c / 262144 == t);
    assert(c / 16777216 == u && c / 1073741824 == v);
    assert(0 <= v < 2);
    assert(s[0] == 0xFC + v);
    assert(s[0] as int % 2 == v);
    assert(low6(s[5]) == c % 64);
    assert(low6(s[4]) == q % 64);
    assert(low6(s[3]) == r % 64);
    assert(low6(s[2]) == t % 64);
    assert(low6(s[1]) == u % 64);
    assert(c == v * 1073741824 + u % 64 * 16777216 + t % 64 * 262144 + r % 64 * 4096 + q % 64 * 64
        + c % 64);
    assert(continued(s, 0, 5));
    assert(sequence_len(s, 0) == 6);
}

/// A byte that starts no character, or one that is cut off, is read as a raw byte, and
/// reading goes on with the next byte.
pub proof fn law_stray_byte_is_raw(b: u8, rest: Seq<u8>)
    requires
        0x80 <= b <= 0xC1 || 0xFE <= b || (0xC2 <= b && (rest.len() == 0 || rest[0] < 0x80
            || rest[0] > 0xBF)),
    ensures
        utf8_emacs_from(seq![b] + rest, 0) == code_storage(byte_char(b)) + utf8_emacs_from(
            seq![b] + rest,
            1,
        ),
{
    let s = seq![b] + rest;
    assert(s[0] == b);
    if rest.len() > 0 {
        assert(s[1] == rest[0]);
    }
}

/// Bytes that are taken as they are have one character each.
pub proof fn law_raw_text_is_joined(a: Seq<u8>, b: Seq<u8>, x: u8)
    ensures
        raw_multibyte_text(a + b) == raw_multibyte_text(a) + raw_multibyte_text(b),
        raw_multibyte_text(a.push(x)) == raw_multibyte_text(a) + code_storage(byte_char(x)),
    decreases b.len(),
{
    assert(a.push(x).drop_last() =~= a);
    if b.len() == 0 {
        assert(a + b =~= a);
        assert(raw_multibyte_text(a) + raw_multibyte_text(b) =~= raw_multibyte_text(a));
    } else {
        assert((a + b).drop_last() =~= a + b.drop_last());
        assert((a + b).last() == b.last());
        law_raw_text_is_joined(a, b.drop_last(), x);
        let front = raw_multibyte_text(b.drop_last());
        assert(raw_multibyte_text(a) + raw_multibyte_text(b) =~= raw_multibyte_text(a) + front
            + code_storage(byte_char(b.last())));
    }
}

/// The byte order mark decides in which order UTF-16 is read, and is no character; without
/// one the order is that of the coding system.
pub proof fn law_mark_decides_byte_order(b: Seq<u8>, endian: Utf16Endian)
    requires
        b.len() % 2 == 0,
    ensures
        ({
            let big = seq![0xFEu8, 0xFFu8] + b;
            let little = seq![0xFFu8, 0xFEu8] + b;
            &&& utf16_text(big, endian) == units_text(body_units(b, 0, Utf16Endian::Big), 0)
            &&& utf16_text(little, endian) == units_text(body_units(b, 0, Utf16Endian::Little), 0)
            &&& b.len() >= 2 && b[0] < 0xFE ==> utf16_text(b, endian) == units_text(
                body_units(b, 0, endian),
                0,
            )
            &&& body_units(b, 0, endian).len() == b.len() / 2
        }),
        forall|k: int|
            0 <= k < b.len() / 2 ==> {
                &&& #[trigger] body_units(b, 0, Utf16Endian::Big)[k] == b[2 * k] * 256 + b[2 * k
                    + 1]
            },
        forall|k: int|
            0 <= k < b.len() / 2 ==> {
                &&& #[trigger] body_units(b, 0, Utf16Endian::Little)[k] == b[2 * k] + b[2 * k + 1]
                    * 256
            },
{
    let big = seq![0xFEu8, 0xFFu8] + b;
    let little = seq![0xFFu8, 0xFEu8] + b;
    assert(big[0] == 0xFE && big[1] == 0xFF && little[0] == 0xFF && little[1] == 0xFE);
    assert(big.len() == b.len() + 2 && little.len() == b.len() + 2);
    assert(body_units(big, 2, Utf16Endian::Big) =~= body_units(b, 0, Utf16Endian::Big)) by {
        assert forall|k: int| 0 <= k < b.len() / 2 implies #[trigger] unit_at(
            big,
            2 + 2 * k,
            Utf16Endian::Big,
        ) == unit_at(b, 2 * k, Utf16Endian::Big) by {
            assert(big[2 + 2 * k] == b[2 * k] && big[2 + 2 * k + 1] == b[2 * k + 1]);
        }
    }
    assert(body_units(little, 2, Utf16Endian::Little) =~= body_units(b, 0, Utf16Endian::Little))
        by {
        assert forall|k: int| 0 <= k < b.len() / 2 implies #[trigger] unit_at(
            little,
            2 + 2 * k,
            Utf16Endian::Little,
        ) == unit_at(b, 2 * k, Utf16Endian::Little) by {
            assert(little[2 + 2 * k] == b[2 * k] && little[2 + 2 * k + 1] == b[2 * k + 1]);
        }
    }
}

/// A surrogate that has no partner, and a byte that is left over, stand for U+FFFD; a pair
/// stands for one character beyond the first plane.
pub proof fn law_lone_surrogate_is_replaced(u: u16, v: u16)
    ensures
        is_high(u) || is_low(u) ==> units_text(seq![u], 0) == seq!['\u{FFFD}'],
        !is_high(u) && !is_low(u) ==> units_text(seq![u], 0) == seq![u as char],
        is_high(u) && is_low(v) ==> units_text(seq![u, v], 0).len() == 1 && units_text(
            seq![u, v],
            0,
        )[0] as u32 == 0x10000 + (u - 0xD800) * 0x400 + (v - 0xDC00),
        is_high(u) && !is_low(v) ==> units_text(seq![u, v], 0)[0] == '\u{FFFD}',
{
    reveal_with_fuel(units_text, 3);
    let s = seq![u];
    let t = seq![u, v];
    assert(s.len() == 1 && s[0] == u && t.len() == 2 && t[0] == u && t[1] == v);
    assert(units_text(s, 1) =~= Seq::<char>::empty());
    assert(units_text(t, 2) =~= Seq::<char>::empty());
    assert(units_text(s, 0) =~= units_text(s, 0));
}

/// A byte that is left over at the end stands for U+FFFD.
pub proof fn law_byte_left_over_is_replaced(b: Seq<u8>, x: u8, endian: Utf16Endian)
    requires
        b.len() % 2 == 0,
    ensures
        body_units(b.push(x), 0, endian) == body_units(b, 0, endian).push(0xFFFD),
{
    let t = b.push(x);
    assert(t.len() % 2 == 1 && t.len() as int / 2 == b.len() as int / 2);
    assert forall|k: int| 0 <= k < b.len() / 2 implies #[trigger] unit_at(t, 2 * k, endian)
        == unit_at(b, 2 * k, endian) by {
        assert(t[2 * k] == b[2 * k] && t[2 * k + 1] == b[2 * k + 1]);
    }
    assert(body_units(t, 0, endian) =~= body_units(b, 0, endian).push(0xFFFD));
}

} // verus!
