//! What holds of the signs, the widths and the bytes of characters.
use crate::emacs_char::{byte_char, MAX_CHAR};
use crate::encoding::builtins::{
    char_displayable, char_or_string, char_width_of, charset_runs, first_non_ascii, string_is,
};
use crate::encoding::convert::{ascii_text_bytes, latin_text_bytes, lisp_codes_bytes};
use crate::encoding::family::{is_ascii_family, is_latin_family};
use crate::encoding::glyphless::{glyphless, hex_digit};
use crate::encoding::latin::{latin_byte, latin_char};
use crate::encoding::utf16::char_codes;
use crate::encoding::width::width_of;
use crate::text::lemma_char;
use crate::value::{list1, list2, list3, sym, wrong_type, Lisp, Outcome};
use vstd::prelude::*;

verus! {

/// A control character, but a tab or a newline, is as wide as the sign that stands for it.
pub proof fn law_control_is_as_wide_as_its_sign(c: char)
    requires
        (c as u32) < 0x20 || 0x7f <= c as u32 <= 0x9f,
        c as u32 != 9,
        c as u32 != 10,
    ensures
        width_of(c) == glyphless(c).len(),
{
}

/// The value of a digit.
pub open spec fn digit_value(c: char) -> int {
    if c as u32 <= 0x39 {
        c as u32 - 0x30
    } else {
        c as u32 - 0x37
    }
}

/// The number that the digits of a sign write in a base, from an index on.
pub open spec fn sign_number(s: Seq<char>, from: int, base: int) -> int
    decreases s.len(),
{
    if s.len() <= from || s.len() == 0 {
        0
    } else {
        sign_number(s.drop_last(), from, base) * base + digit_value(s.last())
    }
}

/// The sign of a character beyond the control characters writes its code, in octal up to
/// the last byte and in hexadecimal beyond.
pub proof fn law_sign_writes_code(c: char)
    requires
        0x80 <= c as u32 || 0x20 <= c as u32 <= 0x7e,
    ensures
        ({
            let cp = c as u32;
            let s = glyphless(c);
            &&& s[0] == '\\'
            &&& cp <= 0xff ==> s.len() == 4 && sign_number(s, 1, 8) == cp
            &&& 0xff < cp <= 0xffff ==> s.len() == 6 && s[1] == 'u' && sign_number(s, 2, 16) == cp
            &&& 0xffff < cp ==> s.len() == 10 && s[1] == 'U' && sign_number(s, 2, 16) == cp
        }),
{
    lemma_char(c);
    let cp = c as u32 as int;
    let s = glyphless(c);
    if cp <= 0xff {
        lemma_octal(s, cp);
    } else if cp <= 0xffff {
        lemma_short(s, cp);
    } else {
        lemma_long(s, cp);
    }
}

proof fn lemma_octal(s: Seq<char>, cp: int)
    requires
        0 <= cp <= 0xff,
        s == seq!['\\', hex_digit(cp / 64), hex_digit(cp / 8 % 8), hex_digit(cp % 8)],
    ensures
        sign_number(s, 1, 8) == cp,
{
    let a = s.drop_last();
    let b = a.drop_last();
    assert(sign_number(b.drop_last(), 1, 8) == 0);
    assert(sign_number(b, 1, 8) == cp / 64);
    assert(sign_number(a, 1, 8) == cp / 64 * 8 + cp / 8 % 8);
    assert(sign_number(s, 1, 8) == (cp / 64 * 8 + cp / 8 % 8) * 8 + cp % 8);
}

proof fn lemma_short(s: Seq<char>, cp: int)
    requires
        0 <= cp <= 0xffff,
        s == seq![
            '\\',
            'u',
            hex_digit(cp / 4096),
            hex_digit(cp / 256 % 16),
            hex_digit(cp / 16 % 16),
            hex_digit(cp % 16),
        ],
    ensures
        sign_number(s, 2, 16) == cp,
{
    let a = s.drop_last();
    let b = a.drop_last();
    let c = b.drop_last();
    assert(sign_number(c.drop_last(), 2, 16) == 0);
    assert(sign_number(c, 2, 16) == cp / 4096);
    assert(sign_number(b, 2, 16) == cp / 4096 * 16 + cp / 256 % 16);
    assert(sign_number(a, 2, 16) == cp / 16);
}

proof fn lemma_long(s: Seq<char>, cp: int)
    requires
        0 <= cp <= 0x10ffff,
        s == seq![
            '\\',
            'U',
            '0',
            '0',
            hex_digit(cp / 1048576),
            hex_digit(cp / 65536 % 16),
            hex_digit(cp / 4096 % 16),
            hex_digit(cp / 256 % 16),
            hex_digit(cp / 16 % 16),
            hex_digit(cp % 16),
        ],
    ensures
        sign_number(s, 2, 16) == cp,
{
    let a = s.drop_last();
    let b = a.drop_last();
    let c = b.drop_last();
    let d = c.drop_last();
    let e = d.drop_last();
    let f = e.drop_last();
    let g = f.drop_last();
    assert(sign_number(g.drop_last(), 2, 16) == 0);
    assert(sign_number(g, 2, 16) == 0);
    assert(sign_number(f, 2, 16) == 0);
    assert(sign_number(e, 2, 16) == cp / 1048576);
    assert(sign_number(d, 2, 16) == cp / 65536);
    assert(sign_number(c, 2, 16) == cp / 4096);
    assert(sign_number(b, 2, 16) == cp / 256);
    assert(sign_number(a, 2, 16) == cp / 16);
}

/// Two characters that differ have signs that differ.
pub proof fn law_signs_tell_characters_apart(c: char, d: char)
    requires
        glyphless(c) == glyphless(d),
    ensures
        c == d,
{
    lemma_char(c);
    lemma_char(d);
    let m = c as u32;
    let n = d as u32;
    let s = glyphless(c);
    assert(s.len() == glyphless(d).len());
    if m < 0x20 || m == 0x7f {
        assert(s.len() == 2);
        assert(s[1] == glyphless(d)[1]);
    } else {
        law_sign_writes_code(c);
        if n < 0x20 || n == 0x7f {
            assert(glyphless(d).len() == 2);
        } else {
            law_sign_writes_code(d);
        }
        assert(m == n);
    }
}

/// In a single-byte family each character becomes one byte: the one that is read back as
/// it where there is one, and a question mark for a character that is none of the family's
/// nor one of the first ones.
pub proof fn law_single_bytes_stand_for_characters(family: Seq<char>, s: Seq<char>, i: int)
    requires
        is_latin_family(family) || is_ascii_family(family),
        0 <= i < s.len(),
    ensures
        ({
            let b = if is_latin_family(family) {
                latin_text_bytes(family, s)
            } else {
                ascii_text_bytes(s)
            };
            &&& b.len() == s.len()
            &&& s[i] as u32 <= 0x7f ==> b[i] == s[i] as u32
            &&& is_latin_family(family) ==> forall|x: u8|
                #[trigger] latin_char(family, x) == Some(s[i]) ==> b[i] == x
            &&& s[i] as u32 > 0xff && (forall|x: u8|
                #[trigger] latin_char(family, x) != Some(s[i])) ==> b[i] == 0x3f
            &&& !is_latin_family(family) && s[i] as u32 > 0x7f ==> b[i] == 0x3f
        }),
{
    lemma_char(s[i]);
    if is_latin_family(family) {
        assert forall|x: u8| #[trigger] latin_char(family, x) == Some(s[i]) implies latin_byte(
            family,
            s[i] as u32,
        ) == Some(x) by {}
        if s[i] as u32 > 0xff && (forall|x: u8| #[trigger] latin_char(family, x) != Some(s[i])) {
            match latin_byte(family, s[i] as u32) {
                Some(x) => {
                    assert(latin_char(family, x) == Some(s[i]));
                },
                None => {},
            }
        }
    }
}

/// The mark of a charset begins at the first character that is not ASCII, or at the start
/// for Latin-1, and ends with the text. ASCII text has no mark.
pub proof fn law_charset_marks_text(s: Seq<char>, charset: Seq<char>, i: int)
    requires
        0 <= i < s.len(),
        s[i] as u32 > 0x7f,
        forall|j: int| 0 <= j < i ==> #[trigger] s[j] as u32 <= 0x7f,
    ensures
        charset_runs(s, charset) == list1(
            list3(
                Lisp::Int(
                    if charset == "iso-8859-1"@ {
                        0
                    } else {
                        i as i64
                    },
                ),
                Lisp::Int(s.len() as i64),
                list2(sym("charset"@), sym(charset)),
            ),
        ),
        charset_runs(s.take(i), charset) == Lisp::Nil,
{
    lemma_first_non_ascii(s, 0, i);
    lemma_first_non_ascii(s.take(i), 0, i);
}

proof fn lemma_first_non_ascii(s: Seq<char>, k: int, i: int)
    requires
        0 <= k <= i <= s.len(),
        i < s.len() ==> s[i] as u32 > 0x7f,
        forall|j: int| 0 <= j < i ==> #[trigger] s[j] as u32 <= 0x7f,
    ensures
        first_non_ascii(s, k) == i,
    decreases i - k,
{
    if k < i {
        assert(s[k] as u32 <= 0x7f);
        lemma_first_non_ascii(s, k + 1, i);
    }
}

/// Every string is either multibyte or unibyte, and nothing else is one of them.
pub proof fn law_string_is_one_kind(v: Lisp)
    ensures
        v is Str ==> (string_is(v, true) == Lisp::True) == (string_is(v, false) == Lisp::Nil),
        v is Str ==> (string_is(v, true) == Lisp::Nil) == (string_is(v, false) == Lisp::True),
        v !is Str ==> string_is(v, true) == Lisp::Nil && string_is(v, false) == Lisp::Nil,
        v matches Lisp::Str(text, _) ==> (string_is(v, true) == Lisp::True) == text.multibyte,
        char_or_string(v) == (v is Str || (v matches Lisp::Int(n) && 0 <= n <= MAX_CHAR)),
{
}

/// `char-width` and `char-displayable-p` take the characters, and only them; the ones
/// beyond Unicode take one column and cannot be displayed.
pub proof fn law_characters_are_taken(n: i64)
    ensures
        ({
            let args = seq![Lisp::Int(n)];
            &&& 0 <= n <= 0x3FFFFF ==> char_width_of(args) is Value && char_displayable(
                args,
            ) is Value
            &&& !(0 <= n <= 0x3FFFFF) ==> char_width_of(args) == wrong_type(
                "characterp"@,
                Lisp::Int(n),
            ) && char_displayable(args) == wrong_type("characterp"@, Lisp::Int(n))
            &&& 0x10FFFF < n <= 0x3FFFFF ==> char_width_of(args) == Outcome::Value(Lisp::Int(1))
                && char_displayable(args) == Outcome::Value(Lisp::Nil)
            &&& 0x20 <= n <= 0x7e ==> char_width_of(args) == Outcome::Value(Lisp::Int(1))
            &&& 0 <= n <= 0x7f ==> char_displayable(args) == Outcome::Value(Lisp::True)
            &&& 0x7f < n <= 0x10FFFF ==> char_displayable(args) == Outcome::Value(
                sym("unicode"@),
            )
        }),
{
    let args = seq![Lisp::Int(n)];
    assert(args.len() == 1 && args[0] == Lisp::Int(n));
    assert(crate::value::arg(args, 0) == Lisp::Int(n));
}

/// The characters of a Lisp string are written in a single-byte family as those of a text
/// are, and a raw byte is written as it is in a Latin family.
pub proof fn law_lisp_string_is_written_as_text(family: Seq<char>, s: Seq<char>, b: u8)
    requires
        is_latin_family(family) || is_ascii_family(family),
        b >= 0x80,
    ensures
        is_latin_family(family) ==> lisp_codes_bytes(family, char_codes(s)) == latin_text_bytes(
            family,
            s,
        ),
        !is_latin_family(family) ==> lisp_codes_bytes(family, char_codes(s)) == ascii_text_bytes(
            s,
        ),
        is_latin_family(family) ==> lisp_codes_bytes(family, seq![byte_char(b)]) == seq![b],
{
    assert forall|i: int| 0 <= i < s.len() implies #[trigger] s[i] as u32 <= 0x10FFFF by {
        lemma_char(s[i]);
    }
    if is_latin_family(family) {
        assert(lisp_codes_bytes(family, char_codes(s)) =~= latin_text_bytes(family, s));
        assert(latin_byte(family, byte_char(b)) is None);
        assert(lisp_codes_bytes(family, seq![byte_char(b)]) =~= seq![b]);
    } else {
        let x = lisp_codes_bytes(family, char_codes(s));
        let y = ascii_text_bytes(s);
        assert forall|i: int| 0 <= i < s.len() implies x[i] == #[trigger] y[i] by {
            lemma_char(s[i]);
            assert(char_codes(s)[i] == s[i] as u32);
        }
        assert(x =~= y);
    }
}

} // verus!
