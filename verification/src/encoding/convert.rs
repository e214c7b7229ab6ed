//! Conversion between text and bytes by the name of a coding system.
use crate::emacs_char::{
    char_byte8_p, char_to_byte8, decode_text, raw_byte_of, MAX_5_BYTE_CHAR,
};
use crate::encoding::eol::{
    encode_eol_bytes, encode_eol_text, decode_eol_text, eol_bytes, eol_of, eol_text, uneol_bytes,
};
use crate::encoding::family::{
    ascii_family, byte_preserving, coding_system_family, family_of, is_ascii_family,
    is_byte_preserving_coding_system, is_latin_family, latin_family,
};
use crate::encoding::latin::{
    decode_single_byte_family_char, encode_single_byte_family_char, latin_byte, latin_char,
};
use crate::encoding::utf16::{
    char_codes, decode_utf16_bytes, encode_utf16_lisp_string, encode_utf16_text, utf16_bytes,
    utf16_coding_variant, utf16_text, utf16_variant,
};
use crate::encoding::utf8_emacs::{
    decode_utf8_emacs_bytes, encode_utf8_emacs_text, utf8_emacs_bytes, utf8_emacs_from,
};
use crate::lisp_string::{LispString, LispText};
use crate::text::{chars_of, code_of, copy_bytes, str_eq, string_of};
use encoding_rs::{BIG5, GBK};
use vstd::prelude::*;
use vstd::utf8::{decode_utf8, encode_utf8, is_ascii_chars, valid_utf8};

verus! {

/// Whether every byte is ASCII.
pub open spec fn all_ascii_bytes(b: Seq<u8>) -> bool {
    forall|i: int| 0 <= i < b.len() ==> #[trigger] b[i] < 0x80
}

/// The bytes that `encoding_rs::BIG5.encode` gives for a text.
pub uninterp spec fn big5_encoded(s: Seq<char>) -> Seq<u8>;

/// The text that `encoding_rs::BIG5.decode` gives for some bytes.
pub uninterp spec fn big5_decoded(b: Seq<u8>) -> Seq<char>;

/// The bytes that `encoding_rs::GBK.encode` gives for a text.
pub uninterp spec fn gbk_encoded(s: Seq<char>) -> Seq<u8>;

/// The text that `encoding_rs::GBK.decode` gives for some bytes.
pub uninterp spec fn gbk_decoded(b: Seq<u8>) -> Seq<char>;

/// The text that `String::from_utf8_lossy` gives for some bytes.
pub uninterp spec fn utf8_lossy(b: Seq<u8>) -> Seq<char>;

/// Calls `encoding_rs::BIG5.encode`. An ASCII text is handed back as its bytes.
#[verifier::external_body]
fn big5_encode(s: &str) -> (r: Vec<u8>)
    ensures
        r@ == big5_encoded(s@),
        is_ascii_chars(s@) ==> r@ == encode_utf8(s@),
{
    BIG5.encode(s).0.into_owned()
}

/// Calls `encoding_rs::BIG5.decode`. ASCII bytes are handed back as the text that they are.
#[verifier::external_body]
fn big5_decode(b: &[u8]) -> (r: String)
    ensures
        r@ == big5_decoded(b@),
        all_ascii_bytes(b@) ==> r@ == decode_utf8(b@),
{
    BIG5.decode(b).0.into_owned()
}

/// Calls `encoding_rs::GBK.encode`. An ASCII text is handed back as its bytes.
#[verifier::external_body]
fn gbk_encode(s: &str) -> (r: Vec<u8>)
    ensures
        r@ == gbk_encoded(s@),
        is_ascii_chars(s@) ==> r@ == encode_utf8(s@),
{
    GBK.encode(s).0.into_owned()
}

/// Calls `encoding_rs::GBK.decode`. ASCII bytes are handed back as the text that they are.
#[verifier::external_body]
fn gbk_decode(b: &[u8]) -> (r: String)
    ensures
        r@ == gbk_decoded(b@),
        all_ascii_bytes(b@) ==> r@ == decode_utf8(b@),
{
    GBK.decode(b).0.into_owned()
}

/// Calls `String::from_utf8_lossy`. Valid UTF-8 gives the text that it is.
#[verifier::external_body]
fn from_utf8_lossy(b: &[u8]) -> (r: String)
    ensures
        r@ == utf8_lossy(b@),
        valid_utf8(b@) ==> r@ == decode_utf8(b@),
{
    String::from_utf8_lossy(b).into_owned()
}

/// Whether the family is written as UTF-8 that can hold raw bytes.
pub open spec fn is_utf8_family(family: Seq<char>) -> bool {
    family == "utf-8"@ || family == "utf-8-unix"@ || family == "utf-8-dos"@ || family
        == "utf-8-mac"@ || family == "utf-8-emacs"@
}

/// Whether the family is one of the Big5 ones.
pub open spec fn is_big5_family(family: Seq<char>) -> bool {
    family == "chinese-big5"@ || family == "chinese-big5-hkscs"@
}

/// The text in a single-byte Latin family, with `?` for what it cannot hold.
pub open spec fn latin_text_bytes(family: Seq<char>, s: Seq<char>) -> Seq<u8> {
    Seq::new(
        s.len(),
        |i: int|
            match latin_byte(family, s[i] as u32) {
                Some(b) => b,
                None => 0x3Fu8,
            },
    )
}

/// The text in ASCII, with `?` for what it cannot hold.
pub open spec fn ascii_text_bytes(s: Seq<char>) -> Seq<u8> {
    Seq::new(
        s.len(),
        |i: int|
            if (s[i] as u32) < 0x80 {
                s[i] as u8
            } else {
                0x3Fu8
            },
    )
}

/// The text whose line endings are done, in a family that is not UTF-16.
pub open spec fn family_bytes(family: Seq<char>, s: Seq<char>) -> Seq<u8> {
    if is_utf8_family(family) {
        utf8_emacs_bytes(s)
    } else if is_ascii_chars(s) && (is_big5_family(family) || family == "chinese-iso-8bit"@) {
        encode_utf8(s)
    } else if is_big5_family(family) {
        big5_encoded(s)
    } else if family == "chinese-iso-8bit"@ {
        gbk_encoded(s)
    } else if is_latin_family(family) {
        latin_text_bytes(family, s)
    } else if is_ascii_family(family) {
        ascii_text_bytes(s)
    } else {
        encode_utf8(s)
    }
}

/// A text in a coding system.
pub open spec fn encoded(s: Seq<char>, coding: Seq<char>) -> Seq<u8> {
    let t = eol_text(s, eol_of(coding));
    match utf16_variant(coding) {
        Some((endian, bom)) => utf16_bytes(char_codes(t), endian, bom),
        None => family_bytes(family_of(coding), t),
    }
}

/// The text in a single-byte Latin family.
fn latin_text(family: &str, s: &[char]) -> (r: Vec<u8>)
    ensures
        r@ == latin_text_bytes(family@, s@),
{
    let mut out: Vec<u8> = Vec::new();
    let mut i: usize = 0;
    while i < s.len()
        invariant
            i <= s.len(),
            out@ == latin_text_bytes(family@, s@).take(i as int),
        decreases s.len() - i,
    {
        let b: u8 = match encode_single_byte_family_char(family, code_of(s[i])) {
            Some(b) => b,
            None => 0x3F,
        };
        proof {
            assert(latin_text_bytes(family@, s@).take(i + 1) =~= latin_text_bytes(
                family@,
                s@,
            ).take(i as int).push(b));
        }
        out.push(b);
        i = i + 1;
    }
    proof {
        assert(out@ =~= latin_text_bytes(family@, s@));
    }
    out
}

/// The text in ASCII.
fn ascii_text(s: &[char]) -> (r: Vec<u8>)
    ensures
        r@ == ascii_text_bytes(s@),
{
    let mut out: Vec<u8> = Vec::new();
    let mut i: usize = 0;
    while i < s.len()
        invariant
            i <= s.len(),
            out@ == ascii_text_bytes(s@).take(i as int),
        decreases s.len() - i,
    {
        let cp: u32 = code_of(s[i]);
        let b: u8 = if cp < 0x80 {
            cp as u8
        } else {
            0x3F
        };
        proof {
            assert(ascii_text_bytes(s@).take(i + 1) =~= ascii_text_bytes(s@).take(i as int).push(
                b,
            ));
        }
        out.push(b);
        i = i + 1;
    }
    proof {
        assert(out@ =~= ascii_text_bytes(s@));
    }
    out
}

/// Encode a string to bytes using the specified coding system.
pub fn encode_string(s: &str, coding_system: &str) -> (r: Vec<u8>)
    ensures
        r@ == encoded(s@, coding_system@),
{
    let chars: Vec<char> = chars_of(s);
    encode_chars(chars.as_slice(), coding_system)
}

/// Encode text to bytes using the specified coding system.
pub fn encode_chars(s: &[char], coding_system: &str) -> (r: Vec<u8>)
    ensures
        r@ == encoded(s@, coding_system@),
{
    let text: Vec<char> = encode_eol_text(s, coding_system);
    match utf16_coding_variant(coding_system) {
        Some((endian, bom)) => {
            return encode_utf16_text(text.as_slice(), endian, bom);
        },
        None => {},
    }
    let owned: String = coding_system_family(coding_system);
    let family: &str = owned.as_str();
    if str_eq(family, "utf-8") || str_eq(family, "utf-8-unix") || str_eq(family, "utf-8-dos")
        || str_eq(family, "utf-8-mac") || str_eq(family, "utf-8-emacs") {
        encode_utf8_emacs_text(text.as_slice())
    } else if str_eq(family, "chinese-big5") || str_eq(family, "chinese-big5-hkscs") {
        big5_encode(string_of(text.as_slice()).as_str())
    } else if str_eq(family, "chinese-iso-8bit") {
        gbk_encode(string_of(text.as_slice()).as_str())
    } else if latin_family(family) {
        latin_text(family, text.as_slice())
    } else if ascii_family(family) {
        ascii_text(text.as_slice())
    } else {
        copy_bytes(string_of(text.as_slice()).as_str().as_bytes())
    }
}

/// The text of some bytes in a single-byte Latin family.
pub open spec fn latin_bytes_text(family: Seq<char>, b: Seq<u8>) -> Seq<char> {
    Seq::new(
        b.len(),
        |i: int|
            match latin_char(family, b[i]) {
                Some(c) => c,
                None => '\u{FFFD}',
            },
    )
}

/// The text of some ASCII bytes, with `?` for what is none.
pub open spec fn ascii_bytes_text(b: Seq<u8>) -> Seq<char> {
    Seq::new(
        b.len(),
        |i: int|
            if b[i] < 128 {
                b[i] as char
            } else {
                '?'
            },
    )
}

/// The text of bytes whose line endings are done, in a family that is not UTF-16.
pub open spec fn family_text(family: Seq<char>, b: Seq<u8>) -> Seq<char> {
    if family == "utf-8"@ || family == "utf-8-emacs"@ {
        utf8_emacs_from(b, 0)
    } else if all_ascii_bytes(b) && (is_big5_family(family) || family == "chinese-iso-8bit"@) {
        decode_utf8(b)
    } else if is_big5_family(family) {
        big5_decoded(b)
    } else if family == "chinese-iso-8bit"@ {
        gbk_decoded(b)
    } else if is_latin_family(family) {
        latin_bytes_text(family, b)
    } else if is_ascii_family(family) {
        ascii_bytes_text(b)
    } else if valid_utf8(b) {
        decode_utf8(b)
    } else {
        utf8_lossy(b)
    }
}

/// The text of some bytes in a coding system.
pub open spec fn decoded(b: Seq<u8>, coding: Seq<char>) -> Seq<char> {
    match utf16_variant(coding) {
        Some((endian, _)) => utf16_text(b, endian),
        None => family_text(family_of(coding), uneol_bytes(b, eol_of(coding))),
    }
}

/// The text of some bytes in a single-byte Latin family.
fn latin_decode(family: &str, b: &[u8]) -> (r: Vec<char>)
    ensures
        r@ == latin_bytes_text(family@, b@),
{
    let mut out: Vec<char> = Vec::new();
    let mut i: usize = 0;
    while i < b.len()
        invariant
            i <= b.len(),
            out@ == latin_bytes_text(family@, b@).take(i as int),
        decreases b.len() - i,
    {
        let c: char = match decode_single_byte_family_char(family, b[i]) {
            Some(c) => c,
            None => '\u{FFFD}',
        };
        proof {
            assert(latin_bytes_text(family@, b@).take(i + 1) =~= latin_bytes_text(
                family@,
                b@,
            ).take(i as int).push(c));
        }
        out.push(c);
        i = i + 1;
    }
    proof {
        assert(out@ =~= latin_bytes_text(family@, b@));
    }
    out
}

/// The text of some ASCII bytes.
fn ascii_decode(b: &[u8]) -> (r: Vec<char>)
    ensures
        r@ == ascii_bytes_text(b@),
{
    let mut out: Vec<char> = Vec::new();
    let mut i: usize = 0;
    while i < b.len()
        invariant
            i <= b.len(),
            out@ == ascii_bytes_text(b@).take(i as int),
        decreases b.len() - i,
    {
        let c: char = if b[i] < 128 {
            b[i] as char
        } else {
            '?'
        };
        proof {
            assert(ascii_bytes_text(b@).take(i + 1) =~= ascii_bytes_text(b@).take(i as int).push(
                c,
            ));
        }
        out.push(c);
        i = i + 1;
    }
    proof {
        assert(out@ =~= ascii_bytes_text(b@));
    }
    out
}

/// Decode bytes to a string using the specified coding system.
pub fn decode_bytes(bytes: &[u8], coding_system: &str) -> (r: String)
    ensures
        r@ == decoded(bytes@, coding_system@),
{
    let chars: Vec<char> = decode_to_chars(bytes, coding_system);
    string_of(chars.as_slice())
}

/// Decode bytes to text using the specified coding system.
pub fn decode_to_chars(bytes: &[u8], coding_system: &str) -> (r: Vec<char>)
    ensures
        r@ == decoded(bytes@, coding_system@),
{
    match utf16_coding_variant(coding_system) {
        Some((endian, _)) => {
            return decode_utf16_bytes(bytes, endian);
        },
        None => {},
    }
    let unix: Vec<u8> = decode_eol_text(bytes, coding_system);
    let owned: String = coding_system_family(coding_system);
    let family: &str = owned.as_str();
    if str_eq(family, "utf-8") || str_eq(family, "utf-8-emacs") {
        decode_utf8_emacs_bytes(unix.as_slice())
    } else if str_eq(family, "chinese-big5") || str_eq(family, "chinese-big5-hkscs") {
        chars_of(big5_decode(unix.as_slice()).as_str())
    } else if str_eq(family, "chinese-iso-8bit") {
        chars_of(gbk_decode(unix.as_slice()).as_str())
    } else if latin_family(family) {
        latin_decode(family, unix.as_slice())
    } else if ascii_family(family) {
        ascii_decode(unix.as_slice())
    } else {
        chars_of(from_utf8_lossy(unix.as_slice()).as_str())
    }
}

/// Whether the family writes a Lisp string's internal form as it is.
pub open spec fn is_internal_family(family: Seq<char>) -> bool {
    family == "utf-8"@ || family == "utf-8-emacs"@ || family == "undecided"@ || family
        == "prefer-utf-8"@
}

/// The byte for a character of a Lisp string in a single-byte family.
pub open spec fn lisp_char_byte(family: Seq<char>, code: u32) -> u8 {
    if is_latin_family(family) {
        match latin_byte(family, code) {
            Some(b) => b,
            None => if code > MAX_5_BYTE_CHAR {
                raw_byte_of(code)
            } else {
                0x3F
            },
        }
    } else if code <= 0x7F {
        code as u8
    } else {
        0x3F
    }
}

/// The characters of a Lisp string in a single-byte family; nothing in any other family.
pub open spec fn lisp_codes_bytes(family: Seq<char>, codes: Seq<u32>) -> Seq<u8> {
    if is_latin_family(family) || is_ascii_family(family) {
        Seq::new(codes.len(), |i: int| lisp_char_byte(family, codes[i]))
    } else {
        Seq::empty()
    }
}

/// A Lisp string in a coding system.
pub open spec fn lisp_string_encoded(s: LispText, coding: Seq<char>) -> Seq<u8> {
    let family = family_of(coding);
    match utf16_variant(coding) {
        Some((endian, bom)) => utf16_bytes(s.codes(), endian, bom),
        None => if is_internal_family(family) || byte_preserving(coding) {
            eol_bytes(s.bytes, eol_of(coding))
        } else if family == "chinese-iso-8bit"@ || is_big5_family(family) {
            encoded(utf8_emacs_from(s.bytes, 0), coding)
        } else {
            eol_bytes(lisp_codes_bytes(family, s.codes()), eol_of(coding))
        },
    }
}

/// The characters of a Lisp string in a single-byte family; nothing in any other family.
fn encode_lisp_codes(family: &str, codes: &[u32]) -> (r: Vec<u8>)
    ensures
        r@ == lisp_codes_bytes(family@, codes@),
{
    let latin: bool = latin_family(family);
    let mut out: Vec<u8> = Vec::new();
    if !latin && !ascii_family(family) {
        return out;
    }
    let mut i: usize = 0;
    while i < codes.len()
        invariant
            i <= codes.len(),
            latin == is_latin_family(family@),
            is_latin_family(family@) || is_ascii_family(family@),
            out@ == lisp_codes_bytes(family@, codes@).take(i as int),
        decreases codes.len() - i,
    {
        let code: u32 = codes[i];
        let b: u8 = if latin {
            match encode_single_byte_family_char(family, code) {
                Some(b) => b,
                None => if char_byte8_p(code) {
                    char_to_byte8(code)
                } else {
                    0x3F
                },
            }
        } else if code <= 0x7F {
            code as u8
        } else {
            0x3F
        };
        proof {
            assert(lisp_codes_bytes(family@, codes@).take(i + 1) =~= lisp_codes_bytes(
                family@,
                codes@,
            ).take(i as int).push(b));
        }
        out.push(b);
        i = i + 1;
    }
    proof {
        assert(out@ =~= lisp_codes_bytes(family@, codes@));
    }
    out
}

/// Encode a Lisp string to bytes using the specified coding system.
pub fn encode_lisp_string(s: &LispString, coding_system: &str) -> (r: Vec<u8>)
    ensures
        r@ == lisp_string_encoded(s@, coding_system@),
{
    match utf16_coding_variant(coding_system) {
        Some((endian, bom)) => {
            return encode_utf16_lisp_string(s, endian, bom);
        },
        None => {},
    }
    let owned: String = coding_system_family(coding_system);
    let family: &str = owned.as_str();
    if str_eq(family, "utf-8") || str_eq(family, "utf-8-emacs") || str_eq(family, "undecided")
        || str_eq(family, "prefer-utf-8") || is_byte_preserving_coding_system(coding_system) {
        return encode_eol_bytes(s.as_bytes(), coding_system);
    }
    if str_eq(family, "chinese-iso-8bit") || str_eq(family, "chinese-big5") || str_eq(
        family,
        "chinese-big5-hkscs",
    ) {
        let text: Vec<char> = decode_utf8_emacs_bytes(s.as_bytes());
        return encode_chars(text.as_slice(), coding_system);
    }
    let codes: Vec<u32> = decode_text(s.as_bytes(), s.is_multibyte());
    let out: Vec<u8> = encode_lisp_codes(family, codes.as_slice());
    encode_eol_bytes(out.as_slice(), coding_system)
}

} // verus!
