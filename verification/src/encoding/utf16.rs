//! The UTF-16 coding systems.
use crate::emacs_char::{char_byte8_p, char_to_byte8, decode_text, raw_byte_of, MAX_5_BYTE_CHAR};
use crate::encoding::family::{coding_base, strip_eol_suffix};
use crate::lisp_string::LispString;
use crate::text::{code_of, is_unicode_scalar, lemma_char, str_eq};
use vstd::prelude::*;

verus! {

/// The order in which the two bytes of a code unit are written.
#[derive(Debug, Clone, Copy, PartialEq, Eq, Structural)]
pub enum Utf16Endian {
    Big,
    Little,
}

/// The byte order of a UTF-16 coding system, and whether it writes a byte order mark.
pub open spec fn utf16_variant(coding: Seq<char>) -> Option<(Utf16Endian, bool)> {
    let base = coding_base(coding);
    if base == "utf-16"@ || base == "utf-16-be"@ || base == "utf-16be-with-signature"@ {
        Some((Utf16Endian::Big, true))
    } else if base == "utf-16-le"@ || base == "utf-16le-with-signature"@ {
        Some((Utf16Endian::Little, true))
    } else if base == "utf-16be"@ {
        Some((Utf16Endian::Big, false))
    } else if base == "utf-16le"@ {
        Some((Utf16Endian::Little, false))
    } else {
        None
    }
}

/// The byte order of a UTF-16 coding system, and whether it writes a byte order mark.
pub fn utf16_coding_variant(coding_system: &str) -> (r: Option<(Utf16Endian, bool)>)
    ensures
        r == utf16_variant(coding_system@),
{
    let owned: String = strip_eol_suffix(coding_system);
    let base: &str = owned.as_str();
    if str_eq(base, "utf-16") || str_eq(base, "utf-16-be") || str_eq(
        base,
        "utf-16be-with-signature",
    ) {
        Some((Utf16Endian::Big, true))
    } else if str_eq(base, "utf-16-le") || str_eq(base, "utf-16le-with-signature") {
        Some((Utf16Endian::Little, true))
    } else if str_eq(base, "utf-16be") {
        Some((Utf16Endian::Big, false))
    } else if str_eq(base, "utf-16le") {
        Some((Utf16Endian::Little, false))
    } else {
        None
    }
}

/// The two bytes of a code unit.
pub open spec fn unit_bytes(endian: Utf16Endian, unit: u16) -> Seq<u8> {
    match endian {
        Utf16Endian::Big => seq![(unit / 256) as u8, (unit % 256) as u8],
        Utf16Endian::Little => seq![(unit % 256) as u8, (unit / 256) as u8],
    }
}

/// Appends the two bytes of a code unit.
pub fn push_utf16_unit(out: &mut Vec<u8>, endian: Utf16Endian, unit: u16)
    ensures
        final(out)@ == old(out)@ + unit_bytes(endian, unit),
{
    let ghost before = out@;
    let high: u8 = (unit / 256) as u8;
    let low: u8 = (unit % 256) as u8;
    match endian {
        Utf16Endian::Big => {
            out.push(high);
            out.push(low);
        },
        Utf16Endian::Little => {
            out.push(low);
            out.push(high);
        },
    }
    proof {
        assert(out@ =~= before + unit_bytes(endian, unit));
    }
}

/// The code point that is written for a character: its byte for a raw byte,
/// U+FFFD for what UTF-16 cannot hold.
pub open spec fn utf16_scalar(code: u32) -> u32 {
    if code > MAX_5_BYTE_CHAR {
        raw_byte_of(code) as u32
    } else if !is_unicode_scalar(code) {
        0xFFFD
    } else {
        code
    }
}

/// The code units of a code point.
pub open spec fn scalar_units(code: u32) -> Seq<u16> {
    if code <= 0xFFFF {
        seq![code as u16]
    } else {
        seq![
            (0xD800 + (code - 0x10000) / 1024) as u16,
            (0xDC00 + (code - 0x10000) % 1024) as u16,
        ]
    }
}

/// The bytes of a sequence of code units.
pub open spec fn units_bytes(endian: Utf16Endian, units: Seq<u16>) -> Seq<u8>
    decreases units.len(),
{
    if units.len() == 0 {
        Seq::empty()
    } else {
        units_bytes(endian, units.drop_last()) + unit_bytes(endian, units.last())
    }
}

/// Appends the code units of a character.
pub fn push_utf16_codepoint(out: &mut Vec<u8>, endian: Utf16Endian, code: u32)
    ensures
        final(out)@ == old(out)@ + units_bytes(endian, scalar_units(utf16_scalar(code))),
{
    let ghost before = out@;
    let scalar: u32 = if char_byte8_p(code) {
        char_to_byte8(code) as u32
    } else if (0xD800 <= code && code <= 0xDFFF) || code > 0x10FFFF {
        0xFFFD
    } else {
        code
    };
    let ghost units = scalar_units(utf16_scalar(code));
    proof {
        reveal_with_fuel(units_bytes, 3);
        if scalar <= 0xFFFF {
            assert(units.drop_last() =~= Seq::<u16>::empty());
        } else {
            assert(units.drop_last() =~= seq![units[0]]);
            assert(units.drop_last().drop_last() =~= Seq::<u16>::empty());
        }
    }
    if scalar <= 0xFFFF {
        push_utf16_unit(out, endian, scalar as u16);
    } else {
        let offset: u32 = scalar - 0x10000;
        push_utf16_unit(out, endian, (0xD800 + offset / 1024) as u16);
        push_utf16_unit(out, endian, (0xDC00 + offset % 1024) as u16);
    }
    proof {
        assert(out@ =~= before + units_bytes(endian, units));
    }
}

/// The code units of a sequence of characters.
pub open spec fn codes_units(codes: Seq<u32>) -> Seq<u16>
    decreases codes.len(),
{
    if codes.len() == 0 {
        Seq::empty()
    } else {
        codes_units(codes.drop_last()) + scalar_units(utf16_scalar(codes.last()))
    }
}

/// The byte order mark, where one is written.
pub open spec fn bom_units(bom: bool) -> Seq<u16> {
    if bom {
        seq![0xFEFFu16]
    } else {
        Seq::empty()
    }
}

/// The UTF-16 form of a sequence of characters.
pub open spec fn utf16_bytes(codes: Seq<u32>, endian: Utf16Endian, bom: bool) -> Seq<u8> {
    units_bytes(endian, bom_units(bom) + codes_units(codes))
}

/// The bytes of two sequences of code units, one after the other.
pub(crate) proof fn lemma_units_bytes_concatenation(endian: Utf16Endian, a: Seq<u16>, b: Seq<u16>)
    ensures
        units_bytes(endian, a + b) == units_bytes(endian, a) + units_bytes(endian, b),
    decreases b.len(),
{
    if b.len() == 0 {
        assert(a + b =~= a);
        assert(units_bytes(endian, a) + units_bytes(endian, b) =~= units_bytes(endian, a));
    } else {
        assert((a + b).drop_last() =~= a + b.drop_last());
        lemma_units_bytes_concatenation(endian, a, b.drop_last());
        assert(units_bytes(endian, a + b) =~= units_bytes(endian, a) + units_bytes(endian, b));
    }
}

/// The UTF-16 form of a sequence of characters.
pub fn encode_utf16_codes(codes: &[u32], endian: Utf16Endian, bom: bool) -> (r: Vec<u8>)
    ensures
        r@ == utf16_bytes(codes@, endian, bom),
{
    let mut out: Vec<u8> = Vec::new();
    if bom {
        push_utf16_unit(&mut out, endian, 0xFEFF);
    }
    proof {
        reveal_with_fuel(units_bytes, 2);
        assert(bom ==> bom_units(bom).drop_last() =~= Seq::<u16>::empty());
        assert(out@ =~= units_bytes(endian, bom_units(bom)));
        assert(bom_units(bom) + codes_units(codes@.take(0)) =~= bom_units(bom));
    }
    let mut i: usize = 0;
    while i < codes.len()
        invariant
            i <= codes.len(),
            out@ == units_bytes(endian, bom_units(bom) + codes_units(codes@.take(i as int))),
        decreases codes.len() - i,
    {
        proof {
            let done = bom_units(bom) + codes_units(codes@.take(i as int));
            let more = scalar_units(utf16_scalar(codes@[i as int]));
            assert(codes@.take(i + 1).drop_last() =~= codes@.take(i as int));
            assert(bom_units(bom) + codes_units(codes@.take(i + 1)) =~= done + more);
            lemma_units_bytes_concatenation(endian, done, more);
        }
        push_utf16_codepoint(&mut out, endian, codes[i]);
        i = i + 1;
    }
    proof {
        assert(codes@.take(i as int) =~= codes@);
    }
    out
}

/// The UTF-16 form of a Lisp string.
pub fn encode_utf16_lisp_string(s: &LispString, endian: Utf16Endian, bom: bool) -> (r: Vec<u8>)
    ensures
        r@ == utf16_bytes(s@.codes(), endian, bom),
{
    let codes: Vec<u32> = decode_text(s.as_bytes(), s.is_multibyte());
    encode_utf16_codes(codes.as_slice(), endian, bom)
}

/// The code points of a string.
pub open spec fn char_codes(s: Seq<char>) -> Seq<u32> {
    Seq::new(s.len(), |i: int| s[i] as u32)
}

/// The UTF-16 form of a string.
pub fn encode_utf16_text(s: &[char], endian: Utf16Endian, bom: bool) -> (r: Vec<u8>)
    ensures
        r@ == utf16_bytes(char_codes(s@), endian, bom),
{
    let mut codes: Vec<u32> = Vec::new();
    let mut i: usize = 0;
    while i < s.len()
        invariant
            i <= s.len(),
            codes@ == char_codes(s@).take(i as int),
        decreases s.len() - i,
    {
        proof {
            assert(char_codes(s@).take(i + 1) =~= char_codes(s@).take(i as int).push(
                s@[i as int] as u32,
            ));
        }
        codes.push(code_of(s[i]));
        i = i + 1;
    }
    proof {
        assert(codes@ =~= char_codes(s@));
    }
    encode_utf16_codes(codes.as_slice(), endian, bom)
}

/// The byte order that text is read in, and where the text starts after its
/// byte order mark.
pub open spec fn detected(bytes: Seq<u8>, default_endian: Utf16Endian) -> (Utf16Endian, int) {
    if bytes.len() >= 2 && bytes[0] == 0xFE && bytes[1] == 0xFF {
        (Utf16Endian::Big, 2)
    } else if bytes.len() >= 2 && bytes[0] == 0xFF && bytes[1] == 0xFE {
        (Utf16Endian::Little, 2)
    } else {
        (default_endian, 0)
    }
}

/// The code unit whose bytes stand at index `i`.
pub open spec fn unit_at(bytes: Seq<u8>, i: int, endian: Utf16Endian) -> u16 {
    match endian {
        Utf16Endian::Big => (bytes[i] as int * 256 + bytes[i + 1]) as u16,
        Utf16Endian::Little => (bytes[i + 1] as int * 256 + bytes[i]) as u16,
    }
}

/// The code units of the bytes from index `start` on; a byte left over at the
/// end gives U+FFFD.
pub open spec fn body_units(bytes: Seq<u8>, start: int, endian: Utf16Endian) -> Seq<u16> {
    let n = (bytes.len() - start) / 2;
    let whole = Seq::new(n as nat, |k: int| unit_at(bytes, start + 2 * k, endian));
    if (bytes.len() - start) % 2 == 1 {
        whole.push(0xFFFD)
    } else {
        whole
    }
}

/// Whether the unit is the first of a surrogate pair.
pub open spec fn is_high(u: u16) -> bool {
    0xD800 <= u <= 0xDBFF
}

/// Whether the unit is the second of a surrogate pair.
pub open spec fn is_low(u: u16) -> bool {
    0xDC00 <= u <= 0xDFFF
}

/// The code point of a surrogate pair.
pub open spec fn pair_code(high: u16, low: u16) -> u32 {
    (0x10000 + (high - 0xD800) * 1024 + (low - 0xDC00)) as u32
}

/// The characters of the code units from index `i` on; an unpaired surrogate
/// gives U+FFFD.
pub open spec fn units_text(units: Seq<u16>, i: int) -> Seq<char>
    decreases units.len() - i,
{
    if i < 0 || i >= units.len() {
        Seq::empty()
    } else if is_high(units[i]) && i + 1 < units.len() && is_low(units[i + 1]) {
        seq![pair_code(units[i], units[i + 1]) as char] + units_text(units, i + 2)
    } else if is_high(units[i]) || is_low(units[i]) {
        seq!['\u{FFFD}'] + units_text(units, i + 1)
    } else {
        seq![units[i] as char] + units_text(units, i + 1)
    }
}

/// The text of some UTF-16 bytes.
pub open spec fn utf16_text(bytes: Seq<u8>, default_endian: Utf16Endian) -> Seq<char> {
    let (endian, start) = detected(bytes, default_endian);
    units_text(body_units(bytes, start, endian), 0)
}

/// The text of some UTF-16 bytes: in the byte order of their mark, which is
/// left out, or else in the given one.
pub fn decode_utf16_bytes(bytes: &[u8], default_endian: Utf16Endian) -> (r: Vec<char>)
    ensures
        r@ == utf16_text(bytes@, default_endian),
{
    let mut endian: Utf16Endian = default_endian;
    let mut start: usize = 0;
    if bytes.len() >= 2 && bytes[0] == 0xFE && bytes[1] == 0xFF {
        endian = Utf16Endian::Big;
        start = 2;
    } else if bytes.len() >= 2 && bytes[0] == 0xFF && bytes[1] == 0xFE {
        endian = Utf16Endian::Little;
        start = 2;
    }
    let ghost goal = body_units(bytes@, start as int, endian);
    let mut units: Vec<u16> = Vec::new();
    let mut pos: usize = start;
    while bytes.len() - pos >= 2
        invariant
            start <= pos <= bytes.len(),
            (pos - start) % 2 == 0,
            units@.len() == (pos - start) / 2,
            goal == body_units(bytes@, start as int, endian),
            forall|k: int|
                0 <= k < units@.len() ==> #[trigger] units@[k] == unit_at(
                    bytes@,
                    start + 2 * k,
                    endian,
                ),
        decreases bytes.len() - pos,
    {
        let a: u16 = bytes[pos] as u16;
        let b: u16 = bytes[pos + 1] as u16;
        units.push(
            match endian {
                Utf16Endian::Big => a * 256 + b,
                Utf16Endian::Little => b * 256 + a,
            },
        );
        pos = pos + 2;
    }
    if pos < bytes.len() {
        units.push(0xFFFD);
    }
    proof {
        assert(units@ =~= goal);
    }
    let mut out: Vec<char> = Vec::new();
    let mut i: usize = 0;
    while i < units.len()
        invariant
            i <= units.len(),
            out@ + units_text(units@, i as int) == units_text(units@, 0),
        decreases units.len() - i,
    {
        let u: u16 = units[i];
        let high: bool = 0xD800 <= u && u <= 0xDBFF;
        let low: bool = 0xDC00 <= u && u <= 0xDFFF;
        let ghost before = out@;
        if high && units.len() - i > 1 && 0xDC00 <= units[i + 1] && units[i + 1] <= 0xDFFF {
            let code: u32 = 0x10000 + (u - 0xD800) as u32 * 1024 + (units[i + 1] - 0xDC00) as u32;
            out.push(unit_char(code));
            proof {
                assert(before + units_text(units@, i as int) =~= out@ + units_text(units@, i + 2));
            }
            i = i + 2;
        } else {
            out.push(
                if high || low {
                    '\u{FFFD}'
                } else {
                    unit_char(u as u32)
                },
            );
            proof {
                assert(before + units_text(units@, i as int) =~= out@ + units_text(units@, i + 1));
            }
            i = i + 1;
        }
    }
    proof {
        assert(out@ + units_text(units@, i as int) =~= out@);
    }
    out
}

/// The character with the given code.
fn unit_char(code: u32) -> (r: char)
    requires
        is_unicode_scalar(code),
    ensures
        r == code as char,
{
    match char::from_u32(code) {
        Some(c) => {
            proof {
                lemma_char(c);
            }
            c
        },
        None => '\u{FFFD}',
    }
}

/// Reading two pieces one after the other is reading them together, unless
/// they meet inside a surrogate pair.
proof fn lemma_units_text_concatenation(a: Seq<u16>, b: Seq<u16>, i: int)
    requires
        0 <= i <= a.len(),
        a.len() > 0 ==> !is_high(a.last()),
    ensures
        units_text(a + b, i) == units_text(a, i) + units_text(b, 0),
    decreases a.len() - i,
{
    let s = a + b;
    if i == a.len() {
        lemma_units_text_shift(a, b, 0);
        assert(units_text(a, i) + units_text(b, 0) =~= units_text(b, 0));
    } else if is_high(a[i]) && i + 1 < s.len() && is_low(s[i + 1]) {
        assert(i + 1 < a.len());
        lemma_units_text_concatenation(a, b, i + 2);
        assert(units_text(s, i) =~= units_text(a, i) + units_text(b, 0));
    } else {
        lemma_units_text_concatenation(a, b, i + 1);
        assert(units_text(s, i) =~= units_text(a, i) + units_text(b, 0));
    }
}

/// What stands before does not change what is read from a place on.
proof fn lemma_units_text_shift(a: Seq<u16>, b: Seq<u16>, i: int)
    requires
        0 <= i <= b.len(),
    ensures
        units_text(a + b, a.len() + i) == units_text(b, i),
    decreases b.len() - i,
{
    if i < b.len() {
        if is_high(b[i]) && i + 1 < b.len() && is_low(b[i + 1]) {
            lemma_units_text_shift(a, b, i + 2);
        } else {
            lemma_units_text_shift(a, b, i + 1);
        }
        assert(units_text(a + b, a.len() + i) =~= units_text(b, i));
    }
}

/// The code units of a string read back as the string, and do not end inside a pair.
proof fn lemma_units_read_back(s: Seq<char>)
    ensures
        units_text(codes_units(char_codes(s)), 0) == s,
        s.len() > 0 ==> codes_units(char_codes(s)).len() > 0 && !is_high(
            codes_units(char_codes(s)).last(),
        ),
    decreases s.len(),
{
    if s.len() > 0 {
        let c = s.last();
        lemma_char(c);
        let init = s.drop_last();
        lemma_units_read_back(init);
        assert(char_codes(s).drop_last() =~= char_codes(init));
        let piece = scalar_units(utf16_scalar(c as u32));
        assert(utf16_scalar(c as u32) == c as u32);
        reveal_with_fuel(units_text, 3);
        assert(units_text(piece, 0) =~= seq![c]);
        if init.len() == 0 {
            assert(char_codes(init) =~= Seq::<u32>::empty());
            assert(codes_units(char_codes(s)) =~= piece);
        }
        lemma_units_text_concatenation(codes_units(char_codes(init)), piece, 0);
        assert(s =~= init + seq![c]);
    } else {
        assert(char_codes(s) =~= Seq::<u32>::empty());
        assert(units_text(codes_units(char_codes(s)), 0) =~= s);
    }
}

/// The bytes of a sequence of code units: their number, and where each unit stands.
proof fn lemma_units_bytes_read(endian: Utf16Endian, units: Seq<u16>, k: int)
    requires
        0 <= k < units.len(),
    ensures
        units_bytes(endian, units).len() == 2 * units.len(),
        unit_at(units_bytes(endian, units), 2 * k, endian) == units[k],
    decreases units.len(),
{
    let init = units.drop_last();
    lemma_units_bytes_len(endian, units);
    lemma_units_bytes_len(endian, init);
    if k < init.len() {
        lemma_units_bytes_read(endian, init, k);
    }
}

/// The number of bytes of a sequence of code units.
proof fn lemma_units_bytes_len(endian: Utf16Endian, units: Seq<u16>)
    ensures
        units_bytes(endian, units).len() == 2 * units.len(),
    decreases units.len(),
{
    if units.len() > 0 {
        lemma_units_bytes_len(endian, units.drop_last());
    }
}

/// What is written with a byte order mark reads back as the same text, in
/// whichever byte order the reader would have chosen without one.
pub proof fn law_utf16_signature_round_trip(
    s: Seq<char>,
    endian: Utf16Endian,
    default_endian: Utf16Endian,
)
    ensures
        utf16_text(utf16_bytes(char_codes(s), endian, true), default_endian) == s,
{
    let units = bom_units(true) + codes_units(char_codes(s));
    let bytes = units_bytes(endian, units);
    lemma_units_bytes_read(endian, units, 0);
    assert(units[0] == 0xFEFF);
    assert(bytes[0] as int * 256 + bytes[1] == 0xFEFF || bytes[1] as int * 256 + bytes[0]
        == 0xFEFF);
    assert(detected(bytes, default_endian) == (endian, 2int));
    let body = body_units(bytes, 2, endian);
    assert forall|k: int| 0 <= k < body.len() implies body[k] == codes_units(char_codes(s))[k] by {
        lemma_units_bytes_read(endian, units, k + 1);
        assert(units[k + 1] == codes_units(char_codes(s))[k]);
    }
    assert(body =~= codes_units(char_codes(s)));
    lemma_units_read_back(s);
}

/// What is written without a byte order mark reads back as the same text in the
/// same byte order, where its first bytes are no byte order mark.
pub proof fn law_utf16_plain_round_trip(s: Seq<char>, endian: Utf16Endian)
    requires
        s.len() > 0 ==> s[0] != '\u{FEFF}' && s[0] != '\u{FFFE}',
    ensures
        utf16_text(utf16_bytes(char_codes(s), endian, false), endian) == s,
{
    let units = codes_units(char_codes(s));
    assert(bom_units(false) + units =~= units);
    let bytes = units_bytes(endian, units);
    lemma_units_bytes_len(endian, units);
    if s.len() > 0 {
        lemma_first_unit(s);
        lemma_units_read_back(s);
        lemma_units_bytes_read(endian, units, 0);
        lemma_char(s[0]);
    }
    assert(detected(bytes, endian) == (endian, 0int));
    let body = body_units(bytes, 0, endian);
    assert forall|k: int| 0 <= k < body.len() implies body[k] == units[k] by {
        lemma_units_bytes_read(endian, units, k);
    }
    assert(body =~= units);
    lemma_units_read_back(s);
}

/// The first code unit of a string belongs to its first character.
proof fn lemma_first_unit(s: Seq<char>)
    requires
        s.len() > 0,
    ensures
        codes_units(char_codes(s)).len() > 0,
        codes_units(char_codes(s))[0] == scalar_units(utf16_scalar(s[0] as u32))[0],
    decreases s.len(),
{
    assert(char_codes(s).drop_last() =~= char_codes(s.drop_last()));
    if s.len() > 1 {
        lemma_first_unit(s.drop_last());
        assert(s.drop_last()[0] == s[0]);
    } else {
        assert(char_codes(s.drop_last()) =~= Seq::<u32>::empty());
        assert(codes_units(char_codes(s.drop_last())) =~= Seq::<u16>::empty());
        assert(char_codes(s).last() == char_codes(s)[0]);
        assert(codes_units(char_codes(s)) =~= scalar_units(utf16_scalar(s[0] as u32)));
    }
}

} // verus!
