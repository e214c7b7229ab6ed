//! What reading gives back of what was written, for each kind of coding system.
use crate::encoding::convert::{
    all_ascii_bytes, ascii_bytes_text, ascii_text_bytes, decoded, encoded, is_big5_family,
    is_utf8_family, latin_bytes_text, latin_text_bytes,
};
use crate::encoding::eol::{
    dos_bytes, dos_text, eol_bytes, eol_of, eol_text, law_dos_round_trip, law_mac_round_trip,
    EolType,
};
use crate::encoding::family::{family_of, is_ascii_family, is_latin_family};
use crate::encoding::latin::{latin_byte, latin_char, law_latin_byte_round_trip};
use crate::encoding::utf16::{
    law_utf16_plain_round_trip, law_utf16_signature_round_trip, utf16_variant,
};
use crate::encoding::utf8_emacs::{
    law_utf8_emacs_round_trip, sentinel_byte, stored_char_bytes, utf8_emacs_bytes,
};
use crate::text::lemma_char;
use vstd::prelude::*;
use vstd::utf8::{
    encode_utf8, encode_utf8_decode_utf8, encode_utf8_valid_utf8, is_ascii_chars,
    is_ascii_chars_encode_utf8,
};

verus! {

/// Whether the text holds a character that stands for a raw byte.
pub open spec fn holds_raw_byte(s: Seq<char>) -> bool {
    exists|i: int| 0 <= i < s.len() && sentinel_byte(#[trigger] s[i]) is Some
}

/// The family names that the conversions tell apart are all different.
proof fn lemma_family_names()
    ensures
        forall|f: Seq<char>|
            #![trigger is_latin_family(f)]
            is_latin_family(f) ==> !is_utf8_family(f) && !is_big5_family(f) && f
                != "chinese-iso-8bit"@ && !is_ascii_family(f),
        forall|f: Seq<char>|
            #![trigger is_ascii_family(f)]
            is_ascii_family(f) ==> !is_utf8_family(f) && !is_big5_family(f) && f
                != "chinese-iso-8bit"@,
{
    reveal_strlit("latin-1");
    reveal_strlit("iso-8859-1");
    reveal_strlit("iso-latin-1");
    reveal_strlit("iso-latin-5");
    reveal_strlit("iso-latin-9");
    reveal_strlit("ascii");
    reveal_strlit("us-ascii");
    reveal_strlit("utf-8");
    reveal_strlit("utf-8-unix");
    reveal_strlit("utf-8-dos");
    reveal_strlit("utf-8-mac");
    reveal_strlit("utf-8-emacs");
    reveal_strlit("chinese-big5");
    reveal_strlit("chinese-big5-hkscs");
    reveal_strlit("chinese-iso-8bit");
    assert forall|f: Seq<char>|
        #![trigger is_latin_family(f)]
        is_latin_family(f) implies !is_utf8_family(f) && !is_big5_family(f) && f
        != "chinese-iso-8bit"@ && !is_ascii_family(f) by {
        assert(f[0] == 'l' || f[0] == 'i');
    }
    assert forall|f: Seq<char>|
        #![trigger is_ascii_family(f)]
        is_ascii_family(f) implies !is_utf8_family(f) && !is_big5_family(f) && f
        != "chinese-iso-8bit"@ by {
        assert(f[0] == 'a' || f[1] == 's');
    }
}

/// Line endings of two pieces of bytes, one after the other.
proof fn lemma_dos_bytes_concatenation(a: Seq<u8>, b: Seq<u8>)
    ensures
        dos_bytes(a + b) == dos_bytes(a) + dos_bytes(b),
    decreases b.len(),
{
    if b.len() == 0 {
        assert(a + b =~= a);
        assert(dos_bytes(a) + dos_bytes(b) =~= dos_bytes(a));
    } else {
        assert((a + b).drop_last() =~= a + b.drop_last());
        lemma_dos_bytes_concatenation(a, b.drop_last());
        assert(dos_bytes(a + b) =~= dos_bytes(a) + dos_bytes(b));
    }
}

/// Bytes without a newline have no line endings to change.
proof fn lemma_dos_bytes_without_newline(b: Seq<u8>)
    requires
        forall|i: int| 0 <= i < b.len() ==> #[trigger] b[i] != 10,
    ensures
        dos_bytes(b) == b,
    decreases b.len(),
{
    if b.len() > 0 {
        assert(b[b.len() - 1] != 10);
        lemma_dos_bytes_without_newline(b.drop_last());
        assert(b =~= b.drop_last().push(b.last()));
    }
}

/// No byte of a character other than newline is a newline, and none of a
/// character other than carriage return is a carriage return.
proof fn lemma_control_bytes(c: char, i: int)
    requires
        sentinel_byte(c) is None,
        0 <= i < stored_char_bytes(c).len(),
    ensures
        stored_char_bytes(c)[i] == 10 <==> c == '\n',
        stored_char_bytes(c)[i] == 13 <==> c == '\r',
{
    lemma_char(c);
}

/// The line endings can be written before or after the text is made into UTF-8.
pub proof fn lemma_utf8_line_endings(s: Seq<char>, eol: EolType)
    requires
        !holds_raw_byte(s),
    ensures
        utf8_emacs_bytes(eol_text(s, eol)) == eol_bytes(utf8_emacs_bytes(s), eol),
        !s.contains('\r') ==> !utf8_emacs_bytes(s).contains(13),
    decreases s.len(),
{
    if s.len() == 0 {
        assert(eol_text(s, eol) =~= s);
        assert(eol_bytes(utf8_emacs_bytes(s), eol) =~= utf8_emacs_bytes(s));
    } else {
        let init = s.drop_last();
        let c = s.last();
        assert(sentinel_byte(s[s.len() - 1]) is None);
        assert forall|i: int| 0 <= i < init.len() implies sentinel_byte(#[trigger] init[i]) is None by {
            assert(init[i] == s[i]);
        }
        lemma_utf8_line_endings(init, eol);
        let b = stored_char_bytes(c);
        let done = utf8_emacs_bytes(init);
        assert forall|i: int| 0 <= i < b.len() implies (#[trigger] b[i] == 10 <==> c == '\n') && (
        b[i] == 13 <==> c == '\r') by {
            lemma_control_bytes(c, i);
        }
        lemma_char(c);
        if !s.contains('\r') {
            assert(c != '\r') by {
                assert(s[s.len() - 1] == c);
            }
            assert forall|k: int| 0 <= k < init.len() implies init[k] != '\r' by {
                assert(init[k] == s[k]);
            }
            assert(!init.contains('\r'));
            assert forall|k: int| 0 <= k < (done + b).len() implies (done + b)[k] != 13 by {
                if k < done.len() {
                    assert(done.contains(done[k]));
                }
            }
        }
        match eol {
            EolType::Dos => {
                lemma_dos_bytes_concatenation(done, b);
                if c == '\n' {
                    let t = dos_text(init);
                    assert(t.push('\r').push('\n') =~= t + seq!['\r', '\n']);
                    assert(t.push('\r').push('\n').drop_last() =~= t.push('\r'));
                    assert(t.push('\r').drop_last() =~= t);
                    assert(sentinel_byte('\r') is None && sentinel_byte('\n') is None);
                    assert(b =~= seq![10u8]);
                    assert(stored_char_bytes('\r') =~= seq![13u8]);
                    assert(b.drop_last() =~= Seq::<u8>::empty());
                    assert(dos_bytes(b.drop_last()) =~= Seq::<u8>::empty());
                    assert(dos_bytes(b) =~= seq![13u8, 10u8]);
                    assert(t.push('\r').last() == '\r');
                    assert(utf8_emacs_bytes(t.push('\r')) == utf8_emacs_bytes(t)
                        + stored_char_bytes('\r'));
                    assert(t.push('\r').push('\n').last() == '\n');
                    assert(utf8_emacs_bytes(t.push('\r').push('\n')) == utf8_emacs_bytes(
                        t.push('\r'),
                    ) + b);
                    assert(utf8_emacs_bytes(eol_text(s, eol)) =~= dos_bytes(done) + dos_bytes(b));
                } else {
                    lemma_dos_bytes_without_newline(b);
                    assert(dos_text(init).push(c).drop_last() =~= dos_text(init));
                    assert(utf8_emacs_bytes(eol_text(s, eol)) =~= dos_bytes(done) + b);
                }
            },
            EolType::Mac => {
                let t = eol_text(s, eol);
                assert(t.drop_last() =~= eol_text(init, eol));
                assert(sentinel_byte('\r') is None);
                assert(stored_char_bytes('\r') =~= seq![13u8]);
                if c == '\n' {
                    assert(b =~= seq![10u8]);
                    assert(t.last() == '\r');
                } else {
                    assert(t.last() == c);
                }
                assert(utf8_emacs_bytes(t) =~= eol_bytes(done + b, eol));
            },
            EolType::Unix => {},
        }
    }
}

/// In UTF-8, whatever the line endings, text that holds no raw byte reads back
/// as it was written; with `-mac` line endings, where it holds no carriage return.
pub proof fn law_utf8_round_trip(s: Seq<char>, coding: Seq<char>)
    requires
        utf16_variant(coding) is None,
        family_of(coding) == "utf-8"@ || family_of(coding) == "utf-8-emacs"@,
        !holds_raw_byte(s),
        eol_of(coding) == EolType::Mac ==> !s.contains('\r'),
    ensures
        decoded(encoded(s, coding), coding) == s,
{
    let eol = eol_of(coding);
    lemma_utf8_line_endings(s, eol);
    match eol {
        EolType::Dos => {
            law_dos_round_trip(utf8_emacs_bytes(s));
        },
        EolType::Mac => {
            law_mac_round_trip(utf8_emacs_bytes(s));
        },
        EolType::Unix => {},
    }
    law_utf8_emacs_round_trip(s);
}

/// In a single-byte Latin coding system with unchanged line endings, all bytes
/// are written as they were read.
pub proof fn law_latin_bytes_round_trip(b: Seq<u8>, coding: Seq<char>)
    requires
        utf16_variant(coding) is None,
        is_latin_family(family_of(coding)),
        eol_of(coding) == EolType::Unix,
    ensures
        encoded(decoded(b, coding), coding) == b,
{
    lemma_family_names();
    let f = family_of(coding);
    let t = latin_bytes_text(f, b);
    assert forall|i: int| 0 <= i < b.len() implies latin_text_bytes(f, t)[i] == b[i] by {
        law_latin_byte_round_trip(f, b[i]);
    }
    assert(latin_text_bytes(f, t) =~= b);
}

/// In a single-byte Latin coding system with unchanged line endings, text reads
/// back as it was written where each of its characters is the one that its byte stands for.
pub proof fn law_latin_text_round_trip(s: Seq<char>, coding: Seq<char>)
    requires
        utf16_variant(coding) is None,
        is_latin_family(family_of(coding)),
        eol_of(coding) == EolType::Unix,
        forall|i: int|
            0 <= i < s.len() ==> (latin_byte(family_of(coding), #[trigger] s[i] as u32) matches Some(
                b,
            ) && latin_char(family_of(coding), b) == Some(s[i])),
    ensures
        decoded(encoded(s, coding), coding) == s,
{
    lemma_family_names();
    let f = family_of(coding);
    let b = latin_text_bytes(f, s);
    assert(latin_bytes_text(f, b) =~= s);
}

/// In ASCII with unchanged line endings, ASCII text reads back as it was written.
pub proof fn law_ascii_round_trip(s: Seq<char>, coding: Seq<char>)
    requires
        utf16_variant(coding) is None,
        is_ascii_family(family_of(coding)),
        eol_of(coding) == EolType::Unix,
        forall|i: int| 0 <= i < s.len() ==> (#[trigger] s[i] as u32) < 0x80,
    ensures
        decoded(encoded(s, coding), coding) == s,
{
    lemma_family_names();
    let b = ascii_text_bytes(s);
    assert forall|i: int| 0 <= i < s.len() implies ascii_bytes_text(b)[i] == s[i] by {
        lemma_char(s[i]);
        assert((s[i] as u32) < 0x80);
    }
    assert(is_ascii_family(family_of(coding)) && !is_latin_family(family_of(coding)));
    assert(ascii_bytes_text(b) =~= s);
}

/// In UTF-16 with unchanged line endings, text reads back as it was written; in
/// a coding system without a byte order mark, where its first character is no mark.
pub proof fn law_utf16_round_trip(s: Seq<char>, coding: Seq<char>)
    requires
        utf16_variant(coding) is Some,
        eol_of(coding) == EolType::Unix,
        s.len() > 0 && !(utf16_variant(coding)->Some_0).1 ==> s[0] != '\u{FEFF}' && s[0]
            != '\u{FFFE}',
    ensures
        decoded(encoded(s, coding), coding) == s,
{
    let (endian, bom) = utf16_variant(coding)->Some_0;
    if bom {
        law_utf16_signature_round_trip(s, endian, endian);
    } else {
        law_utf16_plain_round_trip(s, endian);
    }
}

/// In a coding system without a conversion of its own, with unchanged line
/// endings, every text reads back as it was written.
pub proof fn law_plain_utf8_round_trip(s: Seq<char>, coding: Seq<char>)
    requires
        utf16_variant(coding) is None,
        !is_utf8_family(family_of(coding)),
        !is_big5_family(family_of(coding)),
        family_of(coding) != "chinese-iso-8bit"@,
        !is_latin_family(family_of(coding)),
        !is_ascii_family(family_of(coding)),
        eol_of(coding) == EolType::Unix,
    ensures
        decoded(encoded(s, coding), coding) == s,
{
    encode_utf8_valid_utf8(s);
    encode_utf8_decode_utf8(s);
}

/// In the Chinese coding systems with unchanged line endings, ASCII text reads
/// back as it was written.
pub proof fn law_chinese_ascii_round_trip(s: Seq<char>, coding: Seq<char>)
    requires
        utf16_variant(coding) is None,
        is_big5_family(family_of(coding)) || family_of(coding) == "chinese-iso-8bit"@,
        is_ascii_chars(s),
        eol_of(coding) == EolType::Unix,
    ensures
        decoded(encoded(s, coding), coding) == s,
{
    reveal_strlit("utf-8");
    reveal_strlit("utf-8-unix");
    reveal_strlit("utf-8-dos");
    reveal_strlit("utf-8-mac");
    reveal_strlit("utf-8-emacs");
    reveal_strlit("chinese-big5");
    reveal_strlit("chinese-big5-hkscs");
    reveal_strlit("chinese-iso-8bit");
    assert(family_of(coding)[0] == 'c');
    let b = encode_utf8(s);
    is_ascii_chars_encode_utf8(s);
    assert(all_ascii_bytes(b)) by {
        assert forall|i: int| 0 <= i < b.len() implies #[trigger] b[i] < 0x80 by {
            lemma_char(s[i]);
            assert(b[i] == s[i] as u8);
        }
    }
    encode_utf8_decode_utf8(s);
}

} // verus!
