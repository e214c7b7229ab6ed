//! What decoding gives back of an encoded Lisp string.
use crate::emacs_char::char_bytes;
use crate::encoding::builtins::{charset_of, decoded_string, encoded_string};
use crate::encoding::convert::{encoded, lisp_string_encoded};
use crate::encoding::eol::{eol_of, EolType};
use crate::encoding::family::{byte_preserving, family_of};
use crate::encoding::laws::{holds_raw_byte, law_utf8_round_trip};
use crate::encoding::utf16::utf16_variant;
use crate::encoding::utf8_emacs::{
    sentinel_byte, stored_char_bytes, utf8_code_bytes, utf8_emacs_bytes,
};
use crate::lisp_string::LispText;
use crate::storage::{
    codes_bytes, storage_text, stored_at, stored_codes, unibyte_storage, EXTENDED_PREFIX,
};
use crate::text::lemma_char;
use crate::value::Lisp;
use vstd::prelude::*;

verus! {

/// The stored form of bytes is read back as the bytes.
proof fn lemma_unibyte_source(b: Seq<u8>)
    ensures
        utf8_emacs_bytes(unibyte_storage(b)) == b,
    decreases b.len(),
{
    let s = unibyte_storage(b);
    if b.len() > 0 {
        lemma_unibyte_source(b.drop_last());
        assert(s.drop_last() =~= unibyte_storage(b.drop_last()));
        let x = b.last();
        lemma_char(s.last());
        if x < 0x80 {
            assert(stored_char_bytes(s.last()) =~= seq![x]);
        } else {
            assert(s.last() as u32 == 0xE300 + x);
            assert(stored_char_bytes(s.last()) =~= seq![x]);
        }
        assert(utf8_emacs_bytes(s) =~= b);
    } else {
        assert(utf8_emacs_bytes(s) =~= b);
    }
}

/// A unibyte string is read back whole where the coding system keeps bytes and
/// line endings.
pub proof fn law_bytes_are_kept(b: Seq<u8>, coding: Seq<char>)
    requires
        byte_preserving(coding),
        utf16_variant(coding) is None,
        eol_of(coding) == EolType::Unix,
    ensures
        encoded_string(LispText { bytes: b, multibyte: false }, coding) == Lisp::Str(
            LispText { bytes: b, multibyte: false },
            Box::new(Lisp::Nil),
        ),
        decoded_string(LispText { bytes: b, multibyte: false }, coding) == Lisp::Str(
            LispText { bytes: b, multibyte: false },
            Box::new(Lisp::Nil),
        ),
{
    lemma_unibyte_source(b);
}

/// Whether a storage string holds Unicode text alone: nothing that stands for a
/// raw byte or for a character beyond Unicode.
pub open spec fn is_unicode(t: Seq<char>) -> bool {
    !holds_raw_byte(t) && !t.contains(EXTENDED_PREFIX)
}

proof fn lemma_unicode_codes(t: Seq<char>, i: int)
    requires
        is_unicode(t),
        0 <= i <= t.len(),
    ensures
        stored_codes(t, i, true) == Seq::new((t.len() - i) as nat, |j: int| t[i + j] as u32),
    decreases t.len() - i,
{
    if i < t.len() {
        lemma_char(t[i]);
        assert(sentinel_byte(t[i]) is None);
        assert(t.contains(t[i]));
        assert(stored_at(t, i, true) == (t[i] as u32, 1int));
        lemma_unicode_codes(t, i + 1);
    }
    assert(stored_codes(t, i, true) =~= Seq::new(
        (t.len() - i) as nat,
        |j: int| t[i + j] as u32,
    ));
}

proof fn lemma_internal_form(t: Seq<char>)
    requires
        !holds_raw_byte(t),
    ensures
        codes_bytes(Seq::new(t.len(), |j: int| t[j] as u32)) == utf8_emacs_bytes(t),
    decreases t.len(),
{
    let codes = Seq::new(t.len(), |j: int| t[j] as u32);
    if t.len() > 0 {
        let r = t.drop_last();
        assert(!holds_raw_byte(r)) by {
            if holds_raw_byte(r) {
                let i = choose|i: int| 0 <= i < r.len() && sentinel_byte(#[trigger] r[i]) is Some;
                assert(sentinel_byte(t[i]) is Some);
            }
        }
        lemma_internal_form(r);
        assert(codes.drop_last() =~= Seq::new(r.len(), |j: int| r[j] as u32));
        lemma_char(t.last());
        assert(sentinel_byte(t[t.len() - 1]) is None);
        let c = t.last() as u32;
        assert(char_bytes(c) =~= utf8_code_bytes(c));
    }
}

/// A multibyte string of Unicode text is read back whole from UTF-8, where its line
/// endings can be told apart from what they are written as.
pub proof fn law_utf8_string_round_trip(t: Seq<char>, coding: Seq<char>)
    requires
        is_unicode(t),
        utf16_variant(coding) is None,
        !byte_preserving(coding),
        family_of(coding) == "utf-8"@ || family_of(coding) == "utf-8-emacs"@,
        eol_of(coding) == EolType::Mac ==> !t.contains('\r'),
    ensures
        encoded_string(storage_text(t, true), coding) matches Lisp::Str(bytes, _)
            && decoded_string(bytes, coding) == Lisp::Str(
            storage_text(t, true),
            Box::new(Lisp::Nil),
        ),
{
    lemma_unicode_codes(t, 0);
    lemma_internal_form(t);
    let codes = stored_codes(t, 0, true);
    assert(codes =~= Seq::new(t.len(), |j: int| t[j] as u32));
    let s = storage_text(t, true);
    assert(s.bytes == utf8_emacs_bytes(t));
    let b = lisp_string_encoded(s, coding);
    crate::encoding::laws::lemma_utf8_line_endings(t, eol_of(coding));
    assert(b == encoded(t, coding));
    law_utf8_round_trip(t, coding);
    lemma_unibyte_source(b);
    reveal_strlit("utf-8");
    reveal_strlit("utf-8-emacs");
    reveal_strlit("iso-latin-1");
    reveal_strlit("chinese-iso-8bit");
    reveal_strlit("chinese-big5");
    reveal_strlit("chinese-big5-hkscs");
    assert("utf-8"@.len() == 5 && "utf-8-emacs"@.len() == 11 && "iso-latin-1"@.len() == 11);
    assert("iso-latin-1"@[0] == 'i' && "utf-8-emacs"@[0] == 'u');
    assert("chinese-iso-8bit"@.len() == 16 && "chinese-big5"@.len() == 12
        && "chinese-big5-hkscs"@.len() == 18);
    assert(charset_of(family_of(coding)) is None);
}

} // verus!
