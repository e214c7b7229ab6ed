//! Character classification and display width.
use crate::encoding::tables::{
    ascending_from, lemma_ascending, lemma_wide_ranges_ascending,
    lemma_zero_width_ranges_ascending, GNU_DEFAULT_WIDE_RANGES, ZERO_WIDTH_RANGES,
};
use crate::storage::{UNIBYTE_BYTE_SENTINEL_MAX, UNIBYTE_BYTE_SENTINEL_MIN};
use crate::text::{chars_of, code_of};
use vstd::prelude::*;

verus! {

/// Whether some range holds the code point.
pub open spec fn in_ranges(cp: u32, ranges: Seq<(u32, u32)>) -> bool {
    exists|i: int| 0 <= i < ranges.len() && #[trigger] ranges[i].0 <= cp <= ranges[i].1
}

/// Whether some range of an ascending table holds the code point, by binary search.
pub fn codepoint_in_sorted_ranges(cp: u32, ranges: &[(u32, u32)]) -> (r: bool)
    requires
        ascending_from(ranges@, 0),
    ensures
        r == in_ranges(cp, ranges@),
{
    let mut low: usize = 0;
    let mut high: usize = ranges.len();
    while low < high
        invariant
            low <= high <= ranges@.len(),
            ascending_from(ranges@, 0),
            forall|i: int| 0 <= i < low ==> #[trigger] ranges@[i].1 < cp,
            forall|i: int| high <= i < ranges@.len() ==> cp < #[trigger] ranges@[i].0,
        decreases high - low,
    {
        let mid: usize = low + (high - low) / 2;
        let (start, end) = ranges[mid];
        if cp < start {
            proof {
                assert forall|i: int| mid <= i < ranges@.len() implies cp
                    < #[trigger] ranges@[i].0 by {
                    if mid < i {
                        lemma_ascending(ranges@, 0, mid as int, i);
                    }
                }
            }
            high = mid;
        } else if cp > end {
            proof {
                assert forall|i: int| 0 <= i <= mid implies #[trigger] ranges@[i].1 < cp by {
                    if i < mid {
                        lemma_ascending(ranges@, 0, i, mid as int);
                    }
                }
            }
            low = mid + 1;
        } else {
            proof {
                assert(ranges@[mid as int].0 <= cp <= ranges@[mid as int].1);
            }
            return true;
        }
    }
    false
}

/// Whether the character takes no column.
pub open spec fn zero_width(cp: u32) -> bool {
    in_ranges(cp, ZERO_WIDTH_RANGES@)
}

/// Whether the character takes two columns.
pub open spec fn wide(cp: u32) -> bool {
    in_ranges(cp, GNU_DEFAULT_WIDE_RANGES@)
}

/// Whether the code point is one of the C1 control characters.
pub open spec fn is_c1_control(cp: u32) -> bool {
    0x80 <= cp <= 0x9f
}

/// How many columns a character takes.
pub open spec fn width_of(c: char) -> nat {
    let cp = c as u32;
    if cp == 0x09 {
        8
    } else if cp == 0x0a {
        0
    } else if cp < 0x20 || cp == 0x7f {
        2
    } else if is_c1_control(cp) {
        4
    } else if cp < 0x80 {
        1
    } else if zero_width(cp) {
        0
    } else if wide(cp) {
        2
    } else {
        1
    }
}

/// Whether the character is zero-width (a combining mark and the like).
pub fn is_zero_width(c: char) -> (r: bool)
    ensures
        r == zero_width(c as u32),
{
    proof {
        lemma_zero_width_ranges_ascending();
    }
    let table: &[(u32, u32)] = &ZERO_WIDTH_RANGES;
    codepoint_in_sorted_ranges(code_of(c), table)
}

/// Whether the character is full-width (East Asian wide).
pub fn is_wide_char(c: char) -> (r: bool)
    ensures
        r == wide(c as u32),
{
    proof {
        lemma_wide_ranges_ascending();
    }
    let table: &[(u32, u32)] = &GNU_DEFAULT_WIDE_RANGES;
    codepoint_in_sorted_ranges(code_of(c), table)
}

/// Character width for display purposes (East Asian width).
pub fn char_width(c: char) -> (r: usize)
    ensures
        r == width_of(c),
{
    let cp: u32 = code_of(c);
    if cp == 0x09 {
        return 8;
    }
    if cp == 0x0a {
        return 0;
    }
    if cp < 0x20 || cp == 0x7f {
        return 2;
    }
    if 0x80 <= cp && cp <= 0x9f {
        return 4;
    }
    if cp < 0x80 {
        return 1;
    }
    if is_zero_width(c) {
        return 0;
    }
    if is_wide_char(c) {
        return 2;
    }
    1
}

/// How many columns a string takes: the sum over its characters.
pub open spec fn width_sum(s: Seq<char>) -> nat
    decreases s.len(),
{
    if s.len() == 0 {
        0
    } else {
        width_sum(s.drop_last()) + width_of(s.last())
    }
}

/// A prefix takes no more columns than the whole string.
proof fn lemma_width_prefix(s: Seq<char>, n: int)
    requires
        0 <= n <= s.len(),
    ensures
        width_sum(s.take(n)) <= width_sum(s),
    decreases s.len(),
{
    if n == s.len() {
        assert(s.take(n) =~= s);
    } else {
        lemma_width_prefix(s.drop_last(), n);
        assert(s.drop_last().take(n) =~= s.take(n));
    }
}

/// String display width (sum of character widths).
pub fn string_width(s: &str) -> (r: usize)
    requires
        width_sum(s@) <= usize::MAX,
    ensures
        r == width_sum(s@),
{
    let chars: Vec<char> = chars_of(s);
    let mut total: usize = 0;
    let mut i: usize = 0;
    while i < chars.len()
        invariant
            i <= chars.len(),
            chars@ == s@,
            total == width_sum(chars@.take(i as int)),
            width_sum(s@) <= usize::MAX,
        decreases chars.len() - i,
    {
        proof {
            lemma_width_prefix(chars@, i + 1);
            assert(chars@.take(i + 1).drop_last() =~= chars@.take(i as int));
        }
        total = total + char_width(chars[i]);
        i = i + 1;
    }
    proof {
        assert(chars@.take(i as int) =~= s@);
    }
    total
}

/// The width of two strings put together is the sum of their widths.
pub proof fn law_width_of_concatenation(a: Seq<char>, b: Seq<char>)
    ensures
        width_sum(a + b) == width_sum(a) + width_sum(b),
    decreases b.len(),
{
    if b.len() == 0 {
        assert(a + b =~= a);
    } else {
        assert((a + b).drop_last() =~= a + b.drop_last());
        law_width_of_concatenation(a, b.drop_last());
    }
}

/// A printable ASCII string takes one column for each of its characters.
pub proof fn law_width_of_printable_ascii(s: Seq<char>)
    requires
        forall|i: int| 0 <= i < s.len() ==> 0x20 <= #[trigger] s[i] as u32 <= 0x7e,
    ensures
        width_sum(s) == s.len(),
    decreases s.len(),
{
    if s.len() > 0 {
        assert(0x20 <= s[s.len() - 1] as u32 <= 0x7e);
        law_width_of_printable_ascii(s.drop_last());
    }
}

/// Whether a character is printable (not a control character).
pub fn is_printable(c: char) -> (r: bool)
    ensures
        r == (c as u32 >= 0x20 && c as u32 != 0x7f && !is_c1_control(c as u32)),
{
    let cp: u32 = code_of(c);
    cp >= 0x20 && cp != 0x7f && !(0x80 <= cp && cp <= 0x9f)
}

/// Whether a character is a whitespace character.
pub fn is_whitespace(c: char) -> (r: bool)
    ensures
        r == (c == ' ' || c == '\t' || c == '\n' || c == '\r' || c == '\x0b' || c == '\x0c'),
{
    c == ' ' || c == '\t' || c == '\n' || c == '\r' || c == '\x0b' || c == '\x0c'
}

/// What `char::is_alphanumeric` answers: whether the character is alphabetic or
/// numeric in the sense of Unicode.
pub uninterp spec fn unicode_alphanumeric(c: char) -> bool;

/// Calls `char::is_alphanumeric`.
#[verifier::external_body]
fn is_alphanumeric(c: char) -> (r: bool)
    ensures
        r == unicode_alphanumeric(c),
{
    c.is_alphanumeric()
}

/// Whether a character is a word constituent, given whether it is alphanumeric.
pub fn is_word_constituent(c: char, alphanumeric: bool) -> (r: bool)
    ensures
        r == (alphanumeric || c == '_'),
{
    alphanumeric || c == '_'
}

/// Whether a character is a word constituent (alphanumeric or underscore).
pub fn is_word_char(c: char) -> (r: bool)
    ensures
        r == (unicode_alphanumeric(c) || c == '_'),
{
    is_word_constituent(c, is_alphanumeric(c))
}

/// Whether every character is ASCII.
pub open spec fn all_ascii(s: Seq<char>) -> bool {
    forall|i: int| 0 <= i < s.len() ==> #[trigger] (s[i] as u32) < 128
}

/// Whether a string is all ASCII.
pub fn is_ascii_string(s: &str) -> (r: bool)
    ensures
        r == all_ascii(s@),
{
    let chars: Vec<char> = chars_of(s);
    let mut i: usize = 0;
    while i < chars.len()
        invariant
            i <= chars.len(),
            chars@ == s@,
            all_ascii(chars@.take(i as int)),
        decreases chars.len() - i,
    {
        if code_of(chars[i]) >= 128 {
            proof {
                assert(!((s@[i as int] as u32) < 128));
            }
            return false;
        }
        proof {
            assert forall|j: int| 0 <= j < i + 1 implies #[trigger] (chars@.take(i + 1)[j] as u32)
                < 128 by {
                if j < i {
                    assert((chars@.take(i as int)[j] as u32) < 128);
                }
            }
        }
        i = i + 1;
    }
    proof {
        assert(chars@.take(i as int) =~= s@);
    }
    true
}

/// Whether the character is neither ASCII nor a stored byte of a unibyte string.
pub open spec fn makes_multibyte(c: char) -> bool {
    c as u32 > 0x7f && !(UNIBYTE_BYTE_SENTINEL_MIN <= c as u32 <= UNIBYTE_BYTE_SENTINEL_MAX)
}

/// Whether a string is multibyte: whether it holds a character that is neither
/// ASCII nor a stored byte of a unibyte string.
pub fn is_multibyte_string(s: &str) -> (r: bool)
    ensures
        r == exists|i: int| 0 <= i < s@.len() && makes_multibyte(#[trigger] s@[i]),
{
    let chars: Vec<char> = chars_of(s);
    let mut i: usize = 0;
    while i < chars.len()
        invariant
            i <= chars.len(),
            chars@ == s@,
            forall|j: int| 0 <= j < i ==> !makes_multibyte(#[trigger] s@[j]),
        decreases chars.len() - i,
    {
        let cp: u32 = code_of(chars[i]);
        if cp > 0x7f && !(UNIBYTE_BYTE_SENTINEL_MIN <= cp && cp <= UNIBYTE_BYTE_SENTINEL_MAX) {
            proof {
                assert(makes_multibyte(s@[i as int]));
            }
            return true;
        }
        i = i + 1;
    }
    false
}

/// A string that is all ASCII is not multibyte.
pub proof fn law_ascii_is_not_multibyte(s: Seq<char>)
    requires
        all_ascii(s),
    ensures
        !(exists|i: int| 0 <= i < s.len() && makes_multibyte(#[trigger] s[i])),
{
    assert forall|i: int| 0 <= i < s.len() implies !makes_multibyte(#[trigger] s[i]) by {
        assert((s[i] as u32) < 128);
    }
}

} // verus!
