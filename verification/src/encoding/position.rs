//! Character and byte positions in a UTF-8 string.
use crate::text::{chars_of, code_of, lemma_char};
use vstd::prelude::*;
use vstd::utf8::{encode_scalar, encode_utf8};

verus! {

/// The number of bytes that the first `n` characters take.
pub open spec fn byte_offset(s: Seq<char>, n: int) -> nat {
    encode_utf8(s.take(n)).len()
}

/// The bytes of a string with one more character.
proof fn lemma_encode_push(s: Seq<char>, c: char)
    ensures
        encode_utf8(s.push(c)) == encode_utf8(s) + encode_scalar(c as u32),
    decreases s.len(),
{
    if s.len() == 0 {
        assert(s.push(c).drop_first() =~= Seq::<char>::empty());
        assert(s.push(c)[0] == c);
        reveal_with_fuel(encode_utf8, 2);
        assert(encode_utf8(s.push(c)) =~= encode_utf8(s) + encode_scalar(c as u32));
    } else {
        lemma_encode_push(s.drop_first(), c);
        assert(s.push(c).drop_first() =~= s.drop_first().push(c));
        assert(s.push(c)[0] == s[0]);
        assert(encode_utf8(s.push(c)) =~= encode_utf8(s) + encode_scalar(c as u32));
    }
}

/// One more character takes one to four more bytes.
proof fn lemma_offset_step(s: Seq<char>, n: int)
    requires
        0 <= n < s.len(),
    ensures
        byte_offset(s, n + 1) == byte_offset(s, n) + encode_scalar(s[n] as u32).len(),
        1 <= encode_scalar(s[n] as u32).len() <= 4,
{
    lemma_char(s[n]);
    assert(s.take(n + 1) =~= s.take(n).push(s[n]));
    lemma_encode_push(s.take(n), s[n]);
}

/// Later characters stand at later bytes.
proof fn lemma_offset_increases(s: Seq<char>, m: int, n: int)
    requires
        0 <= m <= n <= s.len(),
    ensures
        byte_offset(s, m) + (n - m) <= byte_offset(s, n),
    decreases n - m,
{
    if m < n {
        lemma_offset_step(s, m);
        lemma_offset_increases(s, m + 1, n);
    }
}

/// The number of bytes that a character takes in UTF-8.
pub fn utf8_len(c: char) -> (r: usize)
    ensures
        r == encode_scalar(c as u32).len(),
        1 <= r <= 4,
{
    let cp: u32 = code_of(c);
    if cp < 0x80 {
        1
    } else if cp < 0x800 {
        2
    } else if cp < 0x10000 {
        3
    } else {
        4
    }
}

/// Convert character position to byte position in a UTF-8 string; a position
/// past the end gives the end.
pub fn char_to_byte_pos(s: &str, char_pos: usize) -> (r: usize)
    ensures
        r == byte_offset(
            s@,
            if char_pos <= s@.len() {
                char_pos as int
            } else {
                s@.len() as int
            },
        ),
{
    let chars: Vec<char> = chars_of(s);
    let total: usize = s.as_bytes().len();
    let mut i: usize = 0;
    let mut pos: usize = 0;
    proof {
        assert(s@.take(s@.len() as int) =~= s@);
        assert(total == byte_offset(s@, s@.len() as int));
        assert(s@.take(0) =~= Seq::<char>::empty());
    }
    while i < chars.len() && i < char_pos
        invariant
            chars@ == s@,
            i <= chars.len(),
            i <= char_pos,
            pos == byte_offset(s@, i as int),
            total == byte_offset(s@, s@.len() as int),
        decreases chars.len() - i,
    {
        proof {
            lemma_offset_step(s@, i as int);
            lemma_offset_increases(s@, i + 1, s@.len() as int);
        }
        pos = pos + utf8_len(chars[i]);
        i = i + 1;
    }
    pos
}

/// Convert byte position to character position in a UTF-8 string; a position
/// past the end gives the end.
pub fn byte_to_char_pos(s: &str, byte_pos: usize) -> (r: usize)
    requires
        byte_pos <= encode_utf8(s@).len() ==> exists|k: int|
            0 <= k <= s@.len() && #[trigger] byte_offset(s@, k) == byte_pos,
    ensures
        r <= s@.len(),
        byte_offset(s@, r as int) == (if byte_pos <= encode_utf8(s@).len() {
            byte_pos as nat
        } else {
            encode_utf8(s@).len()
        }),
{
    let chars: Vec<char> = chars_of(s);
    let total: usize = s.as_bytes().len();
    let goal: usize = if byte_pos <= total {
        byte_pos
    } else {
        total
    };
    let mut i: usize = 0;
    let mut pos: usize = 0;
    proof {
        assert(s@.take(s@.len() as int) =~= s@);
        assert(s@.take(0) =~= Seq::<char>::empty());
        assert(byte_offset(s@, s@.len() as int) == total);
    }
    let ghost k0 = choose|k: int| 0 <= k <= s@.len() && #[trigger] byte_offset(s@, k) == goal;
    while pos < goal
        invariant
            chars@ == s@,
            i <= chars.len(),
            pos == byte_offset(s@, i as int),
            pos <= goal <= total,
            total == byte_offset(s@, s@.len() as int),
            0 <= k0 <= s@.len(),
            byte_offset(s@, k0) == goal,
        decreases chars.len() - i,
    {
        proof {
            if k0 <= i {
                lemma_offset_increases(s@, k0, i as int);
            }
            lemma_offset_step(s@, i as int);
            lemma_offset_increases(s@, i + 1, k0);
        }
        pos = pos + utf8_len(chars[i]);
        i = i + 1;
    }
    i
}

/// The byte position of a character converts back to the position of the
/// character: no other character position has it.
pub proof fn law_positions_convert_back(s: Seq<char>, m: int, n: int)
    requires
        0 <= m <= s.len(),
        0 <= n <= s.len(),
        byte_offset(s, m) == byte_offset(s, n),
    ensures
        m == n,
{
    if m < n {
        lemma_offset_increases(s, m, n);
    } else if n < m {
        lemma_offset_increases(s, n, m);
    }
}

} // verus!
