//! Line endings: what the `-dos` and `-mac` endings of a coding system's name ask for.
use crate::text::{copy_bytes, ends_with, has_suffix};
use vstd::prelude::*;

verus! {

/// The line endings that a coding system writes.
#[derive(Debug, Clone, Copy, PartialEq, Eq, Structural)]
pub enum EolType {
    Unix,
    Dos,
    Mac,
}

/// The line endings that a coding system's name asks for.
pub open spec fn eol_of(coding: Seq<char>) -> EolType {
    if has_suffix(coding, "-dos"@) {
        EolType::Dos
    } else if has_suffix(coding, "-mac"@) {
        EolType::Mac
    } else {
        EolType::Unix
    }
}

/// The line endings that a coding system's name asks for.
pub fn eol_type(coding_system: &str) -> (r: EolType)
    ensures
        r == eol_of(coding_system@),
{
    if ends_with(coding_system, "-dos") {
        EolType::Dos
    } else if ends_with(coding_system, "-mac") {
        EolType::Mac
    } else {
        EolType::Unix
    }
}

/// Each newline with a carriage return before it.
pub open spec fn dos_text(s: Seq<char>) -> Seq<char>
    decreases s.len(),
{
    if s.len() == 0 {
        s
    } else if s.last() == '\n' {
        dos_text(s.drop_last()) + seq!['\r', '\n']
    } else {
        dos_text(s.drop_last()).push(s.last())
    }
}

/// Text with the line endings of a coding system.
pub open spec fn eol_text(s: Seq<char>, eol: EolType) -> Seq<char> {
    match eol {
        EolType::Dos => dos_text(s),
        EolType::Mac => Seq::new(
            s.len(),
            |i: int|
                if s[i] == '\n' {
                    '\r'
                } else {
                    s[i]
                },
        ),
        EolType::Unix => s,
    }
}

/// Text with the line endings of a coding system.
pub fn encode_eol_text(s: &[char], coding_system: &str) -> (r: Vec<char>)
    ensures
        r@ == eol_text(s@, eol_of(coding_system@)),
{
    let eol: EolType = eol_type(coding_system);
    let mut out: Vec<char> = Vec::new();
    let mut i: usize = 0;
    while i < s.len()
        invariant
            i <= s.len(),
            out@ == eol_text(s@.take(i as int), eol),
        decreases s.len() - i,
    {
        let c: char = s[i];
        proof {
            assert(s@.take(i + 1).drop_last() =~= s@.take(i as int));
        }
        match eol {
            EolType::Dos => {
                if c == '\n' {
                    out.push('\r');
                }
                out.push(c);
            },
            EolType::Mac => {
                out.push(
                    if c == '\n' {
                        '\r'
                    } else {
                        c
                    },
                );
            },
            EolType::Unix => {
                out.push(c);
            },
        }
        proof {
            assert(out@ =~= eol_text(s@.take(i + 1), eol));
        }
        i = i + 1;
    }
    proof {
        assert(s@.take(i as int) =~= s@);
    }
    out
}

/// Each newline byte with a carriage return before it.
pub open spec fn dos_bytes(s: Seq<u8>) -> Seq<u8>
    decreases s.len(),
{
    if s.len() == 0 {
        s
    } else if s.last() == 10 {
        dos_bytes(s.drop_last()) + seq![13u8, 10u8]
    } else {
        dos_bytes(s.drop_last()).push(s.last())
    }
}

/// Bytes with the line endings of a coding system.
pub open spec fn eol_bytes(s: Seq<u8>, eol: EolType) -> Seq<u8> {
    match eol {
        EolType::Dos => dos_bytes(s),
        EolType::Mac => Seq::new(
            s.len(),
            |i: int|
                if s[i] == 10 {
                    13u8
                } else {
                    s[i]
                },
        ),
        EolType::Unix => s,
    }
}

/// Bytes with the line endings of a coding system.
pub fn encode_eol_bytes(bytes: &[u8], coding_system: &str) -> (r: Vec<u8>)
    ensures
        r@ == eol_bytes(bytes@, eol_of(coding_system@)),
{
    let eol: EolType = eol_type(coding_system);
    let mut out: Vec<u8> = Vec::new();
    let mut i: usize = 0;
    while i < bytes.len()
        invariant
            i <= bytes.len(),
            out@ == eol_bytes(bytes@.take(i as int), eol),
        decreases bytes.len() - i,
    {
        let b: u8 = bytes[i];
        proof {
            assert(bytes@.take(i + 1).drop_last() =~= bytes@.take(i as int));
        }
        match eol {
            EolType::Dos => {
                if b == 10 {
                    out.push(13);
                }
                out.push(b);
            },
            EolType::Mac => {
                out.push(
                    if b == 10 {
                        13
                    } else {
                        b
                    },
                );
            },
            EolType::Unix => {
                out.push(b);
            },
        }
        proof {
            assert(out@ =~= eol_bytes(bytes@.take(i + 1), eol));
        }
        i = i + 1;
    }
    proof {
        assert(bytes@.take(i as int) =~= bytes@);
    }
    out
}

/// The bytes from index `i` on, each carriage return and newline pair as one newline.
pub open spec fn undos_from(s: Seq<u8>, i: int) -> Seq<u8>
    decreases s.len() - i,
{
    if i < 0 || i >= s.len() {
        Seq::empty()
    } else if s[i] == 13 && i + 1 < s.len() && s[i + 1] == 10 {
        seq![10u8] + undos_from(s, i + 2)
    } else {
        seq![s[i]] + undos_from(s, i + 1)
    }
}

/// Bytes in the line endings of a coding system, with newlines in their place.
pub open spec fn uneol_bytes(s: Seq<u8>, eol: EolType) -> Seq<u8> {
    match eol {
        EolType::Dos => undos_from(s, 0),
        EolType::Mac => Seq::new(
            s.len(),
            |i: int|
                if s[i] == 13 {
                    10u8
                } else {
                    s[i]
                },
        ),
        EolType::Unix => s,
    }
}

/// Bytes in the line endings of a coding system, with newlines in their place.
pub fn decode_eol_text(bytes: &[u8], coding_system: &str) -> (r: Vec<u8>)
    ensures
        r@ == uneol_bytes(bytes@, eol_of(coding_system@)),
{
    let eol: EolType = eol_type(coding_system);
    let mut out: Vec<u8> = Vec::new();
    let mut i: usize = 0;
    match eol {
        EolType::Dos => {
            while i < bytes.len()
                invariant
                    i <= bytes.len(),
                    out@ + undos_from(bytes@, i as int) == undos_from(bytes@, 0),
                decreases bytes.len() - i,
            {
                if bytes[i] == 13 && bytes.len() - i > 1 && bytes[i + 1] == 10 {
                    proof {
                        assert(out@ + undos_from(bytes@, i as int) =~= out@.push(10) + undos_from(
                            bytes@,
                            i + 2,
                        ));
                    }
                    out.push(10);
                    i = i + 2;
                } else {
                    proof {
                        assert(out@ + undos_from(bytes@, i as int) =~= out@.push(bytes@[i as int])
                            + undos_from(bytes@, i + 1));
                    }
                    out.push(bytes[i]);
                    i = i + 1;
                }
            }
            proof {
                assert(out@ + undos_from(bytes@, i as int) =~= out@);
            }
            out
        },
        EolType::Mac => {
            while i < bytes.len()
                invariant
                    i <= bytes.len(),
                    out@ == uneol_bytes(bytes@, EolType::Mac).take(i as int),
                decreases bytes.len() - i,
            {
                let b: u8 = if bytes[i] == 13 {
                    10
                } else {
                    bytes[i]
                };
                proof {
                    assert(uneol_bytes(bytes@, EolType::Mac).take(i + 1) =~= uneol_bytes(
                        bytes@,
                        EolType::Mac,
                    ).take(i as int).push(b));
                }
                out.push(b);
                i = i + 1;
            }
            proof {
                assert(out@ =~= uneol_bytes(bytes@, EolType::Mac));
            }
            out
        },
        EolType::Unix => copy_bytes(bytes),
    }
}

/// Reading two pieces one after the other is reading them together, unless
/// they meet inside a carriage return and newline pair.
proof fn lemma_undos_concatenation(a: Seq<u8>, b: Seq<u8>, i: int)
    requires
        0 <= i <= a.len(),
        a.len() > 0 && b.len() > 0 ==> !(a.last() == 13 && b[0] == 10),
    ensures
        undos_from(a + b, i) == undos_from(a, i) + undos_from(b, 0),
    decreases a.len() - i,
{
    let s = a + b;
    if i == a.len() {
        lemma_undos_shift(a, b, 0);
        assert(undos_from(a, i) + undos_from(b, 0) =~= undos_from(b, 0));
    } else if a[i] == 13 && i + 1 < s.len() && s[i + 1] == 10 {
        assert(i + 1 < a.len());
        lemma_undos_concatenation(a, b, i + 2);
        assert(undos_from(s, i) =~= undos_from(a, i) + undos_from(b, 0));
    } else {
        lemma_undos_concatenation(a, b, i + 1);
        assert(undos_from(s, i) =~= undos_from(a, i) + undos_from(b, 0));
    }
}

/// What stands before does not change what is read from a place on.
proof fn lemma_undos_shift(a: Seq<u8>, b: Seq<u8>, i: int)
    requires
        0 <= i <= b.len(),
    ensures
        undos_from(a + b, a.len() + i) == undos_from(b, i),
    decreases b.len() - i,
{
    if i < b.len() {
        if b[i] == 13 && i + 1 < b.len() && b[i + 1] == 10 {
            lemma_undos_shift(a, b, i + 2);
        } else {
            lemma_undos_shift(a, b, i + 1);
        }
        assert(undos_from(a + b, a.len() + i) =~= undos_from(b, i));
    }
}

/// Reading back what was written with `-dos` line endings gives every byte back.
pub proof fn law_dos_round_trip(s: Seq<u8>)
    ensures
        uneol_bytes(eol_bytes(s, EolType::Dos), EolType::Dos) == s,
    decreases s.len(),
{
    if s.len() == 0 {
        assert(undos_from(dos_bytes(s), 0) =~= s);
    } else {
        let init = dos_bytes(s.drop_last());
        let piece = if s.last() == 10 {
            seq![13u8, 10u8]
        } else {
            seq![s.last()]
        };
        law_dos_round_trip(s.drop_last());
        assert(dos_bytes(s) =~= init + piece);
        lemma_undos_concatenation(init, piece, 0);
        reveal_with_fuel(undos_from, 3);
        assert(undos_from(piece, 0) =~= seq![s.last()]);
        assert(s =~= s.drop_last() + seq![s.last()]);
    }
}

/// Reading back what was written with `-mac` line endings gives every byte
/// back where none was a carriage return.
pub proof fn law_mac_round_trip(s: Seq<u8>)
    requires
        !s.contains(13),
    ensures
        uneol_bytes(eol_bytes(s, EolType::Mac), EolType::Mac) == s,
{
    let t = uneol_bytes(eol_bytes(s, EolType::Mac), EolType::Mac);
    assert forall|i: int| 0 <= i < s.len() implies t[i] == s[i] by {
        assert(s.contains(s[i]));
    }
    assert(t =~= s);
}

/// Without `-dos` or `-mac`, bytes are neither changed when written nor when read.
pub proof fn law_unix_keeps_bytes(s: Seq<u8>)
    ensures
        eol_bytes(s, EolType::Unix) == s,
        uneol_bytes(s, EolType::Unix) == s,
{
}

} // verus!
