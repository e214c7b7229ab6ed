//! How a character without a glyph is shown.
use crate::text::{code_of, string_of};
use vstd::prelude::*;

verus! {

/// The digit of value `n`, below sixteen, in upper case.
pub open spec fn hex_digit(n: int) -> char {
    if n < 10 {
        (0x30 + n) as char
    } else {
        (0x37 + n) as char
    }
}

/// How a character without a glyph is shown: in caret notation, else in octal,
/// else in four or eight hexadecimal digits.
pub open spec fn glyphless(c: char) -> Seq<char> {
    let cp = c as u32 as int;
    if cp < 0x20 {
        seq!['^', (cp + 0x40) as char]
    } else if cp == 0x7f {
        seq!['^', '?']
    } else if cp < 0x100 {
        seq!['\\', hex_digit(cp / 64), hex_digit(cp / 8 % 8), hex_digit(cp % 8)]
    } else if cp < 0x10000 {
        seq![
            '\\',
            'u',
            hex_digit(cp / 4096),
            hex_digit(cp / 256 % 16),
            hex_digit(cp / 16 % 16),
            hex_digit(cp % 16),
        ]
    } else {
        seq![
            '\\',
            'U',
            '0',
            '0',
            hex_digit(cp / 1048576),
            hex_digit(cp / 65536 % 16),
            hex_digit(cp / 4096 % 16),
            hex_digit(cp / 256 % 16),
            hex_digit(cp / 16 % 16),
            hex_digit(cp % 16),
        ]
    }
}

/// The digit of value `n`.
fn digit(n: u32) -> (r: char)
    requires
        n < 16,
    ensures
        r == hex_digit(n as int),
{
    if n < 10 {
        (0x30 + n) as u8 as char
    } else {
        (0x37 + n) as u8 as char
    }
}

/// How to display a glyphless (control or non-printable) character.
pub fn glyphless_char_display(c: char) -> (r: String)
    ensures
        r@ == glyphless(c),
{
    let cp: u32 = code_of(c);
    let mut out: Vec<char> = Vec::new();
    if cp < 0x20 {
        out.push('^');
        out.push((cp + 0x40) as u8 as char);
    } else if cp == 0x7f {
        out.push('^');
        out.push('?');
    } else if cp < 0x100 {
        out.push('\\');
        out.push(digit(cp / 64));
        out.push(digit(cp / 8 % 8));
        out.push(digit(cp % 8));
    } else if cp < 0x10000 {
        out.push('\\');
        out.push('u');
        out.push(digit(cp / 4096));
        out.push(digit(cp / 256 % 16));
        out.push(digit(cp / 16 % 16));
        out.push(digit(cp % 16));
    } else {
        out.push('\\');
        out.push('U');
        out.push('0');
        out.push('0');
        out.push(digit(cp / 1048576));
        out.push(digit(cp / 65536 % 16));
        out.push(digit(cp / 4096 % 16));
        out.push(digit(cp / 256 % 16));
        out.push(digit(cp / 16 % 16));
        out.push(digit(cp % 16));
    }
    proof {
        assert(out@ =~= glyphless(c));
    }
    string_of(out.as_slice())
}

} // verus!
