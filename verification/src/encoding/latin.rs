//! The single-byte Latin coding systems.
use crate::encoding::family::is_latin_family;
use crate::text::str_eq;
use vstd::prelude::*;

verus! {

/// The character that a byte stands for in a Latin family.
pub open spec fn latin_char(family: Seq<char>, byte: u8) -> Option<char> {
    if family == "latin-1"@ || family == "iso-8859-1"@ || family == "iso-latin-1"@ {
        Some(byte as char)
    } else if family == "iso-latin-5"@ {
        Some(
            if byte == 0xD0 {
                '\u{011E}'
            } else if byte == 0xDD {
                '\u{0130}'
            } else if byte == 0xDE {
                '\u{015E}'
            } else if byte == 0xF0 {
                '\u{011F}'
            } else if byte == 0xFD {
                '\u{0131}'
            } else if byte == 0xFE {
                '\u{015F}'
            } else {
                byte as char
            },
        )
    } else if family == "iso-latin-9"@ {
        Some(
            if byte == 0xA4 {
                '\u{20AC}'
            } else if byte == 0xA6 {
                '\u{0160}'
            } else if byte == 0xA8 {
                '\u{0161}'
            } else if byte == 0xB4 {
                '\u{017D}'
            } else if byte == 0xB8 {
                '\u{017E}'
            } else if byte == 0xBC {
                '\u{0152}'
            } else if byte == 0xBD {
                '\u{0153}'
            } else if byte == 0xBE {
                '\u{0178}'
            } else {
                byte as char
            },
        )
    } else {
        None
    }
}

/// The character that a byte stands for in a Latin family.
pub fn decode_single_byte_family_char(family: &str, byte: u8) -> (r: Option<char>)
    ensures
        r == latin_char(family@, byte),
{
    if str_eq(family, "latin-1") || str_eq(family, "iso-8859-1") || str_eq(
        family,
        "iso-latin-1",
    ) {
        Some(byte as char)
    } else if str_eq(family, "iso-latin-5") {
        Some(
            match byte {
                0xD0 => '\u{011E}',
                0xDD => '\u{0130}',
                0xDE => '\u{015E}',
                0xF0 => '\u{011F}',
                0xFD => '\u{0131}',
                0xFE => '\u{015F}',
                _ => byte as char,
            },
        )
    } else if str_eq(family, "iso-latin-9") {
        Some(
            match byte {
                0xA4 => '\u{20AC}',
                0xA6 => '\u{0160}',
                0xA8 => '\u{0161}',
                0xB4 => '\u{017D}',
                0xB8 => '\u{017E}',
                0xBC => '\u{0152}',
                0xBD => '\u{0153}',
                0xBE => '\u{0178}',
                _ => byte as char,
            },
        )
    } else {
        None
    }
}

/// The byte that stands for a code point that no single byte holds in the
/// Latin-5 family.
pub open spec fn latin5_special(code: u32) -> Option<u8> {
    if code == 0x011E {
        Some(0xD0)
    } else if code == 0x0130 {
        Some(0xDD)
    } else if code == 0x015E {
        Some(0xDE)
    } else if code == 0x011F {
        Some(0xF0)
    } else if code == 0x0131 {
        Some(0xFD)
    } else if code == 0x015F {
        Some(0xFE)
    } else {
        None
    }
}

/// The byte that stands for a code point that no single byte holds in the
/// Latin-9 family.
pub open spec fn latin9_special(code: u32) -> Option<u8> {
    if code == 0x20AC {
        Some(0xA4)
    } else if code == 0x0160 {
        Some(0xA6)
    } else if code == 0x0161 {
        Some(0xA8)
    } else if code == 0x017D {
        Some(0xB4)
    } else if code == 0x017E {
        Some(0xB8)
    } else if code == 0x0152 {
        Some(0xBC)
    } else if code == 0x0153 {
        Some(0xBD)
    } else if code == 0x0178 {
        Some(0xBE)
    } else {
        None
    }
}

/// The byte that stands for a code point in a Latin family.
pub open spec fn latin_byte(family: Seq<char>, code: u32) -> Option<u8> {
    let plain = if code <= 0xFF {
        Some(code as u8)
    } else {
        None
    };
    if family == "latin-1"@ || family == "iso-8859-1"@ || family == "iso-latin-1"@ {
        plain
    } else if family == "iso-latin-5"@ {
        match latin5_special(code) {
            Some(b) => Some(b),
            None => plain,
        }
    } else if family == "iso-latin-9"@ {
        match latin9_special(code) {
            Some(b) => Some(b),
            None => plain,
        }
    } else {
        None
    }
}

/// The byte that stands for a code point in a Latin family.
pub fn encode_single_byte_family_char(family: &str, code: u32) -> (r: Option<u8>)
    ensures
        r == latin_byte(family@, code),
{
    let plain: Option<u8> = if code <= 0xFF {
        Some(code as u8)
    } else {
        None
    };
    if str_eq(family, "latin-1") || str_eq(family, "iso-8859-1") || str_eq(
        family,
        "iso-latin-1",
    ) {
        plain
    } else if str_eq(family, "iso-latin-5") {
        match code {
            0x011E => Some(0xD0),
            0x0130 => Some(0xDD),
            0x015E => Some(0xDE),
            0x011F => Some(0xF0),
            0x0131 => Some(0xFD),
            0x015F => Some(0xFE),
            _ => plain,
        }
    } else if str_eq(family, "iso-latin-9") {
        match code {
            0x20AC => Some(0xA4),
            0x0160 => Some(0xA6),
            0x0161 => Some(0xA8),
            0x017D => Some(0xB4),
            0x017E => Some(0xB8),
            0x0152 => Some(0xBC),
            0x0153 => Some(0xBD),
            0x0178 => Some(0xBE),
            _ => plain,
        }
    } else {
        None
    }
}

/// Encoding the character that a byte stands for gives the byte back.
pub proof fn law_latin_byte_round_trip(family: Seq<char>, byte: u8)
    requires
        is_latin_family(family),
    ensures
        latin_char(family, byte) matches Some(c) && latin_byte(family, c as u32) == Some(byte),
{
}

} // verus!
