//! What the name of a coding system says.
use crate::text::{has_suffix, str_eq, strip_suffix, without_suffix};
use vstd::prelude::*;

verus! {

/// A coding system's name without the part that names its line endings.
pub open spec fn coding_base(coding: Seq<char>) -> Seq<char> {
    if has_suffix(coding, "-unix"@) {
        without_suffix(coding, "-unix"@)
    } else if has_suffix(coding, "-dos"@) {
        without_suffix(coding, "-dos"@)
    } else if has_suffix(coding, "-mac"@) {
        without_suffix(coding, "-mac"@)
    } else {
        coding
    }
}

/// A coding system's name without the part that names its line endings.
pub fn strip_eol_suffix(coding_system: &str) -> (r: String)
    ensures
        r@ == coding_base(coding_system@),
{
    match strip_suffix(coding_system, "-unix") {
        Some(s) => s,
        None => match strip_suffix(coding_system, "-dos") {
            Some(s) => s,
            None => match strip_suffix(coding_system, "-mac") {
                Some(s) => s,
                None => coding_system.to_owned(),
            },
        },
    }
}

/// The one name for all the names of a family of coding systems.
pub open spec fn family_of(coding: Seq<char>) -> Seq<char> {
    let base = coding_base(coding);
    if base == "latin-1"@ || base == "iso-8859-1"@ || base == "iso-latin-1"@ {
        "iso-latin-1"@
    } else if base == "latin-5"@ || base == "iso-8859-9"@ || base == "iso-latin-5"@ {
        "iso-latin-5"@
    } else if base == "latin-0"@ || base == "latin-9"@ || base == "iso-8859-15"@ || base
        == "iso-latin-9"@ {
        "iso-latin-9"@
    } else if base == "cn-gb-2312"@ || base == "euc-china"@ || base == "euc-cn"@ || base
        == "cn-gb"@ || base == "gb2312"@ || base == "chinese-iso-8bit"@ {
        "chinese-iso-8bit"@
    } else if base == "big5"@ || base == "cn-big5"@ || base == "cp950"@ || base
        == "chinese-big5"@ {
        "chinese-big5"@
    } else if base == "big5-hkscs"@ || base == "cn-big5-hkscs"@ || base == "chinese-big5-hkscs"@ {
        "chinese-big5-hkscs"@
    } else if base == "emacs-internal"@ {
        "utf-8-emacs"@
    } else {
        base
    }
}

/// The one name for all the names of a family of coding systems.
pub fn coding_system_family(coding_system: &str) -> (r: String)
    ensures
        r@ == family_of(coding_system@),
{
    let owned: String = strip_eol_suffix(coding_system);
    let base: &str = owned.as_str();
    if str_eq(base, "latin-1") || str_eq(base, "iso-8859-1") || str_eq(base, "iso-latin-1") {
        "iso-latin-1".to_owned()
    } else if str_eq(base, "latin-5") || str_eq(base, "iso-8859-9") || str_eq(
        base,
        "iso-latin-5",
    ) {
        "iso-latin-5".to_owned()
    } else if str_eq(base, "latin-0") || str_eq(base, "latin-9") || str_eq(base, "iso-8859-15")
        || str_eq(base, "iso-latin-9") {
        "iso-latin-9".to_owned()
    } else if str_eq(base, "cn-gb-2312") || str_eq(base, "euc-china") || str_eq(base, "euc-cn")
        || str_eq(base, "cn-gb") || str_eq(base, "gb2312") || str_eq(base, "chinese-iso-8bit") {
        "chinese-iso-8bit".to_owned()
    } else if str_eq(base, "big5") || str_eq(base, "cn-big5") || str_eq(base, "cp950") || str_eq(
        base,
        "chinese-big5",
    ) {
        "chinese-big5".to_owned()
    } else if str_eq(base, "big5-hkscs") || str_eq(base, "cn-big5-hkscs") || str_eq(
        base,
        "chinese-big5-hkscs",
    ) {
        "chinese-big5-hkscs".to_owned()
    } else if str_eq(base, "emacs-internal") {
        "utf-8-emacs".to_owned()
    } else {
        owned
    }
}

/// Whether the name is one of a coding system that keeps bytes as they are.
pub open spec fn byte_preserving(coding: Seq<char>) -> bool {
    coding == "binary"@ || coding == "no-conversion"@ || coding == "raw-text"@ || coding
        == "raw-text-unix"@ || coding == "raw-text-dos"@ || coding == "raw-text-mac"@
}

/// Whether the name is one of a coding system that keeps bytes as they are.
pub fn is_byte_preserving_coding_system(coding_system: &str) -> (r: bool)
    ensures
        r == byte_preserving(coding_system@),
{
    str_eq(coding_system, "binary") || str_eq(coding_system, "no-conversion") || str_eq(
        coding_system,
        "raw-text",
    ) || str_eq(coding_system, "raw-text-unix") || str_eq(coding_system, "raw-text-dos") || str_eq(
        coding_system,
        "raw-text-mac",
    )
}

/// Whether the family is one of the single-byte Latin ones.
pub open spec fn is_latin_family(family: Seq<char>) -> bool {
    family == "latin-1"@ || family == "iso-8859-1"@ || family == "iso-latin-1"@ || family
        == "iso-latin-5"@ || family == "iso-latin-9"@
}

/// Whether the family is one of the single-byte Latin ones.
pub fn latin_family(family: &str) -> (r: bool)
    ensures
        r == is_latin_family(family@),
{
    str_eq(family, "latin-1") || str_eq(family, "iso-8859-1") || str_eq(family, "iso-latin-1")
        || str_eq(family, "iso-latin-5") || str_eq(family, "iso-latin-9")
}

/// Whether the family is that of ASCII.
pub open spec fn is_ascii_family(family: Seq<char>) -> bool {
    family == "ascii"@ || family == "us-ascii"@
}

/// Whether the family is that of ASCII.
pub fn ascii_family(family: &str) -> (r: bool)
    ensures
        r == is_ascii_family(family@),
{
    str_eq(family, "ascii") || str_eq(family, "us-ascii")
}

} // verus!
