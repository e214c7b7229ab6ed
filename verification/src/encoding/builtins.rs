//! Builtins on characters, strings and coding systems.
use crate::coding::{CodingSystemManager, Codings};
use crate::emacs_char::{decode_text, MAX_CHAR};
use crate::encoding::convert::{
    decode_to_chars, decoded, encode_lisp_string, lisp_string_encoded,
};
use crate::encoding::eol::{decode_eol_text, eol_of, uneol_bytes};
use crate::encoding::family::{
    byte_preserving, coding_system_family, family_of, is_byte_preserving_coding_system,
};
use crate::encoding::utf8_emacs::{encode_utf8_emacs_text, utf8_emacs_bytes};
use crate::encoding::width::{char_width, width_of};
use crate::lisp_string::{LispString, LispText};
use crate::storage::{
    bytes_to_unibyte_storage_string, runtime_string_to_lisp_string, storage_text, unibyte_storage,
};
use crate::text::{code_of, is_unicode_scalar, lemma_char, str_eq};
use crate::value::{
    arg, arg_or_nil, expect_args, expect_args_range, lbool, list1, list2, list3, outcome, signal,
    signalled, sym, symbol_name, views, wrong_type, wrong_type_argument, EvalResult, Flow, Lisp,
    Outcome, Value,
};
use crate::xdisp::simple::of_arity;
use vstd::prelude::*;

verus! {

/// Which coding systems are accepted.
#[derive(Debug, PartialEq, Eq)]
pub enum KnownCodings<'a> {
    Any,
    Of(&'a CodingSystemManager),
}

/// Which coding systems are accepted.
pub enum Accepted {
    Any,
    Of(Codings),
}

impl<'a> View for KnownCodings<'a> {
    type V = Accepted;

    open spec fn view(&self) -> Accepted {
        match self {
            KnownCodings::Any => Accepted::Any,
            KnownCodings::Of(c) => Accepted::Of(c@),
        }
    }
}

impl Accepted {
    /// Whether a coding system is accepted.
    pub open spec fn accepts(self, name: Seq<char>) -> bool {
        match self {
            Accepted::Any => true,
            Accepted::Of(c) => c.knows(name),
        }
    }
}

impl<'a> KnownCodings<'a> {
    /// Whether a coding system is accepted.
    pub fn accepts(&self, name: &str) -> (r: bool)
        ensures
            r == self@.accepts(name@),
    {
        match self {
            KnownCodings::Any => true,
            KnownCodings::Of(c) => c.is_known_or_derived(name),
        }
    }
}

/// The text of a multibyte string, with U+FFFD for what is beyond Unicode.
pub open spec fn unicode_text(codes: Seq<u32>) -> Seq<char> {
    Seq::new(
        codes.len(),
        |i: int|
            if is_unicode_scalar(codes[i]) {
                codes[i] as char
            } else {
                '\u{FFFD}'
            },
    )
}

/// The storage string that is decoded for a Lisp string: the bytes of a unibyte
/// one, the text of a multibyte one.
pub open spec fn source_text(s: LispText) -> Seq<char> {
    if s.multibyte {
        unicode_text(s.codes())
    } else {
        unibyte_storage(s.bytes)
    }
}

/// The storage string that is decoded for a Lisp string.
fn source_of(s: &LispString) -> (r: Vec<char>)
    ensures
        r@ == source_text(s@),
{
    if !s.is_multibyte() {
        return bytes_to_unibyte_storage_string(s.as_bytes());
    }
    let codes: Vec<u32> = decode_text(s.as_bytes(), true);
    let mut out: Vec<char> = Vec::new();
    let mut i: usize = 0;
    while i < codes.len()
        invariant
            i <= codes.len(),
            out@ == unicode_text(codes@).take(i as int),
        decreases codes.len() - i,
    {
        let c: char = match char::from_u32(codes[i]) {
            Some(c) => {
                proof {
                    lemma_char(c);
                }
                c
            },
            None => '\u{FFFD}',
        };
        proof {
            assert(unicode_text(codes@).take(i + 1) =~= unicode_text(codes@).take(
                i as int,
            ).push(c));
        }
        out.push(c);
        i = i + 1;
    }
    proof {
        assert(unicode_text(codes@).take(i as int) =~= unicode_text(codes@));
    }
    out
}

/// Whether a name starts with `raw-text`, among the names that keep bytes.
pub open spec fn is_raw_text(coding: Seq<char>) -> bool {
    coding == "raw-text"@ || coding == "raw-text-unix"@ || coding == "raw-text-dos"@ || coding
        == "raw-text-mac"@
}

/// Whether a name starts with `raw-text`, among the names that keep bytes.
fn raw_text(coding: &str) -> (r: bool)
    ensures
        r == is_raw_text(coding@),
{
    str_eq(coding, "raw-text") || str_eq(coding, "raw-text-unix") || str_eq(
        coding,
        "raw-text-dos",
    ) || str_eq(coding, "raw-text-mac")
}

/// The charset that text of a family of coding systems is marked with.
pub open spec fn charset_of(family: Seq<char>) -> Option<Seq<char>> {
    if family == "iso-latin-1"@ {
        Some("iso-8859-1"@)
    } else if family == "chinese-iso-8bit"@ {
        Some("chinese-gb2312"@)
    } else if family == "chinese-big5"@ || family == "chinese-big5-hkscs"@ {
        Some("big5"@)
    } else {
        None
    }
}

/// The index of the first character of some text that is not ASCII.
pub open spec fn first_non_ascii(s: Seq<char>, i: int) -> int
    decreases s.len() - i,
{
    if i < 0 || i >= s.len() || s[i] as u32 > 0x7F {
        i
    } else {
        first_non_ascii(s, i + 1)
    }
}

/// The runs that mark some text with a charset: none for ASCII text, else one from
/// the first character that is not ASCII, or from the start for Latin-1.
pub open spec fn charset_runs(s: Seq<char>, charset: Seq<char>) -> Lisp {
    let first = first_non_ascii(s, 0);
    if first >= s.len() {
        Lisp::Nil
    } else {
        list1(
            list3(
                Lisp::Int(
                    if charset == "iso-8859-1"@ {
                        0
                    } else {
                        first as i64
                    },
                ),
                Lisp::Int(s.len() as i64),
                list2(sym("charset"@), sym(charset)),
            ),
        )
    }
}

/// The runs that mark some text with a charset.
pub fn charset_property_runs(s: &Vec<char>, charset: &str) -> (r: Value)
    ensures
        r@ == charset_runs(s@, charset@),
{
    let mut i: usize = 0;
    while i < s.len() && code_of(s[i]) <= 0x7F
        invariant
            i <= s@.len(),
            first_non_ascii(s@, i as int) == first_non_ascii(s@, 0),
        decreases s@.len() - i,
    {
        i = i + 1;
    }
    if i >= s.len() {
        return Value::Nil;
    }
    let start: i64 = if str_eq(charset, "iso-8859-1") {
        0
    } else {
        i as i64
    };
    Value::list1(
        Value::list3(
            Value::Int(start),
            Value::Int(s.len() as i64),
            Value::list2(Value::symbol("charset"), Value::symbol(charset)),
        ),
    )
}

/// What a string is after decoding: bytes where the coding system keeps them, else
/// multibyte text, marked with the charset of some coding systems.
pub open spec fn decoded_string(s: LispText, coding: Seq<char>) -> Lisp {
    let bytes = utf8_emacs_bytes(source_text(s));
    if byte_preserving(coding) {
        Lisp::Str(
            LispText {
                bytes: if is_raw_text(coding) {
                    uneol_bytes(bytes, eol_of(coding))
                } else {
                    bytes
                },
                multibyte: false,
            },
            Box::new(Lisp::Nil),
        )
    } else {
        let text = decoded(bytes, coding);
        Lisp::Str(
            storage_text(text, true),
            Box::new(
                match charset_of(family_of(coding)) {
                    Some(charset) => charset_runs(text, charset),
                    None => Lisp::Nil,
                },
            ),
        )
    }
}

/// The charset that text of a family of coding systems is marked with.
fn charset_name(family: &str) -> (r: Option<String>)
    ensures
        crate::value::opt_text(r) == charset_of(family@),
{
    if str_eq(family, "iso-latin-1") {
        Some("iso-8859-1".to_owned())
    } else if str_eq(family, "chinese-iso-8bit") {
        Some("chinese-gb2312".to_owned())
    } else if str_eq(family, "chinese-big5") || str_eq(family, "chinese-big5-hkscs") {
        Some("big5".to_owned())
    } else {
        None
    }
}

/// What a string is after decoding.
pub fn decode_string_value(s: &LispString, coding: &str) -> (r: Value)
    ensures
        r@ == decoded_string(s@, coding@),
{
    let source: Vec<char> = source_of(s);
    let bytes: Vec<u8> = encode_utf8_emacs_text(source.as_slice());
    if is_byte_preserving_coding_system(coding) {
        let kept: Vec<u8> = if raw_text(coding) {
            decode_eol_text(bytes.as_slice(), coding)
        } else {
            bytes
        };
        return Value::heap_string(LispString::from_unibyte(kept));
    }
    let text: Vec<char> = decode_to_chars(bytes.as_slice(), coding);
    let runs: Value = match charset_name(coding_system_family(coding).as_str()) {
        Some(charset) => charset_property_runs(&text, charset.as_str()),
        None => {
            let none: Value = Value::Nil;
            proof {
                assert(none@ == Lisp::Nil);
            }
            none
        },
    };
    let string: LispString = runtime_string_to_lisp_string(text.as_slice(), true);
    Value::Str(string, Box::new(runs))
}

/// The end of a builtin that converts a string by a coding system argument: the
/// string itself for nil, an error for a coding system that is not accepted.
pub open spec fn converted(
    name: Seq<char>,
    args: Seq<Lisp>,
    known: Accepted,
    convert: spec_fn(LispText, Seq<char>) -> Lisp,
) -> Outcome {
    of_arity(
        name,
        args,
        2,
        4,
        match arg(args, 0) {
            Lisp::Str(text, _) => if arg(args, 1) == Lisp::Nil {
                Outcome::Value(arg(args, 0))
            } else {
                match symbol_name(arg(args, 1)) {
                    Some(coding) => if known.accepts(coding) {
                        Outcome::Value(convert(text, coding))
                    } else {
                        Outcome::Signal("coding-system-error"@, list1(arg(args, 1)))
                    },
                    None => wrong_type("symbolp"@, arg(args, 1)),
                }
            },
            _ => wrong_type("stringp"@, arg(args, 0)),
        },
    )
}

/// What a string is after encoding.
pub open spec fn encoded_string(s: LispText, coding: Seq<char>) -> Lisp {
    Lisp::Str(
        LispText { bytes: lisp_string_encoded(s, coding), multibyte: false },
        Box::new(Lisp::Nil),
    )
}

/// `(encode-coding-string STRING CODING-SYSTEM &optional NOCOPY BUFFER)`
pub open spec fn encode_coding_string(args: Seq<Lisp>, known: Accepted) -> Outcome {
    converted(
        "encode-coding-string"@,
        args,
        known,
        |s: LispText, coding: Seq<char>| encoded_string(s, coding),
    )
}

/// `(decode-coding-string STRING CODING-SYSTEM &optional NOCOPY BUFFER)`
pub open spec fn decode_coding_string(args: Seq<Lisp>, known: Accepted) -> Outcome {
    converted(
        "decode-coding-string"@,
        args,
        known,
        |s: LispText, coding: Seq<char>| decoded_string(s, coding),
    )
}

/// The name of an accepted coding system that an argument is, or an error.
fn accepted_name(a: &Value, known: &KnownCodings) -> (r: Result<String, Flow>)
    ensures
        match r {
            Ok(s) => symbol_name(a@) == Some(s@) && known@.accepts(s@),
            Err(f) => match symbol_name(a@) {
                Some(coding) => !known@.accepts(coding) && signalled(f) == Outcome::Signal(
                    "coding-system-error"@,
                    list1(a@),
                ),
                None => signalled(f) == wrong_type("symbolp"@, a@),
            },
        },
{
    match a.as_symbol_name() {
        Some(coding) => if known.accepts(coding.as_str()) {
            Ok(coding)
        } else {
            Err(signal("coding-system-error", Value::list1(a.copy())))
        },
        None => Err(wrong_type_argument("symbolp", a)),
    }
}

/// Encodes a string by a coding system that is accepted.
pub fn builtin_encode_coding_string_with_known(args: &Vec<Value>, known: &KnownCodings) -> (r: EvalResult)
    ensures
        outcome(r) == encode_coding_string(views(args@), known@),
{
    expect_args_range("encode-coding-string", args, 2, 4)?;
    let string: Value = arg_or_nil(args, 0);
    match string.as_lisp_string() {
        Some(s) => {
            let coding: Value = arg_or_nil(args, 1);
            if coding.is_nil() {
                return Ok(string);
            }
            let name: String = accepted_name(&coding, known)?;
            let bytes: Vec<u8> = encode_lisp_string(&s, name.as_str());
            Ok(Value::heap_string(LispString::from_unibyte(bytes)))
        },
        None => Err(wrong_type_argument("stringp", &string)),
    }
}

/// Decodes a string by a coding system that is accepted.
pub fn builtin_decode_coding_string_with_known(args: &Vec<Value>, known: &KnownCodings) -> (r: EvalResult)
    ensures
        outcome(r) == decode_coding_string(views(args@), known@),
{
    expect_args_range("decode-coding-string", args, 2, 4)?;
    let string: Value = arg_or_nil(args, 0);
    match string.as_lisp_string() {
        Some(s) => {
            let coding: Value = arg_or_nil(args, 1);
            if coding.is_nil() {
                return Ok(string);
            }
            let name: String = accepted_name(&coding, known)?;
            Ok(decode_string_value(&s, name.as_str()))
        },
        None => Err(wrong_type_argument("stringp", &string)),
    }
}

/// `(encode-coding-string STRING CODING-SYSTEM)` -> string, by the coding systems
/// that every session knows.
pub fn builtin_encode_coding_string(args: &Vec<Value>) -> (r: EvalResult)
    ensures
        outcome(r) == encode_coding_string(
            views(args@),
            Accepted::Of(crate::coding::standard_codings()),
        ),
{
    let codings = CodingSystemManager::new();
    builtin_encode_coding_string_with_known(args, &KnownCodings::Of(&codings))
}

/// `(decode-coding-string STRING CODING-SYSTEM)` -> string, by the coding systems
/// that every session knows.
pub fn builtin_decode_coding_string(args: &Vec<Value>) -> (r: EvalResult)
    ensures
        outcome(r) == decode_coding_string(
            views(args@),
            Accepted::Of(crate::coding::standard_codings()),
        ),
{
    let codings = CodingSystemManager::new();
    builtin_decode_coding_string_with_known(args, &KnownCodings::Of(&codings))
}

/// What is given for a character code; it is an error where a value is none.
pub open spec fn if_character(v: Lisp, predicate: Seq<char>, end: spec_fn(u32) -> Outcome) -> Outcome {
    match v {
        Lisp::Int(n) => if 0 <= n <= MAX_CHAR {
            end(n as u32)
        } else {
            wrong_type("characterp"@, v)
        },
        _ => wrong_type(predicate, v),
    }
}

/// The character code that a value is, or an error.
fn expect_character(v: &Value, predicate: &str) -> (r: Result<u32, Flow>)
    ensures
        match r {
            Ok(c) => v@ == Lisp::Int(c as i64) && c <= MAX_CHAR,
            Err(f) => match v@ {
                Lisp::Int(n) => !(0 <= n <= MAX_CHAR) && signalled(f) == wrong_type(
                    "characterp"@,
                    v@,
                ),
                _ => signalled(f) == wrong_type(predicate@, v@),
            },
        },
{
    match v {
        Value::Int(n) => if 0 <= *n && *n <= MAX_CHAR as i64 {
            Ok(*n as u32)
        } else {
            Err(wrong_type_argument("characterp", v))
        },
        _ => Err(wrong_type_argument(predicate, v)),
    }
}

/// The width of the character with a code; one where it is beyond Unicode.
pub open spec fn code_width(code: u32) -> int {
    if code > 0x10FFFF {
        1
    } else {
        width_of(code as char) as int
    }
}

/// `(char-width CHAR)`
pub open spec fn char_width_of(args: Seq<Lisp>) -> Outcome {
    of_arity(
        "char-width"@,
        args,
        1,
        1,
        if_character(
            arg(args, 0),
            "characterp"@,
            |c: u32| Outcome::Value(Lisp::Int(code_width(c) as i64)),
        ),
    )
}

/// `(char-width CHAR)` -> how many columns CHAR takes.
pub fn builtin_char_width(args: &Vec<Value>) -> (r: EvalResult)
    requires
        args@.len() == 1 ==> !(views(args@)[0] matches Lisp::Int(n) && 0xD800 <= n <= 0xDFFF),
    ensures
        outcome(r) == char_width_of(views(args@)),
{
    expect_args("char-width", args, 1)?;
    let code: u32 = expect_character(&arg_or_nil(args, 0), "characterp")?;
    if code > 0x10FFFF {
        return Ok(Value::Int(1));
    }
    match char::from_u32(code) {
        Some(c) => {
            proof {
                lemma_char(c);
            }
            Ok(Value::Int(char_width(c) as i64))
        },
        None => Ok(Value::Int(1)),
    }
}

/// `(string-bytes STRING)`
pub open spec fn string_bytes(args: Seq<Lisp>) -> Outcome {
    of_arity(
        "string-bytes"@,
        args,
        1,
        1,
        match arg(args, 0) {
            Lisp::Str(text, _) => Outcome::Value(Lisp::Int(text.bytes.len() as i64)),
            _ => wrong_type("stringp"@, arg(args, 0)),
        },
    )
}

/// `(string-bytes STRING)` -> the number of bytes in STRING.
pub fn builtin_string_bytes(args: &Vec<Value>) -> (r: EvalResult)
    ensures
        outcome(r) == string_bytes(views(args@)),
{
    expect_args("string-bytes", args, 1)?;
    let string: Value = arg_or_nil(args, 0);
    match string.as_lisp_string() {
        Some(s) => Ok(Value::Int(s.sbytes() as i64)),
        None => Err(wrong_type_argument("stringp", &string)),
    }
}

/// Whether a value is a string that is multibyte or not, as asked.
pub open spec fn string_is(v: Lisp, multibyte: bool) -> Lisp {
    lbool(v matches Lisp::Str(text, _) && text.multibyte == multibyte)
}

/// `(multibyte-string-p STRING)` -> t or nil
pub fn builtin_multibyte_string_p(args: &Vec<Value>) -> (r: EvalResult)
    ensures
        outcome(r) == of_arity(
            "multibyte-string-p"@,
            views(args@),
            1,
            1,
            Outcome::Value(string_is(arg(views(args@), 0), true)),
        ),
{
    expect_args("multibyte-string-p", args, 1)?;
    match arg_or_nil(args, 0).as_lisp_string() {
        Some(s) => Ok(Value::bool_val(s.is_multibyte())),
        None => Ok(Value::Nil),
    }
}

/// `(unibyte-string-p STRING)` -> t or nil
pub fn builtin_unibyte_string_p(args: &Vec<Value>) -> (r: EvalResult)
    ensures
        outcome(r) == of_arity(
            "unibyte-string-p"@,
            views(args@),
            1,
            1,
            Outcome::Value(string_is(arg(views(args@), 0), false)),
        ),
{
    expect_args("unibyte-string-p", args, 1)?;
    match arg_or_nil(args, 0).as_lisp_string() {
        Some(s) => Ok(Value::bool_val(!s.is_multibyte())),
        None => Ok(Value::Nil),
    }
}

/// Whether a value is a character or a string.
pub open spec fn char_or_string(v: Lisp) -> bool {
    match v {
        Lisp::Int(n) => 0 <= n <= MAX_CHAR,
        Lisp::Str(_, _) => true,
        _ => false,
    }
}

/// `(char-or-string-p OBJ)` -> t or nil
pub fn builtin_char_or_string_p(args: &Vec<Value>) -> (r: EvalResult)
    ensures
        outcome(r) == of_arity(
            "char-or-string-p"@,
            views(args@),
            1,
            1,
            Outcome::Value(lbool(char_or_string(arg(views(args@), 0)))),
        ),
{
    expect_args("char-or-string-p", args, 1)?;
    let is_one: bool = match arg_or_nil(args, 0) {
        Value::Int(n) => 0 <= n && n <= MAX_CHAR as i64,
        Value::Str(_, _) => true,
        _ => false,
    };
    Ok(Value::bool_val(is_one))
}

/// `(char-displayable-p CHAR)`
pub open spec fn char_displayable(args: Seq<Lisp>) -> Outcome {
    of_arity(
        "char-displayable-p"@,
        args,
        1,
        1,
        if_character(
            arg(args, 0),
            "number-or-marker-p"@,
            |c: u32|
                Outcome::Value(
                    if c <= 0x7F {
                        Lisp::True
                    } else if c <= 0x10FFFF {
                        sym("unicode"@)
                    } else {
                        Lisp::Nil
                    },
                ),
        ),
    )
}

/// `(char-displayable-p CHAR)` -> t, nil, or `unicode`
pub fn builtin_char_displayable_p(args: &Vec<Value>) -> (r: EvalResult)
    ensures
        outcome(r) == char_displayable(views(args@)),
{
    expect_args("char-displayable-p", args, 1)?;
    let code: u32 = expect_character(&arg_or_nil(args, 0), "number-or-marker-p")?;
    if code <= 0x7F {
        return Ok(Value::True);
    }
    if code <= 0x10FFFF {
        return Ok(Value::symbol("unicode"));
    }
    Ok(Value::Nil)
}

/// `(max-char &optional UNICODE)` -> the largest character code.
pub fn builtin_max_char(args: &Vec<Value>) -> (r: EvalResult)
    ensures
        outcome(r) == of_arity(
            "max-char"@,
            views(args@),
            0,
            1,
            Outcome::Value(
                Lisp::Int(
                    if arg(views(args@), 0) != Lisp::Nil {
                        0x10FFFF
                    } else {
                        0x3FFFFF
                    },
                ),
            ),
        ),
{
    expect_args_range("max-char", args, 0, 1)?;
    Ok(
        Value::Int(
            if arg_or_nil(args, 0).is_nil() {
                0x3FFFFF
            } else {
                0x10FFFF
            },
        ),
    )
}

} // verus!
