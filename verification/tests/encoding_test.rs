use neovm_core::coding::CodingSystemManager;
use neovm_core::emacs_char::{char_byte8_p, char_to_byte8, decode_text, string_char, unibyte_to_char};
use neovm_core::encoding::builtins::{
    builtin_char_displayable_p, builtin_char_or_string_p, builtin_char_width,
    builtin_decode_coding_string, builtin_decode_coding_string_with_known,
    builtin_encode_coding_string, builtin_max_char, builtin_multibyte_string_p,
    builtin_string_bytes, builtin_unibyte_string_p, charset_property_runs, KnownCodings,
};
use neovm_core::encoding::commands::{
    builtin_decode_coding_region, builtin_decode_coding_string_in_context,
    builtin_encode_coding_region, builtin_encode_coding_string_in_context,
};
use neovm_core::encoding::convert::{decode_bytes, encode_lisp_string, encode_string};
use neovm_core::encoding::family::{coding_system_family, is_byte_preserving_coding_system};
use neovm_core::encoding::glyphless::glyphless_char_display;
use neovm_core::encoding::position::{byte_to_char_pos, char_to_byte_pos};
use neovm_core::encoding::utf16::{utf16_coding_variant, Utf16Endian};
use neovm_core::encoding::utf8_emacs::{
    bytes_to_multibyte_raw_string, decode_utf8_emacs_bytes, encode_emacs_utf8_codepoint,
    encode_utf8_emacs_text,
};
use neovm_core::encoding::width::{
    char_width, is_ascii_string, is_multibyte_string, is_printable, is_whitespace,
    is_word_char, is_word_constituent, string_width,
};
use neovm_core::lisp_string::LispString;
use neovm_core::process::ProcessManager;
use neovm_core::session::Session;
use neovm_core::symbol::Obarray;
use neovm_core::value::{EvalResult, Flow, Value};
use neovm_core::window_cmds::state::Ui;

fn unibyte(bytes: Vec<u8>) -> Value {
    Value::heap_string(LispString::from_unibyte(bytes))
}

fn symbol(name: &str) -> Value {
    Value::symbol(name)
}

fn bytes_of(v: &Value) -> Vec<u8> {
    v.as_lisp_string().expect("string").as_bytes().to_vec()
}

fn runs_of(v: &Value) -> Value {
    match v {
        Value::Str(_, runs) => runs.copy(),
        other => panic!("expected string, got {:?}", other),
    }
}

fn error_of(r: EvalResult) -> Value {
    match r.unwrap_err() {
        Flow::Signal(s) => Value::cons(Value::symbol(&s.symbol), s.data),
    }
}

fn wrong_type(predicate: &str, v: Value) -> Value {
    Value::list3(symbol("wrong-type-argument"), symbol(predicate), v)
}

fn session(text: &str) -> Session {
    let mut ui = Ui::new();
    let id = ui.buffers.create_buffer("*scratch*");
    ui.buffers.set_current(id);
    let inserted = Value::string(text).as_lisp_string().unwrap();
    ui.buffers.list[0].insert_lisp_string(&inserted);
    Session {
        ui,
        obarray: Obarray::new(),
        processes: ProcessManager::new(),
        codings: CodingSystemManager::new(),
        recursive_depth: 0,
    }
}

// -- Characters --

#[test]
fn widths_of_characters() {
    assert_eq!(char_width('\t'), 8);
    assert_eq!(char_width('\n'), 0);
    assert_eq!(char_width('\u{1}'), 2);
    assert_eq!(char_width('\u{7f}'), 2);
    assert_eq!(char_width('\u{85}'), 4);
    assert_eq!(char_width(' '), 1);
    assert_eq!(char_width('~'), 1);
    assert_eq!(char_width('\u{e9}'), 1);
    assert_eq!(char_width('\u{301}'), 0);
    assert_eq!(char_width('\u{36f}'), 0);
    assert_eq!(char_width('\u{370}'), 1);
    assert_eq!(char_width('\u{4e2d}'), 2);
    assert_eq!(char_width('\u{1100}'), 2);
    assert_eq!(char_width('\u{1160}'), 0);
    assert_eq!(char_width('\u{16fe4}'), 0);
    assert_eq!(char_width('\u{1f600}'), 2);
    assert_eq!(char_width('\u{3ffff}'), 2);
    assert_eq!(char_width('\u{e01ef}'), 0);
}

#[test]
fn width_of_a_text_is_that_of_its_parts() {
    assert_eq!(string_width(""), 0);
    assert_eq!(string_width("abc"), 3);
    assert_eq!(string_width("a\u{4e2d}\u{301}"), 3);
    assert_eq!(
        string_width("a\u{4e2d}") + string_width("\tb"),
        string_width("a\u{4e2d}\tb")
    );
}

#[test]
fn classes_of_characters() {
    assert!(is_printable('a'));
    assert!(is_printable('\u{a0}'));
    assert!(!is_printable('\u{1f}'));
    assert!(!is_printable('\u{7f}'));
    assert!(!is_printable('\u{9f}'));
    for c in [' ', '\t', '\n', '\r', '\u{b}', '\u{c}'] {
        assert!(is_whitespace(c));
    }
    assert!(!is_whitespace('\u{a0}'));
    assert!(is_word_char('a'));
    assert!(is_word_char('9'));
    assert!(is_word_char('_'));
    assert!(is_word_char('\u{4e2d}'));
    assert!(is_word_char('\u{bd}'));
    assert!(!is_word_char('-'));
    assert!(!is_word_char('\u{2014}'));
    assert!(is_word_constituent('-', true));
    assert!(is_word_constituent('_', false));
    assert!(!is_word_constituent('a', false));
}

#[test]
fn ascii_and_multibyte_texts() {
    assert!(is_ascii_string("abc\u{7f}"));
    assert!(!is_ascii_string("ab\u{80}"));
    assert!(!is_multibyte_string("abc"));
    assert!(is_multibyte_string("ab\u{e9}"));
    assert!(!is_multibyte_string("a\u{e3ff}\u{e300}"));
    assert!(is_multibyte_string("\u{e400}"));
}

#[test]
fn glyphless_forms() {
    assert_eq!(glyphless_char_display('\u{0}'), "^@");
    assert_eq!(glyphless_char_display('\u{1}'), "^A");
    assert_eq!(glyphless_char_display('\u{1f}'), "^_");
    assert_eq!(glyphless_char_display('\u{7f}'), "^?");
    assert_eq!(glyphless_char_display('A'), "\\101");
    assert_eq!(glyphless_char_display(' '), "\\040");
    assert_eq!(glyphless_char_display('\u{e9}'), "\\351");
    assert_eq!(glyphless_char_display('\u{100}'), "\\u0100");
    assert_eq!(glyphless_char_display('\u{4e2d}'), "\\u4E2D");
    assert_eq!(glyphless_char_display('\u{1f600}'), "\\U0001F600");
}

#[test]
fn positions_in_characters_and_bytes() {
    let s = "a\u{e9}\u{4e2d}\u{1f600}";
    assert_eq!(char_to_byte_pos(s, 0), 0);
    assert_eq!(char_to_byte_pos(s, 2), 3);
    assert_eq!(char_to_byte_pos(s, 3), 6);
    assert_eq!(char_to_byte_pos(s, 4), 10);
    assert_eq!(char_to_byte_pos(s, 99), 10);
    assert_eq!(byte_to_char_pos(s, 3), 2);
    assert_eq!(byte_to_char_pos(s, 99), 4);
    for n in 0..5 {
        assert_eq!(byte_to_char_pos(s, char_to_byte_pos(s, n)), n);
    }
}

#[test]
fn raw_bytes_are_characters() {
    assert_eq!(unibyte_to_char(0x41), 0x41);
    assert_eq!(unibyte_to_char(0xff), 0x3f_ffff);
    assert!(char_byte8_p(0x3f_ff80));
    assert!(!char_byte8_p(0xff));
    assert_eq!(char_to_byte8(0x3f_ffff), 0xff);
    assert_eq!(string_char(&[0xc3, 0xa9, 0x41], 0), (0xe9, 2));
    assert_eq!(decode_text(&[0xc3, 0xa9], true), vec![0xe9]);
    assert_eq!(decode_text(&[0xc3, 0xa9], false), vec![0xc3, 0xa9]);
    assert_eq!(
        bytes_to_multibyte_raw_string(&[0x41, 0x80, 0xff]),
        vec!['A', '\u{e080}', '\u{e0ff}']
    );
    assert_eq!(bytes_to_multibyte_raw_string(&[0xc3, 0xa9]).len(), 2);
}

// -- Coding systems --

#[test]
fn families_of_coding_systems() {
    assert_eq!(coding_system_family("latin-1-dos"), "iso-latin-1");
    assert_eq!(coding_system_family("iso-8859-9"), "iso-latin-5");
    assert_eq!(coding_system_family("latin-0-unix"), "iso-latin-9");
    assert_eq!(coding_system_family("gb2312"), "chinese-iso-8bit");
    assert_eq!(coding_system_family("cp950-mac"), "chinese-big5");
    assert_eq!(coding_system_family("big5-hkscs"), "chinese-big5-hkscs");
    assert_eq!(coding_system_family("emacs-internal"), "utf-8-emacs");
    assert_eq!(coding_system_family("utf-8-unix"), "utf-8");
    assert_eq!(coding_system_family("other"), "other");
    assert!(is_byte_preserving_coding_system("raw-text-dos"));
    assert!(is_byte_preserving_coding_system("binary"));
    assert!(!is_byte_preserving_coding_system("binary-dos"));
    assert_eq!(
        utf16_coding_variant("utf-16-dos"),
        Some((Utf16Endian::Big, true))
    );
    assert_eq!(
        utf16_coding_variant("utf-16le"),
        Some((Utf16Endian::Little, false))
    );
    assert_eq!(
        utf16_coding_variant("utf-16-le"),
        Some((Utf16Endian::Little, true))
    );
    assert_eq!(utf16_coding_variant("utf-8"), None);
}

#[test]
fn names_of_coding_systems() {
    let codings = CodingSystemManager::new();
    assert!(codings.is_known_or_derived("utf-8"));
    assert!(codings.is_known_or_derived("latin-1-dos"));
    assert!(!codings.is_known_or_derived("no-such-coding"));
    assert_eq!(
        codings.canonical_runtime_name("latin-1-dos"),
        Some("iso-latin-1-dos".to_string())
    );
    assert_eq!(
        codings.canonical_runtime_name("emacs-internal"),
        Some("utf-8-emacs".to_string())
    );
    assert_eq!(codings.canonical_runtime_name("no-such-coding"), None);
}

#[test]
fn line_endings() {
    assert_eq!(encode_string("a\nb", "utf-8-dos"), b"a\r\nb");
    assert_eq!(encode_string("a\nb", "utf-8-mac"), b"a\rb");
    assert_eq!(encode_string("a\nb", "utf-8-unix"), b"a\nb");
    assert_eq!(decode_bytes(b"a\r\nb\rc", "utf-8-dos"), "a\nb\rc");
    assert_eq!(decode_bytes(b"a\r\nb", "utf-8-mac"), "a\n\nb");
    assert_eq!(decode_bytes(b"a\r\nb", "utf-8"), "a\r\nb");
    for coding in ["utf-8-dos", "utf-8-mac", "utf-8-unix", "latin-1-dos"] {
        assert_eq!(
            decode_bytes(&encode_string("x\n\ny\n", coding), coding),
            "x\n\ny\n"
        );
    }
}

#[test]
fn utf8_keeps_raw_bytes() {
    assert_eq!(encode_string("\u{e9}", "utf-8"), vec![0xc3, 0xa9]);
    let text = decode_bytes(&[0x61, 0xff, 0xc3, 0xa9, 0xc3], "utf-8");
    assert_eq!(text, "a\u{e0ff}\u{e9}\u{e0c3}");
    assert_eq!(
        encode_string(&text, "utf-8"),
        vec![0x61, 0xff, 0xc3, 0xa9, 0xc3]
    );
    let out: String = decode_utf8_emacs_bytes(&[0xf0, 0x9f, 0x98, 0x80])
        .into_iter()
        .collect();
    assert_eq!(out, "\u{1f600}");
    assert_eq!(encode_utf8_emacs_text(&['\u{e341}', 'b']), vec![0x41, 0x62]);
}

#[test]
fn long_utf8_forms() {
    let mut out = Vec::new();
    encode_emacs_utf8_codepoint(0x7f, &mut out);
    encode_emacs_utf8_codepoint(0x7ff, &mut out);
    encode_emacs_utf8_codepoint(0x20_0000, &mut out);
    encode_emacs_utf8_codepoint(0x40_0000, &mut out);
    assert_eq!(
        out,
        vec![
            0x7f, 0xdf, 0xbf, 0xf8, 0x88, 0x80, 0x80, 0x80, 0xfc, 0x80, 0x90, 0x80, 0x80, 0x80
        ]
    );
}

#[test]
fn single_byte_coding_systems() {
    assert_eq!(encode_string("\u{e9}\u{20ac}", "latin-1"), vec![0xe9, b'?']);
    assert_eq!(encode_string("\u{20ac}\u{178}", "latin-9"), vec![0xa4, 0xbe]);
    assert_eq!(encode_string("\u{11e}\u{15f}", "latin-5"), vec![0xd0, 0xfe]);
    assert_eq!(encode_string("a\u{e9}", "us-ascii"), vec![b'a', b'?']);
    assert_eq!(decode_bytes(&[0xa4, 0xe9], "iso-8859-15"), "\u{20ac}\u{e9}");
    assert_eq!(decode_bytes(&[0xdd], "iso-8859-9"), "\u{130}");
    assert_eq!(decode_bytes(&[b'a', 0xe9], "ascii"), "a?");
    for coding in ["latin-1", "latin-9", "latin-5"] {
        let all: Vec<u8> = (0..=255).collect();
        assert_eq!(encode_string(&decode_bytes(&all, coding), coding), all);
    }
}

#[test]
fn big5_goes_through_its_table() {
    assert_eq!(encode_string("\u{4e2d}a", "big5"), vec![0xa4, 0xa4, 0x61]);
    assert_eq!(decode_bytes(&[0xa4, 0xa4, 0x61], "big5"), "\u{4e2d}a");
    assert_eq!(decode_bytes(&[0xff], "big5"), "\u{fffd}");
    assert_eq!(encode_string("\u{1f600}", "big5-hkscs"), b"&#128512;");
    assert_eq!(encode_string("plain\n", "big5-dos"), b"plain\r\n");
    assert_eq!(
        decode_bytes(&encode_string("plain\n", "big5-dos"), "big5-dos"),
        "plain\n"
    );
}

#[test]
fn gb2312_goes_through_its_table() {
    assert_eq!(encode_string("\u{4e2d}a", "gb2312"), vec![0xd6, 0xd0, 0x61]);
    assert_eq!(decode_bytes(&[0xd6, 0xd0, 0x61], "euc-cn"), "\u{4e2d}a");
    assert_eq!(encode_string("\u{1f600}", "cn-gb"), b"&#128512;");
    assert_eq!(
        decode_bytes(&encode_string("plain", "gb2312"), "gb2312"),
        "plain"
    );
}

#[test]
fn unknown_coding_systems_are_utf8() {
    assert_eq!(encode_string("\u{e9}", "other"), vec![0xc3, 0xa9]);
    assert_eq!(decode_bytes(&[0xc3, 0xa9], "other"), "\u{e9}");
    assert_eq!(decode_bytes(&[0xff, 0x61], "other"), "\u{fffd}a");
}

#[test]
fn utf16_coding_systems() {
    assert_eq!(encode_string("A", "utf-16"), vec![0xfe, 0xff, 0x00, 0x41]);
    assert_eq!(encode_string("A", "utf-16le"), vec![0x41, 0x00]);
    assert_eq!(
        encode_string("\u{1f600}", "utf-16be"),
        vec![0xd8, 0x3d, 0xde, 0x00]
    );
    assert_eq!(
        encode_string("\n", "utf-16le-dos"),
        vec![0x0d, 0x00, 0x0a, 0x00]
    );
    assert_eq!(decode_bytes(&[0xff, 0xfe, 0x41, 0x00], "utf-16be"), "A");
    assert_eq!(decode_bytes(&[0x00, 0x41, 0x00], "utf-16be"), "A\u{fffd}");
    assert_eq!(
        decode_bytes(&[0xd8, 0x3d, 0x00, 0x41], "utf-16be"),
        "\u{fffd}A"
    );
    for coding in ["utf-16", "utf-16le", "utf-16-le", "utf-16be"] {
        let s = "a\u{e9}\u{4e2d}\u{1f600}";
        assert_eq!(decode_bytes(&encode_string(s, coding), coding), s);
    }
}

#[test]
fn lisp_strings_are_encoded_by_their_characters() {
    let raw = LispString::from_unibyte(vec![0xe9, 0x0a]);
    assert_eq!(encode_lisp_string(&raw, "utf-8-dos"), vec![0xe9, 0x0d, 0x0a]);
    assert_eq!(encode_lisp_string(&raw, "latin-1"), vec![0xe9, 0x0a]);
    assert_eq!(encode_lisp_string(&raw, "utf-16be"), vec![0, 0xe9, 0, 0x0a]);
    let text = LispString::from_multibyte("\u{e9}\u{20ac}".as_bytes().to_vec());
    assert_eq!(encode_lisp_string(&text, "latin-1"), vec![0xe9, b'?']);
    assert_eq!(encode_lisp_string(&text, "iso-8859-15"), vec![0xe9, 0xa4]);
    assert_eq!(encode_lisp_string(&text, "us-ascii"), b"??");
    assert_eq!(encode_lisp_string(&text, "other"), Vec::<u8>::new());
    assert_eq!(
        encode_lisp_string(&text, "raw-text"),
        "\u{e9}\u{20ac}".as_bytes()
    );
    let chinese = LispString::from_multibyte("\u{4e2d}".as_bytes().to_vec());
    assert_eq!(encode_lisp_string(&chinese, "gb2312"), vec![0xd6, 0xd0]);
    assert_eq!(encode_lisp_string(&chinese, "big5"), vec![0xa4, 0xa4]);
}

// -- Builtins --

#[test]
fn encode_coding_string_makes_bytes() {
    let encoded =
        builtin_encode_coding_string(&vec![Value::string("\u{e9}\n"), symbol("utf-8-dos")]).unwrap();
    assert_eq!(encoded, unibyte(vec![0xc3, 0xa9, 0x0d, 0x0a]));
    let same = builtin_encode_coding_string(&vec![Value::string("x"), Value::Nil]).unwrap();
    assert_eq!(same, Value::string("x"));
    assert_eq!(
        error_of(builtin_encode_coding_string(&vec![
            Value::string("x"),
            symbol("no-such-coding")
        ])),
        Value::list2(symbol("coding-system-error"), symbol("no-such-coding"))
    );
    assert_eq!(
        error_of(builtin_encode_coding_string(&vec![
            Value::Int(1),
            symbol("utf-8")
        ])),
        wrong_type("stringp", Value::Int(1))
    );
    assert_eq!(
        error_of(builtin_encode_coding_string(&vec![
            Value::string("x"),
            Value::Int(1)
        ])),
        wrong_type("symbolp", Value::Int(1))
    );
    assert_eq!(
        error_of(builtin_encode_coding_string(&vec![Value::string("x")])),
        Value::list3(
            symbol("wrong-number-of-arguments"),
            symbol("encode-coding-string"),
            Value::Int(1)
        )
    );
}

#[test]
fn decode_coding_string_makes_text() {
    let decode = |bytes: Vec<u8>, coding: &str| {
        builtin_decode_coding_string(&vec![unibyte(bytes), symbol(coding)]).unwrap()
    };
    let utf8 = decode(vec![0xc3, 0xa9], "utf-8");
    assert_eq!(utf8, Value::string("\u{e9}"));
    let raw = decode(vec![0xe9, 0x0d, 0x0a], "raw-text-dos");
    assert_eq!(raw, unibyte(vec![0xe9, 0x0a]));
    let binary = decode(vec![0xe9, 0x0d, 0x0a], "binary");
    assert_eq!(binary, unibyte(vec![0xe9, 0x0d, 0x0a]));

    let latin = decode(vec![b'a', 0xe9], "latin-1");
    assert_eq!(bytes_of(&latin), "a\u{e9}".as_bytes());
    assert_eq!(
        runs_of(&latin),
        Value::list1(Value::list3(
            Value::Int(0),
            Value::Int(2),
            Value::list2(symbol("charset"), symbol("iso-8859-1"))
        ))
    );
    let chinese = decode(vec![b'a', 0xd6, 0xd0], "gb2312");
    assert_eq!(bytes_of(&chinese), "a\u{4e2d}".as_bytes());
    assert_eq!(
        runs_of(&chinese),
        Value::list1(Value::list3(
            Value::Int(1),
            Value::Int(2),
            Value::list2(symbol("charset"), symbol("chinese-gb2312"))
        ))
    );
    let big5 = decode(vec![0xa4, 0xa4], "big5");
    assert_eq!(
        runs_of(&big5).car().cdr().cdr().car().cdr().car(),
        symbol("big5")
    );
    assert_eq!(runs_of(&decode(vec![b'a'], "latin-1")), Value::Nil);
    assert_eq!(runs_of(&decode(vec![0xe9], "latin-9")), Value::Nil);

    let codings = CodingSystemManager::new();
    let unknown = builtin_decode_coding_string_with_known(
        &vec![unibyte(vec![0x61]), symbol("no-such-coding")],
        &KnownCodings::Of(&codings),
    );
    assert_eq!(
        error_of(unknown),
        Value::list2(symbol("coding-system-error"), symbol("no-such-coding"))
    );
    let any = builtin_decode_coding_string_with_known(
        &vec![unibyte(vec![0x61]), symbol("no-such-coding")],
        &KnownCodings::Any,
    );
    assert_eq!(bytes_of(&any.unwrap()), b"a");
}

#[test]
fn decoding_undoes_encoding() {
    for coding in ["utf-8", "utf-8-dos", "utf-8-emacs-mac", "raw-text-dos", "no-conversion"] {
        let text = Value::string("a\u{4e2d}\nb");
        let bytes = bytes_of(&text);
        let encoded = builtin_encode_coding_string(&vec![text, symbol(coding)]).unwrap();
        let decoded = builtin_decode_coding_string(&vec![encoded, symbol(coding)]).unwrap();
        assert_eq!(bytes_of(&decoded), bytes, "{}", coding);
    }
}

#[test]
fn builtins_on_characters_and_strings() {
    assert_eq!(
        builtin_char_width(&vec![Value::Int(0x4e2d)]),
        Ok(Value::Int(2))
    );
    assert_eq!(
        builtin_char_width(&vec![Value::Int(0x3f_ffff)]),
        Ok(Value::Int(1))
    );
    assert_eq!(
        error_of(builtin_char_width(&vec![Value::Int(-1)])),
        wrong_type("characterp", Value::Int(-1))
    );
    assert_eq!(
        error_of(builtin_char_width(&vec![Value::string("a")])),
        wrong_type("characterp", Value::string("a"))
    );
    assert_eq!(
        error_of(builtin_char_width(&vec![Value::Int(0xd800), Value::Nil])),
        Value::list3(
            symbol("wrong-number-of-arguments"),
            symbol("char-width"),
            Value::Int(2)
        )
    );
    assert_eq!(
        builtin_string_bytes(&vec![Value::string("\u{4e2d}a")]),
        Ok(Value::Int(4))
    );
    assert_eq!(
        error_of(builtin_string_bytes(&vec![Value::Nil])),
        wrong_type("stringp", Value::Nil)
    );
    assert_eq!(
        builtin_multibyte_string_p(&vec![Value::string("\u{e9}")]),
        Ok(Value::True)
    );
    assert_eq!(
        builtin_multibyte_string_p(&vec![unibyte(vec![0xe9])]),
        Ok(Value::Nil)
    );
    assert_eq!(
        builtin_unibyte_string_p(&vec![unibyte(vec![0xe9])]),
        Ok(Value::True)
    );
    assert_eq!(builtin_unibyte_string_p(&vec![Value::Int(1)]), Ok(Value::Nil));
    assert_eq!(
        builtin_char_or_string_p(&vec![Value::Int(0x40_0000)]),
        Ok(Value::Nil)
    );
    assert_eq!(
        builtin_char_or_string_p(&vec![Value::Int(0x3f_ffff)]),
        Ok(Value::True)
    );
    assert_eq!(
        builtin_char_displayable_p(&vec![Value::Int(0x41)]),
        Ok(Value::True)
    );
    assert_eq!(
        builtin_char_displayable_p(&vec![Value::Int(0x80)]),
        Ok(symbol("unicode"))
    );
    assert_eq!(
        builtin_char_displayable_p(&vec![Value::Int(0x11_0000)]),
        Ok(Value::Nil)
    );
    assert_eq!(
        error_of(builtin_char_displayable_p(&vec![Value::Nil])),
        wrong_type("number-or-marker-p", Value::Nil)
    );
    assert_eq!(builtin_max_char(&vec![]), Ok(Value::Int(0x3f_ffff)));
    assert_eq!(
        builtin_max_char(&vec![Value::True]),
        Ok(Value::Int(0x10_ffff))
    );
    assert!(builtin_max_char(&vec![Value::Nil, Value::Nil]).is_err());
}

// -- Commands on a session --

#[test]
fn coding_strings_note_the_coding_system() {
    let mut s = session("");
    let encoded = builtin_encode_coding_string_in_context(
        &mut s,
        &vec![Value::string("\u{e9}"), symbol("latin-1-unix")],
    )
    .unwrap();
    assert_eq!(encoded, unibyte(vec![0xe9]));
    assert_eq!(
        s.obarray.symbol_value("last-coding-system-used"),
        Some(symbol("iso-latin-1-unix"))
    );
    let id = s.ui.buffers.current_buffer_id().unwrap();
    let count = builtin_decode_coding_string_in_context(
        &mut s,
        &vec![
            unibyte(vec![0xc3, 0xa9, 0x61]),
            symbol("utf-8"),
            Value::Nil,
            Value::Buffer(id),
        ],
    );
    assert_eq!(count, Ok(Value::Int(2)));
    assert_eq!(s.ui.buffers.list[0].text, "\u{e9}a".as_bytes());
    assert_eq!(s.ui.buffers.list[0].pt, 0);
    let gone = builtin_decode_coding_string_in_context(
        &mut s,
        &vec![
            unibyte(vec![0x61]),
            symbol("utf-8"),
            Value::Nil,
            Value::Buffer(99),
        ],
    );
    assert_eq!(
        error_of(gone),
        Value::list2(symbol("error"), Value::string("Selecting deleted buffer"))
    );
    let unknown = builtin_encode_coding_string_in_context(
        &mut s,
        &vec![Value::string("x"), symbol("no-such-coding")],
    );
    assert_eq!(
        error_of(unknown),
        Value::list2(symbol("coding-system-error"), symbol("no-such-coding"))
    );
}

#[test]
fn coding_regions_replace_or_return_or_insert() {
    let mut s = session("a\u{e9}b");
    let id = s.ui.buffers.current_buffer_id().unwrap();
    let other = s.ui.buffers.create_buffer("other");
    let region = |coding: &str, destination: Value| {
        vec![Value::Int(3), Value::Int(2), symbol(coding), destination]
    };
    let returned = builtin_encode_coding_region(&mut s, &region("latin-1", Value::True));
    assert_eq!(returned, Ok(unibyte(vec![0xe9])));
    assert_eq!(s.ui.buffers.get(id).unwrap().text, "a\u{e9}b".as_bytes());

    let inserted = builtin_encode_coding_region(&mut s, &region("utf-8", Value::Buffer(other)));
    assert_eq!(inserted, Ok(Value::Int(2)));
    assert_eq!(s.ui.buffers.get(id).unwrap().text, "a\u{e9}b".as_bytes());

    let replaced = builtin_decode_coding_region(
        &mut s,
        &vec![Value::Int(1), Value::Int(2), symbol("utf-8")],
    );
    assert_eq!(replaced, Ok(Value::Int(1)));
    assert_eq!(s.ui.buffers.get(id).unwrap().text, "a\u{e9}b".as_bytes());
    assert_eq!(
        s.obarray.symbol_value("last-coding-system-used"),
        Some(symbol("utf-8"))
    );

    let outside = builtin_encode_coding_region(
        &mut s,
        &vec![Value::Int(0), Value::Int(2), symbol("utf-8")],
    );
    assert_eq!(error_of(outside).car(), symbol("args-out-of-range"));
    let few = builtin_encode_coding_region(&mut s, &vec![Value::Int(1), Value::Int(2)]);
    assert_eq!(error_of(few).car(), symbol("wrong-number-of-arguments"));
    let wrong = builtin_encode_coding_region(&mut s, &region("utf-8", Value::Int(7)));
    assert_eq!(error_of(wrong), wrong_type("bufferp", Value::Int(7)));
}

#[test]
fn charset_runs_start_at_the_first_non_ascii_character() {
    let text: Vec<char> = "ab\u{4E2D}c".chars().collect();
    let run = |start: i64, charset: &str| {
        Value::list1(Value::list3(
            Value::fixnum(start),
            Value::fixnum(4),
            Value::list2(symbol("charset"), symbol(charset)),
        ))
    };
    assert_eq!(charset_property_runs(&text, "big5"), run(2, "big5"));
    assert_eq!(charset_property_runs(&text, "iso-8859-1"), run(0, "iso-8859-1"));
    let ascii: Vec<char> = "abc".chars().collect();
    assert!(charset_property_runs(&ascii, "big5").is_nil());
}
