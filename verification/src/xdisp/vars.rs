//! The variables that redisplay starts with.
use crate::symbol::{Obarray, Symbols};
use crate::value::{cons, list2, list4, lstr, sym, Lisp, Value};
use vstd::prelude::*;

verus! {

/// The variables about redisplay in general and about the bars of frames.
pub open spec fn with_bar_vars(s: Symbols) -> Symbols {
    s.bind(
        "redisplay--inhibit-bidi"@,
        Lisp::True,
    ).bind(
        "inhibit-redisplay"@,
        Lisp::Nil,
    ).bind(
        "blink-matching-delay"@,
        Lisp::Int(1),
    ).bind(
        "blink-matching-paren"@,
        Lisp::True,
    ).bind(
        "mouse-autoselect-window"@,
        Lisp::Nil,
    ).bind(
        "auto-resize-tab-bars"@,
        Lisp::True,
    ).bind(
        "auto-raise-tab-bar-buttons"@,
        Lisp::True,
    ).bind(
        "auto-resize-tool-bars"@,
        Lisp::True,
    ).bind(
        "auto-raise-tool-bar-buttons"@,
        Lisp::True,
    ).bind(
        "tab-bar-truncate"@,
        Lisp::Nil,
    ).bind(
        "tab-bar-border"@,
        sym("internal-border-width"@),
    ).bind(
        "tab-bar-button-margin"@,
        Lisp::Int(1),
    ).bind(
        "tab-bar-button-relief"@,
        Lisp::Int(1),
    ).bind(
        "tool-bar-border"@,
        sym("internal-border-width"@),
    ).bind(
        "tool-bar-button-margin"@,
        Lisp::Int(4),
    ).bind(
        "tool-bar-button-relief"@,
        Lisp::Int(1),
    ).bind(
        "tool-bar-style"@,
        Lisp::Nil,
    )
}

/// The variables about redisplay in general and about the bars of frames.
fn set_bar_vars(obarray: &mut Obarray)
    ensures
        final(obarray)@ == with_bar_vars(old(obarray)@),
{
    obarray.set_symbol_value("redisplay--inhibit-bidi", Value::True);
    obarray.set_symbol_value("inhibit-redisplay", Value::Nil);
    obarray.set_symbol_value("blink-matching-delay", Value::Int(1));
    obarray.set_symbol_value("blink-matching-paren", Value::True);
    obarray.set_symbol_value("mouse-autoselect-window", Value::Nil);
    obarray.set_symbol_value("auto-resize-tab-bars", Value::True);
    obarray.set_symbol_value("auto-raise-tab-bar-buttons", Value::True);
    obarray.set_symbol_value("auto-resize-tool-bars", Value::True);
    obarray.set_symbol_value("auto-raise-tool-bar-buttons", Value::True);
    obarray.set_symbol_value("tab-bar-truncate", Value::Nil);
    obarray.set_symbol_value("tab-bar-border", Value::symbol("internal-border-width"));
    obarray.set_symbol_value("tab-bar-button-margin", Value::Int(1));
    obarray.set_symbol_value("tab-bar-button-relief", Value::Int(1));
    obarray.set_symbol_value("tool-bar-border", Value::symbol("internal-border-width"));
    obarray.set_symbol_value("tool-bar-button-margin", Value::Int(4));
    obarray.set_symbol_value("tool-bar-button-relief", Value::Int(1));
    obarray.set_symbol_value("tool-bar-style", Value::Nil);
}

/// The variables about line numbers, fill columns, bells and truncation.
pub open spec fn with_line_vars(s: Symbols) -> Symbols {
    s.bind(
        "global-font-lock-mode"@,
        Lisp::Nil,
    ).bind(
        "display-line-numbers"@,
        Lisp::Nil,
    ).bind(
        "display-line-numbers-type"@,
        Lisp::True,
    ).bind(
        "display-line-numbers-width"@,
        Lisp::Nil,
    ).bind(
        "display-line-numbers-current-absolute"@,
        Lisp::True,
    ).bind(
        "display-line-numbers-widen"@,
        Lisp::Nil,
    ).bind(
        "display-fill-column-indicator"@,
        Lisp::Nil,
    ).bind(
        "display-fill-column-indicator-column"@,
        Lisp::Nil,
    ).bind(
        "display-fill-column-indicator-character"@,
        Lisp::Nil,
    ).bind(
        "visible-bell"@,
        Lisp::Nil,
    ).bind(
        "no-redraw-on-reenter"@,
        Lisp::Nil,
    ).bind(
        "cursor-in-echo-area"@,
        Lisp::Nil,
    ).bind(
        "truncate-partial-width-windows"@,
        Lisp::Int(50),
    ).bind(
        "mode-line-in-non-selected-windows"@,
        Lisp::True,
    ).bind(
        "line-number-display-limit"@,
        Lisp::Nil,
    ).bind(
        "highlight-nonselected-windows"@,
        Lisp::Nil,
    ).bind(
        "message-truncate-lines"@,
        Lisp::Nil,
    )
}

/// The variables about line numbers, fill columns, bells and truncation.
fn set_line_vars(obarray: &mut Obarray)
    ensures
        final(obarray)@ == with_line_vars(old(obarray)@),
{
    obarray.set_symbol_value("global-font-lock-mode", Value::Nil);
    obarray.set_symbol_value("display-line-numbers", Value::Nil);
    obarray.set_symbol_value("display-line-numbers-type", Value::True);
    obarray.set_symbol_value("display-line-numbers-width", Value::Nil);
    obarray.set_symbol_value("display-line-numbers-current-absolute", Value::True);
    obarray.set_symbol_value("display-line-numbers-widen", Value::Nil);
    obarray.set_symbol_value("display-fill-column-indicator", Value::Nil);
    obarray.set_symbol_value("display-fill-column-indicator-column", Value::Nil);
    obarray.set_symbol_value("display-fill-column-indicator-character", Value::Nil);
    obarray.set_symbol_value("visible-bell", Value::Nil);
    obarray.set_symbol_value("no-redraw-on-reenter", Value::Nil);
    obarray.set_symbol_value("cursor-in-echo-area", Value::Nil);
    obarray.set_symbol_value("truncate-partial-width-windows", Value::Int(50));
    obarray.set_symbol_value("mode-line-in-non-selected-windows", Value::True);
    obarray.set_symbol_value("line-number-display-limit", Value::Nil);
    obarray.set_symbol_value("highlight-nonselected-windows", Value::Nil);
    obarray.set_symbol_value("message-truncate-lines", Value::Nil);
}

/// The variables about scrolling, cursors and arrows.
pub open spec fn with_scroll_vars(s: Symbols) -> Symbols {
    s.bind(
        "scroll-step"@,
        Lisp::Int(0),
    ).bind(
        "scroll-conservatively"@,
        Lisp::Int(0),
    ).bind(
        "scroll-margin"@,
        Lisp::Int(0),
    ).bind(
        "hscroll-margin"@,
        Lisp::Int(5),
    ).bind(
        "hscroll-step"@,
        Lisp::Int(0),
    ).bind(
        "auto-hscroll-mode"@,
        Lisp::True,
    ).bind(
        "void-text-area-pointer"@,
        sym("arrow"@),
    ).bind(
        "inhibit-message"@,
        Lisp::Nil,
    ).bind(
        "make-cursor-line-fully-visible"@,
        Lisp::True,
    ).bind(
        "x-stretch-cursor"@,
        Lisp::Nil,
    ).bind(
        "inhibit-try-cursor-movement"@,
        Lisp::Nil,
    ).bind(
        "show-trailing-whitespace"@,
        Lisp::Nil,
    ).bind(
        "show-paren-context-when-offscreen"@,
        Lisp::Nil,
    ).bind(
        "nobreak-char-display"@,
        Lisp::True,
    ).bind(
        "overlay-arrow-variable-list"@,
        Lisp::Nil,
    ).bind(
        "overlay-arrow-string"@,
        lstr("=>"@),
    ).bind(
        "overlay-arrow-position"@,
        Lisp::Nil,
    )
}

/// The variables about scrolling, cursors and arrows.
fn set_scroll_vars(obarray: &mut Obarray)
    ensures
        final(obarray)@ == with_scroll_vars(old(obarray)@),
{
    obarray.set_symbol_value("scroll-step", Value::Int(0));
    obarray.set_symbol_value("scroll-conservatively", Value::Int(0));
    obarray.set_symbol_value("scroll-margin", Value::Int(0));
    obarray.set_symbol_value("hscroll-margin", Value::Int(5));
    obarray.set_symbol_value("hscroll-step", Value::Int(0));
    obarray.set_symbol_value("auto-hscroll-mode", Value::True);
    obarray.set_symbol_value("void-text-area-pointer", Value::symbol("arrow"));
    obarray.set_symbol_value("inhibit-message", Value::Nil);
    obarray.set_symbol_value("make-cursor-line-fully-visible", Value::True);
    obarray.set_symbol_value("x-stretch-cursor", Value::Nil);
    obarray.set_symbol_value("inhibit-try-cursor-movement", Value::Nil);
    obarray.set_symbol_value("show-trailing-whitespace", Value::Nil);
    obarray.set_symbol_value("show-paren-context-when-offscreen", Value::Nil);
    obarray.set_symbol_value("nobreak-char-display", Value::True);
    obarray.set_symbol_value("overlay-arrow-variable-list", Value::Nil);
    obarray.set_symbol_value("overlay-arrow-string", Value::string("=>"));
    obarray.set_symbol_value("overlay-arrow-position", Value::Nil);
}

/// How many extra slots the character tables of each subtype have.
pub open spec fn with_extra_slots(s: Symbols) -> Symbols {
    s.put(
        "case-table"@,
        "char-table-extra-slots"@,
        Lisp::Int(3),
    ).put(
        "category-table"@,
        "char-table-extra-slots"@,
        Lisp::Int(2),
    ).put(
        "char-script-table"@,
        "char-table-extra-slots"@,
        Lisp::Int(1),
    ).put(
        "translation-table"@,
        "char-table-extra-slots"@,
        Lisp::Int(2),
    ).put(
        "fontset"@,
        "char-table-extra-slots"@,
        Lisp::Int(8),
    ).put(
        "fontset-info"@,
        "char-table-extra-slots"@,
        Lisp::Int(1),
    ).put(
        "glyphless-char-display"@,
        "char-table-extra-slots"@,
        Lisp::Int(1),
    ).put(
        "keymap"@,
        "char-table-extra-slots"@,
        Lisp::Int(0),
    ).put(
        "syntax-table"@,
        "char-table-extra-slots"@,
        Lisp::Int(0),
    )
}

/// How many extra slots the character tables of each subtype have.
fn set_extra_slots(obarray: &mut Obarray)
    ensures
        final(obarray)@ == with_extra_slots(old(obarray)@),
{
    obarray.put_property("case-table", "char-table-extra-slots", Value::Int(3));
    obarray.put_property("category-table", "char-table-extra-slots", Value::Int(2));
    obarray.put_property("char-script-table", "char-table-extra-slots", Value::Int(1));
    obarray.put_property("translation-table", "char-table-extra-slots", Value::Int(2));
    obarray.put_property("fontset", "char-table-extra-slots", Value::Int(8));
    obarray.put_property("fontset-info", "char-table-extra-slots", Value::Int(1));
    obarray.put_property("glyphless-char-display", "char-table-extra-slots", Value::Int(1));
    obarray.put_property("keymap", "char-table-extra-slots", Value::Int(0));
    obarray.put_property("syntax-table", "char-table-extra-slots", Value::Int(0));
}

/// A character table with a subtype, a default, extra slots and entries.
pub open spec fn char_table(subtype: Lisp, default: Lisp, extra: Lisp, entries: Lisp) -> Lisp {
    Lisp::CharTable(Box::new(list4(subtype, default, extra, entries)))
}

/// A character table with a subtype, a default, extra slots and entries.
pub fn make_char_table(subtype: Value, default: Value, extra: Value, entries: Value) -> (r: Value)
    ensures
        r@ == char_table(subtype@, default@, extra@, entries@),
{
    let l: Value = Value::list4(subtype, default, extra, entries);
    Value::CharTable(Box::new(l))
}

/// A list of some `nil`s.
pub open spec fn nils(n: nat) -> Lisp
    decreases n,
{
    if n == 0 {
        Lisp::Nil
    } else {
        cons(Lisp::Nil, nils((n - 1) as nat))
    }
}

/// A list of some `nil`s.
fn nil_list(n: usize) -> (r: Value)
    ensures
        r@ == nils(n as nat),
    decreases n,
{
    if n == 0 {
        Value::Nil
    } else {
        Value::cons(Value::Nil, nil_list(n - 1))
    }
}

/// The tables of characters that redisplay and editing start with, and the hooks of redisplay.
pub open spec fn with_char_tables(s: Symbols) -> Symbols {
    s.bind(
        "char-script-table"@,
        char_table(sym("char-script-table"@), Lisp::Nil, nils(1), Lisp::Nil),
    ).bind("pre-redisplay-function"@, Lisp::Nil).bind("pre-redisplay-functions"@, Lisp::Nil).bind(
        "auto-fill-chars"@,
        char_table(
            sym("auto-fill-chars"@),
            Lisp::Nil,
            Lisp::Nil,
            list2(cons(Lisp::Int(32), Lisp::True), cons(Lisp::Int(10), Lisp::True)),
        ),
    ).bind(
        "char-width-table"@,
        char_table(sym("char-width-table"@), Lisp::Int(1), Lisp::Nil, Lisp::Nil),
    ).bind("translation-table-vector"@, Lisp::Vector(Box::new(nils(16)))).bind(
        "translation-hash-table-vector"@,
        Lisp::Nil,
    ).bind(
        "printable-chars"@,
        char_table(sym("printable-chars"@), Lisp::True, Lisp::Nil, Lisp::Nil),
    ).bind("default-process-coding-system"@, Lisp::Nil).bind(
        "ambiguous-width-chars"@,
        char_table(Lisp::Nil, Lisp::Nil, Lisp::Nil, Lisp::Nil),
    ).bind(
        "text-property-default-nonsticky"@,
        list2(
            cons(sym("syntax-table"@), Lisp::True),
            cons(sym("display"@), Lisp::True),
        ),
    )
}

/// The tables of characters that redisplay and editing start with, and the hooks of redisplay.
fn set_char_tables(obarray: &mut Obarray)
    ensures
        final(obarray)@ == with_char_tables(old(obarray)@),
{
    obarray.set_symbol_value(
        "char-script-table",
        make_char_table(
            Value::symbol("char-script-table"),
            Value::Nil,
            nil_list(1),
            Value::Nil,
        ),
    );
    obarray.set_symbol_value("pre-redisplay-function", Value::Nil);
    obarray.set_symbol_value("pre-redisplay-functions", Value::Nil);
    obarray.set_symbol_value(
        "auto-fill-chars",
        make_char_table(
            Value::symbol("auto-fill-chars"),
            Value::Nil,
            Value::Nil,
            Value::list2(
                Value::cons(Value::Int(32), Value::True),
                Value::cons(Value::Int(10), Value::True),
            ),
        ),
    );
    obarray.set_symbol_value(
        "char-width-table",
        make_char_table(
            Value::symbol("char-width-table"),
            Value::Int(1),
            Value::Nil,
            Value::Nil,
        ),
    );
    let slots: Value = nil_list(16);
    obarray.set_symbol_value("translation-table-vector", Value::Vector(Box::new(slots)));
    obarray.set_symbol_value("translation-hash-table-vector", Value::Nil);
    obarray.set_symbol_value(
        "printable-chars",
        make_char_table(Value::symbol("printable-chars"), Value::True, Value::Nil, Value::Nil),
    );
    obarray.set_symbol_value("default-process-coding-system", Value::Nil);
    obarray.set_symbol_value(
        "ambiguous-width-chars",
        make_char_table(Value::Nil, Value::Nil, Value::Nil, Value::Nil),
    );
    obarray.set_symbol_value(
        "text-property-default-nonsticky",
        Value::list2(
            Value::cons(Value::symbol("syntax-table"), Value::True),
            Value::cons(Value::symbol("display"), Value::True),
        ),
    );
}

/// The variables of redisplay with their first values.
pub open spec fn with_redisplay_vars(s: Symbols) -> Symbols {
    with_char_tables(with_extra_slots(with_scroll_vars(with_line_vars(with_bar_vars(s))))).bind(
        "fontification-functions"@,
        Lisp::Nil,
    ).declared_special("fontification-functions"@).declared_local_if_set(
        "fontification-functions"@,
    )
}

/// Gives the variables of redisplay their first values.
pub fn register_bootstrap_vars(obarray: &mut Obarray)
    ensures
        final(obarray)@ == with_redisplay_vars(old(obarray)@),
{
    set_bar_vars(obarray);
    set_line_vars(obarray);
    set_scroll_vars(obarray);
    set_extra_slots(obarray);
    set_char_tables(obarray);
    obarray.set_symbol_value("fontification-functions", Value::Nil);
    obarray.make_special("fontification-functions");
    obarray.make_local_if_set("fontification-functions");
}

} // verus!
