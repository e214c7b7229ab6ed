//! The variables that windows start with.
use crate::symbol::{Obarray, Symbols};
use crate::value::{cons, list1, list4, sym, Lisp, Value};
use vstd::prelude::*;

verus! {

/// The bits of the float nearest to one third.
pub const ONE_THIRD: u64 = 0x3FD5_5555_5555_5555;

/// The variables about how windows are combined and fitted.
pub open spec fn with_combination_vars(s: Symbols) -> Symbols {
    s.bind("window-persistent-parameters"@, list1(cons(sym("clone-of"@), Lisp::True))).bind(
        "recenter-redisplay"@,
        sym("tty"@),
    ).bind("window-combination-resize"@, Lisp::Nil).bind(
        "window-combination-limit"@,
        Lisp::Nil,
    ).bind("window-sides-vertical"@, Lisp::Nil).bind("window-sides-slots"@, Lisp::Nil).bind(
        "window-resize-pixelwise"@,
        Lisp::Nil,
    ).bind("fit-window-to-buffer-horizontally"@, Lisp::Nil).bind(
        "fit-frame-to-buffer"@,
        Lisp::Nil,
    ).bind(
        "fit-frame-to-buffer-margins"@,
        list4(Lisp::Int(0), Lisp::Int(0), Lisp::Int(0), Lisp::Int(0)),
    ).bind("fit-frame-to-buffer-sizes"@, Lisp::Nil)
}

/// The variables about the sizes of windows and about scrolling.
pub open spec fn with_size_vars(s: Symbols) -> Symbols {
    s.bind("window-min-height"@, Lisp::Int(4)).bind("window-min-width"@, Lisp::Int(10)).bind(
        "window-safe-min-height"@,
        Lisp::Int(1),
    ).bind("window-safe-min-width"@, Lisp::Int(2)).bind(
        "scroll-preserve-screen-position"@,
        Lisp::Nil,
    ).bind("window-point-insertion-type"@, Lisp::Nil).bind(
        "next-screen-context-lines"@,
        Lisp::Int(2),
    ).bind("fast-but-imprecise-scrolling"@, Lisp::Nil).bind(
        "scroll-error-top-bottom"@,
        Lisp::Nil,
    ).bind("temp-buffer-max-height"@, Lisp::Float(ONE_THIRD)).bind(
        "temp-buffer-max-width"@,
        Lisp::Nil,
    ).bind("even-window-sizes"@, sym("width-only"@)).bind("auto-window-vscroll"@, Lisp::True)
}

/// Gives the variables of windows their first values.
pub fn register_bootstrap_vars(obarray: &mut Obarray)
    ensures
        final(obarray)@ == with_size_vars(with_combination_vars(old(obarray)@)),
{
    obarray.set_symbol_value(
        "window-persistent-parameters",
        Value::list1(Value::cons(Value::symbol("clone-of"), Value::True)),
    );
    obarray.set_symbol_value("recenter-redisplay", Value::symbol("tty"));
    obarray.set_symbol_value("window-combination-resize", Value::Nil);
    obarray.set_symbol_value("window-combination-limit", Value::Nil);
    obarray.set_symbol_value("window-sides-vertical", Value::Nil);
    obarray.set_symbol_value("window-sides-slots", Value::Nil);
    obarray.set_symbol_value("window-resize-pixelwise", Value::Nil);
    obarray.set_symbol_value("fit-window-to-buffer-horizontally", Value::Nil);
    obarray.set_symbol_value("fit-frame-to-buffer", Value::Nil);
    obarray.set_symbol_value(
        "fit-frame-to-buffer-margins",
        Value::list4(Value::Int(0), Value::Int(0), Value::Int(0), Value::Int(0)),
    );
    obarray.set_symbol_value("fit-frame-to-buffer-sizes", Value::Nil);
    proof {
        assert(obarray@ == with_combination_vars(old(obarray)@));
    }
    obarray.set_symbol_value("window-min-height", Value::Int(4));
    obarray.set_symbol_value("window-min-width", Value::Int(10));
    obarray.set_symbol_value("window-safe-min-height", Value::Int(1));
    obarray.set_symbol_value("window-safe-min-width", Value::Int(2));
    obarray.set_symbol_value("scroll-preserve-screen-position", Value::Nil);
    obarray.set_symbol_value("window-point-insertion-type", Value::Nil);
    obarray.set_symbol_value("next-screen-context-lines", Value::Int(2));
    obarray.set_symbol_value("fast-but-imprecise-scrolling", Value::Nil);
    obarray.set_symbol_value("scroll-error-top-bottom", Value::Nil);
    obarray.set_symbol_value("temp-buffer-max-height", Value::Float(ONE_THIRD));
    obarray.set_symbol_value("temp-buffer-max-width", Value::Nil);
    obarray.set_symbol_value("even-window-sizes", Value::symbol("width-only"));
    obarray.set_symbol_value("auto-window-vscroll", Value::True);
}

} // verus!
