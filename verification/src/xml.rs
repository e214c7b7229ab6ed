//! XML and compression builtins, which have neither a parser nor a decompressor behind them.
use crate::marker::{position_arg, position_of};
use crate::text::{append_chars, chars_of, string_of};
use crate::value::{
    arg, arg_or_nil, error_outcome, error_signal, expect_args, expect_args_range, list3, lstr,
    outcome, signalled, sym, views, wrong_type, wrong_type_argument, EvalResult, Flow, Lisp,
    Outcome, Value,
};
use crate::window_cmds::resolve::Found;
use crate::xdisp::simple::of_arity;
use vstd::prelude::*;

verus! {

/// What is given where a value is a string or nil; it is an error where it is neither.
pub open spec fn if_string_or_nil(v: Lisp, end: Outcome) -> Outcome {
    if v == Lisp::Nil || v is Str {
        end
    } else {
        wrong_type("stringp"@, v)
    }
}

/// Signals where a value is neither a string nor nil.
fn expect_optional_string(v: &Value) -> (r: Result<(), Flow>)
    ensures
        r is Ok <==> v@ == Lisp::Nil || v@ is Str,
        r matches Err(f) ==> signalled(f) == wrong_type("stringp"@, v@),
{
    if v.is_nil() || v.is_string() {
        Ok(())
    } else {
        Err(wrong_type_argument("stringp", v))
    }
}

/// What is given where a value is a position or nil; it is an error where it is neither.
pub open spec fn if_position_or_nil(v: Lisp, end: Outcome) -> Outcome {
    if v == Lisp::Nil {
        end
    } else {
        match position_arg(v) {
            Found::Is(_) => end,
            Found::Signal(o) => o,
        }
    }
}

/// The document that stands for every parsed one: its body is the name of the
/// function in parentheses, or an opening one where a region was given.
pub open spec fn html_envelope(name: Seq<char>, args: Seq<Lisp>) -> Lisp {
    let body = if args.len() <= 1 {
        lstr(seq!['('] + name + seq![')'])
    } else {
        lstr("("@)
    };
    list3(sym("html"@), Lisp::Nil, list3(sym("body"@), Lisp::Nil, body))
}

/// The document that stands for every parsed one.
pub fn html_parse_fallback(name: &str, args: &Vec<Value>) -> (r: Value)
    ensures
        r@ == html_envelope(name@, views(args@)),
{
    let body: Value = if args.len() <= 1 {
        let mut text: Vec<char> = Vec::new();
        text.push('(');
        append_chars(&mut text, chars_of(name).as_slice());
        text.push(')');
        proof {
            assert(text@ =~= seq!['('] + name@ + seq![')']);
        }
        Value::string(string_of(text.as_slice()).as_str())
    } else {
        Value::string("(")
    };
    Value::list3(
        Value::symbol("html"),
        Value::Nil,
        Value::list3(Value::symbol("body"), Value::Nil, body),
    )
}

/// `(libxml-parse-html-region START END &optional BASE-URL DISCARD-COMMENTS)`
pub open spec fn parse_html_region(args: Seq<Lisp>) -> Outcome {
    let document = if_string_or_nil(
        arg(args, 2),
        Outcome::Value(html_envelope("libxml-parse-html-region"@, args)),
    );
    of_arity(
        "libxml-parse-html-region"@,
        args,
        0,
        4,
        if args.len() < 2 {
            document
        } else if arg(args, 0) == Lisp::Nil {
            Outcome::Value(Lisp::Nil)
        } else {
            match position_arg(arg(args, 0)) {
                Found::Signal(o) => o,
                Found::Is(start) => if arg(args, 1) == Lisp::Nil {
                    document
                } else {
                    match position_arg(arg(args, 1)) {
                        Found::Signal(o) => o,
                        Found::Is(end) => if start == end {
                            Outcome::Value(Lisp::Nil)
                        } else {
                            document
                        },
                    }
                },
            }
        },
    )
}

/// `(libxml-parse-html-region START END &optional BASE-URL DISCARD-COMMENTS)` -> a
/// fixed document; nil for an empty region.
pub fn builtin_libxml_parse_html_region(args: &Vec<Value>) -> (r: EvalResult)
    ensures
        outcome(r) == parse_html_region(views(args@)),
{
    expect_args_range("libxml-parse-html-region", args, 0, 4)?;
    if args.len() >= 2 {
        let first: Value = arg_or_nil(args, 0);
        if first.is_nil() {
            return Ok(Value::Nil);
        }
        let start: i64 = position_of(&first)?;
        let second: Value = arg_or_nil(args, 1);
        if !second.is_nil() {
            let end: i64 = position_of(&second)?;
            if start == end {
                return Ok(Value::Nil);
            }
        }
    }
    expect_optional_string(&arg_or_nil(args, 2))?;
    Ok(html_parse_fallback("libxml-parse-html-region", args))
}

/// `(libxml-parse-xml-region START END &optional BASE-URL DISCARD-COMMENTS)`
pub open spec fn parse_xml_region(args: Seq<Lisp>) -> Outcome {
    of_arity(
        "libxml-parse-xml-region"@,
        args,
        0,
        4,
        if_position_or_nil(
            arg(args, 0),
            if_position_or_nil(
                arg(args, 1),
                if_string_or_nil(arg(args, 2), Outcome::Value(Lisp::Nil)),
            ),
        ),
    )
}

/// `(libxml-parse-xml-region START END &optional BASE-URL DISCARD-COMMENTS)` -> nil.
pub fn builtin_libxml_parse_xml_region(args: &Vec<Value>) -> (r: EvalResult)
    ensures
        outcome(r) == parse_xml_region(views(args@)),
{
    expect_args_range("libxml-parse-xml-region", args, 0, 4)?;
    let start: Value = arg_or_nil(args, 0);
    if !start.is_nil() {
        position_of(&start)?;
    }
    let end: Value = arg_or_nil(args, 1);
    if !end.is_nil() {
        position_of(&end)?;
    }
    expect_optional_string(&arg_or_nil(args, 2))?;
    Ok(Value::Nil)
}

/// `(libxml-available-p)` -> t.
pub fn builtin_libxml_available_p(args: &Vec<Value>) -> (r: EvalResult)
    ensures
        outcome(r) == of_arity(
            "libxml-available-p"@,
            views(args@),
            0,
            0,
            Outcome::Value(Lisp::True),
        ),
{
    expect_args("libxml-available-p", args, 0)?;
    Ok(Value::True)
}

/// `(zlib-available-p)` -> t.
pub fn builtin_zlib_available_p(args: &Vec<Value>) -> (r: EvalResult)
    ensures
        outcome(r) == of_arity(
            "zlib-available-p"@,
            views(args@),
            0,
            0,
            Outcome::Value(Lisp::True),
        ),
{
    expect_args("zlib-available-p", args, 0)?;
    Ok(Value::True)
}

/// `(zlib-decompress-region START END &optional ALLOW-PARTIAL)`
pub open spec fn decompress_region(args: Seq<Lisp>) -> Outcome {
    of_arity(
        "zlib-decompress-region"@,
        args,
        2,
        3,
        match position_arg(arg(args, 0)) {
            Found::Signal(o) => o,
            Found::Is(_) => match position_arg(arg(args, 1)) {
                Found::Signal(o) => o,
                Found::Is(_) => error_outcome(
                    "This function can be called only in unibyte buffers"@,
                ),
            },
        },
    )
}

/// `(zlib-decompress-region START END &optional ALLOW-PARTIAL)`: an error, for it
/// works in unibyte buffers only.
pub fn builtin_zlib_decompress_region(args: &Vec<Value>) -> (r: EvalResult)
    ensures
        outcome(r) == decompress_region(views(args@)),
{
    expect_args_range("zlib-decompress-region", args, 2, 3)?;
    position_of(&arg_or_nil(args, 0))?;
    position_of(&arg_or_nil(args, 1))?;
    Err(error_signal("This function can be called only in unibyte buffers"))
}

} // verus!
