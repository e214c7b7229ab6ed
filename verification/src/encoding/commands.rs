//! Encoding and decoding of strings and regions in a session.
use crate::buffer::{max2, min2, Buffer, BufferState, Buffers};
use crate::encoding::builtins::{
    builtin_decode_coding_string_with_known, builtin_encode_coding_string_with_known,
    decode_coding_string, decode_string_value, decoded_string, encode_coding_string,
    encoded_string, Accepted, KnownCodings,
};
use crate::encoding::convert::encode_lisp_string;
use crate::lisp_string::{LispString, LispText};
use crate::marker::{position_arg, position_of};
use crate::session::{Session, SessionState};
use crate::value::{
    arg, arg_or_nil, error_outcome, error_signal, expect_args_range, list1, list2, outcome,
    signal, signalled, sym, symbol_name, views, wrong_number, wrong_type, wrong_type_argument,
    EvalResult, Flow, Lisp, Outcome, Value,
};
use crate::window_cmds::resolve::{found, Found};
use crate::window_cmds::state::UiState;
use crate::xdisp::construct::{buffer_read_only, read_only};
use vstd::prelude::*;

verus! {

/// What a builtin leaves behind in a session and how it ends.
pub struct SessionStep {
    pub state: SessionState,
    pub end: Outcome,
}

/// A builtin that leaves the session as it is.
pub open spec fn unchanged(s: SessionState, end: Outcome) -> SessionStep {
    SessionStep { state: s, end }
}

/// The coding system that an argument names: `no-conversion` for nil. What is no
/// symbol, or not known in the session, is an error.
pub open spec fn coding_arg(s: SessionState, a: Lisp) -> Found<Seq<char>> {
    let name = if a == Lisp::Nil {
        Some("no-conversion"@)
    } else {
        symbol_name(a)
    };
    match name {
        Some(n) => if s.codings.knows(n) {
            Found::Is(n)
        } else {
            Found::Signal(Outcome::Signal("coding-system-error"@, list1(a)))
        },
        None => Found::Signal(wrong_type("symbolp"@, a)),
    }
}

/// A name that was found, or an error.
pub open spec fn name_found(r: Result<String, Flow>) -> Found<Seq<char>> {
    match r {
        Ok(s) => Found::Is(s@),
        Err(f) => Found::Signal(signalled(f)),
    }
}

/// The coding system that an argument names.
fn context_coding_name(session: &Session, a: &Value) -> (r: Result<String, Flow>)
    ensures
        name_found(r) == coding_arg(session@, a@),
{
    let name: Option<String> = if a.is_nil() {
        Some("no-conversion".to_owned())
    } else {
        a.as_symbol_name()
    };
    match name {
        Some(n) => if session.codings.is_known_or_derived(n.as_str()) {
            Ok(n)
        } else {
            Err(signal("coding-system-error", Value::list1(a.copy())))
        },
        None => Err(wrong_type_argument("symbolp", a)),
    }
}

/// The canonical name of a coding system; the name itself where it has none.
pub open spec fn canonical_name(s: SessionState, name: Seq<char>) -> Seq<char> {
    match s.codings.canonical(name) {
        Some(c) => c,
        None => name,
    }
}

impl SessionState {
    /// The session after a coding system was used.
    pub open spec fn coding_used(self, name: Seq<char>) -> SessionState {
        SessionState {
            symbols: self.symbols.bind(
                "last-coding-system-used"@,
                sym(canonical_name(self, name)),
            ),
            ..self
        }
    }

    /// The session with other buffers.
    pub open spec fn with_buffers(self, buffers: Buffers) -> SessionState {
        SessionState { ui: UiState { buffers, ..self.ui }, ..self }
    }
}

impl Session {
    /// Notes that a coding system was used.
    fn note_coding(&mut self, name: &str)
        ensures
            final(self)@ == old(self)@.coding_used(name@),
    {
        let canonical: Value = match self.codings.canonical_runtime_name(name) {
            Some(c) => Value::symbol(c.as_str()),
            None => Value::symbol(name),
        };
        self.obarray.set_symbol_value("last-coding-system-used", canonical);
    }
}

/// The buffer that an argument asks for the result to go to; none for nil and `t`.
pub open spec fn string_destination(a: Lisp) -> Found<Option<u64>> {
    match a {
        Lisp::Nil => Found::Is(None),
        Lisp::True => Found::Is(None),
        Lisp::Buffer(id) => Found::Is(Some(id)),
        _ => Found::Signal(wrong_type("bufferp"@, a)),
    }
}

/// The buffer that an argument asks for the result to go to.
fn coding_string_destination(a: &Value) -> (r: Result<Option<u64>, Flow>)
    ensures
        found(r) == string_destination(a@),
{
    match a {
        Value::Nil => Ok(None),
        Value::True => Ok(None),
        Value::Buffer(id) => Ok(Some(*id)),
        _ => Err(wrong_type_argument("bufferp", a)),
    }
}

/// The buffers with a string and its property runs inserted at the point of one of them.
pub open spec fn received_in(buffers: Buffers, id: u64, text: LispText, runs: Lisp) -> Buffers {
    match buffers.get(id) {
        Some(b) => buffers.with_buffer(id, b.received(text, runs)),
        None => buffers,
    }
}

/// What becomes of a converted string: it is given, or goes into a buffer, of
/// which the number of characters is given.
pub open spec fn delivered(s: SessionState, result: Lisp, destination: Option<u64>) -> SessionStep {
    match destination {
        None => unchanged(s, Outcome::Value(result)),
        Some(id) => match s.ui.buffers.get(id) {
            None => unchanged(s, error_outcome("Selecting deleted buffer"@)),
            Some(_) => match result {
                Lisp::Str(text, runs) => SessionStep {
                    state: s.with_buffers(received_in(s.ui.buffers, id, text, *runs)),
                    end: Outcome::Value(Lisp::Int(text.codes().len() as i64)),
                },
                _ => unchanged(s, wrong_type("stringp"@, result)),
            },
        },
    }
}

/// Gives a converted string, or puts it into a buffer.
fn deliver(session: &mut Session, result: Value, destination: Option<u64>) -> (r: EvalResult)
    ensures
        final(session)@ == delivered(old(session)@, result@, destination).state,
        outcome(r) == delivered(old(session)@, result@, destination).end,
{
    match destination {
        None => Ok(result),
        Some(id) => {
            if session.ui.buffers.get(id).is_none() {
                return Err(error_signal("Selecting deleted buffer"));
            }
            match &result {
                Value::Str(text, runs) => {
                    session.ui.buffers.receive(id, text, runs);
                    Ok(Value::Int(text.schars() as i64))
                },
                _ => Err(wrong_type_argument("stringp", &result)),
            }
        },
    }
}

/// `encode-coding-string` and `decode-coding-string` in a session.
pub open spec fn coding_string(s: SessionState, args: Seq<Lisp>, encode: bool) -> SessionStep {
    let name = if encode {
        "encode-coding-string"@
    } else {
        "decode-coding-string"@
    };
    if !(2 <= args.len() <= 4) {
        unchanged(s, wrong_number(name, args.len()))
    } else if !(arg(args, 0) is Str) {
        unchanged(s, wrong_type("stringp"@, arg(args, 0)))
    } else {
        match coding_arg(s, arg(args, 1)) {
            Found::Signal(o) => unchanged(s, o),
            Found::Is(coding) => match string_destination(arg(args, 3)) {
                Found::Signal(o) => unchanged(s, o),
                Found::Is(destination) => {
                    let end = if encode {
                        encode_coding_string(args, Accepted::Any)
                    } else {
                        decode_coding_string(args, Accepted::Any)
                    };
                    match end {
                        Outcome::Value(result) => delivered(
                            s.coding_used(coding),
                            result,
                            destination,
                        ),
                        _ => unchanged(s, end),
                    }
                },
            },
        }
    }
}

/// `encode-coding-string` and `decode-coding-string` in a session.
fn builtin_coding_string(session: &mut Session, args: &Vec<Value>, encode: bool) -> (r: EvalResult)
    ensures
        final(session)@ == coding_string(old(session)@, views(args@), encode).state,
        outcome(r) == coding_string(old(session)@, views(args@), encode).end,
{
    if encode {
        expect_args_range("encode-coding-string", args, 2, 4)?;
    } else {
        expect_args_range("decode-coding-string", args, 2, 4)?;
    }
    let string: Value = arg_or_nil(args, 0);
    if !string.is_string() {
        return Err(wrong_type_argument("stringp", &string));
    }
    let coding: String = context_coding_name(session, &arg_or_nil(args, 1))?;
    let destination: Option<u64> = coding_string_destination(&arg_or_nil(args, 3))?;
    let result: Value = if encode {
        builtin_encode_coding_string_with_known(args, &KnownCodings::Any)?
    } else {
        builtin_decode_coding_string_with_known(args, &KnownCodings::Any)?
    };
    session.note_coding(coding.as_str());
    deliver(session, result, destination)
}

/// `(encode-coding-string STRING CODING-SYSTEM &optional NOCOPY BUFFER)` in a session.
pub fn builtin_encode_coding_string_in_context(session: &mut Session, args: &Vec<Value>) -> (r: EvalResult)
    ensures
        final(session)@ == coding_string(old(session)@, views(args@), true).state,
        outcome(r) == coding_string(old(session)@, views(args@), true).end,
{
    builtin_coding_string(session, args, true)
}

/// `(decode-coding-string STRING CODING-SYSTEM &optional NOCOPY BUFFER)` in a session.
pub fn builtin_decode_coding_string_in_context(session: &mut Session, args: &Vec<Value>) -> (r: EvalResult)
    ensures
        final(session)@ == coding_string(old(session)@, views(args@), false).state,
        outcome(r) == coding_string(old(session)@, views(args@), false).end,
{
    builtin_coding_string(session, args, false)
}

/// Where the result of converting a region goes.
#[derive(Debug, Clone, Copy, PartialEq, Eq, Structural)]
pub enum RegionDestination {
    InPlace,
    Value,
    Buffer(u64),
}

/// Where an argument asks for the result of converting a region to go.
pub open spec fn region_destination(a: Lisp) -> Found<RegionDestination> {
    match a {
        Lisp::Nil => Found::Is(RegionDestination::InPlace),
        Lisp::True => Found::Is(RegionDestination::Value),
        Lisp::Buffer(id) => Found::Is(RegionDestination::Buffer(id)),
        _ => Found::Signal(wrong_type("bufferp"@, a)),
    }
}

/// Where an argument asks for the result of converting a region to go.
fn coding_region_destination(a: &Value) -> (r: Result<RegionDestination, Flow>)
    ensures
        found(r) == region_destination(a@),
{
    match a {
        Value::Nil => Ok(RegionDestination::InPlace),
        Value::True => Ok(RegionDestination::Value),
        Value::Buffer(id) => Ok(RegionDestination::Buffer(*id)),
        _ => Err(wrong_type_argument("bufferp", a)),
    }
}

/// The byte offsets of the region between two positions, in either order. A region
/// that is not all accessible is an error.
pub open spec fn region_offsets(b: BufferState, a: Lisp, c: Lisp) -> Found<(int, int)> {
    match position_arg(a) {
        Found::Signal(o) => Found::Signal(o),
        Found::Is(m) => match position_arg(c) {
            Found::Signal(o) => Found::Signal(o),
            Found::Is(n) => {
                let lo = min2(m as int, n as int);
                let hi = max2(m as int, n as int);
                if lo < b.chars_before(b.begv) + 1 || hi > b.chars_before(b.zv) + 1 {
                    Found::Signal(Outcome::Signal("args-out-of-range"@, list2(a, c)))
                } else {
                    let start = b.offset_of(lo);
                    Found::Is((start, max2(start, b.offset_of(hi))))
                }
            },
        },
    }
}

/// Offsets that were found, or an error.
pub open spec fn offsets_found(r: Result<(usize, usize), Flow>) -> Found<(int, int)> {
    match r {
        Ok((a, b)) => Found::Is((a as int, b as int)),
        Err(f) => Found::Signal(signalled(f)),
    }
}

/// The byte offsets of the region between two positions.
fn accessible_region(b: &Buffer, a: &Value, c: &Value) -> (r: Result<(usize, usize), Flow>)
    ensures
        offsets_found(r) == region_offsets(b@, a@, c@),
        r matches Ok((start, end)) ==> start <= end <= b@.text.len(),
{
    let m: i64 = position_of(a)?;
    let n: i64 = position_of(c)?;
    let (lo, hi) = if m <= n {
        (m, n)
    } else {
        (n, m)
    };
    let first: i128 = b.byte_to_char(b.begv) as i128 + 1;
    let last: i128 = b.byte_to_char(b.zv) as i128 + 1;
    if (lo as i128) < first || hi as i128 > last {
        return Err(signal("args-out-of-range", Value::list2(a.copy(), c.copy())));
    }
    let start: usize = b.lisp_pos_to_byte(lo);
    let end: usize = b.lisp_pos_to_byte(hi);
    Ok(
        (
            start,
            if end > start {
                end
            } else {
                start
            },
        ),
    )
}

/// What the text of a region is after its conversion.
pub open spec fn converted_region(source: LispText, coding: Seq<char>, encode: bool) -> Lisp {
    if encode {
        encoded_string(source, coding)
    } else {
        decoded_string(source, coding)
    }
}

/// What the text of a region is after its conversion.
fn transformed_region_string(source: &LispString, coding: &str, encode: bool) -> (r: Value)
    ensures
        r@ == converted_region(source@, coding@, encode),
        r is Str,
{
    let r: Value = if encode {
        Value::heap_string(LispString::from_unibyte(encode_lisp_string(source, coding)))
    } else {
        decode_string_value(source, coding)
    };
    proof {
        assert(r@ is Str);
    }
    r
}

/// The text of a region.
pub open spec fn region_text(b: BufferState, start: int, end: int) -> LispText {
    LispText { bytes: b.text.subrange(start, end), multibyte: b.multibyte }
}

/// What becomes of a converted region of the current buffer: it goes in the place
/// of the region, is given, or goes into another buffer. Where it goes into a
/// buffer, the number of its characters is given.
pub open spec fn region_delivered(
    s: SessionState,
    current: u64,
    b: BufferState,
    region: (int, int),
    result: Lisp,
    coding: Seq<char>,
    destination: RegionDestination,
) -> SessionStep {
    match destination {
        RegionDestination::Value => unchanged(s.coding_used(coding), Outcome::Value(result)),
        RegionDestination::InPlace => if read_only(s.symbols, b) {
            unchanged(s, Outcome::Signal("buffer-read-only"@, list1(Lisp::Buffer(current))))
        } else {
            match result {
                Lisp::Str(text, runs) => SessionStep {
                    state: s.with_buffers(
                        s.ui.buffers.with_buffer(
                            current,
                            b.replaced(region.0, region.1, text, *runs),
                        ),
                    ).coding_used(coding),
                    end: Outcome::Value(Lisp::Int(text.codes().len() as i64)),
                },
                _ => unchanged(s, Outcome::Value(Lisp::Nil)),
            }
        },
        RegionDestination::Buffer(id) => match s.ui.buffers.get(id) {
            None => unchanged(s, error_outcome("Selecting deleted buffer"@)),
            Some(_) => match result {
                Lisp::Str(text, runs) => SessionStep {
                    state: s.with_buffers(
                        received_in(s.ui.buffers, id, text, *runs),
                    ).coding_used(coding),
                    end: Outcome::Value(Lisp::Int(text.codes().len() as i64)),
                },
                _ => unchanged(s, Outcome::Value(Lisp::Nil)),
            },
        },
    }
}

/// `encode-coding-region` and `decode-coding-region`.
pub open spec fn coding_region(s: SessionState, args: Seq<Lisp>, encode: bool) -> SessionStep {
    let name = if encode {
        "encode-coding-region"@
    } else {
        "decode-coding-region"@
    };
    if !(3 <= args.len() <= 4) {
        unchanged(s, wrong_number(name, args.len()))
    } else {
        match coding_arg(s, arg(args, 2)) {
            Found::Signal(o) => unchanged(s, o),
            Found::Is(coding) => match region_destination(arg(args, 3)) {
                Found::Signal(o) => unchanged(s, o),
                Found::Is(destination) => match s.ui.buffers.current {
                    None => unchanged(s, Outcome::Value(Lisp::Nil)),
                    Some(current) => match s.ui.buffers.get(current) {
                        None => unchanged(s, Outcome::Value(Lisp::Nil)),
                        Some(b) => match region_offsets(b, arg(args, 0), arg(args, 1)) {
                            Found::Signal(o) => unchanged(s, o),
                            Found::Is(region) => region_delivered(
                                s,
                                current,
                                b,
                                region,
                                converted_region(
                                    region_text(b, region.0, region.1),
                                    coding,
                                    encode,
                                ),
                                coding,
                                destination,
                            ),
                        },
                    },
                },
            },
        }
    }
}

/// Puts the result of converting a region where it is to go.
fn deliver_region(
    session: &mut Session,
    current: u64,
    start: usize,
    end: usize,
    result: Value,
    coding: &str,
    destination: RegionDestination,
) -> (r: EvalResult)
    requires
        old(session)@.ui.buffers.get(current) matches Some(b) && start <= end <= b.text.len(),
        result is Str,
    ensures
        ({
            let step = region_delivered(
                old(session)@,
                current,
                old(session)@.ui.buffers.get(current)->Some_0,
                (start as int, end as int),
                result@,
                coding@,
                destination,
            );
            final(session)@ == step.state && outcome(r) == step.end
        }),
{
    match destination {
        RegionDestination::Value => {
            session.note_coding(coding);
            Ok(result)
        },
        RegionDestination::InPlace => {
            let locked: bool = match session.ui.buffers.get(current) {
                Some(b) => buffer_read_only(&session.obarray, b),
                None => false,
            };
            if locked {
                let culprit: Value = Value::Buffer(current);
                proof {
                    assert(culprit@ == Lisp::Buffer(current));
                }
                return Err(signal("buffer-read-only", Value::list1(culprit)));
            }
            match &result {
                Value::Str(text, runs) => {
                    session.ui.buffers.replace(current, start, end, text, runs);
                    session.note_coding(coding);
                    Ok(Value::Int(text.schars() as i64))
                },
                _ => Ok(Value::Nil),
            }
        },
        RegionDestination::Buffer(id) => {
            if session.ui.buffers.get(id).is_none() {
                return Err(error_signal("Selecting deleted buffer"));
            }
            match &result {
                Value::Str(text, runs) => {
                    session.ui.buffers.receive(id, text, runs);
                    session.note_coding(coding);
                    Ok(Value::Int(text.schars() as i64))
                },
                _ => Ok(Value::Nil),
            }
        },
    }
}

/// `encode-coding-region` and `decode-coding-region`.
fn builtin_coding_region(session: &mut Session, args: &Vec<Value>, encode: bool) -> (r: EvalResult)
    ensures
        final(session)@ == coding_region(old(session)@, views(args@), encode).state,
        outcome(r) == coding_region(old(session)@, views(args@), encode).end,
{
    if encode {
        expect_args_range("encode-coding-region", args, 3, 4)?;
    } else {
        expect_args_range("decode-coding-region", args, 3, 4)?;
    }
    let coding: String = context_coding_name(session, &arg_or_nil(args, 2))?;
    let destination: RegionDestination = coding_region_destination(&arg_or_nil(args, 3))?;
    let current: u64 = match session.ui.buffers.current_buffer_id() {
        Some(id) => id,
        None => {
            return Ok(Value::Nil);
        },
    };
    let (start, end, result) = match session.ui.buffers.get(current) {
        None => {
            return Ok(Value::Nil);
        },
        Some(b) => {
            let (start, end) = accessible_region(b, &arg_or_nil(args, 0), &arg_or_nil(args, 1))?;
            let source: LispString = b.substring(start, end);
            (start, end, transformed_region_string(&source, coding.as_str(), encode))
        },
    };
    deliver_region(session, current, start, end, result, coding.as_str(), destination)
}

/// `(encode-coding-region START END CODING-SYSTEM &optional DESTINATION)`
pub fn builtin_encode_coding_region(session: &mut Session, args: &Vec<Value>) -> (r: EvalResult)
    ensures
        final(session)@ == coding_region(old(session)@, views(args@), true).state,
        outcome(r) == coding_region(old(session)@, views(args@), true).end,
{
    builtin_coding_region(session, args, true)
}

/// `(decode-coding-region START END CODING-SYSTEM &optional DESTINATION)`
pub fn builtin_decode_coding_region(session: &mut Session, args: &Vec<Value>) -> (r: EvalResult)
    ensures
        final(session)@ == coding_region(old(session)@, views(args@), false).state,
        outcome(r) == coding_region(old(session)@, views(args@), false).end,
{
    builtin_coding_region(session, args, false)
}

} // verus!
