//! `format-mode-line` and the mode lines of redisplay.
use crate::session::{Session, SessionState};
use crate::value::{
    arg, arg_or_nil, error_outcome, error_signal, expect_args_range, lstr, outcome, signalled,
    views, wrong_number, wrong_type, wrong_type_argument, EvalResult, Flow, Lisp, Outcome, Value,
};
use crate::xdisp::designator::{
    optional_buffer, optional_window, resolve_mode_line_buffer, target_buffer,
    validate_optional_buffer_designator, validate_optional_window_designator,
};
use crate::xdisp::percent::{build_mode_line_percent_context, percent_state};
use crate::xdisp::rendered::{rendered_value, ModeLineRendered};
use crate::xdisp::walk::{
    at, format_mode_line_recursive, genuine, stop_view, walked, Answer, Evaluation, Rules, Stop,
    Walk, WalkRules, WalkStop,
};
use crate::xdisp::walk_laws::{
    failed, law_first_failure_ends_strict_walk, law_refused_walk_stops_at_eval,
    law_walk_is_the_same_without_evaluation, law_walk_keeps_manner,
    lemma_refused_walk_ignores_answers, meets_eval,
};
use vstd::prelude::*;

verus! {

/// `(format-mode-line &optional FORMAT FACE WINDOW BUFFER)` without a session.
pub open spec fn batch_format_mode_line(args: Seq<Lisp>) -> Outcome {
    if !(1 <= args.len() <= 4) {
        wrong_number("format-mode-line"@, args.len())
    } else if arg(args, 2) != Lisp::Nil {
        wrong_type("windowp"@, arg(args, 2))
    } else if arg(args, 3) != Lisp::Nil && !(arg(args, 3) is Buffer) {
        wrong_type("bufferp"@, arg(args, 3))
    } else {
        Outcome::Value(lstr(""@))
    }
}

/// `(format-mode-line &optional FORMAT FACE WINDOW BUFFER)` without a session: an empty string.
pub fn builtin_format_mode_line(args: &Vec<Value>) -> (r: EvalResult)
    ensures
        outcome(r) == batch_format_mode_line(views(args@)),
{
    expect_args_range("format-mode-line", args, 1, 4)?;
    let window: Value = arg_or_nil(args, 2);
    if !window.is_nil() {
        return Err(wrong_type_argument("windowp", &window));
    }
    let buffer: Value = arg_or_nil(args, 3);
    if !buffer.is_nil() && !buffer.is_buffer() {
        return Err(wrong_type_argument("bufferp", &buffer));
    }
    Ok(Value::string(""))
}

/// How a mode line is made: what becomes of forms to evaluate, whether the
/// session's coding systems and command loops are shown, and the width of the row
/// to fill, where there is one.
#[derive(Debug, Clone, Copy, PartialEq, Eq, Structural)]
pub struct Manner {
    pub evaluation: Evaluation,
    pub live: bool,
    pub width: Option<usize>,
}

impl SessionState {
    /// The session with another current buffer.
    pub open spec fn switched(self, buffer: Option<u64>) -> SessionState {
        SessionState { ui: self.ui.with_current(buffer), ..self }
    }
}

/// What the walk over a mode line goes by.
pub open spec fn rules_for(m: Manner, s: SessionState, window: Lisp) -> Rules {
    Rules {
        evaluation: m.evaluation,
        percent: percent_state(
            s.ui.frames,
            s.ui.buffers,
            if m.live {
                Some(s.codings)
            } else {
                None
            },
            s.symbols,
            window,
            m.width,
        ),
        counts_loops: m.live,
    }
}

/// What the walk over a mode line goes by.
fn walk_rules(m: Manner, session: &Session, window: &Value) -> (r: WalkRules)
    ensures
        r@ == rules_for(m, session@, window@),
        r@.percent.bounded(),
{
    WalkRules {
        evaluation: m.evaluation,
        percent: build_mode_line_percent_context(
            &session.ui.frames,
            &session.ui.buffers,
            if m.live {
                Some(&session.codings)
            } else {
                None
            },
            &session.obarray,
            window,
            m.width,
        ),
        counts_loops: m.live,
    }
}

/// The walk over a format in the buffer of the mode line.
pub open spec fn line_walk(
    m: Manner,
    s: SessionState,
    fmt: Lisp,
    window: Lisp,
    answers: Seq<Answer>,
) -> Walk {
    walked(rules_for(m, s, window), at(s, Seq::empty(), answers, None), fmt, 0, false)
}

/// What a mode line comes to: the session that is left, the result or nothing
/// where forms would have to be evaluated, and whether it took exactly the given evaluations.
pub struct Formatted {
    pub session: SessionState,
    pub end: Option<Outcome>,
    pub exact: bool,
}

/// What a format comes to in the buffer of the mode line. The buffer that was
/// current is current again at the end, unless an evaluation ended the walk.
pub open spec fn formatted(
    m: Manner,
    s: SessionState,
    fmt: Lisp,
    face: Lisp,
    window: Lisp,
    buffer: Lisp,
    answers: Seq<Answer>,
) -> Formatted {
    let there = s.switched(target_buffer(s.ui.frames, window, buffer));
    if fmt == Lisp::Nil {
        Formatted {
            session: there.switched(s.ui.buffers.current),
            end: Some(Outcome::Value(lstr(""@))),
            exact: answers.len() == 0,
        }
    } else {
        let w = line_walk(m, there, fmt, window, answers);
        Formatted {
            session: if w.end matches Some(Stop::Raised(_)) {
                w.session
            } else {
                w.session.switched(s.ui.buffers.current)
            },
            end: match w.end {
                None => Some(Outcome::Value(rendered_value(w.text, face))),
                Some(Stop::NeedsEval) => None,
                Some(Stop::Raised(o)) => Some(o),
            },
            exact: w.sound && w.answers.len() == 0,
        }
    }
}

/// How an attempt to make a mode line ends, where it may have to be given up.
pub open spec fn attempt(r: Result<Option<Value>, Flow>) -> Option<Outcome> {
    match r {
        Ok(Some(v)) => Some(Outcome::Value(v@)),
        Ok(None) => None,
        Err(f) => Some(signalled(f)),
    }
}

/// Makes a mode line in the buffer of its window.
fn format_line<F: Fn(Session, Value) -> (Session, Result<Value, Flow>)>(
    m: Manner,
    session: Session,
    eval: &F,
    fmt: &Value,
    face: &Value,
    window: &Value,
    buffer: &Value,
) -> (r: (Session, Result<Option<Value>, Flow>, Ghost<Seq<Answer>>))
    requires
        forall|s: Session, v: Value| #[trigger] call_requires(*eval, (s, v)),
    ensures
        genuine(*eval, r.2@),
        ({
            let f = formatted(m, session@, fmt@, face@, window@, buffer@, r.2@);
            f.exact && f.session == r.0@ && f.end == attempt(r.1)
        }),
        m.evaluation == Evaluation::Refused ==> r.2@.len() == 0,
{
    let target: Option<u64> = resolve_mode_line_buffer(&session.ui.frames, window, buffer);
    let saved: Option<u64> = session.ui.buffers.current_buffer_id();
    let mut there: Session = session;
    there.ui.set_current(target);
    if fmt.is_nil() {
        there.ui.set_current(saved);
        return (there, Ok(Some(Value::string(""))), Ghost(Seq::empty()));
    }
    let rules: WalkRules = walk_rules(m, &there, window);
    let mut text = ModeLineRendered::new();
    let ghost start = there@;
    let (mut end, stop, answers) = format_mode_line_recursive(
        &rules,
        eval,
        there,
        fmt,
        &mut text,
        0,
        false,
    );
    let ghost last = end@;
    proof {
        let none = Seq::<Answer>::empty();
        assert(answers@ + none =~= answers@);
        assert(walked(
            rules@,
            at(start, Seq::empty(), answers@ + none, None),
            fmt@,
            0,
            false,
        ) == at(last, text@, none, stop_view(stop)));
        if m.evaluation == Evaluation::Refused {
            law_walk_keeps_manner(
                rules@,
                at(start, Seq::empty(), answers@ + none, None),
                fmt@,
                0,
                false,
            );
        }
    }
    match stop {
        None => {
            end.ui.set_current(saved);
            (end, Ok(Some(text.into_value(face))), answers)
        },
        Some(WalkStop::NeedsEval) => {
            end.ui.set_current(saved);
            (end, Ok(None), answers)
        },
        Some(WalkStop::Raised(f)) => (end, Err(f), answers),
    }
}

/// What is wrong with the arguments of `format-mode-line`, where something is.
pub open spec fn format_fault(s: SessionState, args: Seq<Lisp>) -> Option<Outcome> {
    if !(1 <= args.len() <= 4) {
        Some(wrong_number("format-mode-line"@, args.len()))
    } else if !optional_window(s.ui.frames, arg(args, 2)) {
        Some(wrong_type("windowp"@, arg(args, 2)))
    } else if !optional_buffer(s.ui.buffers, arg(args, 3)) {
        Some(wrong_type("bufferp"@, arg(args, 3)))
    } else {
        None
    }
}

/// Signals where something is wrong with the arguments of `format-mode-line`.
fn check_format_arguments(session: &Session, args: &Vec<Value>) -> (r: Result<(), Flow>)
    ensures
        match r {
            Ok(_) => format_fault(session@, views(args@)) is None,
            Err(f) => format_fault(session@, views(args@)) == Some(signalled(f)),
        },
{
    expect_args_range("format-mode-line", args, 1, 4)?;
    validate_optional_window_designator(&session.ui.frames, &arg_or_nil(args, 2), "windowp")?;
    validate_optional_buffer_designator(&session.ui.buffers, &arg_or_nil(args, 3))
}

/// Whether the buffer of a mode line is dead.
pub open spec fn target_is_dead(s: SessionState, window: Lisp, buffer: Lisp) -> bool {
    target_buffer(s.ui.frames, window, buffer) matches Some(id) && s.ui.buffers.get(id) is None
}

/// Whether the buffer of a mode line is dead.
fn target_dead(session: &Session, window: &Value, buffer: &Value) -> (r: bool)
    ensures
        r == target_is_dead(session@, window@, buffer@),
{
    match resolve_mode_line_buffer(&session.ui.frames, window, buffer) {
        Some(id) => session.ui.buffers.get(id).is_none(),
        None => false,
    }
}

/// `format-mode-line` as far as it needs no evaluation; nothing where it does.
pub open spec fn line_from_state(s: SessionState, args: Seq<Lisp>) -> Formatted {
    match format_fault(s, args) {
        Some(o) => Formatted { session: s, end: Some(o), exact: true },
        None => formatted(
            Manner { evaluation: Evaluation::Refused, live: false, width: None },
            s,
            args[0],
            arg(args, 1),
            arg(args, 2),
            arg(args, 3),
            Seq::empty(),
        ),
    }
}

/// `format-mode-line` as far as it needs no evaluation; nothing where it does.
pub fn format_mode_line_from_state(session: Session, args: &Vec<Value>) -> (r: (
    Session,
    Result<Option<Value>, Flow>,
))
    ensures
        r.0@ == line_from_state(session@, views(args@)).session,
        attempt(r.1) == line_from_state(session@, views(args@)).end,
{
    match check_format_arguments(&session, args) {
        Ok(_) => {},
        Err(f) => {
            return (session, Err(f));
        },
    }
    let nothing = |s: Session, v: Value| -> (r: (Session, Result<Value, Flow>))
        {
            (s, Ok(v))
        };
    let (after, end, answers) = format_line(
        Manner { evaluation: Evaluation::Refused, live: false, width: None },
        session,
        &nothing,
        &args[0],
        &arg_or_nil(args, 1),
        &arg_or_nil(args, 2),
        &arg_or_nil(args, 3),
    );
    proof {
        assert(answers@ =~= Seq::<Answer>::empty());
    }
    (after, end)
}

/// `format-mode-line` with evaluation. Where `checked`, it is an error that the
/// buffer of the window is dead.
pub open spec fn line_with_eval(
    m: Manner,
    checked: bool,
    s: SessionState,
    args: Seq<Lisp>,
    answers: Seq<Answer>,
) -> Formatted {
    match format_fault(s, args) {
        Some(o) => Formatted { session: s, end: Some(o), exact: answers.len() == 0 },
        None => if checked && target_is_dead(s, arg(args, 2), arg(args, 3)) {
            Formatted {
                session: s,
                end: Some(error_outcome("Selecting deleted buffer"@)),
                exact: answers.len() == 0,
            }
        } else {
            formatted(m, s, args[0], arg(args, 1), arg(args, 2), arg(args, 3), answers)
        },
    }
}

/// Whether a call of `format-mode-line` left a session and ended in a way that
/// some evaluations by the evaluator lead to, each of the form and in the session
/// that the mode line came to.
pub open spec fn line_made<F: Fn(Session, Value) -> (Session, Result<Value, Flow>)>(
    m: Manner,
    checked: bool,
    s: SessionState,
    args: Seq<Lisp>,
    eval: F,
    left: SessionState,
    end: Outcome,
) -> bool {
    exists|answers: Seq<Answer>|
        #![trigger genuine(eval, answers)]
        genuine(eval, answers) && ({
            let f = line_with_eval(m, checked, s, args, answers);
            f.exact && f.session == left && f.end == Some(end)
        })
}

/// `format-mode-line` with evaluation.
fn format_with_eval<F: Fn(Session, Value) -> (Session, Result<Value, Flow>)>(
    m: Manner,
    checked: bool,
    session: Session,
    eval: &F,
    args: &Vec<Value>,
) -> (r: (Session, EvalResult))
    requires
        m.evaluation != Evaluation::Refused,
        forall|s: Session, v: Value| #[trigger] call_requires(*eval, (s, v)),
    ensures
        line_made(m, checked, session@, views(args@), *eval, r.0@, outcome(r.1)),
{
    let ghost none = Seq::<Answer>::empty();
    proof {
        assert(genuine(*eval, none));
    }
    match check_format_arguments(&session, args) {
        Ok(_) => {},
        Err(f) => {
            return (session, Err(f));
        },
    }
    let window: Value = arg_or_nil(args, 2);
    let buffer: Value = arg_or_nil(args, 3);
    if checked && target_dead(&session, &window, &buffer) {
        return (session, Err(error_signal("Selecting deleted buffer")));
    }
    let (after, end, answers) = format_line(
        m,
        session,
        eval,
        &args[0],
        &arg_or_nil(args, 1),
        &window,
        &buffer,
    );
    proof {
        assert(genuine(*eval, answers@));
        lemma_evaluated_never_refuses(m, session@, views(args@), answers@);
    }
    match end {
        Ok(Some(v)) => (after, Ok(v)),
        Ok(None) => (after, Ok(Value::Nil)),
        Err(f) => (after, Err(f)),
    }
}

proof fn lemma_evaluated_never_refuses(
    m: Manner,
    s: SessionState,
    args: Seq<Lisp>,
    answers: Seq<Answer>,
)
    requires
        m.evaluation != Evaluation::Refused,
    ensures
        formatted(
            m,
            s,
            args[0],
            arg(args, 1),
            arg(args, 2),
            arg(args, 3),
            answers,
        ).end is Some,
{
    let there = s.switched(target_buffer(s.ui.frames, arg(args, 2), arg(args, 3)));
    law_walk_keeps_manner(
        rules_for(m, there, arg(args, 2)),
        at(there, Seq::empty(), answers, None),
        args[0],
        0,
        false,
    );
}

/// How `format-mode-line` makes a string in a session.
pub open spec fn string_manner() -> Manner {
    Manner { evaluation: Evaluation::Lenient, live: true, width: None }
}

/// How `format-mode-line` makes a string where an evaluation that fails ends it.
pub open spec fn strict_manner(live: bool) -> Manner {
    Manner { evaluation: Evaluation::Strict, live, width: None }
}

/// `(format-mode-line &optional FORMAT FACE WINDOW BUFFER)` in a session.
pub fn builtin_format_mode_line_ctx<F: Fn(Session, Value) -> (Session, Result<Value, Flow>)>(
    session: Session,
    eval: &F,
    args: &Vec<Value>,
) -> (r: (Session, EvalResult))
    requires
        forall|s: Session, v: Value| #[trigger] call_requires(*eval, (s, v)),
    ensures
        line_made(
            string_manner(),
            true,
            session@,
            views(args@),
            *eval,
            r.0@,
            outcome(r.1),
        ),
{
    format_with_eval(
        Manner { evaluation: Evaluation::Lenient, live: true, width: None },
        true,
        session,
        eval,
        args,
    )
}

/// `format-mode-line` where an evaluation that fails ends it, and the coding
/// systems are those that variables name.
pub fn finish_format_mode_line_in_state_with_eval<
    F: Fn(Session, Value) -> (Session, Result<Value, Flow>),
>(session: Session, eval: &F, args: &Vec<Value>) -> (r: (Session, EvalResult))
    requires
        forall|s: Session, v: Value| #[trigger] call_requires(*eval, (s, v)),
    ensures
        line_made(
            strict_manner(false),
            false,
            session@,
            views(args@),
            *eval,
            r.0@,
            outcome(r.1),
        ),
{
    format_with_eval(
        Manner { evaluation: Evaluation::Strict, live: false, width: None },
        false,
        session,
        eval,
        args,
    )
}

/// `format-mode-line` in a session where an evaluation that fails ends it.
pub fn builtin_format_mode_line_in_vm_runtime<
    F: Fn(Session, Value) -> (Session, Result<Value, Flow>),
>(session: Session, eval: &F, args: &Vec<Value>) -> (r: (Session, EvalResult))
    requires
        forall|s: Session, v: Value| #[trigger] call_requires(*eval, (s, v)),
    ensures
        line_made(
            strict_manner(true),
            true,
            session@,
            views(args@),
            *eval,
            r.0@,
            outcome(r.1),
        ),
{
    format_with_eval(
        Manner { evaluation: Evaluation::Strict, live: true, width: None },
        true,
        session,
        eval,
        args,
    )
}

/// How a mode line for a row of some columns is made.
pub open spec fn display_manner(columns: usize) -> Manner {
    Manner { evaluation: Evaluation::Strict, live: true, width: Some(columns) }
}

/// A mode line for a row of some columns: an empty string where its window or its
/// buffer is not one, and where an evaluation fails. The buffer that was current
/// is current again at the end.
pub open spec fn display_line(
    s: SessionState,
    fmt: Lisp,
    window: Lisp,
    buffer: Lisp,
    columns: usize,
    answers: Seq<Answer>,
) -> Formatted {
    let f = formatted(display_manner(columns), s, fmt, Lisp::Nil, window, buffer, answers);
    if !optional_window(s.ui.frames, window) || !optional_buffer(s.ui.buffers, buffer)
        || target_is_dead(s, window, buffer) {
        Formatted {
            session: s,
            end: Some(Outcome::Value(lstr(""@))),
            exact: answers.len() == 0,
        }
    } else if failed(answers) {
        Formatted {
            session: f.session.switched(s.ui.buffers.current),
            end: Some(Outcome::Value(lstr(""@))),
            exact: f.exact,
        }
    } else {
        f
    }
}

/// Renders a mode line for a row of some columns, in which `%-` fills the row.
///
/// Where an evaluation fails, nothing more is evaluated and the mode line is an
/// empty string, and so it is where the window or the buffer is not one.
pub fn format_mode_line_for_display<F: Fn(Session, Value) -> (Session, Result<Value, Flow>)>(
    session: Session,
    eval: &F,
    format_val: &Value,
    window: &Value,
    buffer: &Value,
    target_cols: usize,
) -> (r: (Session, Value))
    requires
        forall|s: Session, v: Value| #[trigger] call_requires(*eval, (s, v)),
    ensures
        exists|answers: Seq<Answer>|
            #![trigger genuine(*eval, answers)]
            genuine(*eval, answers) && (failed(answers) ==> r.1@ == lstr(""@)) && ({
                let f = display_line(
                    session@,
                    format_val@,
                    window@,
                    buffer@,
                    target_cols,
                    answers,
                );
                f.exact && f.session == r.0@ && f.end == Some(Outcome::Value(r.1@))
            }),
{
    let ghost none = Seq::<Answer>::empty();
    proof {
        assert(genuine(*eval, none));
    }
    let window_ok: bool = validate_optional_window_designator(
        &session.ui.frames,
        window,
        "windowp",
    ).is_ok();
    let buffer_ok: bool = validate_optional_buffer_designator(
        &session.ui.buffers,
        buffer,
    ).is_ok();
    if !window_ok || !buffer_ok || target_dead(&session, window, buffer) {
        return (session, Value::string(""));
    }
    let saved: Option<u64> = session.ui.buffers.current_buffer_id();
    let m = Manner { evaluation: Evaluation::Strict, live: true, width: Some(target_cols) };
    let (after, end, answers) = format_line(
        m,
        session,
        eval,
        format_val,
        &Value::Nil,
        window,
        buffer,
    );
    proof {
        assert(genuine(*eval, answers@));
        lemma_strict_line_fails(m, session@, format_val@, Lisp::Nil, window@, buffer@, answers@);
    }
    match end {
        Ok(Some(v)) => (after, v),
        _ => {
            let mut back: Session = after;
            back.ui.set_current(saved);
            (back, Value::string(""))
        },
    }
}

/// A mode line that ends where an evaluation fails is made exactly where none fails.
proof fn lemma_strict_line_fails(
    m: Manner,
    s: SessionState,
    fmt: Lisp,
    face: Lisp,
    window: Lisp,
    buffer: Lisp,
    answers: Seq<Answer>,
)
    requires
        m.evaluation == Evaluation::Strict,
        formatted(m, s, fmt, face, window, buffer, answers).exact,
    ensures
        match formatted(m, s, fmt, face, window, buffer, answers).end {
            Some(Outcome::Value(_)) => !failed(answers),
            _ => failed(answers),
        },
{
    let there = s.switched(target_buffer(s.ui.frames, window, buffer));
    let w = at(there, Seq::empty(), answers, None);
    law_walk_keeps_manner(rules_for(m, there, window), w, fmt, 0, false);
    law_first_failure_ends_strict_walk(rules_for(m, there, window), w, fmt, 0, false);
}

/// What `format-mode-line` makes without evaluation it makes with it too, and
/// evaluates nothing on the way.
pub proof fn law_line_is_the_same_without_evaluation(
    s: SessionState,
    args: Seq<Lisp>,
    answers: Seq<Answer>,
)
    requires
        line_from_state(s, args).end is Some,
    ensures
        ({
            let f = line_with_eval(strict_manner(false), false, s, args, answers);
            &&& f.session == line_from_state(s, args).session
            &&& f.end == line_from_state(s, args).end
            &&& f.exact <==> answers.len() == 0
        }),
{
    let window = arg(args, 2);
    let there = s.switched(target_buffer(s.ui.frames, window, arg(args, 3)));
    let r = rules_for(strict_manner(false), there, window);
    let refused = Rules { evaluation: Evaluation::Refused, ..r };
    let w = at(there, Seq::empty(), answers, None);
    let bare = at(there, Seq::empty(), Seq::empty(), None);
    if format_fault(s, args) is None && args[0] != Lisp::Nil {
        law_walk_keeps_manner(refused, bare, args[0], 0, false);
        lemma_refused_walk_ignores_answers(refused, bare, args[0], 0, false, answers);
        law_walk_is_the_same_without_evaluation(r, w, args[0], 0, false);
    }
}

/// `format-mode-line` without evaluation gives up exactly where its arguments are
/// right and it comes to an element `(:eval ...)` in a place that is trusted.
pub proof fn law_line_is_given_up_at_eval(s: SessionState, args: Seq<Lisp>)
    ensures
        ({
            let there = s.switched(target_buffer(s.ui.frames, arg(args, 2), arg(args, 3)));
            let m = Manner { evaluation: Evaluation::Refused, live: false, width: None };
            line_from_state(s, args).end is None <==> format_fault(s, args) is None && meets_eval(
                rules_for(m, there, arg(args, 2)),
                at(there, Seq::empty(), Seq::empty(), None),
                args[0],
                0,
                false,
            )
        }),
{
    let there = s.switched(target_buffer(s.ui.frames, arg(args, 2), arg(args, 3)));
    let m = Manner { evaluation: Evaluation::Refused, live: false, width: None };
    law_refused_walk_stops_at_eval(
        rules_for(m, there, arg(args, 2)),
        at(there, Seq::empty(), Seq::empty(), None),
        args[0],
        0,
        false,
    );
}

} // verus!
