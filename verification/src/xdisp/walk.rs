//! The elements of a mode line, from the outermost in.
use crate::float::{float_truncate, truncated};
use crate::session::{Session, SessionState};
use crate::symbol::{Obarray, Symbols};
use crate::value::{
    car, cdr, list_items, list_to_vec, signalled, sym, symbol_name, views, Flow, Lisp, Outcome,
    Value,
};
use crate::xdisp::expand::{append_mode_line_string, line_state, with_string};
use crate::xdisp::percent::{
    mode_line_symbol_value, variable, LineState, ModeLinePercentContext, PercentState,
};
use crate::xdisp::rendered::{
    overlaid, padded, plist_get, plist_value, segment, Mark, ModeLineRendered,
};
use vstd::prelude::*;

verus! {

/// What becomes of a form that an element asks to be evaluated.
#[derive(Debug, Clone, Copy, PartialEq, Eq, Structural)]
pub enum Evaluation {
    /// It is not evaluated, and the walk stops.
    Refused,
    /// It is evaluated, and adds nothing where that fails.
    Lenient,
    /// It is evaluated, and the walk ends where that fails.
    Strict,
}

/// One evaluation: the session and the form that were handed over, and what came back.
pub struct Answer {
    pub asked: Session,
    pub form: Value,
    pub answered: Session,
    pub result: Result<Value, Flow>,
}

/// Why a walk ended before its last element.
pub enum Stop {
    NeedsEval,
    Raised(Outcome),
}

/// Why a walk ended before its last element.
#[derive(Debug, PartialEq, Eq)]
pub enum WalkStop {
    NeedsEval,
    Raised(Flow),
}

/// Why a walk ended, where it did.
pub open spec fn stop_view(s: Option<WalkStop>) -> Option<Stop> {
    match s {
        Some(WalkStop::NeedsEval) => Some(Stop::NeedsEval),
        Some(WalkStop::Raised(f)) => Some(Stop::Raised(signalled(f))),
        None => None,
    }
}

/// What a walk goes by.
pub struct Rules {
    pub evaluation: Evaluation,
    pub percent: PercentState,
    pub counts_loops: bool,
}

/// What a walk goes by.
#[derive(Debug, PartialEq, Eq)]
pub struct WalkRules {
    pub evaluation: Evaluation,
    pub percent: ModeLinePercentContext,
    pub counts_loops: bool,
}

impl View for WalkRules {
    type V = Rules;

    open spec fn view(&self) -> Rules {
        Rules {
            evaluation: self.evaluation,
            percent: self.percent@,
            counts_loops: self.counts_loops,
        }
    }
}

/// A walk so far: the session, the text, the evaluations that are still to come,
/// whether each evaluation so far was of the form and in the session that the walk
/// had come to, and why the walk ended, where it did.
pub struct Walk {
    pub session: SessionState,
    pub text: Seq<Mark>,
    pub answers: Seq<Answer>,
    pub sound: bool,
    pub end: Option<Stop>,
}

/// What the session gives a mode line.
pub open spec fn line_of(r: Rules, s: SessionState) -> LineState {
    LineState {
        symbols: s.symbols,
        buffers: s.ui.buffers,
        processes: s.processes,
        depth: if r.counts_loops {
            s.loop_depth()
        } else {
            0
        },
    }
}

/// Whether a variable may hold forms that a mode line evaluates.
pub open spec fn trusted(symbols: Symbols, name: Seq<char>) -> bool {
    symbols.property(name, "risky-local-variable"@) matches Some(v) && v != Lisp::Nil
}

/// Whether a variable may hold forms that a mode line evaluates.
fn mode_line_symbol_is_risky(obarray: &Obarray, name: &str) -> (r: bool)
    ensures
        r == trusted(obarray@, name@),
{
    match obarray.get_property(name, "risky-local-variable") {
        Some(v) => v.is_truthy(),
        None => false,
    }
}

/// The branch of a conditional element whose rest is `rest`.
pub open spec fn branch(rest: Lisp, first: bool) -> Option<Lisp> {
    match rest {
        Lisp::Cons(a, d) => if first {
            Some(*a)
        } else {
            match *d {
                Lisp::Cons(b, _) => Some(*b),
                _ => None,
            }
        },
        _ => None,
    }
}

/// The branch of a conditional element whose rest is `rest`.
fn mode_line_conditional_branch(rest: &Value, first: bool) -> (r: Option<Value>)
    ensures
        crate::xdisp::percent::opt_view(r) == branch(rest@, first),
{
    proof {
        reveal_with_fuel(Value::lisp, 3);
    }
    match rest {
        Value::Cons(a, d) => if first {
            Some(a.copy())
        } else {
            match &**d {
                Value::Cons(b, _) => Some(b.copy()),
                _ => None,
            }
        },
        _ => None,
    }
}

/// The least width that a property list asks for by `display (min-width (WIDTH))`.
pub open spec fn min_width(props: Lisp) -> int {
    match plist_get(props, sym("display"@)) {
        Some(d) => if symbol_name(car(d)) == Some("min-width"@) {
            match car(car(cdr(d))) {
                Lisp::Int(n) => n as int,
                Lisp::Float(b) => truncated(b) as int,
                _ => 0,
            }
        } else {
            0
        },
        None => 0,
    }
}

/// The least width that a property list asks for.
fn least_width(props: &Value) -> (r: i64)
    ensures
        r == min_width(props@),
{
    match plist_value(props, &Value::symbol("display")) {
        Some(d) => if d.car().is_symbol_named("min-width") {
            match d.cdr().car().car() {
                Value::Int(n) => n,
                Value::Float(b) => float_truncate(b),
                _ => 0,
            }
        } else {
            0
        },
        None => 0,
    }
}

/// A text with properties set, and at least as wide as they ask for.
pub open spec fn propertized(s: Seq<Mark>, props: Lisp) -> Seq<Mark> {
    padded(overlaid(s, props), min_width(props) - s.len())
}

/// Sets properties on a text, and makes it at least as wide as they ask for.
fn propertize(s: &mut ModeLineRendered, props: &Value)
    ensures
        final(s)@ == propertized(old(s)@, props@),
{
    let ghost before = s@;
    let wanted: i64 = least_width(props);
    let have: usize = s.char_len();
    s.overlay_properties(props);
    let ghost over = s@;
    if wanted > 0 && wanted as u64 > have as u64 {
        s.pad_plain_spaces(wanted as u64 - have as u64);
    } else {
        proof {
            assert(padded(over, min_width(props@) - before.len()) =~= over);
        }
    }
}

impl Walk {
    /// The walk with another text.
    pub open spec fn with_text(self, text: Seq<Mark>) -> Walk {
        Walk { text, ..self }
    }

    /// The walk with what a part of it came to, put after the text so far. Of a part
    /// where an evaluation failed the text is left out.
    pub open spec fn joined(self, part: Walk, text: Seq<Mark>) -> Walk {
        match part.end {
            Some(Stop::Raised(_)) => part.with_text(self.text),
            _ => part.with_text(self.text + text),
        }
    }
}

/// What a walk comes to by one element: a string stands for itself and its percent
/// constructs, a symbol for its value, a list for its elements, `(:eval FORM)` for
/// what FORM gives, `(:propertize ELT PROPS...)` for ELT with properties, `(N REST...)`
/// for REST padded or cut to a width, and `(SYMBOL THEN ELSE)` for one of two.
/// A string that is the value of a symbol stands for itself alone. Where `risky`,
/// nothing is evaluated and nothing gets properties.
pub open spec fn walked(r: Rules, w: Walk, fmt: Lisp, depth: nat, risky: bool) -> Walk
    decreases 22 - depth, 0nat,
{
    if w.end is Some || depth > 20 {
        w
    } else {
        let e = line_of(r, w.session);
        match fmt {
            Lisp::Nil => w,
            Lisp::Int(_) => w,
            Lisp::Str(_, _) => w.with_text(with_string(e, r.percent, w.text, fmt, false)),
            Lisp::Cons(a, d) => if symbol_name(*a) == Some(":eval"@) {
                if risky {
                    w
                } else if r.evaluation == Evaluation::Refused {
                    Walk { end: Some(Stop::NeedsEval), ..w }
                } else {
                    match *d {
                        Lisp::Cons(form, _) => if w.answers.len() == 0 || w.answers[0].asked@
                            != w.session || w.answers[0].form@ != *form {
                            Walk { sound: false, ..w }
                        } else {
                            let next = Walk {
                                session: w.answers[0].answered@,
                                answers: w.answers.drop_first(),
                                ..w
                            };
                            match w.answers[0].result {
                                Ok(v) => walked(r, next, v@, depth + 1, risky),
                                Err(f) => if r.evaluation == Evaluation::Lenient {
                                    next
                                } else {
                                    Walk { end: Some(Stop::Raised(signalled(f))), ..next }
                                },
                            }
                        },
                        _ => w,
                    }
                }
            } else if symbol_name(*a) == Some(":propertize"@) {
                if risky {
                    w
                } else {
                    match *d {
                        Lisp::Cons(elt, props) => {
                            let part = walked(
                                r,
                                w.with_text(Seq::empty()),
                                *elt,
                                depth + 1,
                                risky,
                            );
                            w.joined(part, propertized(part.text, *props))
                        },
                        _ => w,
                    }
                }
            } else if *a is Int {
                let n = (*a)->Int_0;
                let part = walked(r, w.with_text(Seq::empty()), *d, depth + 1, risky);
                w.joined(
                    part,
                    segment(
                        part.text,
                        if n > 0 {
                            n as int
                        } else {
                            0
                        },
                        if n < 0 {
                            -n
                        } else {
                            0
                        },
                    ),
                )
            } else if symbol_name(*a) is Some && *a != Lisp::True {
                let value = variable(e.symbols, e.buffers, symbol_name(*a)->Some_0);
                match branch(*d, value matches Some(v) && v != Lisp::Nil) {
                    Some(b) => walked(r, w, b, depth + 1, risky),
                    None => w,
                }
            } else {
                match list_items(fmt) {
                    Some(items) => walked_each(r, w, items, depth + 1, risky),
                    None => w,
                }
            },
            _ => match symbol_name(fmt) {
                Some(name) => match variable(e.symbols, e.buffers, name) {
                    Some(v) => if v == Lisp::Nil {
                        w
                    } else if v is Str {
                        w.with_text(with_string(e, r.percent, w.text, v, true))
                    } else {
                        walked(r, w, v, depth + 1, risky || !trusted(e.symbols, name))
                    },
                    None => w,
                },
                None => w,
            },
        }
    }
}

/// What a walk comes to by some elements, one after the other.
pub open spec fn walked_each(r: Rules, w: Walk, items: Seq<Lisp>, depth: nat, risky: bool) -> Walk
    decreases 22 - depth, items.len() + 1,
{
    if items.len() == 0 {
        w
    } else {
        walked_each(
            r,
            walked(r, w, items[0], depth, risky),
            items.drop_first(),
            depth,
            risky,
        )
    }
}

/// A walk that has come to a session and a text, with evaluations still to come.
pub open spec fn at(s: SessionState, text: Seq<Mark>, answers: Seq<Answer>, end: Option<Stop>) -> Walk {
    Walk { session: s, text, answers, sound: true, end }
}

/// Whether one element leads from one session and text to another by exactly the
/// given evaluations, whatever comes after.
pub open spec fn leads(
    r: Rules,
    fmt: Lisp,
    depth: nat,
    risky: bool,
    from: (SessionState, Seq<Mark>),
    answers: Seq<Answer>,
    to: (SessionState, Seq<Mark>),
    end: Option<Stop>,
) -> bool {
    forall|rest: Seq<Answer>| #[trigger]
        walked(r, at(from.0, from.1, answers + rest, None), fmt, depth, risky) == at(
            to.0,
            to.1,
            rest,
            end,
        )
}

/// Whether some elements lead from one session and text to another by exactly the
/// given evaluations, whatever comes after.
pub open spec fn each_leads(
    r: Rules,
    items: Seq<Lisp>,
    depth: nat,
    risky: bool,
    from: (SessionState, Seq<Mark>),
    answers: Seq<Answer>,
    to: (SessionState, Seq<Mark>),
    end: Option<Stop>,
) -> bool {
    forall|rest: Seq<Answer>| #[trigger]
        walked_each(r, at(from.0, from.1, answers + rest, None), items, depth, risky) == at(
            to.0,
            to.1,
            rest,
            end,
        )
}

/// Whether each evaluation is one that the evaluator made.
pub open spec fn genuine<F: Fn(Session, Value) -> (Session, Result<Value, Flow>)>(
    eval: F,
    answers: Seq<Answer>,
) -> bool {
    forall|i: int|
        0 <= i < answers.len() ==> call_ensures(
            eval,
            ((#[trigger] answers[i]).asked, answers[i].form),
            (answers[i].answered, answers[i].result),
        )
}

/// Walks over `(:eval FORM)`.
fn format_mode_line_eval<F: Fn(Session, Value) -> (Session, Result<Value, Flow>)>(
    rules: &WalkRules,
    eval: &F,
    session: Session,
    fmt: &Value,
    result: &mut ModeLineRendered,
    depth: usize,
    risky: bool,
) -> (r: (Session, Option<WalkStop>, Ghost<Seq<Answer>>))
    requires
        rules@.percent.bounded(),
        forall|s: Session, v: Value| #[trigger] call_requires(*eval, (s, v)),
        depth <= 20,
        fmt@ is Cons,
        symbol_name(car(fmt@)) == Some(":eval"@),
    ensures
        genuine(*eval, r.2@),
        leads(
            rules@,
            fmt@,
            depth as nat,
            risky,
            (session@, old(result)@),
            r.2@,
            (r.0@, final(result)@),
            stop_view(r.1),
        ),
    decreases 22 - depth, 0nat,
{
    let ghost none = Seq::<Answer>::empty();
    let ghost x0 = result@;
    let ghost s0 = session@;
    proof {
        assert(forall|rest: Seq<Answer>| #[trigger] (none + rest) =~= rest);
    }
    if risky {
        return (session, None, Ghost(none));
    }
    if rules.evaluation == Evaluation::Refused {
        return (session, Some(WalkStop::NeedsEval), Ghost(none));
    }
    let tail: Value = fmt.cdr();
    if !tail.is_cons() {
        return (session, None, Ghost(none));
    }
    let question: Value = tail.car();
    let ghost asked = session;
    let ghost asked_form = question;
    let (after, answer) = eval(session, question);
    let ghost one = Answer { asked, form: asked_form, answered: after, result: answer };
    let ghost single = seq![one];
    proof {
        assert forall|rest: Seq<Answer>|
            (#[trigger] (single + rest)).drop_first() == rest && (single + rest)[0] == one
                && (single + rest).len() > 0 by {
            assert((single + rest).drop_first() =~= rest);
        }
    }
    match answer {
        Ok(v) => {
            let (s1, stop, more) = format_mode_line_recursive(
                rules,
                eval,
                after,
                &v,
                result,
                depth + 1,
                risky,
            );
            let ghost all = single + more@;
            proof {
                assert forall|rest: Seq<Answer>| #[trigger]
                    walked(
                        rules@,
                        at(s0, x0, all + rest, None),
                        fmt@,
                        depth as nat,
                        risky,
                    ) == at(s1@, result@, rest, stop_view(stop)) by {
                    assert((all + rest).drop_first() =~= more@ + rest);
                    assert((all + rest)[0] == one);
                    assert(walked(
                        rules@,
                        at(after@, x0, more@ + rest, None),
                        v@,
                        (depth + 1) as nat,
                        risky,
                    ) == at(s1@, result@, rest, stop_view(stop)));
                }
                assert forall|i: int| 0 <= i < all.len() implies call_ensures(
                    *eval,
                    ((#[trigger] all[i]).asked, all[i].form),
                    (all[i].answered, all[i].result),
                ) by {
                    if i > 0 {
                        assert(all[i] == more@[i - 1]);
                    }
                }
            }
            (s1, stop, Ghost(all))
        },
        Err(f) => {
            if rules.evaluation == Evaluation::Lenient {
                (after, None, Ghost(single))
            } else {
                (after, Some(WalkStop::Raised(f)), Ghost(single))
            }
        },
    }
}

/// Walks over `(:propertize ELT PROPS...)`.
fn format_mode_line_propertize<F: Fn(Session, Value) -> (Session, Result<Value, Flow>)>(
    rules: &WalkRules,
    eval: &F,
    session: Session,
    fmt: &Value,
    result: &mut ModeLineRendered,
    depth: usize,
    risky: bool,
) -> (r: (Session, Option<WalkStop>, Ghost<Seq<Answer>>))
    requires
        rules@.percent.bounded(),
        forall|s: Session, v: Value| #[trigger] call_requires(*eval, (s, v)),
        depth <= 20,
        fmt@ is Cons,
        symbol_name(car(fmt@)) == Some(":propertize"@),
    ensures
        genuine(*eval, r.2@),
        leads(
            rules@,
            fmt@,
            depth as nat,
            risky,
            (session@, old(result)@),
            r.2@,
            (r.0@, final(result)@),
            stop_view(r.1),
        ),
    decreases 22 - depth, 0nat,
{
    let ghost none = Seq::<Answer>::empty();
    let ghost x0 = result@;
    let ghost s0 = session@;
    let tail: Value = fmt.cdr();
    proof {
        assert(forall|rest: Seq<Answer>| #[trigger] (none + rest) =~= rest);
        reveal_strlit(":propertize");
        reveal_strlit(":eval");
        assert(":propertize"@.len() == 11 && ":eval"@.len() == 5);
    }
    if risky || !tail.is_cons() {
        return (session, None, Ghost(none));
    }
    let elt: Value = tail.car();
    let props: Value = tail.cdr();
    let mut part = ModeLineRendered::new();
    let (s1, stop, more) = format_mode_line_recursive(
        rules,
        eval,
        session,
        &elt,
        &mut part,
        depth + 1,
        risky,
    );
    let ghost inner = part@;
    let raised: bool = matches!(stop, Some(WalkStop::Raised(_)));
    if !raised {
        propertize(&mut part, &props);
        result.append_rendered(&part);
    }
    proof {
        assert forall|rest: Seq<Answer>| #[trigger]
            walked(rules@, at(s0, x0, more@ + rest, None), fmt@, depth as nat, risky) == at(
                s1@,
                result@,
                rest,
                stop_view(stop),
            ) by {
            assert(walked(
                rules@,
                at(s0, Seq::empty(), more@ + rest, None),
                elt@,
                (depth + 1) as nat,
                risky,
            ) == at(s1@, inner, rest, stop_view(stop)));
        }
    }
    (s1, stop, more)
}

/// Walks over `(N REST...)`.
fn format_mode_line_width<F: Fn(Session, Value) -> (Session, Result<Value, Flow>)>(
    rules: &WalkRules,
    eval: &F,
    session: Session,
    fmt: &Value,
    n: i64,
    result: &mut ModeLineRendered,
    depth: usize,
    risky: bool,
) -> (r: (Session, Option<WalkStop>, Ghost<Seq<Answer>>))
    requires
        rules@.percent.bounded(),
        forall|s: Session, v: Value| #[trigger] call_requires(*eval, (s, v)),
        depth <= 20,
        fmt@ is Cons,
        car(fmt@) == Lisp::Int(n),
    ensures
        genuine(*eval, r.2@),
        leads(
            rules@,
            fmt@,
            depth as nat,
            risky,
            (session@, old(result)@),
            r.2@,
            (r.0@, final(result)@),
            stop_view(r.1),
        ),
    decreases 22 - depth, 0nat,
{
    let ghost x0 = result@;
    let ghost s0 = session@;
    let tail: Value = fmt.cdr();
    let width: u64 = if n > 0 {
        n as u64
    } else {
        0
    };
    let precision: u64 = if n < 0 {
        (0i128 - n as i128) as u64
    } else {
        0
    };
    let mut part = ModeLineRendered::new();
    let (s1, stop, more) = format_mode_line_recursive(
        rules,
        eval,
        session,
        &tail,
        &mut part,
        depth + 1,
        risky,
    );
    let ghost inner = part@;
    let raised: bool = matches!(stop, Some(WalkStop::Raised(_)));
    if !raised {
        result.append_rendered(&part.segment(width, precision));
    }
    proof {
        assert forall|rest: Seq<Answer>| #[trigger]
            walked(rules@, at(s0, x0, more@ + rest, None), fmt@, depth as nat, risky) == at(
                s1@,
                result@,
                rest,
                stop_view(stop),
            ) by {
            assert(walked(
                rules@,
                at(s0, Seq::empty(), more@ + rest, None),
                tail@,
                (depth + 1) as nat,
                risky,
            ) == at(s1@, inner, rest, stop_view(stop)));
        }
    }
    (s1, stop, more)
}

/// Walks over `(SYMBOL THEN ELSE)`.
fn format_mode_line_conditional<F: Fn(Session, Value) -> (Session, Result<Value, Flow>)>(
    rules: &WalkRules,
    eval: &F,
    session: Session,
    fmt: &Value,
    name: &str,
    result: &mut ModeLineRendered,
    depth: usize,
    risky: bool,
) -> (r: (Session, Option<WalkStop>, Ghost<Seq<Answer>>))
    requires
        rules@.percent.bounded(),
        forall|s: Session, v: Value| #[trigger] call_requires(*eval, (s, v)),
        depth <= 20,
        fmt@ is Cons,
        symbol_name(car(fmt@)) == Some(name@),
        name@ != ":eval"@,
        name@ != ":propertize"@,
        car(fmt@) != Lisp::True,
    ensures
        genuine(*eval, r.2@),
        leads(
            rules@,
            fmt@,
            depth as nat,
            risky,
            (session@, old(result)@),
            r.2@,
            (r.0@, final(result)@),
            stop_view(r.1),
        ),
    decreases 22 - depth, 0nat,
{
    let ghost none = Seq::<Answer>::empty();
    let ghost x0 = result@;
    let ghost s0 = session@;
    proof {
        assert(forall|rest: Seq<Answer>| #[trigger] (none + rest) =~= rest);
    }
    let holds: bool = match mode_line_symbol_value(
        &session.obarray,
        &session.ui.buffers,
        name,
    ) {
        Some(v) => v.is_truthy(),
        None => false,
    };
    match mode_line_conditional_branch(&fmt.cdr(), holds) {
        Some(b) => {
            let (s1, stop, more) = format_mode_line_recursive(
                rules,
                eval,
                session,
                &b,
                result,
                depth + 1,
                risky,
            );
            proof {
                assert forall|rest: Seq<Answer>| #[trigger]
                    walked(
                        rules@,
                        at(s0, x0, more@ + rest, None),
                        fmt@,
                        depth as nat,
                        risky,
                    ) == at(s1@, result@, rest, stop_view(stop)) by {
                    assert(walked(
                        rules@,
                        at(s0, x0, more@ + rest, None),
                        b@,
                        (depth + 1) as nat,
                        risky,
                    ) == at(s1@, result@, rest, stop_view(stop)));
                }
            }
            (s1, stop, more)
        },
        None => (session, None, Ghost(none)),
    }
}

/// Walks over a symbol.
fn format_mode_line_symbol<F: Fn(Session, Value) -> (Session, Result<Value, Flow>)>(
    rules: &WalkRules,
    eval: &F,
    session: Session,
    fmt: &Value,
    name: &str,
    result: &mut ModeLineRendered,
    depth: usize,
    risky: bool,
) -> (r: (Session, Option<WalkStop>, Ghost<Seq<Answer>>))
    requires
        rules@.percent.bounded(),
        forall|s: Session, v: Value| #[trigger] call_requires(*eval, (s, v)),
        depth <= 20,
        fmt@ != Lisp::Nil,
        symbol_name(fmt@) == Some(name@),
    ensures
        genuine(*eval, r.2@),
        leads(
            rules@,
            fmt@,
            depth as nat,
            risky,
            (session@, old(result)@),
            r.2@,
            (r.0@, final(result)@),
            stop_view(r.1),
        ),
    decreases 22 - depth, 0nat,
{
    let ghost none = Seq::<Answer>::empty();
    let ghost x0 = result@;
    let ghost s0 = session@;
    proof {
        assert(forall|rest: Seq<Answer>| #[trigger] (none + rest) =~= rest);
    }
    match mode_line_symbol_value(&session.obarray, &session.ui.buffers, name) {
        Some(v) => {
            if v.is_nil() {
                return (session, None, Ghost(none));
            }
            if v.is_string() {
                let loops: usize = rules.loops(&session);
                append_mode_line_string(
                    &session.obarray,
                    &session.ui.buffers,
                    &session.processes,
                    loops,
                    &rules.percent,
                    result,
                    &v,
                    true,
                );
                return (session, None, Ghost(none));
            }
            let distrusted: bool = risky || !mode_line_symbol_is_risky(&session.obarray, name);
            let (s1, stop, more) = format_mode_line_recursive(
                rules,
                eval,
                session,
                &v,
                result,
                depth + 1,
                distrusted,
            );
            proof {
                assert forall|rest: Seq<Answer>| #[trigger]
                    walked(
                        rules@,
                        at(s0, x0, more@ + rest, None),
                        fmt@,
                        depth as nat,
                        risky,
                    ) == at(s1@, result@, rest, stop_view(stop)) by {
                    assert(walked(
                        rules@,
                        at(s0, x0, more@ + rest, None),
                        v@,
                        (depth + 1) as nat,
                        distrusted,
                    ) == at(s1@, result@, rest, stop_view(stop)));
                }
            }
            (s1, stop, more)
        },
        None => (session, None, Ghost(none)),
    }
}

impl WalkRules {
    /// How many command loops the walk shows.
    fn loops(&self, session: &Session) -> (r: usize)
        ensures
            line_of(self@, session@) == line_state(
                session.obarray,
                session.ui.buffers,
                session.processes,
                r as int,
            ),
    {
        if self.counts_loops {
            session.recursive_command_loop_depth()
        } else {
            0
        }
    }
}

/// Walks over one element of a mode line.
pub fn format_mode_line_recursive<
    F: Fn(Session, Value) -> (Session, Result<Value, Flow>),
>(
    rules: &WalkRules,
    eval: &F,
    session: Session,
    fmt: &Value,
    result: &mut ModeLineRendered,
    depth: usize,
    risky: bool,
) -> (r: (Session, Option<WalkStop>, Ghost<Seq<Answer>>))
    requires
        rules@.percent.bounded(),
        forall|s: Session, v: Value| #[trigger] call_requires(*eval, (s, v)),
    ensures
        genuine(*eval, r.2@),
        leads(
            rules@,
            fmt@,
            depth as nat,
            risky,
            (session@, old(result)@),
            r.2@,
            (r.0@, final(result)@),
            stop_view(r.1),
        ),
    decreases 22 - depth, 1nat,
{
    let ghost none = Seq::<Answer>::empty();
    let ghost x0 = result@;
    let ghost s0 = session@;
    proof {
        assert(forall|rest: Seq<Answer>| #[trigger] (none + rest) =~= rest);
    }
    if depth > 20 || fmt.is_nil() {
        return (session, None, Ghost(none));
    }
    if fmt.is_string() {
        let loops: usize = rules.loops(&session);
        append_mode_line_string(
            &session.obarray,
            &session.ui.buffers,
            &session.processes,
            loops,
            &rules.percent,
            result,
            fmt,
            false,
        );
        return (session, None, Ghost(none));
    }
    if !fmt.is_cons() {
        return match fmt.as_symbol_name() {
            Some(name) => format_mode_line_symbol(
                rules,
                eval,
                session,
                fmt,
                name.as_str(),
                result,
                depth,
                risky,
            ),
            None => (session, None, Ghost(none)),
        };
    }
    let head: Value = fmt.car();
    if head.is_symbol_named(":eval") {
        return format_mode_line_eval(rules, eval, session, fmt, result, depth, risky);
    }
    if head.is_symbol_named(":propertize") {
        return format_mode_line_propertize(rules, eval, session, fmt, result, depth, risky);
    }
    match head.as_int() {
        Some(n) => {
            return format_mode_line_width(rules, eval, session, fmt, n, result, depth, risky);
        },
        None => {},
    }
    if !head.is_t() {
        match head.as_symbol_name() {
            Some(name) => {
                return format_mode_line_conditional(
                    rules,
                    eval,
                    session,
                    fmt,
                    name.as_str(),
                    result,
                    depth,
                    risky,
                );
            },
            None => {},
        }
    }
    match list_to_vec(fmt) {
        Some(items) => {
            let (s1, stop, more) = format_mode_line_each(
                rules,
                eval,
                session,
                &items,
                result,
                depth + 1,
                risky,
            );
            proof {
                assert forall|rest: Seq<Answer>| #[trigger]
                    walked(
                        rules@,
                        at(s0, x0, more@ + rest, None),
                        fmt@,
                        depth as nat,
                        risky,
                    ) == at(s1@, result@, rest, stop_view(stop)) by {
                    assert(walked_each(
                        rules@,
                        at(s0, x0, more@ + rest, None),
                        views(items@),
                        (depth + 1) as nat,
                        risky,
                    ) == at(s1@, result@, rest, stop_view(stop)));
                }
            }
            (s1, stop, more)
        },
        None => (session, None, Ghost(none)),
    }
}

/// A walk that has ended stays as it is.
proof fn lemma_ended(r: Rules, w: Walk, items: Seq<Lisp>, depth: nat, risky: bool)
    requires
        w.end is Some,
    ensures
        walked_each(r, w, items, depth, risky) == w,
    decreases items.len(),
{
    if items.len() > 0 {
        assert(walked(r, w, items[0], depth, risky) == w);
        lemma_ended(r, w, items.drop_first(), depth, risky);
    }
}

/// Walks over some elements of a mode line, one after the other.
fn format_mode_line_each<F: Fn(Session, Value) -> (Session, Result<Value, Flow>)>(
    rules: &WalkRules,
    eval: &F,
    session: Session,
    items: &Vec<Value>,
    result: &mut ModeLineRendered,
    depth: usize,
    risky: bool,
) -> (r: (Session, Option<WalkStop>, Ghost<Seq<Answer>>))
    requires
        rules@.percent.bounded(),
        forall|s: Session, v: Value| #[trigger] call_requires(*eval, (s, v)),
    ensures
        genuine(*eval, r.2@),
        each_leads(
            rules@,
            views(items@),
            depth as nat,
            risky,
            (session@, old(result)@),
            r.2@,
            (r.0@, final(result)@),
            stop_view(r.1),
        ),
    decreases 22 - depth, 2nat,
{
    let ghost x0 = result@;
    let ghost s0 = session@;
    let ghost all = views(items@);
    let ghost mut answers = Seq::<Answer>::empty();
    let mut current: Session = session;
    let mut i: usize = 0;
    proof {
        assert(all.skip(0) =~= all);
        assert(forall|rest: Seq<Answer>| #[trigger] (answers + rest) =~= rest);
    }
    while i < items.len()
        invariant
            i <= items.len(),
            all == views(items@),
            x0 == old(result)@,
            s0 == session@,
            rules@.percent.bounded(),
            forall|s: Session, v: Value| #[trigger] call_requires(*eval, (s, v)),
            genuine(*eval, answers),
            forall|rest: Seq<Answer>| #[trigger]
                walked_each(
                    rules@,
                    at(s0, x0, answers + rest, None),
                    all,
                    depth as nat,
                    risky,
                ) == walked_each(
                    rules@,
                    at(current@, result@, rest, None),
                    all.skip(i as int),
                    depth as nat,
                    risky,
                ),
        decreases items.len() - i,
    {
        let ghost s1 = current@;
        let ghost x1 = result@;
        let ghost before = answers;
        let (s2, stop, more) = format_mode_line_recursive(
            rules,
            eval,
            current,
            &items[i],
            result,
            depth,
            risky,
        );
        proof {
            answers = before + more@;
            assert(all.skip(i as int)[0] == items@[i as int]@);
            assert(all.skip(i as int).drop_first() =~= all.skip(i + 1));
            assert forall|rest: Seq<Answer>| #[trigger]
                walked_each(
                    rules@,
                    at(s0, x0, answers + rest, None),
                    all,
                    depth as nat,
                    risky,
                ) == walked_each(
                    rules@,
                    at(s2@, result@, rest, stop_view(stop)),
                    all.skip(i + 1),
                    depth as nat,
                    risky,
                ) by {
                assert(answers + rest =~= before + (more@ + rest));
                assert(walked_each(
                    rules@,
                    at(s0, x0, before + (more@ + rest), None),
                    all,
                    depth as nat,
                    risky,
                ) == walked_each(
                    rules@,
                    at(s1, x1, more@ + rest, None),
                    all.skip(i as int),
                    depth as nat,
                    risky,
                ));
                assert(walked(
                    rules@,
                    at(s1, x1, more@ + rest, None),
                    all.skip(i as int)[0],
                    depth as nat,
                    risky,
                ) == at(s2@, result@, rest, stop_view(stop)));
            }
            assert forall|k: int| 0 <= k < answers.len() implies call_ensures(
                *eval,
                ((#[trigger] answers[k]).asked, answers[k].form),
                (answers[k].answered, answers[k].result),
            ) by {
                if k < before.len() {
                    assert(answers[k] == before[k]);
                } else {
                    assert(answers[k] == more@[k - before.len()]);
                }
            }
        }
        match stop {
            Some(x) => {
                proof {
                    assert forall|rest: Seq<Answer>| #[trigger]
                        walked_each(
                            rules@,
                            at(s0, x0, answers + rest, None),
                            all,
                            depth as nat,
                            risky,
                        ) == at(s2@, result@, rest, stop_view(Some(x))) by {
                        lemma_ended(
                            rules@,
                            at(s2@, result@, rest, stop_view(Some(x))),
                            all.skip(i + 1),
                            depth as nat,
                            risky,
                        );
                    }
                }
                return (s2, Some(x), Ghost(answers));
            },
            None => {},
        }
        current = s2;
        i = i + 1;
    }
    proof {
        assert(all.skip(i as int) =~= Seq::<Lisp>::empty());
    }
    (current, None, Ghost(answers))
}

} // verus!
