//! What holds of walks over mode lines, with evaluation and without.
use crate::value::{list_items, signalled, symbol_name, Lisp};
use crate::xdisp::percent::variable;
use crate::xdisp::walk::{
    branch, line_of, trusted, walked, walked_each, Answer, Evaluation, Rules, Stop, Walk,
};
use vstd::prelude::*;

verus! {

/// Whether a walk ended at a failed evaluation.
pub open spec fn raised(w: Walk) -> bool {
    match w.end {
        Some(Stop::Raised(_)) => true,
        _ => false,
    }
}

/// What the manner of evaluation says of every walk: one that evaluates nothing
/// takes no evaluations, leaves the session as it is and raises nothing; one that
/// evaluates does not stop for want of it; one that forgives failures never ends early.
pub open spec fn keeps_manner(r: Rules, w: Walk, v: Walk) -> bool {
    &&& r.evaluation == Evaluation::Refused ==> v.answers == w.answers && v.session == w.session
    &&& r.evaluation == Evaluation::Refused && !raised(w) ==> !raised(v)
    &&& r.evaluation != Evaluation::Refused && w.end !== Some(Stop::NeedsEval) ==> v.end !== Some(
        Stop::NeedsEval,
    )
    &&& r.evaluation == Evaluation::Lenient && w.end is None ==> v.end is None
}

/// Every walk keeps to its manner of evaluation.
pub proof fn law_walk_keeps_manner(r: Rules, w: Walk, fmt: Lisp, depth: nat, risky: bool)
    ensures
        keeps_manner(r, w, walked(r, w, fmt, depth, risky)),
    decreases 22 - depth, 0nat,
{
    if w.end is None && depth <= 20 {
        let e = line_of(r, w.session);
        match fmt {
            Lisp::Cons(a, d) => {
                if symbol_name(*a) == Some(":eval"@) {
                    if w.answers.len() > 0 {
                        let next = Walk {
                            session: w.answers[0].answered@,
                            answers: w.answers.drop_first(),
                            ..w
                        };
                        match w.answers[0].result {
                            Ok(v) => law_walk_keeps_manner(r, next, v@, depth + 1, risky),
                            Err(_) => {},
                        }
                    }
                } else if symbol_name(*a) == Some(":propertize"@) {
                    match *d {
                        Lisp::Cons(elt, props) => {
                            law_walk_keeps_manner(
                                r,
                                w.with_text(Seq::empty()),
                                *elt,
                                depth + 1,
                                risky,
                            );
                        },
                        _ => {},
                    }
                } else if *a is Int {
                    law_walk_keeps_manner(r, w.with_text(Seq::empty()), *d, depth + 1, risky);
                } else if symbol_name(*a) is Some && *a != Lisp::True {
                    let value = variable(e.symbols, e.buffers, symbol_name(*a)->Some_0);
                    match branch(*d, value matches Some(v) && v != Lisp::Nil) {
                        Some(b) => law_walk_keeps_manner(r, w, b, depth + 1, risky),
                        None => {},
                    }
                } else {
                    match list_items(fmt) {
                        Some(items) => lemma_walk_keeps_manner_each(
                            r,
                            w,
                            items,
                            depth + 1,
                            risky,
                        ),
                        None => {},
                    }
                }
            },
            _ => match symbol_name(fmt) {
                Some(name) => match variable(e.symbols, e.buffers, name) {
                    Some(v) => {
                        law_walk_keeps_manner(
                            r,
                            w,
                            v,
                            depth + 1,
                            risky || !trusted(e.symbols, name),
                        );
                    },
                    None => {},
                },
                None => {},
            },
        }
    }
}

proof fn lemma_walk_keeps_manner_each(
    r: Rules,
    w: Walk,
    items: Seq<Lisp>,
    depth: nat,
    risky: bool,
)
    ensures
        keeps_manner(r, w, walked_each(r, w, items, depth, risky)),
    decreases 22 - depth, items.len() + 1,
{
    if items.len() > 0 {
        law_walk_keeps_manner(r, w, items[0], depth, risky);
        lemma_walk_keeps_manner_each(
            r,
            walked(r, w, items[0], depth, risky),
            items.drop_first(),
            depth,
            risky,
        );
    }
}

/// Whether one of some evaluations failed.
pub open spec fn failed(answers: Seq<Answer>) -> bool {
    exists|i: int| 0 <= i < answers.len() && (#[trigger] answers[i]).result is Err
}

/// Whether a walk took its evaluations from the first on, and ended early exactly
/// where the last one that it took failed.
pub open spec fn ends_with_failure(w: Walk, v: Walk) -> bool {
    let n = w.answers.len() - v.answers.len();
    &&& 0 <= n
    &&& v.answers == w.answers.skip(n)
    &&& w.end is Some ==> v == w
    &&& forall|i: int|
        0 <= i < n && (#[trigger] w.answers[i]).result is Err ==> i == n - 1 && raised(v)
    &&& w.end is None && raised(v) ==> n > 0 && w.answers[n - 1].result is Err && v.end == Some(
        Stop::Raised(signalled(w.answers[n - 1].result->Err_0)),
    )
}

proof fn lemma_failures_joined(w: Walk, v: Walk, u: Walk)
    requires
        ends_with_failure(w, v),
        ends_with_failure(v, u),
    ensures
        ends_with_failure(w, u),
{
    if v.end is None {
        let n = w.answers.len() - v.answers.len();
        let m = v.answers.len() - u.answers.len();
        assert(w.answers.skip(n).skip(m) =~= w.answers.skip(n + m));
        assert forall|i: int|
            0 <= i < n + m && (#[trigger] w.answers[i]).result is Err implies i == n + m - 1
            && raised(u) by {
            if i >= n {
                assert(v.answers[i - n] == w.answers[i]);
            }
        }
        if m > 0 {
            assert(v.answers[m - 1] == w.answers[n + m - 1]);
        }
    }
}

proof fn lemma_nothing_taken(w: Walk, v: Walk)
    requires
        v.answers == w.answers,
        v.end == w.end,
        w.end is None || v == w,
    ensures
        ends_with_failure(w, v),
{
    assert(w.answers.skip(0) =~= w.answers);
}

/// A walk that ends where an evaluation fails does so at the first failure, and
/// for no other reason.
pub proof fn law_first_failure_ends_strict_walk(
    r: Rules,
    w: Walk,
    fmt: Lisp,
    depth: nat,
    risky: bool,
)
    requires
        r.evaluation == Evaluation::Strict,
    ensures
        ends_with_failure(w, walked(r, w, fmt, depth, risky)),
    decreases 22 - depth, 0nat,
{
    let v = walked(r, w, fmt, depth, risky);
    assert(w.answers.skip(0) =~= w.answers);
    if w.end is None && depth <= 20 {
        let e = line_of(r, w.session);
        match fmt {
            Lisp::Cons(a, d) => {
                if symbol_name(*a) == Some(":eval"@) {
                    if w.answers.len() > 0 {
                        let next = Walk {
                            session: w.answers[0].answered@,
                            answers: w.answers.drop_first(),
                            ..w
                        };
                        assert(w.answers.skip(1) =~= w.answers.drop_first());
                        match w.answers[0].result {
                            Ok(x) => {
                                law_first_failure_ends_strict_walk(r, next, x@, depth + 1, risky);
                                assert(ends_with_failure(w, next));
                                lemma_failures_joined(
                                    w,
                                    next,
                                    walked(r, next, x@, depth + 1, risky),
                                );
                            },
                            Err(_) => {},
                        }
                    }
                } else if symbol_name(*a) == Some(":propertize"@) {
                    match *d {
                        Lisp::Cons(elt, _) => {
                            law_first_failure_ends_strict_walk(
                                r,
                                w.with_text(Seq::empty()),
                                *elt,
                                depth + 1,
                                risky,
                            );
                        },
                        _ => {},
                    }
                } else if *a is Int {
                    law_first_failure_ends_strict_walk(
                        r,
                        w.with_text(Seq::empty()),
                        *d,
                        depth + 1,
                        risky,
                    );
                } else if symbol_name(*a) is Some && *a != Lisp::True {
                    let value = variable(e.symbols, e.buffers, symbol_name(*a)->Some_0);
                    match branch(*d, value matches Some(x) && x != Lisp::Nil) {
                        Some(b) => law_first_failure_ends_strict_walk(r, w, b, depth + 1, risky),
                        None => {},
                    }
                } else {
                    match list_items(fmt) {
                        Some(items) => lemma_first_failure_ends_each(
                            r,
                            w,
                            items,
                            depth + 1,
                            risky,
                        ),
                        None => {},
                    }
                }
            },
            _ => match symbol_name(fmt) {
                Some(name) => match variable(e.symbols, e.buffers, name) {
                    Some(x) => {
                        law_first_failure_ends_strict_walk(
                            r,
                            w,
                            x,
                            depth + 1,
                            risky || !trusted(e.symbols, name),
                        );
                    },
                    None => {},
                },
                None => {},
            },
        }
    }
}

proof fn lemma_first_failure_ends_each(
    r: Rules,
    w: Walk,
    items: Seq<Lisp>,
    depth: nat,
    risky: bool,
)
    requires
        r.evaluation == Evaluation::Strict,
    ensures
        ends_with_failure(w, walked_each(r, w, items, depth, risky)),
    decreases 22 - depth, items.len() + 1,
{
    if items.len() == 0 {
        lemma_nothing_taken(w, w);
    } else {
        let v = walked(r, w, items[0], depth, risky);
        law_first_failure_ends_strict_walk(r, w, items[0], depth, risky);
        lemma_first_failure_ends_each(r, v, items.drop_first(), depth, risky);
        lemma_failures_joined(w, v, walked_each(r, v, items.drop_first(), depth, risky));
    }
}

/// Whether a walk comes to an element `(:eval ...)` in a place that is trusted.
pub open spec fn meets_eval(r: Rules, w: Walk, fmt: Lisp, depth: nat, risky: bool) -> bool
    decreases 22 - depth, 0nat,
{
    let e = line_of(r, w.session);
    if w.end is Some || depth > 20 {
        false
    } else {
        match fmt {
            Lisp::Nil => false,
            Lisp::Int(_) => false,
            Lisp::Str(_, _) => false,
            Lisp::Cons(a, d) => if symbol_name(*a) == Some(":eval"@) {
                !risky
            } else if symbol_name(*a) == Some(":propertize"@) {
                !risky && match *d {
                    Lisp::Cons(elt, _) => meets_eval(
                        r,
                        w.with_text(Seq::empty()),
                        *elt,
                        depth + 1,
                        risky,
                    ),
                    _ => false,
                }
            } else if *a is Int {
                meets_eval(r, w.with_text(Seq::empty()), *d, depth + 1, risky)
            } else if symbol_name(*a) is Some && *a != Lisp::True {
                let value = variable(e.symbols, e.buffers, symbol_name(*a)->Some_0);
                match branch(*d, value matches Some(x) && x != Lisp::Nil) {
                    Some(b) => meets_eval(r, w, b, depth + 1, risky),
                    None => false,
                }
            } else {
                match list_items(fmt) {
                    Some(items) => meets_eval_among(r, w, items, depth + 1, risky),
                    None => false,
                }
            },
            _ => match symbol_name(fmt) {
                Some(name) => match variable(e.symbols, e.buffers, name) {
                    Some(x) => meets_eval(
                        r,
                        w,
                        x,
                        depth + 1,
                        risky || !trusted(e.symbols, name),
                    ),
                    None => false,
                },
                None => false,
            },
        }
    }
}

/// Whether a walk over some elements comes to an element `(:eval ...)` in a place
/// that is trusted.
pub open spec fn meets_eval_among(
    r: Rules,
    w: Walk,
    items: Seq<Lisp>,
    depth: nat,
    risky: bool,
) -> bool
    decreases 22 - depth, items.len() + 1,
{
    items.len() > 0 && (meets_eval(r, w, items[0], depth, risky) || meets_eval_among(
        r,
        walked(r, w, items[0], depth, risky),
        items.drop_first(),
        depth,
        risky,
    ))
}

proof fn lemma_ended_walk_stays(r: Rules, w: Walk, items: Seq<Lisp>, depth: nat, risky: bool)
    requires
        w.end is Some,
    ensures
        walked_each(r, w, items, depth, risky) == w,
        !meets_eval_among(r, w, items, depth, risky),
    decreases items.len(),
{
    if items.len() > 0 {
        assert(walked(r, w, items[0], depth, risky) == w);
        assert(!meets_eval(r, w, items[0], depth, risky));
        lemma_ended_walk_stays(r, w, items.drop_first(), depth, risky);
    }
}

/// A walk that evaluates nothing asks for evaluation exactly where it comes to an
/// element `(:eval ...)` in a place that is trusted.
pub proof fn law_refused_walk_stops_at_eval(
    r: Rules,
    w: Walk,
    fmt: Lisp,
    depth: nat,
    risky: bool,
)
    requires
        r.evaluation == Evaluation::Refused,
        w.end is None,
    ensures
        meets_eval(r, w, fmt, depth, risky) <==> walked(r, w, fmt, depth, risky).end == Some(
            Stop::NeedsEval,
        ),
        !meets_eval(r, w, fmt, depth, risky) <==> walked(r, w, fmt, depth, risky).end is None,
    decreases 22 - depth, 0nat,
{
    if depth <= 20 {
        let e = line_of(r, w.session);
        match fmt {
            Lisp::Cons(a, d) => {
                if symbol_name(*a) == Some(":eval"@) {
                } else if symbol_name(*a) == Some(":propertize"@) {
                    match *d {
                        Lisp::Cons(elt, _) => {
                            law_refused_walk_stops_at_eval(
                                r,
                                w.with_text(Seq::empty()),
                                *elt,
                                depth + 1,
                                risky,
                            );
                        },
                        _ => {},
                    }
                } else if *a is Int {
                    law_refused_walk_stops_at_eval(
                        r,
                        w.with_text(Seq::empty()),
                        *d,
                        depth + 1,
                        risky,
                    );
                } else if symbol_name(*a) is Some && *a != Lisp::True {
                    let value = variable(e.symbols, e.buffers, symbol_name(*a)->Some_0);
                    match branch(*d, value matches Some(x) && x != Lisp::Nil) {
                        Some(b) => law_refused_walk_stops_at_eval(r, w, b, depth + 1, risky),
                        None => {},
                    }
                } else {
                    match list_items(fmt) {
                        Some(items) => lemma_refused_walk_stops_among(
                            r,
                            w,
                            items,
                            depth + 1,
                            risky,
                        ),
                        None => {},
                    }
                }
            },
            _ => match symbol_name(fmt) {
                Some(name) => match variable(e.symbols, e.buffers, name) {
                    Some(x) => {
                        law_refused_walk_stops_at_eval(
                            r,
                            w,
                            x,
                            depth + 1,
                            risky || !trusted(e.symbols, name),
                        );
                    },
                    None => {},
                },
                None => {},
            },
        }
    }
}

proof fn lemma_refused_walk_stops_among(
    r: Rules,
    w: Walk,
    items: Seq<Lisp>,
    depth: nat,
    risky: bool,
)
    requires
        r.evaluation == Evaluation::Refused,
        w.end is None,
    ensures
        meets_eval_among(r, w, items, depth, risky) <==> walked_each(
            r,
            w,
            items,
            depth,
            risky,
        ).end == Some(Stop::NeedsEval),
        !meets_eval_among(r, w, items, depth, risky) <==> walked_each(
            r,
            w,
            items,
            depth,
            risky,
        ).end is None,
    decreases 22 - depth, items.len() + 1,
{
    if items.len() > 0 {
        let v = walked(r, w, items[0], depth, risky);
        law_refused_walk_stops_at_eval(r, w, items[0], depth, risky);
        if v.end is None {
            lemma_refused_walk_stops_among(r, v, items.drop_first(), depth, risky);
        } else {
            lemma_ended_walk_stays(r, v, items.drop_first(), depth, risky);
        }
    }
}

/// In a place that is not trusted, no element asks for evaluation.
pub proof fn law_untrusted_place_asks_for_nothing(r: Rules, w: Walk, fmt: Lisp, depth: nat)
    ensures
        !meets_eval(r, w, fmt, depth, true),
    decreases 22 - depth, 0nat,
{
    if w.end is None && depth <= 20 {
        let e = line_of(r, w.session);
        match fmt {
            Lisp::Cons(a, d) => {
                if symbol_name(*a) == Some(":eval"@) || symbol_name(*a) == Some(":propertize"@) {
                } else if *a is Int {
                    law_untrusted_place_asks_for_nothing(
                        r,
                        w.with_text(Seq::empty()),
                        *d,
                        depth + 1,
                    );
                } else if symbol_name(*a) is Some && *a != Lisp::True {
                    let value = variable(e.symbols, e.buffers, symbol_name(*a)->Some_0);
                    match branch(*d, value matches Some(x) && x != Lisp::Nil) {
                        Some(b) => law_untrusted_place_asks_for_nothing(r, w, b, depth + 1),
                        None => {},
                    }
                } else {
                    match list_items(fmt) {
                        Some(items) => lemma_untrusted_elements_ask_for_nothing(
                            r,
                            w,
                            items,
                            depth + 1,
                        ),
                        None => {},
                    }
                }
            },
            _ => match symbol_name(fmt) {
                Some(name) => match variable(e.symbols, e.buffers, name) {
                    Some(x) => law_untrusted_place_asks_for_nothing(r, w, x, depth + 1),
                    None => {},
                },
                None => {},
            },
        }
    }
}

proof fn lemma_untrusted_elements_ask_for_nothing(
    r: Rules,
    w: Walk,
    items: Seq<Lisp>,
    depth: nat,
)
    ensures
        !meets_eval_among(r, w, items, depth, true),
    decreases 22 - depth, items.len() + 1,
{
    if items.len() > 0 {
        law_untrusted_place_asks_for_nothing(r, w, items[0], depth);
        lemma_untrusted_elements_ask_for_nothing(
            r,
            walked(r, w, items[0], depth, true),
            items.drop_first(),
            depth,
        );
    }
}

/// A walk that evaluates nothing does not look at evaluations.
pub(crate) proof fn lemma_refused_walk_ignores_answers(
    r: Rules,
    w: Walk,
    fmt: Lisp,
    depth: nat,
    risky: bool,
    answers: Seq<Answer>,
)
    requires
        r.evaluation == Evaluation::Refused,
    ensures
        walked(r, (Walk { answers, ..w }), fmt, depth, risky) == (Walk {
            answers,
            ..walked(r, w, fmt, depth, risky)
        }),
    decreases 22 - depth, 0nat,
{
    if w.end is None && depth <= 20 {
        let e = line_of(r, w.session);
        let bare = w.with_text(Seq::empty());
        match fmt {
            Lisp::Nil | Lisp::Int(_) | Lisp::Str(_, _) => {},
            Lisp::Cons(a, d) => {
                if symbol_name(*a) == Some(":eval"@) {
                } else if symbol_name(*a) == Some(":propertize"@) {
                    match *d {
                        Lisp::Cons(elt, _) => lemma_refused_walk_ignores_answers(
                            r,
                            bare,
                            *elt,
                            depth + 1,
                            risky,
                            answers,
                        ),
                        _ => {},
                    }
                } else if *a is Int {
                    lemma_refused_walk_ignores_answers(r, bare, *d, depth + 1, risky, answers);
                } else if symbol_name(*a) is Some && *a != Lisp::True {
                    let value = variable(e.symbols, e.buffers, symbol_name(*a)->Some_0);
                    match branch(*d, value matches Some(x) && x != Lisp::Nil) {
                        Some(b) => lemma_refused_walk_ignores_answers(
                            r,
                            w,
                            b,
                            depth + 1,
                            risky,
                            answers,
                        ),
                        None => {},
                    }
                } else {
                    match list_items(fmt) {
                        Some(items) => lemma_refused_elements_ignore_answers(
                            r,
                            w,
                            items,
                            depth + 1,
                            risky,
                            answers,
                        ),
                        None => {},
                    }
                }
            },
            _ => match symbol_name(fmt) {
                Some(name) => match variable(e.symbols, e.buffers, name) {
                    Some(x) => lemma_refused_walk_ignores_answers(
                        r,
                        w,
                        x,
                        depth + 1,
                        risky || !trusted(e.symbols, name),
                        answers,
                    ),
                    None => {},
                },
                None => {},
            },
        }
    }
}

proof fn lemma_refused_elements_ignore_answers(
    r: Rules,
    w: Walk,
    items: Seq<Lisp>,
    depth: nat,
    risky: bool,
    answers: Seq<Answer>,
)
    requires
        r.evaluation == Evaluation::Refused,
    ensures
        walked_each(r, (Walk { answers, ..w }), items, depth, risky) == (Walk {
            answers,
            ..walked_each(r, w, items, depth, risky)
        }),
    decreases 22 - depth, items.len() + 1,
{
    if items.len() > 0 {
        lemma_refused_walk_ignores_answers(r, w, items[0], depth, risky, answers);
        lemma_refused_elements_ignore_answers(
            r,
            walked(r, w, items[0], depth, risky),
            items.drop_first(),
            depth,
            risky,
            answers,
        );
    }
}

/// A walk that evaluates nothing and asks for no evaluation comes to the same text,
/// with the same properties, as one that evaluates, which evaluates nothing either.
pub proof fn law_walk_is_the_same_without_evaluation(
    r: Rules,
    w: Walk,
    fmt: Lisp,
    depth: nat,
    risky: bool,
)
    requires
        walked(
            (Rules { evaluation: Evaluation::Refused, ..r }),
            w,
            fmt,
            depth,
            risky,
        ).end is None,
    ensures
        walked(r, w, fmt, depth, risky) == walked(
            (Rules { evaluation: Evaluation::Refused, ..r }),
            w,
            fmt,
            depth,
            risky,
        ),
        walked(r, w, fmt, depth, risky).answers == w.answers,
        walked(r, w, fmt, depth, risky).session == w.session,
        walked(r, w, fmt, depth, risky).sound == w.sound,
    decreases 22 - depth, 0nat,
{
    if w.end is None && depth <= 20 {
        let e = line_of(r, w.session);
        match fmt {
            Lisp::Cons(a, d) => {
                if symbol_name(*a) == Some(":eval"@) {
                } else if symbol_name(*a) == Some(":propertize"@) {
                    match *d {
                        Lisp::Cons(elt, _) => {
                            if !risky {
                                law_walk_is_the_same_without_evaluation(
                                    r,
                                    w.with_text(Seq::empty()),
                                    *elt,
                                    depth + 1,
                                    risky,
                                );
                            }
                        },
                        _ => {},
                    }
                } else if *a is Int {
                    law_walk_is_the_same_without_evaluation(
                        r,
                        w.with_text(Seq::empty()),
                        *d,
                        depth + 1,
                        risky,
                    );
                } else if symbol_name(*a) is Some && *a != Lisp::True {
                    let value = variable(e.symbols, e.buffers, symbol_name(*a)->Some_0);
                    match branch(*d, value matches Some(x) && x != Lisp::Nil) {
                        Some(b) => law_walk_is_the_same_without_evaluation(
                            r,
                            w,
                            b,
                            depth + 1,
                            risky,
                        ),
                        None => {},
                    }
                } else {
                    match list_items(fmt) {
                        Some(items) => lemma_each_is_the_same_without_evaluation(
                            r,
                            w,
                            items,
                            depth + 1,
                            risky,
                        ),
                        None => {},
                    }
                }
            },
            Lisp::Nil | Lisp::Int(_) | Lisp::Str(_, _) => {},
            _ => match symbol_name(fmt) {
                Some(name) => match variable(e.symbols, e.buffers, name) {
                    Some(x) => {
                        if x != Lisp::Nil && !(x is Str) {
                            law_walk_is_the_same_without_evaluation(
                                r,
                                w,
                                x,
                                depth + 1,
                                risky || !trusted(e.symbols, name),
                            );
                        }
                    },
                    None => {},
                },
                None => {},
            },
        }
    }
}

proof fn lemma_each_is_the_same_without_evaluation(
    r: Rules,
    w: Walk,
    items: Seq<Lisp>,
    depth: nat,
    risky: bool,
)
    requires
        walked_each(
            (Rules { evaluation: Evaluation::Refused, ..r }),
            w,
            items,
            depth,
            risky,
        ).end is None,
    ensures
        walked_each(r, w, items, depth, risky) == walked_each(
            (Rules { evaluation: Evaluation::Refused, ..r }),
            w,
            items,
            depth,
            risky,
        ),
        walked_each(r, w, items, depth, risky).answers == w.answers,
        walked_each(r, w, items, depth, risky).session == w.session,
        walked_each(r, w, items, depth, risky).sound == w.sound,
    decreases 22 - depth, items.len() + 1,
{
    if items.len() > 0 {
        let refused = Rules { evaluation: Evaluation::Refused, ..r };
        let v = walked(refused, w, items[0], depth, risky);
        if v.end is Some {
            lemma_ended_walk_stays(refused, v, items.drop_first(), depth, risky);
        }
        law_walk_is_the_same_without_evaluation(r, w, items[0], depth, risky);
        lemma_each_is_the_same_without_evaluation(r, v, items.drop_first(), depth, risky);
    }
}

} // verus!
