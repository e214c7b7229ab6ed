//! What the elements of a mode line format stand for.
use crate::session::SessionState;
use crate::value::{cons, list2, list_items, sym, symbol_name, Lisp, Outcome};
use crate::xdisp::designator::target_buffer;
use crate::xdisp::format::{formatted, line_walk, Manner};
use crate::xdisp::percent::variable;
use crate::xdisp::rendered::{
    plist_at, plist_get, plist_overlaid, plist_put, rendered_value, run_end, runs_from, segment,
    string_marks, wanted_face, Mark,
};
use crate::xdisp::walk::{propertized, walked, walked_each, Answer, Rules, Walk};
use vstd::prelude::*;

verus! {

/// Whether a list with this first element is walked element by element.
pub open spec fn heads_list(a: Lisp) -> bool {
    a is Str || a is Cons || a == Lisp::True
}

proof fn lemma_keywords()
    ensures
        ":eval"@ != ":propertize"@,
        symbol_name(Lisp::True) == Some("t"@),
        "t"@ != ":eval"@,
        "t"@ != ":propertize"@,
        "nil"@ != ":eval"@,
        "nil"@ != ":propertize"@,
{
    reveal_strlit(":eval");
    reveal_strlit(":propertize");
    reveal_strlit("t");
    reveal_strlit("nil");
    assert(":eval"@.len() == 5 && ":propertize"@.len() == 11 && "t"@.len() == 1 && "nil"@.len()
        == 3);
}

proof fn lemma_names()
    ensures
        sym("face"@) == Lisp::Symbol("face"@),
        sym("display"@) == Lisp::Symbol("display"@),
        sym("default"@) == Lisp::Symbol("default"@),
{
    reveal_strlit("face");
    reveal_strlit("display");
    reveal_strlit("default");
    reveal_strlit("t");
    reveal_strlit("nil");
    assert("face"@.len() == 4 && "display"@.len() == 7 && "default"@.len() == 7 && "t"@.len() == 1
        && "nil"@.len() == 3);
}

/// A condition shows its first alternative where its variable has a value that is not
/// nil, and the second one, if there is any, where it has none or nil.
pub proof fn law_condition_chooses(
    r: Rules,
    w: Walk,
    name: Seq<char>,
    yes: Lisp,
    no: Lisp,
    depth: nat,
    risky: bool,
)
    requires
        w.end is None,
        depth <= 20,
        name != ":eval"@,
        name != ":propertize"@,
    ensures
        ({
            let on = variable(w.session.symbols, w.session.ui.buffers, name) matches Some(v) && v
                != Lisp::Nil;
            let both = cons(Lisp::Symbol(name), list2(yes, no));
            let one = list2(Lisp::Symbol(name), yes);
            &&& on ==> walked(r, w, both, depth, risky) == walked(r, w, yes, depth + 1, risky)
            &&& on ==> walked(r, w, one, depth, risky) == walked(r, w, yes, depth + 1, risky)
            &&& !on ==> walked(r, w, both, depth, risky) == walked(r, w, no, depth + 1, risky)
            &&& !on ==> walked(r, w, one, depth, risky) == w
        }),
{
    let both = cons(Lisp::Symbol(name), list2(yes, no));
    let one = list2(Lisp::Symbol(name), yes);
    assert(symbol_name(Lisp::Symbol(name)) == Some(name));
}

/// A list is walked element by element, each from where the one before it ended.
pub proof fn law_list_is_walked_in_turn(
    r: Rules,
    w: Walk,
    first: Lisp,
    second: Lisp,
    rest: Lisp,
    depth: nat,
    risky: bool,
)
    requires
        w.end is None,
        depth < 20,
        heads_list(first),
        heads_list(second),
        list_items(rest) is Some,
        walked(r, w, first, depth + 1, risky).end is None,
    ensures
        walked(r, w, cons(first, cons(second, rest)), depth, risky) == walked(
            r,
            walked(r, w, first, depth + 1, risky),
            cons(second, rest),
            depth,
            risky,
        ),
        walked(r, w, cons(first, Lisp::Nil), depth, risky) == walked(r, w, first, depth + 1, risky),
{
    lemma_keywords();
    reveal_with_fuel(list_items, 3);
    let v = walked(r, w, first, depth + 1, risky);
    let items = list_items(cons(second, rest))->0;
    let all = seq![first] + items;
    assert(list_items(cons(first, cons(second, rest))) == Some(all));
    assert(all[0] == first && all.drop_first() =~= items);
    assert(walked(r, w, cons(first, cons(second, rest)), depth, risky) == walked_each(
        r,
        w,
        all,
        depth + 1,
        risky,
    ));
    assert(walked_each(r, w, all, depth + 1, risky) == walked_each(
        r,
        v,
        items,
        depth + 1,
        risky,
    ));
    let one = seq![first] + Seq::<Lisp>::empty();
    assert(list_items(cons(first, Lisp::Nil)) == Some(one));
    assert(one[0] == first && one.drop_first() =~= Seq::<Lisp>::empty());
    assert(walked(r, w, cons(first, Lisp::Nil), depth, risky) == walked_each(
        r,
        w,
        one,
        depth + 1,
        risky,
    ));
    assert(walked_each(r, v, one.drop_first(), depth + 1, risky) == v);
    assert(walked_each(r, w, one, depth + 1, risky) == v);
}

/// A list that starts with a positive number is padded with spaces to that many
/// characters; one that starts with a negative number is cut off after that many; nothing
/// else of it changes.
pub proof fn law_number_pads_or_cuts(
    r: Rules,
    w: Walk,
    n: i64,
    rest: Lisp,
    depth: nat,
    risky: bool,
)
    requires
        w.end is None,
        depth <= 20,
        walked(r, w.with_text(Seq::empty()), rest, depth + 1, risky).end is None,
    ensures
        ({
            let part = walked(r, w.with_text(Seq::empty()), rest, depth + 1, risky);
            let whole = walked(r, w, cons(Lisp::Int(n), rest), depth, risky);
            let added = whole.text.skip(w.text.len() as int);
            let size = part.text.len();
            &&& whole.text == w.text + added
            &&& whole.session == part.session && whole.answers == part.answers
            &&& n == 0 ==> added == part.text
            &&& n > 0 ==> added.len() == (if n > size {
                n as int
            } else {
                size as int
            }) && added.take(size as int) == part.text && forall|i: int|
                size <= i < added.len() ==> (#[trigger] added[i]) == (Mark {
                    c: ' ',
                    props: Lisp::Nil,
                })
            &&& n < 0 ==> added == part.text.take(
                if -n < size {
                    -n as int
                } else {
                    size as int
                },
            )
        }),
{
    let part = walked(r, w.with_text(Seq::empty()), rest, depth + 1, risky);
    let whole = walked(r, w, cons(Lisp::Int(n), rest), depth, risky);
    let seg = segment(
        part.text,
        if n > 0 {
            n as int
        } else {
            0
        },
        if n < 0 {
            -n
        } else {
            0
        },
    );
    assert(symbol_name(Lisp::Int(n)) is None);
    assert(whole.text == w.text + seg);
    let added = whole.text.skip(w.text.len() as int);
    assert(added =~= seg);
    if n > 0 {
        assert(added.take(part.text.len() as int) =~= part.text);
    } else if n < 0 {
        assert(part.text.take(part.text.len() as int) =~= part.text);
        assert(added =~= part.text.take(
            if -n < part.text.len() {
                -n as int
            } else {
                part.text.len() as int
            },
        ));
    } else {
        assert(added =~= part.text);
    }
}

/// A property that is put is the one that is got, and the others stay.
pub proof fn law_property_is_put(p: Lisp, key: Lisp, value: Lisp, other: Lisp)
    ensures
        plist_get(plist_put(p, key, value), key) == Some(value),
        other != key ==> plist_get(plist_put(p, key, value), other) == plist_get(p, other),
    decreases p,
{
    reveal_with_fuel(plist_get, 2);
    match p {
        Lisp::Cons(k, t) => match *t {
            Lisp::Cons(v, rest) => if *k != key {
                law_property_is_put(*rest, key, value, other);
            },
            _ => {},
        },
        _ => {},
    }
}

/// Properties that are laid over others take their place, and leave the ones that they do
/// not name.
pub proof fn law_properties_are_laid_over(p: Lisp, over: Lisp, key: Lisp)
    ensures
        plist_get(over, key) is None ==> plist_get(plist_overlaid(p, over), key) == plist_get(
            p,
            key,
        ),
        plist_get(over, key) is Some ==> plist_get(plist_overlaid(p, over), key) is Some,
    decreases over,
{
    match over {
        Lisp::Cons(k, t) => match *t {
            Lisp::Cons(v, rest) => {
                law_property_is_put(p, *k, *v, key);
                law_properties_are_laid_over(plist_put(p, *k, *v), *rest, key);
            },
            _ => {},
        },
        _ => {},
    }
}

/// A property that is named once in the properties that are laid over is the one that is
/// got.
pub proof fn law_property_is_laid_over(p: Lisp, key: Lisp, value: Lisp, rest: Lisp)
    requires
        plist_get(rest, key) is None,
    ensures
        plist_get(plist_overlaid(p, cons(key, cons(value, rest))), key) == Some(value),
{
    law_property_is_put(p, key, value, key);
    law_properties_are_laid_over(plist_put(p, key, value), rest, key);
}

/// `:propertize` shows what its element shows, character by character, with its properties
/// laid over those of each of them.
pub proof fn law_properties_are_given(
    r: Rules,
    w: Walk,
    elt: Lisp,
    props: Lisp,
    depth: nat,
    i: int,
)
    requires
        w.end is None,
        depth <= 20,
        walked(r, w.with_text(Seq::empty()), elt, depth + 1, false).end is None,
        list_items(props) is Some,
        plist_get(props, Lisp::Symbol("display"@)) is None,
        0 <= i < walked(r, w.with_text(Seq::empty()), elt, depth + 1, false).text.len(),
    ensures
        ({
            let part = walked(r, w.with_text(Seq::empty()), elt, depth + 1, false);
            let fmt = cons(Lisp::Symbol(":propertize"@), cons(elt, props));
            let whole = walked(r, w, fmt, depth, false);
            &&& whole.text.take(w.text.len() as int) == w.text
            &&& whole.text.len() == w.text.len() + part.text.len()
            &&& whole.text[w.text.len() + i].c == part.text[i].c
            &&& whole.text[w.text.len() + i].props == plist_overlaid(part.text[i].props, props)
            &&& walked(r, w, fmt, depth, true) == w
        }),
{
    lemma_keywords();
    let part = walked(r, w.with_text(Seq::empty()), elt, depth + 1, false);
    let fmt = cons(Lisp::Symbol(":propertize"@), cons(elt, props));
    let whole = walked(r, w, fmt, depth, false);
    assert(symbol_name(Lisp::Symbol(":propertize"@)) == Some(":propertize"@));
    assert(whole.text == w.text + propertized(part.text, props));
    lemma_names();
    assert(crate::xdisp::walk::min_width(props) == 0);
    assert(whole.text.take(w.text.len() as int) =~= w.text);
}

/// A symbol shows its value: a string as it is, with no construct in it replaced; anything
/// else as the format that it is, which may not evaluate where the symbol is not trusted.
pub proof fn law_symbol_shows_value(r: Rules, w: Walk, name: Seq<char>, depth: nat, risky: bool)
    requires
        w.end is None,
        depth <= 20,
        name != "nil"@,
    ensures
        match variable(w.session.symbols, w.session.ui.buffers, name) {
            Some(v) => {
                let shown = walked(r, w, Lisp::Symbol(name), depth, risky);
                let sure = w.session.symbols.property(name, "risky-local-variable"@) matches Some(
                    q,
                ) && q != Lisp::Nil;
                &&& v is Str ==> shown == w.with_text(w.text + string_marks(v))
                &&& v !is Str && sure ==> shown == walked(r, w, v, depth + 1, risky)
                &&& v !is Str && v != Lisp::Nil && !sure ==> shown == walked(
                    r,
                    w,
                    v,
                    depth + 1,
                    true,
                )
            },
            None => walked(r, w, Lisp::Symbol(name), depth, risky) == w,
        },
{
    assert(symbol_name(Lisp::Symbol(name)) == Some(name));
    match variable(w.session.symbols, w.session.ui.buffers, name) {
        Some(v) => {
            if v == Lisp::Nil {
                assert(walked(r, w, v, depth + 1, risky) == w);
            }
        },
        None => {},
    }
}

/// A form that is evaluated is asked for once, in the session as it is, and what it gives
/// is walked; in a place that is not trusted it is left out.
pub proof fn law_form_shows_result(
    r: Rules,
    w: Walk,
    form: Lisp,
    value: Lisp,
    depth: nat,
)
    requires
        w.end is None,
        depth <= 20,
        r.evaluation != crate::xdisp::walk::Evaluation::Refused,
        w.answers.len() > 0,
        w.answers[0].asked@ == w.session,
        w.answers[0].form@ == form,
        w.answers[0].result matches Ok(v) && v@ == value,
    ensures
        ({
            let fmt = list2(Lisp::Symbol(":eval"@), form);
            let next = Walk {
                session: w.answers[0].answered@,
                answers: w.answers.drop_first(),
                ..w
            };
            &&& walked(r, w, fmt, depth, false) == walked(r, next, value, depth + 1, false)
            &&& walked(r, w, fmt, depth, true) == w
        }),
{
    lemma_keywords();
    assert(symbol_name(Lisp::Symbol(":eval"@)) == Some(":eval"@));
}

/// Numbers, nil and what is deeper than twenty levels show nothing.
pub proof fn law_nothing_is_shown(r: Rules, w: Walk, n: i64, fmt: Lisp, depth: nat, risky: bool)
    ensures
        walked(r, w, Lisp::Nil, depth, risky) == w,
        walked(r, w, Lisp::Int(n), depth, risky) == w,
        depth > 20 ==> walked(r, w, fmt, depth, risky) == w,
{
}

proof fn lemma_run_end(s: Seq<Mark>, i: int)
    requires
        0 <= i < s.len(),
    ensures
        i < run_end(s, i) <= s.len(),
        forall|j: int| i <= j < run_end(s, i) ==> (#[trigger] s[j]).props == s[i].props,
    decreases s.len() - i,
{
    if i + 1 < s.len() && s[i + 1].props == s[i].props {
        lemma_run_end(s, i + 1);
    }
}

proof fn lemma_runs_from(s: Seq<Mark>, i: int, k: int)
    requires
        0 <= i <= k < s.len() <= i64::MAX,
    ensures
        plist_at(runs_from(s, i), k) == s[k].props,
    decreases s.len() - i,
{
    lemma_run_end(s, i);
    let j = run_end(s, i);
    assert(s[k].props == s[k].props);
    if k < j {
        assert(s[k].props == s[i].props);
        if s[i].props == Lisp::Nil {
            lemma_runs_before(s, j, k);
        }
    } else {
        lemma_runs_from(s, j, k);
    }
}

proof fn lemma_runs_before(s: Seq<Mark>, i: int, k: int)
    requires
        0 <= k < i,
        s.len() <= i64::MAX,
    ensures
        plist_at(runs_from(s, i), k) == Lisp::Nil,
    decreases s.len() - i,
{
    if i < s.len() {
        lemma_run_end(s, i);
        lemma_runs_before(s, run_end(s, i), k);
    }
}

/// A line that is given as a string has the properties of each character where it stands,
/// with the face that was asked for put last: it comes after the face that a character
/// has. A number as face leaves all properties out.
pub proof fn law_line_has_its_properties(s: Seq<Mark>, face: Lisp, k: int)
    requires
        0 <= k < s.len() <= i64::MAX,
    ensures
        rendered_value(s, face) matches Lisp::Str(_, runs) && ({
            let at = plist_at(*runs, k);
            let kept = face == Lisp::Nil || face == Lisp::Symbol("default"@);
            &&& face is Int ==> at == Lisp::Nil
            &&& kept ==> at == s[k].props
            &&& face !is Int && !kept ==> plist_get(at, Lisp::Symbol("face"@)) == Some(
                match plist_get(s[k].props, Lisp::Symbol("face"@)) {
                    Some(f) => list2(f, face),
                    None => face,
                },
            ) && forall|key: Lisp|
                key != Lisp::Symbol("face"@) ==> #[trigger] plist_get(at, key) == plist_get(
                    s[k].props,
                    key,
                )
        }),
{
    lemma_names();
    let t = match wanted_face(face) {
        Some(f) => crate::xdisp::rendered::faced(s, f),
        None => s,
    };
    lemma_runs_from(t, 0, k);
    let p = s[k].props;
    let value = match plist_get(p, Lisp::Symbol("face"@)) {
        Some(f) => list2(f, face),
        None => face,
    };
    law_property_is_put(p, Lisp::Symbol("face"@), value, Lisp::Nil);
    assert forall|key: Lisp| key != Lisp::Symbol("face"@) implies #[trigger] plist_get(
        plist_put(p, Lisp::Symbol("face"@), value),
        key,
    ) == plist_get(p, key) by {
        law_property_is_put(p, Lisp::Symbol("face"@), value, key);
    }
}

/// A line is formatted in the buffer that it is asked for, and the session comes back to
/// the buffer that was current where that is still there, unless an evaluation ended it.
pub proof fn law_line_comes_back(
    m: Manner,
    s: SessionState,
    fmt: Lisp,
    face: Lisp,
    window: Lisp,
    buffer: Lisp,
    answers: Seq<Answer>,
)
    ensures
        ({
            let t = formatted(m, s, fmt, face, window, buffer, answers);
            let there = s.switched(target_buffer(s.ui.frames, window, buffer));
            let w = line_walk(m, there, fmt, window, answers);
            &&& s.ui.buffers.current is Some && w.end is None && fmt != Lisp::Nil
                && w.session.ui.buffers.get(s.ui.buffers.current->0) is Some
                ==> t.session.ui.buffers.current == s.ui.buffers.current
            &&& w.end is None && fmt != Lisp::Nil ==> t.end == Some(
                Outcome::Value(rendered_value(w.text, face)),
            )
        }),
{
}

} // verus!
