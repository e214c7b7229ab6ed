//! What the names of coding systems stand for.
use crate::coding::Codings;
use crate::encoding::builtins::{converted, Accepted};
use crate::encoding::family::{coding_base, family_of};
use crate::encoding::region_laws::law_name_says_line_endings;
use crate::lisp_string::LispText;
use crate::text::has_suffix;
use crate::value::{list1, wrong_type, Lisp, Outcome};
use crate::xdisp::percent::{eol_variable, mnemonic};
use vstd::prelude::*;

verus! {

/// A coding system that was defined stands for what it was defined as, and no other one
/// changes.
pub proof fn law_coding_is_defined(
    c: Codings,
    name: Seq<char>,
    canonical: Seq<char>,
    other: Seq<char>,
)
    requires
        name != other,
    ensures
        c.with(name, canonical).defined(name) == Some(canonical),
        c.with(name, canonical).defined(other) == c.defined(other),
        c.with(name, canonical).knows(name),
        c.with(name, canonical).terminal == c.terminal,
        c.with(name, canonical).keyboard == c.keyboard,
{
    let v = crate::value::sym(canonical);
    crate::table::law_entry_set(c.systems, name, v);
    crate::table::law_entry_set_keeps_others(c.systems, name, v, other);
}

/// A coding system with line endings in its name stands for what it does without them, with
/// the same line endings, unless it is defined by itself.
pub proof fn law_line_endings_are_kept(c: Codings, name: Seq<char>)
    ensures
        c.defined(name + "-dos"@) is None ==> c.knows(name + "-dos"@) == (c.defined(name) is Some)
            && (c.defined(name) matches Some(n) ==> c.canonical(name + "-dos"@) == Some(
            n + "-dos"@,
        )),
        c.defined(name + "-mac"@) is None ==> (c.defined(name) matches Some(n) ==> c.canonical(
            name + "-mac"@,
        ) == Some(n + "-mac"@)),
        c.defined(name + "-unix"@) is None ==> (c.defined(name) matches Some(n) ==> c.canonical(
            name + "-unix"@,
        ) == Some(n + "-unix"@)),
        c.defined(name) matches Some(n) ==> c.canonical(name) == Some(n),
{
    law_name_says_line_endings(name);
    let k = name.len() as int;
    assert((name + "-dos"@).skip(k) =~= "-dos"@);
    assert((name + "-mac"@).skip(k) =~= "-mac"@);
    assert((name + "-unix"@).skip(k) =~= "-unix"@);
}

/// Line endings change neither the family nor the mnemonic of a coding system.
pub proof fn law_line_endings_leave_family(base: Seq<char>)
    requires
        coding_base(base) == base,
    ensures
        family_of(base + "-dos"@) == family_of(base),
        family_of(base + "-mac"@) == family_of(base),
        family_of(base + "-unix"@) == family_of(base),
        mnemonic(base + "-dos"@) == mnemonic(base),
        mnemonic(base + "-mac"@) == mnemonic(base),
        mnemonic(base + "-unix"@) == mnemonic(base),
{
    law_name_says_line_endings(base);
}

/// The variable that holds the sign of line endings is the one of the name's line endings.
pub proof fn law_line_endings_have_their_sign(base: Seq<char>)
    ensures
        eol_variable(base + "-dos"@) == "eol-mnemonic-dos"@,
        eol_variable(base + "-mac"@) == "eol-mnemonic-mac"@,
        eol_variable(base + "-unix"@) == "eol-mnemonic-unix"@,
        base.len() < 4 ==> eol_variable(base) == "eol-mnemonic-undecided"@,
{
    law_name_says_line_endings(base);
    reveal_strlit("-dos");
    reveal_strlit("-mac");
    reveal_strlit("-unix");
    let d = base + "-dos"@;
    let m = base + "-mac"@;
    let u = base + "-unix"@;
    let n = base.len() as int;
    assert(d.subrange(n, n + 4) =~= "-dos"@);
    assert(m.subrange(n, n + 4) =~= "-mac"@);
    assert(u.subrange(n, n + 5) =~= "-unix"@);
    assert(!has_suffix(m, "-dos"@)) by {
        if has_suffix(m, "-dos"@) {
            assert(m.subrange(n, n + 4)[3] == "-dos"@[3]);
        }
    }
    assert(!has_suffix(u, "-dos"@)) by {
        if has_suffix(u, "-dos"@) {
            assert(u.subrange(n + 1, n + 5)[3] == "-dos"@[3]);
        }
    }
    assert(!has_suffix(u, "-mac"@)) by {
        if has_suffix(u, "-mac"@) {
            assert(u.subrange(n + 1, n + 5)[3] == "-mac"@[3]);
        }
    }
}

/// A string is converted by a coding system that is accepted, is left as it is without one,
/// and is refused otherwise.
pub proof fn law_string_is_converted(
    name: Seq<char>,
    text: LispText,
    runs: Lisp,
    coding: Seq<char>,
    known: Accepted,
    convert: spec_fn(LispText, Seq<char>) -> Lisp,
)
    requires
        coding != "nil"@,
    ensures
        ({
            let s = Lisp::Str(text, Box::new(runs));
            let made = |a: Lisp| converted(name, seq![s, a], known, convert);
            &&& made(Lisp::Nil) == Outcome::Value(s)
            &&& known.accepts(coding) ==> made(Lisp::Symbol(coding)) == Outcome::Value(
                convert(text, coding),
            )
            &&& !known.accepts(coding) ==> made(Lisp::Symbol(coding)) == Outcome::Signal(
                "coding-system-error"@,
                list1(Lisp::Symbol(coding)),
            )
            &&& made(Lisp::Int(0)) == wrong_type("symbolp"@, Lisp::Int(0))
            &&& converted(name, seq![Lisp::Int(0), Lisp::Nil], known, convert) == wrong_type(
                "stringp"@,
                Lisp::Int(0),
            )
        }),
{
    let s = Lisp::Str(text, Box::new(runs));
    let x = seq![s, Lisp::Nil];
    let y = seq![s, Lisp::Symbol(coding)];
    let z = seq![s, Lisp::Int(0)];
    let v = seq![Lisp::Int(0), Lisp::Nil];
    assert(x.len() == 2 && x[0] == s && x[1] == Lisp::Nil);
    assert(y.len() == 2 && y[0] == s && y[1] == Lisp::Symbol(coding));
    assert(z.len() == 2 && z[0] == s && z[1] == Lisp::Int(0));
    assert(v.len() == 2 && v[0] == Lisp::Int(0) && v[1] == Lisp::Nil);
}

} // verus!
