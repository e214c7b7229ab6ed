//! Text properties stay with their characters when text is inserted or deleted.
use crate::buffer::{
    place_deleted, run_inserted, runs_deleted, runs_inserted, string_runs, BufferState, Run,
};
use crate::value::{car, cdr, int_of, Lisp};
use crate::xdisp::rendered::plist_at;
use vstd::prelude::*;

verus! {

/// Whether a run gives properties to the character with a number.
pub open spec fn gives(r: Run, i: int, plist: Lisp) -> bool {
    r.start <= i < r.end && r.plist == plist
}

/// Whether some runs give properties to the character with a number.
pub open spec fn given(rs: Seq<Run>, i: int, plist: Lisp) -> bool
    decreases rs.len(),
{
    rs.len() > 0 && (given(rs.drop_last(), i, plist) || gives(rs.last(), i, plist))
}

proof fn lemma_given_joined(a: Seq<Run>, b: Seq<Run>, i: int, plist: Lisp)
    ensures
        given(a + b, i, plist) == (given(a, i, plist) || given(b, i, plist)),
    decreases b.len(),
{
    if b.len() == 0 {
        assert(a + b =~= a);
    } else {
        assert((a + b).drop_last() =~= a + b.drop_last());
        assert((a + b).last() == b.last());
        lemma_given_joined(a, b.drop_last(), i, plist);
    }
}

/// The properties of the characters before an insertion stay, those after it go with their
/// characters, and what is inserted has none.
pub proof fn law_insertion_moves_properties(
    rs: Seq<Run>,
    p: int,
    n: int,
    total: int,
    i: int,
    plist: Lisp,
)
    requires
        forall|k: int| 0 <= k < rs.len() ==> (#[trigger] rs[k]).end <= total,
        0 <= p <= total,
        0 <= n,
    ensures
        i < p ==> given(runs_inserted(rs, p, n, total), i, plist) == given(rs, i, plist),
        p <= i < p + n ==> !given(runs_inserted(rs, p, n, total), i, plist),
        p <= i ==> given(runs_inserted(rs, p, n, total), i + n, plist) == given(rs, i, plist),
    decreases rs.len(),
{
    if rs.len() > 0 {
        let front = rs.drop_last();
        assert forall|k: int| 0 <= k < front.len() implies (#[trigger] front[k]).end <= total by {
            assert(front[k] == rs[k]);
        }
        law_insertion_moves_properties(front, p, n, total, i, plist);
        let r = rs.last();
        assert(rs[rs.len() - 1].end <= total);
        let new = run_inserted(r, p, n, total);
        let before = runs_inserted(front, p, n, total);
        lemma_given_joined(before, new, i, plist);
        lemma_given_joined(before, new, i + n, plist);
        reveal_with_fuel(given, 3);
        if new.len() == 1 {
            assert(new.drop_last() =~= Seq::<Run>::empty());
            assert(new.last() == new[0]);
        } else {
            assert(new.last() == new[1]);
            assert(new.drop_last() =~= seq![new[0]]);
            assert(seq![new[0]].drop_last() =~= Seq::<Run>::empty());
        }
    }
}

/// The properties of the characters before a deletion stay, and those after it go with
/// their characters.
pub proof fn law_deletion_moves_properties(
    rs: Seq<Run>,
    start: int,
    end: int,
    i: int,
    plist: Lisp,
)
    requires
        start <= end,
    ensures
        i < start ==> given(runs_deleted(rs, start, end), i, plist) == given(rs, i, plist),
        end <= i ==> given(runs_deleted(rs, start, end), i - (end - start), plist) == given(
            rs,
            i,
            plist,
        ),
    decreases rs.len(),
{
    if rs.len() > 0 {
        let r = rs.last();
        let rest = runs_deleted(rs.drop_last(), start, end);
        law_deletion_moves_properties(rs.drop_last(), start, end, i, plist);
        let a = place_deleted(r.start, start, end);
        let b = place_deleted(r.end, start, end);
        let new = Run { start: a, end: b, plist: r.plist };
        if a < b {
            assert(rest.push(new).drop_last() =~= rest);
            assert(rest.push(new).last() == new);
        }
    }
}

/// Whether the runs of a string lie inside it.
pub open spec fn inside_string(runs: Lisp, count: int) -> bool
    decreases runs,
{
    match runs {
        Lisp::Cons(run, rest) => {
            &&& int_of(car(*run)) matches Some(a) && 0 <= a
            &&& int_of(car(cdr(*run))) matches Some(b) && b <= count
            &&& int_of(car(*run))->0 < int_of(car(cdr(*run)))->0
            &&& inside_string(*rest, count)
        },
        _ => true,
    }
}

/// The properties that a character of a string has are given to it where the string is put.
pub proof fn law_string_brings_properties(runs: Lisp, at: int, count: int, i: int)
    requires
        inside_string(runs, count),
        plist_at(runs, i) != Lisp::Nil,
    ensures
        given(string_runs(runs, at, count), at + i, plist_at(runs, i)),
    decreases runs,
{
    match runs {
        Lisp::Cons(run, rest) => {
            let a = int_of(car(*run))->0;
            let b = int_of(car(cdr(*run)))->0;
            let first = Run { start: at + a, end: at + b, plist: car(cdr(cdr(*run))) };
            lemma_given_joined(
                seq![first],
                string_runs(*rest, at, count),
                at + i,
                plist_at(runs, i),
            );
            assert(seq![first].last() == first);
            assert(seq![first].drop_last() =~= Seq::<Run>::empty());
            if !(a <= i < b) {
                law_string_brings_properties(*rest, at, count, i);
            }
        },
        _ => {},
    }
}

/// Text that is inserted stands at point, with point after it, and what is deleted is gone;
/// the accessible region grows and shrinks with the text.
pub proof fn law_text_is_inserted_and_deleted(b: BufferState, bytes: Seq<u8>, start: int, end: int)
    requires
        b.wf(),
        0 <= start <= end <= b.text.len(),
    ensures
        ({
            let i = b.inserted(bytes);
            let d = b.deleted(start, end);
            &&& i.text == b.text.take(b.pt) + bytes + b.text.skip(b.pt)
            &&& i.pt == b.pt + bytes.len() && i.begv == b.begv && i.zv == b.zv + bytes.len()
            &&& i.modified && d.modified
            &&& d.text == b.text.take(start) + b.text.skip(end)
            &&& d.wf() && i.wf()
            &&& b.pt <= start ==> d.pt == b.pt
            &&& b.pt >= end ==> d.pt == b.pt - (end - start)
            &&& i.deleted(b.pt, b.pt + bytes.len()).text == b.text
            &&& i.deleted(b.pt, b.pt + bytes.len()).pt == b.pt
        }),
{
    let i = b.inserted(bytes);
    let u = i.deleted(b.pt, b.pt + bytes.len());
    assert(i.text.take(b.pt) =~= b.text.take(b.pt));
    assert(i.text.skip(b.pt + bytes.len()) =~= b.text.skip(b.pt));
    assert(u.text =~= b.text);
}

} // verus!
