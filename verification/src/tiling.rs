//! Windows fill the room of their frame, without gaps and without overlap.
use crate::window::{
    after_child, child_rect, find, first_half, first_rect, first_start, fitted, grown_over_next,
    grown_over_previous, inside, leaf_at, leaf_ids, new_leaf, rest_of, second_half, split_at,
    with_first_rect, with_next, without, Combination, Leaf, Rect, SplitDirection,
    Window, Windows,
};
use crate::window_cmds::laws::has_combination;
use vstd::prelude::*;

verus! {

/// Where a rectangle begins in a direction.
pub open spec fn near(r: Rect, dir: SplitDirection) -> int {
    match dir {
        SplitDirection::Horizontal => r.x as int,
        SplitDirection::Vertical => r.y as int,
    }
}

/// How long a rectangle is in a direction.
pub open spec fn extent(r: Rect, dir: SplitDirection) -> int {
    match dir {
        SplitDirection::Horizontal => r.width as int,
        SplitDirection::Vertical => r.height as int,
    }
}

/// The other direction.
pub open spec fn across(dir: SplitDirection) -> SplitDirection {
    match dir {
        SplitDirection::Horizontal => SplitDirection::Vertical,
        SplitDirection::Vertical => SplitDirection::Horizontal,
    }
}

/// Whether a rectangle begins at a place in another one, and is as large across.
pub open spec fn placed(r: Rect, whole: Rect, start: int, dir: SplitDirection) -> bool {
    &&& near(r, dir) == start
    &&& near(r, across(dir)) == near(whole, across(dir))
    &&& extent(r, across(dir)) == extent(whole, across(dir))
}

/// Whether some windows fill a rectangle from a place on, one after the other in a
/// direction, and those of each combination fill the combination.
pub open spec fn fills(w: Windows, whole: Rect, start: int, dir: SplitDirection) -> bool
    decreases w,
{
    match w {
        Windows::Empty => start == near(whole, dir) + extent(whole, dir),
        Windows::Leaf(l, next) => placed(l.bounds, whole, start, dir) && fills(
            *next,
            whole,
            start + extent(l.bounds, dir),
            dir,
        ),
        Windows::Internal(c, child, next) => placed(c.bounds, whole, start, dir) && fills(
            *child,
            c.bounds,
            near(c.bounds, c.direction),
            c.direction,
        ) && fills(*next, whole, start + extent(c.bounds, dir), dir),
    }
}

/// Whether each combination has more than one window.
pub open spec fn branching(w: Windows) -> bool
    decreases w,
{
    match w {
        Windows::Empty => true,
        Windows::Leaf(_, next) => branching(*next),
        Windows::Internal(_, child, next) => *child !is Empty && rest_of(*child) !is Empty
            && branching(*child) && branching(*next),
    }
}

/// Whether the far edges of a rectangle can be told.
pub open spec fn bounded(r: Rect) -> bool {
    r.x + r.width <= u32::MAX && r.y + r.height <= u32::MAX
}

/// Whether the windows of a frame fill their room.
pub open spec fn tiled(root: Windows) -> bool {
    &&& root !is Empty
    &&& rest_of(root) is Empty
    &&& bounded(first_rect(root))
    &&& branching(root)
    &&& fills(
        root,
        first_rect(root),
        near(first_rect(root), SplitDirection::Vertical),
        SplitDirection::Vertical,
    )
}

/// Windows that fill a rectangle do not go beyond it.
proof fn lemma_fills_inside(w: Windows, whole: Rect, start: int, dir: SplitDirection)
    requires
        fills(w, whole, start, dir),
    ensures
        start <= near(whole, dir) + extent(whole, dir),
        w !is Empty ==> start + extent(first_rect(w), dir) <= near(whole, dir) + extent(
            whole,
            dir,
        ),
        bounded(whole) && near(whole, dir) <= start && w !is Empty ==> bounded(first_rect(w)),
    decreases w,
{
    match w {
        Windows::Empty => {},
        Windows::Leaf(l, next) => {
            lemma_fills_inside(*next, whole, start + extent(l.bounds, dir), dir);
        },
        Windows::Internal(c, child, next) => {
            lemma_fills_inside(*next, whole, start + extent(c.bounds, dir), dir);
        },
    }
}

/// Splitting a window leaves the windows filling their room.
pub proof fn law_split_windows_fill(
    w: Windows,
    whole: Rect,
    start: int,
    at: SplitDirection,
    id: u64,
    dir: SplitDirection,
    here: Option<SplitDirection>,
    new_id: u64,
    combination_id: u64,
)
    requires
        fills(w, whole, start, at),
        branching(w),
        bounded(whole),
        near(whole, at) <= start,
        here is Some ==> here == Some(at),
    ensures
        fills(split_at(w, id, dir, here, new_id, combination_id), whole, start, at),
        branching(split_at(w, id, dir, here, new_id, combination_id)),
        w !is Empty ==> split_at(w, id, dir, here, new_id, combination_id) !is Empty && first_rect(
            split_at(w, id, dir, here, new_id, combination_id),
        ).x == first_rect(w).x,
        rest_of(w) !is Empty ==> rest_of(
            split_at(w, id, dir, here, new_id, combination_id),
        ) !is Empty,
        here is None && w !is Empty ==> first_rect(
            split_at(w, id, dir, here, new_id, combination_id),
        ) == first_rect(w),
        here is None && rest_of(w) is Empty ==> rest_of(
            split_at(w, id, dir, here, new_id, combination_id),
        ) is Empty,
    decreases w,
{
    reveal_with_fuel(fills, 4);
    reveal_with_fuel(branching, 4);
    reveal_with_fuel(split_at, 2);
    lemma_fills_inside(w, whole, start, at);
    match w {
        Windows::Empty => {},
        Windows::Leaf(l, next) => {
            lemma_fills_inside(*next, whole, start + extent(l.bounds, at), at);
            if l.id != id {
                law_split_windows_fill(
                    *next,
                    whole,
                    start + extent(l.bounds, at),
                    at,
                    id,
                    dir,
                    here,
                    new_id,
                    combination_id,
                );
            }
        },
        Windows::Internal(c, child, next) => {
            law_split_windows_fill(
                *child,
                c.bounds,
                near(c.bounds, c.direction),
                c.direction,
                id,
                dir,
                Some(c.direction),
                new_id,
                combination_id,
            );
            law_split_windows_fill(
                *next,
                whole,
                start + extent(c.bounds, at),
                at,
                id,
                dir,
                here,
                new_id,
                combination_id,
            );
        },
    }
}

/// Windows that are fitted into a rectangle that is no smaller fill it.
proof fn lemma_fitted_fills(
    w: Windows,
    old: Rect,
    start: int,
    whole: Rect,
    from: u32,
    dir: SplitDirection,
)
    requires
        w !is Empty,
        branching(w),
        fills(w, old, start, dir),
        near(old, dir) <= start,
        from - near(whole, dir) == start - near(old, dir),
        extent(old, SplitDirection::Horizontal) <= extent(whole, SplitDirection::Horizontal),
        extent(old, SplitDirection::Vertical) <= extent(whole, SplitDirection::Vertical),
        bounded(whole),
    ensures
        fills(fitted(w, whole, from, dir), whole, from as int, dir),
    decreases w,
{
    reveal_with_fuel(fills, 2);
    reveal_with_fuel(branching, 2);
    reveal_with_fuel(fitted, 2);
    lemma_fills_inside(w, old, start, dir);
    match w {
        Windows::Empty => {},
        Windows::Leaf(l, next) => {
            let r = child_rect(l.bounds, whole, from, dir, *next is Empty);
            lemma_fills_inside(*next, old, start + extent(l.bounds, dir), dir);
            if *next !is Empty {
                lemma_fitted_fills(
                    *next,
                    old,
                    start + extent(l.bounds, dir),
                    whole,
                    after_child(r, dir),
                    dir,
                );
            }
        },
        Windows::Internal(c, child, next) => {
            let r = child_rect(c.bounds, whole, from, dir, *next is Empty);
            lemma_fills_inside(*next, old, start + extent(c.bounds, dir), dir);
            lemma_fitted_fills(
                *child,
                c.bounds,
                near(c.bounds, c.direction),
                r,
                first_start(r, c.direction),
                c.direction,
            );
            if *next !is Empty {
                lemma_fitted_fills(
                    *next,
                    old,
                    start + extent(c.bounds, dir),
                    whole,
                    after_child(r, dir),
                    dir,
                );
            }
        },
    }
}

proof fn lemma_fitted_branches(w: Windows, whole: Rect, start: u32, dir: SplitDirection)
    requires
        branching(w),
    ensures
        branching(fitted(w, whole, start, dir)),
        fitted(w, whole, start, dir) is Empty <==> w is Empty,
        rest_of(fitted(w, whole, start, dir)) is Empty <==> rest_of(w) is Empty,
    decreases w,
{
    match w {
        Windows::Empty => {},
        Windows::Leaf(l, next) => {
            let r = child_rect(l.bounds, whole, start, dir, *next is Empty);
            lemma_fitted_branches(*next, whole, after_child(r, dir), dir);
        },
        Windows::Internal(c, child, next) => {
            let r = child_rect(c.bounds, whole, start, dir, *next is Empty);
            lemma_fitted_branches(*child, r, first_start(r, c.direction), c.direction);
            lemma_fitted_branches(*next, whole, after_child(r, dir), dir);
        },
    }
}

/// Whether the first of some windows stands at a place of a rectangle, and is filled
/// where it is a combination.
pub open spec fn first_fills(w: Windows, whole: Rect, start: int, dir: SplitDirection) -> bool {
    &&& w !is Empty
    &&& placed(first_rect(w), whole, start, dir)
    &&& w matches Windows::Internal(c, child, _) ==> fills(
        *child,
        c.bounds,
        near(c.bounds, c.direction),
        c.direction,
    ) && *child !is Empty && rest_of(*child) !is Empty && branching(*child)
}

proof fn lemma_fills_parts(w: Windows, whole: Rect, start: int, dir: SplitDirection)
    requires
        w !is Empty,
        branching(w),
    ensures
        fills(w, whole, start, dir) <==> first_fills(w, whole, start, dir) && fills(
            rest_of(w),
            whole,
            start + extent(first_rect(w), dir),
            dir,
        ),
        branching(rest_of(w)),
{
}

proof fn lemma_joined_fills(
    w: Windows,
    rest: Windows,
    whole: Rect,
    start: int,
    dir: SplitDirection,
)
    requires
        first_fills(w, whole, start, dir),
        branching(rest),
        fills(rest, whole, start + extent(first_rect(w), dir), dir),
    ensures
        fills(with_next(w, rest), whole, start, dir),
        branching(with_next(w, rest)),
        with_next(w, rest) !is Empty,
        rest_of(with_next(w, rest)) == rest,
{
}

/// A window that is put into a rectangle that is no smaller fills it.
proof fn lemma_first_rect_fills(
    w: Windows,
    old: Rect,
    old_start: int,
    r: Rect,
    whole: Rect,
    start: int,
    dir: SplitDirection,
)
    requires
        first_fills(w, old, old_start, dir),
        placed(r, whole, start, dir),
        bounded(r),
        extent(first_rect(w), SplitDirection::Horizontal) <= extent(
            r,
            SplitDirection::Horizontal,
        ),
        extent(first_rect(w), SplitDirection::Vertical) <= extent(r, SplitDirection::Vertical),
    ensures
        first_fills(with_first_rect(w, r), whole, start, dir),
        rest_of(with_first_rect(w, r)) == rest_of(w),
        first_rect(with_first_rect(w, r)) == r,
        with_next(with_first_rect(w, r), rest_of(w)) == with_first_rect(w, r),
{
    match w {
        Windows::Internal(c, child, next) => {
            lemma_fitted_fills(
                *child,
                c.bounds,
                near(c.bounds, c.direction),
                r,
                first_start(r, c.direction),
                c.direction,
            );
            lemma_fitted_branches(*child, r, first_start(r, c.direction), c.direction);
        },
        _ => {},
    }
}

/// Deleting a window leaves the other windows filling the room.
pub proof fn law_windows_fill_after_deletion(
    w: Windows,
    whole: Rect,
    start: int,
    dir: SplitDirection,
    id: u64,
)
    requires
        fills(w, whole, start, dir),
        branching(w),
        bounded(whole),
        near(whole, dir) <= start,
        w matches Windows::Leaf(l, next) ==> l.id != id || *next !is Empty,
    ensures
        fills(without(w, id, dir), whole, start, dir),
        branching(without(w, id, dir)),
        w !is Empty ==> without(w, id, dir) !is Empty,
        rest_of(w) is Empty ==> rest_of(without(w, id, dir)) is Empty,
    decreases w,
{
    if w !is Empty {
        let next = rest_of(w);
        let first = first_rect(w);
        let second = start + extent(first, dir);
        lemma_fills_inside(w, whole, start, dir);
        lemma_fills_parts(w, whole, start, dir);
        lemma_fills_inside(next, whole, second, dir);
        if next is Leaf && next->Leaf_0.id == id && !(w is Leaf && w->Leaf_0.id == id) {
            let g = next->Leaf_0;
            let after = rest_of(next);
            lemma_fills_parts(next, whole, second, dir);
            lemma_fills_inside(after, whole, second + extent(g.bounds, dir), dir);
            let r = grown_over_next(first, g.bounds, dir);
            lemma_first_rect_fills(w, whole, start, r, whole, start, dir);
            lemma_joined_fills(with_first_rect(w, r), after, whole, start, dir);
        } else {
            match w {
                Windows::Empty => {},
                Windows::Leaf(l, _) => {
                    if l.id == id {
                        let r = grown_over_previous(first_rect(next), l.bounds, dir);
                        lemma_fills_parts(next, whole, second, dir);
                        lemma_fills_inside(
                            rest_of(next),
                            whole,
                            second + extent(first_rect(next), dir),
                            dir,
                        );
                        lemma_first_rect_fills(next, whole, second, r, whole, start, dir);
                        lemma_joined_fills(
                            with_first_rect(next, r),
                            rest_of(next),
                            whole,
                            start,
                            dir,
                        );
                    } else {
                        law_windows_fill_after_deletion(next, whole, second, dir, id);
                        lemma_joined_fills(w, without(next, id, dir), whole, start, dir);
                    }
                },
                Windows::Internal(c, child, _) => {
                    law_windows_fill_after_deletion(
                        *child,
                        c.bounds,
                        near(c.bounds, c.direction),
                        c.direction,
                        id,
                    );
                    law_windows_fill_after_deletion(next, whole, second, dir, id);
                    let inner = without(*child, id, c.direction);
                    let rest = without(next, id, dir);
                    if rest_of(inner) is Empty {
                        lemma_only_window_fills(inner, c.bounds, c.direction);
                        lemma_first_rect_fills(
                            inner,
                            c.bounds,
                            near(c.bounds, dir),
                            c.bounds,
                            whole,
                            start,
                            dir,
                        );
                        lemma_joined_fills(
                            with_first_rect(inner, c.bounds),
                            rest,
                            whole,
                            start,
                            dir,
                        );
                    } else {
                        let x = Windows::Internal(c, Box::new(inner), Box::new(rest));
                        lemma_joined_fills(x, rest, whole, start, dir);
                    }
                },
            }
        }
    }
}

/// A single window that fills a rectangle is as large.
proof fn lemma_only_window_fills(w: Windows, whole: Rect, dir: SplitDirection)
    requires
        w !is Empty,
        rest_of(w) is Empty,
        branching(w),
        fills(w, whole, near(whole, dir), dir),
    ensures
        first_rect(w) == whole,
        first_fills(w, whole, near(whole, across(dir)), across(dir)),
        first_fills(w, whole, near(whole, dir), dir),
{
    reveal_with_fuel(fills, 2);
    let r = first_rect(w);
    assert(r.x == whole.x && r.y == whole.y && r.width == whole.width && r.height
        == whole.height);
}

/// Every place of a room that windows fill lies in one of them.
pub proof fn law_every_place_has_window(
    w: Windows,
    whole: Rect,
    start: int,
    dir: SplitDirection,
    px: int,
    py: int,
)
    requires
        fills(w, whole, start, dir),
        branching(w),
        inside(whole, px, py),
        dir is Horizontal ==> start <= px,
        dir is Vertical ==> start <= py,
    ensures
        leaf_at(w, px, py) matches Some(x) && leaf_ids(w).contains(x),
    decreases w,
{
    match w {
        Windows::Empty => {},
        Windows::Leaf(l, next) => {
            let ids = leaf_ids(w);
            assert(ids[0] == l.id);
            if !inside(l.bounds, px, py) {
                law_every_place_has_window(
                    *next,
                    whole,
                    start + extent(l.bounds, dir),
                    dir,
                    px,
                    py,
                );
                let x = leaf_at(*next, px, py)->0;
                let i = choose|i: int| 0 <= i < leaf_ids(*next).len() && leaf_ids(*next)[i] == x;
                assert(ids[i + 1] == x);
            }
        },
        Windows::Internal(c, child, next) => {
            let ids = leaf_ids(w);
            if inside(c.bounds, px, py) {
                law_every_place_has_window(
                    *child,
                    c.bounds,
                    near(c.bounds, c.direction),
                    c.direction,
                    px,
                    py,
                );
                let x = leaf_at(*child, px, py)->0;
                let i = choose|i: int| 0 <= i < leaf_ids(*child).len() && leaf_ids(*child)[i] == x;
                assert(ids[i] == x);
            } else {
                law_every_place_has_window(
                    *next,
                    whole,
                    start + extent(c.bounds, dir),
                    dir,
                    px,
                    py,
                );
                lemma_found_place_is_listed(*child, px, py);
                match leaf_at(*child, px, py) {
                    Some(x) => {
                        let i = choose|i: int|
                            0 <= i < leaf_ids(*child).len() && leaf_ids(*child)[i] == x;
                        assert(ids[i] == x);
                    },
                    None => {
                        let x = leaf_at(*next, px, py)->0;
                        let i = choose|i: int|
                            0 <= i < leaf_ids(*next).len() && leaf_ids(*next)[i] == x;
                        assert(ids[i + leaf_ids(*child).len()] == x);
                    },
                }
            }
        },
    }
}

proof fn lemma_found_place_is_listed(w: Windows, px: int, py: int)
    ensures
        leaf_at(w, px, py) matches Some(x) ==> leaf_ids(w).contains(x),
    decreases w,
{
    match w {
        Windows::Empty => {},
        Windows::Leaf(l, next) => {
            lemma_found_place_is_listed(*next, px, py);
            let ids = leaf_ids(w);
            assert(ids[0] == l.id);
            match leaf_at(*next, px, py) {
                Some(x) => {
                    let i = choose|i: int|
                        0 <= i < leaf_ids(*next).len() && leaf_ids(*next)[i] == x;
                    assert(ids[i + 1] == x);
                },
                None => {},
            }
        },
        Windows::Internal(c, child, next) => {
            lemma_found_place_is_listed(*child, px, py);
            lemma_found_place_is_listed(*next, px, py);
            let ids = leaf_ids(w);
            match leaf_at(*child, px, py) {
                Some(x) => {
                    let i = choose|i: int|
                        0 <= i < leaf_ids(*child).len() && leaf_ids(*child)[i] == x;
                    assert(ids[i] == x);
                },
                None => {
                    match leaf_at(*next, px, py) {
                        Some(x) => {
                            let i = choose|i: int|
                                0 <= i < leaf_ids(*next).len() && leaf_ids(*next)[i] == x;
                            assert(ids[i + leaf_ids(*child).len()] == x);
                        },
                        None => {},
                    }
                },
            }
        },
    }
}

/// The parts of a list without duplicates have none, and nothing in common.
pub(crate) proof fn lemma_distinct_parts(a: Seq<u64>, b: Seq<u64>)
    requires
        (a + b).no_duplicates(),
    ensures
        a.no_duplicates(),
        b.no_duplicates(),
        forall|x: u64| #[trigger] a.contains(x) ==> !b.contains(x),
        forall|x: u64| #[trigger] (a + b).contains(x) <==> a.contains(x) || b.contains(x),
{
    let s = a + b;
    assert forall|i: int, j: int| 0 <= i < a.len() && 0 <= j < a.len() && i != j implies a[i]
        != a[j] by {
        assert(s[i] == a[i] && s[j] == a[j]);
    }
    assert forall|i: int, j: int| 0 <= i < b.len() && 0 <= j < b.len() && i != j implies b[i]
        != b[j] by {
        assert(s[i + a.len()] == b[i] && s[j + a.len()] == b[j]);
    }
    assert forall|x: u64| #[trigger] a.contains(x) implies !b.contains(x) by {
        if b.contains(x) {
            let i = choose|i: int| 0 <= i < a.len() && a[i] == x;
            let j = choose|j: int| 0 <= j < b.len() && b[j] == x;
            assert(s[i] == s[j + a.len()]);
        }
    }
    assert forall|x: u64| #[trigger] (a + b).contains(x) <==> a.contains(x) || b.contains(x) by {
        if s.contains(x) {
            let i = choose|i: int| 0 <= i < s.len() && s[i] == x;
            if i < a.len() {
                assert(a[i] == x);
            } else {
                assert(b[i - a.len()] == x);
            }
        }
        if a.contains(x) {
            let i = choose|i: int| 0 <= i < a.len() && a[i] == x;
            assert(s[i] == x);
        }
        if b.contains(x) {
            let i = choose|i: int| 0 <= i < b.len() && b[i] == x;
            assert(s[i + a.len()] == x);
        }
    }
}

/// A window that is not there is not split.
proof fn lemma_split_absent(
    w: Windows,
    id: u64,
    dir: SplitDirection,
    here: Option<SplitDirection>,
    new_id: u64,
    combination_id: u64,
)
    requires
        !leaf_ids(w).contains(id),
    ensures
        split_at(w, id, dir, here, new_id, combination_id) == w,
    decreases w,
{
    match w {
        Windows::Empty => {},
        Windows::Leaf(l, next) => {
            assert(leaf_ids(w)[0] == l.id);
            assert(!leaf_ids(*next).contains(id)) by {
                if leaf_ids(*next).contains(id) {
                    let i = choose|i: int|
                        0 <= i < leaf_ids(*next).len() && leaf_ids(*next)[i] == id;
                    assert(leaf_ids(w)[i + 1] == id);
                }
            }
            lemma_split_absent(*next, id, dir, here, new_id, combination_id);
        },
        Windows::Internal(c, child, next) => {
            assert(!leaf_ids(*child).contains(id) && !leaf_ids(*next).contains(id)) by {
                if leaf_ids(*child).contains(id) {
                    let i = choose|i: int|
                        0 <= i < leaf_ids(*child).len() && leaf_ids(*child)[i] == id;
                    assert(leaf_ids(w)[i] == id);
                }
                if leaf_ids(*next).contains(id) {
                    let i = choose|i: int|
                        0 <= i < leaf_ids(*next).len() && leaf_ids(*next)[i] == id;
                    assert(leaf_ids(w)[i + leaf_ids(*child).len()] == id);
                }
            }
            lemma_split_absent(
                *child,
                id,
                dir,
                Some(c.direction),
                new_id,
                combination_id,
            );
            lemma_split_absent(*next, id, dir, here, new_id, combination_id);
        },
    }
}

/// A window that is not there is not deleted, where each combination has more than one.
proof fn lemma_without_absent(w: Windows, id: u64, dir: SplitDirection)
    requires
        !leaf_ids(w).contains(id),
        branching(w),
    ensures
        without(w, id, dir) == w,
    decreases w,
{
    match w {
        Windows::Empty => {},
        Windows::Leaf(l, next) => {
            assert(leaf_ids(w) == seq![l.id] + leaf_ids(*next));
            lemma_absent_in_parts(seq![l.id], leaf_ids(*next), id);
            assert(seq![l.id][0] == l.id);
            lemma_first_is_listed(*next);
            lemma_without_absent(*next, id, dir);
        },
        Windows::Internal(c, child, next) => {
            lemma_absent_in_parts(leaf_ids(*child), leaf_ids(*next), id);
            lemma_first_is_listed(*next);
            lemma_without_absent(*child, id, c.direction);
            lemma_without_absent(*next, id, dir);
        },
    }
}

proof fn lemma_first_is_listed(w: Windows)
    ensures
        w matches Windows::Leaf(l, _) ==> leaf_ids(w).contains(l.id),
{
    match w {
        Windows::Leaf(l, _) => {
            assert(leaf_ids(w)[0] == l.id);
        },
        _ => {},
    }
}

proof fn lemma_absent_in_parts(a: Seq<u64>, b: Seq<u64>, x: u64)
    requires
        !(a + b).contains(x),
    ensures
        !a.contains(x),
        !b.contains(x),
{
    if a.contains(x) {
        let i = choose|i: int| 0 <= i < a.len() && a[i] == x;
        assert((a + b)[i] == x);
    }
    if b.contains(x) {
        let i = choose|i: int| 0 <= i < b.len() && b[i] == x;
        assert((a + b)[i + a.len()] == x);
    }
}

/// What is found after a split: the window in the first half of its room, the new one
/// with its buffer in the second half, and every other window as it was.
pub proof fn law_split_window_is_halved(
    w: Windows,
    id: u64,
    dir: SplitDirection,
    here: Option<SplitDirection>,
    new_id: u64,
    combination_id: u64,
    l: Leaf,
    x: u64,
)
    requires
        leaf_ids(w).no_duplicates(),
        find(w, id) == Some(Window::Leaf(l)),
        find(w, new_id) is None,
        find(w, combination_id) is None,
        new_id != combination_id,
        forall|k: u64| leaf_ids(w).contains(k) ==> !#[trigger] has_combination(w, k),
    ensures
        ({
            let s = split_at(w, id, dir, here, new_id, combination_id);
            &&& find(s, id) == Some(
                Window::Leaf(Leaf { bounds: first_half(l.bounds, dir), ..l }),
            )
            &&& find(s, new_id) == Some(
                Window::Leaf(new_leaf(new_id, l.buffer_id, second_half(l.bounds, dir))),
            )
            &&& x != id && x != new_id && x != combination_id ==> find(s, x) == find(w, x)
        }),
    decreases w,
{
    reveal_with_fuel(find, 4);
    crate::window_cmds::laws::lemma_found_is_somewhere(w, id);
    match w {
        Windows::Empty => {},
        Windows::Leaf(a, next) => {
            lemma_distinct_parts(seq![a.id], leaf_ids(*next));
            assert(seq![a.id][0] == a.id);
            if a.id == id {
                assert(seq![a.id].contains(id));
            } else {
                assert forall|k: u64| leaf_ids(*next).contains(k) implies !#[trigger] has_combination(
                    *next,
                    k,
                ) by {
                    assert(leaf_ids(w).contains(k));
                    assert(!has_combination(w, k));
                }
                law_split_window_is_halved(
                    *next,
                    id,
                    dir,
                    here,
                    new_id,
                    combination_id,
                    l,
                    x,
                );
            }
        },
        Windows::Internal(c, child, next) => {
            lemma_distinct_parts(leaf_ids(*child), leaf_ids(*next));
            assert forall|k: u64| leaf_ids(*child).contains(k) implies !#[trigger] has_combination(
                *child,
                k,
            ) by {
                assert(leaf_ids(w).contains(k));
                assert(!has_combination(w, k));
            }
            assert forall|k: u64| leaf_ids(*next).contains(k) implies !#[trigger] has_combination(
                *next,
                k,
            ) by {
                assert(leaf_ids(w).contains(k));
                assert(!has_combination(w, k));
            }
            crate::window_cmds::laws::lemma_found_is_somewhere(*child, id);
            crate::window_cmds::laws::lemma_found_is_somewhere(*next, id);
            assert(!has_combination(w, id));
            if find(*child, id) is Some {
                lemma_split_absent(*next, id, dir, here, new_id, combination_id);
                law_split_window_is_halved(
                    *child,
                    id,
                    dir,
                    Some(c.direction),
                    new_id,
                    combination_id,
                    l,
                    x,
                );
            } else {
                assert(!leaf_ids(*child).contains(id)) by {
                    if leaf_ids(*child).contains(id) {
                        assert(!has_combination(*child, id));
                        crate::window_cmds::laws::law_listed_window_is_live(*child, id);
                    }
                }
                lemma_split_absent(
                    *child,
                    id,
                    dir,
                    Some(c.direction),
                    new_id,
                    combination_id,
                );
                law_split_window_is_halved(
                    *next,
                    id,
                    dir,
                    here,
                    new_id,
                    combination_id,
                    l,
                    x,
                );
            }
        },
    }
}

/// The room of a deleted window goes to the window before it, and to the one after it
/// where it was the first. Windows that are further away stay as they are.
pub proof fn law_neighbour_takes_room(
    l: Leaf,
    g: Leaf,
    after: Windows,
    next: Windows,
    dir: SplitDirection,
)
    requires
        l.id != g.id,
        extent(l.bounds, dir) + extent(g.bounds, dir) <= u32::MAX,
        !(next matches Windows::Leaf(k, _) && k.id == g.id),
    ensures
        ({
            let w = Windows::Leaf(l, Box::new(Windows::Leaf(g, Box::new(after))));
            let left = without(w, g.id, dir);
            let k = left->Leaf_0;
            &&& left is Leaf && *left->Leaf_1 == after
            &&& k == (Leaf { bounds: k.bounds, ..l })
            &&& placed(k.bounds, l.bounds, near(l.bounds, dir), dir)
            &&& extent(k.bounds, dir) == extent(l.bounds, dir) + extent(g.bounds, dir)
        }),
        ({
            let w = Windows::Leaf(g, Box::new(Windows::Leaf(l, Box::new(after))));
            let left = without(w, g.id, dir);
            let k = left->Leaf_0;
            &&& left is Leaf && *left->Leaf_1 == after
            &&& k == (Leaf { bounds: k.bounds, ..l })
            &&& placed(k.bounds, l.bounds, near(g.bounds, dir), dir)
            &&& extent(k.bounds, dir) == extent(l.bounds, dir) + extent(g.bounds, dir)
        }),
        without(Windows::Leaf(l, Box::new(next)), g.id, dir) == Windows::Leaf(
            l,
            Box::new(without(next, g.id, dir)),
        ),
{
    let w = Windows::Leaf(l, Box::new(Windows::Leaf(g, Box::new(after))));
    assert(without(w, g.id, dir) == with_next(
        with_first_rect(w, grown_over_next(l.bounds, g.bounds, dir)),
        after,
    ));
}

/// Deleting the new window of a split gives back the windows as they were.
pub proof fn law_deletion_undoes_split(
    w: Windows,
    id: u64,
    dir: SplitDirection,
    here: Option<SplitDirection>,
    at: SplitDirection,
    new_id: u64,
    combination_id: u64,
)
    requires
        leaf_ids(w).no_duplicates(),
        branching(w),
        !leaf_ids(w).contains(new_id),
        leaf_ids(w).contains(id),
        here is Some ==> here == Some(at),
    ensures
        without(split_at(w, id, dir, here, new_id, combination_id), new_id, at) == w,
    decreases w,
{
    match w {
        Windows::Empty => {},
        Windows::Leaf(a, next) => {
            lemma_distinct_parts(seq![a.id], leaf_ids(*next));
            lemma_absent_in_parts(seq![a.id], leaf_ids(*next), new_id);
            assert(seq![a.id][0] == a.id);
            lemma_without_absent(*next, new_id, at);
            if a.id != id {
                assert(leaf_ids(*next).contains(id)) by {
                    assert(leaf_ids(w) == seq![a.id] + leaf_ids(*next));
                    assert(!seq![a.id].contains(id));
                }
                law_deletion_undoes_split(*next, id, dir, here, at, new_id, combination_id);
                lemma_split_first(*next, id, dir, here, new_id, combination_id);
            } else {
                lemma_deletion_of_half(a, *next, dir, here, at, new_id, combination_id);
            }
        },
        Windows::Internal(c, child, next) => {
            lemma_distinct_parts(leaf_ids(*child), leaf_ids(*next));
            lemma_absent_in_parts(leaf_ids(*child), leaf_ids(*next), new_id);
            lemma_split_first(*next, id, dir, here, new_id, combination_id);
            assert(leaf_ids(w) == leaf_ids(*child) + leaf_ids(*next));
            if leaf_ids(*child).contains(id) {
                lemma_split_absent(*next, id, dir, here, new_id, combination_id);
                lemma_without_absent(*next, new_id, at);
                law_deletion_undoes_split(
                    *child,
                    id,
                    dir,
                    Some(c.direction),
                    c.direction,
                    new_id,
                    combination_id,
                );
            } else {
                lemma_split_absent(
                    *child,
                    id,
                    dir,
                    Some(c.direction),
                    new_id,
                    combination_id,
                );
                lemma_without_absent(*child, new_id, c.direction);
                law_deletion_undoes_split(*next, id, dir, here, at, new_id, combination_id);
            }
        },
    }
}

proof fn lemma_split_first(
    w: Windows,
    id: u64,
    dir: SplitDirection,
    here: Option<SplitDirection>,
    new_id: u64,
    combination_id: u64,
)
    requires
        !leaf_ids(w).contains(new_id),
    ensures
        split_at(w, id, dir, here, new_id, combination_id) matches Windows::Leaf(g, _) ==> g.id
            != new_id,
{
    lemma_first_is_listed(w);
}

proof fn lemma_deletion_of_half(
    l: Leaf,
    next: Windows,
    dir: SplitDirection,
    here: Option<SplitDirection>,
    at: SplitDirection,
    new_id: u64,
    combination_id: u64,
)
    requires
        l.id != new_id,
        here is Some ==> here == Some(at),
        without(next, new_id, at) == next,
        !leaf_ids(next).contains(new_id),
    ensures
        without(
            split_at(
                Windows::Leaf(l, Box::new(next)),
                l.id,
                dir,
                here,
                new_id,
                combination_id,
            ),
            new_id,
            at,
        ) == Windows::Leaf(l, Box::new(next)),
{
    let w = Windows::Leaf(l, Box::new(next));
    let old = Leaf { bounds: first_half(l.bounds, dir), ..l };
    let new = new_leaf(new_id, l.buffer_id, second_half(l.bounds, dir));
    assert(grown_over_next(old.bounds, new.bounds, dir) == l.bounds);
    assert(Leaf { bounds: l.bounds, ..old } == l);
    lemma_first_is_listed(next);
    if here == Some(dir) {
        let s = Windows::Leaf(old, Box::new(Windows::Leaf(new, Box::new(next))));
        assert(split_at(w, l.id, dir, here, new_id, combination_id) == s);
        assert(without(s, new_id, at) == w);
    } else {
        let c = Combination {
            id: combination_id,
            direction: dir,
            bounds: l.bounds,
            combination_limit: false,
        };
        let pair = Windows::Leaf(
            old,
            Box::new(Windows::Leaf(new, Box::new(Windows::Empty))),
        );
        let s = Windows::Internal(c, Box::new(pair), Box::new(next));
        assert(split_at(w, l.id, dir, here, new_id, combination_id) == s);
        let one = Windows::Leaf(l, Box::new(Windows::Empty));
        assert(without(pair, new_id, dir) == one);
        assert(without(s, new_id, at) == w);
    }
}

} // verus!
