//! The tree of windows of a frame.
use vstd::prelude::*;

verus! {

/// A place and a size in pixels.
#[derive(Debug, Clone, Copy, PartialEq, Eq, Structural)]
pub struct Rect {
    pub x: u32,
    pub y: u32,
    pub width: u32,
    pub height: u32,
}

/// Whether a combination puts its windows side by side or one above the other.
#[derive(Debug, Clone, Copy, PartialEq, Eq, Structural)]
pub enum SplitDirection {
    Horizontal,
    Vertical,
}

/// A window that shows a buffer.
#[derive(Debug, Clone, Copy, PartialEq, Eq, Structural)]
pub struct Leaf {
    pub id: u64,
    pub buffer_id: u64,
    pub bounds: Rect,
    pub window_start: usize,
    pub window_end_pos: usize,
    pub point: usize,
    pub dedicated: bool,
    pub hscroll: usize,
    pub left_margin: usize,
    pub right_margin: usize,
}

/// A window that holds other windows.
#[derive(Debug, Clone, Copy, PartialEq, Eq, Structural)]
pub struct Combination {
    pub id: u64,
    pub direction: SplitDirection,
    pub bounds: Rect,
    pub combination_limit: bool,
}

/// A window, without the windows that it holds.
#[derive(Debug, Clone, Copy, PartialEq, Eq, Structural)]
pub enum Window {
    Leaf(Leaf),
    Internal(Combination),
}

/// A window and its later siblings; a combination comes with its first child.
#[derive(Debug, PartialEq, Eq)]
pub enum Windows {
    Empty,
    Leaf(Leaf, Box<Windows>),
    Internal(Combination, Box<Windows>, Box<Windows>),
}

/// The sum of two sizes, at most the largest size there is.
pub open spec fn plus(a: u32, b: u32) -> u32 {
    if a + b <= u32::MAX {
        (a + b) as u32
    } else {
        u32::MAX
    }
}

/// The difference of two sizes, at least zero.
pub open spec fn minus(a: u32, b: u32) -> u32 {
    if a >= b {
        (a - b) as u32
    } else {
        0
    }
}

/// The sum of two sizes, at most the largest size there is.
pub fn size_plus(a: u32, b: u32) -> (r: u32)
    ensures
        r == plus(a, b),
{
    if a <= u32::MAX - b {
        a + b
    } else {
        u32::MAX
    }
}

/// The difference of two sizes, at least zero.
pub fn size_minus(a: u32, b: u32) -> (r: u32)
    ensures
        r == minus(a, b),
{
    if a >= b {
        a - b
    } else {
        0
    }
}

/// A new window that shows a buffer from its start.
pub open spec fn new_leaf(id: u64, buffer_id: u64, bounds: Rect) -> Leaf {
    Leaf {
        id,
        buffer_id,
        bounds,
        window_start: 0,
        window_end_pos: 0,
        point: 0,
        dedicated: false,
        hscroll: 0,
        left_margin: 0,
        right_margin: 0,
    }
}

impl Leaf {
    /// A new window that shows a buffer from its start.
    pub fn new(id: u64, buffer_id: u64, bounds: Rect) -> (r: Self)
        ensures
            r == new_leaf(id, buffer_id, bounds),
    {
        Leaf {
            id,
            buffer_id,
            bounds,
            window_start: 0,
            window_end_pos: 0,
            point: 0,
            dedicated: false,
            hscroll: 0,
            left_margin: 0,
            right_margin: 0,
        }
    }
}

impl Window {
    /// The identifier of a window.
    pub open spec fn identifier(self) -> u64 {
        match self {
            Window::Leaf(l) => l.id,
            Window::Internal(c) => c.id,
        }
    }

    /// The identifier of a window.
    pub fn id(&self) -> (r: u64)
        ensures
            r == self.identifier(),
    {
        match self {
            Window::Leaf(l) => l.id,
            Window::Internal(c) => c.id,
        }
    }

    /// Where a window is.
    pub open spec fn rect(self) -> Rect {
        match self {
            Window::Leaf(l) => l.bounds,
            Window::Internal(c) => c.bounds,
        }
    }

    /// Where a window is.
    pub fn bounds(&self) -> (r: Rect)
        ensures
            r == self.rect(),
    {
        match self {
            Window::Leaf(l) => l.bounds,
            Window::Internal(c) => c.bounds,
        }
    }

    /// The buffer that a window shows.
    pub open spec fn shown_buffer(self) -> Option<u64> {
        match self {
            Window::Leaf(l) => Some(l.buffer_id),
            Window::Internal(_) => None,
        }
    }

    /// The buffer that a window shows.
    pub fn buffer_id(&self) -> (r: Option<u64>)
        ensures
            r == self.shown_buffer(),
    {
        match self {
            Window::Leaf(l) => Some(l.buffer_id),
            Window::Internal(_) => None,
        }
    }
}

/// The first of two halves of a rectangle.
pub open spec fn first_half(r: Rect, dir: SplitDirection) -> Rect {
    match dir {
        SplitDirection::Horizontal => Rect { width: (r.width - r.width / 2) as u32, ..r },
        SplitDirection::Vertical => Rect { height: (r.height - r.height / 2) as u32, ..r },
    }
}

/// The second of two halves of a rectangle.
pub open spec fn second_half(r: Rect, dir: SplitDirection) -> Rect {
    match dir {
        SplitDirection::Horizontal => Rect {
            x: plus(r.x, (r.width - r.width / 2) as u32),
            width: r.width / 2,
            ..r
        },
        SplitDirection::Vertical => Rect {
            y: plus(r.y, (r.height - r.height / 2) as u32),
            height: r.height / 2,
            ..r
        },
    }
}

/// The two halves of a rectangle.
pub fn halves(r: Rect, dir: SplitDirection) -> (h: (Rect, Rect))
    ensures
        h.0 == first_half(r, dir),
        h.1 == second_half(r, dir),
{
    match dir {
        SplitDirection::Horizontal => {
            let first: u32 = r.width - r.width / 2;
            (
                Rect { x: r.x, y: r.y, width: first, height: r.height },
                Rect { x: size_plus(r.x, first), y: r.y, width: r.width / 2, height: r.height },
            )
        },
        SplitDirection::Vertical => {
            let first: u32 = r.height - r.height / 2;
            (
                Rect { x: r.x, y: r.y, width: r.width, height: first },
                Rect { x: r.x, y: size_plus(r.y, first), width: r.width, height: r.height / 2 },
            )
        },
    }
}

/// The rectangle of a window that also takes the room of the one after it.
pub open spec fn grown_over_next(r: Rect, gone: Rect, dir: SplitDirection) -> Rect {
    match dir {
        SplitDirection::Horizontal => Rect { width: plus(r.width, gone.width), ..r },
        SplitDirection::Vertical => Rect { height: plus(r.height, gone.height), ..r },
    }
}

/// The rectangle of a window that also takes the room of the one before it.
pub open spec fn grown_over_previous(r: Rect, gone: Rect, dir: SplitDirection) -> Rect {
    match dir {
        SplitDirection::Horizontal => Rect {
            x: gone.x,
            width: plus(r.width, gone.width),
            ..r
        },
        SplitDirection::Vertical => Rect {
            y: gone.y,
            height: plus(r.height, gone.height),
            ..r
        },
    }
}

/// The rectangle of a window that also takes the room of the one after it.
fn grow_over_next(r: Rect, gone: Rect, dir: SplitDirection) -> (s: Rect)
    ensures
        s == grown_over_next(r, gone, dir),
{
    match dir {
        SplitDirection::Horizontal => Rect {
            x: r.x,
            y: r.y,
            width: size_plus(r.width, gone.width),
            height: r.height,
        },
        SplitDirection::Vertical => Rect {
            x: r.x,
            y: r.y,
            width: r.width,
            height: size_plus(r.height, gone.height),
        },
    }
}

/// The rectangle of a window that also takes the room of the one before it.
fn grow_over_previous(r: Rect, gone: Rect, dir: SplitDirection) -> (s: Rect)
    ensures
        s == grown_over_previous(r, gone, dir),
{
    match dir {
        SplitDirection::Horizontal => Rect {
            x: gone.x,
            y: r.y,
            width: size_plus(r.width, gone.width),
            height: r.height,
        },
        SplitDirection::Vertical => Rect {
            x: r.x,
            y: gone.y,
            width: r.width,
            height: size_plus(r.height, gone.height),
        },
    }
}

/// Where a window lies inside its combination: `given` is its own rectangle,
/// `start` where the room that is left to it and its later siblings begins.
/// It keeps its size along the combination unless it is the last, which takes the rest.
pub open spec fn child_rect(
    given: Rect,
    whole: Rect,
    start: u32,
    dir: SplitDirection,
    last: bool,
) -> Rect {
    match dir {
        SplitDirection::Horizontal => Rect {
            x: start,
            y: whole.y,
            width: if last {
                minus(plus(whole.x, whole.width), start)
            } else {
                given.width
            },
            height: whole.height,
        },
        SplitDirection::Vertical => Rect {
            x: whole.x,
            y: start,
            width: whole.width,
            height: if last {
                minus(plus(whole.y, whole.height), start)
            } else {
                given.height
            },
        },
    }
}

/// Where a window lies inside its combination.
fn place_child(given: Rect, whole: Rect, start: u32, dir: SplitDirection, last: bool) -> (s: Rect)
    ensures
        s == child_rect(given, whole, start, dir, last),
{
    match dir {
        SplitDirection::Horizontal => Rect {
            x: start,
            y: whole.y,
            width: if last {
                size_minus(size_plus(whole.x, whole.width), start)
            } else {
                given.width
            },
            height: whole.height,
        },
        SplitDirection::Vertical => Rect {
            x: whole.x,
            y: start,
            width: whole.width,
            height: if last {
                size_minus(size_plus(whole.y, whole.height), start)
            } else {
                given.height
            },
        },
    }
}

/// Where the next window begins.
pub open spec fn after_child(r: Rect, dir: SplitDirection) -> u32 {
    match dir {
        SplitDirection::Horizontal => plus(r.x, r.width),
        SplitDirection::Vertical => plus(r.y, r.height),
    }
}

/// Where the room of a combination begins.
pub open spec fn first_start(whole: Rect, dir: SplitDirection) -> u32 {
    match dir {
        SplitDirection::Horizontal => whole.x,
        SplitDirection::Vertical => whole.y,
    }
}

/// Where the next window begins.
fn next_start(r: Rect, dir: SplitDirection) -> (s: u32)
    ensures
        s == after_child(r, dir),
{
    match dir {
        SplitDirection::Horizontal => size_plus(r.x, r.width),
        SplitDirection::Vertical => size_plus(r.y, r.height),
    }
}

/// Where the room of a combination begins.
fn start_of(whole: Rect, dir: SplitDirection) -> (s: u32)
    ensures
        s == first_start(whole, dir),
{
    match dir {
        SplitDirection::Horizontal => whole.x,
        SplitDirection::Vertical => whole.y,
    }
}

/// The windows of a combination laid out in a rectangle, from `start` on.
pub open spec fn fitted(w: Windows, whole: Rect, start: u32, dir: SplitDirection) -> Windows
    decreases w,
{
    match w {
        Windows::Empty => Windows::Empty,
        Windows::Leaf(l, next) => {
            let r = child_rect(l.bounds, whole, start, dir, *next is Empty);
            Windows::Leaf(
                Leaf { bounds: r, ..l },
                Box::new(fitted(*next, whole, after_child(r, dir), dir)),
            )
        },
        Windows::Internal(c, child, next) => {
            let r = child_rect(c.bounds, whole, start, dir, *next is Empty);
            Windows::Internal(
                Combination { bounds: r, ..c },
                Box::new(fitted(*child, r, first_start(r, c.direction), c.direction)),
                Box::new(fitted(*next, whole, after_child(r, dir), dir)),
            )
        },
    }
}

/// The first window in another place, with what it holds laid out anew.
pub open spec fn with_first_rect(w: Windows, r: Rect) -> Windows {
    match w {
        Windows::Empty => Windows::Empty,
        Windows::Leaf(l, next) => Windows::Leaf(Leaf { bounds: r, ..l }, next),
        Windows::Internal(c, child, next) => Windows::Internal(
            Combination { bounds: r, ..c },
            Box::new(fitted(*child, r, first_start(r, c.direction), c.direction)),
            next,
        ),
    }
}

/// The rectangle of the first window.
pub open spec fn first_rect(w: Windows) -> Rect {
    match w {
        Windows::Empty => Rect { x: 0, y: 0, width: 0, height: 0 },
        Windows::Leaf(l, _) => l.bounds,
        Windows::Internal(c, _, _) => c.bounds,
    }
}

/// The first window with the given siblings after it.
pub open spec fn with_next(w: Windows, rest: Windows) -> Windows {
    match w {
        Windows::Empty => rest,
        Windows::Leaf(l, _) => Windows::Leaf(l, Box::new(rest)),
        Windows::Internal(c, child, _) => Windows::Internal(c, child, Box::new(rest)),
    }
}

/// The siblings after the first window.
pub open spec fn rest_of(w: Windows) -> Windows {
    match w {
        Windows::Empty => Windows::Empty,
        Windows::Leaf(_, next) => *next,
        Windows::Internal(_, _, next) => *next,
    }
}

/// The identifiers of the windows that show buffers, in order.
pub open spec fn leaf_ids(w: Windows) -> Seq<u64>
    decreases w,
{
    match w {
        Windows::Empty => Seq::empty(),
        Windows::Leaf(l, next) => seq![l.id] + leaf_ids(*next),
        Windows::Internal(_, child, next) => leaf_ids(*child) + leaf_ids(*next),
    }
}

/// The window with the given identifier.
pub open spec fn find(w: Windows, id: u64) -> Option<Window>
    decreases w,
{
    match w {
        Windows::Empty => None,
        Windows::Leaf(l, next) => if l.id == id {
            Some(Window::Leaf(l))
        } else {
            find(*next, id)
        },
        Windows::Internal(c, child, next) => if c.id == id {
            Some(Window::Internal(c))
        } else {
            match find(*child, id) {
                Some(x) => Some(x),
                None => find(*next, id),
            }
        },
    }
}

/// The identifier of the first window.
pub open spec fn first_id(w: Windows) -> Option<u64> {
    match w {
        Windows::Empty => None,
        Windows::Leaf(l, _) => Some(l.id),
        Windows::Internal(c, _, _) => Some(c.id),
    }
}

/// The windows with one that shows a buffer replaced.
pub open spec fn with_leaf(w: Windows, id: u64, new: Leaf) -> Windows
    decreases w,
{
    match w {
        Windows::Empty => Windows::Empty,
        Windows::Leaf(l, next) => if l.id == id {
            Windows::Leaf(new, next)
        } else {
            Windows::Leaf(l, Box::new(with_leaf(*next, id, new)))
        },
        Windows::Internal(c, child, next) => Windows::Internal(
            c,
            Box::new(with_leaf(*child, id, new)),
            Box::new(with_leaf(*next, id, new)),
        ),
    }
}

/// The windows with the combination limit of one combination set.
pub open spec fn with_limit(w: Windows, id: u64, limit: bool) -> Windows
    decreases w,
{
    match w {
        Windows::Empty => Windows::Empty,
        Windows::Leaf(l, next) => Windows::Leaf(l, Box::new(with_limit(*next, id, limit))),
        Windows::Internal(c, child, next) => Windows::Internal(
            if c.id == id {
                Combination { combination_limit: limit, ..c }
            } else {
                c
            },
            Box::new(with_limit(*child, id, limit)),
            Box::new(with_limit(*next, id, limit)),
        ),
    }
}

/// The combination that holds a window; `up` is the one that holds these windows.
pub open spec fn parent_of(w: Windows, id: u64, up: Option<u64>) -> Option<u64>
    decreases w,
{
    match w {
        Windows::Empty => None,
        Windows::Leaf(l, next) => if l.id == id {
            up
        } else {
            parent_of(*next, id, up)
        },
        Windows::Internal(c, child, next) => if c.id == id {
            up
        } else {
            match parent_of(*child, id, Some(c.id)) {
                Some(p) => Some(p),
                None => parent_of(*next, id, up),
            }
        },
    }
}

/// The first window of a combination with the given direction.
pub open spec fn child_of(w: Windows, id: u64, dir: SplitDirection) -> Option<u64>
    decreases w,
{
    match w {
        Windows::Empty => None,
        Windows::Leaf(_, next) => child_of(*next, id, dir),
        Windows::Internal(c, child, next) => if c.id == id {
            if c.direction == dir {
                first_id(*child)
            } else {
                None
            }
        } else {
            match child_of(*child, id, dir) {
                Some(x) => Some(x),
                None => child_of(*next, id, dir),
            }
        },
    }
}

/// The sibling after a window.
pub open spec fn sibling_after(w: Windows, id: u64) -> Option<u64>
    decreases w,
{
    match w {
        Windows::Empty => None,
        Windows::Leaf(l, next) => if l.id == id {
            first_id(*next)
        } else {
            sibling_after(*next, id)
        },
        Windows::Internal(c, child, next) => if c.id == id {
            first_id(*next)
        } else {
            match sibling_after(*child, id) {
                Some(x) => Some(x),
                None => sibling_after(*next, id),
            }
        },
    }
}

/// The sibling before a window.
pub open spec fn sibling_before(w: Windows, id: u64) -> Option<u64>
    decreases w,
{
    match w {
        Windows::Empty => None,
        Windows::Leaf(l, next) => if first_id(*next) == Some(id) {
            Some(l.id)
        } else {
            sibling_before(*next, id)
        },
        Windows::Internal(c, child, next) => if first_id(*next) == Some(id) {
            Some(c.id)
        } else {
            match sibling_before(*child, id) {
                Some(x) => Some(x),
                None => sibling_before(*next, id),
            }
        },
    }
}

/// The windows with one of them split: the new window becomes its next sibling,
/// in a combination of their own unless they are in one of that direction
/// already (`here` is the direction of the combination that holds these windows).
pub open spec fn split_at(
    w: Windows,
    id: u64,
    dir: SplitDirection,
    here: Option<SplitDirection>,
    new_id: u64,
    combination_id: u64,
) -> Windows
    decreases w,
{
    match w {
        Windows::Empty => Windows::Empty,
        Windows::Leaf(l, next) => if l.id == id {
            let old = Leaf { bounds: first_half(l.bounds, dir), ..l };
            let new = new_leaf(new_id, l.buffer_id, second_half(l.bounds, dir));
            if here == Some(dir) {
                Windows::Leaf(old, Box::new(Windows::Leaf(new, next)))
            } else {
                Windows::Internal(
                    Combination {
                        id: combination_id,
                        direction: dir,
                        bounds: l.bounds,
                        combination_limit: false,
                    },
                    Box::new(
                        Windows::Leaf(old, Box::new(Windows::Leaf(new, Box::new(Windows::Empty)))),
                    ),
                    next,
                )
            }
        } else {
            Windows::Leaf(l, Box::new(split_at(*next, id, dir, here, new_id, combination_id)))
        },
        Windows::Internal(c, child, next) => Windows::Internal(
            c,
            Box::new(split_at(*child, id, dir, Some(c.direction), new_id, combination_id)),
            Box::new(split_at(*next, id, dir, here, new_id, combination_id)),
        ),
    }
}

/// A combination whose windows are `child`: only the one window, in the
/// combination's place, where there is just one; nothing where there is none.
pub open spec fn collapsed(c: Combination, child: Windows, next: Windows) -> Windows {
    if child is Empty {
        next
    } else if rest_of(child) is Empty {
        with_next(with_first_rect(child, c.bounds), next)
    } else {
        Windows::Internal(c, Box::new(child), Box::new(next))
    }
}

/// The windows of a combination of direction `dir` without one that shows a
/// buffer. The window before it takes its room, or the one after it where it was the first.
pub open spec fn without(w: Windows, id: u64, dir: SplitDirection) -> Windows
    decreases w,
{
    match w {
        Windows::Empty => Windows::Empty,
        Windows::Leaf(l, next) => if l.id == id {
            with_first_rect(*next, grown_over_previous(first_rect(*next), l.bounds, dir))
        } else {
            match *next {
                Windows::Leaf(g, after) if g.id == id => with_next(
                    with_first_rect(w, grown_over_next(l.bounds, g.bounds, dir)),
                    *after,
                ),
                _ => Windows::Leaf(l, Box::new(without(*next, id, dir))),
            }
        },
        Windows::Internal(c, child, next) => match *next {
            Windows::Leaf(g, after) if g.id == id => with_next(
                with_first_rect(w, grown_over_next(c.bounds, g.bounds, dir)),
                *after,
            ),
            _ => collapsed(
                c,
                without(*child, id, c.direction),
                without(*next, id, dir),
            ),
        },
    }
}

/// The first window that shows a buffer and holds a point.
pub open spec fn leaf_at(w: Windows, px: int, py: int) -> Option<u64>
    decreases w,
{
    match w {
        Windows::Empty => None,
        Windows::Leaf(l, next) => if inside(l.bounds, px, py) {
            Some(l.id)
        } else {
            leaf_at(*next, px, py)
        },
        Windows::Internal(_, child, next) => match leaf_at(*child, px, py) {
            Some(x) => Some(x),
            None => leaf_at(*next, px, py),
        },
    }
}

/// Whether a rectangle holds a point.
pub open spec fn inside(r: Rect, px: int, py: int) -> bool {
    r.x <= px < r.x + r.width && r.y <= py < r.y + r.height
}

/// Whether a rectangle holds a point.
pub fn contains(r: &Rect, px: u64, py: u64) -> (b: bool)
    ensures
        b == inside(*r, px as int, py as int),
{
    r.x as u64 <= px && px < r.x as u64 + r.width as u64 && r.y as u64 <= py && py < r.y as u64
        + r.height as u64
}

/// A sequence with `new` put in after each place where `id` stands.
pub open spec fn followed(s: Seq<u64>, id: u64, new: u64) -> Seq<u64>
    decreases s.len(),
{
    if s.len() == 0 {
        s
    } else if s[0] == id {
        seq![id, new] + followed(s.drop_first(), id, new)
    } else {
        seq![s[0]] + followed(s.drop_first(), id, new)
    }
}

/// A sequence without `id`.
pub open spec fn omitting(s: Seq<u64>, id: u64) -> Seq<u64>
    decreases s.len(),
{
    if s.len() == 0 {
        s
    } else if s[0] == id {
        omitting(s.drop_first(), id)
    } else {
        seq![s[0]] + omitting(s.drop_first(), id)
    }
}

proof fn lemma_followed_concat(a: Seq<u64>, b: Seq<u64>, id: u64, new: u64)
    ensures
        followed(a + b, id, new) == followed(a, id, new) + followed(b, id, new),
    decreases a.len(),
{
    if a.len() == 0 {
        assert(a + b =~= b);
    } else {
        lemma_followed_concat(a.drop_first(), b, id, new);
        assert((a + b).drop_first() =~= a.drop_first() + b);
        assert((a + b)[0] == a[0]);
        assert(followed(a + b, id, new) =~= followed(a, id, new) + followed(b, id, new));
    }
}

proof fn lemma_omitting_concat(a: Seq<u64>, b: Seq<u64>, id: u64)
    ensures
        omitting(a + b, id) == omitting(a, id) + omitting(b, id),
    decreases a.len(),
{
    if a.len() == 0 {
        assert(a + b =~= b);
    } else {
        lemma_omitting_concat(a.drop_first(), b, id);
        assert((a + b).drop_first() =~= a.drop_first() + b);
        assert((a + b)[0] == a[0]);
        assert(omitting(a + b, id) =~= omitting(a, id) + omitting(b, id));
    }
}

proof fn lemma_omitting_absent(a: Seq<u64>, id: u64)
    requires
        !a.contains(id),
    ensures
        omitting(a, id) == a,
    decreases a.len(),
{
    if a.len() > 0 {
        assert(a[0] != id);
        assert(!a.drop_first().contains(id)) by {
            if a.drop_first().contains(id) {
                let i = choose|i: int| 0 <= i < a.drop_first().len() && a.drop_first()[i] == id;
                assert(a[i + 1] == id);
            }
        }
        lemma_omitting_absent(a.drop_first(), id);
        assert(omitting(a, id) =~= a);
    }
}

proof fn lemma_followed_absent(a: Seq<u64>, id: u64, new: u64)
    requires
        !a.contains(id),
    ensures
        followed(a, id, new) == a,
    decreases a.len(),
{
    if a.len() > 0 {
        assert(a[0] != id);
        assert(!a.drop_first().contains(id)) by {
            if a.drop_first().contains(id) {
                let i = choose|i: int| 0 <= i < a.drop_first().len() && a.drop_first()[i] == id;
                assert(a[i + 1] == id);
            }
        }
        lemma_followed_absent(a.drop_first(), id, new);
        assert(followed(a, id, new) =~= a);
    }
}

proof fn lemma_parts_distinct(a: Seq<u64>, b: Seq<u64>)
    requires
        (a + b).no_duplicates(),
    ensures
        a.no_duplicates(),
        b.no_duplicates(),
        forall|x: u64| a.contains(x) ==> !b.contains(x),
{
    let s = a + b;
    assert forall|i: int, j: int| 0 <= i < a.len() && 0 <= j < a.len() && i != j implies a[i]
        != a[j] by {
        assert(s[i] == a[i] && s[j] == a[j]);
    }
    assert forall|i: int, j: int| 0 <= i < b.len() && 0 <= j < b.len() && i != j implies b[i]
        != b[j] by {
        assert(s[a.len() + i] == b[i] && s[a.len() + j] == b[j]);
    }
    assert forall|x: u64| a.contains(x) implies !b.contains(x) by {
        if b.contains(x) {
            let i = choose|i: int| 0 <= i < a.len() && a[i] == x;
            let j = choose|j: int| 0 <= j < b.len() && b[j] == x;
            assert(s[i] == x && s[a.len() + j] == x);
        }
    }
}

/// Splitting a window puts the new window right behind it in the list of
/// windows and leaves the order of the others as it was.
pub proof fn law_split_adds_window_after(
    w: Windows,
    id: u64,
    dir: SplitDirection,
    here: Option<SplitDirection>,
    new_id: u64,
    combination_id: u64,
)
    requires
        leaf_ids(w).no_duplicates(),
    ensures
        leaf_ids(split_at(w, id, dir, here, new_id, combination_id)) == followed(
            leaf_ids(w),
            id,
            new_id,
        ),
    decreases w,
{
    match w {
        Windows::Empty => {},
        Windows::Leaf(l, next) => {
            let ids = leaf_ids(w);
            assert(ids.drop_first() =~= leaf_ids(*next));
            assert(ids[0] == l.id);
            lemma_parts_distinct(seq![l.id], leaf_ids(*next));
            if l.id == id {
                let split = split_at(w, id, dir, here, new_id, combination_id);
                reveal_with_fuel(leaf_ids, 4);
                if here == Some(dir) {
                    assert(leaf_ids(split) =~= seq![id, new_id] + leaf_ids(*next));
                } else {
                    assert(leaf_ids(split) =~= seq![id, new_id] + leaf_ids(*next));
                }
                assert(seq![l.id].contains(id)) by {
                    assert(seq![l.id][0] == id);
                }
                lemma_followed_absent(leaf_ids(*next), id, new_id);
            } else {
                law_split_adds_window_after(*next, id, dir, here, new_id, combination_id);
            }
        },
        Windows::Internal(c, child, next) => {
            lemma_parts_distinct(leaf_ids(*child), leaf_ids(*next));
            law_split_adds_window_after(
                *child,
                id,
                dir,
                Some(c.direction),
                new_id,
                combination_id,
            );
            law_split_adds_window_after(*next, id, dir, here, new_id, combination_id);
            lemma_followed_concat(leaf_ids(*child), leaf_ids(*next), id, new_id);
        },
    }
}

proof fn lemma_fitted_keeps_ids(w: Windows, whole: Rect, start: u32, dir: SplitDirection)
    ensures
        leaf_ids(fitted(w, whole, start, dir)) == leaf_ids(w),
    decreases w,
{
    match w {
        Windows::Empty => {},
        Windows::Leaf(l, next) => {
            let r = child_rect(l.bounds, whole, start, dir, *next is Empty);
            lemma_fitted_keeps_ids(*next, whole, after_child(r, dir), dir);
        },
        Windows::Internal(c, child, next) => {
            let r = child_rect(c.bounds, whole, start, dir, *next is Empty);
            lemma_fitted_keeps_ids(*child, r, first_start(r, c.direction), c.direction);
            lemma_fitted_keeps_ids(*next, whole, after_child(r, dir), dir);
        },
    }
}

proof fn lemma_placed_keeps_ids(w: Windows, r: Rect)
    ensures
        leaf_ids(with_first_rect(w, r)) == leaf_ids(w),
{
    match w {
        Windows::Internal(c, child, next) => {
            lemma_fitted_keeps_ids(*child, r, first_start(r, c.direction), c.direction);
        },
        _ => {},
    }
}

/// Deleting a window takes it out of the list of windows and leaves the others in their order.
pub proof fn law_without_removes_window(w: Windows, id: u64, dir: SplitDirection)
    requires
        leaf_ids(w).no_duplicates(),
    ensures
        leaf_ids(without(w, id, dir)) == omitting(leaf_ids(w), id),
    decreases w,
{
    let ids = leaf_ids(w);
    match w {
        Windows::Empty => {},
        Windows::Leaf(l, next) => {
            lemma_parts_distinct(seq![l.id], leaf_ids(*next));
            assert(ids.drop_first() =~= leaf_ids(*next));
            assert(ids[0] == l.id);
            assert(seq![l.id].contains(l.id)) by {
                assert(seq![l.id][0] == l.id);
            }
            if l.id == id {
                lemma_omitting_absent(leaf_ids(*next), id);
                lemma_placed_keeps_ids(
                    *next,
                    grown_over_previous(first_rect(*next), l.bounds, dir),
                );
            } else {
                if rest_of(w) is Leaf && rest_of(w)->Leaf_0.id == id {
                    lemma_removed_sibling(w, id, dir);
                } else {
                    law_without_removes_window(*next, id, dir);
                }
            }
        },
        Windows::Internal(c, child, next) => {
            lemma_parts_distinct(leaf_ids(*child), leaf_ids(*next));
            lemma_omitting_concat(leaf_ids(*child), leaf_ids(*next), id);
            if rest_of(w) is Leaf && rest_of(w)->Leaf_0.id == id {
                lemma_removed_sibling(w, id, dir);
            } else {
                law_without_removes_window(*child, id, c.direction);
                law_without_removes_window(*next, id, dir);
                let inner = without(*child, id, c.direction);
                let rest = without(*next, id, dir);
                lemma_placed_keeps_ids(inner, c.bounds);
                let placed = with_first_rect(inner, c.bounds);
                lemma_next_ids(placed, rest);
                assert(leaf_ids(collapsed(c, inner, rest)) =~= leaf_ids(inner) + leaf_ids(rest));
            }
        },
    }
}

/// The windows of the first of several siblings come before those of the others.
proof fn lemma_next_ids(w: Windows, rest: Windows)
    ensures
        w !is Empty ==> leaf_ids(with_next(w, rest)) == leaf_ids(with_next(w, Windows::Empty))
            + leaf_ids(rest),
        with_next(w, rest_of(w)) == w,
        rest_of(w) is Empty && w !is Empty ==> with_next(w, Windows::Empty) == w,
{
    reveal_with_fuel(leaf_ids, 2);
    match w {
        Windows::Empty => {},
        Windows::Leaf(l, _) => {
            assert(leaf_ids(with_next(w, rest)) =~= leaf_ids(with_next(w, Windows::Empty))
                + leaf_ids(rest));
        },
        Windows::Internal(c, child, _) => {
            assert(leaf_ids(with_next(w, rest)) =~= leaf_ids(with_next(w, Windows::Empty))
                + leaf_ids(rest));
        },
    }
}

/// A window that comes right after another one leaves the list when that one takes its room.
proof fn lemma_removed_sibling(w: Windows, id: u64, dir: SplitDirection)
    requires
        leaf_ids(w).no_duplicates(),
        rest_of(w) is Leaf,
        rest_of(w)->Leaf_0.id == id,
        w matches Windows::Leaf(l, _) ==> l.id != id,
    ensures
        leaf_ids(without(w, id, dir)) == omitting(leaf_ids(w), id),
{
    let gone = rest_of(w)->Leaf_0;
    let after = *rest_of(w)->Leaf_1;
    let r = match w {
        Windows::Leaf(l, _) => grown_over_next(l.bounds, gone.bounds, dir),
        Windows::Internal(c, _, _) => grown_over_next(c.bounds, gone.bounds, dir),
        _ => first_rect(w),
    };
    let first = leaf_ids(with_next(w, Windows::Empty));
    lemma_next_ids(w, rest_of(w));
    lemma_placed_keeps_ids(with_next(w, Windows::Empty), r);
    assert(with_next(with_first_rect(w, r), Windows::Empty) == with_first_rect(
        with_next(w, Windows::Empty),
        r,
    ));
    lemma_next_ids(with_first_rect(w, r), after);
    assert(leaf_ids(without(w, id, dir)) == first + leaf_ids(after));
    assert(leaf_ids(rest_of(w)) == seq![id] + leaf_ids(after));
    assert(leaf_ids(w) == first + (seq![id] + leaf_ids(after)));
    lemma_parts_distinct(first, seq![id] + leaf_ids(after));
    lemma_parts_distinct(seq![id], leaf_ids(after));
    assert(seq![id].contains(id)) by {
        assert(seq![id][0] == id);
    }
    assert((seq![id] + leaf_ids(after)).contains(id)) by {
        assert((seq![id] + leaf_ids(after))[0] == id);
    }
    lemma_omitting_absent(first, id);
    lemma_omitting_absent(leaf_ids(after), id);
    lemma_omitting_concat(first, seq![id] + leaf_ids(after), id);
    assert((seq![id] + leaf_ids(after)).drop_first() =~= leaf_ids(after));
    assert((seq![id] + leaf_ids(after))[0] == id);
}

/// A window that is changed in place is found with the change.
pub proof fn law_changed_window_is_found(w: Windows, id: u64, new: Leaf)
    requires
        find(w, id) is Some,
        find(w, id)->0 is Leaf,
        new.id == id,
    ensures
        find(with_leaf(w, id, new), id) == Some(Window::Leaf(new)),
    decreases w,
{
    match w {
        Windows::Empty => {},
        Windows::Leaf(l, next) => {
            if l.id != id {
                law_changed_window_is_found(*next, id, new);
            }
        },
        Windows::Internal(c, child, next) => {
            if find(*child, id) is Some {
                law_changed_window_is_found(*child, id, new);
            } else {
                lemma_absent_stays_absent(*child, id, id, new);
                law_changed_window_is_found(*next, id, new);
            }
        },
    }
}

proof fn lemma_absent_stays_absent(w: Windows, id: u64, changed: u64, new: Leaf)
    requires
        find(w, id) is None,
        new.id == changed,
    ensures
        find(with_leaf(w, changed, new), id) is None,
    decreases w,
{
    match w {
        Windows::Empty => {},
        Windows::Leaf(l, next) => {
            lemma_absent_stays_absent(*next, id, changed, new);
        },
        Windows::Internal(c, child, next) => {
            lemma_absent_stays_absent(*child, id, changed, new);
            lemma_absent_stays_absent(*next, id, changed, new);
        },
    }
}

/// A change to one window leaves every other window as it was.
pub proof fn law_other_windows_stay(w: Windows, id: u64, other: u64, new: Leaf)
    requires
        id != other,
        new.id == id,
    ensures
        find(with_leaf(w, id, new), other) == find(w, other),
    decreases w,
{
    match w {
        Windows::Empty => {},
        Windows::Leaf(l, next) => {
            law_other_windows_stay(*next, id, other, new);
        },
        Windows::Internal(c, child, next) => {
            law_other_windows_stay(*child, id, other, new);
            law_other_windows_stay(*next, id, other, new);
        },
    }
}

/// A change to a window that keeps its identifier keeps the list of windows.
pub proof fn law_change_keeps_window_list(w: Windows, id: u64, new: Leaf)
    requires
        new.id == id,
    ensures
        leaf_ids(with_leaf(w, id, new)) == leaf_ids(w),
    decreases w,
{
    match w {
        Windows::Empty => {},
        Windows::Leaf(l, next) => {
            law_change_keeps_window_list(*next, id, new);
        },
        Windows::Internal(c, child, next) => {
            law_change_keeps_window_list(*child, id, new);
            law_change_keeps_window_list(*next, id, new);
        },
    }
}

/// The two halves of a window together are as large as the window was.
pub proof fn law_halves_fill_window(r: Rect, dir: SplitDirection)
    ensures
        dir is Vertical ==> first_half(r, dir).height + second_half(r, dir).height == r.height
            && first_half(r, dir).width == r.width && second_half(r, dir).width == r.width,
        dir is Horizontal ==> first_half(r, dir).width + second_half(r, dir).width == r.width
            && first_half(r, dir).height == r.height && second_half(r, dir).height == r.height,
{
}

impl Windows {
    /// A copy of the windows.
    pub fn copy(&self) -> (r: Windows)
        ensures
            r == *self,
        decreases self,
    {
        match self {
            Windows::Empty => Windows::Empty,
            Windows::Leaf(l, next) => Windows::Leaf(*l, Box::new(next.copy())),
            Windows::Internal(c, child, next) => Windows::Internal(
                *c,
                Box::new(child.copy()),
                Box::new(next.copy()),
            ),
        }
    }

    /// Whether there is no window.
    pub fn is_empty(&self) -> (r: bool)
        ensures
            r == (*self is Empty),
    {
        match self {
            Windows::Empty => true,
            _ => false,
        }
    }

    /// The identifiers of the windows that show buffers, in order.
    pub fn window_list(&self) -> (r: Vec<u64>)
        ensures
            r@ == leaf_ids(*self),
        decreases self,
    {
        let mut out: Vec<u64> = Vec::new();
        match self {
            Windows::Empty => {},
            Windows::Leaf(l, next) => {
                out.push(l.id);
                let mut more: Vec<u64> = next.window_list();
                out.append(&mut more);
            },
            Windows::Internal(_, child, next) => {
                let mut inner: Vec<u64> = child.window_list();
                let mut more: Vec<u64> = next.window_list();
                out.append(&mut inner);
                out.append(&mut more);
            },
        }
        proof {
            assert(out@ =~= leaf_ids(*self));
        }
        out
    }

    /// The window with the given identifier.
    pub fn find(&self, id: u64) -> (r: Option<Window>)
        ensures
            r == find(*self, id),
        decreases self,
    {
        match self {
            Windows::Empty => None,
            Windows::Leaf(l, next) => if l.id == id {
                Some(Window::Leaf(*l))
            } else {
                next.find(id)
            },
            Windows::Internal(c, child, next) => if c.id == id {
                Some(Window::Internal(*c))
            } else {
                match child.find(id) {
                    Some(x) => Some(x),
                    None => next.find(id),
                }
            },
        }
    }

    /// The identifier of the first window.
    pub fn first_id(&self) -> (r: Option<u64>)
        ensures
            r == first_id(*self),
    {
        match self {
            Windows::Empty => None,
            Windows::Leaf(l, _) => Some(l.id),
            Windows::Internal(c, _, _) => Some(c.id),
        }
    }

    /// The windows with one that shows a buffer replaced.
    pub fn with_leaf(&self, id: u64, new: Leaf) -> (r: Windows)
        ensures
            r == with_leaf(*self, id, new),
        decreases self,
    {
        match self {
            Windows::Empty => Windows::Empty,
            Windows::Leaf(l, next) => if l.id == id {
                Windows::Leaf(new, Box::new(next.copy()))
            } else {
                Windows::Leaf(*l, Box::new(next.with_leaf(id, new)))
            },
            Windows::Internal(c, child, next) => Windows::Internal(
                *c,
                Box::new(child.with_leaf(id, new)),
                Box::new(next.with_leaf(id, new)),
            ),
        }
    }

    /// The windows with the combination limit of one combination set.
    pub fn with_limit(&self, id: u64, limit: bool) -> (r: Windows)
        ensures
            r == with_limit(*self, id, limit),
        decreases self,
    {
        match self {
            Windows::Empty => Windows::Empty,
            Windows::Leaf(l, next) => Windows::Leaf(*l, Box::new(next.with_limit(id, limit))),
            Windows::Internal(c, child, next) => Windows::Internal(
                if c.id == id {
                    Combination {
                        id: c.id,
                        direction: c.direction,
                        bounds: c.bounds,
                        combination_limit: limit,
                    }
                } else {
                    *c
                },
                Box::new(child.with_limit(id, limit)),
                Box::new(next.with_limit(id, limit)),
            ),
        }
    }

    /// The combination that holds a window.
    pub fn parent_of(&self, id: u64, up: Option<u64>) -> (r: Option<u64>)
        ensures
            r == parent_of(*self, id, up),
        decreases self,
    {
        match self {
            Windows::Empty => None,
            Windows::Leaf(l, next) => if l.id == id {
                up
            } else {
                next.parent_of(id, up)
            },
            Windows::Internal(c, child, next) => if c.id == id {
                up
            } else {
                match child.parent_of(id, Some(c.id)) {
                    Some(p) => Some(p),
                    None => next.parent_of(id, up),
                }
            },
        }
    }

    /// The first window of a combination with the given direction.
    pub fn child_of(&self, id: u64, dir: SplitDirection) -> (r: Option<u64>)
        ensures
            r == child_of(*self, id, dir),
        decreases self,
    {
        match self {
            Windows::Empty => None,
            Windows::Leaf(_, next) => next.child_of(id, dir),
            Windows::Internal(c, child, next) => if c.id == id {
                if c.direction == dir {
                    child.first_id()
                } else {
                    None
                }
            } else {
                match child.child_of(id, dir) {
                    Some(x) => Some(x),
                    None => next.child_of(id, dir),
                }
            },
        }
    }

    /// The sibling after a window.
    pub fn sibling_after(&self, id: u64) -> (r: Option<u64>)
        ensures
            r == sibling_after(*self, id),
        decreases self,
    {
        match self {
            Windows::Empty => None,
            Windows::Leaf(l, next) => if l.id == id {
                next.first_id()
            } else {
                next.sibling_after(id)
            },
            Windows::Internal(c, child, next) => if c.id == id {
                next.first_id()
            } else {
                match child.sibling_after(id) {
                    Some(x) => Some(x),
                    None => next.sibling_after(id),
                }
            },
        }
    }

    /// Whether the first window has the given identifier.
    fn starts_with(&self, id: u64) -> (r: bool)
        ensures
            r == (first_id(*self) == Some(id)),
    {
        match self {
            Windows::Empty => false,
            Windows::Leaf(l, _) => l.id == id,
            Windows::Internal(c, _, _) => c.id == id,
        }
    }

    /// The sibling before a window.
    pub fn sibling_before(&self, id: u64) -> (r: Option<u64>)
        ensures
            r == sibling_before(*self, id),
        decreases self,
    {
        match self {
            Windows::Empty => None,
            Windows::Leaf(l, next) => if next.starts_with(id) {
                Some(l.id)
            } else {
                next.sibling_before(id)
            },
            Windows::Internal(c, child, next) => if next.starts_with(id) {
                Some(c.id)
            } else {
                match child.sibling_before(id) {
                    Some(x) => Some(x),
                    None => next.sibling_before(id),
                }
            },
        }
    }

    /// The windows with one of them split.
    pub fn split_at(
        &self,
        id: u64,
        dir: SplitDirection,
        here: Option<SplitDirection>,
        new_id: u64,
        combination_id: u64,
    ) -> (r: Windows)
        ensures
            r == split_at(*self, id, dir, here, new_id, combination_id),
        decreases self,
    {
        match self {
            Windows::Empty => Windows::Empty,
            Windows::Leaf(l, next) => if l.id == id {
                let (first, second) = halves(l.bounds, dir);
                let mut old: Leaf = *l;
                old.bounds = first;
                let new: Leaf = Leaf::new(new_id, l.buffer_id, second);
                let same: bool = match here {
                    Some(d) => d == dir,
                    None => false,
                };
                if same {
                    Windows::Leaf(old, Box::new(Windows::Leaf(new, Box::new(next.copy()))))
                } else {
                    Windows::Internal(
                        Combination {
                            id: combination_id,
                            direction: dir,
                            bounds: l.bounds,
                            combination_limit: false,
                        },
                        Box::new(
                            Windows::Leaf(
                                old,
                                Box::new(Windows::Leaf(new, Box::new(Windows::Empty))),
                            ),
                        ),
                        Box::new(next.copy()),
                    )
                }
            } else {
                Windows::Leaf(
                    *l,
                    Box::new(next.split_at(id, dir, here, new_id, combination_id)),
                )
            },
            Windows::Internal(c, child, next) => Windows::Internal(
                *c,
                Box::new(child.split_at(id, dir, Some(c.direction), new_id, combination_id)),
                Box::new(next.split_at(id, dir, here, new_id, combination_id)),
            ),
        }
    }

    /// The windows of a combination laid out in a rectangle.
    fn fitted(&self, whole: Rect, start: u32, dir: SplitDirection) -> (r: Windows)
        ensures
            r == fitted(*self, whole, start, dir),
        decreases self,
    {
        match self {
            Windows::Empty => Windows::Empty,
            Windows::Leaf(l, next) => {
                let b: Rect = place_child(l.bounds, whole, start, dir, next.is_empty());
                let mut leaf: Leaf = *l;
                leaf.bounds = b;
                Windows::Leaf(leaf, Box::new(next.fitted(whole, next_start(b, dir), dir)))
            },
            Windows::Internal(c, child, next) => {
                let b: Rect = place_child(c.bounds, whole, start, dir, next.is_empty());
                let mut comb: Combination = *c;
                comb.bounds = b;
                Windows::Internal(
                    comb,
                    Box::new(child.fitted(b, start_of(b, c.direction), c.direction)),
                    Box::new(next.fitted(whole, next_start(b, dir), dir)),
                )
            },
        }
    }

    /// The first window in another place, with what it holds laid out anew.
    fn with_first_rect(&self, b: Rect) -> (r: Windows)
        ensures
            r == with_first_rect(*self, b),
    {
        match self {
            Windows::Empty => Windows::Empty,
            Windows::Leaf(l, next) => {
                let mut leaf: Leaf = *l;
                leaf.bounds = b;
                Windows::Leaf(leaf, Box::new(next.copy()))
            },
            Windows::Internal(c, child, next) => {
                let mut comb: Combination = *c;
                comb.bounds = b;
                Windows::Internal(
                    comb,
                    Box::new(child.fitted(b, start_of(b, c.direction), c.direction)),
                    Box::new(next.copy()),
                )
            },
        }
    }

    /// The rectangle of the first window.
    pub fn first_rect(&self) -> (r: Rect)
        ensures
            r == first_rect(*self),
    {
        match self {
            Windows::Empty => Rect { x: 0, y: 0, width: 0, height: 0 },
            Windows::Leaf(l, _) => l.bounds,
            Windows::Internal(c, _, _) => c.bounds,
        }
    }

    /// The first window with the given siblings after it.
    fn with_next(&self, rest: Windows) -> (r: Windows)
        ensures
            r == with_next(*self, rest),
    {
        match self {
            Windows::Empty => rest,
            Windows::Leaf(l, _) => Windows::Leaf(*l, Box::new(rest)),
            Windows::Internal(c, child, _) => Windows::Internal(
                *c,
                Box::new(child.copy()),
                Box::new(rest),
            ),
        }
    }

    /// Whether there is at most one window.
    fn is_single(&self) -> (r: bool)
        ensures
            r == (rest_of(*self) is Empty),
    {
        match self {
            Windows::Empty => true,
            Windows::Leaf(_, next) => next.is_empty(),
            Windows::Internal(_, _, next) => next.is_empty(),
        }
    }

    /// The windows of a combination of direction `dir` without one that shows a buffer.
    pub fn without(&self, id: u64, dir: SplitDirection) -> (r: Windows)
        ensures
            r == without(*self, id, dir),
        decreases self,
    {
        match self {
            Windows::Empty => Windows::Empty,
            Windows::Leaf(l, next) => if l.id == id {
                next.with_first_rect(grow_over_previous(next.first_rect(), l.bounds, dir))
            } else {
                match &**next {
                    Windows::Leaf(g, after) => if g.id == id {
                        self.with_first_rect(grow_over_next(l.bounds, g.bounds, dir)).with_next(
                            after.copy(),
                        )
                    } else {
                        Windows::Leaf(*l, Box::new(next.without(id, dir)))
                    },
                    _ => Windows::Leaf(*l, Box::new(next.without(id, dir))),
                }
            },
            Windows::Internal(c, child, next) => {
                match &**next {
                    Windows::Leaf(g, after) => {
                        if g.id == id {
                            return self.with_first_rect(
                                grow_over_next(c.bounds, g.bounds, dir),
                            ).with_next(after.copy());
                        }
                    },
                    _ => {},
                }
                let inner: Windows = child.without(id, c.direction);
                let rest: Windows = next.without(id, dir);
                if inner.is_empty() {
                    rest
                } else if inner.is_single() {
                    inner.with_first_rect(c.bounds).with_next(rest)
                } else {
                    Windows::Internal(*c, Box::new(inner), Box::new(rest))
                }
            },
        }
    }

    /// The first window that shows a buffer and holds a point.
    pub fn leaf_at(&self, px: u64, py: u64) -> (r: Option<u64>)
        ensures
            r == leaf_at(*self, px as int, py as int),
        decreases self,
    {
        match self {
            Windows::Empty => None,
            Windows::Leaf(l, next) => if contains(&l.bounds, px, py) {
                Some(l.id)
            } else {
                next.leaf_at(px, py)
            },
            Windows::Internal(_, child, next) => match child.leaf_at(px, py) {
                Some(x) => Some(x),
                None => next.leaf_at(px, py),
            },
        }
    }
}

} // verus!
