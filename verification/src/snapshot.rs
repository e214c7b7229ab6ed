//! What was last drawn in a window.
use vstd::prelude::*;

verus! {

/// Where one character was drawn, relative to the text area of its window.
#[derive(Debug, Clone, Copy, PartialEq, Eq, Structural)]
pub struct DisplayPointSnapshot {
    pub buffer_pos: usize,
    pub x: i64,
    pub y: i64,
    pub width: i64,
    pub height: i64,
    pub row: i64,
    pub col: i64,
}

/// Where one row of text was drawn.
#[derive(Debug, Clone, Copy, PartialEq, Eq, Structural)]
pub struct DisplayRowSnapshot {
    pub row: i64,
    pub y: i64,
    pub height: i64,
    pub start_x: i64,
    pub start_col: i64,
    pub end_x: i64,
    pub end_col: i64,
    pub start_buffer_pos: Option<usize>,
    pub end_buffer_pos: Option<usize>,
}

/// What was last drawn in a window, its points in the order of their positions.
#[derive(Debug, PartialEq, Eq)]
pub struct WindowDisplaySnapshot {
    pub window_id: u64,
    pub text_area_left_offset: i64,
    pub points: Vec<DisplayPointSnapshot>,
    pub rows: Vec<DisplayRowSnapshot>,
}

/// What was last drawn in a window.
pub struct Drawn {
    pub window_id: u64,
    pub left: i64,
    pub points: Seq<DisplayPointSnapshot>,
    pub rows: Seq<DisplayRowSnapshot>,
}

impl View for WindowDisplaySnapshot {
    type V = Drawn;

    open spec fn view(&self) -> Drawn {
        Drawn {
            window_id: self.window_id,
            left: self.text_area_left_offset,
            points: self.points@,
            rows: self.rows@,
        }
    }
}

/// The first point at a position or after it, together with the point before that.
pub open spec fn point_from(
    s: Seq<DisplayPointSnapshot>,
    pos: int,
    before: Option<DisplayPointSnapshot>,
) -> Option<(DisplayPointSnapshot, Option<DisplayPointSnapshot>)>
    decreases s.len(),
{
    if s.len() == 0 {
        None
    } else if s[0].buffer_pos >= pos {
        Some((s[0], before))
    } else {
        point_from(s.drop_first(), pos, Some(s[0]))
    }
}

/// Where a position was drawn. A position that was not drawn itself is where the
/// next point is, if the points before and after it are on the same row.
pub open spec fn drawn_at(s: Seq<DisplayPointSnapshot>, pos: int) -> Option<DisplayPointSnapshot> {
    match point_from(s, pos, None) {
        Some((p, before)) => if p.buffer_pos == pos {
            Some(p)
        } else {
            match before {
                Some(b) => if b.row == p.row {
                    Some(p)
                } else {
                    None
                },
                None => None,
            }
        },
        None => None,
    }
}

/// A size, at least one.
pub open spec fn extent(n: i64) -> int {
    if n < 1 {
        1
    } else {
        n as int
    }
}

/// Whether a point covers some coordinates.
pub open spec fn covers(p: DisplayPointSnapshot, x: int, y: int) -> bool {
    p.x <= x < p.x + extent(p.width) && p.y <= y < p.y + extent(p.height)
}

/// The first point that covers some coordinates.
pub open spec fn covering(s: Seq<DisplayPointSnapshot>, x: int, y: int) -> Option<
    DisplayPointSnapshot,
>
    decreases s.len(),
{
    if s.len() == 0 {
        None
    } else if covers(s[0], x, y) {
        Some(s[0])
    } else {
        covering(s.drop_first(), x, y)
    }
}

/// The first row with the given number.
pub open spec fn numbered_row(s: Seq<DisplayRowSnapshot>, row: int) -> Option<DisplayRowSnapshot>
    decreases s.len(),
{
    if s.len() == 0 {
        None
    } else if s[0].row == row {
        Some(s[0])
    } else {
        numbered_row(s.drop_first(), row)
    }
}

impl WindowDisplaySnapshot {
    /// Where a position was drawn.
    pub fn point_for_buffer_pos(&self, pos: usize) -> (r: Option<DisplayPointSnapshot>)
        ensures
            r == drawn_at(self@.points, pos as int),
    {
        let mut i: usize = 0;
        let mut before: Option<DisplayPointSnapshot> = None;
        proof {
            assert(self@.points.skip(0) =~= self@.points);
        }
        while i < self.points.len()
            invariant
                i <= self.points.len(),
                point_from(self@.points.skip(i as int), pos as int, before) == point_from(
                    self@.points,
                    pos as int,
                    None,
                ),
            decreases self.points.len() - i,
        {
            let p: DisplayPointSnapshot = self.points[i];
            proof {
                assert(self@.points.skip(i as int)[0] == p);
                assert(self@.points.skip(i as int).drop_first() =~= self@.points.skip(i + 1));
            }
            if p.buffer_pos >= pos {
                if p.buffer_pos == pos {
                    return Some(p);
                }
                return match before {
                    Some(b) => if b.row == p.row {
                        Some(p)
                    } else {
                        None
                    },
                    None => None,
                };
            }
            before = Some(p);
            i = i + 1;
        }
        None
    }

    /// The first point that covers some coordinates.
    pub fn point_at_coords(&self, x: i128, y: i128) -> (r: Option<DisplayPointSnapshot>)
        ensures
            r == covering(self@.points, x as int, y as int),
    {
        let mut i: usize = 0;
        proof {
            assert(self@.points.skip(0) =~= self@.points);
        }
        while i < self.points.len()
            invariant
                i <= self.points.len(),
                covering(self@.points.skip(i as int), x as int, y as int) == covering(
                    self@.points,
                    x as int,
                    y as int,
                ),
            decreases self.points.len() - i,
        {
            let p: DisplayPointSnapshot = self.points[i];
            proof {
                assert(self@.points.skip(i as int)[0] == p);
                assert(self@.points.skip(i as int).drop_first() =~= self@.points.skip(i + 1));
            }
            let w: i128 = if p.width < 1 {
                1
            } else {
                p.width as i128
            };
            let h: i128 = if p.height < 1 {
                1
            } else {
                p.height as i128
            };
            let left: i128 = p.x as i128;
            let top: i128 = p.y as i128;
            if left <= x && x < left + w && top <= y && y < top + h {
                return Some(p);
            }
            i = i + 1;
        }
        None
    }

    /// The first row with the given number.
    pub fn row_metrics(&self, row: i128) -> (r: Option<DisplayRowSnapshot>)
        ensures
            r == numbered_row(self@.rows, row as int),
    {
        let mut i: usize = 0;
        proof {
            assert(self@.rows.skip(0) =~= self@.rows);
        }
        while i < self.rows.len()
            invariant
                i <= self.rows.len(),
                numbered_row(self@.rows.skip(i as int), row as int) == numbered_row(
                    self@.rows,
                    row as int,
                ),
            decreases self.rows.len() - i,
        {
            let found: DisplayRowSnapshot = self.rows[i];
            proof {
                assert(self@.rows.skip(i as int)[0] == found);
                assert(self@.rows.skip(i as int).drop_first() =~= self@.rows.skip(i + 1));
            }
            if found.row as i128 == row {
                return Some(found);
            }
            i = i + 1;
        }
        None
    }
}

/// What was last drawn in each window.
pub open spec fn drawn_views(s: Seq<WindowDisplaySnapshot>) -> Seq<Drawn> {
    Seq::new(s.len(), |i: int| s[i]@)
}

/// What was last drawn in a window.
pub open spec fn drawn_in(s: Seq<Drawn>, id: u64) -> Option<Drawn>
    decreases s.len(),
{
    if s.len() == 0 {
        None
    } else if s[0].window_id == id {
        Some(s[0])
    } else {
        drawn_in(s.drop_first(), id)
    }
}

/// What was last drawn in a window.
pub fn window_snapshot(s: &Vec<WindowDisplaySnapshot>, id: u64) -> (r: Option<
    &WindowDisplaySnapshot,
>)
    ensures
        match r {
            Some(d) => drawn_in(drawn_views(s@), id) == Some(d@),
            None => drawn_in(drawn_views(s@), id) is None,
        },
{
    let mut i: usize = 0;
    let ghost all = drawn_views(s@);
    proof {
        assert(all.skip(0) =~= all);
    }
    while i < s.len()
        invariant
            i <= s.len(),
            all == drawn_views(s@),
            drawn_in(all.skip(i as int), id) == drawn_in(all, id),
        decreases s.len() - i,
    {
        proof {
            assert(all.skip(i as int)[0] == s@[i as int]@);
            assert(all.skip(i as int).drop_first() =~= all.skip(i + 1));
        }
        if s[i].window_id == id {
            return Some(&s[i]);
        }
        i = i + 1;
    }
    None
}

} // verus!
