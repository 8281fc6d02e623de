//! Incremental substring search over the buffer's rendered lines.
//!
//! A search session is driven keystroke by keystroke: arrow keys set a row
//! or column scan direction and step to the neighbouring match, any other
//! query-editing keystroke clears both directions and scans the whole buffer
//! from the top. The first match in scan order wins and the scan stops
//! there; when no match is found, the cursor and the recorded match position
//! stay where they were.

use vstd::prelude::*;

use crate::buffer::LineBuffer;
use crate::render::logical_of_rendered;
use crate::render::rendered_to_logical;
use crate::render::rendering;
use crate::viewport::min_int;
use crate::viewport::Viewport;

verus! {

/// The query `pat` occurs in `text` starting at position `i`.
pub open spec fn match_at(text: Seq<char>, pat: Seq<char>, i: int) -> bool {
    &&& 0 <= i
    &&& i + pat.len() <= text.len()
    &&& text.subrange(i, i + pat.len()) == pat
}

/// `j` is the first position at or after `from` where `pat` matches `text`.
pub open spec fn first_match_from(text: Seq<char>, pat: Seq<char>, from: int, j: int) -> bool {
    &&& from <= j
    &&& match_at(text, pat, j)
    &&& forall|k: int| from <= k < j ==> !match_at(text, pat, k)
}

/// `j` is the last position where `pat` matches `text` wholly before `end`.
pub open spec fn last_match_within(text: Seq<char>, pat: Seq<char>, end: int, j: int) -> bool {
    &&& j + pat.len() <= end
    &&& match_at(text, pat, j)
    &&& forall|k: int| j < k && k + pat.len() <= end ==> !match_at(text, pat, k)
}

/// Whether `pat` matches `text` at position `i`.
fn is_match_at(text: &Vec<char>, pat: &Vec<char>, i: usize) -> (b: bool)
    requires
        i + pat@.len() <= text@.len(),
    ensures
        b == match_at(text@, pat@, i as int),
{
    let n: usize = text.len();
    let m = pat.len();
    proof {
        assert(i + m <= n);
    }
    let mut j: usize = 0;
    #[verifier::loop_isolation(false)]
    while j < m
        invariant
            j <= m,
            forall|k: int| 0 <= k < j ==> text@[i + k] == pat@[k],
        decreases m - j,
    {
        if text[i + j] != pat[j] {
            proof {
                assert(text@.subrange(i as int, i as int + m as int)[j as int] == text@[i + j]);
            }
            return false;
        }
        j = j + 1;
    }
    proof {
        assert(text@.subrange(i as int, i as int + m as int) =~= pat@);
    }
    true
}

/// First occurrence of `pat` in `text` at or after position `from`.
pub fn find_from(text: &Vec<char>, pat: &Vec<char>, from: usize) -> (r: Option<usize>)
    ensures
        (match r {
            Some(i) => first_match_from(text@, pat@, from as int, i as int),
            None => forall|j: int| j >= from ==> !match_at(text@, pat@, j),
        }),
{
    let n = text.len();
    let m = pat.len();
    if m > n {
        return None;
    }
    if from > n - m {
        return None;
    }
    let mut i: usize = from;
    loop
        invariant_except_break
            n == text@.len(),
            m == pat@.len(),
            m <= n,
            from <= i <= n - m,
            forall|j: int| from <= j < i ==> !match_at(text@, pat@, j),
        ensures
            forall|j: int| j >= from ==> !match_at(text@, pat@, j),
        decreases n - i,
    {
        if is_match_at(text, pat, i) {
            return Some(i);
        }
        if i == n - m {
            break;
        }
        i = i + 1;
    }
    None
}

/// Last occurrence of `pat` in `text` that ends at or before position `end`.
pub fn rfind_within(text: &Vec<char>, pat: &Vec<char>, end: usize) -> (r: Option<usize>)
    ensures
        (match r {
            Some(i) => last_match_within(text@, pat@, end as int, i as int),
            None => forall|j: int| j + pat@.len() <= end ==> !match_at(text@, pat@, j),
        }),
{
    let n = text.len();
    let m = pat.len();
    let limit: usize = if end < n {
        end
    } else {
        n
    };
    if m > limit {
        return None;
    }
    let mut i: usize = limit - m;
    loop
        invariant_except_break
            m == pat@.len(),
            limit <= end,
            limit <= text@.len(),
            i + m <= limit,
            forall|j: int| i < j && j + pat@.len() <= end ==> !match_at(text@, pat@, j),
        ensures
            forall|j: int| j + pat@.len() <= end ==> !match_at(text@, pat@, j),
        decreases i,
    {
        if is_match_at(text, pat, i) {
            return Some(i);
        }
        if i == 0 {
            break;
        }
        i = i - 1;
    }
    None
}

/// One scan direction of the incremental search, per axis.
#[derive(Clone, Copy, Debug, PartialEq, Eq, Structural)]
pub enum ScanDirection {
    Neutral,
    Forward,
    Backward,
}

/// One keystroke fed to an active search session.
#[derive(Clone, Copy, Debug, PartialEq, Eq, Structural)]
pub enum SearchKey {
    /// Accept the current match and end the session.
    Enter,
    /// Cancel the session.
    Escape,
    /// Step the row scan backward.
    Up,
    /// Step the row scan forward.
    Down,
    /// Step the in-row scan backward.
    Left,
    /// Step the in-row scan forward.
    Right,
    /// Any query-editing keystroke.
    Other,
}

/// The incremental-search state: the last match position and the two scan
/// direction flags. Created fresh when a session starts and reset when it
/// ends; never persisted across sessions.
#[derive(Clone, Copy)]
pub struct SearchState {
    /// Rendered column of the last match.
    pub x_index: usize,
    /// Row of the last match.
    pub y_index: usize,
    /// In-row scan direction.
    pub x_direction: ScanDirection,
    /// Row scan direction.
    pub y_direction: ScanDirection,
}

/// The rendered form of row `r` contains `q` somewhere.
pub open spec fn row_has_match(rows: Seq<Seq<char>>, q: Seq<char>, r: int) -> bool {
    exists|j: int| match_at(rendering(rows[r]), q, j)
}

/// State and viewport after the search lands on a match at rendered column
/// `j` of row `r`: the match position and the cursor move there, the cursor
/// column translated back to logical space, and the row offset is pushed
/// past the last line so that the next scroll brings the match into view.
pub open spec fn committed(
    s: SearchState,
    v: Viewport,
    prev: Viewport,
    rows: Seq<Seq<char>>,
    r: int,
    j: int,
) -> bool {
    &&& s.y_index == r
    &&& s.x_index == j
    &&& v.cursor_y == r
    &&& v.cursor_x == logical_of_rendered(rows[r], j)
    &&& v.row_offset == rows.len()
    &&& v.column_offset == prev.column_offset
    &&& v.render_x == prev.render_x
    &&& v.screen_rows == prev.screen_rows
    &&& v.screen_columns == prev.screen_columns
}

/// The match position and the cursor stay where they were.
pub open spec fn unchanged_match(
    s0: SearchState,
    v0: Viewport,
    s1: SearchState,
    v1: Viewport,
) -> bool {
    &&& s1.x_index == s0.x_index
    &&& s1.y_index == s0.y_index
    &&& v1 == v0
}

/// What one scan keystroke does to the match position and the cursor, per
/// key: a query edit scans all rows from the top; Down and Up step to the
/// nearest following or preceding row with a match; Right and Left step to
/// the next or previous match inside the current match row. In every case
/// the first match in scan order wins, and when none is found along the
/// scan, nothing moves.
pub open spec fn search_outcome(
    key: SearchKey,
    s0: SearchState,
    v0: Viewport,
    s1: SearchState,
    v1: Viewport,
    rows: Seq<Seq<char>>,
    q: Seq<char>,
) -> bool {
    let n = rows.len() as int;
    match key {
        SearchKey::Enter | SearchKey::Escape => true,
        SearchKey::Other => if exists|r: int| 0 <= r < n && #[trigger] row_has_match(rows, q, r) {
            &&& 0 <= s1.y_index < n
            &&& row_has_match(rows, q, s1.y_index as int)
            &&& forall|r: int| 0 <= r < s1.y_index ==> !row_has_match(rows, q, r)
            &&& first_match_from(rendering(rows[s1.y_index as int]), q, 0, s1.x_index as int)
            &&& committed(s1, v1, v0, rows, s1.y_index as int, s1.x_index as int)
        } else {
            unchanged_match(s0, v0, s1, v1)
        },
        SearchKey::Down => if exists|r: int|
            s0.y_index < r < n && #[trigger] row_has_match(rows, q, r) {
            &&& s0.y_index < s1.y_index < n
            &&& row_has_match(rows, q, s1.y_index as int)
            &&& forall|r: int| s0.y_index < r < s1.y_index ==> !row_has_match(rows, q, r)
            &&& first_match_from(rendering(rows[s1.y_index as int]), q, 0, s1.x_index as int)
            &&& committed(s1, v1, v0, rows, s1.y_index as int, s1.x_index as int)
        } else {
            unchanged_match(s0, v0, s1, v1)
        },
        SearchKey::Up => if s0.y_index <= n && exists|r: int|
            0 <= r < s0.y_index && #[trigger] row_has_match(rows, q, r) {
            &&& 0 <= s1.y_index < s0.y_index
            &&& row_has_match(rows, q, s1.y_index as int)
            &&& forall|r: int| s1.y_index < r < s0.y_index ==> !row_has_match(rows, q, r)
            &&& first_match_from(rendering(rows[s1.y_index as int]), q, 0, s1.x_index as int)
            &&& committed(s1, v1, v0, rows, s1.y_index as int, s1.x_index as int)
        } else {
            unchanged_match(s0, v0, s1, v1)
        },
        SearchKey::Right => {
            let t = rendering(rows[s0.y_index as int]);
            let from = min_int(s0.x_index as int + 1, t.len() as int);
            if s0.y_index < n && (exists|j: int| from <= j && #[trigger] match_at(t, q, j)) {
                &&& s1.y_index == s0.y_index
                &&& first_match_from(t, q, from, s1.x_index as int)
                &&& committed(s1, v1, v0, rows, s0.y_index as int, s1.x_index as int)
            } else {
                unchanged_match(s0, v0, s1, v1)
            }
        },
        SearchKey::Left => {
            let t = rendering(rows[s0.y_index as int]);
            let end = min_int(s0.x_index as int, t.len() as int);
            if s0.y_index < n && (exists|j: int|
                j + q.len() <= end && #[trigger] match_at(t, q, j)) {
                &&& s1.y_index == s0.y_index
                &&& last_match_within(t, q, end, s1.x_index as int)
                &&& committed(s1, v1, v0, rows, s0.y_index as int, s1.x_index as int)
            } else {
                unchanged_match(s0, v0, s1, v1)
            }
        },
    }
}

impl SearchState {
    /// A fresh, neutral search state.
    pub fn new() -> (s: SearchState)
        ensures
            s.x_index == 0,
            s.y_index == 0,
            s.x_direction is Neutral,
            s.y_direction is Neutral,
    {
        SearchState {
            x_index: 0,
            y_index: 0,
            x_direction: ScanDirection::Neutral,
            y_direction: ScanDirection::Neutral,
        }
    }

    /// Return to the fresh, neutral state.
    pub fn reset(&mut self)
        ensures
            final(self).x_index == 0,
            final(self).y_index == 0,
            final(self).x_direction is Neutral,
            final(self).y_direction is Neutral,
    {
        self.x_index = 0;
        self.y_index = 0;
        self.x_direction = ScanDirection::Neutral;
        self.y_direction = ScanDirection::Neutral;
    }

    /// Record the match at rendered column `j` of row `r` and move the
    /// cursor there, forcing the next scroll to bring it into view.
    fn commit(&mut self, r: usize, j: usize, buffer: &LineBuffer, view: &mut Viewport)
        requires
            buffer.wf(),
            r < buffer.rows().len(),
            old(view).wf(),
        ensures
            final(self).x_index == j,
            final(self).y_index == r,
            final(self).x_direction == old(self).x_direction,
            final(self).y_direction == old(self).y_direction,
            final(view).cursor_y == r,
            final(view).cursor_x == logical_of_rendered(buffer.rows()[r as int], j as int),
            final(view).cursor_x <= buffer.rows()[r as int].len(),
            final(view).row_offset == buffer.rows().len(),
            final(view).column_offset == old(view).column_offset,
            final(view).render_x == old(view).render_x,
            final(view).screen_rows == old(view).screen_rows,
            final(view).screen_columns == old(view).screen_columns,
            final(view).wf(),
            final(view).in_bounds(buffer.rows()),
    {
        self.y_index = r;
        self.x_index = j;
        view.cursor_y = r;
        view.cursor_x = rendered_to_logical(buffer.row_text(r), j);
        view.row_offset = buffer.line_count();
    }

    /// Scan every row from the top for the query's first occurrence.
    fn scan_all(&mut self, query: &Vec<char>, buffer: &LineBuffer, view: &mut Viewport)
        requires
            buffer.wf(),
            old(view).wf(),
            old(view).in_bounds(buffer.rows()),
        ensures
            final(self).x_direction == old(self).x_direction,
            final(self).y_direction == old(self).y_direction,
            final(view).wf(),
            final(view).in_bounds(buffer.rows()),
            search_outcome(
                SearchKey::Other,
                *old(self),
                *old(view),
                *final(self),
                *final(view),
                buffer.rows(),
                query@,
            ),
    {
        let n = buffer.line_count();
        let mut r: usize = 0;
        #[verifier::loop_isolation(false)]
        while r < n
            invariant
                r <= n,
                *self == *old(self),
                *view == *old(view),
                forall|r2: int| 0 <= r2 < r ==> !row_has_match(buffer.rows(), query@, r2),
            decreases n - r,
        {
            match find_from(buffer.rendered_row(r), query, 0) {
                Some(j) => {
                    self.commit(r, j, buffer, view);
                    proof {
                        assert(row_has_match(buffer.rows(), query@, r as int));
                    }
                    return;
                },
                None => {
                    proof {
                        assert(!row_has_match(buffer.rows(), query@, r as int));
                    }
                },
            }
            r = r + 1;
        }
    }

    /// Scan the rows below the current match row, nearest first.
    fn scan_down(&mut self, query: &Vec<char>, buffer: &LineBuffer, view: &mut Viewport)
        requires
            buffer.wf(),
            old(view).wf(),
            old(view).in_bounds(buffer.rows()),
        ensures
            final(self).x_direction == old(self).x_direction,
            final(self).y_direction == old(self).y_direction,
            final(view).wf(),
            final(view).in_bounds(buffer.rows()),
            search_outcome(
                SearchKey::Down,
                *old(self),
                *old(view),
                *final(self),
                *final(view),
                buffer.rows(),
                query@,
            ),
    {
        let n = buffer.line_count();
        let y0 = self.y_index;
        if y0 >= n {
            return;
        }
        let mut r: usize = y0 + 1;
        #[verifier::loop_isolation(false)]
        while r < n
            invariant
                y0 < r <= n,
                *self == *old(self),
                *view == *old(view),
                forall|r2: int| y0 < r2 < r ==> !row_has_match(buffer.rows(), query@, r2),
            decreases n - r,
        {
            match find_from(buffer.rendered_row(r), query, 0) {
                Some(j) => {
                    self.commit(r, j, buffer, view);
                    proof {
                        assert(row_has_match(buffer.rows(), query@, r as int));
                    }
                    return;
                },
                None => {
                    proof {
                        assert(!row_has_match(buffer.rows(), query@, r as int));
                    }
                },
            }
            r = r + 1;
        }
    }

    /// Scan the rows above the current match row, nearest first.
    fn scan_up(&mut self, query: &Vec<char>, buffer: &LineBuffer, view: &mut Viewport)
        requires
            buffer.wf(),
            old(view).wf(),
            old(view).in_bounds(buffer.rows()),
        ensures
            final(self).x_direction == old(self).x_direction,
            final(self).y_direction == old(self).y_direction,
            final(view).wf(),
            final(view).in_bounds(buffer.rows()),
            search_outcome(
                SearchKey::Up,
                *old(self),
                *old(view),
                *final(self),
                *final(view),
                buffer.rows(),
                query@,
            ),
    {
        let n = buffer.line_count();
        let y0 = self.y_index;
        if y0 == 0 || y0 > n {
            return;
        }
        let mut r: usize = y0;
        #[verifier::loop_isolation(false)]
        while r > 0
            invariant
                r <= y0,
                *self == *old(self),
                *view == *old(view),
                forall|r2: int| r <= r2 < y0 ==> !row_has_match(buffer.rows(), query@, r2),
            decreases r,
        {
            let cand = r - 1;
            match find_from(buffer.rendered_row(cand), query, 0) {
                Some(j) => {
                    self.commit(cand, j, buffer, view);
                    proof {
                        assert(row_has_match(buffer.rows(), query@, cand as int));
                    }
                    return;
                },
                None => {
                    proof {
                        assert(!row_has_match(buffer.rows(), query@, cand as int));
                    }
                },
            }
            r = cand;
        }
    }

    /// Scan the current match row for the next match after the current one.
    fn scan_right(&mut self, query: &Vec<char>, buffer: &LineBuffer, view: &mut Viewport)
        requires
            buffer.wf(),
            old(view).wf(),
            old(view).in_bounds(buffer.rows()),
        ensures
            final(self).x_direction == old(self).x_direction,
            final(self).y_direction == old(self).y_direction,
            final(view).wf(),
            final(view).in_bounds(buffer.rows()),
            search_outcome(
                SearchKey::Right,
                *old(self),
                *old(view),
                *final(self),
                *final(view),
                buffer.rows(),
                query@,
            ),
    {
        let n = buffer.line_count();
        let y0 = self.y_index;
        if y0 >= n {
            return;
        }
        let t = buffer.rendered_row(y0);
        let x0 = self.x_index;
        let from: usize = if x0 < t.len() {
            x0 + 1
        } else {
            t.len()
        };
        match find_from(t, query, from) {
            Some(j) => {
                self.commit(y0, j, buffer, view);
            },
            None => {},
        }
    }

    /// Scan the current match row for the last match before the current one.
    fn scan_left(&mut self, query: &Vec<char>, buffer: &LineBuffer, view: &mut Viewport)
        requires
            buffer.wf(),
            old(view).wf(),
            old(view).in_bounds(buffer.rows()),
        ensures
            final(self).x_direction == old(self).x_direction,
            final(self).y_direction == old(self).y_direction,
            final(view).wf(),
            final(view).in_bounds(buffer.rows()),
            search_outcome(
                SearchKey::Left,
                *old(self),
                *old(view),
                *final(self),
                *final(view),
                buffer.rows(),
                query@,
            ),
    {
        let n = buffer.line_count();
        let y0 = self.y_index;
        if y0 >= n {
            return;
        }
        let t = buffer.rendered_row(y0);
        let x0 = self.x_index;
        let end: usize = if x0 <= t.len() {
            x0
        } else {
            t.len()
        };
        match rfind_within(t, query, end) {
            Some(j) => {
                self.commit(y0, j, buffer, view);
            },
            None => {},
        }
    }

    /// Apply one search keystroke: Enter and Escape reset the state and
    /// leave the cursor to the session's owner; an arrow key sets the scan
    /// direction for its axis and steps to the neighbouring match; any other
    /// keystroke clears both directions and scans the whole buffer from the
    /// top with the query typed so far.
    pub fn keystroke(
        &mut self,
        key: SearchKey,
        query: &Vec<char>,
        buffer: &LineBuffer,
        view: &mut Viewport,
    )
        requires
            buffer.wf(),
            old(view).wf(),
            old(view).in_bounds(buffer.rows()),
        ensures
            final(view).wf(),
            final(view).in_bounds(buffer.rows()),
            (key is Enter || key is Escape) ==> final(self).x_index == 0 && final(self).y_index
                == 0 && final(self).x_direction is Neutral && final(self).y_direction is Neutral
                && *final(view) == *old(view),
            key is Other ==> final(self).x_direction is Neutral && final(self).y_direction is Neutral,
            key is Down ==> final(self).y_direction is Forward && final(self).x_direction is Neutral,
            key is Up ==> final(self).y_direction is Backward && final(self).x_direction is Neutral,
            key is Right ==> final(self).x_direction is Forward && final(self).y_direction is Neutral,
            key is Left ==> final(self).x_direction is Backward && final(self).y_direction is Neutral,
            search_outcome(
                key,
                *old(self),
                *old(view),
                *final(self),
                *final(view),
                buffer.rows(),
                query@,
            ),
    {
        match key {
            SearchKey::Enter | SearchKey::Escape => {
                self.reset();
            },
            _ => {
                self.y_direction = ScanDirection::Neutral;
                self.x_direction = ScanDirection::Neutral;
                match key {
                    SearchKey::Down => {
                        self.y_direction = ScanDirection::Forward;
                    },
                    SearchKey::Up => {
                        self.y_direction = ScanDirection::Backward;
                    },
                    SearchKey::Right => {
                        self.x_direction = ScanDirection::Forward;
                    },
                    SearchKey::Left => {
                        self.x_direction = ScanDirection::Backward;
                    },
                    _ => {},
                }
                match key {
                    SearchKey::Other => {
                        self.scan_all(query, buffer, view);
                    },
                    SearchKey::Down => {
                        self.scan_down(query, buffer, view);
                    },
                    SearchKey::Up => {
                        self.scan_up(query, buffer, view);
                    },
                    SearchKey::Right => {
                        self.scan_right(query, buffer, view);
                    },
                    SearchKey::Left => {
                        self.scan_left(query, buffer, view);
                    },
                    _ => {},
                }
            },
        }
    }
}

} // verus!
