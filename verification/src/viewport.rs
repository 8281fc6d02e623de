//! The viewport: cursor position, rendered cursor column, and the visible
//! window (row and column offsets) against a fixed screen size.
//!
//! `scroll` re-derives the rendered column and adjusts the offsets minimally
//! so that the cursor always lies inside the visible window; `move_cursor`
//! and `page_move` apply the navigation commands and clamp the cursor to the
//! buffer's bounds.

use vstd::prelude::*;

use crate::buffer::LineBuffer;
use crate::render::logical_to_rendered;
use crate::render::rendered_width;

verus! {

/// A one-step cursor movement command.
#[derive(Clone, Copy, Debug, PartialEq, Eq, Structural)]
pub enum Direction {
    Up,
    Down,
    Left,
    Right,
    Home,
    End,
}

/// A full-screen cursor jump command.
#[derive(Clone, Copy, Debug, PartialEq, Eq, Structural)]
pub enum PageDirection {
    Up,
    Down,
}

/// Length of row `y` of `rows`; the virtual row one past the last line is
/// empty.
pub open spec fn row_len(rows: Seq<Seq<char>>, y: int) -> int {
    if 0 <= y < rows.len() {
        rows[y].len() as int
    } else {
        0
    }
}

/// The smaller of two values.
pub open spec fn min_int(a: int, b: int) -> int {
    if a < b {
        a
    } else {
        b
    }
}

/// Cursor position, rendered cursor column, window offsets, and screen size.
#[derive(Clone, Copy)]
pub struct Viewport {
    /// Logical cursor column.
    pub cursor_x: usize,
    /// Logical cursor row; the row one past the last line is the valid
    /// "past last line" insertion point.
    pub cursor_y: usize,
    /// First visible buffer row.
    pub row_offset: usize,
    /// First visible rendered column.
    pub column_offset: usize,
    /// Rendered column of the cursor, re-derived by `scroll`.
    pub render_x: usize,
    /// Visible rows on screen.
    pub screen_rows: usize,
    /// Visible columns on screen.
    pub screen_columns: usize,
}

impl Viewport {
    /// The screen has at least one cell.
    pub open spec fn wf(self) -> bool {
        &&& self.screen_rows >= 1
        &&& self.screen_columns >= 1
    }

    /// The cursor lies within the bounds of `rows`: its row reaches at most
    /// one past the last line and its column at most the row's length.
    pub open spec fn in_bounds(self, rows: Seq<Seq<char>>) -> bool {
        &&& self.cursor_y <= rows.len()
        &&& self.cursor_x <= row_len(rows, self.cursor_y as int)
    }

    /// A viewport for the given screen size, at the origin.
    pub fn new(screen_rows: usize, screen_columns: usize) -> (v: Viewport)
        requires
            screen_rows >= 1,
            screen_columns >= 1,
        ensures
            v.wf(),
            v.cursor_x == 0,
            v.cursor_y == 0,
            v.row_offset == 0,
            v.column_offset == 0,
            v.render_x == 0,
            v.screen_rows == screen_rows,
            v.screen_columns == screen_columns,
    {
        Viewport {
            cursor_x: 0,
            cursor_y: 0,
            row_offset: 0,
            column_offset: 0,
            render_x: 0,
            screen_rows,
            screen_columns,
        }
    }
}

/// The cursor after one movement command: the raw move, then the column
/// clamped to the (possibly shorter) target row. Left at column 0 wraps to
/// the end of the row above; Right at the end of a row wraps to column 0 of
/// the row below; Up and Down saturate at the buffer's bounds.
pub open spec fn moved_cursor(dir: Direction, x: int, y: int, rows: Seq<Seq<char>>) -> (int, int) {
    let n = rows.len() as int;
    let raw = match dir {
        Direction::Up => (x, if y > 0 {
            y - 1
        } else {
            0
        }),
        Direction::Down => (x, if y < n {
            y + 1
        } else {
            y
        }),
        Direction::Left => if x > 0 {
            (x - 1, y)
        } else if y > 0 {
            (row_len(rows, y - 1), y - 1)
        } else {
            (0, 0)
        },
        Direction::Right => if y < n {
            if x < row_len(rows, y) {
                (x + 1, y)
            } else {
                (0, y + 1)
            }
        } else {
            (x, y)
        },
        Direction::Home => (0, y),
        Direction::End => (if y < n {
            row_len(rows, y)
        } else {
            x
        }, y),
    };
    (min_int(raw.0, row_len(rows, raw.1)), raw.1)
}

/// A window offset after scrolling towards position `pos` with a window of
/// `size` cells: moved back to `pos` when it had run past it, forward just
/// enough when `pos` had left the window ahead, otherwise unchanged.
pub open spec fn scrolled_offset(off: int, pos: int, size: int) -> int {
    let back = if off > pos {
        pos
    } else {
        off
    };
    if pos - back >= size {
        pos - size + 1
    } else {
        back
    }
}

impl Viewport {
    /// Apply one movement command against `buffer`, clamping the cursor
    /// column to the target row's length.
    pub fn move_cursor(&mut self, dir: Direction, buffer: &LineBuffer)
        requires
            old(self).wf(),
            buffer.wf(),
            old(self).in_bounds(buffer.rows()),
        ensures
            final(self).wf(),
            final(self).in_bounds(buffer.rows()),
            (final(self).cursor_x as int, final(self).cursor_y as int) == moved_cursor(
                dir,
                old(self).cursor_x as int,
                old(self).cursor_y as int,
                buffer.rows(),
            ),
            final(self).row_offset == old(self).row_offset,
            final(self).column_offset == old(self).column_offset,
            final(self).render_x == old(self).render_x,
            final(self).screen_rows == old(self).screen_rows,
            final(self).screen_columns == old(self).screen_columns,
    {
        let n = buffer.line_count();
        match dir {
            Direction::Up => {
                if self.cursor_y > 0 {
                    self.cursor_y = self.cursor_y - 1;
                }
            },
            Direction::Down => {
                if self.cursor_y < n {
                    self.cursor_y = self.cursor_y + 1;
                }
            },
            Direction::Left => {
                if self.cursor_x > 0 {
                    self.cursor_x = self.cursor_x - 1;
                } else if self.cursor_y > 0 {
                    self.cursor_y = self.cursor_y - 1;
                    self.cursor_x = if self.cursor_y < n {
                        buffer.line_len(self.cursor_y)
                    } else {
                        0
                    };
                }
            },
            Direction::Right => {
                if self.cursor_y < n {
                    if self.cursor_x < buffer.line_len(self.cursor_y) {
                        self.cursor_x = self.cursor_x + 1;
                    } else {
                        self.cursor_x = 0;
                        self.cursor_y = self.cursor_y + 1;
                    }
                }
            },
            Direction::Home => {
                self.cursor_x = 0;
            },
            Direction::End => {
                if self.cursor_y < n {
                    self.cursor_x = buffer.line_len(self.cursor_y);
                }
            },
        }
        let target_len: usize = if self.cursor_y < n {
            buffer.line_len(self.cursor_y)
        } else {
            0
        };
        if self.cursor_x > target_len {
            self.cursor_x = target_len;
        }
    }

    /// Re-derive the rendered cursor column and adjust both window offsets
    /// minimally so the cursor lies inside the visible window. Runs before
    /// every paint.
    pub fn scroll(&mut self, buffer: &LineBuffer)
        requires
            old(self).wf(),
            buffer.wf(),
            old(self).in_bounds(buffer.rows()),
        ensures
            final(self).wf(),
            final(self).in_bounds(buffer.rows()),
            final(self).cursor_x == old(self).cursor_x,
            final(self).cursor_y == old(self).cursor_y,
            final(self).screen_rows == old(self).screen_rows,
            final(self).screen_columns == old(self).screen_columns,
            final(self).render_x as int == (if old(self).cursor_y < buffer.rows().len() {
                rendered_width(
                    buffer.rows()[old(self).cursor_y as int],
                    old(self).cursor_x as int,
                )
            } else {
                0
            }),
            final(self).row_offset as int == scrolled_offset(
                old(self).row_offset as int,
                old(self).cursor_y as int,
                old(self).screen_rows as int,
            ),
            final(self).column_offset as int == scrolled_offset(
                old(self).column_offset as int,
                final(self).render_x as int,
                old(self).screen_columns as int,
            ),
            final(self).row_offset <= final(self).cursor_y,
            final(self).cursor_y < final(self).row_offset + final(self).screen_rows,
            final(self).column_offset <= final(self).render_x,
            final(self).render_x < final(self).column_offset + final(self).screen_columns,
    {
        let n = buffer.line_count();
        self.render_x = 0;
        if self.cursor_y < n {
            self.render_x = logical_to_rendered(buffer.row_text(self.cursor_y), self.cursor_x);
        }
        if self.row_offset > self.cursor_y {
            self.row_offset = self.cursor_y;
        }
        if self.cursor_y - self.row_offset >= self.screen_rows {
            self.row_offset = self.cursor_y - self.screen_rows + 1;
        }
        if self.column_offset > self.render_x {
            self.column_offset = self.render_x;
        }
        if self.render_x - self.column_offset >= self.screen_columns {
            self.column_offset = self.render_x - self.screen_columns + 1;
        }
    }

    /// Jump the cursor a full screen at once: to the top row of the window,
    /// or to its bottom row, clamped to the buffer's bounds; the column is
    /// clamped to the target row's length.
    pub fn page_move(&mut self, dir: PageDirection, buffer: &LineBuffer)
        requires
            old(self).wf(),
            buffer.wf(),
            old(self).in_bounds(buffer.rows()),
        ensures
            final(self).wf(),
            final(self).in_bounds(buffer.rows()),
            final(self).cursor_y as int == (if dir is Up {
                min_int(old(self).row_offset as int, buffer.rows().len() as int)
            } else {
                min_int(
                    min_int(old(self).row_offset as int, buffer.rows().len() as int) + old(
                        self).screen_rows as int - 1,
                    buffer.rows().len() as int,
                )
            }),
            final(self).cursor_x as int == min_int(
                old(self).cursor_x as int,
                row_len(buffer.rows(), final(self).cursor_y as int),
            ),
            final(self).row_offset == old(self).row_offset,
            final(self).column_offset == old(self).column_offset,
            final(self).render_x == old(self).render_x,
            final(self).screen_rows == old(self).screen_rows,
            final(self).screen_columns == old(self).screen_columns,
    {
        let n = buffer.line_count();
        let top: usize = if self.row_offset < n {
            self.row_offset
        } else {
            n
        };
        match dir {
            PageDirection::Up => {
                self.cursor_y = top;
            },
            PageDirection::Down => {
                if n - top < self.screen_rows {
                    self.cursor_y = n;
                } else {
                    self.cursor_y = top + self.screen_rows - 1;
                }
            },
        }
        let target_len: usize = if self.cursor_y < n {
            buffer.line_len(self.cursor_y)
        } else {
            0
        };
        if self.cursor_x > target_len {
            self.cursor_x = target_len;
        }
    }
}

} // verus!
