//! The editor core: one buffer, one viewport, and one search state, driven
//! by the logical commands the terminal shell decodes, and queried by the
//! shell for everything it paints.

use vstd::prelude::*;

use crate::buffer::bump;
use crate::buffer::rows_delete_char;
use crate::buffer::rows_insert_char;
use crate::buffer::rows_split_line;
use crate::buffer::LineBuffer;
use crate::render::rendered_width;
use crate::render::rendering;
use crate::render::MAX_CONTENT;
use crate::search::SearchState;
use crate::viewport::min_int;
use crate::viewport::row_len;
use crate::viewport::scrolled_offset;
use crate::viewport::Direction;
use crate::viewport::moved_cursor;
use crate::viewport::PageDirection;
use crate::viewport::Viewport;

verus! {

/// The visible part of a rendered line: up to `width` cells starting at
/// column `off`, clamped so no read falls outside the line.
pub open spec fn visible_slice(t: Seq<char>, off: int, width: int) -> Seq<char> {
    let len = if t.len() < off {
        0
    } else if t.len() - off > width {
        width
    } else {
        t.len() - off
    };
    let start = if len == 0 {
        0
    } else {
        off
    };
    t.subrange(start, start + len)
}

/// A viewport restored from a saved copy, its cursor clamped to the current
/// buffer bounds.
pub open spec fn restored_view(v: Viewport, rows: Seq<Seq<char>>) -> Viewport {
    let y = min_int(v.cursor_y as int, rows.len() as int);
    let x = min_int(v.cursor_x as int, row_len(rows, y));
    Viewport {
        cursor_x: x as usize,
        cursor_y: y as usize,
        row_offset: v.row_offset,
        column_offset: v.column_offset,
        render_x: v.render_x,
        screen_rows: v.screen_rows,
        screen_columns: v.screen_columns,
    }
}

/// The whole editor: buffer, viewport, search state, and the cursor saved
/// at the start of a search session.
pub struct Editor {
    /// The text being edited.
    pub buffer: LineBuffer,
    /// Cursor and visible window.
    pub view: Viewport,
    /// Incremental-search state.
    pub search: SearchState,
    /// The viewport captured when a search session started, restored if the
    /// session is cancelled.
    pub saved_view: Option<Viewport>,
}

/// Everything an edit operation leaves alone: the search state, the saved
/// viewport, the window offsets and screen size, and the file path.
pub open spec fn shell_state_unchanged(e0: Editor, e1: Editor) -> bool {
    &&& e1.search == e0.search
    &&& e1.saved_view == e0.saved_view
    &&& e1.view.row_offset == e0.view.row_offset
    &&& e1.view.column_offset == e0.view.column_offset
    &&& e1.view.render_x == e0.view.render_x
    &&& e1.view.screen_rows == e0.view.screen_rows
    &&& e1.view.screen_columns == e0.view.screen_columns
    &&& e1.buffer.path() == e0.buffer.path()
}

impl Editor {
    /// The buffer is well formed, the screen has at least one cell, the
    /// cursor lies within the buffer's bounds, and any saved viewport keeps
    /// a valid screen size.
    pub open spec fn wf(self) -> bool {
        &&& self.buffer.wf()
        &&& self.view.wf()
        &&& self.view.in_bounds(self.buffer.rows())
        &&& (match self.saved_view {
            Some(v) => v.wf(),
            None => true,
        })
    }

    /// An editor over an empty buffer.
    pub fn new(screen_rows: usize, screen_columns: usize) -> (e: Editor)
        requires
            screen_rows >= 1,
            screen_columns >= 1,
        ensures
            e.wf(),
            e.buffer.rows() == Seq::<Seq<char>>::empty(),
            e.buffer.path() is None,
            e.buffer.edits() == 0,
            e.view.cursor_x == 0,
            e.view.cursor_y == 0,
            e.view.row_offset == 0,
            e.view.column_offset == 0,
            e.view.screen_rows == screen_rows,
            e.view.screen_columns == screen_columns,
            e.saved_view is None,
    {
        Editor {
            buffer: LineBuffer::new(),
            view: Viewport::new(screen_rows, screen_columns),
            search: SearchState::new(),
            saved_view: None,
        }
    }

    /// An editor over an already loaded buffer, cursor at the origin.
    pub fn open(buffer: LineBuffer, screen_rows: usize, screen_columns: usize) -> (e: Editor)
        requires
            buffer.wf(),
            screen_rows >= 1,
            screen_columns >= 1,
        ensures
            e.wf(),
            e.buffer == buffer,
            e.view.cursor_x == 0,
            e.view.cursor_y == 0,
            e.view.row_offset == 0,
            e.view.column_offset == 0,
            e.view.screen_rows == screen_rows,
            e.view.screen_columns == screen_columns,
            e.saved_view is None,
    {
        Editor {
            buffer,
            view: Viewport::new(screen_rows, screen_columns),
            search: SearchState::new(),
            saved_view: None,
        }
    }

    /// Insert `ch` at the cursor and advance the cursor one column; at the
    /// virtual row past the last line a fresh line is appended first.
    pub fn insert_char(&mut self, ch: char)
        requires
            old(self).wf(),
            row_len(old(self).buffer.rows(), old(self).view.cursor_y as int) < MAX_CONTENT,
        ensures
            final(self).wf(),
            final(self).buffer.rows() == rows_insert_char(
                old(self).buffer.rows(),
                old(self).view.cursor_y as int,
                old(self).view.cursor_x as int,
                ch,
            ),
            final(self).view.cursor_x == old(self).view.cursor_x + 1,
            final(self).view.cursor_y == old(self).view.cursor_y,
            final(self).buffer.edits() == (if old(self).view.cursor_y == old(self).buffer.rows().len() {
                bump(bump(old(self).buffer.edits()))
            } else {
                bump(old(self).buffer.edits())
            }),
            shell_state_unchanged(*old(self), *final(self)),
    {
        let y = self.view.cursor_y;
        let x = self.view.cursor_x;
        self.buffer.insert_char(y, x, ch);
        self.view.cursor_x = x + 1;
        proof {
            let rows = old(self).buffer.rows();
            if y < rows.len() {
                assert(self.buffer.rows()[y as int] == rows[y as int].insert(x as int, ch));
            } else {
                assert(self.buffer.rows()[y as int] == seq![ch]);
            }
        }
    }

    /// Insert a line break at the cursor: split the current line (or append
    /// an empty line at the virtual row) and move the cursor to column 0 of
    /// the next row.
    pub fn insert_newline(&mut self)
        requires
            old(self).wf(),
        ensures
            final(self).wf(),
            final(self).buffer.rows() == (if old(self).view.cursor_y == old(self).buffer.rows().len() {
                old(self).buffer.rows().push(Seq::<char>::empty())
            } else {
                rows_split_line(
                    old(self).buffer.rows(),
                    old(self).view.cursor_y as int,
                    old(self).view.cursor_x as int,
                )
            }),
            final(self).view.cursor_x == 0,
            final(self).view.cursor_y == old(self).view.cursor_y + 1,
            final(self).buffer.edits() == bump(old(self).buffer.edits()),
            shell_state_unchanged(*old(self), *final(self)),
    {
        let y = self.view.cursor_y;
        let x = self.view.cursor_x;
        let n = self.buffer.line_count();
        if y == n {
            self.buffer.insert_line(y, Vec::new());
            proof {
                old(self).buffer.rows().insert_ensures(y as int, Seq::<char>::empty());
                assert(self.buffer.rows() =~~= old(self).buffer.rows().push(
                    Seq::<char>::empty(),
                ));
            }
        } else {
            self.buffer.split_line(y, x);
        }
        let n2 = self.buffer.line_count();
        assert(y < n2);
        self.view.cursor_x = 0;
        self.view.cursor_y = y + 1;
    }

    /// Delete backward at the cursor: remove the character left of it, or at
    /// column 0 join the current line into the line above, the cursor moving
    /// to the join point; at (0, 0) or at the virtual row, do nothing.
    pub fn delete_backward(&mut self)
        requires
            old(self).wf(),
            (old(self).view.cursor_x == 0 && 0 < old(self).view.cursor_y < old(self).buffer.rows().len()) ==> old(self).buffer.rows()[old(self).view.cursor_y as int
                - 1].len() + old(self).buffer.rows()[old(self).view.cursor_y as int].len()
                <= MAX_CONTENT,
        ensures
            final(self).wf(),
            shell_state_unchanged(*old(self), *final(self)),
            old(self).view.cursor_y == old(self).buffer.rows().len() || (old(self).view.cursor_x
                == 0 && old(self).view.cursor_y == 0) ==> final(self).buffer.rows() == old(self).buffer.rows() && final(self).view == old(self).view && final(self).buffer.edits()
                == old(self).buffer.edits(),
            (old(self).view.cursor_y < old(self).buffer.rows().len() && old(self).view.cursor_x
                > 0) ==> final(self).buffer.rows() == rows_delete_char(
                old(self).buffer.rows(),
                old(self).view.cursor_y as int,
                old(self).view.cursor_x as int,
            ) && final(self).view.cursor_x == old(self).view.cursor_x - 1 && final(self).view.cursor_y == old(self).view.cursor_y && final(self).buffer.edits() == bump(
                old(self).buffer.edits(),
            ),
            (old(self).view.cursor_y < old(self).buffer.rows().len() && old(self).view.cursor_x
                == 0 && old(self).view.cursor_y > 0) ==> final(self).buffer.rows()
                == rows_delete_char(
                old(self).buffer.rows(),
                old(self).view.cursor_y as int,
                0,
            ) && final(self).view.cursor_x == old(self).buffer.rows()[old(self).view.cursor_y
                as int - 1].len() && final(self).view.cursor_y == old(self).view.cursor_y - 1
                && final(self).buffer.edits() == bump(old(self).buffer.edits()),
    {
        let y = self.view.cursor_y;
        let x = self.view.cursor_x;
        let n = self.buffer.line_count();
        if y == n {
            return;
        }
        if x > 0 {
            self.buffer.delete_char(y, x);
            self.view.cursor_x = x - 1;
        } else if y > 0 {
            let plen = self.buffer.line_len(y - 1);
            self.buffer.delete_char(y, 0);
            self.view.cursor_x = plen;
            self.view.cursor_y = y - 1;
            proof {
                assert(self.buffer.rows()[y as int - 1] == old(self).buffer.rows()[y as int - 1]
                    + old(self).buffer.rows()[y as int]);
            }
        }
    }

    /// Delete forward at the cursor: step right, then delete backward, so
    /// the character under the cursor goes, or the next line is joined up
    /// when the cursor sits at the end of a line.
    pub fn delete_forward(&mut self)
        requires
            old(self).wf(),
            (old(self).view.cursor_y < old(self).buffer.rows().len() && old(self).view.cursor_x
                == old(self).buffer.rows()[old(self).view.cursor_y as int].len() && old(self).view.cursor_y + 1 < old(self).buffer.rows().len()) ==> old(self).buffer.rows()[old(self).view.cursor_y as int].len() + old(self).buffer.rows()[old(self).view.cursor_y as int
                + 1].len() <= MAX_CONTENT,
        ensures
            final(self).wf(),
            shell_state_unchanged(*old(self), *final(self)),
            old(self).view.cursor_y == old(self).buffer.rows().len() ==> final(self).buffer.rows() == old(self).buffer.rows() && final(self).view == old(self).view
                && final(self).buffer.edits() == old(self).buffer.edits(),
            (old(self).view.cursor_y < old(self).buffer.rows().len() && old(self).view.cursor_x
                < old(self).buffer.rows()[old(self).view.cursor_y as int].len()) ==> final(self).buffer.rows() == rows_delete_char(
                old(self).buffer.rows(),
                old(self).view.cursor_y as int,
                old(self).view.cursor_x as int + 1,
            ) && final(self).view.cursor_x == old(self).view.cursor_x && final(self).view.cursor_y == old(self).view.cursor_y && final(self).buffer.edits() == bump(
                old(self).buffer.edits(),
            ),
            (old(self).view.cursor_y < old(self).buffer.rows().len() && old(self).view.cursor_x
                == old(self).buffer.rows()[old(self).view.cursor_y as int].len() && old(self).view.cursor_y + 1 == old(self).buffer.rows().len()) ==> final(self).buffer.rows()
                == old(self).buffer.rows() && final(self).view.cursor_x == 0 && final(self).view.cursor_y == old(self).view.cursor_y + 1 && final(self).buffer.edits() == old(self).buffer.edits(),
            (old(self).view.cursor_y < old(self).buffer.rows().len() && old(self).view.cursor_x
                == old(self).buffer.rows()[old(self).view.cursor_y as int].len() && old(self).view.cursor_y + 1 < old(self).buffer.rows().len()) ==> final(self).buffer.rows()
                == rows_delete_char(
                old(self).buffer.rows(),
                old(self).view.cursor_y as int + 1,
                0,
            ) && final(self).view.cursor_x == old(self).view.cursor_x && final(self).view.cursor_y == old(self).view.cursor_y && final(self).buffer.edits() == bump(
                old(self).buffer.edits(),
            ),
    {
        self.move_cursor(Direction::Right);
        self.delete_backward();
    }

    /// Apply one cursor movement command.
    pub fn move_cursor(&mut self, dir: Direction)
        requires
            old(self).wf(),
        ensures
            final(self).wf(),
            (final(self).view.cursor_x as int, final(self).view.cursor_y as int) == moved_cursor(
                dir,
                old(self).view.cursor_x as int,
                old(self).view.cursor_y as int,
                old(self).buffer.rows(),
            ),
            final(self).buffer == old(self).buffer,
            shell_state_unchanged(*old(self), *final(self)),
    {
        self.view.move_cursor(dir, &self.buffer);
    }

    /// Jump the cursor a full screen up or down.
    pub fn page_move(&mut self, dir: PageDirection)
        requires
            old(self).wf(),
        ensures
            final(self).wf(),
            final(self).view.cursor_y as int == (if dir is Up {
                min_int(old(self).view.row_offset as int, old(self).buffer.rows().len() as int)
            } else {
                min_int(
                    min_int(
                        old(self).view.row_offset as int,
                        old(self).buffer.rows().len() as int,
                    ) + old(self).view.screen_rows as int - 1,
                    old(self).buffer.rows().len() as int,
                )
            }),
            final(self).view.cursor_x as int == min_int(
                old(self).view.cursor_x as int,
                row_len(old(self).buffer.rows(), final(self).view.cursor_y as int),
            ),
            final(self).buffer == old(self).buffer,
            shell_state_unchanged(*old(self), *final(self)),
    {
        self.view.page_move(dir, &self.buffer);
    }

    /// Re-derive the rendered cursor column and scroll the window so the
    /// cursor is visible. Runs before every paint.
    pub fn scroll(&mut self)
        requires
            old(self).wf(),
        ensures
            final(self).wf(),
            final(self).buffer == old(self).buffer,
            final(self).search == old(self).search,
            final(self).saved_view == old(self).saved_view,
            final(self).view.cursor_x == old(self).view.cursor_x,
            final(self).view.cursor_y == old(self).view.cursor_y,
            final(self).view.screen_rows == old(self).view.screen_rows,
            final(self).view.screen_columns == old(self).view.screen_columns,
            final(self).view.render_x as int == (if old(self).view.cursor_y < old(self).buffer.rows().len() {
                rendered_width(
                    old(self).buffer.rows()[old(self).view.cursor_y as int],
                    old(self).view.cursor_x as int,
                )
            } else {
                0
            }),
            final(self).view.row_offset as int == scrolled_offset(
                old(self).view.row_offset as int,
                old(self).view.cursor_y as int,
                old(self).view.screen_rows as int,
            ),
            final(self).view.column_offset as int == scrolled_offset(
                old(self).view.column_offset as int,
                final(self).view.render_x as int,
                old(self).view.screen_columns as int,
            ),
            final(self).view.row_offset <= final(self).view.cursor_y,
            final(self).view.cursor_y < final(self).view.row_offset + final(self).view.screen_rows,
            final(self).view.column_offset <= final(self).view.render_x,
            final(self).view.render_x < final(self).view.column_offset + final(self).view.screen_columns,
    {
        self.view.scroll(&self.buffer);
    }

    /// Start a search session: fresh search state, the current viewport
    /// saved for a possible cancel.
    pub fn start_search(&mut self)
        requires
            old(self).wf(),
        ensures
            final(self).wf(),
            final(self).search.x_index == 0,
            final(self).search.y_index == 0,
            final(self).search.x_direction is Neutral,
            final(self).search.y_direction is Neutral,
            final(self).saved_view == Some(old(self).view),
            final(self).buffer == old(self).buffer,
            final(self).view == old(self).view,
    {
        self.search = SearchState::new();
        self.saved_view = Some(self.view);
    }

    /// Accept the current match and end the session: the search state is
    /// reset and the cursor stays on the match.
    pub fn accept_search(&mut self)
        requires
            old(self).wf(),
        ensures
            final(self).wf(),
            final(self).search.x_index == 0,
            final(self).search.y_index == 0,
            final(self).search.x_direction is Neutral,
            final(self).search.y_direction is Neutral,
            final(self).saved_view is None,
            final(self).buffer == old(self).buffer,
            final(self).view == old(self).view,
    {
        self.search.reset();
        self.saved_view = None;
    }

    /// Cancel the session: the search state is reset and the viewport saved
    /// at the session's start is restored, its cursor clamped to the current
    /// buffer bounds.
    pub fn cancel_search(&mut self)
        requires
            old(self).wf(),
        ensures
            final(self).wf(),
            final(self).search.x_index == 0,
            final(self).search.y_index == 0,
            final(self).search.x_direction is Neutral,
            final(self).search.y_direction is Neutral,
            final(self).saved_view is None,
            final(self).buffer == old(self).buffer,
            final(self).view == (match old(self).saved_view {
                Some(v) => restored_view(v, old(self).buffer.rows()),
                None => old(self).view,
            }),
    {
        match self.saved_view {
            Some(v) => {
                let n = self.buffer.line_count();
                let y: usize = if v.cursor_y < n {
                    v.cursor_y
                } else {
                    n
                };
                let len: usize = if y < n {
                    self.buffer.line_len(y)
                } else {
                    0
                };
                let x: usize = if v.cursor_x < len {
                    v.cursor_x
                } else {
                    len
                };
                self.view =
                Viewport {
                    cursor_x: x,
                    cursor_y: y,
                    row_offset: v.row_offset,
                    column_offset: v.column_offset,
                    render_x: v.render_x,
                    screen_rows: v.screen_rows,
                    screen_columns: v.screen_columns,
                };
            },
            None => {},
        }
        self.search.reset();
        self.saved_view = None;
    }

    /// The visible slice of the buffer row shown on screen row `screen_row`,
    /// or nothing when that screen row lies past the last line.
    pub fn visible_row(&self, screen_row: usize) -> (r: Option<Vec<char>>)
        requires
            self.wf(),
        ensures
            r is Some <==> self.view.row_offset + screen_row < self.buffer.rows().len(),
            r is Some ==> r->Some_0@ == visible_slice(
                rendering(
                    self.buffer.rows()[self.view.row_offset as int + screen_row as int],
                ),
                self.view.column_offset as int,
                self.view.screen_columns as int,
            ),
    {
        let n = self.buffer.line_count();
        if self.view.row_offset >= n {
            return None;
        }
        if screen_row >= n - self.view.row_offset {
            return None;
        }
        let file_row = self.view.row_offset + screen_row;
        let t = self.buffer.rendered_row(file_row);
        let tlen = t.len();
        let off = self.view.column_offset;
        let len: usize = if tlen < off {
            0
        } else if tlen - off > self.view.screen_columns {
            self.view.screen_columns
        } else {
            tlen - off
        };
        let start: usize = if len == 0 {
            0
        } else {
            off
        };
        Some(crate::buffer::copy_range(t, start, start + len))
    }

    /// The cursor's screen-relative position `(column, row)`; each
    /// coordinate saturates at zero when the window has not caught up yet.
    pub fn cursor_screen_position(&self) -> (p: (usize, usize))
        ensures
            p.0 as int == (if self.view.render_x >= self.view.column_offset {
                self.view.render_x - self.view.column_offset
            } else {
                0
            }),
            p.1 as int == (if self.view.cursor_y >= self.view.row_offset {
                self.view.cursor_y - self.view.row_offset
            } else {
                0
            }),
    {
        let col: usize = if self.view.render_x >= self.view.column_offset {
            self.view.render_x - self.view.column_offset
        } else {
            0
        };
        let row: usize = if self.view.cursor_y >= self.view.row_offset {
            self.view.cursor_y - self.view.row_offset
        } else {
            0
        };
        (col, row)
    }
}

} // verus!
