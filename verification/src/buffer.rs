//! The line buffer: an ordered sequence of logical lines, each with a cached
//! rendered form, plus the associated file path and the count of unsaved
//! edits.
//!
//! Every mutation re-derives the affected lines' rendered caches before it
//! returns, so readers never see a stale render.

use vstd::prelude::*;

use crate::render::rendering;
use crate::render::render_line;
use crate::render::MAX_CONTENT;

verus! {

/// Errors the editor reports to its caller; both are recoverable.
#[derive(Clone, Copy, Debug, PartialEq, Eq, Structural)]
pub enum EditorError {
    /// A file could not be read or written.
    Io,
    /// A save was attempted with no associated file path.
    NoFileName,
}

/// One logical row: its characters plus the cached rendered form.
pub struct Line {
    content: Vec<char>,
    rendered: Vec<char>,
}

impl Line {
    /// The logical characters of the line.
    pub closed spec fn text(self) -> Seq<char> {
        self.content@
    }

    /// The cached rendered form of the line.
    pub closed spec fn shown(self) -> Seq<char> {
        self.rendered@
    }

    /// The rendered cache is the tab expansion of the content, and the
    /// content is short enough for the coordinate math.
    pub open spec fn wf(self) -> bool {
        &&& self.shown() == rendering(self.text())
        &&& self.text().len() <= MAX_CONTENT
    }

    /// A line over the given characters, its rendered form derived at once.
    pub fn new(content: Vec<char>) -> (l: Line)
        requires
            content@.len() <= MAX_CONTENT,
        ensures
            l.wf(),
            l.text() == content@,
    {
        let rendered = render_line(&content);
        Line { content, rendered }
    }

    /// The logical characters.
    pub fn content(&self) -> (r: &Vec<char>)
        ensures
            r@ == self.text(),
    {
        &self.content
    }

    /// The rendered characters.
    pub fn rendered(&self) -> (r: &Vec<char>)
        ensures
            r@ == self.shown(),
    {
        &self.rendered
    }

    /// Number of logical characters.
    pub fn len(&self) -> (n: usize)
        ensures
            n == self.text().len(),
    {
        self.content.len()
    }

    /// Insert `ch` at logical column `at` and re-render.
    fn insert_at(&mut self, at: usize, ch: char)
        requires
            old(self).wf(),
            at <= old(self).text().len(),
            old(self).text().len() < MAX_CONTENT,
        ensures
            final(self).wf(),
            final(self).text() == old(self).text().insert(at as int, ch),
    {
        self.content.insert(at, ch);
        self.rendered = render_line(&self.content);
    }

    /// Remove the character at logical column `at` and re-render.
    fn delete_at(&mut self, at: usize)
        requires
            old(self).wf(),
            at < old(self).text().len(),
        ensures
            final(self).wf(),
            final(self).text() == old(self).text().remove(at as int),
    {
        self.content.remove(at);
        self.rendered = render_line(&self.content);
    }

    /// Truncate at logical column `at`, re-render, and hand back the rest.
    fn split_at(&mut self, at: usize) -> (tail: Vec<char>)
        requires
            old(self).wf(),
            at <= old(self).text().len(),
        ensures
            final(self).wf(),
            final(self).text() == old(self).text().take(at as int),
            tail@ == old(self).text().skip(at as int),
    {
        let tail = self.content.split_off(at);
        self.rendered = render_line(&self.content);
        tail
    }

    /// Append the given characters and re-render.
    fn append_chars(&mut self, tail: &Vec<char>)
        requires
            old(self).wf(),
            old(self).text().len() + tail@.len() <= MAX_CONTENT,
        ensures
            final(self).wf(),
            final(self).text() == old(self).text() + tail@,
    {
        let n: usize = tail.len();
        let mut i: usize = 0;
        #[verifier::loop_isolation(false)]
        while i < n
            invariant
                i <= n,
                self.content@ == old(self).text() + tail@.take(i as int),
                self.rendered == old(self).rendered,
            decreases n - i,
        {
            self.content.push(tail[i]);
            proof {
                assert(old(self).text() + tail@.take(i as int + 1) =~= (old(self).text()
                    + tail@.take(i as int)).push(tail@[i as int]));
            }
            i = i + 1;
        }
        proof {
            assert(tail@.take(n as int) =~= tail@);
        }
        self.rendered = render_line(&self.content);
    }
}

/// One more recorded edit; the counter sticks at its maximum.
pub open spec fn bump(d: u64) -> u64 {
    if d < u64::MAX {
        (d + 1) as u64
    } else {
        d
    }
}

/// Rows after inserting a line of content `s` at index `at`.
pub open spec fn rows_insert_line(rows: Seq<Seq<char>>, at: int, s: Seq<char>) -> Seq<Seq<char>> {
    rows.insert(at, s)
}

/// Rows after inserting `ch` at column `col` of row `row`; at the virtual
/// row one past the last line, a fresh line holding `ch` is appended.
pub open spec fn rows_insert_char(
    rows: Seq<Seq<char>>,
    row: int,
    col: int,
    ch: char,
) -> Seq<Seq<char>> {
    if row == rows.len() {
        rows.push(seq![ch])
    } else {
        rows.update(row, rows[row].insert(col, ch))
    }
}

/// Rows after splitting row `row` at column `col`: the row keeps its first
/// `col` characters and the remainder becomes the row below.
pub open spec fn rows_split_line(rows: Seq<Seq<char>>, row: int, col: int) -> Seq<Seq<char>> {
    rows.update(row, rows[row].take(col)).insert(row + 1, rows[row].skip(col))
}

/// Rows after a backward deletion at (`row`, `col`): the character left of
/// `col` goes; at column 0, row `row` is joined into the row above; at
/// (0, 0) nothing changes.
pub open spec fn rows_delete_char(rows: Seq<Seq<char>>, row: int, col: int) -> Seq<Seq<char>> {
    if col > 0 {
        rows.update(row, rows[row].remove(col - 1))
    } else if row > 0 {
        rows.update(row - 1, rows[row - 1] + rows[row]).remove(row)
    } else {
        rows
    }
}

/// The logical content of a sequence of lines.
pub open spec fn rows_of(lines: Seq<Line>) -> Seq<Seq<char>> {
    lines.map_values(|l: Line| l.text())
}

/// The ordered sequence of lines, the associated file path, and the count of
/// unsaved edits.
pub struct LineBuffer {
    lines: Vec<Line>,
    filename: Option<String>,
    dirty: u64,
}

impl LineBuffer {
    /// The logical content: one character sequence per line.
    pub closed spec fn rows(self) -> Seq<Seq<char>> {
        rows_of(self.lines@)
    }

    /// The associated file path, as its characters.
    pub closed spec fn path(self) -> Option<Seq<char>> {
        match self.filename {
            Some(s) => Some(s@),
            None => None,
        }
    }

    /// The count of unsaved edits.
    pub closed spec fn edits(self) -> u64 {
        self.dirty
    }

    /// Every line's rendered cache is current and every line is short enough
    /// for the coordinate math.
    pub closed spec fn wf(self) -> bool {
        forall|i: int| 0 <= i < self.lines@.len() ==> (#[trigger] self.lines@[i]).wf()
    }

    /// An empty buffer: zero lines, no path, no edits.
    pub fn new() -> (b: LineBuffer)
        ensures
            b.wf(),
            b.rows() == Seq::<Seq<char>>::empty(),
            b.path() is None,
            b.edits() == 0,
    {
        let b = LineBuffer { lines: Vec::new(), filename: None, dirty: 0 };
        proof {
            assert(b.rows() =~= Seq::<Seq<char>>::empty());
        }
        b
    }

    /// Number of lines.
    pub fn line_count(&self) -> (n: usize)
        ensures
            n == self.rows().len(),
    {
        self.lines.len()
    }

    /// Length of line `at`.
    pub fn line_len(&self, at: usize) -> (n: usize)
        requires
            at < self.rows().len(),
        ensures
            n == self.rows()[at as int].len(),
    {
        self.lines[at].len()
    }

    /// The logical characters of line `at`.
    pub fn row_text(&self, at: usize) -> (r: &Vec<char>)
        requires
            self.wf(),
            at < self.rows().len(),
        ensures
            r@ == self.rows()[at as int],
            r@.len() <= MAX_CONTENT,
    {
        self.lines[at].content()
    }

    /// The rendered characters of line `at`.
    pub fn rendered_row(&self, at: usize) -> (r: &Vec<char>)
        requires
            self.wf(),
            at < self.rows().len(),
        ensures
            r@ == rendering(self.rows()[at as int]),
    {
        self.lines[at].rendered()
    }

    /// The count of unsaved edits.
    pub fn dirty(&self) -> (d: u64)
        ensures
            d == self.edits(),
    {
        self.dirty
    }

    /// Whether a file path is associated.
    pub fn has_path(&self) -> (b: bool)
        ensures
            b == self.path() is Some,
    {
        match &self.filename {
            Some(_) => true,
            None => false,
        }
    }

    /// The associated file path, if any.
    pub fn path_name(&self) -> (r: &Option<String>)
        ensures
            (match r {
                Some(s) => self.path() == Some(s@),
                None => self.path() is None,
            }),
    {
        &self.filename
    }

    /// Associate the file path `name`.
    pub fn set_path(&mut self, name: String)
        requires
            old(self).wf(),
        ensures
            final(self).wf(),
            final(self).path() == Some(name@),
            final(self).rows() == old(self).rows(),
            final(self).edits() == old(self).edits(),
    {
        self.filename = Some(name);
    }

    /// Record a successful save: the edit counter returns to zero.
    pub fn mark_saved(&mut self)
        requires
            old(self).wf(),
        ensures
            final(self).wf(),
            final(self).edits() == 0,
            final(self).rows() == old(self).rows(),
            final(self).path() == old(self).path(),
    {
        self.dirty = 0;
    }

    /// Count one edit.
    fn bump_dirty(&mut self)
        ensures
            final(self).dirty == bump(old(self).dirty),
            final(self).lines == old(self).lines,
            final(self).filename == old(self).filename,
    {
        if self.dirty < u64::MAX {
            self.dirty = self.dirty + 1;
        }
    }

    /// Insert a new line of the given content at index `at`, shifting the
    /// lines below it down.
    pub fn insert_line(&mut self, at: usize, content: Vec<char>)
        requires
            old(self).wf(),
            at <= old(self).rows().len(),
            content@.len() <= MAX_CONTENT,
        ensures
            final(self).wf(),
            final(self).rows() == rows_insert_line(old(self).rows(), at as int, content@),
            final(self).path() == old(self).path(),
            final(self).edits() == bump(old(self).edits()),
    {
        let ghost old_lines = self.lines@;
        let line = Line::new(content);
        self.lines.insert(at, line);
        self.bump_dirty();
        proof {
            assert(self.rows() =~= rows_of(old_lines).insert(at as int, line.text()));
        }
    }

    /// Insert `ch` into line `row` at logical column `col`; at the virtual
    /// row one past the last line, a fresh line is appended first.
    pub fn insert_char(&mut self, row: usize, col: usize, ch: char)
        requires
            old(self).wf(),
            row <= old(self).rows().len(),
            row < old(self).rows().len() ==> col <= old(self).rows()[row as int].len(),
            row < old(self).rows().len() ==> old(self).rows()[row as int].len() < MAX_CONTENT,
            row == old(self).rows().len() ==> col == 0,
        ensures
            final(self).wf(),
            final(self).rows() == rows_insert_char(old(self).rows(), row as int, col as int, ch),
            final(self).path() == old(self).path(),
            final(self).edits() == (if row == old(self).rows().len() {
                bump(bump(old(self).edits()))
            } else {
                bump(old(self).edits())
            }),
    {
        let appended = row == self.lines.len();
        if appended {
            self.insert_line(row, Vec::new());
            proof {
                old(self).rows().insert_ensures(row as int, Seq::<char>::empty());
                assert(self.rows()[row as int] =~= Seq::<char>::empty());
            }
        }
        proof {
            assert(self.lines@[row as int].text() == self.rows()[row as int]);
        }
        let ghost mid_lines = self.lines@;
        let line = &mut self.lines[row];
        line.insert_at(col, ch);
        self.bump_dirty();
        proof {
            if appended {
                let mid_rows = old(self).rows().insert(row as int, Seq::<char>::empty());
                assert(rows_of(mid_lines) == mid_rows);
                assert forall|i: int| 0 <= i < row implies #[trigger] self.rows()[i] == old(
                    self,
                ).rows()[i] by {
                    assert(mid_rows[i] == old(self).rows()[i]);
                    assert(self.lines@[i] == mid_lines[i]);
                    assert(rows_of(mid_lines)[i] == mid_lines[i].text());
                }
                assert(mid_rows[row as int] == Seq::<char>::empty());
                assert(rows_of(mid_lines)[row as int] == mid_lines[row as int].text());
                assert(Seq::<char>::empty().insert(0, ch) =~= seq![ch]);
                assert(self.rows()[row as int] == self.lines@[row as int].text());
                assert(self.rows() =~~= old(self).rows().push(seq![ch]));
            } else {
                assert(self.rows() =~= old(self).rows().update(
                    row as int,
                    old(self).rows()[row as int].insert(col as int, ch),
                ));
            }
        }
    }

    /// Split line `row` at column `col`: the line keeps its first `col`
    /// characters and the remainder becomes a new line below it.
    pub fn split_line(&mut self, row: usize, col: usize)
        requires
            old(self).wf(),
            row < old(self).rows().len(),
            col <= old(self).rows()[row as int].len(),
        ensures
            final(self).wf(),
            final(self).rows() == rows_split_line(old(self).rows(), row as int, col as int),
            final(self).path() == old(self).path(),
            final(self).edits() == bump(old(self).edits()),
    {
        let n: usize = self.lines.len();
        assert(row < n);
        let line = &mut self.lines[row];
        let tail = line.split_at(col);
        let newline = Line::new(tail);
        self.lines.insert(row + 1, newline);
        self.bump_dirty();
        proof {
            assert(self.rows() =~= rows_split_line(old(self).rows(), row as int, col as int));
        }
    }

    /// Backward deletion at (`row`, `col`): remove the character left of
    /// `col`, or at column 0 join line `row` into the line above; at (0, 0)
    /// do nothing.
    pub fn delete_char(&mut self, row: usize, col: usize)
        requires
            old(self).wf(),
            row < old(self).rows().len(),
            col <= old(self).rows()[row as int].len(),
            (col == 0 && row > 0) ==> old(self).rows()[row as int - 1].len() + old(
                self,
            ).rows()[row as int].len() <= MAX_CONTENT,
        ensures
            final(self).wf(),
            final(self).rows() == rows_delete_char(old(self).rows(), row as int, col as int),
            final(self).path() == old(self).path(),
            final(self).edits() == (if row == 0 && col == 0 {
                old(self).edits()
            } else {
                bump(old(self).edits())
            }),
    {
        if col > 0 {
            let line = &mut self.lines[row];
            line.delete_at(col - 1);
            self.bump_dirty();
            proof {
                assert(self.rows() =~= rows_delete_char(
                    old(self).rows(),
                    row as int,
                    col as int,
                ));
            }
        } else if row > 0 {
            let removed = self.lines.remove(row);
            let prev = &mut self.lines[row - 1];
            prev.append_chars(removed.content());
            self.bump_dirty();
            proof {
                assert(self.rows() =~= rows_delete_char(
                    old(self).rows(),
                    row as int,
                    col as int,
                ));
            }
        }
    }
}

/// The lines of `text`: split at each newline, the terminator excluded; a
/// trailing newline produces no phantom empty final line.
pub open spec fn split_lines(text: Seq<char>) -> Seq<Seq<char>>
    decreases text.len(),
{
    if text.len() == 0 {
        Seq::empty()
    } else if text[0] == '\n' {
        seq![Seq::<char>::empty()] + split_lines(text.skip(1))
    } else {
        let rest = split_lines(text.skip(1));
        if rest.len() == 0 {
            seq![seq![text[0]]]
        } else {
            seq![seq![text[0]] + rest[0]] + rest.skip(1)
        }
    }
}

/// The on-disk form of the rows: lines joined with a newline separator and
/// no final newline appended.
pub open spec fn join_lines(rows: Seq<Seq<char>>) -> Seq<char>
    decreases rows.len(),
{
    if rows.len() == 0 {
        Seq::empty()
    } else if rows.len() == 1 {
        rows[0]
    } else {
        rows[0] + seq!['\n'] + join_lines(rows.skip(1))
    }
}

proof fn lemma_split_lines_nonempty(text: Seq<char>)
    requires
        text.len() > 0,
    ensures
        split_lines(text).len() > 0,
{
}

proof fn lemma_split_lines_at_newline(text: Seq<char>, j: int)
    requires
        0 <= j < text.len(),
        text[j] == '\n',
        forall|i: int| 0 <= i < j ==> text[i] != '\n',
    ensures
        split_lines(text) == seq![text.take(j)] + split_lines(text.skip(j + 1)),
    decreases j,
{
    if j == 0 {
        assert(text.take(0) =~= Seq::<char>::empty());
        assert(split_lines(text) =~~= seq![text.take(0)] + split_lines(text.skip(1)));
    } else {
        let t1 = text.skip(1);
        lemma_split_lines_at_newline(t1, j - 1);
        let rest = split_lines(t1);
        assert(rest[0] == t1.take(j - 1));
        assert(rest.len() > 0);
        assert(seq![text[0]] + rest[0] =~= text.take(j));
        assert(rest.skip(1) =~= split_lines(t1.skip(j)));
        assert(t1.skip(j) =~= text.skip(j + 1));
        assert(split_lines(text) =~~= seq![text.take(j)] + split_lines(text.skip(j + 1)));
    }
}

proof fn lemma_split_lines_no_newline(text: Seq<char>)
    requires
        text.len() > 0,
        forall|i: int| 0 <= i < text.len() ==> text[i] != '\n',
    ensures
        split_lines(text) == seq![text],
    decreases text.len(),
{
    let t1 = text.skip(1);
    if t1.len() == 0 {
        assert(split_lines(t1) =~= Seq::<Seq<char>>::empty());
        assert(seq![text[0]] =~= text);
        assert(split_lines(text) =~~= seq![text]);
    } else {
        lemma_split_lines_no_newline(t1);
        assert(seq![text[0]] + t1 =~= text);
        assert(split_lines(t1).len() == 1);
        assert(split_lines(t1)[0] == t1);
        assert(split_lines(t1).skip(1) =~= Seq::<Seq<char>>::empty());
        assert(split_lines(text) == seq![seq![text[0]] + split_lines(t1)[0]] + split_lines(
            t1,
        ).skip(1));
        assert(split_lines(text) =~~= seq![text]);
    }
}

/// Copy of the characters of `text` from `from` (inclusive) to `to`
/// (exclusive).
pub(crate) fn copy_range(text: &Vec<char>, from: usize, to: usize) -> (r: Vec<char>)
    requires
        from <= to <= text@.len(),
    ensures
        r@ == text@.subrange(from as int, to as int),
{
    let mut out: Vec<char> = Vec::new();
    let mut i: usize = from;
    #[verifier::loop_isolation(false)]
    while i < to
        invariant
            from <= i <= to,
            out@ == text@.subrange(from as int, i as int),
        decreases to - i,
    {
        out.push(text[i]);
        proof {
            assert(text@.subrange(from as int, i as int).push(text@[i as int]) =~= text@.subrange(
                from as int,
                i as int + 1,
            ));
        }
        i = i + 1;
    }
    out
}

/// Append all of `src` to `out`.
fn push_all(out: &mut Vec<char>, src: &Vec<char>)
    ensures
        final(out)@ == old(out)@ + src@,
{
    let n: usize = src.len();
    let mut i: usize = 0;
    #[verifier::loop_isolation(false)]
    while i < n
        invariant
            i <= n,
            out@ == old(out)@ + src@.take(i as int),
        decreases n - i,
    {
        out.push(src[i]);
        proof {
            assert((old(out)@ + src@.take(i as int)).push(src@[i as int]) =~= old(out)@
                + src@.take(i as int + 1));
        }
        i = i + 1;
    }
    proof {
        assert(old(out)@ + src@.take(n as int) =~= old(out)@ + src@);
    }
}

proof fn lemma_join_step(rows: Seq<Seq<char>>, i: int)
    requires
        1 <= i < rows.len(),
    ensures
        join_lines(rows.take(i + 1)) == join_lines(rows.take(i)) + seq!['\n'] + rows[i],
    decreases i,
{
    if i == 1 {
        assert(rows.take(2).skip(1) =~= seq![rows[1]]);
        assert(rows.take(2).len() == 2);
        assert(join_lines(rows.take(2)) == rows.take(2)[0] + seq!['\n'] + join_lines(
            rows.take(2).skip(1),
        ));
        assert(join_lines(rows.take(2).skip(1)) == rows[1]);
        assert(rows.take(1) =~= seq![rows[0]]);
        assert(join_lines(rows.take(1)) == rows[0]);
        assert(join_lines(rows.take(2)) =~= join_lines(rows.take(1)) + seq!['\n'] + rows[1]);
    } else {
        let r1 = rows.skip(1);
        lemma_join_step(r1, i - 1);
        assert(rows.take(i + 1).skip(1) =~= r1.take(i));
        assert(rows.take(i).skip(1) =~= r1.take(i - 1));
        assert(join_lines(rows.take(i + 1)) =~= join_lines(rows.take(i)) + seq!['\n'] + rows[i]);
    }
}

impl LineBuffer {
    /// A buffer loaded from the given text, split at line boundaries; no
    /// path is associated and no edit is recorded yet.
    pub fn from_text(text: &Vec<char>) -> (b: LineBuffer)
        requires
            text@.len() <= MAX_CONTENT,
        ensures
            b.wf(),
            b.rows() == split_lines(text@),
            b.path() is None,
            b.edits() == 0,
    {
        let n: usize = text.len();
        let mut lines: Vec<Line> = Vec::new();
        let mut start: usize = 0;
        let mut i: usize = 0;
        proof {
            assert(text@.skip(0) =~= text@);
            assert(rows_of(lines@) + split_lines(text@) =~~= split_lines(text@));
        }
        #[verifier::loop_isolation(false)]
        while i < n
            invariant
                start <= i <= n,
                split_lines(text@) == rows_of(lines@) + split_lines(text@.skip(start as int)),
                forall|j: int| start <= j < i ==> text@[j] != '\n',
                forall|k: int| 0 <= k < lines@.len() ==> (#[trigger] lines@[k]).wf(),
            decreases n - i,
        {
            if text[i] == '\n' {
                let piece = copy_range(text, start, i);
                let ghost prev = lines@;
                lines.push(Line::new(piece));
                proof {
                    lemma_split_lines_at_newline(text@.skip(start as int), i - start);
                    assert(text@.skip(start as int).take(i - start) =~= text@.subrange(
                        start as int,
                        i as int,
                    ));
                    assert(text@.skip(start as int).skip(i - start + 1) =~= text@.skip(
                        i as int + 1,
                    ));
                    assert(rows_of(lines@) =~~= rows_of(prev).push(
                        text@.subrange(start as int, i as int),
                    ));
                    assert(rows_of(prev) + (seq![text@.subrange(start as int, i as int)]
                        + split_lines(text@.skip(i as int + 1))) =~~= rows_of(lines@)
                        + split_lines(text@.skip(i as int + 1)));
                }
                start = i + 1;
            }
            i = i + 1;
        }
        if start < n {
            let piece = copy_range(text, start, n);
            let ghost prev = lines@;
            lines.push(Line::new(piece));
            proof {
                lemma_split_lines_no_newline(text@.skip(start as int));
                assert(text@.skip(start as int) =~= text@.subrange(start as int, n as int));
                assert(rows_of(lines@) =~~= rows_of(prev).push(
                    text@.subrange(start as int, n as int),
                ));
                assert(rows_of(prev) + seq![text@.subrange(start as int, n as int)]
                    =~~= rows_of(lines@));
            }
        } else {
            proof {
                assert(text@.skip(start as int) =~= Seq::<char>::empty());
                assert(rows_of(lines@) + split_lines(Seq::<char>::empty()) =~~= rows_of(lines@));
            }
        }
        let b = LineBuffer { lines, filename: None, dirty: 0 };
        b
    }

    /// The buffer's on-disk form: all lines joined with newline separators.
    pub fn serialize(&self) -> (r: Vec<char>)
        requires
            self.wf(),
        ensures
            r@ == join_lines(self.rows()),
    {
        let n: usize = self.lines.len();
        let mut out: Vec<char> = Vec::new();
        let mut i: usize = 0;
        #[verifier::loop_isolation(false)]
        while i < n
            invariant
                i <= n,
                i == 0 ==> out@ == Seq::<char>::empty(),
                i > 0 ==> out@ == join_lines(self.rows().take(i as int)),
            decreases n - i,
        {
            if i > 0 {
                out.push('\n');
            }
            let line = &self.lines[i];
            push_all(&mut out, line.content());
            proof {
                if i == 0 {
                    assert(self.rows().take(1) =~= seq![self.rows()[0]]);
                    assert(out@ =~= join_lines(self.rows().take(1)));
                } else {
                    lemma_join_step(self.rows(), i as int);
                    assert(out@ =~= join_lines(self.rows().take(i as int)) + seq!['\n']
                        + self.rows()[i as int]);
                }
            }
            i = i + 1;
        }
        proof {
            if n == 0 {
                assert(out@ =~= join_lines(self.rows()));
            } else {
                assert(self.rows().take(n as int) =~= self.rows());
            }
        }
        out
    }

    /// The content a save would write: the joined lines when a path is
    /// associated, and a `NoFileName` error when none is.
    pub fn save_content(&self) -> (r: Result<Vec<char>, EditorError>)
        requires
            self.wf(),
        ensures
            r is Ok <==> self.path() is Some,
            r is Ok ==> r->Ok_0@ == join_lines(self.rows()),
            r is Err ==> r->Err_0 == EditorError::NoFileName,
    {
        match &self.filename {
            None => Err(EditorError::NoFileName),
            Some(_) => Ok(self.serialize()),
        }
    }
}

/// The saved form of a loaded buffer reproduces the loaded text exactly,
/// whenever that text does not end in a newline.
pub proof fn lemma_load_save_round_trip(text: Seq<char>)
    requires
        text.len() == 0 || text[text.len() - 1] != '\n',
    ensures
        join_lines(split_lines(text)) == text,
    decreases text.len(),
{
    if text.len() == 0 {
        assert(join_lines(split_lines(text)) =~= text);
    } else {
        let t1 = text.skip(1);
        if text[0] == '\n' {
            assert(text.len() >= 2);
            assert(t1.len() > 0 && t1[t1.len() - 1] != '\n');
            lemma_load_save_round_trip(t1);
            lemma_split_lines_nonempty(t1);
            let r = split_lines(t1);
            assert((seq![Seq::<char>::empty()] + r).skip(1) =~= r);
            assert(join_lines(seq![Seq::<char>::empty()] + r) == Seq::<char>::empty()
                + seq!['\n'] + join_lines(r));
            assert(Seq::<char>::empty() + seq!['\n'] + t1 =~= text);
        } else {
            let r = split_lines(t1);
            if t1.len() == 0 {
                assert(seq![text[0]] =~= text);
                assert(join_lines(split_lines(text)) =~= text);
            } else {
                assert(t1[t1.len() - 1] != '\n');
                lemma_load_save_round_trip(t1);
                lemma_split_lines_nonempty(t1);
                if r.len() == 1 {
                    assert(split_lines(text) =~~= seq![seq![text[0]] + r[0]]);
                    assert(join_lines(split_lines(text)) == seq![text[0]] + r[0]);
                    assert(join_lines(r) == r[0]);
                    assert(seq![text[0]] + t1 =~= text);
                } else {
                    let s = seq![seq![text[0]] + r[0]] + r.skip(1);
                    assert(split_lines(text) == s);
                    assert(s.skip(1) =~= r.skip(1));
                    assert(join_lines(s) == (seq![text[0]] + r[0]) + seq!['\n'] + join_lines(
                        r.skip(1),
                    ));
                    assert(join_lines(r) == r[0] + seq!['\n'] + join_lines(r.skip(1)));
                    assert(join_lines(s) =~= seq![text[0]] + join_lines(r));
                    assert(seq![text[0]] + t1 =~= text);
                }
            }
        }
    }
}

/// Inserting a character and then deleting backward at the resulting cursor
/// column restores the rows exactly, for any row content and valid column.
pub proof fn lemma_insert_then_delete(rows: Seq<Seq<char>>, row: int, col: int, ch: char)
    requires
        0 <= row < rows.len(),
        0 <= col <= rows[row].len(),
    ensures
        rows_delete_char(rows_insert_char(rows, row, col, ch), row, col + 1) == rows,
{
    let inserted = rows[row].insert(col, ch);
    assert(inserted.remove(col) =~= rows[row]);
    assert(rows_delete_char(rows_insert_char(rows, row, col, ch), row, col + 1) =~~= rows);
}

/// Splitting a row and then deleting backward at column 0 of the new next
/// row (the join) restores the rows exactly.
pub proof fn lemma_split_then_join(rows: Seq<Seq<char>>, row: int, col: int)
    requires
        0 <= row < rows.len(),
        0 <= col <= rows[row].len(),
    ensures
        rows_delete_char(rows_split_line(rows, row, col), row + 1, 0) == rows,
{
    assert(rows[row].take(col) + rows[row].skip(col) =~= rows[row]);
    assert(rows_delete_char(rows_split_line(rows, row, col), row + 1, 0) =~~= rows);
}

} // verus!
