//! Tab rendering and the two coordinate translators.
//!
//! A line is rendered cell by cell: a tab expands with spaces up to the next
//! multiple of [`TAB_STOP`], every other character occupies one cell.
//! `logical_to_rendered` and `rendered_to_logical` translate between logical
//! character positions and rendered column positions of the same line.

use vstd::prelude::*;

verus! {

/// Interval between tab stops, in screen cells.
pub const TAB_STOP: usize = 8;

/// Longest line content the coordinate math accepts. Every character expands
/// to at most [`TAB_STOP`] cells, so the rendered width of such a line still
/// fits in a `usize`.
pub const MAX_CONTENT: usize = usize::MAX / 8;

/// Cells a tab occupies when it starts at rendered column `col`: it fills up
/// to the next multiple of [`TAB_STOP`], so between 1 and [`TAB_STOP`] cells.
pub open spec fn tab_cells(col: int) -> int {
    (TAB_STOP as int) - col % (TAB_STOP as int)
}

/// Cells character `c` occupies when it starts at rendered column `col`.
pub open spec fn char_cells(c: char, col: int) -> int {
    if c == '\t' {
        tab_cells(col)
    } else {
        1
    }
}

/// Rendered width of the first `k` characters of `content`: the rendered
/// column at which character `k` starts.
pub open spec fn rendered_width(content: Seq<char>, k: int) -> int
    decreases k,
{
    if k <= 0 {
        0
    } else {
        let w = rendered_width(content, k - 1);
        w + char_cells(content[k - 1], w)
    }
}

/// `n` space characters.
pub open spec fn spaces(n: int) -> Seq<char> {
    Seq::new(n as nat, |i: int| ' ')
}

/// Rendered form of character `c` when it starts at rendered column `col`.
pub open spec fn char_expansion(c: char, col: int) -> Seq<char> {
    if c == '\t' {
        spaces(tab_cells(col))
    } else {
        seq![c]
    }
}

/// Rendered form of the first `k` characters of `content`.
pub open spec fn rendered_prefix(content: Seq<char>, k: int) -> Seq<char>
    decreases k,
{
    if k <= 0 {
        Seq::empty()
    } else {
        rendered_prefix(content, k - 1) + char_expansion(
            content[k - 1],
            rendered_width(content, k - 1),
        )
    }
}

/// Rendered form of a whole line.
pub open spec fn rendering(content: Seq<char>) -> Seq<char> {
    rendered_prefix(content, content.len() as int)
}

/// Logical column for rendered column `target`, scanning from logical column
/// `i` on: the first character whose rendered span ends beyond `target`, or
/// the line length when `target` lies at or past the rendered end.
pub open spec fn logical_of_rendered_from(content: Seq<char>, target: int, i: int) -> int
    decreases content.len() - i,
{
    if i >= content.len() {
        content.len() as int
    } else if rendered_width(content, i + 1) > target {
        i
    } else {
        logical_of_rendered_from(content, target, i + 1)
    }
}

/// Logical column of the character whose rendered span covers rendered column
/// `target`; the line length when `target` is at or past the rendered end.
pub open spec fn logical_of_rendered(content: Seq<char>, target: int) -> int {
    logical_of_rendered_from(content, target, 0)
}

/// Each character occupies between 1 and [`TAB_STOP`] cells.
pub proof fn lemma_char_cells_bounds(c: char, col: int)
    requires
        col >= 0,
    ensures
        1 <= char_cells(c, col) <= TAB_STOP as int,
{
}

/// The rendered width of a prefix of `k` characters lies between `k` and
/// [`TAB_STOP`]` * k`.
pub proof fn lemma_width_bounds(content: Seq<char>, k: int)
    requires
        0 <= k <= content.len(),
    ensures
        k <= rendered_width(content, k) <= (TAB_STOP as int) * k,
    decreases k,
{
    if k > 0 {
        lemma_width_bounds(content, k - 1);
        lemma_char_cells_bounds(content[k - 1], rendered_width(content, k - 1));
    }
}

/// Rendered width grows by at least one cell per character.
pub proof fn lemma_width_mono(content: Seq<char>, i: int, j: int)
    requires
        0 <= i <= j <= content.len(),
    ensures
        rendered_width(content, i) + (j - i) <= rendered_width(content, j),
    decreases j - i,
{
    if i < j {
        lemma_width_mono(content, i, j - 1);
        lemma_width_bounds(content, j - 1);
        lemma_char_cells_bounds(content[j - 1], rendered_width(content, j - 1));
    }
}

/// The rendered prefix of `k` characters has exactly the rendered width of
/// those characters as its length.
pub proof fn lemma_prefix_len(content: Seq<char>, k: int)
    requires
        0 <= k <= content.len(),
    ensures
        rendered_prefix(content, k).len() == rendered_width(content, k),
    decreases k,
{
    if k > 0 {
        lemma_prefix_len(content, k - 1);
        lemma_width_bounds(content, k - 1);
        lemma_char_cells_bounds(content[k - 1], rendered_width(content, k - 1));
    }
}

/// Rendered form of a line, tabs expanded to the next tab stop.
pub fn render_line(content: &Vec<char>) -> (r: Vec<char>)
    ensures
        r@ == rendering(content@),
{
    let n: usize = content.len();
    let mut out: Vec<char> = Vec::new();
    let mut i: usize = 0;
    #[verifier::loop_isolation(false)]
    while i < n
        invariant
            i <= n,
            out@ == rendered_prefix(content@, i as int),
        decreases n - i,
    {
        proof {
            lemma_prefix_len(content@, i as int);
            lemma_width_bounds(content@, i as int);
        }
        let c = content[i];
        if c == '\t' {
            let w: usize = out.len();
            let pad: usize = TAB_STOP - w % TAB_STOP;
            assert(pad as int == tab_cells(w as int));
            let mut j: usize = 0;
            while j < pad
                invariant
                    j <= pad,
                    out@ == rendered_prefix(content@, i as int) + spaces(j as int),
                decreases pad - j,
            {
                out.push(' ');
                proof {
                    assert(spaces(j as int).push(' ') =~= spaces(j as int + 1));
                }
                j = j + 1;
            }
            proof {
                assert(out@ =~= rendered_prefix(content@, i as int + 1));
            }
        } else {
            out.push(c);
            proof {
                assert(out@ =~= rendered_prefix(content@, i as int + 1));
            }
        }
        i = i + 1;
    }
    out
}

/// Rendered column at which logical column `k` of `content` starts: the sum
/// of the expansion widths of every character strictly before `k`.
pub fn logical_to_rendered(content: &Vec<char>, k: usize) -> (r: usize)
    requires
        k <= content@.len(),
        content@.len() <= MAX_CONTENT,
    ensures
        r == rendered_width(content@, k as int),
{
    let mut w: usize = 0;
    let mut i: usize = 0;
    #[verifier::loop_isolation(false)]
    while i < k
        invariant
            i <= k,
            w == rendered_width(content@, i as int),
        decreases k - i,
    {
        proof {
            lemma_width_bounds(content@, i as int + 1);
            assert((TAB_STOP as int) * (i as int + 1) <= (TAB_STOP as int) * (content@.len()
                as int));
        }
        let c = content[i];
        if c == '\t' {
            w = w + (TAB_STOP - w % TAB_STOP);
        } else {
            w = w + 1;
        }
        i = i + 1;
    }
    w
}

/// Logical column of the character whose rendered span covers rendered column
/// `target`; the line length when `target` is at or past the rendered end.
pub fn rendered_to_logical(content: &Vec<char>, target: usize) -> (r: usize)
    requires
        content@.len() <= MAX_CONTENT,
    ensures
        r == logical_of_rendered(content@, target as int),
        r <= content@.len(),
{
    let n: usize = content.len();
    let mut w: usize = 0;
    let mut i: usize = 0;
    #[verifier::loop_isolation(false)]
    while i < n
        invariant
            i <= n,
            w == rendered_width(content@, i as int),
            logical_of_rendered(content@, target as int) == logical_of_rendered_from(
                content@,
                target as int,
                i as int,
            ),
        decreases n - i,
    {
        proof {
            lemma_width_bounds(content@, i as int + 1);
            assert((TAB_STOP as int) * (i as int + 1) <= (TAB_STOP as int) * (content@.len()
                as int));
        }
        let c = content[i];
        let next: usize = if c == '\t' {
            w + (TAB_STOP - w % TAB_STOP)
        } else {
            w + 1
        };
        assert(next as int == rendered_width(content@, i as int + 1));
        if next > target {
            return i;
        }
        w = next;
        i = i + 1;
    }
    n
}

/// Without tabs, logical and rendered columns coincide.
pub proof fn lemma_no_tabs_identity(content: Seq<char>, k: int)
    requires
        0 <= k <= content.len(),
        forall|i: int| 0 <= i < content.len() ==> content[i] != '\t',
    ensures
        rendered_width(content, k) == k,
    decreases k,
{
    if k > 0 {
        lemma_no_tabs_identity(content, k - 1);
    }
}

proof fn lemma_round_trip_from(content: Seq<char>, k: int, i: int)
    requires
        0 <= i <= k <= content.len(),
    ensures
        logical_of_rendered_from(content, rendered_width(content, k), i) == k,
    decreases k - i,
{
    if i == k {
        if k < content.len() {
            lemma_width_mono(content, k, k + 1);
        }
    } else {
        lemma_width_mono(content, i + 1, k);
        lemma_round_trip_from(content, k, i + 1);
    }
}

/// Round trip: translating logical column `k` to its rendered column and back
/// yields `k` again, for every valid `k` of any line.
pub proof fn lemma_round_trip(content: Seq<char>, k: int)
    requires
        0 <= k <= content.len(),
    ensures
        logical_of_rendered(content, rendered_width(content, k)) == k,
{
    lemma_round_trip_from(content, k, 0);
}

} // verus!
