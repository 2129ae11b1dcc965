//! The terminal grid: a cell buffer with cursor, active style, scrollback
//! and damage tracking.
//!
//! Every mutating operation is specified against a mathematical model
//! ([`GridM`]): each exec method's postcondition says that the new view
//! equals a pure model function of the old view.  Damage is part of the
//! model, so a mutation can never be observed without its damage mark.

use vstd::prelude::*;
use crate::style::{Style, base_style};

verus! {

/// One grid position: a character and the style it was written with.
#[derive(Clone, Copy, Debug, PartialEq, Eq, Structural)]
pub struct Cell {
    pub ch: char,
    pub style: Style,
}

/// A cell holding `ch` in style `style`.
pub open spec fn mk_cell(ch: char, style: Style) -> Cell {
    Cell { ch, style }
}

/// The blank cell used for erased or never-written positions.
pub open spec fn blank_cell() -> Cell {
    Cell { ch: ' ', style: base_style() }
}

/// A row of `cols` blank cells.
pub open spec fn blank_row(cols: int) -> Seq<Cell> {
    Seq::new(cols as nat, |c: int| blank_cell())
}

/// Mathematical model of the grid.
#[verifier::ext_equal]
pub struct GridM {
    pub rows: int,
    pub cols: int,
    pub cells: Seq<Seq<Cell>>,
    pub cur_row: int,
    pub cur_col: int,
    pub style: Style,
    pub scrollback: Seq<Seq<Cell>>,
    pub max_scrollback: int,
    pub display_offset: int,
    pub damage_full: bool,
    pub damaged: Seq<bool>,
}

impl GridM {
    /// Well-formedness: the invariants every grid operation preserves.
    pub open spec fn wf(self) -> bool {
        &&& 1 <= self.rows <= u16::MAX as int
        &&& 1 <= self.cols <= u16::MAX as int
        &&& self.cells.len() == self.rows
        &&& forall|i: int| 0 <= i < self.rows ==> (#[trigger] self.cells[i]).len() == self.cols
        &&& 0 <= self.cur_row < self.rows
        &&& 0 <= self.cur_col < self.cols
        &&& 0 <= self.max_scrollback
        &&& self.scrollback.len() <= self.max_scrollback
        &&& forall|i: int|
            0 <= i < self.scrollback.len() ==> (#[trigger] self.scrollback[i]).len() == self.cols
        &&& 0 <= self.display_offset <= self.scrollback.len()
        &&& self.damaged.len() == self.rows
        &&& self.max_scrollback + self.rows <= usize::MAX as int
    }

    /// True when some part of the view must be redrawn.
    pub open spec fn has_damage(self) -> bool {
        self.damage_full || exists|i: int| 0 <= i < self.damaged.len() && self.damaged[i]
    }
}

/// A fresh grid: blank cells, cursor at the origin, default style, empty
/// scrollback, full damage.
pub open spec fn m_new(rows: int, cols: int, max_scrollback: int) -> GridM {
    GridM {
        rows,
        cols,
        cells: Seq::new(rows as nat, |r: int| blank_row(cols)),
        cur_row: 0,
        cur_col: 0,
        style: base_style(),
        scrollback: Seq::empty(),
        max_scrollback,
        display_offset: 0,
        damage_full: true,
        damaged: Seq::new(rows as nat, |r: int| false),
    }
}

/// Mark one row damaged (rows outside the grid are ignored).
pub open spec fn mark_row(d: Seq<bool>, r: int) -> Seq<bool> {
    if 0 <= r < d.len() {
        d.update(r, true)
    } else {
        d
    }
}

/// A grid with the cursor moved to `(row, col)`; the old and new cursor rows
/// are marked damaged so a renderer repaints the cursor.
pub open spec fn m_with_cursor(g: GridM, row: int, col: int) -> GridM {
    GridM { cur_row: row, cur_col: col, damaged: mark_row(mark_row(g.damaged, g.cur_row), row), ..g }
}

/// Default count for cursor movement: an omitted or zero parameter means 1.
pub open spec fn move_count(n: u16) -> int {
    if n == 0 {
        1
    } else {
        n as int
    }
}

/// Cursor up, saturating at the top edge.
pub open spec fn m_cursor_up(g: GridM, n: u16) -> GridM {
    let k = move_count(n);
    m_with_cursor(g, if g.cur_row - k >= 0 { g.cur_row - k } else { 0 }, g.cur_col)
}

/// Cursor down, saturating at the bottom edge.
pub open spec fn m_cursor_down(g: GridM, n: u16) -> GridM {
    let k = move_count(n);
    m_with_cursor(
        g,
        if g.cur_row + k <= g.rows - 1 { g.cur_row + k } else { g.rows - 1 },
        g.cur_col,
    )
}

/// Cursor forward (right), saturating at the last column.
pub open spec fn m_cursor_forward(g: GridM, n: u16) -> GridM {
    let k = move_count(n);
    m_with_cursor(
        g,
        g.cur_row,
        if g.cur_col + k <= g.cols - 1 { g.cur_col + k } else { g.cols - 1 },
    )
}

/// Cursor back (left), saturating at the first column.
pub open spec fn m_cursor_back(g: GridM, n: u16) -> GridM {
    let k = move_count(n);
    m_with_cursor(g, g.cur_row, if g.cur_col - k >= 0 { g.cur_col - k } else { 0 })
}

/// Absolute positioning with 1-based parameters, clamped into bounds.
pub open spec fn m_goto(g: GridM, row1: u16, col1: u16) -> GridM {
    let r = move_count(row1) - 1;
    let c = move_count(col1) - 1;
    m_with_cursor(
        g,
        if r <= g.rows - 1 { r } else { g.rows - 1 },
        if c <= g.cols - 1 { c } else { g.cols - 1 },
    )
}

/// Carriage return: column 0.
pub open spec fn m_carriage_return(g: GridM) -> GridM {
    m_with_cursor(g, g.cur_row, 0)
}

/// Backspace: one column left, saturating.
pub open spec fn m_backspace(g: GridM) -> GridM {
    m_with_cursor(g, g.cur_row, if g.cur_col >= 1 { g.cur_col - 1 } else { 0 })
}

/// Tab: the next multiple-of-8 column, clamped to the last column.
pub open spec fn m_tab(g: GridM) -> GridM {
    let t = (g.cur_col / 8 + 1) * 8;
    m_with_cursor(g, g.cur_row, if t <= g.cols - 1 { t } else { g.cols - 1 })
}

/// Push a line into the scrollback, evicting the oldest line when the
/// configured capacity is reached.
pub open spec fn push_scrollback(sb: Seq<Seq<Cell>>, line: Seq<Cell>, max: int) -> Seq<Seq<Cell>> {
    if max <= 0 {
        sb
    } else if sb.len() < max {
        sb.push(line)
    } else {
        sb.drop_first().push(line)
    }
}

/// Scroll the content up one line: the top line is evicted into scrollback,
/// a blank line appears at the bottom, and the whole view is damaged.
/// The cursor does not move.
pub open spec fn m_scroll_up(g: GridM) -> GridM {
    GridM {
        cells: g.cells.drop_first().push(blank_row(g.cols)),
        scrollback: push_scrollback(g.scrollback, g.cells[0], g.max_scrollback),
        damage_full: true,
        ..g
    }
}

/// Line feed: down one row, scrolling when already on the last row.
pub open spec fn m_linefeed(g: GridM) -> GridM {
    if g.cur_row + 1 < g.rows {
        m_with_cursor(g, g.cur_row + 1, g.cur_col)
    } else {
        m_scroll_up(g)
    }
}

/// Write one printable character at the cursor with the active style, then
/// advance, wrapping to the next line (scrolling at the bottom) past the
/// last column.
pub open spec fn m_print(g: GridM, ch: char) -> GridM {
    let written = GridM {
        cells: g.cells.update(
            g.cur_row,
            g.cells[g.cur_row].update(g.cur_col, mk_cell(ch, g.style)),
        ),
        damaged: mark_row(g.damaged, g.cur_row),
        ..g
    };
    if g.cur_col + 1 < g.cols {
        GridM { cur_col: g.cur_col + 1, ..written }
    } else if g.cur_row + 1 < g.rows {
        GridM { cur_row: g.cur_row + 1, cur_col: 0, damaged: mark_row(written.damaged, g.cur_row + 1), ..written }
    } else {
        GridM { cur_col: 0, ..m_scroll_up(written) }
    }
}

/// One line with the columns in `[from, to)` blanked.
pub open spec fn blank_span(line: Seq<Cell>, from: int, to: int) -> Seq<Cell> {
    Seq::new(line.len(), |c: int| if from <= c < to { blank_cell() } else { line[c] })
}

/// Erase in line: 0 = cursor to end, 1 = start through cursor, 2 = whole
/// line; other parameters are no-ops.
pub open spec fn m_erase_line(g: GridM, mode: u16) -> GridM {
    let line = g.cells[g.cur_row];
    let erased = if mode == 0 {
        blank_span(line, g.cur_col, g.cols)
    } else if mode == 1 {
        blank_span(line, 0, g.cur_col + 1)
    } else if mode == 2 {
        blank_span(line, 0, g.cols)
    } else {
        line
    };
    GridM {
        cells: g.cells.update(g.cur_row, erased),
        damaged: mark_row(g.damaged, g.cur_row),
        ..g
    }
}

/// Erase in display: 0 = cursor to end of screen, 1 = start of screen
/// through cursor, 2 = whole screen, 3 = whole screen and scrollback;
/// other parameters are no-ops.
pub open spec fn m_erase_display(g: GridM, mode: u16) -> GridM {
    if mode == 0 {
        GridM {
            cells: Seq::new(
                g.cells.len(),
                |r: int|
                    if r == g.cur_row {
                        blank_span(g.cells[r], g.cur_col, g.cols)
                    } else if r > g.cur_row {
                        blank_row(g.cols)
                    } else {
                        g.cells[r]
                    },
            ),
            damaged: mark_row(g.damaged, g.cur_row),
            damage_full: true,
            ..g
        }
    } else if mode == 1 {
        GridM {
            cells: Seq::new(
                g.cells.len(),
                |r: int|
                    if r == g.cur_row {
                        blank_span(g.cells[r], 0, g.cur_col + 1)
                    } else if r < g.cur_row {
                        blank_row(g.cols)
                    } else {
                        g.cells[r]
                    },
            ),
            damaged: mark_row(g.damaged, g.cur_row),
            damage_full: true,
            ..g
        }
    } else if mode == 2 {
        GridM {
            cells: Seq::new(g.cells.len(), |r: int| blank_row(g.cols)),
            damage_full: true,
            ..g
        }
    } else if mode == 3 {
        GridM {
            cells: Seq::new(g.cells.len(), |r: int| blank_row(g.cols)),
            scrollback: Seq::empty(),
            display_offset: 0,
            damage_full: true,
            ..g
        }
    } else {
        g
    }
}

/// Accumulate SGR parameters onto the active style.  The style is not
/// rendered until a cell is written, so no damage is marked.
pub open spec fn m_sgr(g: GridM, ps: Seq<u16>) -> GridM {
    GridM { style: crate::style::sgr_apply(g.style, ps), ..g }
}

/// Move the viewport over the scrollback by `delta` lines (positive =
/// toward older lines), clamped to the available history.
pub open spec fn m_scroll_display(g: GridM, delta: int) -> GridM {
    let o = g.display_offset + delta;
    let o2 = if o < 0 {
        0
    } else if o > g.scrollback.len() {
        g.scrollback.len() as int
    } else {
        o
    };
    GridM { display_offset: o2, damage_full: true, ..g }
}

/// One line truncated or padded with blank cells to `cols` columns.
pub open spec fn fit_row(line: Seq<Cell>, cols: int) -> Seq<Cell> {
    Seq::new(cols as nat, |c: int| if c < line.len() { line[c] } else { blank_cell() })
}

/// Resize: content is clipped (or blank-padded), never reflowed; the cursor
/// is clamped into the new bounds; scrollback lines are refitted.
pub open spec fn m_resize(g: GridM, rows: int, cols: int) -> GridM {
    GridM {
        rows,
        cols,
        cells: Seq::new(
            rows as nat,
            |r: int| if r < g.cells.len() { fit_row(g.cells[r], cols) } else { blank_row(cols) },
        ),
        cur_row: if g.cur_row <= rows - 1 { g.cur_row } else { rows - 1 },
        cur_col: if g.cur_col <= cols - 1 { g.cur_col } else { cols - 1 },
        scrollback: Seq::new(g.scrollback.len(), |i: int| fit_row(g.scrollback[i], cols)),
        damage_full: true,
        damaged: Seq::new(rows as nat, |r: int| false),
        ..g
    }
}

/// Damage cleared after a render pass has consumed it.
pub open spec fn m_reset_damage(g: GridM) -> GridM {
    GridM {
        damage_full: false,
        damaged: Seq::new(g.damaged.len(), |r: int| false),
        ..g
    }
}

/// The line shown at visible row `r`: the viewport covers the last `rows`
/// lines of scrollback-plus-grid, shifted up by `display_offset`.
pub open spec fn visible_line(g: GridM, r: int) -> Seq<Cell> {
    let v = g.scrollback.len() - g.display_offset + r;
    if v < g.scrollback.len() {
        g.scrollback[v]
    } else {
        g.cells[v - g.scrollback.len()]
    }
}

/// Scrollback is bounded by its configured capacity, and pushing onto a
/// full scrollback evicts exactly the oldest line.
///
/// Law: the retained count never exceeds `max`; when the scrollback is full
/// the new line enters at the newest end, every other line shifts down one
/// place, and only the oldest line leaves.
pub proof fn lemma_scrollback_eviction(sb: Seq<Seq<Cell>>, line: Seq<Cell>, max: int)
    requires
        0 <= max,
        sb.len() <= max,
    ensures
        push_scrollback(sb, line, max).len() <= max,
        max > 0 && sb.len() == max ==> ({
            let sb2 = push_scrollback(sb, line, max);
            &&& sb2.len() == max
            &&& sb2[max - 1] == line
            &&& forall|i: int| 0 <= i < max - 1 ==> sb2[i] == sb[i + 1]
        }),
        max > 0 && sb.len() < max ==> push_scrollback(sb, line, max) == sb.push(line),
        max == 0 ==> push_scrollback(sb, line, max) == sb,
{
}

/// Resizing preserves the grid invariants.
pub proof fn lemma_resize_wf(g: GridM, rows2: int, cols2: int)
    requires
        g.wf(),
        1 <= rows2 <= u16::MAX as int,
        1 <= cols2 <= u16::MAX as int,
        g.max_scrollback + rows2 <= usize::MAX as int,
    ensures
        m_resize(g, rows2, cols2).wf(),
{
}

/// Resizing to smaller dimensions and back never breaks the invariants:
/// at every intermediate size the cursor is clamped inside the grid and
/// every row has exactly the new column count.
pub proof fn lemma_resize_round_trip(g: GridM, rows2: int, cols2: int)
    requires
        g.wf(),
        1 <= rows2 <= u16::MAX as int,
        1 <= cols2 <= u16::MAX as int,
        g.max_scrollback + rows2 <= usize::MAX as int,
    ensures
        m_resize(g, rows2, cols2).wf(),
        m_resize(m_resize(g, rows2, cols2), g.rows, g.cols).wf(),
{
    lemma_resize_wf(g, rows2, cols2);
    lemma_resize_wf(m_resize(g, rows2, cols2), g.rows, g.cols);
}

/// The spec-level contents of a row buffer.
pub open spec fn rows_view(v: Seq<Vec<Cell>>) -> Seq<Seq<Cell>> {
    v.map_values(|r: Vec<Cell>| r@)
}

/// The terminal grid.
pub struct Grid {
    rows: usize,
    cols: usize,
    cells: Vec<Vec<Cell>>,
    cur_row: usize,
    cur_col: usize,
    style: Style,
    scrollback: Vec<Vec<Cell>>,
    max_scrollback: usize,
    display_offset: usize,
    damage_full: bool,
    damaged: Vec<bool>,
}

impl View for Grid {
    type V = GridM;

    closed spec fn view(&self) -> GridM {
        GridM {
            rows: self.rows as int,
            cols: self.cols as int,
            cells: rows_view(self.cells@),
            cur_row: self.cur_row as int,
            cur_col: self.cur_col as int,
            style: self.style,
            scrollback: rows_view(self.scrollback@),
            max_scrollback: self.max_scrollback as int,
            display_offset: self.display_offset as int,
            damage_full: self.damage_full,
            damaged: self.damaged@,
        }
    }
}

/// A row of blank cells.
fn blank_row_vec(cols: usize) -> (r: Vec<Cell>)
    ensures
        r@ == blank_row(cols as int),
{
    let mut row: Vec<Cell> = Vec::new();
    let mut c: usize = 0;
    while c < cols
        invariant
            c <= cols,
            row@.len() == c,
            forall|j: int| 0 <= j < c ==> row@[j] == blank_cell(),
        decreases cols - c,
    {
        row.push(Cell { ch: ' ', style: Style::plain() });
        c = c + 1;
    }
    proof {
        assert(row@ =~= blank_row(cols as int));
    }
    row
}

/// Mark one row of the damage buffer.
fn mark(d: &mut Vec<bool>, r: usize)
    ensures
        final(d)@ == mark_row(old(d)@, r as int),
{
    if r < d.len() {
        d[r] = true;
    }
}

/// Write one cell of the row buffer.
fn put_cell(cells: &mut Vec<Vec<Cell>>, r: usize, c: usize, cell: Cell)
    requires
        r < old(cells)@.len(),
        c < old(cells)@[r as int]@.len(),
    ensures
        rows_view(final(cells)@) == rows_view(old(cells)@).update(
            r as int,
            rows_view(old(cells)@)[r as int].update(c as int, cell),
        ),
{
    let row: &mut Vec<Cell> = &mut cells[r];
    row[c] = cell;
    proof {
        assert(rows_view(cells@) =~= rows_view(old(cells)@).update(
            r as int,
            rows_view(old(cells)@)[r as int].update(c as int, cell),
        ));
    }
}

impl Grid {
    /// A fresh grid of `rows x cols` blank cells.
    ///
    /// `max_scrollback` bounds how many evicted lines are retained.
    pub fn new(rows: usize, cols: usize, max_scrollback: usize) -> (g: Grid)
        requires
            1 <= rows <= u16::MAX,
            1 <= cols <= u16::MAX,
            max_scrollback + rows <= usize::MAX,
        ensures
            g@ == m_new(rows as int, cols as int, max_scrollback as int),
            g@.wf(),
    {
        let mut cells: Vec<Vec<Cell>> = Vec::new();
        let mut damaged: Vec<bool> = Vec::new();
        let mut r: usize = 0;
        while r < rows
            invariant
                r <= rows,
                cells@.len() == r,
                damaged@.len() == r,
                forall|i: int| 0 <= i < r ==> (#[trigger] cells@[i])@ == blank_row(cols as int),
                forall|i: int| 0 <= i < r ==> damaged@[i] == false,
            decreases rows - r,
        {
            cells.push(blank_row_vec(cols));
            damaged.push(false);
            r = r + 1;
        }
        let g = Grid {
            rows,
            cols,
            cells,
            cur_row: 0,
            cur_col: 0,
            style: Style::plain(),
            scrollback: Vec::new(),
            max_scrollback,
            display_offset: 0,
            damage_full: true,
            damaged,
        };
        proof {
            assert(g@ =~= m_new(rows as int, cols as int, max_scrollback as int));
        }
        g
    }

    /// Number of visible rows.
    pub fn rows(&self) -> (r: usize)
        ensures
            r as int == self@.rows,
    {
        self.rows
    }

    /// Number of columns.
    pub fn cols(&self) -> (r: usize)
        ensures
            r as int == self@.cols,
    {
        self.cols
    }

    /// Cursor row.
    pub fn cursor_row(&self) -> (r: usize)
        ensures
            r as int == self@.cur_row,
    {
        self.cur_row
    }

    /// Cursor column.
    pub fn cursor_col(&self) -> (r: usize)
        ensures
            r as int == self@.cur_col,
    {
        self.cur_col
    }

    /// Number of retained scrollback lines.
    pub fn scrollback_len(&self) -> (r: usize)
        ensures
            r as int == self@.scrollback.len(),
    {
        self.scrollback.len()
    }

    /// Current viewport offset into the scrollback.
    pub fn display_offset(&self) -> (r: usize)
        ensures
            r as int == self@.display_offset,
    {
        self.display_offset
    }

    /// The active graphic-rendition state.
    pub fn style(&self) -> (r: Style)
        ensures
            r == self@.style,
    {
        self.style
    }

    /// Move the cursor, marking the old and new cursor rows damaged.
    fn set_cursor(&mut self, row: usize, col: usize)
        requires
            old(self)@.wf(),
            row < old(self)@.rows,
            col < old(self)@.cols,
        ensures
            final(self)@ == m_with_cursor(old(self)@, row as int, col as int),
            final(self)@.wf(),
    {
        let prev = self.cur_row;
        mark(&mut self.damaged, prev);
        mark(&mut self.damaged, row);
        self.cur_row = row;
        self.cur_col = col;
        proof {
            assert(self@ =~= m_with_cursor(old(self)@, row as int, col as int));
        }
    }

    /// Cursor up by `n` (0 counts as 1), saturating at the top.
    pub fn cursor_up(&mut self, n: u16)
        requires
            old(self)@.wf(),
        ensures
            final(self)@ == m_cursor_up(old(self)@, n),
            final(self)@.wf(),
    {
        let k: usize = if n == 0 { 1 } else { n as usize };
        let row = if self.cur_row >= k { self.cur_row - k } else { 0 };
        self.set_cursor(row, self.cur_col);
    }

    /// Cursor down by `n` (0 counts as 1), saturating at the bottom.
    pub fn cursor_down(&mut self, n: u16)
        requires
            old(self)@.wf(),
        ensures
            final(self)@ == m_cursor_down(old(self)@, n),
            final(self)@.wf(),
    {
        let k: usize = if n == 0 { 1 } else { n as usize };
        let row = if k < self.rows - self.cur_row { self.cur_row + k } else { self.rows - 1 };
        self.set_cursor(row, self.cur_col);
    }

    /// Cursor forward by `n` (0 counts as 1), saturating at the last column.
    pub fn cursor_forward(&mut self, n: u16)
        requires
            old(self)@.wf(),
        ensures
            final(self)@ == m_cursor_forward(old(self)@, n),
            final(self)@.wf(),
    {
        let k: usize = if n == 0 { 1 } else { n as usize };
        let col = if k < self.cols - self.cur_col { self.cur_col + k } else { self.cols - 1 };
        self.set_cursor(self.cur_row, col);
    }

    /// Cursor back by `n` (0 counts as 1), saturating at the first column.
    pub fn cursor_back(&mut self, n: u16)
        requires
            old(self)@.wf(),
        ensures
            final(self)@ == m_cursor_back(old(self)@, n),
            final(self)@.wf(),
    {
        let k: usize = if n == 0 { 1 } else { n as usize };
        let col = if self.cur_col >= k { self.cur_col - k } else { 0 };
        self.set_cursor(self.cur_row, col);
    }

    /// Absolute cursor positioning with 1-based parameters, clamped.
    pub fn goto(&mut self, row1: u16, col1: u16)
        requires
            old(self)@.wf(),
        ensures
            final(self)@ == m_goto(old(self)@, row1, col1),
            final(self)@.wf(),
    {
        let r0: usize = if row1 == 0 { 0 } else { (row1 - 1) as usize };
        let c0: usize = if col1 == 0 { 0 } else { (col1 - 1) as usize };
        let row = if r0 <= self.rows - 1 { r0 } else { self.rows - 1 };
        let col = if c0 <= self.cols - 1 { c0 } else { self.cols - 1 };
        self.set_cursor(row, col);
    }

    /// Carriage return: cursor to column 0.
    pub fn carriage_return(&mut self)
        requires
            old(self)@.wf(),
        ensures
            final(self)@ == m_carriage_return(old(self)@),
            final(self)@.wf(),
    {
        self.set_cursor(self.cur_row, 0);
    }

    /// Backspace: cursor one column left, saturating.
    pub fn backspace(&mut self)
        requires
            old(self)@.wf(),
        ensures
            final(self)@ == m_backspace(old(self)@),
            final(self)@.wf(),
    {
        let col = if self.cur_col >= 1 { self.cur_col - 1 } else { 0 };
        self.set_cursor(self.cur_row, col);
    }

    /// Tab: cursor to the next multiple-of-8 column, clamped.
    pub fn tab(&mut self)
        requires
            old(self)@.wf(),
        ensures
            final(self)@ == m_tab(old(self)@),
            final(self)@.wf(),
    {
        let t = (self.cur_col / 8 + 1) * 8;
        let col = if t <= self.cols - 1 { t } else { self.cols - 1 };
        self.set_cursor(self.cur_row, col);
    }

    /// Scroll the content up one line, evicting the top line into scrollback.
    fn scroll_up(&mut self)
        requires
            old(self)@.wf(),
        ensures
            final(self)@ == m_scroll_up(old(self)@),
            final(self)@.wf(),
    {
        let top = self.cells.remove(0);
        if self.max_scrollback > 0 {
            if self.scrollback.len() == self.max_scrollback {
                let _evicted = self.scrollback.remove(0);
            }
            self.scrollback.push(top);
        }
        let row = blank_row_vec(self.cols);
        self.cells.push(row);
        self.damage_full = true;
        proof {
            assert(rows_view(old(self).cells@).drop_first() =~= rows_view(
                old(self).cells@,
            ).remove(0));
            assert(rows_view(old(self).scrollback@).drop_first() =~= rows_view(
                old(self).scrollback@,
            ).remove(0));
            assert(self@ =~= m_scroll_up(old(self)@));
        }
    }

    /// Line feed: cursor down one row, scrolling on the last row.
    pub fn linefeed(&mut self)
        requires
            old(self)@.wf(),
        ensures
            final(self)@ == m_linefeed(old(self)@),
            final(self)@.wf(),
    {
        if self.cur_row + 1 < self.rows {
            let row = self.cur_row + 1;
            self.set_cursor(row, self.cur_col);
        } else {
            self.scroll_up();
        }
    }

    /// Write one printable character at the cursor with the active style,
    /// advance, and wrap (scrolling at the bottom) past the last column.
    pub fn print(&mut self, ch: char)
        requires
            old(self)@.wf(),
        ensures
            final(self)@ == m_print(old(self)@, ch),
            final(self)@.wf(),
    {
        let cell = Cell { ch, style: self.style };
        put_cell(&mut self.cells, self.cur_row, self.cur_col, cell);
        mark(&mut self.damaged, self.cur_row);
        if self.cur_col + 1 < self.cols {
            self.cur_col = self.cur_col + 1;
        } else if self.cur_row + 1 < self.rows {
            self.cur_row = self.cur_row + 1;
            self.cur_col = 0;
            mark(&mut self.damaged, self.cur_row);
        } else {
            self.scroll_up();
            self.cur_col = 0;
        }
        proof {
            assert(self@ =~= m_print(old(self)@, ch));
        }
    }

    /// Erase within the cursor line: 0 = cursor to end, 1 = start through
    /// cursor, 2 = whole line.
    pub fn erase_line(&mut self, mode: u16)
        requires
            old(self)@.wf(),
        ensures
            final(self)@ == m_erase_line(old(self)@, mode),
            final(self)@.wf(),
    {
        let from: usize;
        let to: usize;
        if mode == 0 {
            from = self.cur_col;
            to = self.cols;
        } else if mode == 1 {
            from = 0;
            to = self.cur_col + 1;
        } else if mode == 2 {
            from = 0;
            to = self.cols;
        } else {
            from = 0;
            to = 0;
        }
        self.blank_cursor_row_span(from, to);
        proof {
            assert(self@.cells =~~= m_erase_line(old(self)@, mode).cells);
            assert(self@ =~~= m_erase_line(old(self)@, mode));
        }
    }

    /// Blank the columns `[from, to)` of the cursor row and mark it damaged.
    fn blank_cursor_row_span(&mut self, from: usize, to: usize)
        requires
            old(self)@.wf(),
            to <= old(self)@.cols,
        ensures
            final(self)@ == (GridM {
                cells: old(self)@.cells.update(
                    old(self)@.cur_row,
                    blank_span(old(self)@.cells[old(self)@.cur_row], from as int, to as int),
                ),
                damaged: mark_row(old(self)@.damaged, old(self)@.cur_row),
                ..old(self)@
            }),
            final(self)@.wf(),
    {
        let r = self.cur_row;
        mark(&mut self.damaged, r);
        let mut c: usize = from;
        if from >= to {
            proof {
                assert(blank_span(old(self)@.cells[r as int], from as int, to as int)
                    =~= old(self)@.cells[r as int]);
                assert(self@.cells =~= old(self)@.cells.update(
                    r as int,
                    blank_span(old(self)@.cells[r as int], from as int, to as int),
                ));
                assert(self@ =~= (GridM {
                    cells: old(self)@.cells.update(
                        old(self)@.cur_row,
                        blank_span(old(self)@.cells[old(self)@.cur_row], from as int, to as int),
                    ),
                    damaged: mark_row(old(self)@.damaged, old(self)@.cur_row),
                    ..old(self)@
                }));
            }
            return ;
        }
        proof {
            assert(blank_span(old(self)@.cells[r as int], from as int, from as int)
                =~= old(self)@.cells[r as int]);
            assert(rows_view(self.cells@) =~= old(self)@.cells.update(
                r as int,
                blank_span(old(self)@.cells[r as int], from as int, from as int),
            ));
        }
        while c < to
            invariant
                old(self)@.wf(),
                from <= c <= to <= old(self)@.cols,
                r == old(self)@.cur_row,
                self.cells@.len() == old(self)@.cells.len(),
                rows_view(self.cells@) =~= old(self)@.cells.update(
                    r as int,
                    blank_span(old(self)@.cells[r as int], from as int, c as int),
                ),
                self.rows == old(self).rows,
                self.cols == old(self).cols,
                self.cur_row == old(self).cur_row,
                self.cur_col == old(self).cur_col,
                self.style == old(self).style,
                self.scrollback == old(self).scrollback,
                self.max_scrollback == old(self).max_scrollback,
                self.display_offset == old(self).display_offset,
                self.damage_full == old(self).damage_full,
                self.damaged@ == mark_row(old(self)@.damaged, r as int),
            decreases to - c,
        {
            proof {
                assert(old(self)@.cells[r as int].len() == old(self)@.cols);
                assert(rows_view(self.cells@)[r as int] == blank_span(
                    old(self)@.cells[r as int],
                    from as int,
                    c as int,
                ));
            }
            put_cell(&mut self.cells, r, c, Cell { ch: ' ', style: Style::plain() });
            proof {
                assert(blank_span(old(self)@.cells[r as int], from as int, c as int).update(
                    c as int,
                    blank_cell(),
                ) =~= blank_span(old(self)@.cells[r as int], from as int, c + 1));
                assert(rows_view(self.cells@) =~= old(self)@.cells.update(
                    r as int,
                    blank_span(old(self)@.cells[r as int], from as int, c + 1),
                ));
            }
            c = c + 1;
        }
        proof {
            assert(self@ =~= (GridM {
                cells: old(self)@.cells.update(
                    old(self)@.cur_row,
                    blank_span(old(self)@.cells[old(self)@.cur_row], from as int, to as int),
                ),
                damaged: mark_row(old(self)@.damaged, old(self)@.cur_row),
                ..old(self)@
            }));
        }
    }

    /// Replace the rows in `[from, to)` with blank rows (damage untouched;
    /// callers mark the whole view).
    fn blank_rows(&mut self, from: usize, to: usize)
        requires
            old(self)@.wf(),
            to <= old(self)@.rows,
        ensures
            final(self)@ == (GridM {
                cells: Seq::new(
                    old(self)@.cells.len(),
                    |r: int|
                        if from <= r < to {
                            blank_row(old(self)@.cols)
                        } else {
                            old(self)@.cells[r]
                        },
                ),
                ..old(self)@
            }),
            final(self)@.wf(),
    {
        let mut r: usize = from;
        while r < to
            invariant
                old(self)@.wf(),
                to <= old(self)@.rows,
                from <= r <= to || (from >= to && r == from),
                self.cells@.len() == old(self)@.cells.len(),
                forall|i: int|
                    0 <= i < old(self)@.cells.len() ==> (#[trigger] rows_view(self.cells@)[i])
                        == (if from <= i < r {
                        blank_row(old(self)@.cols)
                    } else {
                        old(self)@.cells[i]
                    }),
                self.rows == old(self).rows,
                self.cols == old(self).cols,
                self.cur_row == old(self).cur_row,
                self.cur_col == old(self).cur_col,
                self.style == old(self).style,
                self.scrollback == old(self).scrollback,
                self.max_scrollback == old(self).max_scrollback,
                self.display_offset == old(self).display_offset,
                self.damage_full == old(self).damage_full,
                self.damaged == old(self).damaged,
            decreases to - r,
        {
            let row = blank_row_vec(self.cols);
            put_row(&mut self.cells, r, row);
            r = r + 1;
        }
        proof {
            assert(self@ =~~= (GridM {
                cells: Seq::new(
                    old(self)@.cells.len(),
                    |r: int|
                        if from <= r < to {
                            blank_row(old(self)@.cols)
                        } else {
                            old(self)@.cells[r]
                        },
                ),
                ..old(self)@
            }));
        }
    }

    /// Erase in display: 0 = cursor to end of screen, 1 = start through
    /// cursor, 2 = whole screen, 3 = whole screen and scrollback.
    pub fn erase_display(&mut self, mode: u16)
        requires
            old(self)@.wf(),
        ensures
            final(self)@ == m_erase_display(old(self)@, mode),
            final(self)@.wf(),
    {
        if mode == 0 {
            let from = self.cur_col;
            let to = self.cols;
            self.blank_cursor_row_span(from, to);
            let start = self.cur_row + 1;
            let end = self.rows;
            self.blank_rows(start, end);
            self.damage_full = true;
        } else if mode == 1 {
            let to = self.cur_col + 1;
            self.blank_cursor_row_span(0, to);
            let end = self.cur_row;
            self.blank_rows(0, end);
            self.damage_full = true;
        } else if mode == 2 {
            let end = self.rows;
            self.blank_rows(0, end);
            self.damage_full = true;
        } else if mode == 3 {
            let end = self.rows;
            self.blank_rows(0, end);
            self.scrollback.clear();
            self.display_offset = 0;
            self.damage_full = true;
        }
        proof {
            assert(rows_view(Seq::<Vec<Cell>>::empty()) =~= Seq::<Seq<Cell>>::empty());
            assert(self@ =~~= m_erase_display(old(self)@, mode));
        }
    }

    /// Accumulate SGR parameters onto the active style.
    pub fn set_graphics(&mut self, params: &Vec<u16>)
        requires
            old(self)@.wf(),
        ensures
            final(self)@ == m_sgr(old(self)@, params@),
            final(self)@.wf(),
    {
        self.style = crate::style::apply_sgr(&self.style, params);
        proof {
            assert(self@ =~= m_sgr(old(self)@, params@));
        }
    }

    /// Scroll the viewport `n` lines toward older content, clamped.
    pub fn scroll_display_up(&mut self, n: usize)
        requires
            old(self)@.wf(),
        ensures
            final(self)@ == m_scroll_display(old(self)@, n as int),
            final(self)@.wf(),
    {
        let avail = self.scrollback.len() - self.display_offset;
        let step = if n < avail {
            n
        } else {
            avail
        };
        self.display_offset = self.display_offset + step;
        self.damage_full = true;
        proof {
            assert(self@ =~= m_scroll_display(old(self)@, n as int));
        }
    }

    /// Scroll the viewport `n` lines toward newer content, clamped.
    pub fn scroll_display_down(&mut self, n: usize)
        requires
            old(self)@.wf(),
        ensures
            final(self)@ == m_scroll_display(old(self)@, -(n as int)),
            final(self)@.wf(),
    {
        let step = if n < self.display_offset {
            n
        } else {
            self.display_offset
        };
        self.display_offset = self.display_offset - step;
        self.damage_full = true;
        proof {
            assert(self@ =~= m_scroll_display(old(self)@, -(n as int)));
        }
    }

    /// Scroll the viewport to the oldest retained line.
    pub fn scroll_display_to_top(&mut self)
        requires
            old(self)@.wf(),
        ensures
            final(self)@ == m_scroll_display(old(self)@, old(self)@.scrollback.len() as int),
            final(self)@.wf(),
    {
        let n = self.scrollback.len();
        self.scroll_display_up(n);
    }

    /// Scroll the viewport back to the live grid.
    pub fn scroll_display_to_bottom(&mut self)
        requires
            old(self)@.wf(),
        ensures
            final(self)@ == m_scroll_display(old(self)@, -(old(self)@.scrollback.len() as int)),
            final(self)@.wf(),
    {
        let n = self.display_offset;
        self.scroll_display_down(n);
        proof {
            assert(self@ =~= m_scroll_display(old(self)@, -(old(self)@.scrollback.len() as int)));
        }
    }

    /// Scroll the viewport one page (the grid height) toward older content.
    pub fn scroll_display_page_up(&mut self)
        requires
            old(self)@.wf(),
        ensures
            final(self)@ == m_scroll_display(old(self)@, old(self)@.rows),
            final(self)@.wf(),
    {
        let n = self.rows;
        self.scroll_display_up(n);
    }

    /// Scroll the viewport one page toward newer content.
    pub fn scroll_display_page_down(&mut self)
        requires
            old(self)@.wf(),
        ensures
            final(self)@ == m_scroll_display(old(self)@, -old(self)@.rows),
            final(self)@.wf(),
    {
        let n = self.rows;
        self.scroll_display_down(n);
    }

    /// Resize the grid, clipping or padding content and clamping the cursor.
    pub fn resize(&mut self, new_rows: usize, new_cols: usize)
        requires
            old(self)@.wf(),
            1 <= new_rows <= u16::MAX,
            1 <= new_cols <= u16::MAX,
            old(self)@.max_scrollback + new_rows <= usize::MAX,
        ensures
            final(self)@ == m_resize(old(self)@, new_rows as int, new_cols as int),
            final(self)@.wf(),
    {
        let mut new_cells: Vec<Vec<Cell>> = Vec::new();
        let mut r: usize = 0;
        while r < new_rows
            invariant
                r <= new_rows,
                new_cells@.len() == r,
                forall|i: int|
                    0 <= i < r ==> (#[trigger] new_cells@[i])@ == (if i < old(self)@.cells.len() {
                        fit_row(old(self)@.cells[i], new_cols as int)
                    } else {
                        blank_row(new_cols as int)
                    }),
                self == old(self),
            decreases new_rows - r,
        {
            if r < self.cells.len() {
                let row = fit_row_vec(&self.cells[r], new_cols);
                new_cells.push(row);
            } else {
                new_cells.push(blank_row_vec(new_cols));
            }
            r = r + 1;
        }
        let mut new_sb: Vec<Vec<Cell>> = Vec::new();
        let mut i: usize = 0;
        let sb_len = self.scrollback.len();
        while i < sb_len
            invariant
                i <= sb_len,
                sb_len == old(self)@.scrollback.len(),
                new_sb@.len() == i,
                forall|k: int|
                    0 <= k < i ==> (#[trigger] new_sb@[k])@ == fit_row(
                        old(self)@.scrollback[k],
                        new_cols as int,
                    ),
                self == old(self),
            decreases sb_len - i,
        {
            let row = fit_row_vec(&self.scrollback[i], new_cols);
            new_sb.push(row);
            i = i + 1;
        }
        let mut dmg: Vec<bool> = Vec::new();
        let mut d: usize = 0;
        while d < new_rows
            invariant
                d <= new_rows,
                dmg@.len() == d,
                forall|k: int| 0 <= k < d ==> dmg@[k] == false,
                self == old(self),
            decreases new_rows - d,
        {
            dmg.push(false);
            d = d + 1;
        }
        self.cells = new_cells;
        self.scrollback = new_sb;
        self.damaged = dmg;
        self.damage_full = true;
        if self.cur_row > new_rows - 1 {
            self.cur_row = new_rows - 1;
        }
        if self.cur_col > new_cols - 1 {
            self.cur_col = new_cols - 1;
        }
        self.rows = new_rows;
        self.cols = new_cols;
        proof {
            assert(self@ =~~= m_resize(old(self)@, new_rows as int, new_cols as int));
        }
    }

    /// True when some part of the view must be redrawn.
    pub fn has_damage(&self) -> (r: bool)
        requires
            self@.wf(),
        ensures
            r == self@.has_damage(),
    {
        if self.damage_full {
            return true;
        }
        let mut i: usize = 0;
        while i < self.damaged.len()
            invariant
                i <= self.damaged@.len(),
                forall|j: int| 0 <= j < i ==> !self.damaged@[j],
            decreases self.damaged@.len() - i,
        {
            if self.damaged[i] {
                proof {
                    assert(0 <= (i as int) < self@.damaged.len() && self@.damaged[i as int]);
                }
                return true;
            }
            i = i + 1;
        }
        false
    }

    /// Whether one visible row must be redrawn.
    pub fn is_row_damaged(&self, r: usize) -> (res: bool)
        requires
            self@.wf(),
            r < self@.rows,
        ensures
            res == (self@.damage_full || self@.damaged[r as int]),
    {
        self.damage_full || self.damaged[r]
    }

    /// Clear damage once a render pass has consumed it.
    pub fn reset_damage(&mut self)
        requires
            old(self)@.wf(),
        ensures
            final(self)@ == m_reset_damage(old(self)@),
            final(self)@.wf(),
    {
        self.damage_full = false;
        let mut i: usize = 0;
        let n = self.damaged.len();
        while i < n
            invariant
                i <= n,
                self.damaged@.len() == n,
                n == old(self)@.damaged.len(),
                forall|j: int| 0 <= j < i ==> !self.damaged@[j],
                self.rows == old(self).rows,
                self.cols == old(self).cols,
                self.cells == old(self).cells,
                self.cur_row == old(self).cur_row,
                self.cur_col == old(self).cur_col,
                self.style == old(self).style,
                self.scrollback == old(self).scrollback,
                self.max_scrollback == old(self).max_scrollback,
                self.display_offset == old(self).display_offset,
                !self.damage_full,
            decreases n - i,
        {
            self.damaged[i] = false;
            i = i + 1;
        }
        proof {
            assert(self@ =~~= m_reset_damage(old(self)@));
        }
    }

    /// The cell shown at visible position `(r, c)`, honoring the viewport
    /// offset into scrollback.  This is the render hand-off.
    pub fn visible_cell(&self, r: usize, c: usize) -> (cell: Cell)
        requires
            self@.wf(),
            r < self@.rows,
            c < self@.cols,
        ensures
            cell == visible_line(self@, r as int)[c as int],
    {
        let v = self.scrollback.len() - self.display_offset + r;
        if v < self.scrollback.len() {
            proof {
                assert(self@.scrollback[v as int].len() == self@.cols);
            }
            let row: &Vec<Cell> = &self.scrollback[v];
            row[c]
        } else {
            let idx = v - self.scrollback.len();
            proof {
                assert(self@.cells[idx as int].len() == self@.cols);
            }
            let row: &Vec<Cell> = &self.cells[idx];
            row[c]
        }
    }
}

/// The grid size for a window: how many whole cells fit, floored, with
/// minimums of two columns and one row (a minimized window resizes nothing).
pub fn compute_grid_size(width_px: u16, height_px: u16, cell_w_px: u16, cell_h_px: u16) -> (r: (
    usize,
    usize,
))
    requires
        1 <= cell_w_px,
        1 <= cell_h_px,
    ensures
        r.0 as int == (if width_px as int / cell_w_px as int >= 2 {
            width_px as int / cell_w_px as int
        } else {
            2
        }),
        r.1 as int == (if height_px as int / cell_h_px as int >= 1 {
            height_px as int / cell_h_px as int
        } else {
            1
        }),
        1 <= r.0 <= u16::MAX,
        1 <= r.1 <= u16::MAX,
{
    let cols = (width_px / cell_w_px) as usize;
    let rows = (height_px / cell_h_px) as usize;
    ((if cols >= 2 {
        cols
    } else {
        2
    }), (if rows >= 1 {
        rows
    } else {
        1
    }))
}

/// Replace one row of the row buffer.
fn put_row(cells: &mut Vec<Vec<Cell>>, r: usize, row: Vec<Cell>)
    requires
        r < old(cells)@.len(),
    ensures
        final(cells)@.len() == old(cells)@.len(),
        rows_view(final(cells)@) == rows_view(old(cells)@).update(r as int, row@),
{
    let ghost expected = rows_view(old(cells)@).update(r as int, row@);
    cells[r] = row;
    proof {
        assert(rows_view(cells@) =~= expected);
    }
}

/// One row truncated or padded with blank cells to `cols` columns.
fn fit_row_vec(row: &Vec<Cell>, cols: usize) -> (r: Vec<Cell>)
    ensures
        r@ == fit_row(row@, cols as int),
{
    let mut out: Vec<Cell> = Vec::new();
    let mut c: usize = 0;
    while c < cols
        invariant
            c <= cols,
            out@.len() == c,
            forall|j: int|
                0 <= j < c ==> out@[j] == (if j < row@.len() {
                    row@[j]
                } else {
                    blank_cell()
                }),
        decreases cols - c,
    {
        if c < row.len() {
            out.push(row[c]);
        } else {
            out.push(Cell { ch: ' ', style: Style::plain() });
        }
        c = c + 1;
    }
    proof {
        assert(out@ =~= fit_row(row@, cols as int));
    }
    out
}

} // verus!

