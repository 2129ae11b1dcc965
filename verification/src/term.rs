//! The terminal: feeding raw bytes through the escape-sequence interpreter
//! into the grid.
//!
//! [`advance`] is the single entry point a transport or evaluator output
//! runs through; its contract folds the pure parser step and grid model
//! over the byte sequence, so the whole byte-to-grid pipeline is pinned.

use vstd::prelude::*;
use crate::grid::{
    Cell, Grid, GridM, m_print, m_linefeed, m_carriage_return, m_backspace, m_tab, m_cursor_up,
    m_cursor_down, m_cursor_forward, m_cursor_back, m_goto, m_erase_display, m_erase_line, m_sgr,
    m_scroll_up, mark_row, blank_row, push_scrollback, mk_cell,
};
use crate::parser::{Action, ActionM, Parser, ParserM, p_step};

verus! {

/// Effect of one decoded action on the grid model.
pub open spec fn apply_action_m(g: GridM, a: ActionM) -> GridM {
    match a {
        ActionM::Print(c) => m_print(g, c),
        ActionM::LineFeed => m_linefeed(g),
        ActionM::CarriageReturn => m_carriage_return(g),
        ActionM::Backspace => m_backspace(g),
        ActionM::Tab => m_tab(g),
        ActionM::CursorUp(n) => m_cursor_up(g, n),
        ActionM::CursorDown(n) => m_cursor_down(g, n),
        ActionM::CursorForward(n) => m_cursor_forward(g, n),
        ActionM::CursorBack(n) => m_cursor_back(g, n),
        ActionM::Goto(r, c) => m_goto(g, r, c),
        ActionM::EraseDisplay(m) => m_erase_display(g, m),
        ActionM::EraseLine(m) => m_erase_line(g, m),
        ActionM::SetGraphics(ps) => m_sgr(g, ps),
    }
}

/// Folding a whole byte sequence through parser and grid.
pub open spec fn feed_m(p: ParserM, g: GridM, bytes: Seq<u8>) -> (ParserM, GridM)
    decreases bytes.len(),
{
    if bytes.len() == 0 {
        (p, g)
    } else {
        let (p2, act) = p_step(p, bytes[0]);
        let g2 = match act {
            Option::Some(a) => apply_action_m(g, a),
            Option::None => g,
        };
        feed_m(p2, g2, bytes.drop_first())
    }
}

/// Every action preserves the grid invariants.
pub proof fn lemma_apply_action_wf(g: GridM, a: ActionM)
    requires
        g.wf(),
    ensures
        apply_action_m(g, a).wf(),
{
    match a {
        ActionM::Print(c) => {
            lemma_scroll_up_wf(GridM {
                cells: g.cells.update(
                    g.cur_row,
                    g.cells[g.cur_row].update(g.cur_col, Cell { ch: c, style: g.style }),
                ),
                damaged: mark_row(g.damaged, g.cur_row),
                ..g
            });
        },
        ActionM::LineFeed => {
            lemma_scroll_up_wf(g);
        },
        _ => {},
    }
}

/// Scrolling up preserves the grid invariants.
pub proof fn lemma_scroll_up_wf(g: GridM)
    requires
        g.wf(),
    ensures
        m_scroll_up(g).wf(),
{
    let g2 = m_scroll_up(g);
    assert forall|i: int| 0 <= i < g2.rows implies (#[trigger] g2.cells[i]).len() == g2.cols by {
        if i < g2.rows - 1 {
            assert(g2.cells[i] == g.cells[i + 1]);
        }
    }
    assert forall|i: int|
        0 <= i < g2.scrollback.len() implies (#[trigger] g2.scrollback[i]).len() == g2.cols by {
        if g.max_scrollback > 0 {
            if g.scrollback.len() < g.max_scrollback {
                if i < g2.scrollback.len() - 1 {
                    assert(g2.scrollback[i] == g.scrollback[i]);
                }
            } else {
                if i < g2.scrollback.len() - 1 {
                    assert(g2.scrollback[i] == g.scrollback[i + 1]);
                }
            }
        }
    }
}

/// Apply one decoded action to the grid.
pub fn apply_action(grid: &mut Grid, a: &Action)
    requires
        old(grid)@.wf(),
    ensures
        final(grid)@ == apply_action_m(old(grid)@, a@),
        final(grid)@.wf(),
{
    match a {
        Action::Print(c) => grid.print(*c),
        Action::LineFeed => grid.linefeed(),
        Action::CarriageReturn => grid.carriage_return(),
        Action::Backspace => grid.backspace(),
        Action::Tab => grid.tab(),
        Action::CursorUp(n) => grid.cursor_up(*n),
        Action::CursorDown(n) => grid.cursor_down(*n),
        Action::CursorForward(n) => grid.cursor_forward(*n),
        Action::CursorBack(n) => grid.cursor_back(*n),
        Action::Goto(r, c) => grid.goto(*r, *c),
        Action::EraseDisplay(m) => grid.erase_display(*m),
        Action::EraseLine(m) => grid.erase_line(*m),
        Action::SetGraphics(ps) => grid.set_graphics(ps),
    }
}

/// Feed a byte slice through the interpreter into the grid.
pub fn advance(parser: &mut Parser, grid: &mut Grid, bytes: &[u8])
    requires
        old(parser)@.wf(),
        old(grid)@.wf(),
    ensures
        final(parser)@ == feed_m(old(parser)@, old(grid)@, bytes@).0,
        final(grid)@ == feed_m(old(parser)@, old(grid)@, bytes@).1,
        final(parser)@.wf(),
        final(grid)@.wf(),
{
    let n = bytes.len();
    let mut i: usize = 0;
    proof {
        assert(bytes@.skip(0) =~= bytes@);
    }
    while i < n
        invariant
            i <= n,
            n == bytes@.len(),
            parser@.wf(),
            grid@.wf(),
            feed_m(old(parser)@, old(grid)@, bytes@) == feed_m(parser@, grid@, bytes@.skip(i as int)),
        decreases n - i,
    {
        let b = bytes[i];
        let act = parser.step(b);
        match act {
            Some(a) => apply_action(grid, &a),
            None => (),
        }
        proof {
            assert(bytes@.skip(i as int).drop_first() =~= bytes@.skip(i + 1));
        }
        i = i + 1;
    }
    proof {
        assert(bytes@.skip(n as int) =~= Seq::<u8>::empty());
    }
}

/// Folding a character sequence through the print operation.
pub open spec fn print_seq_m(g: GridM, cs: Seq<char>) -> GridM
    decreases cs.len(),
{
    if cs.len() == 0 {
        g
    } else {
        print_seq_m(m_print(g, cs[0]), cs.drop_first())
    }
}

/// Printing distributes over concatenation.
pub proof fn lemma_print_seq_append(g: GridM, a: Seq<char>, b: Seq<char>)
    ensures
        print_seq_m(g, a + b) == print_seq_m(print_seq_m(g, a), b),
    decreases a.len(),
{
    if a.len() == 0 {
        assert(a + b =~= b);
    } else {
        assert((a + b)[0] == a[0]);
        assert((a + b).drop_first() =~= a.drop_first() + b);
        lemma_print_seq_append(m_print(g, a[0]), a.drop_first(), b);
    }
}

/// The cursor row once its tail (from the cursor column on) is overwritten
/// with styled characters.
pub open spec fn row_filled_from(g: GridM, cs: Seq<char>) -> Seq<Cell> {
    Seq::new(
        g.cols as nat,
        |c: int|
            if c < g.cur_col {
                g.cells[g.cur_row][c]
            } else {
                mk_cell(cs[c - g.cur_col], g.style)
            },
    )
}

/// Printing exactly to the end of the cursor row fills its tail and wraps
/// to the next line, scrolling on the last row.
#[verifier::rlimit(50)]
pub proof fn lemma_print_row(g: GridM, cs: Seq<char>)
    requires
        g.wf(),
        cs.len() == g.cols - g.cur_col,
    ensures
        ({
            let g2 = print_seq_m(g, cs);
            let filled = g.cells.update(g.cur_row, row_filled_from(g, cs));
            &&& g2.rows == g.rows
            &&& g2.cols == g.cols
            &&& g2.style == g.style
            &&& g2.max_scrollback == g.max_scrollback
            &&& g2.display_offset == g.display_offset
            &&& g2.cur_col == 0
            &&& (g.cur_row < g.rows - 1 ==> g2.cur_row == g.cur_row + 1 && g2.cells == filled
                && g2.scrollback == g.scrollback)
            &&& (g.cur_row == g.rows - 1 ==> g2.cur_row == g.rows - 1 && g2.cells
                == filled.drop_first().push(blank_row(g.cols)) && g2.scrollback
                == push_scrollback(g.scrollback, filled[0], g.max_scrollback))
        }),
    decreases cs.len(),
{
    let g1 = m_print(g, cs[0]);
    if cs.len() == 1 {
        assert(g.cur_col == g.cols - 1);
        assert(g.cells[g.cur_row].update(g.cur_col, mk_cell(cs[0], g.style))
            =~= row_filled_from(g, cs));
        assert(print_seq_m(g1, cs.drop_first()) == g1);
    } else {
        assert(g.cur_col + 1 < g.cols);
        let filled = g.cells.update(g.cur_row, row_filled_from(g, cs));
        assert(g1.cells == g.cells.update(
            g.cur_row,
            g.cells[g.cur_row].update(g.cur_col, mk_cell(cs[0], g.style)),
        ));
        assert(g1.wf()) by {
            lemma_apply_action_wf(g, ActionM::Print(cs[0]));
        }
        lemma_print_row(g1, cs.drop_first());
        assert(row_filled_from(g1, cs.drop_first()) =~= row_filled_from(g, cs));
        assert(g1.cells.update(g1.cur_row, row_filled_from(g1, cs.drop_first())) =~= filled);
        assert(print_seq_m(g, cs) == print_seq_m(g1, cs.drop_first()));
    }
}

/// The grid rows once every position from the cursor row down is
/// overwritten with styled characters, row-major (the cursor sits at
/// column 0).
pub open spec fn cells_filled(g: GridM, cs: Seq<char>) -> Seq<Seq<Cell>> {
    Seq::new(
        g.cells.len(),
        |r: int|
            if r < g.cur_row {
                g.cells[r]
            } else {
                Seq::new(
                    g.cols as nat,
                    |c: int| mk_cell(cs[(r - g.cur_row) * g.cols + c], g.style),
                )
            },
    )
}

/// Printing exactly the characters that fill the rest of the grid fills
/// every remaining position once, scrolls exactly one line out, and leaves
/// the cursor at column 0 of the (new, blank) bottom row.
pub proof fn lemma_fill_rows(g: GridM, cs: Seq<char>)
    requires
        g.wf(),
        g.cur_col == 0,
        cs.len() == (g.rows - g.cur_row) * g.cols,
    ensures
        ({
            let g2 = print_seq_m(g, cs);
            &&& g2.rows == g.rows
            &&& g2.cols == g.cols
            &&& g2.style == g.style
            &&& g2.max_scrollback == g.max_scrollback
            &&& g2.display_offset == g.display_offset
            &&& g2.cur_row == g.rows - 1
            &&& g2.cur_col == 0
            &&& g2.cells == cells_filled(g, cs).drop_first().push(blank_row(g.cols))
            &&& g2.scrollback == push_scrollback(
                g.scrollback,
                cells_filled(g, cs)[0],
                g.max_scrollback,
            )
        }),
    decreases g.rows - g.cur_row,
{
    assert(1 <= g.rows - g.cur_row);
    assert(cs.len() >= g.cols) by (nonlinear_arith)
        requires
            cs.len() == (g.rows - g.cur_row) * g.cols,
            g.rows - g.cur_row >= 1,
            g.cols >= 1,
    ;
    if g.cur_row == g.rows - 1 {
        assert(cs.len() == g.cols) by (nonlinear_arith)
            requires
                cs.len() == (g.rows - g.cur_row) * g.cols,
                g.cur_row == g.rows - 1,
        ;
        lemma_print_row(g, cs);
        assert(row_filled_from(g, cs) =~= cells_filled(g, cs)[g.cur_row]);
        assert(g.cells.update(g.cur_row, row_filled_from(g, cs)) =~= cells_filled(g, cs));
    } else {
        let first = cs.subrange(0, g.cols);
        let rest = cs.subrange(g.cols, cs.len() as int);
        assert(cs =~= first + rest);
        lemma_print_seq_append(g, first, rest);
        lemma_print_row(g, first);
        let g1 = print_seq_m(g, first);
        assert(g1.wf()) by {
            lemma_print_seq_wf(g, first);
        }
        assert(rest.len() == (g1.rows - g1.cur_row) * g1.cols) by (nonlinear_arith)
            requires
                rest.len() == cs.len() - g.cols,
                cs.len() == (g.rows - g.cur_row) * g.cols,
                g1.rows == g.rows,
                g1.cols == g.cols,
                g1.cur_row == g.cur_row + 1,
        ;
        lemma_fill_rows(g1, rest);
        assert(cells_filled(g1, rest) =~~= cells_filled(g, cs)) by {
            assert forall|r: int| 0 <= r < g.cells.len() implies cells_filled(g1, rest)[r]
                =~= cells_filled(g, cs)[r] by {
                if r < g.cur_row {
                    assert(cells_filled(g1, rest)[r] == g.cells[r]);
                } else if r == g.cur_row {
                    assert(cells_filled(g1, rest)[r] == g1.cells[r]);
                    assert(g1.cells[r] == row_filled_from(g, first));
                    assert forall|c: int| 0 <= c < g.cols implies row_filled_from(g, first)[c]
                        == cells_filled(g, cs)[r][c] by {
                        assert((r - g.cur_row) * g.cols + c == c) by (nonlinear_arith)
                            requires
                                r == g.cur_row,
                        ;
                    }
                } else {
                    assert forall|c: int| 0 <= c < g.cols implies cells_filled(g1, rest)[r][c]
                        == cells_filled(g, cs)[r][c] by {
                        assert((r - g1.cur_row) * g.cols + c + g.cols == (r - g.cur_row)
                            * g.cols + c) by (nonlinear_arith)
                            requires
                                g1.cur_row == g.cur_row + 1,
                        ;
                        assert(0 <= (r - g1.cur_row) * g.cols + c < rest.len())
                            by (nonlinear_arith)
                            requires
                                g.cur_row + 1 == g1.cur_row <= r < g.rows,
                                0 <= c < g.cols,
                                rest.len() == (g.rows - g1.cur_row) * g.cols,
                        ;
                        assert(rest[(r - g1.cur_row) * g.cols + c] == cs[(r - g.cur_row) * g.cols
                            + c]);
                    }
                }
            }
        }
    }
}

/// Printing a character sequence preserves the grid invariants.
pub proof fn lemma_print_seq_wf(g: GridM, cs: Seq<char>)
    requires
        g.wf(),
    ensures
        print_seq_m(g, cs).wf(),
    decreases cs.len(),
{
    if cs.len() > 0 {
        lemma_apply_action_wf(g, ActionM::Print(cs[0]));
        lemma_print_seq_wf(m_print(g, cs[0]), cs.drop_first());
    }
}

/// Writing `rows x cols` printable characters with no explicit movement
/// fills the grid exactly once with no gaps.
///
/// Law: from a cursor at the origin, printing exactly `rows * cols`
/// characters writes each one at a distinct position in row-major order;
/// the overflow past the last cell scrolls exactly one line (the first
/// written row) into scrollback, leaves a blank new bottom row, and wraps
/// the cursor to column 0 of the scrolled view's bottom row.
pub proof fn lemma_fill_exactly_once(g: GridM, cs: Seq<char>)
    requires
        g.wf(),
        g.cur_row == 0,
        g.cur_col == 0,
        cs.len() == g.rows * g.cols,
    ensures
        ({
            let g2 = print_seq_m(g, cs);
            &&& g2.rows == g.rows && g2.cols == g.cols
            &&& g2.cur_row == g.rows - 1 && g2.cur_col == 0
            &&& forall|r: int, c: int|
                0 <= r < g.rows - 1 && 0 <= c < g.cols ==> #[trigger] g2.cells[r][c] == mk_cell(cs[(r + 1) * g.cols + c], g.style)
            &&& g2.cells[g.rows - 1] == blank_row(g.cols)
            &&& g2.scrollback == push_scrollback(
                g.scrollback,
                Seq::new(g.cols as nat, |c: int| mk_cell(cs[c], g.style)),
                g.max_scrollback,
            )
        }),
{
    assert(cs.len() == (g.rows - g.cur_row) * g.cols);
    lemma_fill_rows(g, cs);
    let g2 = print_seq_m(g, cs);
    let filled = cells_filled(g, cs);
    assert(filled[0] =~= Seq::new(g.cols as nat, |c: int| mk_cell(cs[c], g.style)))
        by {
        assert forall|c: int| 0 <= c < g.cols implies filled[0][c] == mk_cell(cs[c], g.style) by {
            assert((0 - g.cur_row) * g.cols + c == c) by (nonlinear_arith)
                requires
                    g.cur_row == 0,
            ;
        }
    }
    assert forall|r: int, c: int|
        0 <= r < g.rows - 1 && 0 <= c < g.cols implies #[trigger] g2.cells[r][c] == mk_cell(cs[(r + 1) * g.cols + c], g.style) by {
        assert(g2.cells[r] == filled.drop_first()[r]);
        assert(filled.drop_first()[r] == filled[r + 1]);
        assert(0 <= (r + 1) * g.cols + c < cs.len()) by (nonlinear_arith)
            requires
                0 <= r < g.rows - 1,
                0 <= c < g.cols,
                cs.len() == g.rows * g.cols,
                g.cols >= 1,
        ;
        assert(filled[r + 1][c] == mk_cell(cs[(r + 1 - g.cur_row) * g.cols + c], g.style));
        assert((r + 1 - g.cur_row) * g.cols + c == (r + 1) * g.cols + c) by (nonlinear_arith)
            requires
                g.cur_row == 0,
        ;
    }
    assert(g2.cells[g.rows - 1] == blank_row(g.cols));
}

/// The characters of a printable-ASCII byte string.
pub open spec fn ascii_chars(bs: Seq<u8>) -> Seq<char> {
    bs.map_values(|b: u8| b as char)
}

/// Feeding printable ASCII bytes from the ground state prints exactly those
/// characters: the interpreter consumes none of them, and the grid is the
/// print fold — so the fill law applies to the raw byte pipeline.
pub proof fn lemma_feed_printable(p: ParserM, g: GridM, bs: Seq<u8>)
    requires
        p.state == crate::parser::PState::Ground,
        forall|i: int| 0 <= i < bs.len() ==> 0x20 <= #[trigger] bs[i] <= 0x7E,
    ensures
        feed_m(p, g, bs).0 == p,
        feed_m(p, g, bs).1 == print_seq_m(g, ascii_chars(bs)),
    decreases bs.len(),
{
    if bs.len() > 0 {
        assert(0x20 <= bs[0] <= 0x7E);
        let p2 = p_step(p, bs[0]).0;
        let act = p_step(p, bs[0]).1;
        assert(p2 =~= p);
        assert(act == Option::Some(ActionM::Print(bs[0] as char)));
        assert(forall|i: int|
            0 <= i < bs.drop_first().len() ==> 0x20 <= #[trigger] bs.drop_first()[i] <= 0x7E);
        lemma_feed_printable(p, m_print(g, bs[0] as char), bs.drop_first());
        assert(ascii_chars(bs)[0] == bs[0] as char);
        assert(ascii_chars(bs).drop_first() =~= ascii_chars(bs.drop_first()));
        assert(print_seq_m(g, ascii_chars(bs)) == print_seq_m(
            m_print(g, ascii_chars(bs)[0]),
            ascii_chars(bs).drop_first(),
        ));
        assert(m_print(g, ascii_chars(bs)[0]) == m_print(g, bs[0] as char));
    }
}

/// Folding a sequence of actions over the grid model.
pub open spec fn apply_actions_m(g: GridM, acts: Seq<ActionM>) -> GridM
    decreases acts.len(),
{
    if acts.len() == 0 {
        g
    } else {
        apply_actions_m(apply_action_m(g, acts[0]), acts.drop_first())
    }
}

/// Whether an action only moves the cursor.
pub open spec fn is_cursor_move(a: ActionM) -> bool {
    match a {
        ActionM::CursorUp(_) => true,
        ActionM::CursorDown(_) => true,
        ActionM::CursorForward(_) => true,
        ActionM::CursorBack(_) => true,
        ActionM::Goto(_, _) => true,
        _ => false,
    }
}

/// Cursor movement is a saturating walk inside the grid bounds.
///
/// Law: after any sequence of cursor-movement actions the cursor row and
/// column lie inside `[0, rows) x [0, cols)` (each step's exact clamped
/// position is the corresponding model function), and nothing but the
/// cursor and the damage marks changes.
pub proof fn lemma_cursor_moves_clamped(g: GridM, acts: Seq<ActionM>)
    requires
        g.wf(),
        forall|i: int| 0 <= i < acts.len() ==> is_cursor_move(#[trigger] acts[i]),
    ensures
        ({
            let g2 = apply_actions_m(g, acts);
            &&& g2.wf()
            &&& 0 <= g2.cur_row < g.rows
            &&& 0 <= g2.cur_col < g.cols
            &&& g2.rows == g.rows
            &&& g2.cols == g.cols
            &&& g2.cells == g.cells
            &&& g2.scrollback == g.scrollback
            &&& g2.style == g.style
            &&& g2.display_offset == g.display_offset
        }),
    decreases acts.len(),
{
    if acts.len() > 0 {
        assert(is_cursor_move(acts[0]));
        let g1 = apply_action_m(g, acts[0]);
        assert(g1.wf());
        let tail = acts.drop_first();
        assert(forall|i: int| 0 <= i < tail.len() ==> is_cursor_move(#[trigger] tail[i]));
        lemma_cursor_moves_clamped(g1, tail);
    }
}

} // verus!
