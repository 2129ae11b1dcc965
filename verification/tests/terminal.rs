use cyb_core::grid::{compute_grid_size, Cell, Grid};
use cyb_core::parser::Parser;
use cyb_core::style::{Color, Rgb, Style};
use cyb_core::color::{default_ansi_rgb, render_colors, resolve_color};
use cyb_core::term::advance;

fn feed(parser: &mut Parser, grid: &mut Grid, bytes: &[u8]) {
    advance(parser, grid, bytes);
}

fn fresh(rows: usize, cols: usize, max_scrollback: usize) -> (Parser, Grid) {
    (Parser::new(), Grid::new(rows, cols, max_scrollback))
}

fn row_string(grid: &Grid, r: usize) -> String {
    let mut s = String::new();
    for c in 0..grid.cols() {
        s.push(grid.visible_cell(r, c).ch);
    }
    s
}

#[test]
fn cursor_moves_clamp_at_edges() {
    let (mut p, mut g) = fresh(5, 10, 0);
    // Reference model: saturating moves inside [0, rows) x [0, cols).
    feed(&mut p, &mut g, b"\x1b[100B");
    assert_eq!((g.cursor_row(), g.cursor_col()), (4, 0));
    feed(&mut p, &mut g, b"\x1b[100C");
    assert_eq!((g.cursor_row(), g.cursor_col()), (4, 9));
    feed(&mut p, &mut g, b"\x1b[2A");
    assert_eq!((g.cursor_row(), g.cursor_col()), (2, 9));
    feed(&mut p, &mut g, b"\x1b[3D");
    assert_eq!((g.cursor_row(), g.cursor_col()), (2, 6));
    feed(&mut p, &mut g, b"\x1b[A\x1b[A\x1b[A\x1b[A");
    assert_eq!(g.cursor_row(), 0);
    // Zero and omitted parameters count as one.
    feed(&mut p, &mut g, b"\x1b[0B");
    assert_eq!(g.cursor_row(), 1);
    feed(&mut p, &mut g, b"\x1b[B");
    assert_eq!(g.cursor_row(), 2);
    // Absolute positioning is 1-based and clamped.
    feed(&mut p, &mut g, b"\x1b[2;3H");
    assert_eq!((g.cursor_row(), g.cursor_col()), (1, 2));
    feed(&mut p, &mut g, b"\x1b[99;99H");
    assert_eq!((g.cursor_row(), g.cursor_col()), (4, 9));
    feed(&mut p, &mut g, b"\x1b[H");
    assert_eq!((g.cursor_row(), g.cursor_col()), (0, 0));
}

#[test]
fn fill_grid_exactly_once_wraps_and_scrolls() {
    let (mut p, mut g) = fresh(2, 3, 10);
    feed(&mut p, &mut g, b"abcdef");
    // The first written row scrolled out; the second is visible above a
    // blank new bottom row; the cursor wrapped to column 0.
    assert_eq!(g.scrollback_len(), 1);
    assert_eq!((g.cursor_row(), g.cursor_col()), (1, 0));
    assert_eq!(row_string(&g, 0), "def");
    assert_eq!(row_string(&g, 1), "   ");
    // Scrolling the viewport up reveals the evicted first row.
    g.scroll_display_up(1);
    assert_eq!(row_string(&g, 0), "abc");
    assert_eq!(row_string(&g, 1), "def");
    g.scroll_display_to_bottom();
    assert_eq!(row_string(&g, 0), "def");
}

#[test]
fn sgr_reset_restores_defaults() {
    let (mut p, mut g) = fresh(2, 10, 0);
    feed(&mut p, &mut g, b"\x1b[1;31;44mA\x1b[0mB");
    let a = g.visible_cell(0, 0);
    assert_eq!(a.style.fg, Color::Indexed(1));
    assert_eq!(a.style.bg, Color::Indexed(4));
    assert!(a.style.bold);
    let b = g.visible_cell(0, 1);
    assert_eq!(b.style.fg, Color::Default);
    assert_eq!(b.style.bg, Color::Default);
    assert!(!b.style.bold);
    // Reset is idempotent and absolute: a second reset changes nothing.
    feed(&mut p, &mut g, b"\x1b[0m\x1b[0mC");
    assert_eq!(g.visible_cell(0, 2).style, Style::plain());
}

#[test]
fn red_text_then_reset() {
    let (mut p, mut g) = fresh(2, 10, 0);
    feed(&mut p, &mut g, b"\x1b[31mRED\x1b[0m");
    for (i, ch) in [(0usize, 'R'), (1, 'E'), (2, 'D')] {
        let cell = g.visible_cell(0, i);
        assert_eq!(cell.ch, ch);
        assert_eq!(cell.style.fg, Color::Indexed(1));
    }
    feed(&mut p, &mut g, b"X");
    let x = g.visible_cell(0, 3);
    assert_eq!(x.ch, 'X');
    assert_eq!(x.style.fg, Color::Default);
    assert!(g.has_damage());
}

#[test]
fn resize_smaller_then_back_keeps_cursor_clamped() {
    let (mut p, mut g) = fresh(6, 12, 4);
    feed(&mut p, &mut g, b"hello world\r\nsecond line\x1b[6;12H");
    assert_eq!((g.cursor_row(), g.cursor_col()), (5, 11));
    g.resize(2, 4);
    assert_eq!((g.rows(), g.cols()), (2, 4));
    assert!(g.cursor_row() < 2 && g.cursor_col() < 4);
    assert_eq!(row_string(&g, 0), "hell");
    g.resize(1, 1);
    assert!(g.cursor_row() == 0 && g.cursor_col() == 0);
    g.resize(6, 12);
    assert_eq!((g.rows(), g.cols()), (6, 12));
    assert!(g.cursor_row() < 6 && g.cursor_col() < 12);
    // Clipped content was dropped, not reflowed; the surviving prefix stays.
    assert_eq!(row_string(&g, 0), "h           ");
}

#[test]
fn scrollback_bounded_and_oldest_evicted() {
    let (mut p, mut g) = fresh(2, 4, 2);
    // Each linefeed on the last row scrolls the top line out.
    feed(&mut p, &mut g, b"aa\r\nbb\r\n");
    assert_eq!(g.scrollback_len(), 1);
    feed(&mut p, &mut g, b"cc\r\n");
    assert_eq!(g.scrollback_len(), 2);
    // One more than capacity: exactly the oldest line ("aa") leaves.
    feed(&mut p, &mut g, b"dd\r\n");
    assert_eq!(g.scrollback_len(), 2);
    g.scroll_display_to_top();
    assert_eq!(row_string(&g, 0), "bb  ");
    assert_eq!(row_string(&g, 1), "cc  ");
}

#[test]
fn control_characters_move_cursor() {
    let (mut p, mut g) = fresh(4, 20, 0);
    feed(&mut p, &mut g, b"abc");
    assert_eq!(g.cursor_col(), 3);
    feed(&mut p, &mut g, b"\x08");
    assert_eq!(g.cursor_col(), 2);
    feed(&mut p, &mut g, b"\t");
    assert_eq!(g.cursor_col(), 8);
    feed(&mut p, &mut g, b"\t");
    assert_eq!(g.cursor_col(), 16);
    feed(&mut p, &mut g, b"\t");
    assert_eq!(g.cursor_col(), 19);
    feed(&mut p, &mut g, b"\r");
    assert_eq!(g.cursor_col(), 0);
    feed(&mut p, &mut g, b"\n");
    assert_eq!(g.cursor_row(), 1);
}

#[test]
fn erase_in_line_modes() {
    let (mut p, mut g) = fresh(2, 6, 0);
    feed(&mut p, &mut g, b"abcdef\x1b[1;4H");
    feed(&mut p, &mut g, b"\x1b[K");
    assert_eq!(row_string(&g, 0), "abc   ");
    let (mut p, mut g) = fresh(2, 6, 0);
    feed(&mut p, &mut g, b"abcdef\x1b[1;4H\x1b[1K");
    assert_eq!(row_string(&g, 0), "    ef");
    let (mut p, mut g) = fresh(2, 6, 0);
    feed(&mut p, &mut g, b"abcdef\x1b[1;4H\x1b[2K");
    assert_eq!(row_string(&g, 0), "      ");
}

#[test]
fn erase_in_display_modes() {
    let (mut p, mut g) = fresh(3, 3, 0);
    feed(&mut p, &mut g, b"abcdefgh\x1b[2;2H\x1b[J");
    assert_eq!(row_string(&g, 0), "abc");
    assert_eq!(row_string(&g, 1), "d  ");
    assert_eq!(row_string(&g, 2), "   ");
    let (mut p, mut g) = fresh(3, 3, 0);
    feed(&mut p, &mut g, b"abcdefgh\x1b[2;2H\x1b[1J");
    assert_eq!(row_string(&g, 0), "   ");
    assert_eq!(row_string(&g, 1), "  f");
    assert_eq!(row_string(&g, 2), "gh ");
    let (mut p, mut g) = fresh(3, 3, 2);
    feed(&mut p, &mut g, b"abcdefghi\r\n\r\n");
    assert_eq!(g.scrollback_len(), 2);
    feed(&mut p, &mut g, b"\x1b[3J");
    assert_eq!(g.scrollback_len(), 0);
    assert_eq!(row_string(&g, 0), "   ");
}

#[test]
fn malformed_sequences_are_discarded() {
    let (mut p, mut g) = fresh(2, 10, 0);
    // An invalid byte inside CSI discards the sequence; parsing returns to
    // ground and later text prints normally.
    feed(&mut p, &mut g, b"\x1b[12\x01ok");
    assert_eq!(row_string(&g, 0), "ok        ");
    assert_eq!(g.cursor_col(), 2);
    // Unknown final bytes are no-ops, not errors.
    let (mut p, mut g) = fresh(2, 10, 0);
    feed(&mut p, &mut g, b"\x1b[5qab");
    assert_eq!(row_string(&g, 0), "ab        ");
    // An OSC string is consumed without printing.
    let (mut p, mut g) = fresh(2, 10, 0);
    feed(&mut p, &mut g, b"\x1b]0;window title\x07hi");
    assert_eq!(row_string(&g, 0), "hi        ");
    // A private-marker sequence is ignored.
    let (mut p, mut g) = fresh(2, 10, 0);
    feed(&mut p, &mut g, b"\x1b[?25lX");
    assert_eq!(row_string(&g, 0), "X         ");
}

#[test]
fn extended_colors() {
    let (mut p, mut g) = fresh(2, 10, 0);
    feed(&mut p, &mut g, b"\x1b[38;5;196mA\x1b[48;2;1;2;3mB");
    assert_eq!(g.visible_cell(0, 0).style.fg, Color::Indexed(196));
    let b = g.visible_cell(0, 1);
    assert_eq!(b.style.fg, Color::Indexed(196));
    assert_eq!(b.style.bg, Color::Rgb(1, 2, 3));
}

#[test]
fn malformed_extended_color_discards_rest() {
    let (mut p, mut g) = fresh(2, 10, 0);
    // A 38 without a complete selector drops the remaining parameters.
    feed(&mut p, &mut g, b"\x1b[31m\x1b[38;99mX");
    assert_eq!(g.visible_cell(0, 0).style.fg, Color::Indexed(1));
}

#[test]
fn csi_parameters_beyond_the_cap_are_dropped() {
    let (mut p, mut g) = fresh(2, 10, 0);
    // Sixteen parameters are kept; the seventeenth (underline) is dropped.
    feed(&mut p, &mut g, b"\x1b[31;1;1;1;1;1;1;1;1;1;1;1;1;1;1;1;4mA");
    let s = g.visible_cell(0, 0).style;
    assert_eq!(s.fg, Color::Indexed(1));
    assert!(s.bold);
    assert!(!s.underline);
}

#[test]
fn attribute_flags_accumulate() {
    let (mut p, mut g) = fresh(2, 10, 0);
    feed(&mut p, &mut g, b"\x1b[1;3;4;7;9mA\x1b[22;23mB");
    let a = g.visible_cell(0, 0).style;
    assert!(a.bold && a.italic && a.underline && a.inverse && a.strikethrough);
    let b = g.visible_cell(0, 1).style;
    assert!(!b.bold && !b.italic && b.underline && b.inverse && b.strikethrough);
}

#[test]
fn utf8_characters_print() {
    let (mut p, mut g) = fresh(2, 10, 0);
    feed(&mut p, &mut g, "é€aé".as_bytes());
    assert_eq!(g.visible_cell(0, 0).ch, 'é');
    assert_eq!(g.visible_cell(0, 1).ch, '€');
    assert_eq!(g.visible_cell(0, 2).ch, 'a');
    assert_eq!(g.visible_cell(0, 3).ch, 'é');
    assert_eq!(g.cursor_col(), 4);
    // A broken continuation drops the partial character only.
    let (mut p, mut g) = fresh(2, 10, 0);
    feed(&mut p, &mut g, b"\xC3x");
    assert_eq!(g.visible_cell(0, 0).ch, 'x');
    assert_eq!(g.cursor_col(), 1);
}

#[test]
fn damage_tracking_marks_and_resets() {
    let (mut p, mut g) = fresh(3, 5, 0);
    assert!(g.has_damage()); // a fresh grid must be drawn once
    g.reset_damage();
    assert!(!g.has_damage());
    feed(&mut p, &mut g, b"x");
    assert!(g.has_damage());
    assert!(g.is_row_damaged(0));
    g.reset_damage();
    assert!(!g.has_damage());
    feed(&mut p, &mut g, b"\x1b[3;1H");
    assert!(g.is_row_damaged(0) && g.is_row_damaged(2));
}

#[test]
fn default_theme_and_palette_resolution() {
    assert_eq!(default_ansi_rgb(1), Rgb { r: 204, g: 0, b: 0 });
    assert_eq!(default_ansi_rgb(15), Rgb { r: 255, g: 255, b: 255 });
    assert_eq!(resolve_color(Color::Default, true), Rgb { r: 230, g: 230, b: 230 });
    assert_eq!(resolve_color(Color::Default, false), Rgb { r: 0, g: 0, b: 0 });
    assert_eq!(resolve_color(Color::Indexed(9), true), Rgb { r: 255, g: 85, b: 85 });
    // Color cube entry 16 is black, 231 is white.
    assert_eq!(resolve_color(Color::Indexed(16), true), Rgb { r: 0, g: 0, b: 0 });
    assert_eq!(resolve_color(Color::Indexed(231), true), Rgb { r: 255, g: 255, b: 255 });
    // 196 = 16 + 36*5 is pure red in the cube.
    assert_eq!(resolve_color(Color::Indexed(196), true), Rgb { r: 255, g: 0, b: 0 });
    // Grayscale ramp: 232 -> 8, 255 -> 238.
    assert_eq!(resolve_color(Color::Indexed(232), true), Rgb { r: 8, g: 8, b: 8 });
    assert_eq!(resolve_color(Color::Indexed(255), true), Rgb { r: 238, g: 238, b: 238 });
    assert_eq!(resolve_color(Color::Rgb(7, 8, 9), false), Rgb { r: 7, g: 8, b: 9 });
}

#[test]
fn render_colors_swap_and_brighten() {
    // Plain defaults.
    let plain = Style::plain();
    let (fg, bg) = render_colors(&plain);
    assert_eq!(fg, Rgb { r: 230, g: 230, b: 230 });
    assert_eq!(bg, Rgb { r: 0, g: 0, b: 0 });
    // Inverse swaps the resolved pair.
    let inv = Style { inverse: true, ..plain };
    let (fg, bg) = render_colors(&inv);
    assert_eq!(fg, Rgb { r: 0, g: 0, b: 0 });
    assert_eq!(bg, Rgb { r: 230, g: 230, b: 230 });
    // Bold brightens a basic named color in the text position.
    let bold_red = Style { bold: true, fg: Color::Indexed(1), ..plain };
    let (fg, _) = render_colors(&bold_red);
    assert_eq!(fg, Rgb { r: 255, g: 85, b: 85 });
    // Bright and extended colors are left alone.
    let bold_bright = Style { bold: true, fg: Color::Indexed(9), ..plain };
    let (fg, _) = render_colors(&bold_bright);
    assert_eq!(fg, Rgb { r: 255, g: 85, b: 85 });
    let bold_cube = Style { bold: true, fg: Color::Indexed(196), ..plain };
    let (fg, _) = render_colors(&bold_cube);
    assert_eq!(fg, Rgb { r: 255, g: 0, b: 0 });
}

#[test]
fn grid_size_from_pixels() {
    assert_eq!(compute_grid_size(900, 540, 9, 18), (100, 30));
    assert_eq!(compute_grid_size(10, 10, 9, 18), (2, 1));
    assert_eq!(compute_grid_size(0, 0, 9, 18), (2, 1));
    assert_eq!(compute_grid_size(19, 19, 9, 18), (2, 1));
}

#[test]
fn viewport_scrolling_over_scrollback() {
    let (mut p, mut g) = fresh(2, 3, 5);
    feed(&mut p, &mut g, b"a\r\nb\r\nc\r\nd\r\n");
    assert_eq!(g.scrollback_len(), 3);
    assert_eq!(g.display_offset(), 0);
    g.scroll_display_up(2);
    assert_eq!(g.display_offset(), 2);
    g.scroll_display_up(100);
    assert_eq!(g.display_offset(), 3);
    g.scroll_display_down(1);
    assert_eq!(g.display_offset(), 2);
    g.scroll_display_page_down();
    assert_eq!(g.display_offset(), 0);
    g.scroll_display_page_up();
    assert_eq!(g.display_offset(), 2);
    g.scroll_display_to_bottom();
    assert_eq!(g.display_offset(), 0);
}

#[test]
fn cells_carry_written_style() {
    let (mut p, mut g) = fresh(2, 4, 0);
    feed(&mut p, &mut g, b"\x1b[4mu");
    let cell: Cell = g.visible_cell(0, 0);
    assert!(cell.style.underline);
    assert_eq!(cell.ch, 'u');
    assert_eq!(g.visible_cell(0, 1).style, Style::plain());
}
