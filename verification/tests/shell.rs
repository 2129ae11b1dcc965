use cyb_core::coordinator::{convert_lf_to_crlf, Coordinator, EvalEvent, KeyInput, ScrollCmd};
use cyb_core::grid::Grid;
use cyb_core::line_buffer::LineBuffer;
use cyb_core::parser::Parser;
use cyb_core::term::advance;

fn chars(s: &str) -> Vec<char> {
    s.chars().collect()
}

fn type_line(coord: &mut Coordinator, parser: &mut Parser, grid: &mut Grid, s: &str) {
    for ch in s.chars() {
        let r = coord.handle_key(KeyInput::Char(ch), false);
        advance(parser, grid, &r.feed);
    }
}

fn row_string(grid: &Grid, r: usize) -> String {
    let mut s = String::new();
    for c in 0..grid.cols() {
        s.push(grid.visible_cell(r, c).ch);
    }
    s.trim_end().to_string()
}

#[test]
fn line_buffer_editing() {
    let mut lb = LineBuffer::new();
    lb.insert_char('h');
    lb.insert_char('i');
    assert_eq!(lb.text(), chars("hi"));
    assert_eq!(lb.cursor(), 2);
    assert!(lb.backspace());
    assert_eq!(lb.text(), chars("h"));
    assert!(lb.backspace());
    assert!(!lb.backspace());
    assert_eq!(lb.cursor(), 0);
    lb.insert_char('a');
    lb.insert_char('c');
    assert!(lb.cursor_left());
    lb.insert_char('b');
    assert_eq!(lb.text(), chars("abc"));
    assert!(lb.cursor_right());
    assert!(!lb.cursor_right());
    assert!(!lb.cursor_left() || lb.cursor() == 2);
}

#[test]
fn line_buffer_take_line_and_history() {
    let mut lb = LineBuffer::new();
    for ch in "ls".chars() {
        lb.insert_char(ch);
    }
    assert_eq!(lb.take_line(), chars("ls"));
    assert_eq!(lb.text(), chars(""));
    assert_eq!(lb.history_len(), 1);
    // Blank submissions are not recorded.
    lb.insert_char(' ');
    lb.insert_char('\t');
    assert_eq!(lb.take_line(), chars(" \t"));
    assert_eq!(lb.history_len(), 1);
    for ch in "pwd".chars() {
        lb.insert_char(ch);
    }
    let _ = lb.take_line();
    assert_eq!(lb.history_len(), 2);
    // Navigation: up steps back through history, down returns and clears.
    assert!(lb.history_up());
    assert_eq!(lb.text(), chars("pwd"));
    assert!(lb.history_up());
    assert_eq!(lb.text(), chars("ls"));
    assert!(!lb.history_up());
    assert!(lb.history_down());
    assert_eq!(lb.text(), chars("pwd"));
    assert!(lb.history_down());
    assert_eq!(lb.text(), chars(""));
    assert!(!lb.history_down());
}

#[test]
fn convert_lf_to_crlf_inserts_carriage_returns() {
    assert_eq!(convert_lf_to_crlf(b"hi\n"), b"hi\r\n".to_vec());
    assert_eq!(convert_lf_to_crlf(b"a\nb\nc"), b"a\r\nb\r\nc".to_vec());
    assert_eq!(convert_lf_to_crlf(b"done\r\n"), b"done\r\n".to_vec());
    assert_eq!(convert_lf_to_crlf(b"\n"), b"\r\n".to_vec());
    assert_eq!(convert_lf_to_crlf(b""), Vec::<u8>::new());
}

#[test]
fn echo_hi_end_to_end() {
    let mut coord = Coordinator::new();
    let mut parser = Parser::new();
    let mut grid = Grid::new(5, 20, 100);
    grid.reset_damage();
    advance(&mut parser, &mut grid, b"> ");
    type_line(&mut coord, &mut parser, &mut grid, "echo hi");
    assert_eq!(coord.line_text(), chars("echo hi"));
    let r = coord.handle_key(KeyInput::Enter, false);
    advance(&mut parser, &mut grid, &r.feed);
    assert_eq!(r.submit, Some(chars("echo hi")));
    assert!(coord.is_evaluating());
    // The evaluator returns the captured output bytes.
    let er = coord.handle_eval_event(EvalEvent::Completed { output: b"hi\n".to_vec(), error: None });
    advance(&mut parser, &mut grid, &er.feed);
    assert!(er.show_prompt && !er.rebuild_session);
    advance(&mut parser, &mut grid, b"> ");
    assert!(!coord.is_evaluating());
    // The output sits on the line after the prompt, the cursor on the next.
    assert_eq!(row_string(&grid, 0), "> echo hi");
    assert_eq!(row_string(&grid, 1), "hi");
    assert_eq!(row_string(&grid, 2), ">");
    assert_eq!(grid.cursor_row(), 2);
    assert!(grid.has_damage());
}

#[test]
fn evaluator_errors_are_styled_inline() {
    let mut coord = Coordinator::new();
    let mut parser = Parser::new();
    let mut grid = Grid::new(5, 40, 0);
    type_line(&mut coord, &mut parser, &mut grid, "nope");
    let r = coord.handle_key(KeyInput::Enter, false);
    advance(&mut parser, &mut grid, &r.feed);
    let er = coord.handle_eval_event(EvalEvent::Completed {
        output: Vec::new(),
        error: Some(b"no such command".to_vec()),
    });
    advance(&mut parser, &mut grid, &er.feed);
    assert_eq!(row_string(&grid, 1), "Error: no such command");
    // The error line is red; text after it returns to the default color.
    let cell = grid.visible_cell(1, 0);
    assert_eq!(cell.style.fg, cyb_core::style::Color::Indexed(1));
    assert!(er.show_prompt);
}

#[test]
fn lost_evaluator_recovers_with_fresh_session() {
    let mut coord = Coordinator::new();
    let mut parser = Parser::new();
    let mut grid = Grid::new(4, 60, 0);
    type_line(&mut coord, &mut parser, &mut grid, "boom");
    let r = coord.handle_key(KeyInput::Enter, false);
    advance(&mut parser, &mut grid, &r.feed);
    assert!(coord.is_evaluating());
    // The one-shot channel died without a result.
    let er = coord.handle_eval_event(EvalEvent::Lost);
    assert!(er.rebuild_session);
    assert!(er.show_prompt);
    assert!(er.clear_interrupt);
    assert!(!coord.is_evaluating());
    advance(&mut parser, &mut grid, &er.feed);
    assert_eq!(row_string(&grid, 1), "Error: command execution failed, engine restarted");
    assert_eq!(grid.visible_cell(1, 0).style.fg, cyb_core::style::Color::Indexed(1));
    // The coordinator is idle again: a new submission goes through.
    type_line(&mut coord, &mut parser, &mut grid, "ok");
    let r2 = coord.handle_key(KeyInput::Enter, false);
    assert_eq!(r2.submit, Some(chars("ok")));
}

#[test]
fn input_blocked_while_evaluating_except_interrupt() {
    let mut coord = Coordinator::new();
    let mut parser = Parser::new();
    let mut grid = Grid::new(4, 20, 0);
    type_line(&mut coord, &mut parser, &mut grid, "sleep");
    let _ = coord.handle_key(KeyInput::Enter, false);
    assert!(coord.is_evaluating());
    // Ordinary keys are ignored while the evaluator runs.
    let r = coord.handle_key(KeyInput::Char('x'), false);
    assert!(r.feed.is_empty() && r.submit.is_none() && !r.interrupt);
    assert_eq!(coord.line_text(), chars(""));
    let r = coord.handle_key(KeyInput::Enter, false);
    assert!(r.submit.is_none());
    // Ctrl-C requests a cooperative interrupt and echoes it.
    let r = coord.handle_key(KeyInput::Char('c'), true);
    assert!(r.interrupt);
    assert_eq!(r.feed, b"^C\r\n".to_vec());
}

#[test]
fn key_echo_bytes() {
    let mut coord = Coordinator::new();
    let r = coord.handle_key(KeyInput::Char('a'), false);
    assert_eq!(r.feed, vec![b'a']);
    assert_eq!(r.scroll, ScrollCmd::ToBottom);
    // A non-ASCII character echoes its UTF-8 encoding.
    let r = coord.handle_key(KeyInput::Char('é'), false);
    assert_eq!(r.feed, vec![0xC3, 0xA9]);
    // Backspace echoes back-blank-back only when something was deleted.
    let r = coord.handle_key(KeyInput::Backspace, false);
    assert_eq!(r.feed, vec![8, 32, 8]);
    let r = coord.handle_key(KeyInput::Backspace, false);
    let r2 = coord.handle_key(KeyInput::Backspace, false);
    assert_eq!(r.feed, vec![8, 32, 8]);
    assert!(r2.feed.is_empty());
    // Arrow keys echo cursor movement codes when the cursor can move.
    let _ = coord.handle_key(KeyInput::Char('z'), false);
    let r = coord.handle_key(KeyInput::ArrowLeft, false);
    assert_eq!(r.feed, vec![0x1B, b'[', b'D']);
    let r = coord.handle_key(KeyInput::ArrowRight, false);
    assert_eq!(r.feed, vec![0x1B, b'[', b'C']);
    let r = coord.handle_key(KeyInput::ArrowRight, false);
    assert!(r.feed.is_empty());
}

#[test]
fn escape_clears_line_and_reprompts() {
    let mut coord = Coordinator::new();
    let _ = coord.handle_key(KeyInput::Char('j'), false);
    let r = coord.handle_key(KeyInput::Escape, false);
    assert_eq!(r.feed, vec![b'\r', 0x1B, b'[', b'K']);
    assert!(r.show_prompt);
    assert_eq!(coord.line_text(), chars(""));
}

#[test]
fn history_keys_redraw_line() {
    let mut coord = Coordinator::new();
    for ch in "first".chars() {
        let _ = coord.handle_key(KeyInput::Char(ch), false);
    }
    let r = coord.handle_key(KeyInput::Enter, false);
    assert!(r.submit.is_some());
    let _ = coord.handle_eval_event(EvalEvent::Completed { output: Vec::new(), error: None });
    let r = coord.handle_key(KeyInput::ArrowUp, false);
    assert_eq!(r.feed, vec![b'\r', 0x1B, b'[', b'K']);
    assert!(r.show_prompt);
    assert_eq!(r.feed_after_prompt, b"first".to_vec());
    assert_eq!(coord.line_text(), chars("first"));
    let r = coord.handle_key(KeyInput::ArrowDown, false);
    assert!(r.show_prompt);
    assert!(r.feed_after_prompt.is_empty());
    assert_eq!(coord.line_text(), chars(""));
}

#[test]
fn blank_submission_reprompts_without_eval() {
    let mut coord = Coordinator::new();
    let _ = coord.handle_key(KeyInput::Char(' '), false);
    let r = coord.handle_key(KeyInput::Enter, false);
    assert!(r.submit.is_none());
    assert!(r.show_prompt);
    assert!(!coord.is_evaluating());
}

#[test]
fn scroll_keys_map_to_viewport_commands() {
    let mut coord = Coordinator::new();
    assert_eq!(coord.handle_key(KeyInput::Home, false).scroll, ScrollCmd::ToTop);
    assert_eq!(coord.handle_key(KeyInput::End, false).scroll, ScrollCmd::ToBottom);
    assert_eq!(coord.handle_key(KeyInput::PageUp, false).scroll, ScrollCmd::PageUp);
    assert_eq!(coord.handle_key(KeyInput::PageDown, false).scroll, ScrollCmd::PageDown);
}

#[test]
fn output_without_trailing_newline_gets_one() {
    let mut coord = Coordinator::new();
    let _ = coord.handle_key(KeyInput::Char('p'), false);
    let _ = coord.handle_key(KeyInput::Enter, false);
    let er = coord.handle_eval_event(EvalEvent::Completed { output: b"raw".to_vec(), error: None });
    assert_eq!(er.feed, b"raw\r\n".to_vec());
}
