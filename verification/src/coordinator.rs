//! The concurrency coordinator's decision logic: keyboard events and
//! evaluation results become grid bytes, evaluator dispatches, viewport
//! scrolls and session-lifecycle signals.
//!
//! The host performs the actions a response asks for, in order: scroll the
//! viewport, feed `feed`, render the prompt when `show_prompt`, feed
//! `feed_after_prompt`, then hand `submit` to the evaluator thread.  While a
//! command is evaluating, input is ignored except the interrupt request,
//! which sets a cooperative cancellation flag.  A lost evaluator (the
//! one-shot channel died without a result) surfaces an error line and asks
//! for a fresh evaluation session instead of deadlocking.

use vstd::prelude::*;
use vstd::utf8::{encode_scalar, encode_utf8};
use crate::line_buffer::{
    LineBuffer, LineBufM, m_take_line, m_backspace, m_insert_char, m_clear, m_history_up,
    m_history_down, m_cursor_left, m_cursor_right, is_blank_line,
};

verus! {

/// A discrete key-press event.
#[derive(Clone, Copy, Debug, PartialEq, Eq, Structural)]
pub enum KeyInput {
    Char(char),
    Enter,
    Backspace,
    Tab,
    Escape,
    ArrowUp,
    ArrowDown,
    ArrowLeft,
    ArrowRight,
    Home,
    End,
    PageUp,
    PageDown,
}

/// A viewport scroll the host should apply to the grid.
#[derive(Clone, Copy, Debug, PartialEq, Eq, Structural)]
pub enum ScrollCmd {
    Stay,
    ToTop,
    ToBottom,
    PageUp,
    PageDown,
}

/// What the host must do after a key press, in order.
pub struct KeyResponse {
    pub scroll: ScrollCmd,
    pub feed: Vec<u8>,
    pub show_prompt: bool,
    pub feed_after_prompt: Vec<u8>,
    pub submit: Option<Vec<char>>,
    pub interrupt: bool,
}

/// Spec-level mirror of [`KeyResponse`].
#[verifier::ext_equal]
pub struct KeyResponseM {
    pub scroll: ScrollCmd,
    pub feed: Seq<u8>,
    pub show_prompt: bool,
    pub feed_after_prompt: Seq<u8>,
    pub submit: Option<Seq<char>>,
    pub interrupt: bool,
}

impl View for KeyResponse {
    type V = KeyResponseM;

    open spec fn view(&self) -> KeyResponseM {
        KeyResponseM {
            scroll: self.scroll,
            feed: self.feed@,
            show_prompt: self.show_prompt,
            feed_after_prompt: self.feed_after_prompt@,
            submit: match &self.submit {
                Option::Some(line) => Option::Some(line@),
                Option::None => Option::None,
            },
            interrupt: self.interrupt,
        }
    }
}

/// The result of one command evaluation, or the loss of the evaluator.
pub enum EvalEvent {
    /// The evaluator returned: captured output bytes and an optional error
    /// message (already bytes).
    Completed { output: Vec<u8>, error: Option<Vec<u8>> },
    /// The one-shot channel died without a result: the evaluator thread is
    /// gone and its session with it.
    Lost,
}

/// Spec-level mirror of [`EvalEvent`].
pub enum EvalEventM {
    Completed { output: Seq<u8>, error: Option<Seq<u8>> },
    Lost,
}

impl View for EvalEvent {
    type V = EvalEventM;

    open spec fn view(&self) -> EvalEventM {
        match self {
            EvalEvent::Completed { output, error } => EvalEventM::Completed {
                output: output@,
                error: match error {
                    Option::Some(e) => Option::Some(e@),
                    Option::None => Option::None,
                },
            },
            EvalEvent::Lost => EvalEventM::Lost,
        }
    }
}

/// What the host must do after an evaluation event.
pub struct EvalResponse {
    pub feed: Vec<u8>,
    pub show_prompt: bool,
    pub rebuild_session: bool,
    pub clear_interrupt: bool,
}

/// Spec-level mirror of [`EvalResponse`].
#[verifier::ext_equal]
pub struct EvalResponseM {
    pub feed: Seq<u8>,
    pub show_prompt: bool,
    pub rebuild_session: bool,
    pub clear_interrupt: bool,
}

impl View for EvalResponse {
    type V = EvalResponseM;

    open spec fn view(&self) -> EvalResponseM {
        EvalResponseM {
            feed: self.feed@,
            show_prompt: self.show_prompt,
            rebuild_session: self.rebuild_session,
            clear_interrupt: self.clear_interrupt,
        }
    }
}

/// Mathematical model of the coordinator.
#[verifier::ext_equal]
pub struct CoordM {
    pub line: LineBufM,
    pub evaluating: bool,
}

impl CoordM {
    /// Well-formedness of the held line buffer.
    pub open spec fn wf(self) -> bool {
        self.line.wf()
    }
}

/// CR LF, the terminal's line ending.
pub open spec fn crlf_seq() -> Seq<u8> {
    seq![13u8, 10u8]
}

/// The echo for a successful backspace: back, blank, back.
pub open spec fn backspace_echo() -> Seq<u8> {
    seq![8u8, 32u8, 8u8]
}

/// Carriage return plus erase-in-line: redraw the input line from scratch.
pub open spec fn kill_line_seq() -> Seq<u8> {
    seq![13u8, 27u8, 91u8, 75u8]
}

/// Cursor-back escape code.
pub open spec fn cursor_left_seq() -> Seq<u8> {
    seq![27u8, 91u8, 68u8]
}

/// Cursor-forward escape code.
pub open spec fn cursor_right_seq() -> Seq<u8> {
    seq![27u8, 91u8, 67u8]
}

/// The echo for an interrupt request.
pub open spec fn interrupt_echo() -> Seq<u8> {
    seq![94u8, 67u8, 13u8, 10u8]
}

/// The styled prefix of an error line (red, then `Error: `).
pub open spec fn error_prefix() -> Seq<u8> {
    seq![27u8, 91u8, 51u8, 49u8, 109u8, 69u8, 114u8, 114u8, 111u8, 114u8, 58u8, 32u8]
}

/// The styled suffix of an error line (style reset, then CR LF).
pub open spec fn error_suffix() -> Seq<u8> {
    seq![27u8, 91u8, 48u8, 109u8, 13u8, 10u8]
}

/// The message shown when the evaluator thread is lost.
pub open spec fn lost_text() -> Seq<u8> {
    seq![
        99u8, 111u8, 109u8, 109u8, 97u8, 110u8, 100u8, 32u8, 101u8, 120u8, 101u8, 99u8, 117u8,
        116u8, 105u8, 111u8, 110u8, 32u8, 102u8, 97u8, 105u8, 108u8, 101u8, 100u8, 44u8, 32u8,
        101u8, 110u8, 103u8, 105u8, 110u8, 101u8, 32u8, 114u8, 101u8, 115u8, 116u8, 97u8, 114u8,
        116u8, 101u8, 100u8,
    ]
}

/// A response that does nothing.
pub open spec fn m_empty_key_resp() -> KeyResponseM {
    KeyResponseM {
        scroll: ScrollCmd::Stay,
        feed: Seq::empty(),
        show_prompt: false,
        feed_after_prompt: Seq::empty(),
        submit: Option::None,
        interrupt: false,
    }
}

/// Line-ending normalization: a carriage return is inserted before every
/// line feed not already preceded by one.
pub open spec fn crlf_of(s: Seq<u8>) -> Seq<u8>
    decreases s.len(),
{
    if s.len() == 0 {
        Seq::empty()
    } else {
        crlf_of(s.drop_last()) + (if s.last() == 10 && (s.len() == 1 || s[s.len() - 2] != 13) {
            seq![13u8, 10u8]
        } else {
            seq![s.last()]
        })
    }
}

/// What is fed to the grid for a command's captured output: the output with
/// normalized line endings, completed by a line ending when it lacks one.
pub open spec fn output_feed(o: Seq<u8>) -> Seq<u8> {
    if o.len() == 0 {
        Seq::empty()
    } else if o.last() == 10 {
        crlf_of(o)
    } else {
        crlf_of(o) + crlf_seq()
    }
}

/// The styled error line for an evaluation error, if any.
pub open spec fn error_feed(e: Option<Seq<u8>>) -> Seq<u8> {
    match e {
        Option::Some(m) => error_prefix() + m + error_suffix(),
        Option::None => Seq::empty(),
    }
}

/// Decision function for one key press (`ctrl` is the modifier state used
/// for interrupt detection).
pub open spec fn m_handle_key(c: CoordM, key: KeyInput, ctrl: bool) -> (CoordM, KeyResponseM) {
    if c.evaluating {
        if ctrl && key == KeyInput::Char('c') {
            (
                c,
                KeyResponseM { feed: interrupt_echo(), interrupt: true, ..m_empty_key_resp() },
            )
        } else {
            (c, m_empty_key_resp())
        }
    } else {
        match key {
            KeyInput::Char(ch) => (
                CoordM { line: m_insert_char(c.line, ch), ..c },
                KeyResponseM {
                    scroll: ScrollCmd::ToBottom,
                    feed: encode_scalar(ch as u32),
                    ..m_empty_key_resp()
                },
            ),
            KeyInput::Enter => {
                let lb2 = m_take_line(c.line).0;
                let line = m_take_line(c.line).1;
                if is_blank_line(line) {
                    (
                        CoordM { line: lb2, ..c },
                        KeyResponseM {
                            scroll: ScrollCmd::ToBottom,
                            feed: crlf_seq(),
                            show_prompt: true,
                            ..m_empty_key_resp()
                        },
                    )
                } else {
                    (
                        CoordM { line: lb2, evaluating: true },
                        KeyResponseM {
                            scroll: ScrollCmd::ToBottom,
                            feed: crlf_seq(),
                            submit: Option::Some(line),
                            ..m_empty_key_resp()
                        },
                    )
                }
            },
            KeyInput::Backspace => {
                let lb2 = m_backspace(c.line).0;
                let moved = m_backspace(c.line).1;
                (
                    CoordM { line: lb2, ..c },
                    KeyResponseM {
                        feed: if moved {
                            backspace_echo()
                        } else {
                            Seq::empty()
                        },
                        ..m_empty_key_resp()
                    },
                )
            },
            KeyInput::Tab => (
                CoordM { line: m_insert_char(c.line, '\t'), ..c },
                KeyResponseM { feed: seq![9u8], ..m_empty_key_resp() },
            ),
            KeyInput::Escape => (
                CoordM { line: m_clear(c.line), ..c },
                KeyResponseM { feed: kill_line_seq(), show_prompt: true, ..m_empty_key_resp() },
            ),
            KeyInput::ArrowUp => {
                let lb2 = m_history_up(c.line).0;
                let moved = m_history_up(c.line).1;
                if moved {
                    (
                        CoordM { line: lb2, ..c },
                        KeyResponseM {
                            feed: kill_line_seq(),
                            show_prompt: true,
                            feed_after_prompt: encode_utf8(lb2.chars),
                            ..m_empty_key_resp()
                        },
                    )
                } else {
                    (CoordM { line: lb2, ..c }, m_empty_key_resp())
                }
            },
            KeyInput::ArrowDown => {
                let lb2 = m_history_down(c.line).0;
                let moved = m_history_down(c.line).1;
                if moved {
                    (
                        CoordM { line: lb2, ..c },
                        KeyResponseM {
                            feed: kill_line_seq(),
                            show_prompt: true,
                            feed_after_prompt: encode_utf8(lb2.chars),
                            ..m_empty_key_resp()
                        },
                    )
                } else {
                    (CoordM { line: lb2, ..c }, m_empty_key_resp())
                }
            },
            KeyInput::ArrowLeft => {
                let lb2 = m_cursor_left(c.line).0;
                let moved = m_cursor_left(c.line).1;
                (
                    CoordM { line: lb2, ..c },
                    KeyResponseM {
                        feed: if moved {
                            cursor_left_seq()
                        } else {
                            Seq::empty()
                        },
                        ..m_empty_key_resp()
                    },
                )
            },
            KeyInput::ArrowRight => {
                let lb2 = m_cursor_right(c.line).0;
                let moved = m_cursor_right(c.line).1;
                (
                    CoordM { line: lb2, ..c },
                    KeyResponseM {
                        feed: if moved {
                            cursor_right_seq()
                        } else {
                            Seq::empty()
                        },
                        ..m_empty_key_resp()
                    },
                )
            },
            KeyInput::Home => (c, KeyResponseM { scroll: ScrollCmd::ToTop, ..m_empty_key_resp() }),
            KeyInput::End => (
                c,
                KeyResponseM { scroll: ScrollCmd::ToBottom, ..m_empty_key_resp() },
            ),
            KeyInput::PageUp => (
                c,
                KeyResponseM { scroll: ScrollCmd::PageUp, ..m_empty_key_resp() },
            ),
            KeyInput::PageDown => (
                c,
                KeyResponseM { scroll: ScrollCmd::PageDown, ..m_empty_key_resp() },
            ),
        }
    }
}

/// Decision function for one evaluation event.  A result ends the busy
/// state; a lost evaluator additionally surfaces an error line and asks for
/// a fresh session.
pub open spec fn m_handle_eval(c: CoordM, ev: EvalEventM) -> (CoordM, EvalResponseM) {
    if !c.evaluating {
        (
            c,
            EvalResponseM {
                feed: Seq::empty(),
                show_prompt: false,
                rebuild_session: false,
                clear_interrupt: false,
            },
        )
    } else {
        match ev {
            EvalEventM::Completed { output, error } => (
                CoordM { evaluating: false, ..c },
                EvalResponseM {
                    feed: output_feed(output) + error_feed(error),
                    show_prompt: true,
                    rebuild_session: false,
                    clear_interrupt: true,
                },
            ),
            EvalEventM::Lost => (
                CoordM { evaluating: false, ..c },
                EvalResponseM {
                    feed: error_prefix() + lost_text() + error_suffix(),
                    show_prompt: true,
                    rebuild_session: true,
                    clear_interrupt: true,
                },
            ),
        }
    }
}

/// A lost evaluator is fatal but recoverable: the coordinator returns to
/// idle, surfaces a styled error line, and asks for a fresh session.
///
/// Law: from a busy coordinator, the lost-evaluator event always yields an
/// idle coordinator whose response rebuilds the session, shows a prompt,
/// and feeds an error line; the line buffer is untouched.
pub proof fn lemma_lost_evaluator_recovers(c: CoordM)
    requires
        c.evaluating,
    ensures
        !m_handle_eval(c, EvalEventM::Lost).0.evaluating,
        m_handle_eval(c, EvalEventM::Lost).0.line == c.line,
        m_handle_eval(c, EvalEventM::Lost).1.rebuild_session,
        m_handle_eval(c, EvalEventM::Lost).1.show_prompt,
        m_handle_eval(c, EvalEventM::Lost).1.feed == error_prefix() + lost_text()
            + error_suffix(),
{
}

/// While a command is evaluating, no key press feeds text, submits a line,
/// or touches the line buffer; only Ctrl-C acts, and it only requests a
/// cooperative interrupt.
///
/// Law: line submission is blocked while an evaluator is active, except the
/// interrupt request.
pub proof fn lemma_busy_blocks_submission(c: CoordM, key: KeyInput, ctrl: bool)
    requires
        c.evaluating,
    ensures
        m_handle_key(c, key, ctrl).0 == c,
        m_handle_key(c, key, ctrl).1.submit is None,
        m_handle_key(c, key, ctrl).1.interrupt <==> (ctrl && key == KeyInput::Char('c')),
{
}

/// The coordinator: line-buffer ownership plus the busy flag for the single
/// transient evaluator.
pub struct Coordinator {
    line: LineBuffer,
    evaluating: bool,
}

impl View for Coordinator {
    type V = CoordM;

    closed spec fn view(&self) -> CoordM {
        CoordM { line: self.line@, evaluating: self.evaluating }
    }
}

/// A fresh, idle coordinator.
pub open spec fn m_coordinator_new() -> CoordM {
    CoordM { line: crate::line_buffer::m_line_buffer_new(), evaluating: false }
}

impl Coordinator {
    /// A fresh, idle coordinator with an empty line buffer.
    pub fn new() -> (c: Coordinator)
        ensures
            c@ == m_coordinator_new(),
            c@.wf(),
    {
        let c = Coordinator { line: LineBuffer::new(), evaluating: false };
        proof {
            assert(c@ =~= m_coordinator_new());
        }
        c
    }

    /// Whether an evaluator currently owns the session.
    pub fn is_evaluating(&self) -> (r: bool)
        ensures
            r == self@.evaluating,
    {
        self.evaluating
    }

    /// The current line-buffer text.
    pub fn line_text(&self) -> (r: Vec<char>)
        ensures
            r@ == self@.line.chars,
    {
        self.line.text()
    }

    /// Handle one key press, returning what the host must do.
    pub fn handle_key(&mut self, key: KeyInput, ctrl: bool) -> (r: KeyResponse)
        requires
            old(self)@.wf(),
            old(self)@.line.chars.len() < usize::MAX,
        ensures
            final(self)@ == m_handle_key(old(self)@, key, ctrl).0,
            r@ == m_handle_key(old(self)@, key, ctrl).1,
            final(self)@.wf(),
    {
        if self.evaluating {
            if ctrl && key == KeyInput::Char('c') {
                let mut feed: Vec<u8> = Vec::new();
                feed.push(94);
                feed.push(67);
                feed.push(13);
                feed.push(10);
                let r = KeyResponse { interrupt: true, feed, ..empty_key_response() };
                proof {
                    assert(r@.feed =~= interrupt_echo());
                    assert(r@ =~= m_handle_key(old(self)@, key, ctrl).1);
                }
                return r;
            }
            let r = empty_key_response();
            proof {
                assert(r@ =~= m_handle_key(old(self)@, key, ctrl).1);
            }
            return r;
        }
        match key {
            KeyInput::Char(ch) => {
                self.line.insert_char(ch);
                let feed = char_utf8_bytes(ch);
                let r = KeyResponse { scroll: ScrollCmd::ToBottom, feed, ..empty_key_response() };
                proof {
                    assert(self@ =~= m_handle_key(old(self)@, key, ctrl).0);
                    assert(r@ =~= m_handle_key(old(self)@, key, ctrl).1);
                }
                r
            },
            KeyInput::Enter => {
                let line = self.line.take_line();
                let mut feed: Vec<u8> = Vec::new();
                feed.push(13);
                feed.push(10);
                proof {
                    assert(feed@ =~= crlf_seq());
                }
                if is_blank_vec(&line) {
                    let r = KeyResponse {
                        scroll: ScrollCmd::ToBottom,
                        feed,
                        show_prompt: true,
                        ..empty_key_response()
                    };
                    proof {
                        assert(self@ =~= m_handle_key(old(self)@, key, ctrl).0);
                        assert(r@ =~= m_handle_key(old(self)@, key, ctrl).1);
                    }
                    r
                } else {
                    self.evaluating = true;
                    let r = KeyResponse {
                        scroll: ScrollCmd::ToBottom,
                        feed,
                        submit: Some(line),
                        ..empty_key_response()
                    };
                    proof {
                        assert(self@ =~= m_handle_key(old(self)@, key, ctrl).0);
                        assert(r@ =~= m_handle_key(old(self)@, key, ctrl).1);
                    }
                    r
                }
            },
            KeyInput::Backspace => {
                let moved = self.line.backspace();
                let mut feed: Vec<u8> = Vec::new();
                if moved {
                    feed.push(8);
                    feed.push(32);
                    feed.push(8);
                    proof {
                        assert(feed@ =~= backspace_echo());
                    }
                }
                let r = KeyResponse { feed, ..empty_key_response() };
                proof {
                    assert(self@ =~= m_handle_key(old(self)@, key, ctrl).0);
                    assert(r@ =~= m_handle_key(old(self)@, key, ctrl).1);
                }
                r
            },
            KeyInput::Tab => {
                self.line.insert_char('\t');
                let mut feed: Vec<u8> = Vec::new();
                feed.push(9);
                let r = KeyResponse { feed, ..empty_key_response() };
                proof {
                    assert(r@.feed =~= seq![9u8]);
                    assert(self@ =~= m_handle_key(old(self)@, key, ctrl).0);
                    assert(r@ =~= m_handle_key(old(self)@, key, ctrl).1);
                }
                r
            },
            KeyInput::Escape => {
                self.line.clear();
                let feed = kill_line_vec();
                let r = KeyResponse { feed, show_prompt: true, ..empty_key_response() };
                proof {
                    assert(self@ =~= m_handle_key(old(self)@, key, ctrl).0);
                    assert(r@ =~= m_handle_key(old(self)@, key, ctrl).1);
                }
                r
            },
            KeyInput::ArrowUp => {
                let moved = self.line.history_up();
                let r = if moved {
                    let feed = kill_line_vec();
                    let text = self.line.text();
                    let feed_after_prompt = utf8_of_chars(&text);
                    KeyResponse { feed, show_prompt: true, feed_after_prompt, ..empty_key_response() }
                } else {
                    empty_key_response()
                };
                proof {
                    assert(self@ =~= m_handle_key(old(self)@, key, ctrl).0);
                    assert(r@ =~= m_handle_key(old(self)@, key, ctrl).1);
                }
                r
            },
            KeyInput::ArrowDown => {
                let moved = self.line.history_down();
                let r = if moved {
                    let feed = kill_line_vec();
                    let text = self.line.text();
                    let feed_after_prompt = utf8_of_chars(&text);
                    KeyResponse { feed, show_prompt: true, feed_after_prompt, ..empty_key_response() }
                } else {
                    empty_key_response()
                };
                proof {
                    assert(self@ =~= m_handle_key(old(self)@, key, ctrl).0);
                    assert(r@ =~= m_handle_key(old(self)@, key, ctrl).1);
                }
                r
            },
            KeyInput::ArrowLeft => {
                let moved = self.line.cursor_left();
                let mut feed: Vec<u8> = Vec::new();
                if moved {
                    feed.push(27);
                    feed.push(91);
                    feed.push(68);
                    proof {
                        assert(feed@ =~= cursor_left_seq());
                    }
                }
                let r = KeyResponse { feed, ..empty_key_response() };
                proof {
                    assert(self@ =~= m_handle_key(old(self)@, key, ctrl).0);
                    assert(r@ =~= m_handle_key(old(self)@, key, ctrl).1);
                }
                r
            },
            KeyInput::ArrowRight => {
                let moved = self.line.cursor_right();
                let mut feed: Vec<u8> = Vec::new();
                if moved {
                    feed.push(27);
                    feed.push(91);
                    feed.push(67);
                    proof {
                        assert(feed@ =~= cursor_right_seq());
                    }
                }
                let r = KeyResponse { feed, ..empty_key_response() };
                proof {
                    assert(self@ =~= m_handle_key(old(self)@, key, ctrl).0);
                    assert(r@ =~= m_handle_key(old(self)@, key, ctrl).1);
                }
                r
            },
            KeyInput::Home => {
                let r = KeyResponse { scroll: ScrollCmd::ToTop, ..empty_key_response() };
                proof {
                    assert(r@ =~= m_handle_key(old(self)@, key, ctrl).1);
                }
                r
            },
            KeyInput::End => {
                let r = KeyResponse { scroll: ScrollCmd::ToBottom, ..empty_key_response() };
                proof {
                    assert(r@ =~= m_handle_key(old(self)@, key, ctrl).1);
                }
                r
            },
            KeyInput::PageUp => {
                let r = KeyResponse { scroll: ScrollCmd::PageUp, ..empty_key_response() };
                proof {
                    assert(r@ =~= m_handle_key(old(self)@, key, ctrl).1);
                }
                r
            },
            KeyInput::PageDown => {
                let r = KeyResponse { scroll: ScrollCmd::PageDown, ..empty_key_response() };
                proof {
                    assert(r@ =~= m_handle_key(old(self)@, key, ctrl).1);
                }
                r
            },
        }
    }

    /// Handle one evaluation event, returning what the host must do.
    pub fn handle_eval_event(&mut self, ev: EvalEvent) -> (r: EvalResponse)
        requires
            old(self)@.wf(),
        ensures
            final(self)@ == m_handle_eval(old(self)@, ev@).0,
            r@ == m_handle_eval(old(self)@, ev@).1,
            final(self)@.wf(),
    {
        if !self.evaluating {
            let r = EvalResponse {
                feed: Vec::new(),
                show_prompt: false,
                rebuild_session: false,
                clear_interrupt: false,
            };
            proof {
                assert(r@ =~= m_handle_eval(old(self)@, ev@).1);
            }
            return r;
        }
        self.evaluating = false;
        match ev {
            EvalEvent::Completed { output, error } => {
                let mut feed: Vec<u8> = Vec::new();
                if output.len() > 0 {
                    let mut normalized = convert_lf_to_crlf(output.as_slice());
                    feed.append(&mut normalized);
                    if output[output.len() - 1] != 10 {
                        feed.push(13);
                        feed.push(10);
                    }
                }
                proof {
                    assert(feed@ =~= output_feed(output@));
                }
                match &error {
                    Some(msg) => {
                        append_error_prefix(&mut feed);
                        feed.extend_from_slice(msg.as_slice());
                        append_error_suffix(&mut feed);
                    },
                    None => {},
                }
                let r = EvalResponse {
                    feed,
                    show_prompt: true,
                    rebuild_session: false,
                    clear_interrupt: true,
                };
                proof {
                    assert(self@ =~= m_handle_eval(old(self)@, ev@).0);
                    assert(r@.feed =~= m_handle_eval(old(self)@, ev@).1.feed);
                    assert(r@ =~= m_handle_eval(old(self)@, ev@).1);
                }
                r
            },
            EvalEvent::Lost => {
                let mut feed: Vec<u8> = Vec::new();
                append_error_prefix(&mut feed);
                append_lost_text(&mut feed);
                append_error_suffix(&mut feed);
                let r = EvalResponse {
                    feed,
                    show_prompt: true,
                    rebuild_session: true,
                    clear_interrupt: true,
                };
                proof {
                    assert(self@ =~= m_handle_eval(old(self)@, ev@).0);
                    assert(r@.feed =~= m_handle_eval(old(self)@, ev@).1.feed);
                    assert(r@ =~= m_handle_eval(old(self)@, ev@).1);
                }
                r
            },
        }
    }
}

/// A response that does nothing.
fn empty_key_response() -> (r: KeyResponse)
    ensures
        r@ == m_empty_key_resp(),
{
    let r = KeyResponse {
        scroll: ScrollCmd::Stay,
        feed: Vec::new(),
        show_prompt: false,
        feed_after_prompt: Vec::new(),
        submit: None,
        interrupt: false,
    };
    proof {
        assert(r@ =~= m_empty_key_resp());
    }
    r
}

/// Whether every character of the line is whitespace.
fn is_blank_vec(v: &Vec<char>) -> (r: bool)
    ensures
        r == is_blank_line(v@),
{
    let mut i: usize = 0;
    while i < v.len()
        invariant
            i <= v@.len(),
            forall|j: int| 0 <= j < i ==> crate::line_buffer::is_blank_char(#[trigger] v@[j]),
        decreases v@.len() - i,
    {
        let c = v[i];
        if !(c == ' ' || c == '\t' || c == '\r' || c == '\n') {
            proof {
                assert(!crate::line_buffer::is_blank_char(v@[i as int]));
            }
            return false;
        }
        i = i + 1;
    }
    true
}

/// The redraw-line escape bytes.
fn kill_line_vec() -> (r: Vec<u8>)
    ensures
        r@ == kill_line_seq(),
{
    let mut v: Vec<u8> = Vec::new();
    v.push(13);
    v.push(27);
    v.push(91);
    v.push(75);
    proof {
        assert(v@ =~= kill_line_seq());
    }
    v
}

/// Append the styled error-line prefix.
fn append_error_prefix(v: &mut Vec<u8>)
    ensures
        final(v)@ == old(v)@ + error_prefix(),
{
    let pre: [u8; 12] = [27, 91, 51, 49, 109, 69, 114, 114, 111, 114, 58, 32];
    v.extend_from_slice(&pre);
    proof {
        assert(v@ =~= old(v)@ + error_prefix());
    }
}

/// Append the styled error-line suffix.
fn append_error_suffix(v: &mut Vec<u8>)
    ensures
        final(v)@ == old(v)@ + error_suffix(),
{
    let suf: [u8; 6] = [27, 91, 48, 109, 13, 10];
    v.extend_from_slice(&suf);
    proof {
        assert(v@ =~= old(v)@ + error_suffix());
    }
}

/// Append the lost-evaluator message text.
fn append_lost_text(v: &mut Vec<u8>)
    ensures
        final(v)@ == old(v)@ + lost_text(),
{
    let msg: [u8; 42] = [
        99, 111, 109, 109, 97, 110, 100, 32, 101, 120, 101, 99, 117, 116, 105, 111, 110, 32, 102,
        97, 105, 108, 101, 100, 44, 32, 101, 110, 103, 105, 110, 101, 32, 114, 101, 115, 116, 97,
        114, 116, 101, 100,
    ];
    v.extend_from_slice(&msg);
    proof {
        assert(v@ =~= old(v)@ + lost_text());
    }
}

/// Relies on char::encode_utf8: the UTF-8 encoding of one character, which
/// matches the specification-level encoding of its scalar value.
#[verifier::external_body]
fn char_utf8_bytes(c: char) -> (r: Vec<u8>)
    ensures
        r@ == encode_scalar(c as u32),
{
    let mut buf = [0u8; 4];
    c.encode_utf8(&mut buf).as_bytes().to_vec()
}

/// `encode_utf8` distributes over appending one character.
proof fn lemma_encode_utf8_snoc(s: Seq<char>, c: char)
    ensures
        encode_utf8(s.push(c)) == encode_utf8(s) + encode_scalar(c as u32),
    decreases s.len(),
{
    if s.len() == 0 {
        assert(s.push(c)[0] == c);
        assert(s.push(c).drop_first() =~= Seq::<char>::empty());
        assert(encode_utf8(s.push(c).drop_first()) == Seq::<u8>::empty());
        assert(encode_utf8(s) == Seq::<u8>::empty());
        assert(encode_utf8(s.push(c)) =~= encode_utf8(s) + encode_scalar(c as u32));
    } else {
        assert(s.push(c)[0] == s[0]);
        assert(s.push(c).drop_first() =~= s.drop_first().push(c));
        lemma_encode_utf8_snoc(s.drop_first(), c);
        assert(encode_utf8(s.push(c)) == encode_scalar(s[0] as u32) + encode_utf8(
            s.drop_first().push(c),
        ));
        assert(encode_utf8(s.push(c)) =~= encode_utf8(s) + encode_scalar(c as u32));
    }
}

/// The UTF-8 encoding of a character sequence.
fn utf8_of_chars(cs: &Vec<char>) -> (r: Vec<u8>)
    ensures
        r@ == encode_utf8(cs@),
{
    let mut out: Vec<u8> = Vec::new();
    let mut i: usize = 0;
    proof {
        assert(cs@.subrange(0, 0) =~= Seq::<char>::empty());
    }
    while i < cs.len()
        invariant
            i <= cs@.len(),
            out@ == encode_utf8(cs@.subrange(0, i as int)),
        decreases cs@.len() - i,
    {
        let mut piece = char_utf8_bytes(cs[i]);
        proof {
            lemma_encode_utf8_snoc(cs@.subrange(0, i as int), cs@[i as int]);
            assert(cs@.subrange(0, i as int).push(cs@[i as int]) =~= cs@.subrange(0, i + 1));
        }
        out.append(&mut piece);
        i = i + 1;
    }
    proof {
        assert(cs@.subrange(0, cs@.len() as int) =~= cs@);
    }
    out
}

/// Normalize line endings: a carriage return is inserted before every line
/// feed not already preceded by one.
pub fn convert_lf_to_crlf(input: &[u8]) -> (r: Vec<u8>)
    ensures
        r@ == crlf_of(input@),
{
    let mut out: Vec<u8> = Vec::new();
    let mut i: usize = 0;
    proof {
        assert(input@.subrange(0, 0) =~= Seq::<u8>::empty());
    }
    while i < input.len()
        invariant
            i <= input@.len(),
            out@ == crlf_of(input@.subrange(0, i as int)),
        decreases input@.len() - i,
    {
        let b = input[i];
        proof {
            assert(input@.subrange(0, i + 1).drop_last() =~= input@.subrange(0, i as int));
        }
        if b == 10 && (i == 0 || input[i - 1] != 13) {
            out.push(13);
            out.push(10);
        } else {
            out.push(b);
        }
        proof {
            assert(out@ =~= crlf_of(input@.subrange(0, i + 1)));
        }
        i = i + 1;
    }
    proof {
        assert(input@.subrange(0, input@.len() as int) =~= input@);
    }
    out
}

} // verus!
