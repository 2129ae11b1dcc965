//! Command-line editing state: the current text, a cursor, and an ordered
//! command history with a navigation index.
//!
//! Text is held as characters, so the cursor offset always sits on a
//! character boundary.  Submitting a line clears the buffer and appends
//! non-blank lines to the history.

use vstd::prelude::*;

verus! {

/// Mathematical model of the line buffer.
#[verifier::ext_equal]
pub struct LineBufM {
    pub chars: Seq<char>,
    pub cursor: int,
    pub history: Seq<Seq<char>>,
    pub history_index: Option<int>,
}

impl LineBufM {
    /// Well-formedness: cursor on a valid boundary, navigation index in range.
    pub open spec fn wf(self) -> bool {
        &&& 0 <= self.cursor <= self.chars.len()
        &&& match self.history_index {
            Option::Some(i) => 0 <= i < self.history.len(),
            Option::None => true,
        }
    }
}

/// An ASCII whitespace character (what a blank submission is made of).
pub open spec fn is_blank_char(c: char) -> bool {
    c == ' ' || c == '\t' || c == '\r' || c == '\n'
}

/// A line of nothing but whitespace, which is not recorded in history.
pub open spec fn is_blank_line(s: Seq<char>) -> bool {
    forall|i: int| 0 <= i < s.len() ==> is_blank_char(#[trigger] s[i])
}

/// A fresh, empty line buffer.
pub open spec fn m_line_buffer_new() -> LineBufM {
    LineBufM { chars: Seq::empty(), cursor: 0, history: Seq::empty(), history_index: Option::None }
}

/// Insert one character at the cursor.
pub open spec fn m_insert_char(lb: LineBufM, ch: char) -> LineBufM {
    LineBufM { chars: lb.chars.insert(lb.cursor, ch), cursor: lb.cursor + 1, ..lb }
}

/// Delete the character before the cursor; false when at the start.
pub open spec fn m_backspace(lb: LineBufM) -> (LineBufM, bool) {
    if lb.cursor > 0 {
        (
            LineBufM {
                chars: lb.chars.remove(lb.cursor - 1),
                cursor: lb.cursor - 1,
                ..lb
            },
            true,
        )
    } else {
        (lb, false)
    }
}

/// Move the cursor one character left; false when at the start.
pub open spec fn m_cursor_left(lb: LineBufM) -> (LineBufM, bool) {
    if lb.cursor > 0 {
        (LineBufM { cursor: lb.cursor - 1, ..lb }, true)
    } else {
        (lb, false)
    }
}

/// Move the cursor one character right; false when at the end.
pub open spec fn m_cursor_right(lb: LineBufM) -> (LineBufM, bool) {
    if lb.cursor < lb.chars.len() {
        (LineBufM { cursor: lb.cursor + 1, ..lb }, true)
    } else {
        (lb, false)
    }
}

/// Submit the line: the buffer empties, the navigation index resets, and a
/// non-blank line is appended to the history.
pub open spec fn m_take_line(lb: LineBufM) -> (LineBufM, Seq<char>) {
    (
        LineBufM {
            chars: Seq::empty(),
            cursor: 0,
            history: if !is_blank_line(lb.chars) {
                lb.history.push(lb.chars)
            } else {
                lb.history
            },
            history_index: Option::None,
        },
        lb.chars,
    )
}

/// Clear the buffer without touching the history.
pub open spec fn m_clear(lb: LineBufM) -> LineBufM {
    LineBufM { chars: Seq::empty(), cursor: 0, ..lb }
}

/// Step to the previous history entry; false at the oldest entry (or with
/// no history).
pub open spec fn m_history_up(lb: LineBufM) -> (LineBufM, bool) {
    if lb.history.len() == 0 {
        (lb, false)
    } else {
        match lb.history_index {
            Option::None => {
                let idx = lb.history.len() - 1;
                (
                    LineBufM {
                        chars: lb.history[idx],
                        cursor: lb.history[idx].len() as int,
                        history_index: Option::Some(idx),
                        ..lb
                    },
                    true,
                )
            },
            Option::Some(i) => {
                if i == 0 {
                    (lb, false)
                } else {
                    (
                        LineBufM {
                            chars: lb.history[i - 1],
                            cursor: lb.history[i - 1].len() as int,
                            history_index: Option::Some(i - 1),
                            ..lb
                        },
                        true,
                    )
                }
            },
        }
    }
}

/// Step to the next history entry; past the newest entry the buffer clears.
/// False when not navigating.
pub open spec fn m_history_down(lb: LineBufM) -> (LineBufM, bool) {
    match lb.history_index {
        Option::None => (lb, false),
        Option::Some(i) => {
            if i + 1 >= lb.history.len() {
                (
                    LineBufM { chars: Seq::empty(), cursor: 0, history_index: Option::None, ..lb },
                    true,
                )
            } else {
                (
                    LineBufM {
                        chars: lb.history[i + 1],
                        cursor: lb.history[i + 1].len() as int,
                        history_index: Option::Some(i + 1),
                        ..lb
                    },
                    true,
                )
            }
        },
    }
}

/// The spec-level contents of a history buffer.
pub open spec fn hist_view(v: Seq<Vec<char>>) -> Seq<Seq<char>> {
    v.map_values(|l: Vec<char>| l@)
}

/// Command-line editing state.
pub struct LineBuffer {
    chars: Vec<char>,
    cursor: usize,
    history: Vec<Vec<char>>,
    history_index: Option<usize>,
}

impl View for LineBuffer {
    type V = LineBufM;

    closed spec fn view(&self) -> LineBufM {
        LineBufM {
            chars: self.chars@,
            cursor: self.cursor as int,
            history: hist_view(self.history@),
            history_index: match self.history_index {
                Option::Some(i) => Option::Some(i as int),
                Option::None => Option::None,
            },
        }
    }
}

/// A copy of a character vector.
fn copy_chars(v: &Vec<char>) -> (r: Vec<char>)
    ensures
        r@ == v@,
{
    let mut out: Vec<char> = Vec::new();
    let mut i: usize = 0;
    while i < v.len()
        invariant
            i <= v@.len(),
            out@ == v@.subrange(0, i as int),
        decreases v@.len() - i,
    {
        out.push(v[i]);
        proof {
            assert(out@ =~= v@.subrange(0, i + 1));
        }
        i = i + 1;
    }
    proof {
        assert(out@ =~= v@);
    }
    out
}

/// Whether every character of the line is whitespace.
fn is_blank(v: &Vec<char>) -> (r: bool)
    ensures
        r == is_blank_line(v@),
{
    let mut i: usize = 0;
    while i < v.len()
        invariant
            i <= v@.len(),
            forall|j: int| 0 <= j < i ==> is_blank_char(#[trigger] v@[j]),
        decreases v@.len() - i,
    {
        let c = v[i];
        if !(c == ' ' || c == '\t' || c == '\r' || c == '\n') {
            proof {
                assert(!is_blank_char(v@[i as int]));
            }
            return false;
        }
        i = i + 1;
    }
    true
}

impl LineBuffer {
    /// A fresh, empty line buffer.
    pub fn new() -> (lb: LineBuffer)
        ensures
            lb@ == m_line_buffer_new(),
            lb@.wf(),
    {
        let lb = LineBuffer { chars: Vec::new(), cursor: 0, history: Vec::new(), history_index: None };
        proof {
            assert(lb@ =~= m_line_buffer_new());
        }
        lb
    }

    /// The current text.
    pub fn text(&self) -> (r: Vec<char>)
        ensures
            r@ == self@.chars,
    {
        copy_chars(&self.chars)
    }

    /// The cursor offset, in characters.
    pub fn cursor(&self) -> (r: usize)
        ensures
            r as int == self@.cursor,
    {
        self.cursor
    }

    /// Number of history entries.
    pub fn history_len(&self) -> (r: usize)
        ensures
            r as int == self@.history.len(),
    {
        self.history.len()
    }

    /// Insert one character at the cursor.
    pub fn insert_char(&mut self, ch: char)
        requires
            old(self)@.wf(),
            old(self)@.chars.len() < usize::MAX,
        ensures
            final(self)@ == m_insert_char(old(self)@, ch),
            final(self)@.wf(),
    {
        let at = self.cursor;
        self.chars.insert(at, ch);
        self.cursor = self.cursor + 1;
        proof {
            assert(self@ =~= m_insert_char(old(self)@, ch));
        }
    }

    /// Delete the character before the cursor; false when at the start.
    pub fn backspace(&mut self) -> (moved: bool)
        requires
            old(self)@.wf(),
        ensures
            final(self)@ == m_backspace(old(self)@).0,
            moved == m_backspace(old(self)@).1,
            final(self)@.wf(),
    {
        if self.cursor > 0 {
            let at = self.cursor - 1;
            let _removed = self.chars.remove(at);
            self.cursor = at;
            proof {
                assert(self@ =~= m_backspace(old(self)@).0);
            }
            true
        } else {
            false
        }
    }

    /// Move the cursor one character left; false when at the start.
    pub fn cursor_left(&mut self) -> (moved: bool)
        requires
            old(self)@.wf(),
        ensures
            final(self)@ == m_cursor_left(old(self)@).0,
            moved == m_cursor_left(old(self)@).1,
            final(self)@.wf(),
    {
        if self.cursor > 0 {
            self.cursor = self.cursor - 1;
            proof {
                assert(self@ =~= m_cursor_left(old(self)@).0);
            }
            true
        } else {
            false
        }
    }

    /// Move the cursor one character right; false when at the end.
    pub fn cursor_right(&mut self) -> (moved: bool)
        requires
            old(self)@.wf(),
        ensures
            final(self)@ == m_cursor_right(old(self)@).0,
            moved == m_cursor_right(old(self)@).1,
            final(self)@.wf(),
    {
        if self.cursor < self.chars.len() {
            self.cursor = self.cursor + 1;
            proof {
                assert(self@ =~= m_cursor_right(old(self)@).0);
            }
            true
        } else {
            false
        }
    }

    /// Submit the line: returns the text, empties the buffer, and appends a
    /// non-blank line to the history.
    pub fn take_line(&mut self) -> (line: Vec<char>)
        requires
            old(self)@.wf(),
        ensures
            final(self)@ == m_take_line(old(self)@).0,
            line@ == m_take_line(old(self)@).1,
            final(self)@.wf(),
    {
        let mut taken: Vec<char> = Vec::new();
        core::mem::swap(&mut taken, &mut self.chars);
        self.cursor = 0;
        self.history_index = None;
        if !is_blank(&taken) {
            let kept = copy_chars(&taken);
            self.history.push(kept);
        }
        proof {
            assert(self@ =~= m_take_line(old(self)@).0);
        }
        taken
    }

    /// Clear the buffer without touching the history.
    pub fn clear(&mut self)
        requires
            old(self)@.wf(),
        ensures
            final(self)@ == m_clear(old(self)@),
            final(self)@.wf(),
    {
        self.chars.clear();
        self.cursor = 0;
        proof {
            assert(self@ =~= m_clear(old(self)@));
        }
    }

    /// Step to the previous history entry, loading it into the buffer;
    /// false at the oldest entry or with no history.
    pub fn history_up(&mut self) -> (moved: bool)
        requires
            old(self)@.wf(),
        ensures
            final(self)@ == m_history_up(old(self)@).0,
            moved == m_history_up(old(self)@).1,
            final(self)@.wf(),
    {
        if self.history.len() == 0 {
            return false;
        }
        let idx: usize;
        match self.history_index {
            None => {
                idx = self.history.len() - 1;
            },
            Some(i) => {
                if i == 0 {
                    return false;
                }
                idx = i - 1;
            },
        }
        self.history_index = Some(idx);
        self.chars = copy_chars(&self.history[idx]);
        self.cursor = self.chars.len();
        proof {
            assert(self@ =~= m_history_up(old(self)@).0);
        }
        true
    }

    /// Step to the next history entry; past the newest the buffer clears.
    /// False when not navigating.
    pub fn history_down(&mut self) -> (moved: bool)
        requires
            old(self)@.wf(),
        ensures
            final(self)@ == m_history_down(old(self)@).0,
            moved == m_history_down(old(self)@).1,
            final(self)@.wf(),
    {
        match self.history_index {
            None => false,
            Some(i) => {
                let len = self.history.len();
                proof {
                    assert(self@.history.len() == self.history@.len());
                }
                if i >= len - 1 {
                    self.history_index = None;
                    self.chars.clear();
                    self.cursor = 0;
                    proof {
                        assert(self@ =~= m_history_down(old(self)@).0);
                    }
                    true
                } else {
                    let idx = i + 1;
                    self.history_index = Some(idx);
                    self.chars = copy_chars(&self.history[idx]);
                    self.cursor = self.chars.len();
                    proof {
                        assert(self@ =~= m_history_down(old(self)@).0);
                    }
                    true
                }
            },
        }
    }
}

} // verus!
