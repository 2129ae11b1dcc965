//! The escape-sequence interpreter: a state machine over raw bytes that
//! emits grid actions.
//!
//! States: ground, escape, CSI parameter collection, string collection
//! (OSC/DCS and kin, consumed and discarded), and UTF-8 continuation.
//! Malformed sequences are discarded and the machine returns to ground.
//! Every byte's effect is specified by the pure step function [`p_step`].

use vstd::prelude::*;

verus! {

/// Parser states.
#[derive(Clone, Copy, Debug, PartialEq, Eq, Structural)]
pub enum PState {
    /// Printable characters and control bytes.
    Ground,
    /// An escape byte was seen.
    Escape,
    /// Collecting CSI parameters.
    Csi,
    /// Consuming an OSC/DCS/SOS/PM/APC string, which is discarded.
    StringBody,
    /// An escape byte was seen inside a string (possible terminator).
    StringEsc,
    /// Collecting UTF-8 continuation bytes.
    Utf8,
}

/// One decoded terminal action, consumed by the grid.
///
/// The action set is closed: unknown final bytes decode to no action.
#[derive(Debug, PartialEq, Eq)]
pub enum Action {
    Print(char),
    LineFeed,
    CarriageReturn,
    Backspace,
    Tab,
    CursorUp(u16),
    CursorDown(u16),
    CursorForward(u16),
    CursorBack(u16),
    Goto(u16, u16),
    EraseDisplay(u16),
    EraseLine(u16),
    SetGraphics(Vec<u16>),
}

/// Spec-level mirror of [`Action`] (parameter lists as sequences).
pub enum ActionM {
    Print(char),
    LineFeed,
    CarriageReturn,
    Backspace,
    Tab,
    CursorUp(u16),
    CursorDown(u16),
    CursorForward(u16),
    CursorBack(u16),
    Goto(u16, u16),
    EraseDisplay(u16),
    EraseLine(u16),
    SetGraphics(Seq<u16>),
}

impl View for Action {
    type V = ActionM;

    open spec fn view(&self) -> ActionM {
        match self {
            Action::Print(c) => ActionM::Print(*c),
            Action::LineFeed => ActionM::LineFeed,
            Action::CarriageReturn => ActionM::CarriageReturn,
            Action::Backspace => ActionM::Backspace,
            Action::Tab => ActionM::Tab,
            Action::CursorUp(n) => ActionM::CursorUp(*n),
            Action::CursorDown(n) => ActionM::CursorDown(*n),
            Action::CursorForward(n) => ActionM::CursorForward(*n),
            Action::CursorBack(n) => ActionM::CursorBack(*n),
            Action::Goto(r, c) => ActionM::Goto(*r, *c),
            Action::EraseDisplay(m) => ActionM::EraseDisplay(*m),
            Action::EraseLine(m) => ActionM::EraseLine(*m),
            Action::SetGraphics(ps) => ActionM::SetGraphics(ps@),
        }
    }
}

/// The view of an optional action.
pub open spec fn opt_action_view(a: Option<Action>) -> Option<ActionM> {
    match a {
        Option::Some(act) => Option::Some(act@),
        Option::None => Option::None,
    }
}

/// Mathematical model of the parser.
#[verifier::ext_equal]
pub struct ParserM {
    pub state: PState,
    pub params: Seq<u16>,
    pub current: u16,
    pub intermediate: bool,
    pub utf8_need: u8,
    pub utf8_acc: u32,
}

impl ParserM {
    /// Well-formedness: bounded parameter list and UTF-8 accumulator.
    pub open spec fn wf(self) -> bool {
        &&& self.params.len() <= MAX_PARAMS as int
        &&& self.utf8_need <= 3
        &&& (self.utf8_need == 3 ==> self.utf8_acc <= 0x7)
        &&& (self.utf8_need == 2 ==> self.utf8_acc <= 0x1FF)
        &&& (self.utf8_need == 1 ==> self.utf8_acc <= 0x7FFF)
        &&& (self.state == PState::Utf8 ==> 1 <= self.utf8_need)
    }
}

/// At most this many CSI parameters are collected; further ones are dropped.
pub const MAX_PARAMS: usize = 16;

/// A Unicode scalar value: a valid `char`.
pub open spec fn is_scalar_value(v: u32) -> bool {
    v < 0xD800 || (0xE000 <= v && v <= 0x10FFFF)
}

/// Saturating base-10 accumulation of a CSI parameter digit.
pub open spec fn sat_param(cur: u16, digit: u8) -> u16 {
    if cur as int * 10 + digit as int > u16::MAX as int {
        u16::MAX
    } else {
        (cur as int * 10 + digit as int) as u16
    }
}

/// The parser with a new state, everything else unchanged.
pub open spec fn with_state(p: ParserM, s: PState) -> ParserM {
    ParserM { state: s, ..p }
}

/// Step in the ground state (also used to re-dispatch the byte that broke
/// off an incomplete UTF-8 sequence).
pub open spec fn ground_step(p: ParserM, b: u8) -> (ParserM, Option<ActionM>) {
    let pg = with_state(p, PState::Ground);
    if b == 0x1B {
        (with_state(p, PState::Escape), Option::None)
    } else if b == 0x0A {
        (pg, Option::Some(ActionM::LineFeed))
    } else if b == 0x0D {
        (pg, Option::Some(ActionM::CarriageReturn))
    } else if b == 0x08 {
        (pg, Option::Some(ActionM::Backspace))
    } else if b == 0x09 {
        (pg, Option::Some(ActionM::Tab))
    } else if 0x20 <= b && b <= 0x7E {
        (pg, Option::Some(ActionM::Print(b as char)))
    } else if 0xC2 <= b && b <= 0xDF {
        (ParserM { state: PState::Utf8, utf8_need: 1, utf8_acc: (b & 0x1F) as u32, ..p }, Option::None)
    } else if 0xE0 <= b && b <= 0xEF {
        (ParserM { state: PState::Utf8, utf8_need: 2, utf8_acc: (b & 0x0F) as u32, ..p }, Option::None)
    } else if 0xF0 <= b && b <= 0xF4 {
        (ParserM { state: PState::Utf8, utf8_need: 3, utf8_acc: (b & 0x07) as u32, ..p }, Option::None)
    } else {
        (pg, Option::None)
    }
}

/// Step after an escape byte: select CSI, a string-collecting sequence, or
/// discard an unsupported two-byte sequence.
pub open spec fn escape_step(p: ParserM, b: u8) -> (ParserM, Option<ActionM>) {
    if b == 0x5B {
        (
            ParserM {
                state: PState::Csi,
                params: Seq::empty(),
                current: 0,
                intermediate: false,
                ..p
            },
            Option::None,
        )
    } else if b == 0x5D || b == 0x50 || b == 0x58 || b == 0x5E || b == 0x5F {
        (with_state(p, PState::StringBody), Option::None)
    } else if b == 0x1B {
        (with_state(p, PState::Escape), Option::None)
    } else {
        (with_state(p, PState::Ground), Option::None)
    }
}

/// The action selected by a CSI final byte.  Unknown final bytes are no-ops.
pub open spec fn csi_action(fin: u8, ps: Seq<u16>) -> Option<ActionM> {
    let n = if ps.len() >= 1 {
        ps[0]
    } else {
        0
    };
    if fin == 0x41 {
        Option::Some(ActionM::CursorUp(n))
    } else if fin == 0x42 {
        Option::Some(ActionM::CursorDown(n))
    } else if fin == 0x43 {
        Option::Some(ActionM::CursorForward(n))
    } else if fin == 0x44 {
        Option::Some(ActionM::CursorBack(n))
    } else if fin == 0x48 || fin == 0x66 {
        Option::Some(ActionM::Goto(n, if ps.len() >= 2 { ps[1] } else { 0 }))
    } else if fin == 0x4A {
        Option::Some(ActionM::EraseDisplay(n))
    } else if fin == 0x4B {
        Option::Some(ActionM::EraseLine(n))
    } else if fin == 0x6D {
        Option::Some(ActionM::SetGraphics(ps))
    } else {
        Option::None
    }
}

/// The collected parameter list at a CSI boundary (`;` or final byte):
/// the pending parameter is appended unless the list is full.
pub open spec fn pushed_params(p: ParserM) -> Seq<u16> {
    if p.params.len() < MAX_PARAMS as int {
        p.params.push(p.current)
    } else {
        p.params
    }
}

/// Step while collecting CSI parameters.  Bytes that cannot continue a CSI
/// sequence discard it.
pub open spec fn csi_step(p: ParserM, b: u8) -> (ParserM, Option<ActionM>) {
    if 0x30 <= b && b <= 0x39 {
        (ParserM { current: sat_param(p.current, (b - 0x30) as u8), ..p }, Option::None)
    } else if b == 0x3B {
        (ParserM { params: pushed_params(p), current: 0, ..p }, Option::None)
    } else if (0x20 <= b && b <= 0x2F) || b == 0x3A || (0x3C <= b && b <= 0x3F) {
        (ParserM { intermediate: true, ..p }, Option::None)
    } else if 0x40 <= b && b <= 0x7E {
        (
            ParserM { state: PState::Ground, params: Seq::empty(), ..p },
            if p.intermediate {
                Option::None
            } else {
                csi_action(b, pushed_params(p))
            },
        )
    } else if b == 0x1B {
        (with_state(p, PState::Escape), Option::None)
    } else {
        (with_state(p, PState::Ground), Option::None)
    }
}

/// Step while collecting UTF-8 continuation bytes.  A byte that cannot
/// continue the character discards the partial character and is processed
/// from ground.
pub open spec fn utf8_step(p: ParserM, b: u8) -> (ParserM, Option<ActionM>) {
    if 0x80 <= b && b <= 0xBF {
        let acc = (p.utf8_acc * 64 + (b & 0x3F) as u32) as u32;
        if p.utf8_need == 1 {
            (
                ParserM { state: PState::Ground, utf8_need: 0, utf8_acc: 0, ..p },
                if is_scalar_value(acc) {
                    Option::Some(ActionM::Print(acc as char))
                } else {
                    Option::None
                },
            )
        } else {
            (ParserM { utf8_need: (p.utf8_need - 1) as u8, utf8_acc: acc, ..p }, Option::None)
        }
    } else {
        ground_step(ParserM { state: PState::Ground, utf8_need: 0, utf8_acc: 0, ..p }, b)
    }
}

/// Step while consuming a string sequence (OSC and kin): terminated by BEL,
/// CAN, SUB or a string terminator; the contents are discarded.
pub open spec fn string_step(p: ParserM, b: u8) -> (ParserM, Option<ActionM>) {
    if b == 0x07 || b == 0x18 || b == 0x1A {
        (with_state(p, PState::Ground), Option::None)
    } else if b == 0x1B {
        (with_state(p, PState::StringEsc), Option::None)
    } else {
        (p, Option::None)
    }
}

/// One byte of input: the new parser and the action it releases, if any.
pub open spec fn p_step(p: ParserM, b: u8) -> (ParserM, Option<ActionM>) {
    match p.state {
        PState::Ground => ground_step(p, b),
        PState::Escape => escape_step(p, b),
        PState::Csi => csi_step(p, b),
        PState::StringBody => string_step(p, b),
        PState::StringEsc => if b == 0x5C {
            (with_state(p, PState::Ground), Option::None)
        } else {
            escape_step(p, b)
        },
        PState::Utf8 => utf8_step(p, b),
    }
}

/// The escape-sequence parser.
pub struct Parser {
    state: PState,
    params: Vec<u16>,
    current: u16,
    intermediate: bool,
    utf8_need: u8,
    utf8_acc: u32,
}

impl View for Parser {
    type V = ParserM;

    closed spec fn view(&self) -> ParserM {
        ParserM {
            state: self.state,
            params: self.params@,
            current: self.current,
            intermediate: self.intermediate,
            utf8_need: self.utf8_need,
            utf8_acc: self.utf8_acc,
        }
    }
}

/// A fresh parser in the ground state.
pub open spec fn m_parser_new() -> ParserM {
    ParserM {
        state: PState::Ground,
        params: Seq::empty(),
        current: 0,
        intermediate: false,
        utf8_need: 0,
        utf8_acc: 0,
    }
}

impl Parser {
    /// A fresh parser in the ground state.
    pub fn new() -> (p: Parser)
        ensures
            p@ == m_parser_new(),
            p@.wf(),
    {
        let p = Parser {
            state: PState::Ground,
            params: Vec::new(),
            current: 0,
            intermediate: false,
            utf8_need: 0,
            utf8_acc: 0,
        };
        proof {
            assert(p@ =~= m_parser_new());
        }
        p
    }

    /// Consume one byte, returning the action it releases, if any.
    pub fn step(&mut self, b: u8) -> (a: Option<Action>)
        requires
            old(self)@.wf(),
        ensures
            final(self)@ == p_step(old(self)@, b).0,
            opt_action_view(a) == p_step(old(self)@, b).1,
            final(self)@.wf(),
    {
        match self.state {
            PState::Ground => self.step_ground(b),
            PState::Escape => self.step_escape(b),
            PState::Csi => self.step_csi(b),
            PState::StringBody => {
                if b == 0x07 || b == 0x18 || b == 0x1A {
                    self.state = PState::Ground;
                } else if b == 0x1B {
                    self.state = PState::StringEsc;
                }
                proof {
                    assert(self@ =~= p_step(old(self)@, b).0);
                }
                None
            },
            PState::StringEsc => {
                if b == 0x5C {
                    self.state = PState::Ground;
                    proof {
                        assert(self@ =~= p_step(old(self)@, b).0);
                    }
                    None
                } else {
                    self.step_escape(b)
                }
            },
            PState::Utf8 => self.step_utf8(b),
        }
    }

    /// Ground-state handling of one byte.
    fn step_ground(&mut self, b: u8) -> (a: Option<Action>)
        requires
            old(self)@.wf(),
        ensures
            final(self)@ == ground_step(old(self)@, b).0,
            opt_action_view(a) == ground_step(old(self)@, b).1,
            final(self)@.wf(),
    {
        if b == 0x1B {
            self.state = PState::Escape;
            proof {
                assert(self@ =~= ground_step(old(self)@, b).0);
            }
            return None;
        }
        if b == 0x0A || b == 0x0D || b == 0x08 || b == 0x09 || (0x20 <= b && b <= 0x7E) {
            self.state = PState::Ground;
            proof {
                assert(self@ =~= ground_step(old(self)@, b).0);
            }
            if b == 0x0A {
                return Some(Action::LineFeed);
            }
            if b == 0x0D {
                return Some(Action::CarriageReturn);
            }
            if b == 0x08 {
                return Some(Action::Backspace);
            }
            if b == 0x09 {
                return Some(Action::Tab);
            }
            return Some(Action::Print(b as char));
        }
        if 0xC2 <= b && b <= 0xDF {
            self.state = PState::Utf8;
            self.utf8_need = 1;
            self.utf8_acc = (b & 0x1F) as u32;
        } else if 0xE0 <= b && b <= 0xEF {
            self.state = PState::Utf8;
            self.utf8_need = 2;
            self.utf8_acc = (b & 0x0F) as u32;
        } else if 0xF0 <= b && b <= 0xF4 {
            self.state = PState::Utf8;
            self.utf8_need = 3;
            self.utf8_acc = (b & 0x07) as u32;
        } else {
            self.state = PState::Ground;
        }
        proof {
            assert((b & 0x1F) <= 0x1F) by (bit_vector);
            assert((b & 0x0F) <= 0x0F) by (bit_vector);
            assert((b & 0x07) <= 0x07) by (bit_vector);
            assert(self@ =~= ground_step(old(self)@, b).0);
        }
        None
    }

    /// Escape-state handling of one byte.
    fn step_escape(&mut self, b: u8) -> (a: Option<Action>)
        requires
            old(self)@.wf(),
        ensures
            final(self)@ == escape_step(old(self)@, b).0,
            opt_action_view(a) == escape_step(old(self)@, b).1,
            final(self)@.wf(),
    {
        if b == 0x5B {
            self.state = PState::Csi;
            self.params = Vec::new();
            self.current = 0;
            self.intermediate = false;
        } else if b == 0x5D || b == 0x50 || b == 0x58 || b == 0x5E || b == 0x5F {
            self.state = PState::StringBody;
        } else if b == 0x1B {
            self.state = PState::Escape;
        } else {
            self.state = PState::Ground;
        }
        proof {
            assert(self@ =~= escape_step(old(self)@, b).0);
        }
        None
    }

    /// CSI-state handling of one byte.
    fn step_csi(&mut self, b: u8) -> (a: Option<Action>)
        requires
            old(self)@.wf(),
        ensures
            final(self)@ == csi_step(old(self)@, b).0,
            opt_action_view(a) == csi_step(old(self)@, b).1,
            final(self)@.wf(),
    {
        if 0x30 <= b && b <= 0x39 {
            let d = (b - 0x30) as u32;
            let acc: u32 = (self.current as u32) * 10 + d;
            self.current = if acc > 65535 {
                65535
            } else {
                acc as u16
            };
            proof {
                assert(self@ =~= csi_step(old(self)@, b).0);
            }
            return None;
        }
        if b == 0x3B {
            if self.params.len() < MAX_PARAMS {
                let cur = self.current;
                self.params.push(cur);
            }
            self.current = 0;
            proof {
                assert(self@ =~= csi_step(old(self)@, b).0);
            }
            return None;
        }
        if (0x20 <= b && b <= 0x2F) || b == 0x3A || (0x3C <= b && b <= 0x3F) {
            self.intermediate = true;
            proof {
                assert(self@ =~= csi_step(old(self)@, b).0);
            }
            return None;
        }
        if 0x40 <= b && b <= 0x7E {
            self.state = PState::Ground;
            let a = if self.intermediate {
                None
            } else {
                let ps = self.collect_params();
                csi_action_exec(b, ps)
            };
            self.params = Vec::new();
            proof {
                assert(self@ =~= csi_step(old(self)@, b).0);
            }
            return a;
        }
        if b == 0x1B {
            self.state = PState::Escape;
        } else {
            self.state = PState::Ground;
        }
        proof {
            assert(self@ =~= csi_step(old(self)@, b).0);
        }
        None
    }

    /// The collected parameter list at a CSI final byte.
    fn collect_params(&self) -> (ps: Vec<u16>)
        requires
            self@.wf(),
        ensures
            ps@ == pushed_params(self@),
    {
        let mut out: Vec<u16> = Vec::new();
        let mut i: usize = 0;
        while i < self.params.len()
            invariant
                i <= self.params@.len(),
                out@ == self.params@.subrange(0, i as int),
            decreases self.params@.len() - i,
        {
            out.push(self.params[i]);
            proof {
                assert(out@ =~= self.params@.subrange(0, i + 1));
            }
            i = i + 1;
        }
        proof {
            assert(out@ =~= self.params@);
        }
        if self.params.len() < MAX_PARAMS {
            let cur = self.current;
            out.push(cur);
        }
        out
    }

    /// UTF-8 continuation handling of one byte.
    fn step_utf8(&mut self, b: u8) -> (a: Option<Action>)
        requires
            old(self)@.wf(),
            old(self)@.state == PState::Utf8,
        ensures
            final(self)@ == utf8_step(old(self)@, b).0,
            opt_action_view(a) == utf8_step(old(self)@, b).1,
            final(self)@.wf(),
    {
        if 0x80 <= b && b <= 0xBF {
            proof {
                assert((b & 0x3F) <= 0x3F) by (bit_vector);
            }
            let acc: u32 = self.utf8_acc * 64 + (b & 0x3F) as u32;
            if self.utf8_need == 1 {
                self.state = PState::Ground;
                self.utf8_need = 0;
                self.utf8_acc = 0;
                proof {
                    assert(self@ =~= utf8_step(old(self)@, b).0);
                }
                match char_from_u32(acc) {
                    Some(c) => Some(Action::Print(c)),
                    None => None,
                }
            } else {
                self.utf8_need = self.utf8_need - 1;
                self.utf8_acc = acc;
                proof {
                    assert(self@ =~= utf8_step(old(self)@, b).0);
                }
                None
            }
        } else {
            self.state = PState::Ground;
            self.utf8_need = 0;
            self.utf8_acc = 0;
            self.step_ground(b)
        }
    }
}

/// The action for a CSI final byte over an already-collected parameter list.
fn csi_action_exec(fin: u8, ps: Vec<u16>) -> (a: Option<Action>)
    ensures
        opt_action_view(a) == csi_action(fin, ps@),
{
    let n = if ps.len() >= 1 {
        ps[0]
    } else {
        0
    };
    if fin == 0x41 {
        Some(Action::CursorUp(n))
    } else if fin == 0x42 {
        Some(Action::CursorDown(n))
    } else if fin == 0x43 {
        Some(Action::CursorForward(n))
    } else if fin == 0x44 {
        Some(Action::CursorBack(n))
    } else if fin == 0x48 || fin == 0x66 {
        let c = if ps.len() >= 2 {
            ps[1]
        } else {
            0
        };
        Some(Action::Goto(n, c))
    } else if fin == 0x4A {
        Some(Action::EraseDisplay(n))
    } else if fin == 0x4B {
        Some(Action::EraseLine(n))
    } else if fin == 0x6D {
        Some(Action::SetGraphics(ps))
    } else {
        None
    }
}

/// Relies on core::char::from_u32: `Some` exactly for Unicode scalar values
/// (below the surrogate range or between it and the maximum code point),
/// holding the char with that value.
#[verifier::external_body]
fn char_from_u32(v: u32) -> (r: Option<char>)
    ensures
        is_scalar_value(v) ==> r == Some(v as char),
        !is_scalar_value(v) ==> r is None,
{
    char::from_u32(v)
}

} // verus!
