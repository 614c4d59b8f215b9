//! The escape-sequence state machine.
//!
//! A byte-at-a-time parser for what a terminal sends: printable UTF-8, C0
//! control codes, `ESC` sequences, SS3 sequences (`ESC O x`) and CSI sequences
//! (`ESC [ params final`). Its whole state is a [`Parser`] value, so a sequence
//! may be cut anywhere between two reads: feeding the pieces one after the other
//! gives what feeding them joined gives (see [`lemma_chunking_invariance`]).
//!
//! The machine never fails. What it does not recognise yields no action.

use vstd::prelude::*;

verus! {

/// The escape byte.
pub const ESC: u8 = 0x1B;

/// How many parameters a CSI sequence may carry. A sequence with more is
/// dropped.
pub const MAX_PARAMS: u8 = 4;

/// The parameters of a CSI sequence: `len` numbers, at most [`MAX_PARAMS`],
/// the first in `first`. The slots past `len` hold 0.
#[derive(Clone, Copy, PartialEq, Eq, Structural, Debug)]
pub struct Params {
    pub len: u8,
    pub first: u16,
    pub second: u16,
    pub third: u16,
    pub fourth: u16,
}

impl Params {
    /// No parameters.
    pub open spec fn empty() -> Params {
        Params { len: 0, first: 0, second: 0, third: 0, fourth: 0 }
    }

    /// Whether there is room for no more.
    pub open spec fn is_full(self) -> bool {
        self.len >= MAX_PARAMS
    }

    /// The parameters followed by `v`. A full list stays as it is.
    pub open spec fn push(self, v: u16) -> Params {
        if self.len == 0 {
            Params { len: 1, first: v, ..self }
        } else if self.len == 1 {
            Params { len: 2, second: v, ..self }
        } else if self.len == 2 {
            Params { len: 3, third: v, ..self }
        } else if self.len == 3 {
            Params { len: 4, fourth: v, ..self }
        } else {
            self
        }
    }

    /// The parameters as a sequence.
    pub open spec fn values(self) -> Seq<u16> {
        seq![self.first, self.second, self.third, self.fourth].take(
            if self.len <= 4 {
                self.len as int
            } else {
                4
            },
        )
    }

    /// Parameter `i`, or 0 where the sequence gave fewer.
    pub open spec fn get(self, i: int) -> u16 {
        if i == 0 && self.len > 0 {
            self.first
        } else if i == 1 && self.len > 1 {
            self.second
        } else if i == 2 && self.len > 2 {
            self.third
        } else if i == 3 && self.len > 3 {
            self.fourth
        } else {
            0
        }
    }

    /// Computes [`Params::empty`].
    pub fn new() -> (p: Params)
        ensures
            p == Params::empty(),
    {
        Params { len: 0, first: 0, second: 0, third: 0, fourth: 0 }
    }

    /// Computes [`Params::push`].
    pub fn pushed(self, v: u16) -> (p: Params)
        ensures
            p == self.push(v),
    {
        if self.len == 0 {
            Params { len: 1, first: v, second: self.second, third: self.third, fourth: self.fourth }
        } else if self.len == 1 {
            Params { len: 2, first: self.first, second: v, third: self.third, fourth: self.fourth }
        } else if self.len == 2 {
            Params { len: 3, first: self.first, second: self.second, third: v, fourth: self.fourth }
        } else if self.len == 3 {
            Params { len: 4, first: self.first, second: self.second, third: self.third, fourth: v }
        } else {
            self
        }
    }

    /// Computes [`Params::get`].
    pub fn value(&self, i: u8) -> (v: u16)
        ensures
            v == self.get(i as int),
    {
        if i == 0 && self.len > 0 {
            self.first
        } else if i == 1 && self.len > 1 {
            self.second
        } else if i == 2 && self.len > 2 {
            self.third
        } else if i == 3 && self.len > 3 {
            self.fourth
        } else {
            0
        }
    }
}

/// One logical unit of input, as the machine hands it to its sink.
#[derive(Clone, Copy, PartialEq, Eq, Structural, Debug)]
pub enum Action {
    /// A printable character.
    Print(char),
    /// A C0 control code or DEL, or a C1 control code that came as UTF-8.
    Execute(u8),
    /// `ESC` followed by the byte given, which is in `0x30..=0x7E`.
    Esc(u8),
    /// `ESC O` followed by the byte given, which is in `0x40..=0x7E`.
    Ss3(u8),
    /// A CSI sequence: its private marker (one of `<`, `=`, `>`, `?`, or 0
    /// where it has none), its parameters and its final byte, which is in
    /// `0x40..=0x7E`.
    Csi { marker: u8, params: Params, final_byte: u8 },
}

/// Where in a sequence the machine stands.
#[derive(Clone, Copy, PartialEq, Eq, Structural, Debug)]
pub enum State {
    /// Between sequences.
    Ground,
    /// Inside a character of several bytes.
    Utf8,
    /// After `ESC`.
    Escape,
    /// After `ESC` and intermediate bytes: what follows is dropped at its
    /// final byte.
    EscapeIntermediate,
    /// After `ESC O`.
    Ss3,
    /// After `ESC [`.
    CsiEntry,
    /// Inside the parameters of a CSI sequence.
    CsiParam,
    /// Inside a CSI sequence that will be dropped at its final byte.
    CsiIgnore,
    /// Inside a control string (`ESC ]`, `ESC P`, `ESC X`, `ESC ^`, `ESC _`),
    /// which is dropped at its terminator.
    ControlString,
}

/// The state of the machine between two bytes.
#[derive(Clone, Copy, PartialEq, Eq, Structural, Debug)]
pub struct Parser {
    pub state: State,
    /// The parameters of the CSI sequence that are complete.
    pub params: Params,
    /// The parameter that is being read.
    pub param: u16,
    /// The private marker of the CSI sequence, 0 without one.
    pub marker: u8,
    /// The CSI sequence has more parameters than fit.
    pub overflow: bool,
    /// In [`State::Utf8`]: the continuation bytes that are still to come.
    pub utf8_need: u8,
    /// In [`State::Utf8`]: the code point as far as it was read.
    pub utf8_code: u32,
    /// In [`State::Utf8`]: the least code point that may take this many bytes.
    pub utf8_min: u32,
}

/// Whether `code` is a Unicode scalar value.
pub open spec fn is_scalar(code: int) -> bool {
    0 <= code <= 0xD7FF || 0xE000 <= code <= 0x10FFFF
}

/// Whether the byte is a C0 control code other than `ESC`.
pub open spec fn is_c0(b: u8) -> bool {
    b < 0x20 && b != ESC
}

/// Whether the byte is CAN or SUB, which cancel a sequence.
pub open spec fn is_cancel(b: u8) -> bool {
    b == 0x18 || b == 0x1A
}

/// What a character that is complete yields: a C1 control code is executed,
/// any other scalar value at or above `min` is printed, and the rest (an
/// overlong form, a surrogate, a value past the last code point) is dropped.
pub open spec fn utf8_complete(code: u32, min: u32) -> Option<Action> {
    if code < min || !is_scalar(code as int) {
        None
    } else if 0x80 <= code <= 0x9F {
        Some(Action::Execute(code as u8))
    } else {
        Some(Action::Print(code as char))
    }
}

impl Parser {
    /// The machine before any byte.
    pub open spec fn initial() -> Parser {
        Parser {
            state: State::Ground,
            params: Params::empty(),
            param: 0,
            marker: 0,
            overflow: false,
            utf8_need: 0,
            utf8_code: 0,
            utf8_min: 0,
        }
    }

    /// The machine in `state`, with what it had gathered forgotten.
    pub open spec fn reset_to(state: State) -> Parser {
        Parser { state, ..Parser::initial() }
    }

    /// The machine with everything kept but the state.
    pub open spec fn moved_to(self, state: State) -> Parser {
        Parser { state, ..self }
    }

    /// What holds of every machine that was made by [`Parser::new`] and fed:
    /// a character in progress has one to three bytes to come and fits in 21
    /// bits, and no more parameters are held than fit.
    pub open spec fn wf(self) -> bool {
        &&& self.params.len <= MAX_PARAMS
        &&& self.state == State::Utf8 ==> {
            &&& 1 <= self.utf8_need <= 3
            &&& (self.utf8_need == 1 ==> self.utf8_code < 0x8000)
            &&& (self.utf8_need == 2 ==> self.utf8_code < 0x200)
            &&& (self.utf8_need == 3 ==> self.utf8_code < 0x8)
        }
    }

    /// A byte in the ground state.
    pub open spec fn step_ground(b: u8) -> (Parser, Option<Action>) {
        if b == ESC {
            (Parser::reset_to(State::Escape), None)
        } else if b < 0x20 || b == 0x7F {
            (Parser::initial(), Some(Action::Execute(b)))
        } else if b < 0x80 {
            (Parser::initial(), Some(Action::Print(b as char)))
        } else if 0xC2 <= b <= 0xDF {
            (
                Parser {
                    utf8_need: 1,
                    utf8_code: (b - 0xC0) as u32,
                    utf8_min: 0x80,
                    ..Parser::reset_to(State::Utf8)
                },
                None,
            )
        } else if 0xE0 <= b <= 0xEF {
            (
                Parser {
                    utf8_need: 2,
                    utf8_code: (b - 0xE0) as u32,
                    utf8_min: 0x800,
                    ..Parser::reset_to(State::Utf8)
                },
                None,
            )
        } else if 0xF0 <= b <= 0xF4 {
            (
                Parser {
                    utf8_need: 3,
                    utf8_code: (b - 0xF0) as u32,
                    utf8_min: 0x10000,
                    ..Parser::reset_to(State::Utf8)
                },
                None,
            )
        } else {
            (Parser::initial(), None)
        }
    }

    /// A byte inside a character of several bytes. A byte that continues
    /// nothing ends the character without an action and is read as in the
    /// ground state.
    pub open spec fn step_utf8(self, b: u8) -> (Parser, Option<Action>) {
        if 0x80 <= b <= 0xBF && 1 <= self.utf8_need <= 3 && self.utf8_code < 0x8000 {
            let code = (self.utf8_code * 64 + (b - 0x80)) as u32;
            if self.utf8_need == 1 {
                (Parser::initial(), utf8_complete(code, self.utf8_min))
            } else {
                (
                    Parser {
                        utf8_need: (self.utf8_need - 1) as u8,
                        utf8_code: code,
                        ..self
                    },
                    None,
                )
            }
        } else {
            Parser::step_ground(b)
        }
    }

    /// What every state inside a sequence does with `ESC`, a C0 control code,
    /// DEL or a byte from `0x80` on; `None` for the other bytes, on which the
    /// states differ.
    pub open spec fn step_common(self, b: u8) -> Option<(Parser, Option<Action>)> {
        if b == ESC {
            Some((Parser::reset_to(State::Escape), None))
        } else if is_cancel(b) {
            Some((Parser::initial(), Some(Action::Execute(b))))
        } else if is_c0(b) {
            Some((self, Some(Action::Execute(b))))
        } else if b >= 0x7F {
            Some((self, None))
        } else {
            None
        }
    }

    /// A byte after `ESC`.
    pub open spec fn step_escape(self, b: u8) -> (Parser, Option<Action>) {
        match self.step_common(b) {
            Some(r) => r,
            None => if b < 0x30 {
                (self.moved_to(State::EscapeIntermediate), None)
            } else if b == 0x5B {
                (Parser::reset_to(State::CsiEntry), None)
            } else if b == 0x4F {
                (Parser::reset_to(State::Ss3), None)
            } else if b == 0x50 || b == 0x58 || b == 0x5D || b == 0x5E || b == 0x5F {
                (Parser::reset_to(State::ControlString), None)
            } else {
                (Parser::initial(), Some(Action::Esc(b)))
            },
        }
    }

    /// A byte after `ESC` and intermediate bytes.
    pub open spec fn step_escape_intermediate(self, b: u8) -> (Parser, Option<Action>) {
        match self.step_common(b) {
            Some(r) => r,
            None => if b < 0x30 {
                (self, None)
            } else {
                (Parser::initial(), None)
            },
        }
    }

    /// A byte after `ESC O`.
    pub open spec fn step_ss3(self, b: u8) -> (Parser, Option<Action>) {
        match self.step_common(b) {
            Some(r) => r,
            None => if b < 0x40 {
                (Parser::initial(), None)
            } else {
                (Parser::initial(), Some(Action::Ss3(b)))
            },
        }
    }

    /// The final byte of a CSI sequence: the parameter in progress joins the
    /// others, and the sequence is handed on unless it had too many.
    pub open spec fn dispatch_csi(self, b: u8) -> (Parser, Option<Action>) {
        if self.overflow || self.params.is_full() {
            (Parser::initial(), None)
        } else {
            (
                Parser::initial(),
                Some(
                    Action::Csi {
                        marker: self.marker,
                        params: self.params.push(self.param),
                        final_byte: b,
                    },
                ),
            )
        }
    }

    /// A digit among the parameters.
    pub open spec fn with_digit(self, b: u8) -> Parser {
        let v = self.param * 10 + (b - 0x30);
        Parser {
            state: State::CsiParam,
            param: if v > 0xFFFF {
                0xFFFFu16
            } else {
                v as u16
            },
            ..self
        }
    }

    /// A `;` among the parameters.
    pub open spec fn with_separator(self) -> Parser {
        if self.params.is_full() {
            Parser { state: State::CsiParam, overflow: true, ..self }
        } else {
            Parser {
                state: State::CsiParam,
                params: self.params.push(self.param),
                param: 0,
                ..self
            }
        }
    }

    /// A byte inside a CSI sequence, before or among its parameters. A
    /// private marker may only come first.
    pub open spec fn step_csi(self, b: u8) -> (Parser, Option<Action>) {
        match self.step_common(b) {
            Some(r) => r,
            None => if b < 0x30 || b == 0x3A {
                (self.moved_to(State::CsiIgnore), None)
            } else if b <= 0x39 {
                (self.with_digit(b), None)
            } else if b == 0x3B {
                (self.with_separator(), None)
            } else if b <= 0x3F {
                if self.state == State::CsiEntry {
                    (Parser { state: State::CsiParam, marker: b, ..self }, None)
                } else {
                    (self.moved_to(State::CsiIgnore), None)
                }
            } else {
                self.dispatch_csi(b)
            },
        }
    }

    /// A byte inside a CSI sequence that is being dropped.
    pub open spec fn step_csi_ignore(self, b: u8) -> (Parser, Option<Action>) {
        match self.step_common(b) {
            Some(r) => r,
            None => if b < 0x40 {
                (self, None)
            } else {
                (Parser::initial(), None)
            },
        }
    }

    /// A byte inside a control string: BEL ends it, as `ESC`, CAN and SUB do.
    pub open spec fn step_control_string(self, b: u8) -> (Parser, Option<Action>) {
        if b == ESC {
            (Parser::reset_to(State::Escape), None)
        } else if is_cancel(b) {
            (Parser::initial(), Some(Action::Execute(b)))
        } else if b == 0x07 {
            (Parser::initial(), None)
        } else {
            (self, None)
        }
    }

    /// The machine after one byte, and the action that the byte completes, if
    /// it completes one.
    pub open spec fn step(self, b: u8) -> (Parser, Option<Action>) {
        match self.state {
            State::Ground => Parser::step_ground(b),
            State::Utf8 => self.step_utf8(b),
            State::Escape => self.step_escape(b),
            State::EscapeIntermediate => self.step_escape_intermediate(b),
            State::Ss3 => self.step_ss3(b),
            State::CsiEntry => self.step_csi(b),
            State::CsiParam => self.step_csi(b),
            State::CsiIgnore => self.step_csi_ignore(b),
            State::ControlString => self.step_control_string(b),
        }
    }

    /// The machine after the bytes given, and the actions they complete, in
    /// order.
    pub open spec fn run(self, bytes: Seq<u8>) -> (Parser, Seq<Action>)
        decreases bytes.len(),
    {
        if bytes.len() == 0 {
            (self, Seq::empty())
        } else {
            let (before, actions) = self.run(bytes.drop_last());
            let (after, action) = before.step(bytes.last());
            (
                after,
                match action {
                    Some(a) => actions.push(a),
                    None => actions,
                },
            )
        }
    }

    /// The machine after the chunks given, fed one after the other, and the
    /// actions they complete, in order.
    pub open spec fn run_chunks(self, chunks: Seq<Seq<u8>>) -> (Parser, Seq<Action>)
        decreases chunks.len(),
    {
        if chunks.len() == 0 {
            (self, Seq::empty())
        } else {
            let (before, actions) = self.run_chunks(chunks.drop_last());
            let (after, more) = before.run(chunks.last());
            (after, actions + more)
        }
    }
}

/// The chunks joined into one sequence of bytes.
pub open spec fn joined(chunks: Seq<Seq<u8>>) -> Seq<u8>
    decreases chunks.len(),
{
    if chunks.len() == 0 {
        Seq::empty()
    } else {
        joined(chunks.drop_last()) + chunks.last()
    }
}

/// Feeding `first` and then `second` leaves the machine where feeding the two
/// joined leaves it, and yields the same actions in the same order.
pub proof fn lemma_run_concat(p: Parser, first: Seq<u8>, second: Seq<u8>)
    ensures
        p.run(first + second).0 == p.run(first).0.run(second).0,
        p.run(first + second).1 == p.run(first).1 + p.run(first).0.run(second).1,
    decreases second.len(),
{
    if second.len() == 0 {
        assert(first + second =~= first);
        assert(p.run(first).1 + Seq::<Action>::empty() =~= p.run(first).1);
    } else {
        let all = first + second;
        assert(all.drop_last() =~= first + second.drop_last());
        assert(all.last() == second.last());
        lemma_run_concat(p, first, second.drop_last());
        let mid = p.run(first).0;
        let (before, actions) = mid.run(second.drop_last());
        let (after, action) = before.step(second.last());
        match action {
            Some(a) => {
                assert((p.run(first).1 + actions).push(a) =~= p.run(first).1 + actions.push(a));
            },
            None => {},
        }
    }
}

/// Chunking invariance: however a stream of bytes is cut into chunks, feeding
/// the chunks in order yields the actions, and leaves the machine in the
/// state, that feeding the whole stream in one piece does.
pub proof fn lemma_chunking_invariance(p: Parser, chunks: Seq<Seq<u8>>)
    ensures
        p.run_chunks(chunks) == p.run(joined(chunks)),
    decreases chunks.len(),
{
    if chunks.len() > 0 {
        lemma_chunking_invariance(p, chunks.drop_last());
        lemma_run_concat(p, joined(chunks.drop_last()), chunks.last());
    }
}

/// A byte that completes no action leaves the actions as they were, and a
/// byte yields one action at most: the stream yields no more actions than it
/// has bytes.
pub proof fn lemma_run_bounded(p: Parser, bytes: Seq<u8>)
    ensures
        p.run(bytes).1.len() <= bytes.len(),
    decreases bytes.len(),
{
    if bytes.len() > 0 {
        lemma_run_bounded(p, bytes.drop_last());
    }
}

/// The machine stays well formed, whatever it is fed.
pub proof fn lemma_step_wf(p: Parser, b: u8)
    requires
        p.wf(),
    ensures
        p.step(b).0.wf(),
{
}

/// The machine stays well formed, whatever it is fed.
pub proof fn lemma_run_wf(p: Parser, bytes: Seq<u8>)
    requires
        p.wf(),
    ensures
        p.run(bytes).0.wf(),
    decreases bytes.len(),
{
    if bytes.len() > 0 {
        lemma_run_wf(p, bytes.drop_last());
        lemma_step_wf(p.run(bytes.drop_last()).0, bytes.last());
    }
}

/// `char::from_u32` of the standard library: the character with the code
/// point given, where that is a Unicode scalar value, and nothing otherwise.
#[verifier::external_body]
fn char_from_code(code: u32) -> (c: Option<char>)
    ensures
        c == (if is_scalar(code as int) {
            Some(code as char)
        } else {
            None
        }),
{
    char::from_u32(code)
}

/// Computes [`utf8_complete`].
fn complete_utf8(code: u32, min: u32) -> (a: Option<Action>)
    ensures
        a == utf8_complete(code, min),
{
    if code < min {
        return None;
    }
    match char_from_code(code) {
        None => None,
        Some(c) => {
            if 0x80 <= code && code <= 0x9F {
                Some(Action::Execute(code as u8))
            } else {
                Some(Action::Print(c))
            }
        },
    }
}

impl Parser {
    /// The machine before any byte: in the ground state, with nothing
    /// gathered.
    pub fn new() -> (p: Parser)
        ensures
            p == Parser::initial(),
            p.wf(),
    {
        Parser {
            state: State::Ground,
            params: Params::new(),
            param: 0,
            marker: 0,
            overflow: false,
            utf8_need: 0,
            utf8_code: 0,
            utf8_min: 0,
        }
    }

    fn fresh(state: State) -> (p: Parser)
        ensures
            p == Parser::reset_to(state),
    {
        let mut p = Parser::new();
        p.state = state;
        p
    }

    fn lead(need: u8, code: u32, min: u32) -> (p: Parser)
        ensures
            p == (Parser {
                utf8_need: need,
                utf8_code: code,
                utf8_min: min,
                ..Parser::reset_to(State::Utf8)
            }),
    {
        let mut p = Parser::fresh(State::Utf8);
        p.utf8_need = need;
        p.utf8_code = code;
        p.utf8_min = min;
        p
    }

    fn next_ground(b: u8) -> (r: (Parser, Option<Action>))
        ensures
            r == Parser::step_ground(b),
    {
        if b == ESC {
            (Parser::fresh(State::Escape), None)
        } else if b < 0x20 || b == 0x7F {
            (Parser::new(), Some(Action::Execute(b)))
        } else if b < 0x80 {
            (Parser::new(), Some(Action::Print(b as char)))
        } else if 0xC2 <= b && b <= 0xDF {
            (Parser::lead(1, (b - 0xC0) as u32, 0x80), None)
        } else if 0xE0 <= b && b <= 0xEF {
            (Parser::lead(2, (b - 0xE0) as u32, 0x800), None)
        } else if 0xF0 <= b && b <= 0xF4 {
            (Parser::lead(3, (b - 0xF0) as u32, 0x10000), None)
        } else {
            (Parser::new(), None)
        }
    }

    fn next_utf8(self, b: u8) -> (r: (Parser, Option<Action>))
        ensures
            r == self.step_utf8(b),
    {
        if 0x80 <= b && b <= 0xBF && 1 <= self.utf8_need && self.utf8_need <= 3
            && self.utf8_code < 0x8000 {
            let code: u32 = self.utf8_code * 64 + (b - 0x80) as u32;
            if self.utf8_need == 1 {
                (Parser::new(), complete_utf8(code, self.utf8_min))
            } else {
                let mut p = self;
                p.utf8_need = self.utf8_need - 1;
                p.utf8_code = code;
                (p, None)
            }
        } else {
            Parser::next_ground(b)
        }
    }

    fn next_common(self, b: u8) -> (r: Option<(Parser, Option<Action>)>)
        ensures
            r == self.step_common(b),
    {
        if b == ESC {
            Some((Parser::fresh(State::Escape), None))
        } else if b == 0x18 || b == 0x1A {
            Some((Parser::new(), Some(Action::Execute(b))))
        } else if b < 0x20 {
            Some((self, Some(Action::Execute(b))))
        } else if b >= 0x7F {
            Some((self, None))
        } else {
            None
        }
    }

    fn to(self, state: State) -> (p: Parser)
        ensures
            p == self.moved_to(state),
    {
        let mut p = self;
        p.state = state;
        p
    }

    fn next_escape(self, b: u8) -> (r: (Parser, Option<Action>))
        ensures
            r == self.step_escape(b),
    {
        match self.next_common(b) {
            Some(r) => r,
            None => {
                if b < 0x30 {
                    (self.to(State::EscapeIntermediate), None)
                } else if b == 0x5B {
                    (Parser::fresh(State::CsiEntry), None)
                } else if b == 0x4F {
                    (Parser::fresh(State::Ss3), None)
                } else if b == 0x50 || b == 0x58 || b == 0x5D || b == 0x5E || b == 0x5F {
                    (Parser::fresh(State::ControlString), None)
                } else {
                    (Parser::new(), Some(Action::Esc(b)))
                }
            },
        }
    }

    fn next_escape_intermediate(self, b: u8) -> (r: (Parser, Option<Action>))
        ensures
            r == self.step_escape_intermediate(b),
    {
        match self.next_common(b) {
            Some(r) => r,
            None => {
                if b < 0x30 {
                    (self, None)
                } else {
                    (Parser::new(), None)
                }
            },
        }
    }

    fn next_ss3(self, b: u8) -> (r: (Parser, Option<Action>))
        ensures
            r == self.step_ss3(b),
    {
        match self.next_common(b) {
            Some(r) => r,
            None => {
                if b < 0x40 {
                    (Parser::new(), None)
                } else {
                    (Parser::new(), Some(Action::Ss3(b)))
                }
            },
        }
    }

    fn next_csi(self, b: u8) -> (r: (Parser, Option<Action>))
        ensures
            r == self.step_csi(b),
    {
        match self.next_common(b) {
            Some(r) => r,
            None => {
                if b < 0x30 || b == 0x3A {
                    (self.to(State::CsiIgnore), None)
                } else if b <= 0x39 {
                    let v: u32 = self.param as u32 * 10 + (b - 0x30) as u32;
                    let mut p = self.to(State::CsiParam);
                    p.param = if v > 0xFFFF {
                        0xFFFF
                    } else {
                        v as u16
                    };
                    (p, None)
                } else if b == 0x3B {
                    let mut p = self.to(State::CsiParam);
                    if self.params.len >= MAX_PARAMS {
                        p.overflow = true;
                    } else {
                        p.params = self.params.pushed(self.param);
                        p.param = 0;
                    }
                    (p, None)
                } else if b <= 0x3F {
                    if self.state == State::CsiEntry {
                        let mut p = self.to(State::CsiParam);
                        p.marker = b;
                        (p, None)
                    } else {
                        (self.to(State::CsiIgnore), None)
                    }
                } else if self.overflow || self.params.len >= MAX_PARAMS {
                    (Parser::new(), None)
                } else {
                    (
                        Parser::new(),
                        Some(
                            Action::Csi {
                                marker: self.marker,
                                params: self.params.pushed(self.param),
                                final_byte: b,
                            },
                        ),
                    )
                }
            },
        }
    }

    fn next_csi_ignore(self, b: u8) -> (r: (Parser, Option<Action>))
        ensures
            r == self.step_csi_ignore(b),
    {
        match self.next_common(b) {
            Some(r) => r,
            None => {
                if b < 0x40 {
                    (self, None)
                } else {
                    (Parser::new(), None)
                }
            },
        }
    }

    fn next_control_string(self, b: u8) -> (r: (Parser, Option<Action>))
        ensures
            r == self.step_control_string(b),
    {
        if b == ESC {
            (Parser::fresh(State::Escape), None)
        } else if b == 0x18 || b == 0x1A {
            (Parser::new(), Some(Action::Execute(b)))
        } else if b == 0x07 {
            (Parser::new(), None)
        } else {
            (self, None)
        }
    }

    /// Feeds one byte: the machine moves on as [`Parser::step`] says, and the
    /// action that the byte completes is returned.
    pub fn advance_byte(&mut self, b: u8) -> (action: Option<Action>)
        ensures
            (*final(self), action) == old(self).step(b),
    {
        let (next, action) = match self.state {
            State::Ground => Parser::next_ground(b),
            State::Utf8 => self.next_utf8(b),
            State::Escape => self.next_escape(b),
            State::EscapeIntermediate => self.next_escape_intermediate(b),
            State::Ss3 => self.next_ss3(b),
            State::CsiEntry => self.next_csi(b),
            State::CsiParam => self.next_csi(b),
            State::CsiIgnore => self.next_csi_ignore(b),
            State::ControlString => self.next_control_string(b),
        };
        *self = next;
        action
    }

    /// Feeds a slice of bytes, which may end anywhere in a sequence: the
    /// machine moves on as [`Parser::run`] says, and the actions that the
    /// bytes complete are returned in order.
    pub fn advance(&mut self, bytes: &[u8]) -> (actions: Vec<Action>)
        ensures
            (*final(self), actions@) == old(self).run(bytes@),
    {
        let mut actions: Vec<Action> = Vec::new();
        let mut i: usize = 0;
        while i < bytes.len()
            invariant
                i <= bytes.len(),
                (*self, actions@) == old(self).run(bytes@.take(i as int)),
            decreases bytes.len() - i,
        {
            proof {
                assert(bytes@.take(i as int + 1).drop_last() =~= bytes@.take(i as int));
                assert(bytes@.take(i as int + 1).last() == bytes@[i as int]);
            }
            match self.advance_byte(bytes[i]) {
                Some(a) => {
                    actions.push(a);
                },
                None => {},
            }
            i += 1;
        }
        proof {
            assert(bytes@.take(bytes@.len() as int) =~= bytes@);
        }
        actions
    }
}

} // verus!
