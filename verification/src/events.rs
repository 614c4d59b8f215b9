//! The input event aggregator.
//!
//! One tick of the application reads the terminal once. [`KeyParser`] holds
//! what that read brought: the keys that went down, the modifiers seen, the
//! characters typed in the order they came, and the last mouse event. It is
//! emptied at the start of each tick; only the scroll accumulator outlives a
//! tick, until its reader takes it.

use vstd::prelude::*;
use crate::decoder::{Action, Params, Parser, ESC};

verus! {

/// A key that is no character.
#[derive(Clone, Copy, PartialEq, Eq, Structural, Debug)]
pub enum KeyCode {
    Escape,
    Return,
    Tab,
    Delete,
    Insert,
    Up,
    Down,
    Left,
    Right,
    Home,
    End,
    PageUp,
    PageDown,
    /// A function key, by its number from 1.
    Function(u8),
}

/// A modifier key.
#[derive(Clone, Copy, PartialEq, Eq, Structural, Debug)]
pub enum KeyModifiers {
    Shift,
    Alt,
    Control,
}

/// A set of modifier keys.
#[derive(Clone, Copy, PartialEq, Eq, Structural, Debug)]
pub struct Mods {
    pub shift: bool,
    pub alt: bool,
    pub control: bool,
}

impl Mods {
    /// No modifier.
    pub open spec fn none() -> Mods {
        Mods { shift: false, alt: false, control: false }
    }

    /// The modifiers of either set.
    pub open spec fn union(self, other: Mods) -> Mods {
        Mods {
            shift: self.shift || other.shift,
            alt: self.alt || other.alt,
            control: self.control || other.control,
        }
    }

    /// Whether the modifier is in the set.
    pub open spec fn has(self, m: KeyModifiers) -> bool {
        match m {
            KeyModifiers::Shift => self.shift,
            KeyModifiers::Alt => self.alt,
            KeyModifiers::Control => self.control,
        }
    }

    /// Whether the set holds no modifier.
    pub open spec fn is_none(self) -> bool {
        !self.shift && !self.alt && !self.control
    }

    /// The modifiers that the number `n` names, as a CSI sequence gives them
    /// for a key: one more than the sum of 1 for Shift, 2 for Alt and 4 for
    /// Control. 0 names none.
    pub open spec fn of_key_param(n: u16) -> Mods {
        if n == 0 {
            Mods::none()
        } else {
            Mods {
                shift: (n - 1) % 2 == 1,
                alt: ((n - 1) / 2) % 2 == 1,
                control: ((n - 1) / 4) % 2 == 1,
            }
        }
    }

    /// The modifiers in the button number of a mouse report: 4 for Shift, 8
    /// for Alt, 16 for Control.
    pub open spec fn of_button(b: u16) -> Mods {
        Mods { shift: (b / 4) % 2 == 1, alt: (b / 8) % 2 == 1, control: (b / 16) % 2 == 1 }
    }

    /// Computes [`Mods::none`].
    pub fn empty() -> (m: Mods)
        ensures
            m == Mods::none(),
    {
        Mods { shift: false, alt: false, control: false }
    }

    /// Computes [`Mods::union`].
    pub fn merged(self, other: Mods) -> (m: Mods)
        ensures
            m == self.union(other),
    {
        Mods {
            shift: self.shift || other.shift,
            alt: self.alt || other.alt,
            control: self.control || other.control,
        }
    }

    /// Computes [`Mods::has`].
    pub fn contains(&self, m: KeyModifiers) -> (b: bool)
        ensures
            b == self.has(m),
    {
        match m {
            KeyModifiers::Shift => self.shift,
            KeyModifiers::Alt => self.alt,
            KeyModifiers::Control => self.control,
        }
    }

    /// Computes [`Mods::is_none`].
    pub fn is_empty(&self) -> (b: bool)
        ensures
            b == self.is_none(),
    {
        !self.shift && !self.alt && !self.control
    }

    fn from_key_param(n: u16) -> (m: Mods)
        ensures
            m == Mods::of_key_param(n),
    {
        if n == 0 {
            Mods::empty()
        } else {
            let bits: u16 = n - 1;
            Mods { shift: bits % 2 == 1, alt: (bits / 2) % 2 == 1, control: (bits / 4) % 2 == 1 }
        }
    }

    fn from_button(b: u16) -> (m: Mods)
        ensures
            m == Mods::of_button(b),
    {
        Mods { shift: (b / 4) % 2 == 1, alt: (b / 8) % 2 == 1, control: (b / 16) % 2 == 1 }
    }
}

/// What a mouse event is about: a button, or the wheel turned down or up.
#[derive(Clone, Copy, PartialEq, Eq, Structural, Debug)]
pub enum MouseEventType {
    Left,
    Right,
    Middle,
    Down,
    Up,
}

/// What happened to the button.
#[derive(Clone, Copy, PartialEq, Eq, Structural, Debug)]
pub enum MouseState {
    Press,
    Release,
    Hold,
}

/// A mouse event. The position is (column, row), counted from 0.
#[derive(Clone, Copy, PartialEq, Eq, Debug)]
pub struct MouseEvent {
    pub event_type: MouseEventType,
    pub position: (u16, u16),
    pub state: MouseState,
}

/// One decoded event.
#[derive(Clone, Copy, PartialEq, Eq, Debug)]
pub enum Input {
    /// A key that is no character went down.
    Key { code: KeyCode, mods: Mods },
    /// A character was typed.
    Char { ch: char, mods: Mods },
    /// A button was pressed, held while the mouse moved, or released.
    Mouse { event: MouseEvent, mods: Mods },
    /// The wheel turned one notch.
    Scroll { up: bool, position: (u16, u16), mods: Mods },
}

/// The key that a final byte names after `ESC O`, and after `ESC [` where the
/// sequence does not end in `~`.
pub open spec fn letter_key(b: u8) -> Option<KeyCode> {
    if b == 0x41 {
        Some(KeyCode::Up)
    } else if b == 0x42 {
        Some(KeyCode::Down)
    } else if b == 0x43 {
        Some(KeyCode::Right)
    } else if b == 0x44 {
        Some(KeyCode::Left)
    } else if b == 0x48 {
        Some(KeyCode::Home)
    } else if b == 0x46 {
        Some(KeyCode::End)
    } else if 0x50 <= b <= 0x53 {
        Some(KeyCode::Function((b - 0x4F) as u8))
    } else {
        None
    }
}

/// The key that the first parameter names in a CSI sequence that ends in `~`.
pub open spec fn tilde_key(n: u16) -> Option<KeyCode> {
    if n == 1 || n == 7 {
        Some(KeyCode::Home)
    } else if n == 2 {
        Some(KeyCode::Insert)
    } else if n == 3 {
        Some(KeyCode::Delete)
    } else if n == 4 || n == 8 {
        Some(KeyCode::End)
    } else if n == 5 {
        Some(KeyCode::PageUp)
    } else if n == 6 {
        Some(KeyCode::PageDown)
    } else if 11 <= n <= 15 {
        Some(KeyCode::Function((n - 10) as u8))
    } else if 17 <= n <= 21 {
        Some(KeyCode::Function((n - 11) as u8))
    } else if n == 23 || n == 24 {
        Some(KeyCode::Function((n - 12) as u8))
    } else {
        None
    }
}

/// What a control code means: carriage return and line feed are Return, tab
/// is Tab, backspace and DEL are Delete, and the codes 1 to 26 that are none
/// of these are Control with the letter of that number.
pub open spec fn decode_control(b: u8) -> Option<Input> {
    if b == 0x0D || b == 0x0A {
        Some(Input::Key { code: KeyCode::Return, mods: Mods::none() })
    } else if b == 0x09 {
        Some(Input::Key { code: KeyCode::Tab, mods: Mods::none() })
    } else if b == 0x08 || b == 0x7F {
        Some(Input::Key { code: KeyCode::Delete, mods: Mods::none() })
    } else if 1 <= b <= 26 {
        Some(
            Input::Char {
                ch: ((b + 0x60) as u8) as char,
                mods: Mods { control: true, ..Mods::none() },
            },
        )
    } else {
        None
    }
}

/// What an SGR mouse report means: `ESC [ < button ; column ; row` and `M`
/// for a press or `m` for a release. The button number holds the button in
/// its two lowest bits, then 4, 8 and 16 for the modifiers, 32 for a movement
/// with the button held, and 64 for the wheel. Column and row count from 1 in
/// the report and from 0 in the event. Anything else is no report.
pub open spec fn decode_mouse(params: Params, final_byte: u8) -> Option<Input> {
    let b = params.first;
    let pressed = final_byte == 0x4D;
    if params.len != 3 || !(pressed || final_byte == 0x6D) || b >= 128 || params.second == 0
        || params.third == 0 {
        None
    } else {
        let position = ((params.second - 1) as u16, (params.third - 1) as u16);
        let mods = Mods::of_button(b);
        if b >= 64 {
            if pressed && b % 4 < 2 && (b / 32) % 2 == 0 {
                Some(Input::Scroll { up: b % 4 == 0, position, mods })
            } else {
                None
            }
        } else if b % 4 == 3 {
            None
        } else {
            let event_type = if b % 4 == 0 {
                MouseEventType::Left
            } else if b % 4 == 1 {
                MouseEventType::Middle
            } else {
                MouseEventType::Right
            };
            let state = if !pressed {
                MouseState::Release
            } else if (b / 32) % 2 == 1 {
                MouseState::Hold
            } else {
                MouseState::Press
            };
            Some(Input::Mouse { event: MouseEvent { event_type, position, state }, mods })
        }
    }
}

/// What a CSI sequence means: a mouse report under the marker `<`, nothing
/// under another marker, Shift and Tab for `Z`, and else a key with the
/// modifiers that the second parameter names.
pub open spec fn decode_csi(marker: u8, params: Params, final_byte: u8) -> Option<Input> {
    if marker == 0x3C {
        decode_mouse(params, final_byte)
    } else if marker != 0 {
        None
    } else if final_byte == 0x5A {
        Some(Input::Key { code: KeyCode::Tab, mods: Mods { shift: true, ..Mods::none() } })
    } else {
        let key = if final_byte == 0x7E {
            tilde_key(params.get(0))
        } else {
            letter_key(final_byte)
        };
        match key {
            Some(code) => Some(Input::Key { code, mods: Mods::of_key_param(params.get(1)) }),
            None => None,
        }
    }
}

/// What an action of the state machine means to the application, if it means
/// anything.
pub open spec fn decode(a: Action) -> Option<Input> {
    match a {
        Action::Print(c) => Some(Input::Char { ch: c, mods: Mods::none() }),
        Action::Execute(b) => decode_control(b),
        Action::Esc(b) => if 0x20 <= b < 0x7F {
            Some(Input::Char { ch: b as char, mods: Mods { alt: true, ..Mods::none() } })
        } else {
            None
        },
        Action::Ss3(b) => match letter_key(b) {
            Some(code) => Some(Input::Key { code, mods: Mods::none() }),
            None => None,
        },
        Action::Csi { marker, params, final_byte } => decode_csi(marker, params, final_byte),
    }
}

/// The events of one tick.
pub struct EventSet {
    /// The keys that went down, each once, in the order in which they first
    /// came.
    pub keys: Seq<KeyCode>,
    /// The modifiers seen.
    pub mods: Mods,
    /// The characters typed, in the order in which they came.
    pub chars: Seq<char>,
    /// The last mouse event.
    pub mouse: Option<MouseEvent>,
    /// Notches of the wheel that nobody has taken yet: down counts up, up
    /// counts down.
    pub scroll: int,
    /// The number of bytes that the tick read.
    pub bytes: nat,
}

/// `keys` with `code` in it: at its end, unless it was there.
pub open spec fn with_key(keys: Seq<KeyCode>, code: KeyCode) -> Seq<KeyCode> {
    if keys.contains(code) {
        keys
    } else {
        keys.push(code)
    }
}

/// `scroll` one notch further, held within the range of an `i64`.
pub open spec fn scrolled(scroll: int, up: bool) -> int {
    if up {
        if scroll > i64::MIN {
            scroll - 1
        } else {
            scroll
        }
    } else {
        if scroll < i64::MAX {
            scroll + 1
        } else {
            scroll
        }
    }
}

impl EventSet {
    /// The set at the start of a tick: nothing in it but the scroll
    /// accumulator, which is kept.
    pub open spec fn cleared(self) -> EventSet {
        EventSet {
            keys: Seq::empty(),
            mods: Mods::none(),
            chars: Seq::empty(),
            mouse: None,
            scroll: self.scroll,
            bytes: 0,
        }
    }

    /// Whether the set holds no event.
    pub open spec fn is_empty(self) -> bool {
        &&& self.keys.len() == 0
        &&& self.mods.is_none()
        &&& self.chars.len() == 0
        &&& self.mouse is None
    }

    /// The set with one more event.
    pub open spec fn record(self, input: Input) -> EventSet {
        match input {
            Input::Key { code, mods } => EventSet {
                keys: with_key(self.keys, code),
                mods: self.mods.union(mods),
                ..self
            },
            Input::Char { ch, mods } => EventSet {
                chars: self.chars.push(ch),
                mods: self.mods.union(mods),
                ..self
            },
            Input::Mouse { event, mods } => EventSet {
                mouse: Some(event),
                mods: self.mods.union(mods),
                ..self
            },
            Input::Scroll { up, position, mods } => EventSet {
                mouse: Some(
                    MouseEvent {
                        event_type: if up {
                            MouseEventType::Up
                        } else {
                            MouseEventType::Down
                        },
                        position,
                        state: MouseState::Press,
                    },
                ),
                scroll: scrolled(self.scroll, up),
                mods: self.mods.union(mods),
                ..self
            },
        }
    }

    /// The set after one action of the state machine.
    pub open spec fn apply(self, a: Action) -> EventSet {
        match decode(a) {
            Some(input) => self.record(input),
            None => self,
        }
    }

    /// The set after the actions given, in order.
    pub open spec fn apply_all(self, actions: Seq<Action>) -> EventSet
        decreases actions.len(),
    {
        if actions.len() == 0 {
            self
        } else {
            self.apply_all(actions.drop_last()).apply(actions.last())
        }
    }

    /// The set and the state machine after a read that brought `bytes`.
    ///
    /// A read of the one byte `ESC` is the Escape key: no sequence can follow
    /// in that read, so the byte is not given to the state machine, which
    /// stays as it is. Any other read goes through the state machine.
    pub open spec fn fed(self, parser: Parser, bytes: Seq<u8>) -> (EventSet, Parser) {
        let counted = EventSet { bytes: bytes.len(), ..self };
        if bytes.len() == 1 && bytes[0] == ESC {
            (counted.record(Input::Key { code: KeyCode::Escape, mods: Mods::none() }), parser)
        } else {
            let (after, actions) = parser.run(bytes);
            (counted.apply_all(actions), after)
        }
    }

    /// Whether the tick saw the signal to terminate: Control and `c`.
    pub open spec fn terminates(self) -> bool {
        self.mods.control && self.chars.contains('c')
    }
}

/// After `clear_events`, and before anything is fed, every query answers no.
pub proof fn lemma_cleared_is_empty(e: EventSet)
    ensures
        e.cleared().is_empty(),
        forall|code: KeyCode| !e.cleared().keys.contains(code),
        forall|m: KeyModifiers| !e.cleared().mods.has(m),
        forall|c: char| !e.cleared().chars.contains(c),
        e.cleared().mouse is None,
        !e.cleared().terminates(),
        e.cleared().scroll == e.scroll,
{
}

/// A read that times out with no byte leaves the set without events.
pub proof fn lemma_empty_read(e: EventSet, parser: Parser)
    ensures
        e.fed(parser, Seq::empty()).0 == (EventSet { bytes: 0, ..e }),
        e.fed(parser, Seq::empty()).1 == parser,
        e.is_empty() ==> e.fed(parser, Seq::empty()).0.is_empty(),
{
}

/// A read of the one byte `ESC` yields the Escape key and nothing else,
/// whatever state the machine is in, and leaves the machine alone.
pub proof fn lemma_lone_escape(e: EventSet, parser: Parser)
    ensures
        e.cleared().fed(parser, seq![ESC]).0 == (EventSet {
            keys: seq![KeyCode::Escape],
            bytes: 1,
            ..e.cleared()
        }),
        e.cleared().fed(parser, seq![ESC]).1 == parser,
{
    let bytes = seq![ESC];
    assert(bytes.len() == 1 && bytes[0] == ESC);
    let keys = Seq::<KeyCode>::empty();
    assert(!keys.contains(KeyCode::Escape));
    assert(keys.push(KeyCode::Escape) =~= seq![KeyCode::Escape]);
}

/// `ESC [ A` in one read, with the machine between sequences, yields the Up
/// key and nothing else: no Escape key, and no character.
pub proof fn lemma_escape_sequence_is_no_escape(e: EventSet)
    ensures
        e.cleared().fed(Parser::initial(), seq![ESC, 0x5Bu8, 0x41u8]).0 == (EventSet {
            keys: seq![KeyCode::Up],
            bytes: 3,
            ..e.cleared()
        }),
        e.cleared().fed(Parser::initial(), seq![ESC, 0x5Bu8, 0x41u8]).1 == Parser::initial(),
{
    let bytes = seq![ESC, 0x5Bu8, 0x41u8];
    let p = Parser::initial();
    let b0 = Seq::<u8>::empty();
    let b1 = seq![ESC];
    let b2 = seq![ESC, 0x5Bu8];
    assert(b1.drop_last() =~= b0);
    assert(b2.drop_last() =~= b1);
    assert(bytes.drop_last() =~= b2);
    assert(p.run(b0) == (p, Seq::<Action>::empty()));
    assert(p.run(b1) == (Parser::reset_to(crate::decoder::State::Escape), Seq::<Action>::empty()));
    assert(p.run(b2) == (
        Parser::reset_to(crate::decoder::State::CsiEntry),
        Seq::<Action>::empty(),
    ));
    let up = Action::Csi { marker: 0, params: Params::empty().push(0), final_byte: 0x41 };
    assert(p.run(bytes).0 == p);
    assert(p.run(bytes).1 =~= seq![up]);
    let actions = p.run(bytes).1;
    assert(actions.drop_last() =~= Seq::<Action>::empty());
    let counted = EventSet { bytes: 3, ..e.cleared() };
    assert(counted.apply_all(actions.drop_last()) == counted);
    assert(decode(up) == Some(Input::Key { code: KeyCode::Up, mods: Mods::none() }));
    let keys = Seq::<KeyCode>::empty();
    assert(!keys.contains(KeyCode::Up));
    assert(keys.push(KeyCode::Up) =~= seq![KeyCode::Up]);
}

/// An event never takes anything out of the set: keys, modifiers and
/// characters that were in it stay in it.
pub proof fn lemma_apply_keeps(e: EventSet, a: Action)
    ensures
        forall|code: KeyCode| e.keys.contains(code) ==> e.apply(a).keys.contains(code),
        forall|m: KeyModifiers| e.mods.has(m) ==> e.apply(a).mods.has(m),
        forall|c: char| e.chars.contains(c) ==> e.apply(a).chars.contains(c),
{
    assert forall|code: KeyCode| e.keys.contains(code) implies e.apply(a).keys.contains(code) by {
        let i = choose|i: int| 0 <= i < e.keys.len() && e.keys[i] == code;
        assert(e.apply(a).keys[i] == code);
    }
    assert forall|c: char| e.chars.contains(c) implies e.apply(a).chars.contains(c) by {
        let i = choose|i: int| 0 <= i < e.chars.len() && e.chars[i] == c;
        assert(e.apply(a).chars[i] == c);
    }
}

/// An event never takes anything out of the set: keys, modifiers and
/// characters that were in it stay in it.
pub proof fn lemma_apply_all_keeps(e: EventSet, actions: Seq<Action>)
    ensures
        forall|code: KeyCode| e.keys.contains(code) ==> e.apply_all(actions).keys.contains(code),
        forall|m: KeyModifiers| e.mods.has(m) ==> e.apply_all(actions).mods.has(m),
        forall|c: char| e.chars.contains(c) ==> e.apply_all(actions).chars.contains(c),
    decreases actions.len(),
{
    if actions.len() > 0 {
        lemma_apply_all_keeps(e, actions.drop_last());
        lemma_apply_keeps(e.apply_all(actions.drop_last()), actions.last());
    }
}

/// Control and `c` are seen in the tick in which the byte 3 is executed,
/// whatever else the tick brings before or after it.
pub proof fn lemma_terminate_is_seen(e: EventSet, actions: Seq<Action>, i: int)
    requires
        0 <= i < actions.len(),
        actions[i] == Action::Execute(3),
    ensures
        e.apply_all(actions).terminates(),
    decreases actions.len(),
{
    let before = e.apply_all(actions.drop_last());
    if i == actions.len() - 1 {
        assert(((3u8 + 0x60) as u8) as char == 'c');
        let after = before.apply(actions.last());
        assert(after.chars == before.chars.push('c'));
        assert(after.chars[before.chars.len() as int] == 'c');
    } else {
        lemma_terminate_is_seen(e, actions.drop_last(), i);
        lemma_apply_keeps(before, actions.last());
        assert(before.mods.has(KeyModifiers::Control));
        assert(before.apply(actions.last()).mods.has(KeyModifiers::Control));
    }
}

fn letter_key_of(b: u8) -> (k: Option<KeyCode>)
    ensures
        k == letter_key(b),
{
    if b == 0x41 {
        Some(KeyCode::Up)
    } else if b == 0x42 {
        Some(KeyCode::Down)
    } else if b == 0x43 {
        Some(KeyCode::Right)
    } else if b == 0x44 {
        Some(KeyCode::Left)
    } else if b == 0x48 {
        Some(KeyCode::Home)
    } else if b == 0x46 {
        Some(KeyCode::End)
    } else if 0x50 <= b && b <= 0x53 {
        Some(KeyCode::Function(b - 0x4F))
    } else {
        None
    }
}

fn tilde_key_of(n: u16) -> (k: Option<KeyCode>)
    ensures
        k == tilde_key(n),
{
    if n == 1 || n == 7 {
        Some(KeyCode::Home)
    } else if n == 2 {
        Some(KeyCode::Insert)
    } else if n == 3 {
        Some(KeyCode::Delete)
    } else if n == 4 || n == 8 {
        Some(KeyCode::End)
    } else if n == 5 {
        Some(KeyCode::PageUp)
    } else if n == 6 {
        Some(KeyCode::PageDown)
    } else if 11 <= n && n <= 15 {
        Some(KeyCode::Function((n - 10) as u8))
    } else if 17 <= n && n <= 21 {
        Some(KeyCode::Function((n - 11) as u8))
    } else if n == 23 || n == 24 {
        Some(KeyCode::Function((n - 12) as u8))
    } else {
        None
    }
}

fn control_input(b: u8) -> (r: Option<Input>)
    ensures
        r == decode_control(b),
{
    if b == 0x0D || b == 0x0A {
        Some(Input::Key { code: KeyCode::Return, mods: Mods::empty() })
    } else if b == 0x09 {
        Some(Input::Key { code: KeyCode::Tab, mods: Mods::empty() })
    } else if b == 0x08 || b == 0x7F {
        Some(Input::Key { code: KeyCode::Delete, mods: Mods::empty() })
    } else if 1 <= b && b <= 26 {
        let letter: u8 = b + 0x60;
        Some(Input::Char { ch: letter as char, mods: Mods { shift: false, alt: false, control: true } })
    } else {
        None
    }
}

fn mouse_input(params: Params, final_byte: u8) -> (r: Option<Input>)
    ensures
        r == decode_mouse(params, final_byte),
{
    let b = params.first;
    let pressed = final_byte == 0x4D;
    if params.len != 3 || !(pressed || final_byte == 0x6D) || b >= 128 || params.second == 0
        || params.third == 0 {
        return None;
    }
    let position = (params.second - 1, params.third - 1);
    let mods = Mods::from_button(b);
    if b >= 64 {
        if pressed && b % 4 < 2 && (b / 32) % 2 == 0 {
            Some(Input::Scroll { up: b % 4 == 0, position, mods })
        } else {
            None
        }
    } else if b % 4 == 3 {
        None
    } else {
        let event_type = if b % 4 == 0 {
            MouseEventType::Left
        } else if b % 4 == 1 {
            MouseEventType::Middle
        } else {
            MouseEventType::Right
        };
        let state = if !pressed {
            MouseState::Release
        } else if (b / 32) % 2 == 1 {
            MouseState::Hold
        } else {
            MouseState::Press
        };
        Some(Input::Mouse { event: MouseEvent { event_type, position, state }, mods })
    }
}

fn csi_input(marker: u8, params: Params, final_byte: u8) -> (r: Option<Input>)
    ensures
        r == decode_csi(marker, params, final_byte),
{
    if marker == 0x3C {
        mouse_input(params, final_byte)
    } else if marker != 0 {
        None
    } else if final_byte == 0x5A {
        Some(Input::Key { code: KeyCode::Tab, mods: Mods { shift: true, alt: false, control: false } })
    } else {
        let key = if final_byte == 0x7E {
            tilde_key_of(params.value(0))
        } else {
            letter_key_of(final_byte)
        };
        match key {
            Some(code) => Some(Input::Key { code, mods: Mods::from_key_param(params.value(1)) }),
            None => None,
        }
    }
}

/// What an action of the state machine means to the application, if it means
/// anything: computes [`decode`].
pub fn decode_action(a: Action) -> (r: Option<Input>)
    ensures
        r == decode(a),
{
    match a {
        Action::Print(c) => Some(Input::Char { ch: c, mods: Mods::empty() }),
        Action::Execute(b) => control_input(b),
        Action::Esc(b) => {
            if 0x20 <= b && b < 0x7F {
                Some(Input::Char { ch: b as char, mods: Mods { shift: false, alt: true, control: false } })
            } else {
                None
            }
        },
        Action::Ss3(b) => {
            match letter_key_of(b) {
                Some(code) => Some(Input::Key { code, mods: Mods::empty() }),
                None => None,
            }
        },
        Action::Csi { marker, params, final_byte } => csi_input(marker, params, final_byte),
    }
}

/// The events of the tick that is under way, and the scroll accumulator.
#[derive(Debug)]
pub struct KeyParser {
    pub key_events: Vec<KeyCode>,
    pub key_modifiers: Mods,
    pub char_events: Vec<char>,
    pub mouse_event: Option<MouseEvent>,
    pub scroll_accumulate: i64,
    pub bytes: usize,
}

impl View for KeyParser {
    type V = EventSet;

    open spec fn view(&self) -> EventSet {
        EventSet {
            keys: self.key_events@,
            mods: self.key_modifiers,
            chars: self.char_events@,
            mouse: self.mouse_event,
            scroll: self.scroll_accumulate as int,
            bytes: self.bytes as nat,
        }
    }
}

impl KeyParser {
    /// An aggregator with no event and nothing scrolled.
    pub fn new() -> (k: KeyParser)
        ensures
            k@.is_empty(),
            k@.scroll == 0,
            k@.bytes == 0,
    {
        KeyParser {
            key_events: Vec::new(),
            key_modifiers: Mods::empty(),
            char_events: Vec::new(),
            mouse_event: None,
            scroll_accumulate: 0,
            bytes: 0,
        }
    }

    /// Starts a tick: forgets the events of the last one. The scroll
    /// accumulator is kept.
    pub fn clear_events(&mut self)
        ensures
            final(self)@ == old(self)@.cleared(),
            final(self)@.is_empty(),
    {
        self.key_events = Vec::new();
        self.key_modifiers = Mods::empty();
        self.char_events = Vec::new();
        self.mouse_event = None;
        self.bytes = 0;
    }

    /// Whether the key went down in this tick.
    pub fn contains_key(&self, code: KeyCode) -> (b: bool)
        ensures
            b == self@.keys.contains(code),
    {
        let mut i: usize = 0;
        while i < self.key_events.len()
            invariant
                i <= self.key_events.len(),
                forall|k: int| 0 <= k < i ==> self.key_events@[k] != code,
            decreases self.key_events.len() - i,
        {
            if self.key_events[i] == code {
                return true;
            }
            i += 1;
        }
        false
    }

    /// Whether the modifier was seen in this tick.
    pub fn contains_modifier(&self, m: KeyModifiers) -> (b: bool)
        ensures
            b == self@.mods.has(m),
    {
        self.key_modifiers.contains(m)
    }

    /// Whether the character was typed in this tick.
    pub fn contains_char(&self, c: char) -> (b: bool)
        ensures
            b == self@.chars.contains(c),
    {
        let mut i: usize = 0;
        while i < self.char_events.len()
            invariant
                i <= self.char_events.len(),
                forall|k: int| 0 <= k < i ==> self.char_events@[k] != c,
            decreases self.char_events.len() - i,
        {
            if self.char_events[i] == c {
                return true;
            }
            i += 1;
        }
        false
    }

    /// The mouse event of this tick, if there was one: the last, if there
    /// were several.
    pub fn mouse(&self) -> (m: Option<MouseEvent>)
        ensures
            m == self@.mouse,
    {
        self.mouse_event
    }

    /// Whether this tick saw the signal to terminate: Control and `c`.
    pub fn wants_exit(&self) -> (b: bool)
        ensures
            b == self@.terminates(),
    {
        self.key_modifiers.control && self.contains_char('c')
    }

    /// Hands over what the wheel has turned since it was last taken, and
    /// starts counting from 0 again.
    pub fn take_scroll(&mut self) -> (n: i64)
        ensures
            n == old(self)@.scroll,
            final(self)@ == (EventSet { scroll: 0, ..old(self)@ }),
    {
        let n = self.scroll_accumulate;
        self.scroll_accumulate = 0;
        n
    }

    /// Adds one event to the set.
    pub fn record(&mut self, input: Input)
        ensures
            final(self)@ == old(self)@.record(input),
    {
        match input {
            Input::Key { code, mods } => {
                if !self.contains_key(code) {
                    self.key_events.push(code);
                }
                self.key_modifiers = self.key_modifiers.merged(mods);
            },
            Input::Char { ch, mods } => {
                self.char_events.push(ch);
                self.key_modifiers = self.key_modifiers.merged(mods);
            },
            Input::Mouse { event, mods } => {
                self.mouse_event = Some(event);
                self.key_modifiers = self.key_modifiers.merged(mods);
            },
            Input::Scroll { up, position, mods } => {
                let event_type = if up {
                    MouseEventType::Up
                } else {
                    MouseEventType::Down
                };
                self.mouse_event = Some(MouseEvent { event_type, position, state: MouseState::Press });
                if up {
                    if self.scroll_accumulate > i64::MIN {
                        self.scroll_accumulate = self.scroll_accumulate - 1;
                    }
                } else {
                    if self.scroll_accumulate < i64::MAX {
                        self.scroll_accumulate = self.scroll_accumulate + 1;
                    }
                }
                self.key_modifiers = self.key_modifiers.merged(mods);
            },
        }
    }

    /// Takes one action of the state machine: the sink of the machine.
    pub fn apply(&mut self, action: Action)
        ensures
            final(self)@ == old(self)@.apply(action),
    {
        match decode_action(action) {
            Some(input) => self.record(input),
            None => {},
        }
    }

    /// Takes in what one read brought.
    ///
    /// A read of the one byte `ESC` is recorded as the Escape key and is not
    /// given to the state machine. Any other read, the empty one too, goes
    /// through the state machine, which may be inside a sequence that an
    /// earlier read began.
    pub fn feed(&mut self, parser: &mut Parser, bytes: &[u8])
        ensures
            (final(self)@, *final(parser)) == old(self)@.fed(*old(parser), bytes@),
    {
        self.bytes = bytes.len();
        if bytes.len() == 1 && bytes[0] == ESC {
            self.record(Input::Key { code: KeyCode::Escape, mods: Mods::empty() });
            return;
        }
        let actions = parser.advance(bytes);
        let ghost start = self@;
        let mut i: usize = 0;
        while i < actions.len()
            invariant
                i <= actions.len(),
                self@ == start.apply_all(actions@.take(i as int)),
            decreases actions.len() - i,
        {
            proof {
                assert(actions@.take(i as int + 1).drop_last() =~= actions@.take(i as int));
                assert(actions@.take(i as int + 1).last() == actions@[i as int]);
            }
            self.apply(actions[i]);
            i += 1;
        }
        proof {
            assert(actions@.take(actions@.len() as int) =~= actions@);
        }
    }
}

} // verus!
