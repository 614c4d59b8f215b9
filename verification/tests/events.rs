use term_journal::decoder::{Action, Params, Parser};
use term_journal::events::{
    decode_action, Input, KeyCode, KeyModifiers, KeyParser, Mods, MouseEvent, MouseEventType,
    MouseState,
};

fn fed(bytes: &[u8]) -> KeyParser {
    let mut keys = KeyParser::new();
    let mut parser = Parser::new();
    keys.clear_events();
    keys.feed(&mut parser, bytes);
    keys
}

const NO_MODS: Mods = Mods { shift: false, alt: false, control: false };

#[test]
fn lone_escape_is_the_escape_key() {
    let keys = fed(&[0x1B]);
    assert_eq!(keys.key_events, vec![KeyCode::Escape]);
    assert!(keys.contains_key(KeyCode::Escape));
    assert!(keys.char_events.is_empty());
    assert_eq!(keys.mouse_event, None);
    assert_eq!(keys.bytes, 1);
}

#[test]
fn lone_escape_leaves_the_state_machine_alone() {
    let mut keys = KeyParser::new();
    let mut parser = Parser::new();
    keys.feed(&mut parser, b"\x1b[1");
    let before = parser;
    keys.clear_events();
    keys.feed(&mut parser, &[0x1B]);
    assert_eq!(parser, before);
    assert_eq!(keys.key_events, vec![KeyCode::Escape]);
}

#[test]
fn escape_bracket_a_is_up_and_no_escape() {
    let keys = fed(&[0x1B, 0x5B, 0x41]);
    assert_eq!(keys.key_events, vec![KeyCode::Up]);
    assert!(keys.contains_key(KeyCode::Up));
    assert!(!keys.contains_key(KeyCode::Escape));
    assert!(keys.char_events.is_empty());
    assert_eq!(keys.bytes, 3);
}

#[test]
fn cleared_set_answers_no_to_every_query() {
    let mut keys = fed(b"a\x1b[A\x1b[<0;1;1M\x03");
    assert!(keys.contains_char('a'));
    keys.clear_events();
    for code in [KeyCode::Escape, KeyCode::Up, KeyCode::Return, KeyCode::Delete, KeyCode::Function(1)] {
        assert!(!keys.contains_key(code));
    }
    for m in [KeyModifiers::Shift, KeyModifiers::Alt, KeyModifiers::Control] {
        assert!(!keys.contains_modifier(m));
    }
    for c in ['a', 'c', ' ', '\u{0}'] {
        assert!(!keys.contains_char(c));
    }
    assert_eq!(keys.mouse(), None);
    assert!(!keys.wants_exit());
    assert_eq!(keys.bytes, 0);
}

#[test]
fn empty_read_leaves_the_set_empty() {
    let keys = fed(&[]);
    assert!(keys.key_events.is_empty());
    assert!(keys.char_events.is_empty());
    assert!(keys.key_modifiers.is_empty());
    assert_eq!(keys.mouse_event, None);
    assert_eq!(keys.bytes, 0);
}

#[test]
fn control_c_is_seen_among_other_events() {
    for bytes in [&b"\x03"[..], &b"ab\x03"[..], &b"\x03xy"[..], &b"\x1b[A\x03\x1b[<0;1;1M"[..]] {
        let keys = fed(bytes);
        assert!(keys.contains_modifier(KeyModifiers::Control));
        assert!(keys.contains_char('c'));
        assert!(keys.wants_exit());
    }
    assert!(!fed(b"c").wants_exit());
}

#[test]
fn typed_characters_keep_their_order() {
    let keys = fed("héllo".as_bytes());
    assert_eq!(keys.char_events, vec!['h', 'é', 'l', 'l', 'o']);
    assert!(keys.key_modifiers.is_empty());
}

#[test]
fn return_tab_and_delete() {
    assert_eq!(fed(&[0x0D]).key_events, vec![KeyCode::Return]);
    assert_eq!(fed(&[0x0A]).key_events, vec![KeyCode::Return]);
    assert_eq!(fed(&[0x09]).key_events, vec![KeyCode::Tab]);
    assert_eq!(fed(&[0x7F]).key_events, vec![KeyCode::Delete]);
    assert_eq!(fed(&[0x08]).key_events, vec![KeyCode::Delete]);
    assert_eq!(fed(b"\x1b[3~").key_events, vec![KeyCode::Delete]);
    assert!(fed(&[0x7F]).char_events.is_empty());
}

#[test]
fn a_key_is_recorded_once() {
    let keys = fed(b"\x1b[A\x1b[B\x1b[A");
    assert_eq!(keys.key_events, vec![KeyCode::Up, KeyCode::Down]);
}

#[test]
fn arrows_and_function_keys() {
    assert_eq!(fed(b"\x1b[B").key_events, vec![KeyCode::Down]);
    assert_eq!(fed(b"\x1b[C").key_events, vec![KeyCode::Right]);
    assert_eq!(fed(b"\x1b[D").key_events, vec![KeyCode::Left]);
    assert_eq!(fed(b"\x1bOA").key_events, vec![KeyCode::Up]);
    assert_eq!(fed(b"\x1b[H").key_events, vec![KeyCode::Home]);
    assert_eq!(fed(b"\x1b[F").key_events, vec![KeyCode::End]);
    assert_eq!(fed(b"\x1b[5~").key_events, vec![KeyCode::PageUp]);
    assert_eq!(fed(b"\x1b[6~").key_events, vec![KeyCode::PageDown]);
    assert_eq!(fed(b"\x1b[2~").key_events, vec![KeyCode::Insert]);
    assert_eq!(fed(b"\x1bOP").key_events, vec![KeyCode::Function(1)]);
    assert_eq!(fed(b"\x1bOS").key_events, vec![KeyCode::Function(4)]);
    assert_eq!(fed(b"\x1b[15~").key_events, vec![KeyCode::Function(5)]);
    assert_eq!(fed(b"\x1b[17~").key_events, vec![KeyCode::Function(6)]);
    assert_eq!(fed(b"\x1b[21~").key_events, vec![KeyCode::Function(10)]);
    assert_eq!(fed(b"\x1b[24~").key_events, vec![KeyCode::Function(12)]);
    assert!(fed(b"\x1b[16~").key_events.is_empty());
    assert!(fed(b"\x1b[?1A").key_events.is_empty());
}

#[test]
fn modifiers_of_keys() {
    let keys = fed(b"\x1b[1;2A");
    assert_eq!(keys.key_events, vec![KeyCode::Up]);
    assert_eq!(keys.key_modifiers, Mods { shift: true, alt: false, control: false });
    assert_eq!(fed(b"\x1b[1;5C").key_modifiers, Mods { shift: false, alt: false, control: true });
    assert_eq!(fed(b"\x1b[1;3C").key_modifiers, Mods { shift: false, alt: true, control: false });
    assert_eq!(fed(b"\x1b[3;8~").key_modifiers, Mods { shift: true, alt: true, control: true });
    assert_eq!(fed(b"\x1b[1;1C").key_modifiers, NO_MODS);
    let back = fed(b"\x1b[Z");
    assert_eq!(back.key_events, vec![KeyCode::Tab]);
    assert!(back.contains_modifier(KeyModifiers::Shift));
}

#[test]
fn alt_with_a_character() {
    let keys = fed(b"\x1bx");
    assert_eq!(keys.char_events, vec!['x']);
    assert_eq!(keys.key_modifiers, Mods { shift: false, alt: true, control: false });
    assert!(keys.key_events.is_empty());
}

#[test]
fn control_with_a_letter() {
    let keys = fed(&[0x01]);
    assert_eq!(keys.char_events, vec!['a']);
    assert!(keys.contains_modifier(KeyModifiers::Control));
    let keys = fed(&[0x1A]);
    assert_eq!(keys.char_events, vec!['z']);
}

#[test]
fn mouse_press_release_and_hold() {
    let keys = fed(b"\x1b[<0;10;5M");
    assert_eq!(keys.mouse(), Some(MouseEvent {
        event_type: MouseEventType::Left,
        position: (9, 4),
        state: MouseState::Press
    }));
    let keys = fed(b"\x1b[<0;10;5m");
    assert_eq!(keys.mouse(), Some(MouseEvent {
        event_type: MouseEventType::Left,
        position: (9, 4),
        state: MouseState::Release
    }));
    let keys = fed(b"\x1b[<32;1;1M");
    assert_eq!(keys.mouse(), Some(MouseEvent {
        event_type: MouseEventType::Left,
        position: (0, 0),
        state: MouseState::Hold
    }));
    let keys = fed(b"\x1b[<1;80;24M");
    assert_eq!(keys.mouse(), Some(MouseEvent {
        event_type: MouseEventType::Middle,
        position: (79, 23),
        state: MouseState::Press
    }));
    let keys = fed(b"\x1b[<2;2;3m");
    assert_eq!(keys.mouse(), Some(MouseEvent {
        event_type: MouseEventType::Right,
        position: (1, 2),
        state: MouseState::Release
    }));
}

#[test]
fn mouse_modifiers() {
    let keys = fed(b"\x1b[<16;1;1M");
    assert!(keys.contains_modifier(KeyModifiers::Control));
    assert_eq!(keys.mouse().unwrap().event_type, MouseEventType::Left);
    let keys = fed(b"\x1b[<4;1;1M");
    assert!(keys.contains_modifier(KeyModifiers::Shift));
    let keys = fed(b"\x1b[<9;1;1M");
    assert!(keys.contains_modifier(KeyModifiers::Alt));
    assert_eq!(keys.mouse().unwrap().event_type, MouseEventType::Middle);
}

#[test]
fn the_last_mouse_event_stays() {
    let keys = fed(b"\x1b[<0;1;1M\x1b[<0;7;8m");
    assert_eq!(keys.mouse(), Some(MouseEvent {
        event_type: MouseEventType::Left,
        position: (6, 7),
        state: MouseState::Release
    }));
}

#[test]
fn malformed_mouse_reports_are_dropped() {
    assert_eq!(fed(b"\x1b[<0;0;5M").mouse(), None);
    assert_eq!(fed(b"\x1b[<0;5;0M").mouse(), None);
    assert_eq!(fed(b"\x1b[<0;5M").mouse(), None);
    assert_eq!(fed(b"\x1b[<3;5;5M").mouse(), None);
    assert_eq!(fed(b"\x1b[<128;5;5M").mouse(), None);
    assert_eq!(fed(b"\x1b[<0;5;5x").mouse(), None);
    assert_eq!(fed(b"\x1b[<66;5;5M").mouse(), None);
    assert_eq!(fed(b"\x1b[<64;5;5m").mouse(), None);
}

#[test]
fn wheel_adds_to_the_scroll_accumulator() {
    let mut keys = KeyParser::new();
    let mut parser = Parser::new();
    keys.feed(&mut parser, b"\x1b[<65;3;4M");
    assert_eq!(keys.mouse(), Some(MouseEvent {
        event_type: MouseEventType::Down,
        position: (2, 3),
        state: MouseState::Press
    }));
    assert_eq!(keys.scroll_accumulate, 1);
    keys.clear_events();
    assert_eq!(keys.scroll_accumulate, 1);
    assert_eq!(keys.mouse(), None);
    keys.feed(&mut parser, b"\x1b[<65;3;4M\x1b[<65;3;4M");
    assert_eq!(keys.scroll_accumulate, 3);
    keys.clear_events();
    keys.feed(&mut parser, b"\x1b[<64;3;4M");
    assert_eq!(keys.mouse().unwrap().event_type, MouseEventType::Up);
    assert_eq!(keys.scroll_accumulate, 2);
    assert_eq!(keys.take_scroll(), 2);
    assert_eq!(keys.scroll_accumulate, 0);
    keys.feed(&mut parser, b"\x1b[<64;3;4M");
    assert_eq!(keys.scroll_accumulate, -1);
}

#[test]
fn scroll_accumulator_stays_in_range() {
    let mut keys = KeyParser::new();
    keys.scroll_accumulate = i64::MAX;
    keys.record(Input::Scroll { up: false, position: (0, 0), mods: NO_MODS });
    assert_eq!(keys.scroll_accumulate, i64::MAX);
    keys.scroll_accumulate = i64::MIN;
    keys.record(Input::Scroll { up: true, position: (0, 0), mods: NO_MODS });
    assert_eq!(keys.scroll_accumulate, i64::MIN);
}

#[test]
fn sequence_split_over_two_reads() {
    let mut keys = KeyParser::new();
    let mut parser = Parser::new();
    keys.feed(&mut parser, b"\x1b[");
    assert!(keys.key_events.is_empty());
    keys.clear_events();
    keys.feed(&mut parser, b"A");
    assert_eq!(keys.key_events, vec![KeyCode::Up]);
    assert!(keys.char_events.is_empty());
}

#[test]
fn decode_action_of_each_kind() {
    assert_eq!(decode_action(Action::Print('q')), Some(Input::Char { ch: 'q', mods: NO_MODS }));
    assert_eq!(decode_action(Action::Execute(0)), None);
    assert_eq!(decode_action(Action::Execute(0x1C)), None);
    assert_eq!(decode_action(Action::Esc(0x7F)), None);
    assert_eq!(decode_action(Action::Ss3(b'Z')), None);
    assert_eq!(
        decode_action(Action::Csi {
            marker: 0,
            params: Params { len: 1, first: 0, second: 0, third: 0, fourth: 0 },
            final_byte: b'A'
        }),
        Some(Input::Key { code: KeyCode::Up, mods: NO_MODS })
    );
}

#[test]
fn apply_is_the_sink_of_the_state_machine() {
    let mut keys = KeyParser::new();
    keys.apply(Action::Print('x'));
    keys.apply(Action::Execute(0x0D));
    keys.apply(Action::Esc(0x7F));
    assert_eq!(keys.char_events, vec!['x']);
    assert_eq!(keys.key_events, vec![KeyCode::Return]);
}
